//! A language definition registry for a syntax-highlighting subsystem.
//!
//! For each supported language the registry holds a parsed grammar, a compiled
//! highlight-capture query, and a mutable mapping from capture names to display
//! styles derived from the active theme.  Given a file path it selects the
//! single best-matching language; given a new theme it recomputes every
//! language's capture-to-style mapping in place.

pub mod config;
pub mod language;
pub mod paths;
pub mod registry;
pub mod theme;

pub use config::LanguageConfig;
pub use config::LoadError;
pub use language::Language;
pub use registry::LanguageRegistry;
pub use theme::Style;
pub use theme::StyleEntry;
pub use theme::Theme;
pub use theme::ThemeMap;
