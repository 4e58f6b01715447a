//! Per-language declarative configuration.
//!
//! A language's configuration resource is structured text naming the language
//! and listing its path suffixes: matching keys that are each either a bare
//! extension (no leading dot) or a full filename.

use vstd::prelude::*;
use crate::paths::str_eq;

verus! {

/// A startup-time configuration failure.  Construction of the registry is
/// fatal on these: a language whose definition cannot be loaded has no
/// degraded-but-functional mode.
#[derive(Clone, Copy, PartialEq, Eq, Structural, Debug)]
pub enum LoadError {
    /// The configuration resource is not well-formed text of the expected
    /// shape (a `name` string and a `path_suffixes` array of strings).
    InvalidConfig,
    /// The highlight query does not compile against the grammar, for example
    /// because it references node names the grammar does not define.
    InvalidQuery,
}

/// Mathematical content of a language configuration.
pub ghost struct ConfigView {
    pub name: Seq<char>,
    pub path_suffixes: Seq<Seq<char>>,
}

/// Declarative configuration of one language: its unique human-readable name
/// and its ordered list of path suffixes.
#[derive(Debug)]
pub struct LanguageConfig {
    pub name: String,
    pub path_suffixes: Vec<String>,
}

impl View for LanguageConfig {
    type V = ConfigView;

    open spec fn view(&self) -> ConfigView {
        ConfigView { name: self.name@, path_suffixes: self.path_suffixes.deep_view() }
    }
}

impl Default for LanguageConfig {
    /// A nameless configuration with no suffixes: it matches no path.
    fn default() -> (c: Self)
        ensures
            c@.name =~= Seq::<char>::empty(),
            c@.path_suffixes =~= Seq::<Seq<char>>::empty(),
    {
        LanguageConfig { name: String::new(), path_suffixes: Vec::new() }
    }
}

/// The `name` and `path_suffixes` fields that the configuration text denotes,
/// or nothing when the text is malformed or lacks either field.  The result
/// depends on the text alone.
pub uninterp spec fn spec_config_fields(s: Seq<char>) -> Option<(Seq<char>, Seq<Seq<char>>)>;

/// Relies on toml's document parser (`toml::Table::from_str`): what a fixed
/// configuration text parses to depends on that text alone.  The field
/// accessors only tell the parsed value's variants apart and move its
/// strings out.
#[verifier::external_body]
fn parse_config_fields(source: &str) -> (r: Option<LanguageConfig>)
    ensures
        match r {
            Some(c) => spec_config_fields(source@) == Some(
                (c.name@, c.path_suffixes.deep_view()),
            ),
            None => spec_config_fields(source@) is None,
        },
{
    let table: toml::Table = source.parse().ok()?;
    let name = table.get("name")?.as_str()?.to_owned();
    let items = table.get("path_suffixes")?.as_array()?;
    let mut path_suffixes: Vec<String> = Vec::new();
    for item in items {
        path_suffixes.push(item.as_str()?.to_owned());
    }
    Some(LanguageConfig { name, path_suffixes })
}

/// Parse a language configuration resource, rejecting malformed text.
pub fn parse_language_config(source: &str) -> (r: Result<LanguageConfig, LoadError>)
    ensures
        match r {
            Ok(c) => spec_config_fields(source@) == Some((c@.name, c@.path_suffixes)),
            Err(e) => e == LoadError::InvalidConfig && spec_config_fields(source@) is None,
        },
{
    match parse_config_fields(source) {
        Some(c) => Ok(c),
        None => Err(LoadError::InvalidConfig),
    }
}

/// Whether one suffix hits one of the path's keys: whole-key equality with
/// the filename, or with the extension when the path has one.  Never a
/// substring match.
pub open spec fn suffix_hits(suffix: Seq<char>, fname: Seq<char>, ext: Option<Seq<char>>) -> bool {
    suffix == fname || match ext {
        Some(e) => suffix == e,
        None => false,
    }
}

/// Whether any of the registered suffixes hits one of the path's keys.
pub open spec fn spec_key_match(
    suffixes: Seq<Seq<char>>,
    fname: Seq<char>,
    ext: Option<Seq<char>>,
) -> bool {
    exists|k: int| 0 <= k < suffixes.len() && suffix_hits(suffixes[k], fname, ext)
}

/// View of an optional borrowed string.
pub open spec fn spec_opt_view(e: Option<&str>) -> Option<Seq<char>> {
    match e {
        Some(s) => Some(s@),
        None => None,
    }
}

impl LanguageConfig {
    /// Whether any of this configuration's suffixes exactly equals the given
    /// filename key or the given extension key.
    pub fn matches_keys(&self, filename: &str, extension: Option<&str>) -> (r: bool)
        ensures
            r == spec_key_match(self@.path_suffixes, filename@, spec_opt_view(extension)),
    {
        let mut k: usize = 0;
        while k < self.path_suffixes.len()
            invariant
                k <= self.path_suffixes.len(),
                forall|j: int| 0 <= j < k ==> !suffix_hits(
                    self@.path_suffixes[j],
                    filename@,
                    spec_opt_view(extension),
                ),
            decreases self.path_suffixes.len() - k,
        {
            if str_eq(self.path_suffixes[k].as_str(), filename) {
                proof {
                    assert(suffix_hits(
                        self@.path_suffixes[k as int],
                        filename@,
                        spec_opt_view(extension),
                    ));
                }
                return true;
            }
            match extension {
                Some(e) => {
                    if str_eq(self.path_suffixes[k].as_str(), e) {
                        proof {
                            assert(suffix_hits(
                                self@.path_suffixes[k as int],
                                filename@,
                                spec_opt_view(extension),
                            ));
                        }
                        return true;
                    }
                },
                None => {},
            }
            k = k + 1;
        }
        false
    }
}

} // verus!
