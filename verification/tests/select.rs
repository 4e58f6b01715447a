use std::sync::Arc;
use zed::Language;
use zed::LanguageConfig;
use zed::LanguageRegistry;

fn get_name(language: &Arc<Language>) -> &str {
    language.config.name.as_str()
}

fn make_language(name: &str, suffixes: &[&str]) -> Language {
    let config = LanguageConfig {
        name: name.to_string(),
        path_suffixes: suffixes.iter().map(|s| s.to_string()).collect(),
    };
    Language::new(config, "").unwrap()
}

#[test]
fn test_select_language() {
    let registry = LanguageRegistry::from_languages(vec![
        Arc::new(make_language("Rust", &["rs"])),
        Arc::new(make_language("Make", &["Makefile", "mk"])),
    ]);

    // matching file extension
    assert_eq!(
        registry.select_language("zed/lib.rs").map(get_name),
        Some("Rust")
    );
    assert_eq!(
        registry.select_language("zed/lib.mk").map(get_name),
        Some("Make")
    );

    // matching filename
    assert_eq!(
        registry.select_language("zed/Makefile").map(get_name),
        Some("Make")
    );

    // matching suffix that is not the full file extension or filename
    assert_eq!(registry.select_language("zed/cars").map(get_name), None);
    assert_eq!(registry.select_language("zed/a.cars").map(get_name), None);
    assert_eq!(registry.select_language("zed/sumk").map(get_name), None);
}

#[test]
fn first_registered_language_wins_ties() {
    let registry = LanguageRegistry::from_languages(vec![
        Arc::new(make_language("First", &["rs"])),
        Arc::new(make_language("Second", &["rs", "lib.rs"])),
    ]);
    assert_eq!(
        registry.select_language("src/lib.rs").map(get_name),
        Some("First")
    );
}

#[test]
fn bare_filename_offers_no_extension_key() {
    let registry = LanguageRegistry::from_languages(vec![Arc::new(make_language(
        "Make",
        &["mk"],
    ))]);
    assert_eq!(registry.select_language("Makefile.mk").map(get_name), Some("Make"));
    assert_eq!(registry.select_language("mk").map(get_name), Some("Make"));
    assert_eq!(registry.select_language("sumk").map(get_name), None);
}

#[test]
fn empty_suffix_list_matches_nothing() {
    let registry = LanguageRegistry::from_languages(vec![Arc::new(make_language("Mute", &[]))]);
    assert_eq!(registry.select_language("anything.rs").map(get_name), None);
}

#[test]
fn dotfile_offers_its_extension_key() {
    let registry = LanguageRegistry::from_languages(vec![
        Arc::new(make_language("Rust", &["rs"])),
        Arc::new(make_language("Git", &["gitignore"])),
    ]);
    assert_eq!(
        registry.select_language("repo/.gitignore").map(get_name),
        Some("Git")
    );
    assert_eq!(
        registry.select_language("repo/notes.gitignore").map(get_name),
        Some("Git")
    );
    assert_eq!(registry.select_language(".rs").map(get_name), Some("Rust"));
}

#[test]
fn earlier_extension_match_beats_later_filename_match() {
    let registry = LanguageRegistry::from_languages(vec![
        Arc::new(make_language("ByExtension", &["rs"])),
        Arc::new(make_language("ByFilename", &[".rs"])),
    ]);
    assert_eq!(
        registry.select_language(".rs").map(get_name),
        Some("ByExtension")
    );
}
