use zed::Language;
use zed::LanguageConfig;
use zed::LoadError;
use zed::config::parse_language_config;
use zed::paths::extension_of;
use zed::paths::filename_of;

#[test]
fn parse_reads_name_and_suffixes() {
    let config =
        parse_language_config("name = \"Rust\"\npath_suffixes = [\"rs\", \"rlib\"]\n").unwrap();
    assert_eq!(config.name.as_str(), "Rust");
    assert_eq!(
        config.path_suffixes,
        vec!["rs".to_string(), "rlib".to_string()]
    );
}

#[test]
fn parse_rejects_malformed_text() {
    assert_eq!(
        parse_language_config("this is not a config").unwrap_err(),
        LoadError::InvalidConfig
    );
}

#[test]
fn parse_rejects_missing_fields() {
    assert_eq!(
        parse_language_config("name = \"Rust\"\n").unwrap_err(),
        LoadError::InvalidConfig
    );
    assert_eq!(
        parse_language_config("path_suffixes = [\"rs\"]\n").unwrap_err(),
        LoadError::InvalidConfig
    );
}

#[test]
fn parse_rejects_wrongly_typed_fields() {
    assert_eq!(
        parse_language_config("name = 3\npath_suffixes = [\"rs\"]\n").unwrap_err(),
        LoadError::InvalidConfig
    );
    assert_eq!(
        parse_language_config("name = \"Rust\"\npath_suffixes = [1, 2]\n").unwrap_err(),
        LoadError::InvalidConfig
    );
}

#[test]
fn bad_query_fails_language_load() {
    let config = LanguageConfig {
        name: "Rust".to_string(),
        path_suffixes: vec!["rs".to_string()],
    };
    match Language::new(config, "(no_such_node_kind) @x") {
        Err(e) => assert_eq!(e, LoadError::InvalidQuery),
        Ok(_) => panic!("a query over unknown node kinds must not compile"),
    }
}

#[test]
fn path_keys_are_filename_and_extension() {
    assert_eq!(filename_of("zed/src/lib.rs"), "lib.rs");
    assert_eq!(filename_of("Makefile"), "Makefile");
    assert_eq!(extension_of("lib.rs"), Some("rs"));
    assert_eq!(extension_of("Makefile"), None);
    assert_eq!(extension_of(".gitignore"), Some("gitignore"));
    assert_eq!(extension_of("archive.tar.gz"), Some("gz"));
}
