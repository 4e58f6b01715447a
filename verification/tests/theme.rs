use zed::LanguageRegistry;
use zed::Style;
use zed::StyleEntry;
use zed::Theme;

fn entry(name: &str, color: u32, bold: bool) -> StyleEntry {
    StyleEntry {
        name: name.to_string(),
        style: Style { color, bold },
    }
}

fn sample_theme() -> Theme {
    Theme {
        entries: vec![
            entry("keyword", 0x0000ff, true),
            entry("string", 0x00ff00, false),
            entry("comment", 0x888888, false),
        ],
        default_style: Style { color: 0xffffff, bold: false },
    }
}

#[test]
fn registry_builds_from_embedded_definition() {
    let registry = LanguageRegistry::new().unwrap();
    let language = registry.select_language("src/main.rs").unwrap();
    assert_eq!(language.config.name.as_str(), "Rust");
    assert_eq!(language.config.path_suffixes, vec!["rs".to_string()]);
    assert!(registry.select_language("src/main.py").is_none());
}

#[test]
fn mapping_is_empty_before_first_theme() {
    let registry = LanguageRegistry::new().unwrap();
    let language = registry.select_language("lib.rs").unwrap();
    assert!(language.theme_mapping().entries.is_empty());
}

#[test]
fn set_theme_resolves_every_capture_name() {
    let registry = LanguageRegistry::new().unwrap();
    registry.set_theme(&sample_theme());
    let language = registry.select_language("lib.rs").unwrap();
    let mapping = language.theme_mapping();
    let names: Vec<&str> = mapping.entries.iter().map(|e| e.name.as_str()).collect();
    assert_eq!(names, vec!["comment", "string", "function", "keyword"]);
    let styles: Vec<Style> = mapping.entries.iter().map(|e| e.style).collect();
    assert_eq!(
        styles,
        vec![
            Style { color: 0x888888, bold: false },
            Style { color: 0x00ff00, bold: false },
            Style { color: 0xffffff, bold: false },
            Style { color: 0x0000ff, bold: true },
        ]
    );
}

#[test]
fn set_theme_twice_with_same_theme_is_idempotent() {
    let registry = LanguageRegistry::new().unwrap();
    registry.set_theme(&sample_theme());
    let language = registry.select_language("lib.rs").unwrap();
    let first = language.theme_mapping();
    registry.set_theme(&sample_theme());
    let second = language.theme_mapping();
    assert_eq!(first, second);
}

#[test]
fn set_theme_replaces_mapping_wholesale() {
    let registry = LanguageRegistry::new().unwrap();
    registry.set_theme(&sample_theme());
    let other = Theme {
        entries: vec![entry("keyword", 0x123456, false)],
        default_style: Style { color: 0, bold: false },
    };
    registry.set_theme(&other);
    let language = registry.select_language("lib.rs").unwrap();
    let mapping = language.theme_mapping();
    for e in &mapping.entries {
        let expected = if e.name.as_str() == "keyword" {
            Style { color: 0x123456, bold: false }
        } else {
            Style { color: 0, bold: false }
        };
        assert_eq!(e.style, expected);
    }
}

#[test]
fn style_lookup_takes_first_entry_then_default() {
    let theme = Theme {
        entries: vec![entry("keyword", 1, false), entry("keyword", 2, true)],
        default_style: Style { color: 9, bold: false },
    };
    assert_eq!(theme.style_for("keyword"), Style { color: 1, bold: false });
    assert_eq!(theme.style_for("comment"), Style { color: 9, bold: false });
}
