use darb::i18n::{format_text, parse_locale_toml, I18n, Locale};

#[test]
fn locale_parse_defaults_to_pt() {
    assert_eq!(Locale::parse("pt"), Locale::Pt);
    assert_eq!(Locale::parse("en"), Locale::En);
    assert_eq!(Locale::parse("xx"), Locale::Pt);
}

#[test]
fn locale_codes_parse_back() {
    for locale in [Locale::Pt, Locale::En] {
        assert_eq!(Locale::parse(locale.as_str()), locale);
    }
    assert_eq!(Locale::parse("  EN "), Locale::En);
}

#[test]
fn resolves_pt_by_default() {
    let i18n = I18n::new(Locale::Pt).expect("locales must parse");
    assert_eq!(i18n.text("agent.thinking"), "A pensar...");
}

/// Build an instance from raw TOML, bypassing the embedded locales.
fn from_toml(pt: &str, en: &str, language: Locale) -> I18n {
    I18n::from_sources(language, pt, en).expect("catalogs must parse")
}

#[test]
fn falls_back_to_en_when_pt_missing() {
    let i18n = from_toml(
        "[a]\npt_only = \"PT\"",
        "[a]\npt_only = \"PT\"\nen_only = \"EN\"",
        Locale::Pt,
    );
    assert_eq!(i18n.text("a.en_only"), "EN");
    assert_eq!(i18n.text("a.pt_only"), "PT");
}

/// Both shipped locales must define the same keys: the en fallback is a
/// safety net, not a place to park untranslated strings.
#[test]
fn shipped_locales_have_the_same_keys() {
    let i18n = I18n::new(Locale::Pt).expect("locales must parse");
    let mut missing_in_pt: Vec<&str> = i18n
        .en
        .entries
        .iter()
        .map(|(key, _)| key.as_str())
        .filter(|key| !i18n.pt.contains_key(key))
        .collect();
    let mut missing_in_en: Vec<&str> = i18n
        .pt
        .entries
        .iter()
        .map(|(key, _)| key.as_str())
        .filter(|key| !i18n.en.contains_key(key))
        .collect();
    missing_in_pt.sort_unstable();
    missing_in_en.sort_unstable();
    assert!(missing_in_pt.is_empty(), "missing in pt: {missing_in_pt:?}");
    assert!(missing_in_en.is_empty(), "missing in en: {missing_in_en:?}");
}

#[test]
fn multi_line_values_keep_their_newlines() {
    let i18n = I18n::new(Locale::Pt).expect("locales must parse");
    let usage = i18n.text("cli.usage");
    assert!(usage.contains('\n'), "{usage:?}");
    assert!(usage.contains("darb doctor"), "{usage:?}");
}

#[test]
fn placeholders_are_filled_and_unknown_ones_stay() {
    assert_eq!(format_text("Perfil: {name}", &[("name", "eco")]), "Perfil: eco");
    assert_eq!(format_text("a {x} b", &[]), "a {x} b");
}

#[test]
fn macro_fills_named_arguments() {
    let i18n = I18n::new(Locale::Pt).expect("init must succeed");
    assert_eq!(i18n.format("app.profile", &[("name", "eco")]), "Perfil: eco");
    assert_eq!(i18n.format("agent.tool_failed", &[("tool", "shell")]), "shell falhou");
}

#[test]
fn unknown_key_echoes() {
    let i18n = I18n::new(Locale::En).expect("locales must parse");
    assert_eq!(i18n.text("does.not.exist"), "does.not.exist");
}

#[test]
fn global_text_and_macro_agree() {
    let mut i18n = I18n::new(Locale::En).expect("init must succeed");
    assert_eq!(i18n.text("agent.thinking"), "Thinking...");
    assert_eq!(i18n.format("agent.thinking", &[]), "Thinking...");
    i18n.set_language(Locale::Pt);
    assert_eq!(i18n.format("agent.thinking", &[]), "A pensar...");
}

#[test]
fn every_placeholder_occurrence_is_filled() {
    assert_eq!(format_text("{a}-{a}-{b}", &[("a", "1"), ("b", "2")]), "1-1-2");
    assert_eq!(format_text("{a}", &[("a", "{b}"), ("b", "x")]), "x");
}

#[test]
fn invalid_catalog_is_a_config_error() {
    let err = parse_locale_toml("[a\nb = ", "pt").err().expect("must fail");
    assert!(err.message().starts_with("config error: invalid locale 'pt': "), "{}", err.message());
}

#[test]
fn nested_tables_and_other_values_flatten() {
    let map = parse_locale_toml("top = 1\n[a.b]\nc = \"deep\"\n", "en").expect("parse");
    assert_eq!(map.get("a.b.c").map(String::as_str), Some("deep"));
    assert_eq!(map.get("top").map(String::as_str), Some("1"));
}

#[test]
fn a_decoded_catalog_is_flattened() {
    let doc = vec![
        ("title".to_string(), darb::tomldoc::TomlValue::Str("Darb".to_string())),
        (
            "app".to_string(),
            darb::tomldoc::TomlValue::Table(vec![
                ("ready".to_string(), darb::tomldoc::TomlValue::Str("Pronto".to_string())),
                ("count".to_string(), darb::tomldoc::TomlValue::Other("3".to_string())),
            ]),
        ),
    ];
    let catalog = darb::i18n::catalog_from(&doc);
    assert_eq!(catalog.len(), 3);
    assert_eq!(catalog.get("title").map(String::as_str), Some("Darb"));
    assert_eq!(catalog.get("app.ready").map(String::as_str), Some("Pronto"));
    assert_eq!(catalog.get("app.count").map(String::as_str), Some("3"));
}
