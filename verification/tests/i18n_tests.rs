use fedora_kernel_manager::i18n::{locale_from_file_name, locale_from_lang, I18nBackend};

#[test]
fn locale_names() {
    assert_eq!(locale_from_file_name("en_US.json"), "en_US");
    assert_eq!(locale_from_file_name("de_DE.json.json"), "de_DE");
    assert_eq!(locale_from_file_name("README"), "README");
    assert_eq!(locale_from_lang("en_US.UTF-8"), Some("en_US".to_string()));
    assert_eq!(locale_from_lang("C"), None);
}

#[test]
fn loaded_translations_are_found() {
    let mut b = I18nBackend::new();
    assert!(b.load_locale_file("en_US.json", r#"{"application_name": "Kernel Manager", "unknown": "Unknown"}"#));
    assert!(b.load_locale_file("de_DE.json", r#"{"unknown": "Unbekannt"}"#));
    assert_eq!(b.translate("en_US", "application_name").map(|s| s.as_str()), Some("Kernel Manager"));
    assert_eq!(b.translate("de_DE", "unknown").map(|s| s.as_str()), Some("Unbekannt"));
    assert_eq!(b.translate("de_DE", "application_name"), None);
    assert_eq!(b.translate("fr_FR", "unknown"), None);
    let mut locales = b.available_locales();
    locales.sort();
    assert_eq!(locales, vec!["de_DE".to_string(), "en_US".to_string()]);
}

#[test]
fn reloading_a_locale_replaces_it() {
    let mut b = I18nBackend::new();
    assert!(b.load_locale_file("en_US.json", r#"{"a": "1", "b": "2"}"#));
    assert!(b.load_locale_file("en_US.json", r#"{"a": "3"}"#));
    assert_eq!(b.translate("en_US", "a").map(|s| s.as_str()), Some("3"));
    assert_eq!(b.translate("en_US", "b"), None);
    assert_eq!(b.available_locales(), vec!["en_US".to_string()]);
}

#[test]
fn duplicate_keys_keep_the_last() {
    let mut b = I18nBackend::new();
    assert!(b.load_locale_file("en_US.json", r#"{"a": "1", "a": "2"}"#));
    assert_eq!(b.translate("en_US", "a").map(|s| s.as_str()), Some("2"));
}

#[test]
fn bad_translation_files_are_refused() {
    let mut b = I18nBackend::new();
    assert!(!b.load_locale_file("en_US.json", r#"{"a": 1}"#));
    assert!(!b.load_locale_file("en_US.json", r#"["a"]"#));
    assert!(!b.load_locale_file("en_US.json", "{"));
    assert!(b.available_locales().is_empty());
}

#[test]
fn a_repeated_key_with_a_non_string_text_is_refused() {
    let mut b = I18nBackend::new();
    assert!(!b.load_locale_file("en_US.json", r#"{"a": 1, "a": "x"}"#));
    assert!(b.translate("en_US", "a").is_none());
    assert!(b.load_locale_file("en_US.json", r#"{"a": "x", "a": "y", "b": "z"}"#));
    assert_eq!(b.translate("en_US", "a").map(|s| s.as_str()), Some("y"));
}

#[test]
fn texts_set_directly() {
    let mut b = I18nBackend::new();
    b.insert_locale("x".to_string(), vec![("k".to_string(), "v".to_string()), ("k2".to_string(), "v2".to_string())]);
    assert_eq!(b.translate("x", "k2").map(|s| s.as_str()), Some("v2"));
    assert_eq!(b.translate("x", "k").map(|s| s.as_str()), Some("v"));
}
