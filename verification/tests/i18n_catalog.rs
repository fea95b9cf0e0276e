use todox::error::{AppError, IoKind};
use todox::i18n::{
    available_locales, builtin_messages, custom_locale_path, en_us_messages, locale_display_name,
    normalize_locale, zh_cn_messages, I18n, LocaleSource, DEFAULT_LOCALE,
};
use todox::localized_error;

#[test]
fn missing_keys_fall_back_to_builtin_english() {
    let pack = br#"{"top.filter":"Filta"}"#;
    let i18n = I18n::load("ja_JP", "/tmp/todox-i18n", Some(&pack[..])).unwrap();
    assert_eq!(i18n.t("top.filter"), "Filta");
    assert_eq!(i18n.t("top.search"), "Search");
}

#[test]
fn available_locales_lists_builtin_and_custom_files() {
    let locales = available_locales(vec!["ja_JP".to_string()], DEFAULT_LOCALE);
    let ids = locales.into_iter().map(|item| item.locale).collect::<Vec<_>>();
    assert_eq!(ids, vec!["en_US", "zh_CN", "ja_JP"]);
}

#[test]
fn available_locales_sorts_customs_and_skips_duplicates() {
    let stems = vec![
        "pt_BR".to_string(),
        "de_DE".to_string(),
        "zh_CN".to_string(),
        "de_DE".to_string(),
    ];
    let locales = available_locales(stems, "de_DE");
    let ids = locales.iter().map(|item| item.locale.clone()).collect::<Vec<_>>();
    assert_eq!(ids, vec!["en_US", "zh_CN", "de_DE", "pt_BR"]);
    assert_eq!(locales[0].source, LocaleSource::Builtin);
    assert_eq!(locales[2].source, LocaleSource::Custom);
    assert!(locales[2].is_current);
    assert!(!locales[0].is_current);
}

#[test]
fn chinese_catalog_overlays_english() {
    let i18n = I18n::load("zh_CN", "/tmp/todox-i18n", None).unwrap();
    assert_eq!(i18n.locale(), "zh_CN");
    assert_eq!(i18n.t("top.search"), "搜索");
    assert_eq!(i18n.t("no.such.key"), "no.such.key");
}

#[test]
fn blank_locale_means_english() {
    let i18n = I18n::load("  ", "/tmp/todox-i18n", None).unwrap();
    assert_eq!(i18n.locale(), "en_US");
    assert_eq!(normalize_locale(" ja_JP "), "ja_JP");
    assert_eq!(normalize_locale(""), "en_US");
}

#[test]
fn pack_that_is_not_json_is_refused() {
    let pack = b"{oops";
    match I18n::load("ja_JP", "/tmp/todox-i18n", Some(&pack[..])) {
        Err(AppError::InvalidLocaleFile { path, .. }) => assert!(path.ends_with("ja_JP.json")),
        other => panic!("unexpected {:?}", other),
    }
}

#[test]
fn pack_that_is_not_an_object_is_refused() {
    let pack = b"[1, 2]";
    match I18n::load("ja_JP", "/tmp/todox-i18n", Some(&pack[..])) {
        Err(AppError::InvalidLocaleFile { details, .. }) => {
            assert_eq!(details, "locale file must be a flat JSON object")
        }
        other => panic!("unexpected {:?}", other),
    }
}

#[test]
fn pack_members_that_are_not_strings_are_ignored() {
    let pack = br#"{"top.filter": 3, "top.search": "Sagasu"}"#;
    let i18n = I18n::load("ja_JP", "/tmp/todox-i18n", Some(&pack[..])).unwrap();
    assert_eq!(i18n.t("top.filter"), "Filter");
    assert_eq!(i18n.t("top.search"), "Sagasu");
}

#[test]
fn placeholders_are_filled() {
    let i18n = I18n::builtin("en_US");
    let text = i18n.t_fmt("due.today", &[("date", "2026-03-08".to_string())]);
    assert_eq!(text, "Today 2026-03-08");
}

#[test]
fn display_names_of_locales() {
    assert_eq!(locale_display_name("en_US"), "English (United States)");
    assert_eq!(locale_display_name("zh_CN"), "简体中文 (中国)");
    assert_eq!(locale_display_name("ja_JP"), "Custom language");
}

#[test]
fn custom_pack_path_is_under_the_catalog_directory() {
    let p = custom_locale_path("/data/i18n", " ja_JP ");
    assert_eq!(p, "/data/i18n/ja_JP.json");
}

#[test]
fn builtin_tables_have_the_same_keys() {
    let en = en_us_messages();
    let zh = zh_cn_messages();
    assert_eq!(en.len(), zh.len());
    for (a, b) in en.iter().zip(zh.iter()) {
        assert_eq!(a.0, b.0);
    }
    let owned = builtin_messages("zh_CN");
    assert_eq!(owned.len(), zh.len());
    assert_eq!(owned[0].0, zh[0].0);
    assert_eq!(owned[0].1, zh[0].1);
}

#[test]
fn localized_error_prefixes_the_message() {
    let en = I18n::builtin("en_US");
    assert_eq!(localized_error(&en, &AppError::EmptyTitle), "Error: Title cannot be empty");
    let zh = I18n::builtin("zh_CN");
    assert_eq!(localized_error(&zh, &AppError::EmptyTitle), "错误: 标题不能为空");
}

#[test]
fn every_error_has_its_text() {
    let en = I18n::builtin("en_US");
    let cases = vec![
        (AppError::Io(IoKind::PermissionDenied, "boom".to_string()), "I/O error: boom"),
        (AppError::Serde("bad".to_string()), "JSON parse error: bad"),
        (
            AppError::MissingHomeDir,
            "Could not resolve the home directory for the default data path",
        ),
        (AppError::InvalidDueDate, "Invalid due date. Use YYYY-MM-DD"),
        (AppError::EmptyTitle, "Title cannot be empty"),
        (
            AppError::CorruptedData { path: "/x/tasks.json".to_string() },
            "Data file is corrupted and cannot be read: /x/tasks.json",
        ),
        (
            AppError::InvalidLocaleFile { path: "/x/i18n/a.json".to_string(), details: "d".to_string() },
            "Locale file is invalid: /x/i18n/a.json",
        ),
        (
            AppError::InvalidConfig { path: "/x/config.json".to_string() },
            "Config file is invalid and was reset: /x/config.json",
        ),
    ];
    for (error, text) in cases {
        assert_eq!(todox::app::translate_error(&en, &error), text);
    }
}
