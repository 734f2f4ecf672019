use isoflash::settings::{
    initial_settings, saved_settings_from_json, Language, SpeedLimit, Translations,
};

#[test]
fn language_from_locale() {
    assert_eq!(Language::from_locale("es_ES.UTF-8"), Language::Spanish);
    assert_eq!(Language::from_locale("zh_CN.UTF-8"), Language::Chinese);
    assert_eq!(Language::from_locale("ZH_TW"), Language::Chinese);
    assert_eq!(Language::from_locale("en_US.UTF-8"), Language::English);
    assert_eq!(Language::from_locale("C.zh_cn"), Language::Chinese);
    assert_eq!(Language::from_locale(""), Language::English);
}

#[test]
fn language_names_read_back() {
    for l in [Language::English, Language::Spanish, Language::Chinese] {
        assert_eq!(Language::from_name(l.name()), l);
    }
    assert_eq!(Language::from_name("Klingon"), Language::English);
}

#[test]
fn translations_lookup() {
    let t = Translations::from_json(r#"{"a": "Alpha", "b": "Beta {0} and {1}"}"#);
    assert_eq!(t.get("a"), Some("Alpha".to_string()));
    assert_eq!(t.get("c"), None);
    assert_eq!(t.t("a"), "Alpha");
    assert_eq!(t.t("missing_key"), "missing_key");
    assert_eq!(t.tf("b", &["x", "y"]), "Beta x and y");
    assert_eq!(t.tf("b", &["{1}", "z"]), "Beta z and z");
}

#[test]
fn translation_file_with_non_text_is_empty() {
    let t = Translations::from_json(r#"{"a": "Alpha", "n": 3}"#);
    assert_eq!(t.get("a"), None);
    assert_eq!(Translations::from_json("[1]").entries.len(), 0);
    assert_eq!(Translations::from_json("oops").entries.len(), 0);
}

#[test]
fn speed_limits() {
    assert_eq!(SpeedLimit::Low.rate_arg(), Some("500k"));
    assert_eq!(SpeedLimit::Medium.rate_arg(), Some("2m"));
    assert_eq!(SpeedLimit::High.rate_arg(), Some("8m"));
    assert_eq!(SpeedLimit::Max.rate_arg(), None);
    assert_eq!(SpeedLimit::High.label_key(), "cfg_speed_high");
    let t = Translations::from_json(r#"{"cfg_speed_low": "Slow"}"#);
    assert_eq!(SpeedLimit::Low.label(&t), "Slow");
    assert_eq!(SpeedLimit::Max.label(&t), "?");
    assert_eq!(SpeedLimit::from_name("Medium"), SpeedLimit::Medium);
    assert_eq!(SpeedLimit::from_name("cfg_speed_low"), SpeedLimit::Low);
    assert_eq!(SpeedLimit::from_name("cfg_speed_max"), SpeedLimit::Max);
    assert_eq!(SpeedLimit::from_name("fast"), SpeedLimit::Max);
}

#[test]
fn saved_settings() {
    let s = saved_settings_from_json(
        r#"{"lang": "Spanish", "download_dir": "/home/u/ISOs", "speed_limit": "cfg_speed_low"}"#,
    );
    assert_eq!(
        s,
        Some((Language::Spanish, "/home/u/ISOs".to_string(), "cfg_speed_low".to_string()))
    );
    assert_eq!(
        saved_settings_from_json("{}"),
        Some((Language::English, String::new(), "Max".to_string()))
    );
    assert_eq!(saved_settings_from_json("not json"), None);
}

#[test]
fn start_settings() {
    let s = initial_settings(
        Some((Language::Chinese, String::new(), "High".to_string())),
        Language::English,
        "/home/u/Downloads".to_string(),
    );
    assert_eq!(s.lang, Language::Chinese);
    assert_eq!(s.download_dir, "/home/u/Downloads");
    assert_eq!(s.speed_limit, SpeedLimit::High);
    assert!(!s.first_run);
    let s = initial_settings(None, Language::Spanish, "/d".to_string());
    assert_eq!(s.lang, Language::Spanish);
    assert_eq!(s.download_dir, "/d");
    assert_eq!(s.speed_limit, SpeedLimit::Max);
    assert!(s.first_run);
}

#[test]
fn saved_speed_limit_comes_back() {
    for sp in [SpeedLimit::Low, SpeedLimit::Medium, SpeedLimit::High, SpeedLimit::Max] {
        let json = format!(
            r#"{{"lang": "English", "download_dir": "/d", "speed_limit": "{}"}}"#,
            sp.label_key()
        );
        let saved = saved_settings_from_json(&json);
        let s = initial_settings(saved, Language::Spanish, "/x".to_string());
        assert_eq!(s.speed_limit, sp);
        assert_eq!(s.download_dir, "/d");
        assert_eq!(s.lang, Language::English);
    }
}

#[test]
fn translation_keys_are_held_once() {
    let t = Translations::from_json(r#"{"a": "first", "b": "Beta", "a": "second"}"#);
    assert_eq!(t.entries.len(), 2);
    assert_eq!(t.t("a"), "second");
    assert_eq!(t.t("b"), "Beta");
}
