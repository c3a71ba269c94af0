use the_light_core::ai::{Denomination, StudyMode};
use the_light_core::config::{Config, ConfigError};
use the_light_core::model::Lang;

#[test]
fn defaults_are_sensible() {
    let c = Config::default();
    assert_eq!(c.versions, vec!["kjv".to_string()]);
    assert_eq!(c.language, Lang::Pt);
    assert_eq!(c.theme, "auto");
    assert_eq!(c.font_size, None);
}

#[test]
fn set_and_get_roundtrip_each_key() {
    let mut c = Config::default();
    c.set("versions", "kjv, alm1911 ,").unwrap();
    assert_eq!(c.versions, vec!["kjv".to_string(), "alm1911".to_string()]);
    assert_eq!(c.get("versions").as_deref(), Some("kjv,alm1911"));
    c.set("language", "en").unwrap();
    assert_eq!(c.get("language").as_deref(), Some("en"));
    c.set("theme", "dark").unwrap();
    assert_eq!(c.get("theme").as_deref(), Some("dark"));
    c.set("font-size", "16").unwrap();
    assert_eq!(c.get("font-size").as_deref(), Some("16"));
    c.set("font_size", "none").unwrap();
    assert_eq!(c.get("font-size").as_deref(), Some("none"));
    c.set("study-mode", "academico").unwrap();
    assert_eq!(c.get("study-mode").as_deref(), Some("academic"));
    assert_eq!(c.study_mode, StudyMode::Academic);
    c.set("study_mode", "devotional").unwrap();
    assert_eq!(c.get("study-mode").as_deref(), Some("devotional"));
    assert!(matches!(c.set("study-mode", "klingon"), Err(ConfigError::BadValue { .. })));
}

#[test]
fn set_rejects_unknown_key_and_bad_value() {
    let mut c = Config::default();
    assert!(matches!(c.set("nope", "x"), Err(ConfigError::UnknownKey(_))));
    assert!(matches!(c.set("language", "klingon"), Err(ConfigError::BadValue { .. })));
    assert!(matches!(c.set("font-size", "big"), Err(ConfigError::BadValue { .. })));
    assert!(matches!(c.set("versions", " , "), Err(ConfigError::BadValue { .. })));
    assert_eq!(c, Config::default());
}

#[test]
fn lens_alias_and_provider_are_normalized() {
    let mut c = Config::default();
    c.set("lens", "Batista").unwrap();
    assert_eq!(c.study_lens, Denomination::Baptist);
    assert_eq!(c.get("study-lens").as_deref(), Some("baptist"));
    assert_eq!(c.get("lens"), None);
    c.set(" Provider ", "  OpenAI ").unwrap();
    assert_eq!(c.get("provider").as_deref(), Some("openai"));
    c.set("font-size", "+12").unwrap();
    assert_eq!(c.font_size, Some(12));
    assert!(c.set("font-size", "70000").is_err());
}

#[test]
fn entries_list_every_key_in_order() {
    let c = Config::default();
    let e = c.entries();
    let keys: Vec<&str> = e.iter().map(|(k, _)| k.as_str()).collect();
    assert_eq!(keys, vec!["versions", "language", "theme", "font-size", "provider", "study-mode", "study-lens"]);
    assert_eq!(e[0].1, "kjv");
    assert_eq!(e[3].1, "none");
    assert_eq!(e[4].1, "");
    assert_eq!(e[6].1, "presbyterian");
}

#[test]
fn value_read_back_from_get_sets_the_same_config() {
    let mut c = Config::default();
    c.set("versions", " a ,b,, c ").unwrap();
    let shown = c.get("versions").unwrap();
    let before = c.clone();
    c.set("versions", &shown).unwrap();
    assert_eq!(c, before);
}

#[test]
fn set_touches_only_the_named_preference() {
    let mut c = Config::default();
    c.set("theme", "  solarized ").unwrap();
    let mut expected = Config::default();
    expected.theme = "solarized".to_string();
    assert_eq!(c, expected);
    match c.set("Theme", "   ") {
        Err(ConfigError::BadValue { key, value }) => {
            assert_eq!(key, "theme");
            assert_eq!(value, "   ");
        }
        other => panic!("unexpected {:?}", other),
    }
    assert_eq!(c, expected);
    match c.set("colour", "red") {
        Err(ConfigError::UnknownKey(k)) => assert_eq!(k, "colour"),
        other => panic!("unexpected {:?}", other),
    }
    assert_eq!(c.get("colour"), None);
    assert_eq!(c.get(" FONT_SIZE "), Some("none".to_string()));
}
