use the_light_core::ai::{Denomination, LlmProvider, MockLlmProvider, StudyDepth, StudyMode};

#[test]
fn denomination_parsing_pt_en() {
    assert_eq!("batista".parse::<Denomination>().unwrap(), Denomination::Baptist);
    assert_eq!("presbiteriana".parse::<Denomination>().unwrap(), Denomination::Presbyterian);
    assert_eq!("Reformed".parse::<Denomination>().unwrap(), Denomination::Presbyterian);
    assert_eq!("católica".parse::<Denomination>().unwrap(), Denomination::Catholic);
    assert!("jedi".parse::<Denomination>().is_err());
    assert_eq!(Denomination::Lutheran.slug(), "lutheran");
    assert_eq!(Denomination::all().len(), 6);
}

#[test]
fn depth_parsing() {
    assert_eq!("exegetical".parse::<StudyDepth>().unwrap(), StudyDepth::Exegetical);
    assert_eq!("palavras".parse::<StudyDepth>().unwrap(), StudyDepth::WordStudy);
    assert!("deep".parse::<StudyDepth>().is_err());
}

#[test]
fn mock_provider_completes() {
    let m = MockLlmProvider::new("ola");
    assert_eq!(m.name(), "mock");
    assert_eq!(m.complete("sys", "user").unwrap(), "ola");
    assert!(m.estimate_tokens("abcdefgh") >= 2);
}

#[test]
fn token_estimate_rounds_up() {
    let m = MockLlmProvider::new("x");
    assert_eq!(m.estimate_tokens(""), 0);
    assert_eq!(m.estimate_tokens("abcde"), 2);
    assert_eq!(m.estimate_tokens("ação"), 1);
}

#[test]
fn study_mode_parses_aliases() {
    assert_eq!(StudyMode::parse(" Acadêmico "), Some(StudyMode::Academic));
    assert_eq!(StudyMode::parse("pregacao"), Some(StudyMode::Sermon));
    assert_eq!(StudyMode::parse("klingon"), None);
    assert_eq!(StudyMode::Introductory.slug(), "introductory");
}
