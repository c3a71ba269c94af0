use the_light_core::ai::{ChatRole, Denomination, StudyDepth, StudyMode};
use the_light_core::model::{Lang, Reference, VerseRange};
use the_light_core::panels::{AiPanel, AiStatus, StudyContext};
use the_light_core::session::Session;
use the_light_core::study::Refinement;
use the_light_core::study_assistant::{open_study, study_gate, study_step, StudyCommand, StudyEvent, StudyGate};

fn panel(mode: StudyMode) -> AiPanel {
    let s = Session::start("id".into(), String::new(), String::new(), String::new(), Lang::Pt, String::new(), String::new());
    open_study(s, mode, Denomination::Presbyterian, StudyDepth::Overview)
}

fn round(p: &mut AiPanel, q: &str) {
    let r = study_step(p, StudyEvent::Refined(Ok(Refinement { question: q.into(), options: vec!["a".into(), "b".into()] })));
    assert!(matches!(r, StudyCommand::Nothing));
}

#[test]
fn gate_wants_the_lexicon_then_a_provider() {
    match study_gate(StudyMode::Academic, false, &Ok(None)) {
        StudyGate::NeedLexicon(m) => assert!(m.contains("Acadêmico")),
        other => panic!("unexpected {:?}", other),
    }
    assert_eq!(study_gate(StudyMode::Devotional, false, &Err("sem chave".into())), StudyGate::NoProvider("sem chave".into()));
    assert_eq!(study_gate(StudyMode::Sermon, true, &Ok(Some("k".into()))), StudyGate::Open);
}

#[test]
fn blank_subject_closes_the_assistant() {
    let mut p = panel(StudyMode::Devotional);
    assert!(matches!(study_step(&mut p, StudyEvent::Brief("   ".into())), StudyCommand::Close));
}

#[test]
fn three_rounds_then_grounding_then_the_study() {
    let mut p = panel(StudyMode::Academic);
    match study_step(&mut p, StudyEvent::Brief("  a graça ".into())) {
        StudyCommand::Refine(1) => {}
        other => panic!("unexpected {:?}", other),
    }
    assert_eq!(p.session.messages.last().unwrap().content, "Estudar: a graça");
    assert!(p.session.title.ends_with("— a graça"));
    assert!(matches!(p.status, AiStatus::Pending));
    round(&mut p, "Qual aspecto?");
    assert!(matches!(p.status, AiStatus::Idle));
    assert!(matches!(study_step(&mut p, StudyEvent::Answer("a".into())), StudyCommand::Refine(2)));
    round(&mut p, "Qual texto?");
    assert!(matches!(study_step(&mut p, StudyEvent::Answer(" Ef 2.8 ".into())), StudyCommand::Refine(3)));
    round(&mut p, "Qual público?");
    let scope = match study_step(&mut p, StudyEvent::Answer("b".into())) {
        StudyCommand::Ground(s) => s,
        other => panic!("unexpected {:?}", other),
    };
    assert_eq!(scope, "a graça; a; Ef 2.8; b");
    let found = Reference { book: 49, chapter: 2, verses: VerseRange::Single(8) };
    let plan = match study_step(&mut p, StudyEvent::Grounded(Some(found), Reference::whole_chapter(43, 3))) {
        StudyCommand::Run(plan) => plan,
        other => panic!("unexpected {:?}", other),
    };
    assert_eq!(plan.xref_limit, 16);
    assert!(plan.with_lexicon);
    assert_eq!(plan.brief, scope);
    assert!(plan.context.grounded);
    assert_eq!(plan.context.reference, found);
    assert_eq!(plan.context.depth, StudyDepth::Overview);
    let ctx = plan.context.clone();
    assert!(matches!(study_step(&mut p, StudyEvent::Generated(Ok("# Estudo\nVer Jo 3.16".into()), ctx)), StudyCommand::Save));
    assert!(p.study.is_none());
    assert!(p.study_done.is_some());
    assert!(p.session.context.starts_with("Estudo Acadêmico sob a lente Presbiteriana. Escopo: "));
    assert_eq!(p.session.messages.last().unwrap().role, ChatRole::Assistant);
}

#[test]
fn deepening_goes_one_level_down_and_export_takes_the_last_answer() {
    let mut p = panel(StudyMode::Introductory);
    study_step(&mut p, StudyEvent::Brief("amor".into()));
    round(&mut p, "Q?");
    study_step(&mut p, StudyEvent::Answer("a".into()));
    round(&mut p, "Q?");
    study_step(&mut p, StudyEvent::Answer("a".into()));
    round(&mut p, "Q?");
    study_step(&mut p, StudyEvent::Answer("a".into()));
    let plan = match study_step(&mut p, StudyEvent::Grounded(None, Reference::whole_chapter(62, 4))) {
        StudyCommand::Run(plan) => plan,
        other => panic!("unexpected {:?}", other),
    };
    assert_eq!(plan.xref_limit, 8);
    assert!(!plan.with_lexicon);
    assert!(!plan.context.grounded);
    assert_eq!(plan.context.reference_label, "amor");
    study_step(&mut p, StudyEvent::Generated(Ok("resposta".into()), plan.context));
    let deeper = match study_step(&mut p, StudyEvent::Deepen(String::new())) {
        StudyCommand::Run(plan) => plan,
        other => panic!("unexpected {:?}", other),
    };
    assert_eq!(deeper.context.depth, StudyDepth::Exegetical);
    assert_eq!(deeper.brief, "Aprofundar: amor; a; a; a");
    assert_eq!(p.session.messages.last().unwrap().content, "Aprofundar o estudo");
    let err: Result<String, String> = Err("falhou".into());
    let keep = StudyContext { depth: StudyDepth::WordStudy, ..deeper.context.clone() };
    study_step(&mut p, StudyEvent::Generated(err, keep));
    assert!(matches!(p.status, AiStatus::Error(ref m) if m == "falhou"));
    match study_step(&mut p, StudyEvent::Export) {
        StudyCommand::Export(stem, md) => {
            assert_eq!(md, "resposta");
            assert!(stem.starts_with("introdut"));
        }
        other => panic!("unexpected {:?}", other),
    }
    study_step(&mut p, StudyEvent::LensChanged(Denomination::Catholic));
    assert_eq!(p.study_done.as_ref().unwrap().lens, Denomination::Catholic);
}
