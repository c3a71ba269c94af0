use the_light_core::ai::{ChatMessage, ChatRole, Denomination, MockLlmProvider, StudyMode};
use the_light_core::model::{Lang, Reference};
use the_light_core::panels::{
    cited_refs, hit_test, next_lens, run_session_query, scholarly_state, session_title,
    study_title, Area, ClickTarget, Key, ModePicker, NavAction, PickerAction, RoundStep,
    ScholarlyPanel, ScholarlyState, Settings, SettingsAction, SettingsMode, StudyFlow, XrefNav,
};
use the_light_core::xref::CrossRef;
use the_light_core::session::Session;
use the_light_core::panels::{
    AiAction, AiPanel, AiStatus, BrowserAction, Input, InputAction, InputKind, SessionBrowser,
    provider_slug, resolve_provider,
};

#[test]
fn run_session_query_uses_provider() {
    let p = MockLlmProvider::new("resposta fixa");
    let turns = [ChatMessage { role: ChatRole::User, content: "oi".into() }];
    let out = run_session_query(&p, Lang::En, "ctx", &turns, None);
    assert_eq!(out.unwrap(), "resposta fixa");
}

#[test]
fn cited_refs_extracts_unique_in_order() {
    let refs = cited_refs("Veja João 3:16 e Romanos 5:8, e de novo João 3:16.");
    assert_eq!(refs.len(), 2);
    assert_eq!(refs[0].book, 43); // João
    assert_eq!(refs[1].book, 45); // Romanos
}

#[test]
fn cited_refs_of_plain_text_is_empty() {
    assert!(cited_refs("nenhuma referência aqui").is_empty());
}

#[test]
fn next_lens_cycles_both_ways() {
    assert_eq!(next_lens(Denomination::Baptist, 1), Denomination::Presbyterian);
    assert_eq!(next_lens(Denomination::Baptist, -1), Denomination::Orthodox);
    assert_eq!(next_lens(Denomination::Orthodox, 1), Denomination::Baptist);
    assert_eq!(next_lens(Denomination::Catholic, 6), Denomination::Catholic);
    assert_eq!(next_lens(Denomination::Lutheran, -13), Denomination::Presbyterian);
}

#[test]
fn next_lens_then_back_is_identity() {
    for d in Denomination::all() {
        assert_eq!(next_lens(next_lens(d, 1), -1), d);
    }
}

fn xrefs() -> XrefNav {
    XrefNav {
        items: vec![
            CrossRef { reference: Reference::single(45, 6, 23), votes: 50 },
            CrossRef { reference: Reference::single(1, 1, 1), votes: 10 },
        ],
        selected: 0,
    }
}

#[test]
fn xref_nav_moves_clamps_and_jumps() {
    let mut nav = xrefs();
    assert_eq!(nav.handle_key(Key::Up), NavAction::Stay);
    assert_eq!(nav.selected, 0);
    assert_eq!(nav.handle_key(Key::Down), NavAction::Stay);
    assert_eq!(nav.selected, 1);
    assert_eq!(nav.handle_key(Key::Char('j')), NavAction::Stay);
    assert_eq!(nav.selected, 1);
    assert_eq!(nav.handle_key(Key::Enter), NavAction::Jump(Reference::single(1, 1, 1)));
}

#[test]
fn xref_nav_closes_with_esc_x_and_q() {
    for k in [Key::Esc, Key::Char('x'), Key::Char('q')] {
        let mut nav = xrefs();
        assert_eq!(nav.handle_key(k), NavAction::Close);
        assert_eq!(nav.selected, 0);
    }
}

#[test]
fn mode_picker_opens_on_mode_navigates_and_starts() {
    let mut p = ModePicker::open(StudyMode::Introductory, Denomination::Lutheran);
    assert_eq!(p.selected, 2);
    assert_eq!(p.handle_key(Key::Down), PickerAction::Stay);
    assert_eq!(p.handle_key(Key::Down), PickerAction::Stay);
    assert_eq!(p.selected, 3);
    assert_eq!(p.handle_key(Key::Right), PickerAction::Stay);
    assert_eq!(p.lens, Denomination::Pentecostal);
    assert_eq!(p.handle_key(Key::Char('h')), PickerAction::Stay);
    assert_eq!(p.lens, Denomination::Lutheran);
    assert_eq!(
        p.handle_key(Key::Enter),
        PickerAction::Start(StudyMode::Sermon, Denomination::Lutheran)
    );
    assert_eq!(
        p.handle_key(Key::Char('s')),
        PickerAction::SetDefault(StudyMode::Sermon, Denomination::Lutheran)
    );
    assert_eq!(p.handle_key(Key::Esc), PickerAction::Close);
}

#[test]
fn settings_open_marks_keys_and_selects_active() {
    let have = vec!["openai".to_string(), "elsewhere".to_string()];
    let s = Settings::open(&have, "  OLLAMA ");
    assert_eq!(s.has_key, vec![false, true, false]);
    assert_eq!(s.selected, 2);
    assert!(matches!(s.mode, SettingsMode::List));
    let s = Settings::open(&[], "unknown");
    assert_eq!(s.selected, 0);
    assert_eq!(s.has_key, vec![false, false, false]);
}

#[test]
fn settings_navigate_activate_and_edit_key() {
    let mut s = Settings::open(&[], "anthropic");
    assert!(matches!(s.handle_key(Key::Down), SettingsAction::Nothing));
    assert_eq!(s.selected, 1);
    assert!(matches!(s.handle_key(Key::Enter), SettingsAction::SetActive(1)));
    assert!(matches!(s.handle_key(Key::Char('e')), SettingsAction::Nothing));
    assert!(matches!(s.handle_key(Key::Char('s')), SettingsAction::Nothing));
    assert!(matches!(s.handle_key(Key::Char('k')), SettingsAction::Nothing));
    assert!(matches!(s.handle_key(Key::Char('x')), SettingsAction::Nothing));
    assert!(matches!(s.handle_key(Key::Backspace), SettingsAction::Nothing));
    match s.handle_key(Key::Enter) {
        SettingsAction::CommitKey(i, k) => {
            assert_eq!(i, 1);
            assert_eq!(k, "sk");
        }
        _ => panic!("expected a key to commit"),
    }
    s.key_committed(1, true);
    assert_eq!(s.has_key, vec![false, true, false]);
    assert!(matches!(s.mode, SettingsMode::List));
    assert!(matches!(s.handle_key(Key::Char('d')), SettingsAction::RemoveKey(1)));
    s.key_removed(1);
    assert_eq!(s.has_key, vec![false, false, false]);
    assert!(matches!(s.handle_key(Key::Char('q')), SettingsAction::Close));
}

#[test]
fn settings_key_to_store_trims_and_rejects_blank() {
    assert_eq!(Settings::key_to_store("  sk-1 "), Some("sk-1".to_string()));
    assert_eq!(Settings::key_to_store("   "), None);
}

#[test]
fn study_flow_records_three_rounds_then_studies() {
    let mut f = StudyFlow::new(StudyMode::Devotional, Denomination::Baptist);
    f.set_brief("graça");
    assert_eq!(f.round, 1);
    assert_eq!(f.record_answer("x"), RoundStep::Ignored);
    for round in 1..=3u8 {
        f.question = format!("Q{round}");
        f.options = vec!["a".to_string(), "b".to_string()];
        let step = f.record_answer("  resposta ");
        if round < 3 {
            assert_eq!(step, RoundStep::Refine(round + 1));
        } else {
            assert_eq!(step, RoundStep::Study);
        }
        assert!(f.options.is_empty());
    }
    assert_eq!(f.prior.len(), 3);
    assert_eq!(f.prior[0], ("Q1".to_string(), "resposta".to_string()));
    f.options = vec!["a".to_string()];
    assert_eq!(f.record_answer("   "), RoundStep::Ignored);
    assert_eq!(f.prior.len(), 3);
}

#[test]
fn titles_name_the_study_and_truncate_long_questions() {
    let t = study_title(StudyMode::Devotional, Denomination::Baptist, "a graça");
    assert!(t.contains("a graça"));
    let long = "q".repeat(50);
    let s = session_title(&long);
    assert_eq!(s.chars().count(), 41);
    assert!(s.ends_with('…'));
    assert_eq!(session_title("  curta  "), "curta");
}

#[test]
fn hit_test_prefers_the_last_registered_target() {
    let base = Area { x: 0, y: 0, width: 10, height: 10 };
    let top = Area { x: 2, y: 2, width: 3, height: 3 };
    let targets = vec![(base, ClickTarget::Verse(4)), (top, ClickTarget::ModeRow(1))];
    assert_eq!(hit_test(&targets, 3, 3), Some(ClickTarget::ModeRow(1)));
    assert_eq!(hit_test(&targets, 8, 8), Some(ClickTarget::Verse(4)));
    assert!(ClickTarget::ModeRow(1).is_overlay());
    assert!(!ClickTarget::Book(0).is_overlay());
    assert_eq!(hit_test(&targets, 20, 20), None);
}

#[test]
fn area_clamp_keeps_points_inside() {
    let a = Area { x: 5, y: 5, width: 10, height: 4 };
    assert!(a.contains(5, 5));
    assert!(!a.contains(15, 5));
    assert_eq!(a.clamp(0, 100), (5, 8));
    assert_eq!(a.clamp(7, 6), (7, 6));
}

#[test]
fn scholarly_state_from_counts() {
    assert!(matches!(
        scholarly_state(10, 3),
        ScholarlyState::Installed { tokens: 10, lexicon: 3 }
    ));
    assert!(matches!(scholarly_state(0, 3), ScholarlyState::Absent));
    let p = ScholarlyPanel { state: ScholarlyState::Error("x".into()) };
    assert!(p.can_install());
    let p = ScholarlyPanel { state: ScholarlyState::Installing("y".into()) };
    assert!(!p.can_install());
}

fn ai_panel(answer: &str) -> AiPanel {
    let mut s = Session::start(
        "id".into(),
        "t".into(),
        "Romans 3".into(),
        "ctx".into(),
        Lang::En,
        "mock".into(),
        "m".into(),
    );
    s.push(ChatRole::User, "q".into());
    s.push(ChatRole::Assistant, answer.into());
    AiPanel::from_session(s)
}

#[test]
fn ai_panel_collects_cited_refs_and_travels() {
    let mut p = ai_panel("Veja João 3:16 e Romanos 5:8.");
    assert_eq!(p.refs.len(), 2);
    assert_eq!(p.handle_key(Key::Tab), AiAction::Nothing);
    assert_eq!(p.ref_selected, 1);
    assert_eq!(p.handle_key(Key::Tab), AiAction::Nothing);
    assert_eq!(p.ref_selected, 0);
    assert_eq!(p.handle_key(Key::BackTab), AiAction::Nothing);
    assert_eq!(p.ref_selected, 1);
    assert_eq!(p.handle_key(Key::Enter), AiAction::Jump(p.refs[1]));
    assert_eq!(p.handle_key(Key::Char('1')), AiAction::Jump(p.refs[0]));
    assert_eq!(p.handle_key(Key::Char('9')), AiAction::Nothing);
    assert_eq!(p.handle_key(Key::Char('a')), AiAction::FollowUp);
    assert_eq!(p.handle_key(Key::Char('e')), AiAction::Nothing);
    assert_eq!(p.handle_key(Key::Esc), AiAction::Close);
}

#[test]
fn ai_panel_scrolls_and_busy_blocks_follow_up() {
    let mut p = ai_panel("sem referências");
    assert!(p.refs.is_empty());
    p.handle_key(Key::PageDown);
    p.handle_key(Key::Down);
    assert_eq!(p.scroll.offset(), 11);
    p.handle_key(Key::Up);
    assert_eq!(p.scroll.offset(), 10);
    p.status = AiStatus::Pending;
    assert_eq!(p.handle_key(Key::Char('a')), AiAction::Nothing);
    assert_eq!(p.handle_key(Key::Enter), AiAction::Nothing);
}

#[test]
fn ai_panel_refining_round_picks_options() {
    let mut p = ai_panel("x");
    let mut f = StudyFlow::new(StudyMode::Academic, Denomination::Catholic);
    f.options = vec!["a".into(), "b".into(), "c".into()];
    p.study = Some(f);
    assert_eq!(p.handle_key(Key::Down), AiAction::Nothing);
    assert_eq!(p.handle_key(Key::Enter), AiAction::Pick(1));
    assert_eq!(p.handle_key(Key::Char('3')), AiAction::Pick(2));
    assert_eq!(p.handle_key(Key::Char('4')), AiAction::Nothing);
    assert_eq!(p.handle_key(Key::Char('o')), AiAction::Custom);
    assert_eq!(p.handle_key(Key::Char('q')), AiAction::Close);
}

#[test]
fn ai_panel_study_keys_need_a_finished_study() {
    let mut p = ai_panel("x");
    p.session.study_mode = Some(StudyMode::Devotional);
    assert_eq!(p.handle_key(Key::Char('e')), AiAction::Export);
    assert_eq!(p.handle_key(Key::Char('L')), AiAction::CycleLens);
    assert_eq!(p.handle_key(Key::Char('+')), AiAction::Nothing);
}

fn saved(id: &str) -> Session {
    let mut s = Session::start(
        id.into(),
        "t".into(),
        "Romans 3".into(),
        "ctx".into(),
        Lang::En,
        "mock".into(),
        "m".into(),
    );
    s.push(ChatRole::User, "q".into());
    s
}

#[test]
fn sessions_browser_navigates_opens_and_deletes() {
    let mut b = SessionBrowser { items: vec![saved("a"), saved("b"), saved("c")], selected: 0 };
    assert_eq!(b.handle_key(Key::Down), BrowserAction::Nothing);
    assert_eq!(b.handle_key(Key::Down), BrowserAction::Nothing);
    assert_eq!(b.handle_key(Key::Down), BrowserAction::Nothing);
    assert_eq!(b.selected, 2);
    assert_eq!(b.handle_key(Key::Enter), BrowserAction::Open(2));
    assert_eq!(b.handle_key(Key::Char('d')), BrowserAction::Delete("c".to_string()));
    b.remove("c");
    assert_eq!(b.items.len(), 2);
    assert_eq!(b.selected, 1);
    assert_eq!(b.click_row(0), BrowserAction::Nothing);
    assert_eq!(b.selected, 0);
    assert_eq!(b.click_row(0), BrowserAction::Open(0));
    assert_eq!(b.handle_key(Key::Char('s')), BrowserAction::Close);
    b.remove("a");
    b.remove("b");
    assert!(b.items.is_empty());
    assert_eq!(b.selected, 0);
    assert_eq!(b.handle_key(Key::Enter), BrowserAction::Nothing);
}

#[test]
fn clicks_select_then_activate() {
    let mut p = ModePicker::open(StudyMode::Academic, Denomination::Baptist);
    assert_eq!(p.click_row(3), None);
    assert_eq!(p.click_row(3), Some((StudyMode::Sermon, Denomination::Baptist)));
    p.click_lens();
    assert_eq!(p.lens, Denomination::Presbyterian);
    let mut s = Settings::open(&[], "anthropic");
    assert_eq!(s.click_row(2), None);
    assert_eq!(s.click_row(2), Some(2));
    assert_eq!(s.click_row(7), None);
    assert_eq!(s.selected, 2);
}

#[test]
fn input_edits_and_reports_its_actions() {
    let mut i = Input::new(InputKind::Search);
    assert_eq!(i.handle_key(Key::Char('g')), InputAction::Edited);
    assert_eq!(i.handle_key(Key::Char('r')), InputAction::Edited);
    assert_eq!(i.buffer, "gr");
    i.error = Some("x".into());
    assert_eq!(i.handle_key(Key::Backspace), InputAction::Edited);
    assert_eq!(i.buffer, "g");
    assert!(i.error.is_none());
    assert_eq!(i.handle_key(Key::Down), InputAction::ResultDown);
    assert_eq!(i.handle_key(Key::Enter), InputAction::Submit);
    assert_eq!(i.handle_key(Key::Esc), InputAction::Cancel);
    let mut g = Input::new(InputKind::GoTo);
    assert_eq!(g.handle_key(Key::Up), InputAction::Nothing);
    assert_eq!(g.handle_key(Key::Backspace), InputAction::Edited);
    assert_eq!(g.buffer, "");
}

#[test]
fn provider_resolution_asks_for_keys_only_where_needed() {
    assert_eq!(provider_slug("  OpenAI "), "openai");
    assert_eq!(
        resolve_provider("", None).unwrap_err(),
        "nenhum provedor de IA configurado — pressione c para configurar"
    );
    assert_eq!(
        resolve_provider("anthropic", None).unwrap_err(),
        "sem chave para `anthropic` — pressione c para configurar"
    );
    assert_eq!(resolve_provider("openai", Some("k".to_string())).unwrap(), Some("k".to_string()));
    assert_eq!(resolve_provider("ollama", Some("k".to_string())).unwrap(), None);
    assert_eq!(resolve_provider("mock", None).unwrap(), None);
}
