use the_light_core::ai::{ChatRole, StudyMode};
use the_light_core::model::Lang;
use the_light_core::session::{sort_by_recency, Message, Session};

fn session(id: &str, updated: i64) -> Session {
    Session {
        id: id.to_string(),
        title: "t".to_string(),
        anchor_label: "Romans 3".to_string(),
        context: "Romans 3:\n23 For all have sinned".to_string(),
        lang: Lang::En,
        provider: "mock".to_string(),
        model: "mock-1".to_string(),
        created_at: updated,
        updated_at: updated,
        messages: vec![Message { role: ChatRole::User, content: "o que significa?".into(), at: updated }],
        study_mode: None,
        study_lens: None,
    }
}

#[test]
fn list_sorted_by_updated_desc() {
    let list = sort_by_recency(vec![session("a", 1000), session("b", 2000)]);
    assert_eq!(list.len(), 2);
    assert_eq!(list[0].id, "b");
    assert_eq!(list[1].id, "a");
}

#[test]
fn equal_instants_keep_their_order() {
    let list = sort_by_recency(vec![
        session("x", 5),
        session("y", 9),
        session("z", 5),
        session("w", 9),
    ]);
    let ids: Vec<&str> = list.iter().map(|s| s.id.as_str()).collect();
    assert_eq!(ids, vec!["y", "w", "x", "z"]);
    assert!(sort_by_recency(vec![]).is_empty());
}

#[test]
fn start_and_push_stamp_the_clock() {
    let mut s = Session::start(
        Session::generate_id(),
        "título".into(),
        "Romanos 3".into(),
        "ctx".into(),
        Lang::Pt,
        "ollama".into(),
        "llama3".into(),
    );
    assert_eq!(s.created_at, s.updated_at);
    assert!(s.messages.is_empty());
    assert!(s.study_mode.is_none());
    s.push(ChatRole::User, "pergunta".into());
    s.push(ChatRole::Assistant, "resposta".into());
    assert_eq!(s.messages.len(), 2);
    assert_eq!(s.messages[1].role, ChatRole::Assistant);
    assert_eq!(s.updated_at, s.messages[1].at);
    assert!(s.updated_at >= s.created_at);
    s.study_mode = Some(StudyMode::Sermon);
    assert!(!s.id.is_empty());
}

#[test]
fn generated_id_has_the_clock_shape() {
    let id = Session::generate_id();
    let cs: Vec<char> = id.chars().collect();
    let n = cs.len();
    assert_eq!(n, 22);
    assert_eq!(cs[n - 1], 'Z');
    assert_eq!(cs[n - 14], 'T');
    for (i, c) in cs.iter().enumerate() {
        if i != n - 1 && i != n - 14 {
            assert!(c.is_ascii_digit(), "{id}");
        }
    }
}
