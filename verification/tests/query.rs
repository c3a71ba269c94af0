use the_light_core::model::{Reference, VerseRange};
use the_light_core::query::{
    build_match_query, chapter_count_plan, passage_plan, search_plan, xref_plan, SqlParam,
    HL_END, HL_START,
};

#[test]
fn build_match_query_quotes_and_escapes() {
    assert_eq!(build_match_query("graça").as_deref(), Some("\"graça\""));
    assert_eq!(build_match_query("Deus amou").as_deref(), Some("\"Deus\" \"amou\""));
    assert_eq!(build_match_query("a\"b").as_deref(), Some("\"a\"\"b\""));
    assert_eq!(build_match_query("   ").as_deref(), None);
}

#[test]
fn passage_plan_covers_all_shapes() {
    let whole = passage_plan(&Reference::whole_chapter(43, 3), "kjv");
    assert!(whole.0.contains("ORDER BY verse") && !whole.0.contains("verse ="));
    assert_eq!(whole.1.len(), 3);

    let single = passage_plan(&Reference::single(43, 3, 16), "kjv");
    assert!(single.0.contains("AND verse = ?4"));
    assert_eq!(single.1.len(), 4);

    let range = passage_plan(
        &Reference { book: 43, chapter: 3, verses: VerseRange::Range { start: 16, end: 18 } },
        "kjv",
    );
    assert!(range.0.contains("BETWEEN ?4 AND ?5"));
    assert_eq!(range.1.len(), 5);
}

#[test]
fn search_plan_none_for_empty_and_clamps_limit() {
    assert!(search_plan("   ", "kjv", None, 20).is_none());
    let (_, params) = search_plan("grace", "kjv", None, 0).unwrap();
    assert_eq!(params.last(), Some(&SqlParam::Int(1)));
    let (sql, params) = search_plan("grace", "kjv", Some(45), 5).unwrap();
    assert!(sql.contains("AND v.book_number = ?"));
    assert_eq!(params.len(), 6);
}

#[test]
fn xref_plan_clamps_limit() {
    let (_, params) = xref_plan(43, 3, 16, 1, usize::MAX);
    assert_eq!(params.last(), Some(&SqlParam::Int(i64::MAX)));
}

#[test]
fn search_plan_orders_params() {
    let (_, params) = search_plan("a b", "alm", Some(1), 7).unwrap();
    assert_eq!(
        params,
        vec![
            SqlParam::Text(HL_START.to_string()),
            SqlParam::Text(HL_END.to_string()),
            SqlParam::Text("\"a\" \"b\"".to_string()),
            SqlParam::Text("alm".to_string()),
            SqlParam::Int(1),
            SqlParam::Int(7),
        ]
    );
}

#[test]
fn chapter_count_plan_binds_translation_then_book() {
    let (sql, params) = chapter_count_plan(19, "kjv");
    assert!(sql.starts_with("SELECT max(chapter)"));
    assert_eq!(params, vec![SqlParam::Text("kjv".to_string()), SqlParam::Int(19)]);
}

#[test]
fn interlinear_plan_binds_the_verse() {
    let (sql, ps) = the_light_core::query::interlinear_plan(43, 3, 16);
    assert!(sql.contains("FROM original_tokens"));
    assert!(sql.ends_with("ORDER BY t.word_index"));
    assert_eq!(ps, vec![SqlParam::Int(43), SqlParam::Int(3), SqlParam::Int(16)]);
}
