use the_light_core::lexicon::{format_verified_block, verify};
use the_light_core::lexicon_data::{
    aggregate_rows, lexicon_entries, source_ids, unique_attributions, verified_lexicon, LexRow,
};
use the_light_core::model::Lang;

/// A token row of Genesis 1:1 with its lexicon gloss, as the store returns it.
fn row(strongs: &str, lemma: &str, gloss: &str) -> LexRow {
    LexRow {
        strongs: strongs.to_string(),
        lemma: Some(lemma.to_string()),
        translit: None,
        testament: "OT".to_string(),
        gloss: Some(gloss.to_string()),
        token_source: Some("tahot".to_string()),
        lexicon_source: Some("tbesh".to_string()),
    }
}

fn genesis_1_1() -> Vec<LexRow> {
    vec![
        row("H7225G", "רֵאשִׁית", "first: beginning"),
        row("H1254A", "בָּרָא", "to create"),
        row("H0430G", "אֱלֹהִים", "God"),
    ]
}

fn attributions() -> Vec<Option<String>> {
    // tahot has no attribution recorded; tbesh has one.
    vec![Some("STEP Bible (CC BY 4.0)".to_string()), None]
}

#[test]
fn verified_lexicon_aggregates_and_joins_gloss() {
    let rows = genesis_1_1();
    assert_eq!(source_ids(&rows), vec!["tahot".to_string(), "tbesh".to_string()]);
    let vl = verified_lexicon(&rows, 16, &attributions());
    assert_eq!(vl.entries.len(), 3);
    let beginning = vl.entries.iter().find(|e| e.strongs == "H7225").unwrap();
    assert_eq!(beginning.gloss.as_deref(), Some("first: beginning"));
    assert!(vl.sources.iter().any(|s| s.contains("STEP Bible")));

    let block = format_verified_block(&vl, Lang::Pt);
    assert!(block.contains("[V:H7225]"));
    assert!(block.contains("first: beginning"));
    assert!(block.contains("Fontes:"));
}

#[test]
fn empty_passage_yields_no_entries() {
    let vl = verified_lexicon(&[], 16, &[]);
    assert!(vl.is_empty());
    assert!(vl.sources.is_empty());
}

#[test]
fn verify_flags_only_invented_strongs() {
    let vl = verified_lexicon(&genesis_1_1(), 16, &attributions());
    let out = verify("A criação [V:H7225] é obra de Deus; também nota [V:G9999] (falso).", &vl);
    assert_eq!(out.warnings.len(), 1);
    assert!(out.warnings[0].contains("G9999"));
    let clean = verify("Texto sobre H9999 e G1234 sem marcação.", &vl);
    assert!(clean.warnings.is_empty());
}

#[test]
fn most_frequent_first_then_by_number_and_first_values_win() {
    let mut rows = genesis_1_1();
    let mut later = row("H0430H", "other", "gods");
    later.lemma = None;
    rows.push(later);
    rows.push(row("H1254B", "ברא", "to shape"));
    rows.push(row("H0430G", "x", "y"));
    let agg = aggregate_rows(&rows);
    assert_eq!(agg.len(), 3);
    assert_eq!(agg[2].strongs, "H0430");
    assert_eq!(agg[2].occurrences, 3);
    assert_eq!(agg[2].gloss.as_deref(), Some("God"));
    let es = lexicon_entries(&rows, 16);
    let order: Vec<&str> = es.iter().map(|e| e.strongs.as_str()).collect();
    assert_eq!(order, vec!["H0430", "H1254", "H7225"]);
    let top = lexicon_entries(&rows, 1);
    assert_eq!(top.len(), 1);
    assert_eq!(top[0].strongs, "H0430");
}

#[test]
fn attributions_are_listed_once() {
    let found = vec![Some("A".to_string()), None, Some("B".to_string()), Some("A".to_string())];
    assert_eq!(unique_attributions(&found), vec!["A".to_string(), "B".to_string()]);
}

#[test]
fn token_source_ids_are_sorted_and_distinct() {
    let found = vec![Some("tbesg".to_string()), None, Some("tahot".to_string()), Some("tbesg".to_string())];
    assert_eq!(
        the_light_core::lexicon_data::token_source_ids(&found),
        vec!["tahot".to_string(), "tbesg".to_string()]
    );
}

#[test]
fn empty_passage_yields_sentinel() {
    let vl = verified_lexicon(&[], 16, &[]);
    assert!(vl.is_empty());
    assert_eq!(format_verified_block(&vl, Lang::Pt), the_light_core::lexicon::EMPTY_SENTINEL);
}
