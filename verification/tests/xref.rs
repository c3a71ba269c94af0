use the_light_core::model::{Lang, Reference, VerseRange};
use the_light_core::xref::{
    anchor_verses, best_of_hits, cross_ref_from_row, passage_labels, per_verse_limit, rank_order,
    CrossRef, DEFAULT_LIMIT, DEFAULT_MIN_VOTES,
};

/// What the store returns for Romans 3:23 at the default threshold (the
/// disputed row, with negative votes, is left out by the query), most voted
/// first.
fn hits_rom_3_23() -> Vec<CrossRef> {
    vec![cross_ref_from_row(45, 6, 23, 23, 50), cross_ref_from_row(1, 1, 1, 3, 10)]
}

#[test]
fn passage_labels_aggregate_dedupe_and_format() {
    // Verse 23 and a verse 99 without cross references.
    let hits = vec![hits_rom_3_23(), vec![]];
    let labels = passage_labels(&hits, Lang::En, 20);
    assert_eq!(labels, vec!["Romans 6:23", "Genesis 1:1-3"]);
    let pt = passage_labels(&[hits_rom_3_23()], Lang::Pt, 20);
    assert_eq!(pt[0], "Romanos 6.23");
}

#[test]
fn passage_labels_empty_numbers_fall_back_to_reference() {
    let reference = Reference::single(45, 3, 23);
    let verses = anchor_verses(&reference, &[]);
    assert_eq!(verses, vec![23]);
    // The store is asked for verse 23 only.
    let labels = passage_labels(&[hits_rom_3_23()], Lang::En, 20);
    assert!(labels.contains(&"Romans 6:23".to_string()), "{labels:?}");
}

#[test]
fn passage_labels_limit_caps_total() {
    let labels = passage_labels(&[hits_rom_3_23()], Lang::En, 1);
    assert_eq!(labels.len(), 1);
    assert_eq!(labels[0], "Romans 6:23");
}

#[test]
fn passage_labels_keep_greatest_votes_of_a_repeated_reference() {
    let a = cross_ref_from_row(1, 1, 1, 1, 5);
    let b = cross_ref_from_row(43, 3, 16, 16, 7);
    let a_more = cross_ref_from_row(1, 1, 1, 1, 9);
    let hits = vec![vec![a, b], vec![a_more]];
    let best = best_of_hits(&hits);
    assert_eq!(best, vec![(Reference::single(1, 1, 1), 9), (Reference::single(43, 3, 16), 7)]);
    assert_eq!(passage_labels(&hits, Lang::En, 20), vec!["Genesis 1:1", "John 3:16"]);
}

#[test]
fn ties_rank_by_book_then_chapter_then_first_appearance() {
    let best = vec![
        (Reference::single(43, 3, 16), 5),
        (Reference::single(1, 2, 1), 5),
        (Reference::single(1, 1, 2), 5),
        (Reference::single(1, 1, 1), 5),
        (Reference::single(66, 1, 1), 8),
    ];
    assert_eq!(rank_order(&best), vec![4, 2, 3, 1, 0]);
}

#[test]
fn zero_limit_gives_no_labels_and_asks_one_row_per_verse() {
    assert!(passage_labels(&[hits_rom_3_23()], Lang::En, 0).is_empty());
    assert_eq!(per_verse_limit(0), 1);
    assert_eq!(per_verse_limit(DEFAULT_LIMIT), 20);
    assert_eq!(DEFAULT_MIN_VOTES, 1);
}

#[test]
fn stored_row_becomes_single_or_range() {
    let one = cross_ref_from_row(45, 6, 23, 23, 50);
    assert_eq!(one.reference, Reference::single(45, 6, 23));
    assert_eq!(one.votes, 50);
    let range = cross_ref_from_row(1, 1, 1, 3, 10);
    assert_eq!(range.reference.verses, VerseRange::Range { start: 1, end: 3 });
}
