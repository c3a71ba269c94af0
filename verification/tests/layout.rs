use the_light_core::layout::{
    gutter_number, gutter_width, marked_segments, order_points, press, selection_body,
    selection_copy, selection_rows, selection_verses, verse_at_or_above, wrap,
};
use the_light_core::model::{Lang, Reference, VerseRange};
use the_light_core::panels::{Area, Selection};
use the_light_core::query::{HL_END, HL_START};

#[test]
fn highlight_spans_strips_markers_and_styles_match() {
    let s = format!("a {HL_START}b{HL_END} c");
    let segs = marked_segments(&s);
    let joined: String = segs.iter().map(|(t, _)| t.as_str()).collect();
    assert_eq!(joined, "a b c");
    assert!(segs.iter().any(|(t, hl)| t == "b" && *hl));
    assert_eq!(
        segs,
        vec![("a ".to_string(), false), ("b".to_string(), true), (" c".to_string(), false)]
    );
}

#[test]
fn unclosed_mark_highlights_the_rest() {
    let s = format!("x{HL_START}yz");
    assert_eq!(marked_segments(&s), vec![("x".to_string(), false), ("yz".to_string(), true)]);
    assert!(marked_segments("").is_empty());
}

#[test]
fn wrap_is_greedy_by_word() {
    assert_eq!(wrap("a bb ccc dddd", 6), vec!["a bb", "ccc", "dddd"]);
    assert_eq!(wrap("  um   dois  ", 20), vec!["um dois"]);
    assert_eq!(wrap("", 5), vec![""]);
    assert_eq!(wrap("qualquer coisa", 0), vec!["qualquer coisa"]);
    assert_eq!(wrap("palavralonga x", 4), vec!["pala", "vral", "onga", "x"]);
    assert_eq!(wrap("abcdef", 3), vec!["abc", "def"]);
}

#[test]
fn gutter_is_at_least_two_wide() {
    assert_eq!(gutter_width(&[]), 2);
    assert_eq!(gutter_width(&[(1, "a".to_string()), (9, "b".to_string())]), 2);
    assert_eq!(gutter_width(&[(99, "a".to_string()), (176, "b".to_string())]), 3);
    assert_eq!(gutter_number(" 23 "), Some(23));
    assert_eq!(gutter_number("   "), None);
}

#[test]
fn selection_rows_flow_like_a_paragraph() {
    let inner = Area { x: 10, y: 5, width: 20, height: 4 };
    let sel = Selection { anchor: (15, 7), cursor: (12, 5), dragging: false };
    assert_eq!(order_points(sel), ((12, 5), (15, 7)));
    assert_eq!(selection_rows(inner, sel), vec![(5, 12, 29), (6, 10, 29), (7, 10, 15)]);
    let one = Selection { anchor: (20, 6), cursor: (14, 6), dragging: true };
    assert_eq!(selection_rows(inner, one), vec![(6, 14, 20)]);
    let below = Selection { anchor: (11, 6), cursor: (50, 40), dragging: true };
    assert_eq!(selection_rows(inner, below), vec![(6, 11, 29), (7, 10, 29), (8, 10, 29)]);
}

#[test]
fn multi_verse_selection_cites_a_range() {
    let rows = vec!["23 For all have sinned   ".to_string(), "24 Being justified".to_string()];
    let body = selection_body(&rows);
    assert_eq!(body, "23 For all have sinned\n24 Being justified");
    let r = Reference { book: 45, chapter: 3, verses: selection_verses(Some(23), Some(24)) };
    let text = selection_copy(&body, &r, Lang::En, "KJV");
    assert!(text.starts_with("Romans 3:23-24 (KJV)\n"), "{text:?}");
}

#[test]
fn dragging_over_blank_area_yields_no_citation() {
    let rows = vec!["    ".to_string(), "".to_string()];
    let body = selection_body(&rows);
    let r = Reference::whole_chapter(45, 3);
    assert!(selection_copy(&body, &r, Lang::En, "KJV").trim().is_empty());
}

#[test]
fn verses_of_a_selection() {
    assert_eq!(selection_verses(Some(5), Some(5)), VerseRange::Single(5));
    assert_eq!(selection_verses(Some(9), Some(4)), VerseRange::Range { start: 4, end: 9 });
    assert_eq!(selection_verses(None, Some(4)), VerseRange::WholeChapter);
}

#[test]
fn mouse_drag_starting_outside_reader_selects_nothing() {
    let inner = Area { x: 30, y: 2, width: 40, height: 10 };
    assert!(press(Some(inner), 2, 2).is_none());
    assert!(press(None, 31, 3).is_none());
    let mut sel = press(Some(inner), 31, 3).unwrap();
    sel.drag(inner, 100, 100);
    assert_eq!(sel.cursor, (69, 11));
    assert!(!sel.release(Some(inner), 35, 4));
    assert_eq!(sel.cursor, (35, 4));
    assert!(!sel.dragging);
    let mut click = press(Some(inner), 40, 5).unwrap();
    assert!(click.release(Some(inner), 40, 5));
}

#[test]
fn continuation_rows_belong_to_the_verse_above() {
    let gutter = [Some(1u16), None, None, Some(2), None];
    assert_eq!(verse_at_or_above(&gutter, 0), Some(1));
    assert_eq!(verse_at_or_above(&gutter, 2), Some(1));
    assert_eq!(verse_at_or_above(&gutter, 3), Some(2));
    assert_eq!(verse_at_or_above(&gutter, 4), Some(2));
    assert_eq!(verse_at_or_above(&[None, None], 1), None);
}
