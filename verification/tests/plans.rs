use the_light_core::model::{Reference, VerseRange};
use chrono::{Datelike, NaiveDate};
use the_light_core::plans::{chunk, PlanProgress, available_plans, plan_by_id};

#[test]
fn annual_plan_covers_whole_bible_in_365_days() {
    let plan = plan_by_id("annual").unwrap();
    assert_eq!(plan.len(), 365);
    let total: usize = plan.days.iter().map(Vec::len).sum();
    assert_eq!(total, 1189, "total de capítulos");
    assert!(matches!(plan.days[0][0].verses, VerseRange::WholeChapter));
    assert_eq!(plan.days[0][0].book, 1);
    assert_eq!(plan.days[0][0].chapter, 1);
}

#[test]
fn nt_and_gospels_plans() {
    let nt = plan_by_id("nt").unwrap();
    assert_eq!(nt.len(), 90);
    assert_eq!(nt.days[0][0].book, 40);
    let g = plan_by_id("gospels").unwrap();
    assert_eq!(g.len(), 30);
    let total: usize = g.days.iter().map(Vec::len).sum();
    assert_eq!(total, 28 + 16 + 24 + 21);
}

#[test]
fn unknown_plan_is_none() {
    assert!(plan_by_id("nope").is_none());
}

#[test]
fn days_differ_by_at_most_one_reading() {
    let g = plan_by_id("gospels").unwrap();
    let sizes: Vec<usize> = g.days.iter().map(Vec::len).collect();
    assert_eq!(sizes[0], 3);
    assert_eq!(*sizes.last().unwrap(), 2);
    assert!(g.reading(30).is_empty());
    assert_eq!(g.reading(0).len(), 3);
    assert!(!g.is_empty());
}

#[test]
fn catalog_lists_three_plans() {
    let p = available_plans();
    assert_eq!(p, vec![
        ("annual", "Bíblia em 1 ano"),
        ("nt", "Novo Testamento em 90 dias"),
        ("gospels", "Evangelhos em 30 dias"),
    ]);
}

#[test]
fn chunk_distributes_evenly() {
    let items: Vec<Reference> = (1..=10).map(|c| Reference::whole_chapter(1, c)).collect();
    let days = chunk(items, 3);
    assert_eq!(days.iter().map(Vec::len).collect::<Vec<_>>(), vec![4, 3, 3]);
}

#[test]
fn chunk_more_days_than_items_is_safe() {
    let items: Vec<Reference> = (1..=3).map(|c| Reference::whole_chapter(1, c)).collect();
    let days = chunk(items, 5);
    assert_eq!(days.len(), 5);
    assert_eq!(days.iter().map(Vec::len).collect::<Vec<_>>(), vec![1, 1, 1, 0, 0]);
}

fn date(y: i32, m: u32, d: u32) -> i32 {
    NaiveDate::from_ymd_opt(y, m, d).unwrap().num_days_from_ce()
}

#[test]
fn day_index_tracks_date_and_clamps() {
    let p = PlanProgress { plan_id: "annual".into(), start_day: date(2026, 1, 1), completed: 0 };
    assert_eq!(p.day_index_for(date(2026, 1, 1), 365), 0);
    assert_eq!(p.day_index_for(date(2026, 1, 11), 365), 10);
    assert_eq!(p.day_index_for(date(2025, 12, 1), 365), 0);
    assert_eq!(p.day_index_for(date(2030, 1, 1), 365), 364);
    assert_eq!(p.day_index_for(date(2030, 1, 1), 0), 0);
}
