use the_light_core::panels::{Focus, Key};
use the_light_core::reader::{
    book_index_of, clamp_chapter, kept_cursor, next_theme, next_version, route_key, toggled,
    verse_index, Overlays, Position, Route, BOOK_COUNT,
};

fn none_open() -> Overlays {
    Overlays {
        settings: false,
        sessions: false,
        mode_picker: false,
        scholarly: false,
        input: false,
        ai: false,
        help: false,
        xrefs: false,
    }
}

#[test]
fn chapters_step_within_and_across_books() {
    let p = Position::loaded(44, 3, 16, 31);
    assert_eq!(p.next_chapter(), Some((44, 4)));
    assert_eq!(p.prev_chapter(), Some((44, 2)));
    let last = Position::loaded(44, 16, 16, 27);
    assert_eq!(last.next_chapter(), Some((45, 1)));
    let first = Position::loaded(45, 1, 16, 31);
    assert_eq!(first.prev_chapter(), Some((44, u16::MAX)));
    let back = Position::loaded(44, u16::MAX, 16, 27);
    assert_eq!(back.chapter, 16);
    assert_eq!(back.next_chapter(), Some((45, 1)));
    assert_eq!(Position::loaded(0, 1, 50, 31).prev_chapter(), None);
    assert_eq!(Position::loaded(65, 22, 22, 21).next_chapter(), None);
}

#[test]
fn loading_keeps_the_chapter_in_range() {
    assert_eq!(clamp_chapter(0, 5), 1);
    assert_eq!(clamp_chapter(9, 5), 5);
    assert_eq!(clamp_chapter(3, 5), 3);
    assert_eq!(clamp_chapter(7, 0), 1);
    let p = Position::start();
    assert_eq!((p.book_idx, p.chapter, p.selected), (0, 1, 0));
}

#[test]
fn cursor_and_book_steps_saturate() {
    let mut p = Position::loaded(44, 3, 16, 31);
    p.step_cursor(10);
    assert_eq!(p.selected, 10);
    p.step_cursor(100);
    assert_eq!(p.selected, 30);
    p.step_cursor(-1);
    assert_eq!(p.selected, 29);
    p.step_cursor(i64::MIN);
    assert_eq!(p.selected, 0);
    p.last_verse();
    assert_eq!(p.selected, 30);
    p.first_verse();
    assert_eq!(p.selected, 0);
    let mut empty = Position::loaded(3, 1, 1, 0);
    empty.step_cursor(5);
    assert_eq!(empty.selected, 0);
    assert_eq!(Position::loaded(0, 1, 50, 1).book_step(-1), None);
    assert_eq!(Position::loaded(0, 1, 50, 1).book_step(10), Some(10));
    assert_eq!(Position::loaded(60, 1, 5, 1).book_step(10), Some(BOOK_COUNT - 1));
    assert_eq!(Position::loaded(65, 1, 22, 1).book_step(i64::MAX), None);
}

#[test]
fn goto_and_version_switch_keep_the_verse() {
    assert_eq!(book_index_of(45), 44);
    assert_eq!(book_index_of(0), 0);
    assert_eq!(book_index_of(200), 65);
    assert_eq!(verse_index(&[21, 22, 23, 24], 23), Some(2));
    assert_eq!(verse_index(&[1, 2], 9), None);
    let p = Position::loaded(44, 3, 16, 31);
    let mut q = p;
    q.select_verse(22);
    let switched = q.switched(3, 16, 1);
    assert_eq!(switched.selected, 0);
    assert_eq!(q.switched(3, 16, 31).selected, 22);
    assert_eq!(kept_cursor(5, 0), 0);
    assert_eq!(next_version(0, 2), Some(1));
    assert_eq!(next_version(1, 2), Some(0));
    assert_eq!(next_version(0, 1), None);
}

#[test]
fn themes_cycle_and_unknown_starts_the_cycle() {
    assert_eq!(next_theme("dark"), "light");
    assert_eq!(next_theme("light"), "none");
    assert_eq!(next_theme("none"), "dark");
    assert_eq!(next_theme("auto"), "light");
}

#[test]
fn open_panels_take_the_keyboard_in_order() {
    let mut o = none_open();
    assert_eq!(route_key(o, Focus::Reader, Key::Char('q')), Route::Quit);
    assert_eq!(route_key(o, Focus::Reader, Key::Char('j')), Route::CursorStep(1));
    assert_eq!(route_key(o, Focus::Books, Key::Char('j')), Route::BookStep(1));
    assert_eq!(route_key(o, Focus::Books, Key::PageUp), Route::BookStep(-10));
    assert_eq!(route_key(o, Focus::Reader, Key::Char('n')), Route::NextChapter);
    assert_eq!(route_key(o, Focus::Reader, Key::Char('g')), Route::OpenGoTo);
    assert_eq!(route_key(o, Focus::Reader, Key::Char('z')), Route::Ignore);
    o.xrefs = true;
    assert_eq!(route_key(o, Focus::Reader, Key::Char('q')), Route::ToXrefs);
    o.help = true;
    assert_eq!(route_key(o, Focus::Reader, Key::Char('q')), Route::CloseHelp);
    assert_eq!(route_key(o, Focus::Reader, Key::Char('j')), Route::Ignore);
    o.input = true;
    o.ai = true;
    assert_eq!(route_key(o, Focus::Reader, Key::Char('q')), Route::ToInput);
    o.settings = true;
    assert_eq!(route_key(o, Focus::Reader, Key::Char('q')), Route::ToSettings);
    assert_eq!(toggled(Focus::Books), Focus::Reader);
    assert_eq!(toggled(Focus::Reader), Focus::Books);
}

#[test]
fn theme_cycles_in_memory() {
    let o = none_open();
    assert_eq!(route_key(o, Focus::Reader, Key::Char('t')), Route::CycleTheme);
    let mut theme = "dark".to_string();
    theme = next_theme(&theme).to_string();
    assert_eq!(theme, "light");
    theme = next_theme(&theme).to_string();
    assert_eq!(theme, "none");
    theme = next_theme(&theme).to_string();
    assert_eq!(theme, "dark");
}

#[test]
fn theme_cycle_from_auto_gives_visible_change() {
    assert_eq!(next_theme("auto"), "light");
}

#[test]
fn help_overlay_swallows_navigation_keys() {
    let mut o = none_open();
    assert_eq!(route_key(o, Focus::Reader, Key::Char('?')), Route::ShowHelp);
    o.help = true;
    for k in [Key::Char('n'), Key::Down, Key::Char('j'), Key::Enter] {
        assert_eq!(route_key(o, Focus::Reader, k), Route::Ignore);
    }
    assert_eq!(route_key(o, Focus::Reader, Key::Esc), Route::CloseHelp);
}
