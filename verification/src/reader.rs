//! The reader's navigation: where a key moves the reading position (book,
//! chapter, selected verse), which translation or theme comes next, and to
//! which panel a key goes. Loading a chapter from the store stays with the
//! program, which reports back what it loaded.
use vstd::prelude::*;

use crate::panels::{Focus, Key};

verus! {

/// Books in the canon.
pub const BOOK_COUNT: usize = 66;

/// Themes offered, in cycling order.
pub open spec fn themes() -> Seq<Seq<char>> {
    seq!["dark"@, "light"@, "none"@]
}

/// `chapter` kept within `1..=count` (a book with no chapters counts as one).
pub open spec fn clamp_chapter_spec(chapter: int, count: int) -> int {
    let hi = if count < 1 { 1 } else { count };
    if chapter < 1 {
        1
    } else if chapter > hi {
        hi
    } else {
        chapter
    }
}

pub fn clamp_chapter(chapter: u16, count: u16) -> (r: u16)
    ensures
        r == clamp_chapter_spec(chapter as int, count as int),
{
    let hi = if count < 1 { 1 } else { count };
    if chapter < 1 {
        1
    } else if chapter > hi {
        hi
    } else {
        chapter
    }
}

/// The reading position: book (index `0..66`), chapter and its count, the
/// selected verse and how many verses the chapter has.
#[derive(Debug, Clone, Copy, PartialEq, Eq, Structural)]
pub struct Position {
    pub book_idx: usize,
    pub chapter: u16,
    pub chapter_count: u16,
    pub selected: usize,
    pub verse_count: usize,
}

/// `x + delta` kept within `lo..=hi`.
pub open spec fn clamp_step(x: int, delta: int, lo: int, hi: int) -> int {
    let y = x + delta;
    if y < lo {
        lo
    } else if y > hi {
        hi
    } else {
        y
    }
}

fn step_within(x: usize, delta: i64, hi: usize) -> (r: usize)
    requires
        hi < 0x1_0000_0000,
        x <= hi,
    ensures
        r == clamp_step(x as int, delta as int, 0, hi as int),
{
    if delta < 0 {
        let back: u64 = if delta < -0x1_0000_0000i64 { 0x1_0000_0000u64 } else { (0 - delta) as u64 };
        if back >= x as u64 {
            0
        } else {
            x - back as usize
        }
    } else {
        let fwd: u64 = delta as u64;
        if fwd >= (hi - x) as u64 {
            hi
        } else {
            x + fwd as usize
        }
    }
}

/// The chapter `n` asks to load: the next one, or the first of the next
/// book; none at the end of the canon.
pub open spec fn next_target(p: Position) -> Option<(usize, u16)> {
    if p.chapter < p.chapter_count {
        Some((p.book_idx, (p.chapter + 1) as u16))
    } else if p.book_idx + 1 < BOOK_COUNT {
        Some(((p.book_idx + 1) as usize, 1u16))
    } else {
        None
    }
}

/// The chapter `p` asks to load: the previous one, or the last of the
/// previous book (asked as the largest number); none at its start.
pub open spec fn prev_target(p: Position) -> Option<(usize, u16)> {
    if p.chapter > 1 {
        Some((p.book_idx, (p.chapter - 1) as u16))
    } else if p.book_idx > 0 {
        Some(((p.book_idx - 1) as usize, u16::MAX))
    } else {
        None
    }
}

/// The position after loading chapter `requested` of a book with `count`
/// chapters and a chapter of `verse_count` verses.
pub open spec fn loaded_spec(book_idx: usize, requested: u16, count: u16, verse_count: usize) -> Position {
    Position {
        book_idx,
        chapter: clamp_chapter_spec(requested as int, count as int) as u16,
        chapter_count: count,
        selected: 0,
        verse_count,
    }
}

impl Position {
    /// The book is in the canon; the selection is inside the chapter (or at
    /// its start when the chapter is empty).
    pub open spec fn wf(&self) -> bool {
        &&& self.book_idx < BOOK_COUNT
        &&& self.verse_count == 0 ==> self.selected == 0
        &&& self.verse_count > 0 ==> self.selected < self.verse_count
    }

    /// Before anything is loaded: Genesis 1.
    pub fn start() -> (r: Position)
        ensures
            r.wf(),
            r.book_idx == 0 && r.chapter == 1 && r.chapter_count == 0,
            r.selected == 0 && r.verse_count == 0,
    {
        Position { book_idx: 0, chapter: 1, chapter_count: 0, selected: 0, verse_count: 0 }
    }

    /// The position after loading `requested` of book `book_idx`, which has
    /// `count` chapters; the chapter read is `requested` kept in range, and
    /// the first verse is selected.
    pub fn loaded(book_idx: usize, requested: u16, count: u16, verse_count: usize) -> (r: Position)
        requires
            book_idx < BOOK_COUNT,
        ensures
            r.wf(),
            r == loaded_spec(book_idx, requested, count, verse_count),
    {
        Position { book_idx, chapter: clamp_chapter(requested, count), chapter_count: count, selected: 0, verse_count }
    }

    /// What `n` loads: the next chapter, or the first of the next book; `None`
    /// at the last chapter of the last book.
    pub fn next_chapter(&self) -> (r: Option<(usize, u16)>)
        requires
            self.wf(),
        ensures
            r == next_target(*self),
    {
        if self.chapter < self.chapter_count {
            Some((self.book_idx, self.chapter + 1))
        } else if self.book_idx + 1 < BOOK_COUNT {
            Some((self.book_idx + 1, 1))
        } else {
            None
        }
    }

    /// What `p` loads: the previous chapter, or the last of the previous book
    /// (asked as the largest chapter number, which loading brings into
    /// range); `None` at the first chapter of the first book.
    pub fn prev_chapter(&self) -> (r: Option<(usize, u16)>)
        requires
            self.wf(),
        ensures
            r == prev_target(*self),
    {
        if self.chapter > 1 {
            Some((self.book_idx, self.chapter - 1))
        } else if self.book_idx > 0 {
            Some((self.book_idx - 1, u16::MAX))
        } else {
            None
        }
    }

    /// The book a list step of `delta` selects (kept in the canon); `None`
    /// when it is the current one.
    pub fn book_step(&self, delta: i64) -> (r: Option<usize>)
        requires
            self.wf(),
        ensures
            ({
                let b = clamp_step(self.book_idx as int, delta as int, 0, BOOK_COUNT - 1);
                if b == self.book_idx {
                    r is None
                } else {
                    r == Some(b as usize)
                }
            }),
    {
        let b = step_within(self.book_idx, delta, BOOK_COUNT - 1);
        if b == self.book_idx {
            None
        } else {
            Some(b)
        }
    }

    /// Moves the selected verse by `delta`, kept inside the chapter (nothing
    /// moves in an empty chapter).
    pub fn step_cursor(&mut self, delta: i64)
        requires
            old(self).wf(),
            old(self).verse_count < 0x1_0000_0000,
        ensures
            final(self).wf(),
            final(self).book_idx == old(self).book_idx,
            final(self).chapter == old(self).chapter,
            final(self).chapter_count == old(self).chapter_count,
            final(self).verse_count == old(self).verse_count,
            old(self).verse_count == 0 ==> final(self).selected == 0,
            old(self).verse_count > 0 ==> final(self).selected == clamp_step(
                old(self).selected as int,
                delta as int,
                0,
                old(self).verse_count - 1,
            ),
    {
        if self.verse_count > 0 {
            self.selected = step_within(self.selected, delta, self.verse_count - 1);
        }
    }

    /// Selects the first verse.
    pub fn first_verse(&mut self)
        requires
            old(self).wf(),
        ensures
            final(self).wf(),
            *final(self) == (Position { selected: 0, ..*old(self) }),
    {
        self.selected = 0;
    }

    /// Selects the last verse (the first, in an empty chapter).
    pub fn last_verse(&mut self)
        requires
            old(self).wf(),
        ensures
            final(self).wf(),
            *final(self) == (Position {
                selected: if old(self).verse_count > 0 { (old(self).verse_count - 1) as usize } else { 0 },
                ..*old(self)
            }),
    {
        self.selected = if self.verse_count > 0 { self.verse_count - 1 } else { 0 };
    }

    /// Selects the verse at `idx`.
    pub fn select_verse(&mut self, idx: usize)
        requires
            old(self).wf(),
            idx < old(self).verse_count,
        ensures
            final(self).wf(),
            *final(self) == (Position { selected: idx, ..*old(self) }),
    {
        self.selected = idx;
    }

    /// After switching translation: the same chapter, with the selection
    /// kept where it was when the new text still reaches it, else on its
    /// last verse.
    pub fn switched(&self, chapter: u16, count: u16, verse_count: usize) -> (r: Position)
        requires
            self.wf(),
        ensures
            r.wf(),
            r.book_idx == self.book_idx,
            r.chapter == chapter && r.chapter_count == count && r.verse_count == verse_count,
            r.selected == kept_cursor_spec(self.selected as int, verse_count as int),
    {
        Position {
            book_idx: self.book_idx,
            chapter,
            chapter_count: count,
            selected: kept_cursor(self.selected, verse_count),
            verse_count,
        }
    }
}

/// `keep` kept inside a chapter of `len` verses.
pub open spec fn kept_cursor_spec(keep: int, len: int) -> int {
    let last = if len > 0 { len - 1 } else { 0 };
    if keep < last {
        keep
    } else {
        last
    }
}

pub fn kept_cursor(keep: usize, len: usize) -> (r: usize)
    ensures
        r == kept_cursor_spec(keep as int, len as int),
{
    let last = if len > 0 { len - 1 } else { 0 };
    if keep < last {
        keep
    } else {
        last
    }
}

/// The book index a reference's book number names (kept in the canon).
pub fn book_index_of(book: u8) -> (r: usize)
    ensures
        r < BOOK_COUNT,
        1 <= book <= 66 ==> r == book - 1,
        book == 0 ==> r == 0,
        book > 66 ==> r == BOOK_COUNT - 1,
{
    let i: usize = if book > 0 { (book - 1) as usize } else { 0 };
    if i < BOOK_COUNT - 1 {
        i
    } else {
        BOOK_COUNT - 1
    }
}

/// The position of the first verse numbered `v`.
pub fn verse_index(numbers: &[u16], v: u16) -> (r: Option<usize>)
    ensures
        match r {
            Some(i) => i < numbers@.len() && numbers@[i as int] == v && forall|j: int|
                0 <= j < i ==> numbers@[j] != v,
            None => forall|j: int| 0 <= j < numbers@.len() ==> numbers@[j] != v,
        },
{
    let mut i: usize = 0;
    while i < numbers.len()
        invariant
            i <= numbers@.len(),
            forall|j: int| 0 <= j < i ==> numbers@[j] != v,
        decreases numbers@.len() - i,
    {
        if numbers[i] == v {
            return Some(i);
        }
        i = i + 1;
    }
    None
}

/// The translation after `idx` among `n` (round); `None` with fewer than two.
pub fn next_version(idx: usize, n: usize) -> (r: Option<usize>)
    requires
        n > 0 ==> idx < n,
    ensures
        n < 2 ==> r is None,
        n >= 2 ==> r == Some(((idx + 1) % (n as int)) as usize),
{
    if n < 2 {
        None
    } else if idx + 1 < n {
        proof {
            vstd::arithmetic::div_mod::lemma_small_mod((idx + 1) as nat, n as nat);
        }
        Some(idx + 1)
    } else {
        proof {
            vstd::arithmetic::div_mod::lemma_mod_self_0(n as int);
        }
        Some(0)
    }
}

/// The theme after `cur` (an unknown theme counts as the first).
pub fn next_theme(cur: &str) -> (r: &'static str)
    ensures
        cur@ == themes()[0] ==> r@ == themes()[1],
        cur@ == themes()[1] ==> r@ == themes()[2],
        cur@ == themes()[2] ==> r@ == themes()[0],
        !themes().contains(cur@) ==> r@ == themes()[1],
{
    proof {
        reveal_strlit("dark");
        reveal_strlit("light");
        reveal_strlit("none");
        assert("dark"@.len() != "light"@.len());
        assert("dark"@[0] != "none"@[0]);
        assert("light"@.len() != "none"@.len());
        assert(themes()[0] == "dark"@);
        assert(themes()[1] == "light"@);
        assert(themes()[2] == "none"@);
    }
    if crate::text::str_eq(cur, "light") {
        "none"
    } else if crate::text::str_eq(cur, "none") {
        "dark"
    } else {
        "light"
    }
}

// ---------------------------------------------------------------------------
// Where a key goes.
// ---------------------------------------------------------------------------
/// The panels open over the reader.
#[derive(Debug, Clone, Copy, PartialEq, Eq, Structural)]
pub struct Overlays {
    pub settings: bool,
    pub sessions: bool,
    pub mode_picker: bool,
    pub scholarly: bool,
    pub input: bool,
    pub ai: bool,
    pub help: bool,
    pub xrefs: bool,
}

/// What a key asks of the reader.
#[derive(Debug, Clone, Copy, PartialEq, Eq, Structural)]
pub enum Route {
    /// The key goes to the open panel of that kind.
    ToSettings,
    ToSessions,
    ToModePicker,
    ToScholarly,
    ToInput,
    ToAi,
    ToXrefs,
    /// Close the help.
    CloseHelp,
    /// Nothing happens.
    Ignore,
    ShowHelp,
    Quit,
    ToggleFocus,
    CycleVersion,
    OpenXrefs,
    CycleTheme,
    OpenAsk,
    OpenSettings,
    OpenSessions,
    OpenModePicker,
    OpenScholarly,
    OpenSearch,
    OpenGoTo,
    /// Move in the book list.
    BookStep(i64),
    FirstBook,
    LastBook,
    FocusReader,
    /// Move the selected verse.
    CursorStep(i64),
    NextChapter,
    PrevChapter,
    FocusBooks,
    FirstVerse,
    LastVerse,
}

/// The routing: open panels take the keyboard in a fixed order (settings,
/// saved conversations, study setup, scholarly data, text input, AI, help,
/// cross references); otherwise the global keys, then the focused list.
pub open spec fn route_spec(o: Overlays, focus: Focus, key: Key) -> Route {
    if o.settings {
        Route::ToSettings
    } else if o.sessions {
        Route::ToSessions
    } else if o.mode_picker {
        Route::ToModePicker
    } else if o.scholarly {
        Route::ToScholarly
    } else if o.input {
        Route::ToInput
    } else if o.ai {
        Route::ToAi
    } else if o.help {
        match key {
            Key::Char('?') | Key::Esc | Key::Char('q') => Route::CloseHelp,
            _ => Route::Ignore,
        }
    } else if o.xrefs {
        Route::ToXrefs
    } else {
        match key {
            Key::Char('?') => Route::ShowHelp,
            Key::Char('q') | Key::Esc => Route::Quit,
            Key::Tab => Route::ToggleFocus,
            Key::Char('v') => Route::CycleVersion,
            Key::Char('x') => Route::OpenXrefs,
            Key::Char('t') => Route::CycleTheme,
            Key::Char('a') => Route::OpenAsk,
            Key::Char('c') => Route::OpenSettings,
            Key::Char('s') => Route::OpenSessions,
            Key::Char('m') => Route::OpenModePicker,
            Key::Char('d') => Route::OpenScholarly,
            Key::Char('/') => Route::OpenSearch,
            Key::Char('g') => Route::OpenGoTo,
            _ => match focus {
                Focus::Books => match key {
                    Key::Down | Key::Char('j') => Route::BookStep(1i64),
                    Key::Up | Key::Char('k') => Route::BookStep(-1i64),
                    Key::PageDown => Route::BookStep(10i64),
                    Key::PageUp => Route::BookStep(-10i64),
                    Key::Home => Route::FirstBook,
                    Key::End => Route::LastBook,
                    Key::Enter | Key::Right | Key::Char('l') => Route::FocusReader,
                    _ => Route::Ignore,
                },
                Focus::Reader => match key {
                    Key::Down | Key::Char('j') => Route::CursorStep(1i64),
                    Key::Up | Key::Char('k') => Route::CursorStep(-1i64),
                    Key::PageDown | Key::Char(' ') => Route::CursorStep(10i64),
                    Key::PageUp => Route::CursorStep(-10i64),
                    Key::Char('n') | Key::Right | Key::Char('l') => Route::NextChapter,
                    Key::Char('p') | Key::Char('h') => Route::PrevChapter,
                    Key::Left => Route::FocusBooks,
                    Key::Home => Route::FirstVerse,
                    Key::End => Route::LastVerse,
                    _ => Route::Ignore,
                },
            },
        }
    }
}

fn route_global(focus: Focus, key: Key) -> (r: Route)
    ensures
        r == route_spec(
            Overlays {
                settings: false,
                sessions: false,
                mode_picker: false,
                scholarly: false,
                input: false,
                ai: false,
                help: false,
                xrefs: false,
            },
            focus,
            key,
        ),
{
    match key {
        Key::Char('?') => Route::ShowHelp,
        Key::Char('q') | Key::Esc => Route::Quit,
        Key::Tab => Route::ToggleFocus,
        Key::Char('v') => Route::CycleVersion,
        Key::Char('x') => Route::OpenXrefs,
        Key::Char('t') => Route::CycleTheme,
        Key::Char('a') => Route::OpenAsk,
        Key::Char('c') => Route::OpenSettings,
        Key::Char('s') => Route::OpenSessions,
        Key::Char('m') => Route::OpenModePicker,
        Key::Char('d') => Route::OpenScholarly,
        Key::Char('/') => Route::OpenSearch,
        Key::Char('g') => Route::OpenGoTo,
        _ => match focus {
            Focus::Books => match key {
                Key::Down | Key::Char('j') => Route::BookStep(1),
                Key::Up | Key::Char('k') => Route::BookStep(-1),
                Key::PageDown => Route::BookStep(10),
                Key::PageUp => Route::BookStep(-10),
                Key::Home => Route::FirstBook,
                Key::End => Route::LastBook,
                Key::Enter | Key::Right | Key::Char('l') => Route::FocusReader,
                _ => Route::Ignore,
            },
            Focus::Reader => match key {
                Key::Down | Key::Char('j') => Route::CursorStep(1),
                Key::Up | Key::Char('k') => Route::CursorStep(-1),
                Key::PageDown | Key::Char(' ') => Route::CursorStep(10),
                Key::PageUp => Route::CursorStep(-10),
                Key::Char('n') | Key::Right | Key::Char('l') => Route::NextChapter,
                Key::Char('p') | Key::Char('h') => Route::PrevChapter,
                Key::Left => Route::FocusBooks,
                Key::Home => Route::FirstVerse,
                Key::End => Route::LastVerse,
                _ => Route::Ignore,
            },
        },
    }
}

/// Where a key goes (see [`route_spec`]).
pub fn route_key(o: Overlays, focus: Focus, key: Key) -> (r: Route)
    ensures
        r == route_spec(o, focus, key),
{
    if o.settings {
        Route::ToSettings
    } else if o.sessions {
        Route::ToSessions
    } else if o.mode_picker {
        Route::ToModePicker
    } else if o.scholarly {
        Route::ToScholarly
    } else if o.input {
        Route::ToInput
    } else if o.ai {
        Route::ToAi
    } else if o.help {
        match key {
            Key::Char('?') | Key::Esc | Key::Char('q') => Route::CloseHelp,
            _ => Route::Ignore,
        }
    } else if o.xrefs {
        Route::ToXrefs
    } else {
        route_global(focus, key)
    }
}

/// The other list.
pub fn toggled(focus: Focus) -> (r: Focus)
    ensures
        focus is Books ==> r is Reader,
        focus is Reader ==> r is Books,
{
    match focus {
        Focus::Books => Focus::Reader,
        Focus::Reader => Focus::Books,
    }
}

// ---------------------------------------------------------------------------
// Laws.
// ---------------------------------------------------------------------------
/// Within a book, going to the next chapter and back returns to the chapter
/// one started from; so does going back a chapter and forward again.
pub proof fn lemma_chapter_steps_undo(p: Position, verse_count: usize)
    requires
        p.wf(),
        1 <= p.chapter <= p.chapter_count,
    ensures
        p.chapter < p.chapter_count ==> (next_target(p) matches Some((b, c)) && loaded_spec(
            b,
            c,
            p.chapter_count,
            verse_count,
        ).wf() && prev_target(loaded_spec(b, c, p.chapter_count, verse_count)) == Some(
            (p.book_idx, p.chapter),
        )),
        p.chapter > 1 ==> (prev_target(p) matches Some((b, c)) && loaded_spec(
            b,
            c,
            p.chapter_count,
            verse_count,
        ).wf() && next_target(loaded_spec(b, c, p.chapter_count, verse_count)) == Some(
            (p.book_idx, p.chapter),
        )),
{
}

/// From the first chapter of a book, going back and forward again lands on
/// the first chapter of that book.
pub proof fn lemma_prev_book_then_next(p: Position, last_count: u16, verse_count: usize)
    requires
        p.wf(),
        p.chapter <= 1,
        p.book_idx > 0,
    ensures
        prev_target(p) matches Some((b, c)) && loaded_spec(b, c, last_count, verse_count).wf()
            && next_target(loaded_spec(b, c, last_count, verse_count)) == Some((p.book_idx, 1u16)),
{
}

/// A clamped step never leaves its range, and a step of zero changes nothing.
pub proof fn lemma_clamp_step_bounds(x: int, delta: int, lo: int, hi: int)
    requires
        lo <= x <= hi,
    ensures
        lo <= clamp_step(x, delta, lo, hi) <= hi,
        clamp_step(x, 0, lo, hi) == x,
        delta >= 0 ==> clamp_step(x, delta, lo, hi) >= x,
        delta <= 0 ==> clamp_step(x, delta, lo, hi) <= x,
{
}

} // verus!
