//! The reading interface's state and its decisions: which panel has the
//! keyboard, how a key moves a selection, what a click or a key asks the
//! program to do. Drawing, threads and files stay with the program.
use vstd::prelude::*;
use vstd::string::StringExecFns;

use crate::ai::{
    all_lenses, answer_view, ChatRole, error_text, lens_name_pt, messages_view, mode_name_pt, AiError,
    ChatMessage, Denomination, LlmProvider, StudyDepth, StudyMode,
};
use crate::model::{Lang, Reference};
use crate::scan::{
    regex_compiles, regex_scan, scan_filter, scan_pattern, scan_references, scanned_view, spellings_upto,
    strictly_ordered, ScannedRef,
};
use crate::study::{ask_session, session_system_text, wrapped_turns};
use crate::text::{chars_of, copy_str, lower_chars, lower_seq, slice_chars, string_of, trim, trim_chars};
use crate::xref::CrossRef;
use crate::scroll::ScrollState;
use crate::session::{Message, Session};

verus! {

// ---------------------------------------------------------------------------
// Keys and screen areas.
// ---------------------------------------------------------------------------
/// A key as the panels read it.
#[derive(Debug, Clone, Copy, PartialEq, Eq, Structural)]
pub enum Key {
    Char(char),
    Enter,
    Esc,
    Backspace,
    Tab,
    BackTab,
    Up,
    Down,
    Left,
    Right,
    PageUp,
    PageDown,
    Home,
    End,
    /// Any other key.
    Other,
}

/// A rectangle of terminal cells.
#[derive(Debug, Clone, Copy, PartialEq, Eq, Structural)]
pub struct Area {
    pub x: u16,
    pub y: u16,
    pub width: u16,
    pub height: u16,
}

impl Area {
    /// The area fits the terminal's coordinate range.
    pub open spec fn fits(&self) -> bool {
        self.x + self.width <= u16::MAX && self.y + self.height <= u16::MAX
    }

    /// `(col, row)` lies inside the area.
    pub fn contains(&self, col: u16, row: u16) -> (r: bool)
        requires
            self.fits(),
        ensures
            r == (self.x <= col < self.x + self.width && self.y <= row < self.y + self.height),
    {
        col >= self.x && col < self.x + self.width && row >= self.y && row < self.y + self.height
    }

    /// `(col, row)` clamped to the area (bottom-right corner inclusive).
    pub open spec fn clamp_spec(&self, col: u16, row: u16) -> (u16, u16) {
        let max_x = if self.width == 0 {
            self.x as int
        } else {
            self.x + self.width - 1
        };
        let max_y = if self.height == 0 {
            self.y as int
        } else {
            self.y + self.height - 1
        };
        ((if col < self.x {
            self.x as int
        } else if col > max_x {
            max_x
        } else {
            col as int
        }) as u16, (if row < self.y {
            self.y as int
        } else if row > max_y {
            max_y
        } else {
            row as int
        }) as u16)
    }

    /// `(col, row)` clamped to the area (bottom-right corner inclusive).
    pub fn clamp(&self, col: u16, row: u16) -> (r: (u16, u16))
        requires
            self.fits(),
        ensures
            r == self.clamp_spec(col, row),
            ({
                let max_x = if self.width == 0 {
                    self.x as int
                } else {
                    self.x + self.width - 1
                };
                let max_y = if self.height == 0 {
                    self.y as int
                } else {
                    self.y + self.height - 1
                };
                &&& r.0 == (if col < self.x {
                    self.x as int
                } else if col > max_x {
                    max_x
                } else {
                    col as int
                })
                &&& r.1 == (if row < self.y {
                    self.y as int
                } else if row > max_y {
                    max_y
                } else {
                    row as int
                })
            }),
    {
        let max_x: u16 = self.x + if self.width == 0 {
            0
        } else {
            self.width - 1
        };
        let max_y: u16 = self.y + if self.height == 0 {
            0
        } else {
            self.height - 1
        };
        let c = if col < self.x {
            self.x
        } else if col > max_x {
            max_x
        } else {
            col
        };
        let r = if row < self.y {
            self.y
        } else if row > max_y {
            max_y
        } else {
            row
        };
        (c, r)
    }
}

/// A mouse text selection, kept inside the reading area (absolute terminal
/// coordinates `(column, row)`).
#[derive(Debug, Clone, Copy, PartialEq, Eq)]
pub struct Selection {
    /// Where the selection started (button pressed).
    pub anchor: (u16, u16),
    /// Current end of the selection (follows the drag).
    pub cursor: (u16, u16),
    /// `true` while the button is held.
    pub dragging: bool,
}

/// Which panel has the keyboard focus.
#[derive(Debug, Clone, Copy, PartialEq, Eq, Structural)]
pub enum Focus {
    /// Book list.
    Books,
    /// Reading viewport.
    Reader,
}

/// Kind of the text entry under way in the bottom bar.
#[derive(Debug, Clone, Copy, PartialEq, Eq, Structural)]
pub enum InputKind {
    /// Go to a reference.
    GoTo,
    /// Incremental full-text search.
    Search,
    /// Free question to the AI about the current chapter.
    Ask,
    /// Initial prompt of a study (its subject).
    StudyBrief,
    /// The user's own answer in a refinement round.
    StudyCustom,
    /// Focus of the deepening of a finished study (optional).
    StudyDeepen,
}

/// A text entry (bottom prompt).
#[derive(Debug, Clone)]
pub struct Input {
    /// What is being typed.
    pub kind: InputKind,
    /// Text typed so far.
    pub buffer: String,
    /// Error message (ex.: invalid reference).
    pub error: Option<String>,
}

/// Navigation in the cross references of the current verse.
#[derive(Debug, Clone)]
pub struct XrefNav {
    /// Cross references of the verse, most voted first.
    pub items: Vec<CrossRef>,
    /// Selected item.
    pub selected: usize,
}

/// What a key in a list asks for.
#[derive(Debug, Clone, Copy, PartialEq, Eq, Structural)]
pub enum NavAction {
    /// Nothing beyond the selection change.
    Stay,
    /// Close the list.
    Close,
    /// Close the list and go to the reference.
    Jump(Reference),
}

impl XrefNav {
    /// Moves the selection (`↓`/`j`, `↑`/`k`), closes (`Esc`/`x`/`q`) or
    /// jumps to the selected reference (`Enter`).
    pub fn handle_key(&mut self, key: Key) -> (r: NavAction)
        requires
            old(self).selected < old(self).items@.len(),
        ensures
            final(self).items@ == old(self).items@,
            final(self).selected < final(self).items@.len(),
            match key {
                Key::Esc | Key::Char('x') | Key::Char('q') => r == NavAction::Close
                    && final(self).selected == old(self).selected,
                Key::Down | Key::Char('j') => r == NavAction::Stay && final(self).selected == (
                if old(self).selected + 1 < old(self).items@.len() {
                    old(self).selected + 1
                } else {
                    old(self).selected as int
                }),
                Key::Up | Key::Char('k') => r == NavAction::Stay && final(self).selected == (
                if old(self).selected > 0 {
                    old(self).selected - 1
                } else {
                    0
                }),
                Key::Enter => r == NavAction::Jump(old(self).items@[old(self).selected as int].reference)
                    && final(self).selected == old(self).selected,
                _ => r == NavAction::Stay && final(self).selected == old(self).selected,
            },
    {
        match key {
            Key::Esc | Key::Char('x') | Key::Char('q') => NavAction::Close,
            Key::Down | Key::Char('j') => {
                if self.items.len() - self.selected > 1 {
                    self.selected = self.selected + 1;
                }
                NavAction::Stay
            },
            Key::Up | Key::Char('k') => {
                if self.selected > 0 {
                    self.selected = self.selected - 1;
                }
                NavAction::Stay
            },
            Key::Enter => NavAction::Jump(self.items[self.selected].reference),
            _ => NavAction::Stay,
        }
    }
}

/// State of the latest or current query of a conversation.
#[derive(Debug, Clone)]
pub enum AiStatus {
    /// Idle: showing the conversation, ready to go on.
    Idle,
    /// Waiting for the provider (background thread).
    Pending,
    /// Error in the last attempt.
    Error(String),
}

/// A clickable target registered by the drawing; a click goes to the topmost
/// target that contains the point.
#[derive(Debug, Clone, Copy, PartialEq, Eq, Structural)]
pub enum ClickTarget {
    /// Book row in the list.
    Book(usize),
    /// Verse row in the reader.
    Verse(usize),
    /// Row of the mode picker.
    ModeRow(usize),
    /// Lens field of the study setup (a click cycles it).
    LensCycle,
    /// Row of the conversation browser.
    SessionRow(usize),
    /// Provider row in the AI settings.
    SettingsRow(usize),
    /// Scope option in the study assistant.
    StudyOption(usize),
    /// Button that installs the scholarly data.
    ScholarlyInstall,
}

impl ClickTarget {
    /// Targets of a modal overlay (not of the books/reader screen below it):
    /// clicks "under" a modal are ignored.
    pub fn is_overlay(self) -> (r: bool)
        ensures
            r == !(self is Book || self is Verse),
    {
        match self {
            ClickTarget::Book(_) | ClickTarget::Verse(_) => false,
            _ => true,
        }
    }
}

/// Topmost target, in drawing order, whose area contains `(col, row)`.
pub open spec fn hit_of(targets: Seq<(Area, ClickTarget)>, col: u16, row: u16) -> Option<ClickTarget>
    decreases targets.len(),
{
    if targets.len() == 0 {
        None
    } else {
        let (a, t) = targets.last();
        if a.x <= col < a.x + a.width && a.y <= row < a.y + a.height {
            Some(t)
        } else {
            hit_of(targets.drop_last(), col, row)
        }
    }
}

/// The target a click lands on: the last registered (topmost) one that
/// contains the point.
pub fn hit_test(targets: &[(Area, ClickTarget)], col: u16, row: u16) -> (r: Option<ClickTarget>)
    requires
        forall|i: int| 0 <= i < targets@.len() ==> (#[trigger] targets@[i]).0.fits(),
    ensures
        r == hit_of(targets@, col, row),
{
    let mut k = targets.len();
    assert(targets@.take(targets@.len() as int) =~= targets@);
    while k > 0
        invariant
            k <= targets.len(),
            forall|i: int| 0 <= i < targets@.len() ==> (#[trigger] targets@[i]).0.fits(),
            hit_of(targets@, col, row) == hit_of(targets@.take(k as int), col, row),
        decreases k,
    {
        let (a, t) = targets[k - 1];
        assert(targets@.take(k as int).last() == targets@[k - 1]);
        assert(targets@.take(k as int).drop_last() =~= targets@.take(k - 1));
        if a.contains(col, row) {
            return Some(t);
        }
        k = k - 1;
    }
    None
}

// ---------------------------------------------------------------------------
// The study assistant.
// ---------------------------------------------------------------------------
/// The study assistant (subject + three refinement rounds) inside an AI panel.
#[derive(Debug, Clone)]
pub struct StudyFlow {
    /// Mode chosen in the picker.
    pub mode: StudyMode,
    /// Denominational lens.
    pub lens: Denomination,
    /// Subject typed by the user.
    pub brief: String,
    /// Current round (1..=3); 0 before the subject is sent.
    pub round: u8,
    /// Question of the current round (empty while waiting for the AI).
    pub question: String,
    /// Options of the current round (empty while there is no choice to make).
    pub options: Vec<String>,
    /// Selected option.
    pub selected: usize,
    /// Answers so far `(question, answer)`.
    pub prior: Vec<(String, String)>,
    /// Depth of the study the rounds lead to.
    pub depth: StudyDepth,
}

/// What recording an answer leads to.
#[derive(Debug, Clone, Copy, PartialEq, Eq, Structural)]
pub enum RoundStep {
    /// Nothing recorded (blank answer, or no round waiting for one).
    Ignored,
    /// Ask the refinement round with this number.
    Refine(u8),
    /// The rounds are over: run the study.
    Study,
}

pub open spec fn prior_view(p: Seq<(String, String)>) -> Seq<(Seq<char>, Seq<char>)> {
    p.map_values(|x: (String, String)| (x.0@, x.1@))
}

impl StudyFlow {
    /// A new assistant for a mode and lens, before the subject; the study
    /// starts at the first depth of the deepening sequence.
    pub fn new(mode: StudyMode, lens: Denomination) -> (r: StudyFlow)
        ensures
            r.depth == StudyDepth::Overview,
            r.mode == mode,
            r.lens == lens,
            r.brief@.len() == 0,
            r.round == 0,
            r.question@.len() == 0,
            r.options@.len() == 0,
            r.selected == 0,
            r.prior@.len() == 0,
    {
        StudyFlow {
            mode,
            lens,
            brief: String::new(),
            round: 0,
            question: String::new(),
            options: Vec::new(),
            selected: 0,
            prior: Vec::new(),
            depth: StudyDepth::Overview,
        }
    }

    /// Records the answer to the round waiting for one (trimmed; a blank
    /// answer is ignored): the question and answer join the history, the
    /// options are cleared, and the next round is asked, or, after the third,
    /// the study is run.
    pub fn record_answer(&mut self, answer: &str) -> (r: RoundStep)
        ensures
            ({
                let a = trim(answer@);
                if a.len() == 0 || old(self).options@.len() == 0 {
                    r == RoundStep::Ignored && final(self).prior@ == old(self).prior@
                        && final(self).options@ == old(self).options@ && final(self).round
                        == old(self).round
                } else {
                    &&& prior_view(final(self).prior@) == prior_view(old(self).prior@).push(
                        (old(self).question@, a),
                    )
                    &&& final(self).options@.len() == 0
                    &&& if old(self).round < 3 {
                        r == RoundStep::Refine((old(self).round + 1) as u8) && final(self).round
                            == old(self).round + 1
                    } else {
                        r == RoundStep::Study && final(self).round == old(self).round
                    }
                }
            }),
            final(self).mode == old(self).mode,
            final(self).lens == old(self).lens,
            final(self).brief@ == old(self).brief@,
            final(self).depth == old(self).depth,
            final(self).question@ == old(self).question@,
    {
        let t = trim_chars(chars_of(answer).as_slice());
        if t.len() == 0 || self.options.len() == 0 {
            return RoundStep::Ignored;
        }
        let a = string_of(t.as_slice());
        let q = copy_str(self.question.as_str());
        let ghost p0 = self.prior@;
        self.prior.push((q, a));
        assert(prior_view(self.prior@) =~= prior_view(p0).push((self.question@, t@)));
        self.options = Vec::new();
        if self.round < 3 {
            self.round = self.round + 1;
            RoundStep::Refine(self.round)
        } else {
            RoundStep::Study
        }
    }

    /// Sets the subject and starts the first round.
    pub fn set_brief(&mut self, brief: &str)
        ensures
            final(self).brief@ == brief@,
            final(self).round == 1,
            final(self).mode == old(self).mode,
            final(self).lens == old(self).lens,
            final(self).prior@ == old(self).prior@,
            final(self).options@ == old(self).options@,
            final(self).depth == old(self).depth,
            final(self).question@ == old(self).question@,
            final(self).selected == old(self).selected,
    {
        self.brief = copy_str(brief);
        self.round = 1;
    }
}

/// Context of a finished study, kept to deepen it and to answer follow-ups
/// under the same lens and grounding.
#[derive(Debug, Clone)]
pub struct StudyContext {
    /// Study mode.
    pub mode: StudyMode,
    /// Lens applied.
    pub lens: Denomination,
    /// Depth of the last pass (advances when deepening).
    pub depth: StudyDepth,
    /// Resolved reference (anchor chapter when topical).
    pub reference: Reference,
    /// Reference label (or short title of the subject, when topical).
    pub reference_label: String,
    /// `true` when the study was grounded on a concrete passage of the store.
    pub grounded: bool,
    /// Scope text (subject + answers) to focus the deepening.
    pub scope: String,
}

/// The study's title in the conversation list: `mode · lens — subject`.
pub open spec fn study_title_text(mode: StudyMode, lens: Denomination, brief: Seq<char>) -> Seq<char> {
    mode_name_pt(mode) + " · "@ + lens_name_pt(lens) + " — "@ + session_title_text(brief)
}

pub fn study_title(mode: StudyMode, lens: Denomination, brief: &str) -> (r: String)
    ensures
        r@ == study_title_text(mode, lens, brief@),
{
    let mut s = copy_str(mode.name_pt());
    s.append(" · ");
    s.append(lens.name_pt());
    s.append(" — ");
    let t = session_title(brief);
    s.append(t.as_str());
    s
}

/// Short title of a conversation, from its first question: the first 40
/// characters of the trimmed question, with `…` when it is longer.
pub open spec fn session_title_text(question: Seq<char>) -> Seq<char> {
    let t = trim(question);
    if t.len() > 40 {
        t.take(40) + "…"@
    } else {
        t
    }
}

pub fn session_title(question: &str) -> (r: String)
    ensures
        r@ == session_title_text(question@),
{
    let t = trim_chars(chars_of(question).as_slice());
    if t.len() > 40 {
        let h = slice_chars(t.as_slice(), 0, 40);
        let mut s = string_of(h.as_slice());
        s.append("…");
        assert(h@ =~= t@.take(40));
        s
    } else {
        string_of(t.as_slice())
    }
}

/// The lens `dir` steps after `cur` in the lens list, cyclically.
pub open spec fn lens_step(cur: Denomination, dir: int) -> Denomination {
    let i = choose|i: int| 0 <= i < 6 && all_lenses()[i] == cur;
    all_lenses()[(i + dir) % 6]
}

proof fn lemma_lens_index(cur: Denomination, i: int)
    requires
        0 <= i < 6,
        all_lenses()[i] == cur,
    ensures
        (choose|j: int| 0 <= j < 6 && all_lenses()[j] == cur) == i,
{
    let j = choose|j: int| 0 <= j < 6 && all_lenses()[j] == cur;
    assert(0 <= j < 6 && all_lenses()[j] == cur);
    assert(j == i) by {
        if j != i {
            assert(all_lenses()[j] != all_lenses()[i]);
        }
    }
}

/// `dir` taken modulo the number of lenses, as a non-negative step.
fn lens_offset(dir: i64) -> (m: u64)
    ensures
        m < 6,
        m as int == dir as int % 6,
{
    if dir >= 0 {
        (dir as u64) % 6
    } else {
        let q: u64 = (-(dir + 1)) as u64;
        let r: u64 = q % 6;
        assert(5 - r == dir as int % 6) by (nonlinear_arith)
            requires
                q as int == -(dir as int + 1),
                r as int == q as int % 6,
                dir < 0,
        ;
        5 - r
    }
}

/// Next/previous denominational lens, cyclic (`dir` = +1 or -1).
pub fn next_lens(cur: Denomination, dir: i64) -> (r: Denomination)
    ensures
        r == lens_step(cur, dir as int),
{
    let all = Denomination::all();
    let mut i: usize = 0;
    while i < 6
        invariant
            i <= 6,
            all@ == all_lenses(),
            forall|j: int| 0 <= j < i ==> all_lenses()[j] != cur,
        ensures
            i <= 6,
            i < 6 ==> all_lenses()[i as int] == cur,
            forall|j: int| 0 <= j < i ==> all_lenses()[j] != cur,
        decreases 6 - i,
    {
        if all[i] == cur {
            break;
        }
        i = i + 1;
    }
    if i == 6 {
        assert(false) by {
            match cur {
                Denomination::Baptist => assert(all_lenses()[0] == cur),
                Denomination::Presbyterian => assert(all_lenses()[1] == cur),
                Denomination::Lutheran => assert(all_lenses()[2] == cur),
                Denomination::Pentecostal => assert(all_lenses()[3] == cur),
                Denomination::Catholic => assert(all_lenses()[4] == cur),
                Denomination::Orthodox => assert(all_lenses()[5] == cur),
            }
        }
    }
    proof {
        lemma_lens_index(cur, i as int);
    }
    let m = lens_offset(dir);
    let k: u64 = (i as u64 + m) % 6;
    proof {
        vstd::arithmetic::div_mod::lemma_add_mod_noop(i as int, dir as int, 6);
        vstd::arithmetic::div_mod::lemma_add_mod_noop(i as int, m as int, 6);
        vstd::arithmetic::div_mod::lemma_small_mod(m as nat, 6);
    }
    all[k as usize]
}

/// The study setup screen: mode and denominational lens before the subject.
#[derive(Debug, Clone)]
pub struct ModePicker {
    /// Selected mode (index in `StudyMode::all()`).
    pub selected: usize,
    /// Chosen lens (starts at the configured default).
    pub lens: Denomination,
}

/// What a key in the mode picker asks for.
#[derive(Debug, Clone, Copy, PartialEq, Eq, Structural)]
pub enum PickerAction {
    Stay,
    Close,
    /// Start the study with this mode and lens.
    Start(StudyMode, Denomination),
    /// Save mode and lens as the defaults (without starting).
    SetDefault(StudyMode, Denomination),
}

pub open spec fn all_modes() -> Seq<StudyMode> {
    seq![StudyMode::Academic, StudyMode::Devotional, StudyMode::Introductory, StudyMode::Sermon]
}

impl ModePicker {
    /// Opens the picker on the configured mode (the first when absent) and lens.
    pub fn open(mode: StudyMode, lens: Denomination) -> (r: ModePicker)
        ensures
            r.selected < 4,
            all_modes()[r.selected as int] == mode,
            r.lens == lens,
    {
        let selected: usize = match mode {
            StudyMode::Academic => 0,
            StudyMode::Devotional => 1,
            StudyMode::Introductory => 2,
            StudyMode::Sermon => 3,
        };
        ModePicker { selected, lens }
    }

    /// `↓`/`j` and `↑`/`k` move the selection; `→`/`l` and `←`/`h` cycle the
    /// lens; `Enter` starts the study; `s` saves the defaults; `Esc`/`q`/`m` close.
    pub fn handle_key(&mut self, key: Key) -> (r: PickerAction)
        requires
            old(self).selected < 4,
        ensures
            final(self).selected < 4,
            match key {
                Key::Esc | Key::Char('q') | Key::Char('m') => r == PickerAction::Close
                    && *final(self) == *old(self),
                Key::Down | Key::Char('j') => r == PickerAction::Stay && final(self).selected == (
                if old(self).selected + 1 < 4 {
                    old(self).selected + 1
                } else {
                    old(self).selected as int
                }) && final(self).lens == old(self).lens,
                Key::Up | Key::Char('k') => r == PickerAction::Stay && final(self).selected == (
                if old(self).selected > 0 {
                    old(self).selected - 1
                } else {
                    0
                }) && final(self).lens == old(self).lens,
                Key::Right | Key::Char('l') => r == PickerAction::Stay && final(self).lens
                    == lens_step(old(self).lens, 1) && final(self).selected == old(self).selected,
                Key::Left | Key::Char('h') => r == PickerAction::Stay && final(self).lens
                    == lens_step(old(self).lens, -1) && final(self).selected == old(self).selected,
                Key::Enter => r == PickerAction::Start(
                    all_modes()[old(self).selected as int],
                    old(self).lens,
                ) && *final(self) == *old(self),
                Key::Char('s') => r == PickerAction::SetDefault(
                    all_modes()[old(self).selected as int],
                    old(self).lens,
                ) && *final(self) == *old(self),
                _ => r == PickerAction::Stay && *final(self) == *old(self),
            },
    {
        let modes = StudyMode::all();
        match key {
            Key::Esc | Key::Char('q') | Key::Char('m') => PickerAction::Close,
            Key::Down | Key::Char('j') => {
                if self.selected + 1 < 4 {
                    self.selected = self.selected + 1;
                }
                PickerAction::Stay
            },
            Key::Up | Key::Char('k') => {
                if self.selected > 0 {
                    self.selected = self.selected - 1;
                }
                PickerAction::Stay
            },
            Key::Right | Key::Char('l') => {
                self.lens = next_lens(self.lens, 1);
                PickerAction::Stay
            },
            Key::Left | Key::Char('h') => {
                self.lens = next_lens(self.lens, -1);
                PickerAction::Stay
            },
            Key::Enter => PickerAction::Start(modes[self.selected], self.lens),
            Key::Char('s') => PickerAction::SetDefault(modes[self.selected], self.lens),
            _ => PickerAction::Stay,
        }
    }
}

// ---------------------------------------------------------------------------
// Scholarly data panel.
// ---------------------------------------------------------------------------
/// State of the scholarly data panel.
#[derive(Debug, Clone)]
pub enum ScholarlyState {
    /// Not installed: shows the invitation to install.
    Absent,
    /// Installed: counts of tokens and lexicon entries.
    Installed { tokens: i64, lexicon: i64 },
    /// Installing: current progress message.
    Installing(String),
    /// Error in the last attempt.
    Error(String),
}

/// Installation panel of the scholarly data (original languages + lexicon).
#[derive(Debug, Clone)]
pub struct ScholarlyPanel {
    /// Current state.
    pub state: ScholarlyState,
}

impl ScholarlyPanel {
    /// An installation may start: the data is absent or the last attempt failed.
    pub fn can_install(&self) -> (r: bool)
        ensures
            r == (self.state is Absent || self.state is Error),
    {
        match self.state {
            ScholarlyState::Absent | ScholarlyState::Error(_) => true,
            _ => false,
        }
    }
}

/// The panel state from the counts of installed records: any original-language
/// token means installed.
pub fn scholarly_state(tokens: i64, lexicon: i64) -> (r: ScholarlyState)
    ensures
        tokens > 0 ==> (r matches ScholarlyState::Installed { tokens: t, lexicon: l } && t == tokens
            && l == lexicon),
        tokens <= 0 ==> r is Absent,
{
    if tokens > 0 {
        ScholarlyState::Installed { tokens, lexicon }
    } else {
        ScholarlyState::Absent
    }
}

// ---------------------------------------------------------------------------
// Provider settings.
// ---------------------------------------------------------------------------
/// Mode of the AI settings modal.
#[derive(Debug, Clone)]
pub enum SettingsMode {
    /// Provider list (navigation).
    List,
    /// Typing the key of the selected provider (masked on screen).
    EditKey(String),
}

/// State of the provider/keys settings modal.
#[derive(Debug, Clone)]
pub struct Settings {
    /// Selected provider (index in the provider list).
    pub selected: usize,
    /// For each provider, whether the vault holds a key.
    pub has_key: Vec<bool>,
    /// Current mode (list or key editing).
    pub mode: SettingsMode,
}

/// What a key in the settings asks of the program.
#[derive(Debug, Clone)]
pub enum SettingsAction {
    /// Nothing beyond the state change.
    Nothing,
    Close,
    /// Make this provider the active one (and save the configuration).
    SetActive(usize),
    /// Remove the key of this provider from the vault.
    RemoveKey(usize),
    /// Store this key for this provider.
    CommitKey(usize, String),
}

/// Number of providers offered.
pub open spec fn provider_count() -> nat {
    3
}

/// The providers offered, in display order.
pub open spec fn provider_names() -> Seq<Seq<char>> {
    seq!["anthropic"@, "openai"@, "ollama"@]
}

impl Settings {
    /// The modal over the providers: which have a key (`have` lists the
    /// providers with a stored key), and the active provider selected (the
    /// first when it is none of them; `active` is read trimmed and in lower
    /// case).
    pub fn open(have: &[String], active: &str) -> (r: Settings)
        ensures
            r.has_key@.len() == provider_count(),
            forall|i: int|
                0 <= i < provider_count() ==> (#[trigger] r.has_key@[i] <==> exists|j: int|
                    0 <= j < have@.len() && have@[j]@ == provider_names()[i]),
            r.selected < provider_count(),
            provider_names().contains(lower_seq(trim(active@))) ==> provider_names()[r.selected as int]
                == lower_seq(trim(active@)),
            !provider_names().contains(lower_seq(trim(active@))) ==> r.selected == 0,
            r.mode is List,
    {
        let ps = crate::ai::providers();
        proof {
            assert(ps@.map_values(|s: &str| s@) == provider_names());
            assert(ps@.len() == 3);
        }
        let mut has_key: Vec<bool> = Vec::new();
        let mut i: usize = 0;
        while i < ps.len()
            invariant
                i <= ps.len(),
                ps@.len() == 3,
                ps@.map_values(|s: &str| s@) == provider_names(),
                has_key@.len() == i,
                forall|m: int|
                    0 <= m < i ==> (#[trigger] has_key@[m] <==> exists|j: int|
                        0 <= j < have@.len() && have@[j]@ == provider_names()[m]),
            decreases ps.len() - i,
        {
            assert(ps@[i as int]@ == provider_names()[i as int]) by {
                assert(ps@.map_values(|s: &str| s@)[i as int] == ps@[i as int]@);
            }
            let mut found = false;
            let mut j: usize = 0;
            while j < have.len()
                invariant
                    j <= have.len(),
                    i < ps@.len(),
                    found <==> exists|t: int| 0 <= t < j && have@[t]@ == ps@[i as int]@,
                decreases have.len() - j,
            {
                if crate::text::str_eq(have[j].as_str(), ps[i]) {
                    found = true;
                }
                j = j + 1;
            }
            has_key.push(found);
            i = i + 1;
        }
        let a = lower_chars(trim_chars(chars_of(active).as_slice()).as_slice());
        let act = string_of(a.as_slice());
        let mut selected: usize = 0;
        let mut k: usize = 0;
        while k < ps.len()
            invariant
                k <= ps.len(),
                ps@.len() == 3,
                ps@.map_values(|s: &str| s@) == provider_names(),
                act@ == lower_seq(trim(active@)),
                forall|m: int| 0 <= m < k ==> provider_names()[m] != act@,
            ensures
                k <= 3,
                k < 3 ==> provider_names()[k as int] == act@,
                forall|m: int| 0 <= m < k ==> provider_names()[m] != act@,
            decreases ps.len() - k,
        {
            assert(ps@[k as int]@ == provider_names()[k as int]) by {
                assert(ps@.map_values(|s: &str| s@)[k as int] == ps@[k as int]@);
            }
            if crate::text::str_eq(act.as_str(), ps[k]) {
                break;
            }
            k = k + 1;
        }
        if k < 3 {
            selected = k;
        }
        proof {
            if provider_names().contains(act@) {
                let w = choose|w: int| 0 <= w < provider_names().len() && provider_names()[w] == act@;
                assert(k < 3) by {
                    if k >= 3 {
                        assert(provider_names()[w] != act@);
                    }
                }
            } else {
                if k < 3 {
                    assert(provider_names().contains(act@)) by {
                        assert(provider_names()[k as int] == act@);
                    }
                }
            }
        }
        Settings { selected, has_key, mode: SettingsMode::List }
    }

    /// In the list: `↓`/`j`, `↑`/`k` move; `Enter` activates the provider;
    /// `e` starts typing a key; `d` removes the key; `Esc`/`c`/`q` close.
    /// While typing a key: characters and `Backspace` edit it, `Enter` hands
    /// it over (the buffer is emptied), `Esc` goes back to the list.
    pub fn handle_key(&mut self, key: Key) -> (r: SettingsAction)
        requires
            old(self).selected < provider_count(),
        ensures
            final(self).selected < provider_count(),
            final(self).has_key@ == old(self).has_key@,
            match old(self).mode {
                SettingsMode::EditKey(buf) => final(self).selected == old(self).selected && match key {
                    Key::Backspace => r is Nothing && (final(self).mode matches SettingsMode::EditKey(b)
                        && b@ == (if buf@.len() > 0 {
                        buf@.drop_last()
                    } else {
                        buf@
                    })),
                    Key::Char(c) => r is Nothing && (final(self).mode matches SettingsMode::EditKey(b)
                        && b@ == buf@.push(c)),
                    Key::Enter => (r matches SettingsAction::CommitKey(i, k) && i == old(self).selected
                        && k@ == buf@) && (final(self).mode matches SettingsMode::EditKey(b) && b@.len()
                        == 0),
                    Key::Esc => r is Nothing && final(self).mode is List,
                    _ => r is Nothing && (final(self).mode matches SettingsMode::EditKey(b) && b@ == buf@),
                },
                SettingsMode::List => final(self).mode is List && match key {
                    Key::Esc | Key::Char('c') | Key::Char('q') => r is Close && final(self).selected
                        == old(self).selected,
                    Key::Down | Key::Char('j') => r is Nothing && final(self).selected == (
                    if old(self).selected + 1 < provider_count() {
                        old(self).selected + 1
                    } else {
                        old(self).selected as int
                    }),
                    Key::Up | Key::Char('k') => r is Nothing && final(self).selected == (
                    if old(self).selected > 0 {
                        old(self).selected - 1
                    } else {
                        0
                    }),
                    Key::Enter => r matches SettingsAction::SetActive(i) && i == old(self).selected
                        && final(self).selected == old(self).selected,
                    Key::Char('d') => r matches SettingsAction::RemoveKey(i) && i == old(self).selected
                        && final(self).selected == old(self).selected,
                    _ => r is Nothing && final(self).selected == old(self).selected,
                } || (key == Key::Char('e') && r is Nothing && final(self).selected == old(
                    self,
                ).selected && (final(self).mode matches SettingsMode::EditKey(b) && b@.len() == 0)),
            },
    {
        match &mut self.mode {
            SettingsMode::EditKey(buf) => {
                match key {
                    Key::Backspace => {
                        let v = chars_of(buf.as_str());
                        if v.len() > 0 {
                            let w = slice_chars(v.as_slice(), 0, v.len() - 1);
                            *buf = string_of(w.as_slice());
                        }
                        SettingsAction::Nothing
                    },
                    Key::Char(c) => {
                        crate::text::push_char(buf, c);
                        SettingsAction::Nothing
                    },
                    Key::Enter => {
                        let k = copy_str(buf.as_str());
                        *buf = String::new();
                        SettingsAction::CommitKey(self.selected, k)
                    },
                    Key::Esc => {
                        self.mode = SettingsMode::List;
                        SettingsAction::Nothing
                    },
                    _ => SettingsAction::Nothing,
                }
            },
            SettingsMode::List => {
                match key {
                    Key::Esc | Key::Char('c') | Key::Char('q') => SettingsAction::Close,
                    Key::Down | Key::Char('j') => {
                        if self.selected + 1 < 3 {
                            self.selected = self.selected + 1;
                        }
                        SettingsAction::Nothing
                    },
                    Key::Up | Key::Char('k') => {
                        if self.selected > 0 {
                            self.selected = self.selected - 1;
                        }
                        SettingsAction::Nothing
                    },
                    Key::Enter => SettingsAction::SetActive(self.selected),
                    Key::Char('e') => {
                        self.mode = SettingsMode::EditKey(String::new());
                        SettingsAction::Nothing
                    },
                    Key::Char('d') => SettingsAction::RemoveKey(self.selected),
                    _ => SettingsAction::Nothing,
                }
            },
        }
    }

    /// The key to store from a typed buffer: trimmed; `None` when blank.
    pub fn key_to_store(buffer: &str) -> (r: Option<String>)
        ensures
            trim(buffer@).len() == 0 ==> r is None,
            trim(buffer@).len() > 0 ==> (r matches Some(k) && k@ == trim(buffer@)),
    {
        let t = trim_chars(chars_of(buffer).as_slice());
        if t.len() == 0 {
            None
        } else {
            Some(string_of(t.as_slice()))
        }
    }

    /// After a key was handed over: marks the provider when it was stored,
    /// and goes back to the list either way.
    pub fn key_committed(&mut self, i: usize, stored: bool)
        requires
            i < old(self).has_key@.len(),
        ensures
            final(self).has_key@ == (if stored {
                old(self).has_key@.update(i as int, true)
            } else {
                old(self).has_key@
            }),
            final(self).mode is List,
            final(self).selected == old(self).selected,
    {
        if stored {
            self.has_key.set(i, true);
        }
        self.mode = SettingsMode::List;
    }

    /// After a key was removed from the vault.
    pub fn key_removed(&mut self, i: usize)
        requires
            i < old(self).has_key@.len(),
        ensures
            final(self).has_key@ == old(self).has_key@.update(i as int, false),
            final(self).mode == old(self).mode,
            final(self).selected == old(self).selected,
    {
        self.has_key.set(i, false);
    }
}

// ---------------------------------------------------------------------------
// Conversations.
// ---------------------------------------------------------------------------
/// First occurrences, in order.
pub open spec fn unique_refs(rs: Seq<Reference>) -> Seq<Reference>
    decreases rs.len(),
{
    if rs.len() == 0 {
        seq![]
    } else {
        let u = unique_refs(rs.drop_last());
        if u.contains(rs.last()) {
            u
        } else {
            u.push(rs.last())
        }
    }
}

fn contains_ref(v: &Vec<Reference>, r: Reference) -> (b: bool)
    ensures
        b == v@.contains(r),
{
    let mut i: usize = 0;
    while i < v.len()
        invariant
            i <= v.len(),
            forall|j: int| 0 <= j < i ==> v@[j] != r,
        decreases v.len() - i,
    {
        if v[i] == r {
            return true;
        }
        i = i + 1;
    }
    false
}

pub open spec fn scanned_refs(ss: Seq<(usize, usize, Reference)>) -> Seq<Reference> {
    ss.map_values(|s: (usize, usize, Reference)| s.2)
}

/// `rs` are the references cited in `text`, each once, in order of
/// appearance (the book names tried longest first; nothing when the pattern
/// does not compile).
pub open spec fn cites(text: Seq<char>, rs: Seq<Reference>) -> bool {
    exists|ord: Seq<Seq<char>>|
        strictly_ordered(ord) && ord.to_set() == spellings_upto(66).to_set() && (regex_compiles(
            scan_pattern(ord),
        ) ==> rs == unique_refs(scanned_refs(scan_filter(regex_scan(scan_pattern(ord), text)))))
            && (!regex_compiles(scan_pattern(ord)) ==> rs.len() == 0)
}

/// The references cited in a text, each once, in order of appearance.
pub fn cited_refs(answer: &str) -> (r: Vec<Reference>)
    ensures
        cites(answer@, r@),
{
    let scanned = scan_references(answer);
    let ghost sv = scanned@.map_values(|s: ScannedRef| scanned_view(s));
    let ghost rs = scanned_refs(sv);
    let mut out: Vec<Reference> = Vec::new();
    let mut i: usize = 0;
    while i < scanned.len()
        invariant
            i <= scanned.len(),
            sv == scanned@.map_values(|s: ScannedRef| scanned_view(s)),
            rs == scanned_refs(sv),
            out@ == unique_refs(rs.take(i as int)),
        decreases scanned.len() - i,
    {
        let r = scanned[i].reference;
        assert(rs.take((i + 1) as int).drop_last() =~= rs.take(i as int));
        assert(rs.take((i + 1) as int).last() == r);
        if !contains_ref(&out, r) {
            out.push(r);
        }
        i = i + 1;
    }
    assert(rs.take(scanned.len() as int) =~= rs);
    out
}

/// Runs one turn of a conversation; the error becomes its message.
pub fn run_session_query<P: LlmProvider>(
    provider: &P,
    lang: Lang,
    context: &str,
    turns: &[ChatMessage],
    study: Option<(StudyMode, Denomination)>,
) -> (r: Result<String, String>)
    ensures
        exists|res: Result<String, AiError>|
            provider.may_answer(
                session_system_text(lang, study),
                wrapped_turns(messages_view(turns@), context@),
                answer_view(res),
            ) && match res {
                Ok(a) => r matches Ok(x) && x@ == a@,
                Err(e) => r matches Err(m) && m@ == error_text(e),
            },
{
    match ask_session(provider, lang, context, turns, study) {
        Ok(a) => Ok(a),
        Err(e) => Err(e.message()),
    }
}

// ---------------------------------------------------------------------------
// The AI panel.
// ---------------------------------------------------------------------------
/// The answers of a conversation (the assistant's turns), in order.
pub open spec fn answers_of(ms: Seq<Message>) -> Seq<Seq<char>>
    decreases ms.len(),
{
    if ms.len() == 0 {
        seq![]
    } else {
        let p = answers_of(ms.drop_last());
        if ms.last().role == ChatRole::Assistant {
            p.push(ms.last().content@)
        } else {
            p
        }
    }
}

/// The lists one after the other.
pub open spec fn flatten_refs(cs: Seq<Seq<Reference>>) -> Seq<Reference>
    decreases cs.len(),
{
    if cs.len() == 0 {
        seq![]
    } else {
        flatten_refs(cs.drop_last()) + cs.last()
    }
}

/// `rs` are the references cited in the answers of a conversation, each
/// once, in order of appearance.
pub open spec fn session_cites(ms: Seq<Message>, rs: Seq<Reference>) -> bool {
    exists|cs: Seq<Seq<Reference>>|
        cs.len() == answers_of(ms).len() && (forall|i: int| 0 <= i < cs.len() ==> cites(answers_of(ms)[i], #[trigger] cs[i]))
            && rs == unique_refs(flatten_refs(cs))
}

/// Appending one reference to a list and keeping the first occurrences.
proof fn lemma_unique_push(xs: Seq<Reference>, x: Reference)
    ensures
        unique_refs(xs.push(x)) == (if unique_refs(xs).contains(x) {
            unique_refs(xs)
        } else {
            unique_refs(xs).push(x)
        }),
{
    assert(xs.push(x).drop_last() =~= xs);
}

/// The references cited in the answers of a conversation, each once, in
/// order of appearance (for quick travel).
pub fn session_refs(session: &Session) -> (r: Vec<Reference>)
    ensures
        session_cites(session.messages@, r@),
{
    let ms = &session.messages;
    let ghost mut cs: Seq<Seq<Reference>> = seq![];
    let mut out: Vec<Reference> = Vec::new();
    let mut i: usize = 0;
    while i < ms.len()
        invariant
            i <= ms@.len(),
            *ms == session.messages,
            cs.len() == answers_of(ms@.take(i as int)).len(),
            forall|k: int| 0 <= k < cs.len() ==> cites(answers_of(ms@.take(i as int))[k], #[trigger] cs[k]),
            out@ == unique_refs(flatten_refs(cs)),
        decreases ms@.len() - i,
    {
        assert(ms@.take(i + 1).drop_last() =~= ms@.take(i as int));
        assert(ms@.take(i + 1).last() == ms@[i as int]);
        if ms[i].role == ChatRole::Assistant {
            let c = cited_refs(ms[i].content.as_str());
            let ghost base = flatten_refs(cs);
            let mut j: usize = 0;
            while j < c.len()
                invariant
                    j <= c@.len(),
                    out@ == unique_refs(base + c@.take(j as int)),
                decreases c@.len() - j,
            {
                let x = c[j];
                proof {
                    assert(base + c@.take(j + 1) =~= (base + c@.take(j as int)).push(x));
                    lemma_unique_push(base + c@.take(j as int), x);
                }
                if !contains_ref(&out, x) {
                    out.push(x);
                }
                j = j + 1;
            }
            proof {
                let cs2 = cs.push(c@);
                assert(cs2.drop_last() =~= cs);
                assert(c@.take(c@.len() as int) =~= c@);
                assert(flatten_refs(cs2) == base + c@);
                let ghost a = answers_of(ms@.take(i + 1));
                assert(a == answers_of(ms@.take(i as int)).push(ms@[i as int].content@));
                assert forall|k: int| 0 <= k < cs2.len() implies cites(a[k], #[trigger] cs2[k]) by {
                    if k < cs.len() {
                        assert(cs2[k] == cs[k]);
                    }
                }
                cs = cs2;
            }
        }
        i = i + 1;
    }
    assert(ms@.take(ms@.len() as int) =~= ms@);
    out
}

/// The AI panel: a conversation, its state, and the quick travel to the
/// references its answers cite.
#[derive(Debug, Clone)]
pub struct AiPanel {
    /// The conversation.
    pub session: Session,
    /// State of the last or current query.
    pub status: AiStatus,
    /// References cited by the answers.
    pub refs: Vec<Reference>,
    /// Selected reference in the travel list.
    pub ref_selected: usize,
    /// Vertical scrolling of the conversation.
    pub scroll: ScrollState,
    /// Study assistant under way (scope refinement), if any.
    pub study: Option<StudyFlow>,
    /// Context of a finished study (to deepen it or answer in its context).
    pub study_done: Option<StudyContext>,
}

/// What a key in the AI panel asks of the program.
#[derive(Debug, Clone, Copy, PartialEq, Eq, Structural)]
pub enum AiAction {
    /// Nothing beyond the state change.
    Nothing,
    /// Close the panel.
    Close,
    /// Answer the refinement round with this option.
    Pick(usize),
    /// Type one's own answer to the round.
    Custom,
    /// Export the study.
    Export,
    /// Cycle the default denominational lens.
    CycleLens,
    /// Deepen the finished study.
    Deepen,
    /// Ask a follow-up question.
    FollowUp,
    /// Close the panel and go to this reference.
    Jump(Reference),
}

/// The options to choose from in a refinement round (none outside one).
pub open spec fn option_count(p: AiPanel) -> nat {
    match p.study {
        Some(f) => f.options@.len(),
        None => 0,
    }
}

/// The selected option of the round under way.
pub open spec fn option_selected(p: AiPanel) -> usize {
    match p.study {
        Some(f) => f.selected,
        None => 0,
    }
}

/// Position a digit key `1`..`9` names (`1` is the first).
pub open spec fn digit_position(c: char) -> int {
    c as int - '1' as int
}

pub open spec fn is_position_digit(c: char) -> bool {
    '1' <= c && c <= '9'
}

impl AiPanel {
    /// The selection of the travel list is inside it (or at the start of an
    /// empty one).
    pub open spec fn wf(&self) -> bool {
        self.refs@.len() > 0 ==> self.ref_selected < self.refs@.len()
    }

    /// Opens the panel on a conversation, with the references its answers cite.
    pub fn from_session(session: Session) -> (r: AiPanel)
        ensures
            r.wf(),
            r.session == session,
            r.status is Idle,
            session_cites(session.messages@, r.refs@),
            r.ref_selected == 0,
            r.scroll@ == 0,
            r.study is None,
            r.study_done is None,
    {
        let refs = session_refs(&session);
        AiPanel {
            session,
            status: AiStatus::Idle,
            refs,
            ref_selected: 0,
            scroll: ScrollState::default(),
            study: None,
            study_done: None,
        }
    }

    /// Recomputes the cited references (after a new answer); the selection
    /// goes back to the first when it fell outside the list.
    pub fn refresh_refs(&mut self)
        ensures
            final(self).wf(),
            session_cites(old(self).session.messages@, final(self).refs@),
            final(self).ref_selected == (if old(self).ref_selected < final(self).refs@.len() {
                old(self).ref_selected
            } else {
                0
            }),
            final(self).session == old(self).session,
            final(self).status == old(self).status,
            final(self).scroll == old(self).scroll,
            final(self).study == old(self).study,
            final(self).study_done == old(self).study_done,
    {
        self.refs = session_refs(&self.session);
        if self.ref_selected >= self.refs.len() {
            self.ref_selected = 0;
        }
    }

    /// During a refinement round: `↓`/`j`, `↑`/`k` move among the options,
    /// `Enter` or a digit picks one, `c`/`o` types one's own answer. Otherwise:
    /// `a` asks a follow-up, `+` deepens a finished study, `e` exports and `L`
    /// cycles the lens of a finished study (none of these while a query is
    /// pending); arrows and pages scroll; `Tab`/`BackTab` move in the cited
    /// references, `Enter` or a digit travels to one. `Esc`/`q` close.
    pub fn handle_key(&mut self, key: Key) -> (r: AiAction)
        requires
            old(self).wf(),
        ensures
            final(self).wf(),
            final(self).session == old(self).session,
            final(self).status == old(self).status,
            final(self).refs == old(self).refs,
            final(self).study_done == old(self).study_done,
            option_count(*old(self)) > 0 ==> ({
                let n = option_count(*old(self));
                let sel = option_selected(*old(self));
                &&& final(self).ref_selected == old(self).ref_selected
                &&& final(self).scroll == old(self).scroll
                &&& final(self).study matches Some(f) && old(self).study matches Some(g) && f.options
                    == g.options && f.prior == g.prior && f.round == g.round && f.question == g.question
                    && f.brief == g.brief && f.mode == g.mode && f.lens == g.lens
                &&& match key {
                    Key::Esc | Key::Char('q') => r == AiAction::Close && option_selected(*final(self)) == sel,
                    Key::Down | Key::Char('j') => r == AiAction::Nothing && option_selected(*final(self)) == (
                    if sel + 1 < n {
                        sel + 1
                    } else {
                        sel as int
                    }),
                    Key::Up | Key::Char('k') => r == AiAction::Nothing && option_selected(*final(self)) == (
                    if sel > 0 {
                        sel - 1
                    } else {
                        0
                    }),
                    Key::Enter => r == AiAction::Pick(sel) && option_selected(*final(self)) == sel,
                    Key::Char(c) => option_selected(*final(self)) == sel && (if is_position_digit(c) {
                        if digit_position(c) < n {
                            r == AiAction::Pick(digit_position(c) as usize)
                        } else {
                            r == AiAction::Nothing
                        }
                    } else if c == 'c' || c == 'o' {
                        r == AiAction::Custom
                    } else {
                        r == AiAction::Nothing
                    }),
                    _ => r == AiAction::Nothing && option_selected(*final(self)) == sel,
                }
            }),
            option_count(*old(self)) == 0 ==> ({
                let busy = old(self).status is Pending;
                let has_study = old(self).session.study_mode is Some && old(self).study is None;
                let can_deepen = old(self).study_done is Some;
                let n = old(self).refs@.len();
                let at = old(self).ref_selected;
                &&& final(self).study == old(self).study
                &&& match key {
                    Key::Esc | Key::Char('q') => r == AiAction::Close && final(self).scroll == old(self).scroll
                        && final(self).ref_selected == at,
                    Key::Down | Key::Char('j') => r == AiAction::Nothing && final(self).scroll@ == (if old(
                        self,
                    ).scroll@ + 1 > u16::MAX {
                        u16::MAX as int
                    } else {
                        old(self).scroll@ + 1
                    }) && final(self).ref_selected == at,
                    Key::PageDown | Key::Char(' ') => r == AiAction::Nothing && final(self).scroll@ == (if old(
                        self,
                    ).scroll@ + 10 > u16::MAX {
                        u16::MAX as int
                    } else {
                        old(self).scroll@ + 10
                    }) && final(self).ref_selected == at,
                    Key::Up | Key::Char('k') => r == AiAction::Nothing && final(self).scroll@ == (if old(
                        self,
                    ).scroll@ >= 1 {
                        old(self).scroll@ - 1
                    } else {
                        0
                    }) && final(self).ref_selected == at,
                    Key::PageUp => r == AiAction::Nothing && final(self).scroll@ == (if old(self).scroll@ >= 10 {
                        old(self).scroll@ - 10
                    } else {
                        0
                    }) && final(self).ref_selected == at,
                    Key::Tab => r == AiAction::Nothing && final(self).scroll == old(self).scroll
                        && final(self).ref_selected == (if n > 0 {
                        (at + 1) % (n as int)
                    } else {
                        at as int
                    }),
                    Key::BackTab => r == AiAction::Nothing && final(self).scroll == old(self).scroll
                        && final(self).ref_selected == (if n > 0 {
                        (at + n - 1) % (n as int)
                    } else {
                        at as int
                    }),
                    Key::Enter => final(self).scroll == old(self).scroll && final(self).ref_selected == at && (
                    if at < n {
                        r == AiAction::Jump(old(self).refs@[at as int])
                    } else {
                        r == AiAction::Nothing
                    }),
                    Key::Char(c) => final(self).scroll == old(self).scroll && final(self).ref_selected == at
                        && (if c == 'a' && !busy {
                        r == AiAction::FollowUp
                    } else if c == '+' && can_deepen && !busy {
                        r == AiAction::Deepen
                    } else if c == 'e' && has_study && !busy {
                        r == AiAction::Export
                    } else if c == 'L' && has_study && !busy {
                        r == AiAction::CycleLens
                    } else if is_position_digit(c) && digit_position(c) < n {
                        r == AiAction::Jump(old(self).refs@[digit_position(c)])
                    } else {
                        r == AiAction::Nothing
                    }),
                    _ => r == AiAction::Nothing && final(self).scroll == old(self).scroll
                        && final(self).ref_selected == at,
                }
            }),
    {
        let count: usize = match &self.study {
            Some(f) => f.options.len(),
            None => 0,
        };
        if count > 0 {
            match &mut self.study {
                Some(flow) => {
                    match key {
                        Key::Esc | Key::Char('q') => AiAction::Close,
                        Key::Down | Key::Char('j') => {
                            if flow.selected < count && count - flow.selected > 1 {
                                flow.selected = flow.selected + 1;
                            }
                            AiAction::Nothing
                        },
                        Key::Up | Key::Char('k') => {
                            if flow.selected > 0 {
                                flow.selected = flow.selected - 1;
                            }
                            AiAction::Nothing
                        },
                        Key::Enter => AiAction::Pick(flow.selected),
                        Key::Char(c) => {
                            if '1' <= c && c <= '9' {
                                let i = (c as u32 - '1' as u32) as usize;
                                if i < count {
                                    AiAction::Pick(i)
                                } else {
                                    AiAction::Nothing
                                }
                            } else if c == 'c' || c == 'o' {
                                AiAction::Custom
                            } else {
                                AiAction::Nothing
                            }
                        },
                        _ => AiAction::Nothing,
                    }
                },
                None => AiAction::Nothing,
            }
        } else {
            let busy = match self.status {
                AiStatus::Pending => true,
                _ => false,
            };
            let has_study = self.session.study_mode.is_some() && self.study.is_none();
            let can_deepen = self.study_done.is_some();
            let n = self.refs.len();
            match key {
                Key::Esc | Key::Char('q') => AiAction::Close,
                Key::Down | Key::Char('j') => {
                    self.scroll.down(1);
                    AiAction::Nothing
                },
                Key::PageDown | Key::Char(' ') => {
                    self.scroll.down(10);
                    AiAction::Nothing
                },
                Key::Up | Key::Char('k') => {
                    self.scroll.up(1);
                    AiAction::Nothing
                },
                Key::PageUp => {
                    self.scroll.up(10);
                    AiAction::Nothing
                },
                Key::Tab => {
                    if n > 0 {
                        self.ref_selected = (self.ref_selected + 1) % n;
                    }
                    AiAction::Nothing
                },
                Key::BackTab => {
                    if n > 0 {
                        let at = self.ref_selected;
                        let prev = if at == 0 {
                            n - 1
                        } else {
                            at - 1
                        };
                        assert(prev == (at + n - 1) % (n as int)) by (nonlinear_arith)
                            requires
                                at < n,
                                prev == (if at == 0 { n - 1 } else { at - 1 }),
                        {
                            if at == 0 {
                                vstd::arithmetic::div_mod::lemma_small_mod((n - 1) as nat, n as nat);
                            } else {
                                vstd::arithmetic::div_mod::lemma_mod_add_multiples_vanish((at - 1) as int, n as int);
                                vstd::arithmetic::div_mod::lemma_small_mod((at - 1) as nat, n as nat);
                            }
                        }
                        self.ref_selected = prev;
                    }
                    AiAction::Nothing
                },
                Key::Enter => {
                    if self.ref_selected < n {
                        AiAction::Jump(self.refs[self.ref_selected])
                    } else {
                        AiAction::Nothing
                    }
                },
                Key::Char(c) => {
                    if c == 'a' && !busy {
                        AiAction::FollowUp
                    } else if c == '+' && can_deepen && !busy {
                        AiAction::Deepen
                    } else if c == 'e' && has_study && !busy {
                        AiAction::Export
                    } else if c == 'L' && has_study && !busy {
                        AiAction::CycleLens
                    } else if '1' <= c && c <= '9' {
                        let i = (c as u32 - '1' as u32) as usize;
                        if i < n {
                            AiAction::Jump(self.refs[i])
                        } else {
                            AiAction::Nothing
                        }
                    } else {
                        AiAction::Nothing
                    }
                },
                _ => AiAction::Nothing,
            }
        }
    }
}

// ---------------------------------------------------------------------------
// Saved conversations.
// ---------------------------------------------------------------------------
/// Browser of the saved conversations.
#[derive(Debug, Clone)]
pub struct SessionBrowser {
    /// Saved sessions, most recent first.
    pub items: Vec<Session>,
    /// Selected item.
    pub selected: usize,
}

/// What a key or a click in the browser asks of the program.
#[derive(Debug, Clone, PartialEq, Eq)]
pub enum BrowserAction {
    /// Nothing beyond the selection change.
    Nothing,
    /// Close the browser.
    Close,
    /// Open the conversation at this position.
    Open(usize),
    /// Delete the conversation with this id.
    Delete(String),
}

impl SessionBrowser {
    /// `↓`/`j`, `↑`/`k` move; `Enter` opens the selected conversation; `d`
    /// deletes it; `Esc`/`q`/`s` close.
    pub fn handle_key(&mut self, key: Key) -> (r: BrowserAction)
        ensures
            final(self).items@ == old(self).items@,
            ({
                let n = old(self).items@.len();
                let sel = old(self).selected;
                match key {
                    Key::Esc | Key::Char('q') | Key::Char('s') => r == BrowserAction::Close
                        && final(self).selected == sel,
                    Key::Down | Key::Char('j') => r == BrowserAction::Nothing && final(self).selected == (
                    if sel + 1 < n {
                        sel + 1
                    } else {
                        sel as int
                    }),
                    Key::Up | Key::Char('k') => r == BrowserAction::Nothing && final(self).selected == (
                    if sel > 0 {
                        sel - 1
                    } else {
                        0
                    }),
                    Key::Enter => final(self).selected == sel && (if sel < n {
                        r == BrowserAction::Open(sel)
                    } else {
                        r == BrowserAction::Nothing
                    }),
                    Key::Char('d') => final(self).selected == sel && (if sel < n {
                        r matches BrowserAction::Delete(id) && id@ == old(self).items@[sel as int].id@
                    } else {
                        r == BrowserAction::Nothing
                    }),
                    _ => r == BrowserAction::Nothing && final(self).selected == sel,
                }
            }),
    {
        let n = self.items.len();
        match key {
            Key::Esc | Key::Char('q') | Key::Char('s') => BrowserAction::Close,
            Key::Down | Key::Char('j') => {
                if self.selected < n && n - self.selected > 1 {
                    self.selected = self.selected + 1;
                }
                BrowserAction::Nothing
            },
            Key::Up | Key::Char('k') => {
                if self.selected > 0 {
                    self.selected = self.selected - 1;
                }
                BrowserAction::Nothing
            },
            Key::Enter => {
                if self.selected < n {
                    BrowserAction::Open(self.selected)
                } else {
                    BrowserAction::Nothing
                }
            },
            Key::Char('d') => {
                if self.selected < n {
                    BrowserAction::Delete(copy_str(self.items[self.selected].id.as_str()))
                } else {
                    BrowserAction::Nothing
                }
            },
            _ => BrowserAction::Nothing,
        }
    }

    /// A click on a row selects it; a click on the selected row opens it.
    pub fn click_row(&mut self, i: usize) -> (r: BrowserAction)
        ensures
            final(self).items@ == old(self).items@,
            final(self).selected == (if i < old(self).items@.len() {
                i
            } else {
                old(self).selected
            }),
            r == (if old(self).selected == i && i < old(self).items@.len() {
                BrowserAction::Open(i)
            } else {
                BrowserAction::Nothing
            }),
    {
        let act = self.selected == i;
        if i < self.items.len() {
            self.selected = i;
        }
        if act && i < self.items.len() {
            BrowserAction::Open(i)
        } else {
            BrowserAction::Nothing
        }
    }

    /// After a deletion: the conversations with that id leave the list and
    /// the selection stays inside it.
    pub fn remove(&mut self, id: &str)
        ensures
            final(self).items@ == old(self).items@.filter(|s: Session| s.id@ != id@),
            final(self).selected == (if old(self).selected < final(self).items@.len() {
                old(self).selected as int
            } else if final(self).items@.len() > 0 {
                final(self).items@.len() - 1
            } else {
                0
            }),
    {
        let mut kept: Vec<Session> = Vec::new();
        let ghost all = self.items@;
        let mut rest: Vec<Session> = Vec::new();
        std::mem::swap(&mut rest, &mut self.items);
        assert(kept@ =~= Seq::<Session>::empty().filter(|s: Session| s.id@ != id@)) by {
            reveal(Seq::filter);
        }
        assert(rest@ == all);
        let mut i: usize = 0;
        let ghost mut taken: Seq<Session> = seq![];
        while rest.len() > 0
            invariant
                taken + rest@ == all,
                kept@ == taken.filter(|s: Session| s.id@ != id@),
            decreases rest@.len(),
        {
            let ghost r0 = rest@;
            let s = rest.remove(0);
            assert(s == r0[0]);
            proof {
                assert(rest@ =~= r0.drop_first());
                let t2 = taken.push(s);
                assert(t2 + rest@ =~= all) by {
                    assert(taken + r0 =~= all);
                }
                assert(t2.drop_last() =~= taken);
                taken = t2;
            }
            if !crate::text::str_eq(s.id.as_str(), id) {
                kept.push(s);
            }
            assert(kept@ =~= taken.filter(|s: Session| s.id@ != id@)) by {
                reveal(Seq::filter);
            }
        }
        assert(taken =~= all);
        self.items = kept;
        if self.selected >= self.items.len() {
            self.selected = if self.items.len() > 0 {
                self.items.len() - 1
            } else {
                0
            };
        }
    }
}

// ---------------------------------------------------------------------------
// Clicks on the overlays.
// ---------------------------------------------------------------------------
/// What a click on a row of the study setup asks.
impl ModePicker {
    /// A click on a row selects it; a click on the selected row starts the
    /// study of that mode with the lens chosen.
    pub fn click_row(&mut self, i: usize) -> (r: Option<(StudyMode, Denomination)>)
        requires
            old(self).selected < 4,
        ensures
            final(self).lens == old(self).lens,
            final(self).selected == (if i < 4 { i } else { old(self).selected }),
            r == (if old(self).selected == i && i < 4 {
                Some((all_modes()[i as int], old(self).lens))
            } else {
                None
            }),
    {
        let act = self.selected == i;
        if i < 4 {
            self.selected = i;
        }
        if act && i < 4 {
            let modes = StudyMode::all();
            Some((modes[i], self.lens))
        } else {
            None
        }
    }

    /// A click on the lens field cycles it.
    pub fn click_lens(&mut self)
        ensures
            final(self).lens == lens_step(old(self).lens, 1),
            final(self).selected == old(self).selected,
    {
        self.lens = next_lens(self.lens, 1);
    }
}

impl Settings {
    /// A click on a provider row selects it; a click on the selected row makes
    /// that provider the active one.
    pub fn click_row(&mut self, i: usize) -> (r: Option<usize>)
        requires
            old(self).selected < provider_count(),
        ensures
            final(self).selected < provider_count(),
            final(self).has_key@ == old(self).has_key@,
            final(self).selected == (if i < provider_count() { i } else { old(self).selected }),
            r == (if old(self).selected == i && i < provider_count() {
                Some(i)
            } else {
                None
            }),
    {
        let act = self.selected == i;
        if i < 3 {
            self.selected = i;
        }
        if act && i < 3 {
            Some(i)
        } else {
            None
        }
    }
}

// ---------------------------------------------------------------------------
// The bottom input.
// ---------------------------------------------------------------------------
/// What a key in the bottom input asks of the program.
#[derive(Debug, Clone, Copy, PartialEq, Eq, Structural)]
pub enum InputAction {
    /// Nothing.
    Nothing,
    /// Close the input (`Esc`).
    Cancel,
    /// The text changed (a search runs again).
    Edited,
    /// Submit the text (`Enter`).
    Submit,
    /// Move down in the search results.
    ResultDown,
    /// Move up in the search results.
    ResultUp,
}

impl Input {
    /// A new, empty input of a kind.
    pub fn new(kind: InputKind) -> (r: Input)
        ensures
            r.kind == kind,
            r.buffer@.len() == 0,
            r.error is None,
    {
        Input { kind, buffer: String::new(), error: None }
    }

    /// Characters and `Backspace` edit the text (and clear the error); arrows
    /// move in the search results; `Enter` submits; `Esc` cancels.
    pub fn handle_key(&mut self, key: Key) -> (r: InputAction)
        ensures
            final(self).kind == old(self).kind,
            match key {
                Key::Esc => r == InputAction::Cancel && final(self).buffer@ == old(self).buffer@,
                Key::Backspace => r == InputAction::Edited && final(self).error is None && final(self).buffer@ == (
                if old(self).buffer@.len() > 0 {
                    old(self).buffer@.drop_last()
                } else {
                    old(self).buffer@
                }),
                Key::Char(c) => r == InputAction::Edited && final(self).error is None
                    && final(self).buffer@ == old(self).buffer@.push(c),
                Key::Down => final(self).buffer@ == old(self).buffer@ && r == (if old(self).kind == InputKind::Search {
                    InputAction::ResultDown
                } else {
                    InputAction::Nothing
                }),
                Key::Up => final(self).buffer@ == old(self).buffer@ && r == (if old(self).kind == InputKind::Search {
                    InputAction::ResultUp
                } else {
                    InputAction::Nothing
                }),
                Key::Enter => r == InputAction::Submit && final(self).buffer@ == old(self).buffer@,
                _ => r == InputAction::Nothing && final(self).buffer@ == old(self).buffer@,
            },
    {
        match key {
            Key::Esc => InputAction::Cancel,
            Key::Backspace => {
                let v = chars_of(self.buffer.as_str());
                if v.len() > 0 {
                    let w = slice_chars(v.as_slice(), 0, v.len() - 1);
                    self.buffer = string_of(w.as_slice());
                }
                self.error = None;
                InputAction::Edited
            },
            Key::Char(c) => {
                crate::text::push_char(&mut self.buffer, c);
                self.error = None;
                InputAction::Edited
            },
            Key::Down => {
                if self.kind == InputKind::Search {
                    InputAction::ResultDown
                } else {
                    InputAction::Nothing
                }
            },
            Key::Up => {
                if self.kind == InputKind::Search {
                    InputAction::ResultUp
                } else {
                    InputAction::Nothing
                }
            },
            Key::Enter => InputAction::Submit,
            _ => InputAction::Nothing,
        }
    }
}


// ---------------------------------------------------------------------------
// Which provider answers.
// ---------------------------------------------------------------------------
/// The provider named in the configuration: trimmed, in ASCII lowercase.
pub fn provider_slug(configured: &str) -> (r: String)
    ensures
        r@ == lower_seq(trim(configured@)),
{
    let c = chars_of(configured);
    let t = trim_chars(c.as_slice());
    string_of(lower_chars(t.as_slice()).as_slice())
}

/// The providers whose stored key is looked up before a query.
pub open spec fn needs_stored_key(name: Seq<char>) -> bool {
    name == "anthropic"@ || name == "openai"@
}

/// The error when no provider is configured.
pub open spec fn no_provider_msg() -> Seq<char> {
    "nenhum provedor de IA configurado — pressione c para configurar"@
}

/// The error when a provider that needs a key has none stored.
pub open spec fn no_key_msg(name: Seq<char>) -> Seq<char> {
    "sem chave para `"@ + name + "` — pressione c para configurar"@
}

/// Decides whether a query can be sent with the provider `name` (already a
/// slug): none configured, or a missing key for a provider that needs one, is
/// an error for the panel; otherwise the key to hand to the provider (only
/// for the providers that need one).
pub fn resolve_provider(name: &str, stored_key: Option<String>) -> (r: Result<Option<String>, String>)
    ensures
        name@.len() == 0 ==> (r matches Err(m) && m@ == no_provider_msg()),
        name@.len() > 0 && needs_stored_key(name@) ==> match stored_key {
            Some(k) => r == Ok::<Option<String>, String>(Some(k)),
            None => r matches Err(m) && m@ == no_key_msg(name@),
        },
        name@.len() > 0 && !needs_stored_key(name@) ==> r == Ok::<Option<String>, String>(None),
{
    let c = chars_of(name);
    if c.len() == 0 {
        return Err(copy_str("nenhum provedor de IA configurado — pressione c para configurar"));
    }
    if crate::text::str_eq(name, "anthropic") || crate::text::str_eq(name, "openai") {
        match stored_key {
            Some(k) => Ok(Some(k)),
            None => {
                let mut m = copy_str("sem chave para `");
                m.append(name);
                m.append("` — pressione c para configurar");
                Err(m)
            },
        }
    } else {
        Ok(None)
    }
}

} // verus!
