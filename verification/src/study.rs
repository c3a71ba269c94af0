//! Study and question orchestration: builds the prompts (lens system prompt +
//! local text + cross references as light retrieval context), calls the
//! provider and keeps the **quoted text** (from the local store) apart from
//! the **interpretation** (from the model).
use vstd::prelude::*;
use vstd::string::StringExecFns;

use crate::ai::{
    answer_view, depth_name_pt, lens_name_pt, messages_view, mode_name_pt, AiError, ChatMessage,
    ChatRole, Denomination, LlmProvider, StudyDepth, StudyMode,
};
use crate::citation::{
    bibliography_text, cite_view, cites_view, footer_text, footnote_text, key_set,
    provenance_footer, rewrite_all_anchors, rewrite_all_spec, sbl_bibliography_entry, sbl_footnote,
    Citation, CitationKind, CiteView,
};
use crate::model::{lang_code, range_first, Lang, Passage, Reference, Verse};
use crate::sorted::{sorted_set, sorted_unique, strs};
use crate::prompts::{
    ask_system_prompt, ask_system_text, followup_system_text, study_followup_system_prompt,
};
use crate::text::{blank, chars_of, contains_chars, contains_seq, copy_str, decimal, is_blank, join, join_strings, lines, lines_of, push_decimal, slice_chars, starts_with, starts_with_lit, string_of, trim, trim_chars, trim_end, trim_end_chars};

verus! {

// ---------------------------------------------------------------------------
// Numbered passage text and the retrieval context of a question.
// ---------------------------------------------------------------------------
/// `"{n} {text}"`: one numbered verse line.
pub open spec fn numbered_line(n: u16, text: Seq<char>) -> Seq<char> {
    decimal(n as nat) + " "@ + text
}

/// Numbered verses, one line each, joined by `'\n'`.
pub open spec fn numbered_text(vs: Seq<(u16, Seq<char>)>) -> Seq<char> {
    join(vs.map_values(|p: (u16, Seq<char>)| numbered_line(p.0, p.1)), "\n"@)
}

pub open spec fn pair_view(p: (u16, &str)) -> (u16, Seq<char>) {
    (p.0, p.1@)
}

/// The number a verse is listed under: the start of its range (0 for a whole chapter).
pub open spec fn verse_number(v: Verse) -> u16 {
    match range_first(v.reference.verses) {
        Some(n) => n,
        None => 0,
    }
}

pub open spec fn passage_pairs(p: Passage) -> Seq<(u16, Seq<char>)> {
    p.verses@.map_values(|v: Verse| (verse_number(v), v.text@))
}

fn numbered_line_string(n: u16, text: &str) -> (r: String)
    ensures
        r@ == numbered_line(n, text@),
{
    let mut s = String::new();
    push_decimal(&mut s, n as u64);
    s.append(" ");
    s.append(text);
    s
}

/// Numbers verses `(number, text)` one per line (`"{n} {text}"`): the common
/// base of the locally quoted text.
pub fn numbered_verses(verses: &[(u16, &str)]) -> (r: String)
    ensures
        r@ == numbered_text(verses@.map_values(|p: (u16, &str)| pair_view(p))),
{
    let ghost vs = verses@.map_values(|p: (u16, &str)| pair_view(p));
    let ghost want = vs.map_values(|p: (u16, Seq<char>)| numbered_line(p.0, p.1));
    let mut parts: Vec<String> = Vec::new();
    let mut i: usize = 0;
    while i < verses.len()
        invariant
            i <= verses.len(),
            vs == verses@.map_values(|p: (u16, &str)| pair_view(p)),
            want == vs.map_values(|p: (u16, Seq<char>)| numbered_line(p.0, p.1)),
            parts@.map_values(|s: String| s@) == want.take(i as int),
        decreases verses.len() - i,
    {
        let (n, t) = verses[i];
        let line = numbered_line_string(n, t);
        let ghost old_parts = parts@;
        parts.push(line);
        assert(parts@.map_values(|s: String| s@) =~= old_parts.map_values(|s: String| s@).push(
            want[i as int],
        ));
        assert(want.take((i + 1) as int) =~= want.take(i as int).push(want[i as int]));
        i = i + 1;
    }
    assert(want.take(verses.len() as int) =~= want);
    join_strings(parts.as_slice(), "\n")
}

/// The passage text numbered by verse (one line per verse), always from the
/// local store.
pub fn numbered_passage(passage: &Passage) -> (r: String)
    ensures
        r@ == numbered_text(passage_pairs(*passage)),
{
    let ghost vs = passage_pairs(*passage);
    let ghost want = vs.map_values(|p: (u16, Seq<char>)| numbered_line(p.0, p.1));
    let mut parts: Vec<String> = Vec::new();
    let mut i: usize = 0;
    while i < passage.verses.len()
        invariant
            i <= passage.verses.len(),
            vs == passage_pairs(*passage),
            want == vs.map_values(|p: (u16, Seq<char>)| numbered_line(p.0, p.1)),
            parts@.map_values(|s: String| s@) == want.take(i as int),
        decreases passage.verses.len() - i,
    {
        let v = &passage.verses[i];
        let n: u16 = match v.reference.verses.start() {
            Some(k) => k,
            None => 0,
        };
        let line = numbered_line_string(n, v.text.as_str());
        let ghost old_parts = parts@;
        parts.push(line);
        assert(parts@.map_values(|s: String| s@) =~= old_parts.map_values(|s: String| s@).push(
            want[i as int],
        ));
        assert(want.take((i + 1) as int) =~= want.take(i as int).push(want[i as int]));
        i = i + 1;
    }
    assert(want.take(passage.verses.len() as int) =~= want);
    join_strings(parts.as_slice(), "\n")
}

/// `"; "`-joined list, or `"(nenhuma)"` when empty (an explicit mark that
/// nothing was supplied).
pub open spec fn list_or_none(items: Seq<Seq<char>>) -> Seq<char> {
    if items.len() == 0 {
        "(nenhuma)"@
    } else {
        join(items, "; "@)
    }
}

pub open spec fn ask_context_text(label: Seq<char>, numbered: Seq<char>, related: Seq<Seq<char>>) -> Seq<char> {
    label + ":\n"@ + numbered + "\n\nReferências relacionadas: "@ + list_or_none(related)
}

fn list_or_none_string(items: &[String]) -> (r: String)
    ensures
        r@ == list_or_none(items@.map_values(|s: String| s@)),
{
    if items.len() == 0 {
        let mut s = String::new();
        s.append("(nenhuma)");
        s
    } else {
        join_strings(items, "; ")
    }
}

/// The retrieval context block of an anchored question: the reference label,
/// the numbered verses and the related references.
pub fn ask_context(label: &str, numbered_passage: &str, related: &[String]) -> (r: String)
    ensures
        r@ == ask_context_text(label@, numbered_passage@, related@.map_values(|s: String| s@)),
{
    let mut s = String::new();
    s.append(label);
    s.append(":\n");
    s.append(numbered_passage);
    s.append("\n\nReferências relacionadas: ");
    let l = list_or_none_string(related);
    s.append(l.as_str());
    s
}

// ---------------------------------------------------------------------------
// Sections of a structured interpretation.
// ---------------------------------------------------------------------------
/// One section of the interpretation (`## ` heading and its body).
#[derive(Debug, Clone, PartialEq, Eq)]
pub struct StudySection {
    /// Heading, without the `## `.
    pub heading: String,
    /// Text between this heading and the next one.
    pub body: String,
}

pub open spec fn section_view(s: StudySection) -> (Seq<char>, Seq<char>) {
    (s.heading@, s.body@)
}

pub open spec fn sections_view(ss: Seq<StudySection>) -> Seq<(Seq<char>, Seq<char>)> {
    ss.map_values(|s: StudySection| section_view(s))
}

/// A line that opens a section.
pub open spec fn is_heading_line(line: Seq<char>) -> bool {
    starts_with(line, "## "@)
}

/// Closes the open section, if any, with its body right-trimmed.
pub open spec fn close_section(
    done: Seq<(Seq<char>, Seq<char>)>,
    open: Option<(Seq<char>, Seq<char>)>,
) -> Seq<(Seq<char>, Seq<char>)> {
    match open {
        Some(c) => done.push((c.0, trim_end(c.1))),
        None => done,
    }
}

/// Reading one more line: a heading closes the open section and opens a new
/// one; other lines go to the open section's body (blank lines right after a
/// heading are skipped); lines before the first heading are dropped.
pub open spec fn section_step(
    st: (Seq<(Seq<char>, Seq<char>)>, Option<(Seq<char>, Seq<char>)>),
    line: Seq<char>,
) -> (Seq<(Seq<char>, Seq<char>)>, Option<(Seq<char>, Seq<char>)>) {
    if is_heading_line(line) {
        (close_section(st.0, st.1), Some((trim(line.skip(3)), seq![])))
    } else {
        match st.1 {
            Some(c) => if c.1.len() > 0 || !blank(line) {
                (st.0, Some((c.0, c.1 + line + "\n"@)))
            } else {
                st
            },
            None => st,
        }
    }
}

pub open spec fn sections_after(ls: Seq<Seq<char>>) -> (
    Seq<(Seq<char>, Seq<char>)>,
    Option<(Seq<char>, Seq<char>)>,
)
    decreases ls.len(),
{
    if ls.len() == 0 {
        (seq![], None)
    } else {
        section_step(sections_after(ls.drop_last()), ls.last())
    }
}

/// The sections of `raw`, by `## ` heading.
pub open spec fn sections_of(raw: Seq<char>) -> Seq<(Seq<char>, Seq<char>)> {
    let st = sections_after(lines(raw));
    close_section(st.0, st.1)
}

/// Number of heading lines.
pub open spec fn heading_count(ls: Seq<Seq<char>>) -> nat
    decreases ls.len(),
{
    if ls.len() == 0 {
        0
    } else {
        heading_count(ls.drop_last()) + if is_heading_line(ls.last()) {
            1nat
        } else {
            0nat
        }
    }
}

/// Each heading starts exactly one section: the finished sections and the
/// one still open are as many as the headings.
pub proof fn lemma_sections_count(ls: Seq<Seq<char>>)
    ensures
        sections_after(ls).0.len() + (if sections_after(ls).1 is Some {
            1int
        } else {
            0int
        }) == heading_count(ls),
    decreases ls.len(),
{
    if ls.len() > 0 {
        lemma_sections_count(ls.drop_last());
    }
}

/// Appends `line` and a line break.
fn append_line(body: &mut Vec<char>, line: &[char])
    ensures
        final(body)@ == old(body)@ + line@ + "\n"@,
{
    let mut i: usize = 0;
    let ghost b0 = body@;
    while i < line.len()
        invariant
            i <= line.len(),
            body@ == b0 + line@.take(i as int),
        decreases line.len() - i,
    {
        body.push(line[i]);
        assert(line@.take((i + 1) as int) =~= line@.take(i as int).push(line@[i as int]));
        i = i + 1;
    }
    assert(line@.take(line.len() as int) =~= line@);
    body.push('\n');
    proof {
        reveal_strlit("\n");
    }
    assert(body@ =~= b0 + line@ + "\n"@);
}

struct SectionState {
    done: Vec<StudySection>,
    open: bool,
    heading: Vec<char>,
    body: Vec<char>,
}

impl SectionState {
    spec fn view_state(&self) -> (Seq<(Seq<char>, Seq<char>)>, Option<(Seq<char>, Seq<char>)>) {
        (
            sections_view(self.done@),
            if self.open {
                Some((self.heading@, self.body@))
            } else {
                None
            },
        )
    }

    fn close(&mut self)
        ensures
            sections_view(final(self).done@) == close_section(
                old(self).view_state().0,
                old(self).view_state().1,
            ),
    {
        if self.open {
            let b = trim_end_chars(self.body.as_slice());
            let sec = StudySection {
                heading: string_of(self.heading.as_slice()),
                body: string_of(b.as_slice()),
            };
            let ghost old_done = self.done@;
            self.done.push(sec);
            assert(sections_view(self.done@) =~= sections_view(old_done).push(section_view(sec)));
        }
    }

    fn step(&mut self, line: &[char])
        ensures
            final(self).view_state() == section_step(old(self).view_state(), line@),
    {
        let ghost line_v = line@;
        proof {
            reveal_strlit("## ");
        }
        if starts_with_lit(line, "## ") {
            self.close();
            let rest = slice_chars(line, 3, line.len());
            assert(rest@ == line_v.skip(3));
            self.heading = trim_chars(rest.as_slice());
            self.body = Vec::new();
            self.open = true;
            assert(self.body@ =~= Seq::<char>::empty());
        } else if self.open {
            if self.body.len() > 0 || !is_blank(line) {
                append_line(&mut self.body, line);
            }
        }
    }
}

/// Splits the model's text into sections by `## ` heading. Lines before the
/// first heading are dropped; bodies are right-trimmed. Empty when there is
/// no heading at all (the signal for the plain rendering).
pub fn split_sections(raw: &str) -> (r: Vec<StudySection>)
    ensures
        sections_view(r@) == sections_of(raw@),
        r@.len() == heading_count(lines(raw@)),
{
    let v = chars_of(raw);
    let ls = lines_of(v.as_slice());
    let ghost lsv = ls@.map_values(|w: Vec<char>| w@);
    let mut st = SectionState { done: Vec::new(), open: false, heading: Vec::new(), body: Vec::new() };
    let mut i: usize = 0;
    assert(sections_view(st.done@) =~= seq![]);
    while i < ls.len()
        invariant
            i <= ls.len(),
            lsv == ls@.map_values(|w: Vec<char>| w@),
            lsv == lines(raw@),
            st.view_state() == sections_after(lsv.take(i as int)),
        decreases ls.len() - i,
    {
        st.step(ls[i].as_slice());
        assert(lsv.take((i + 1) as int).drop_last() =~= lsv.take(i as int));
        assert(lsv.take((i + 1) as int).last() == ls@[i as int]@);
        i = i + 1;
    }
    assert(lsv.take(ls.len() as int) =~= lsv);
    st.close();
    proof {
        lemma_sections_count(lsv);
    }
    assert(sections_view(st.done@).len() == st.done@.len());
    st.done
}

// ---------------------------------------------------------------------------
// Free questions anchored on a context.
// ---------------------------------------------------------------------------
pub open spec fn ask_user_text(question: Seq<char>, context: Seq<char>) -> Seq<char> {
    "Pergunta: "@ + question
        + "\n\nCONTEXTO (referências fornecidas — ancore a resposta nelas):\n"@ + context
        + "\n\nResponda citando os versículos pertinentes; se o contexto não bastar, diga isso."@
}

/// The user message of a question anchored on a context.
pub fn ask_user_prompt(question: &str, context: &str) -> (r: String)
    ensures
        r@ == ask_user_text(question@, context@),
{
    let mut s = String::new();
    s.append("Pergunta: ");
    s.append(question);
    s.append("\n\nCONTEXTO (referências fornecidas — ancore a resposta nelas):\n");
    s.append(context);
    s.append("\n\nResponda citando os versículos pertinentes; se o contexto não bastar, diga isso.");
    s
}

/// A free question anchored on a context of references: the question system
/// prompt and one user message go to the provider, whose reply is returned.
pub fn ask<P: LlmProvider>(provider: &P, question: &str, context: &str, lang: Lang) -> (r: Result<
    String,
    AiError,
>)
    ensures
        provider.may_answer(
            ask_system_text(lang),
            seq![(ChatRole::User, ask_user_text(question@, context@))],
            answer_view(r),
        ),
{
    let system = ask_system_prompt(lang);
    let user = ask_user_prompt(question, context);
    provider.complete(system.as_str(), user.as_str())
}

/// Index of the first user turn (`ms.len()` when there is none).
pub open spec fn first_user_turn(ms: Seq<(ChatRole, Seq<char>)>) -> int
    decreases ms.len(),
{
    if ms.len() == 0 {
        0
    } else if ms[0].0 == ChatRole::User {
        0
    } else {
        1 + first_user_turn(ms.drop_first())
    }
}

/// The first user turn is the first message with the role `User`, or the
/// end of the conversation when there is none.
pub proof fn lemma_first_user_turn(ms: Seq<(ChatRole, Seq<char>)>)
    ensures
        0 <= first_user_turn(ms) <= ms.len(),
        first_user_turn(ms) < ms.len() ==> ms[first_user_turn(ms)].0 == ChatRole::User,
        forall|j: int| 0 <= j < first_user_turn(ms) ==> ms[j].0 != ChatRole::User,
    decreases ms.len(),
{
    if ms.len() > 0 && ms[0].0 != ChatRole::User {
        lemma_first_user_turn(ms.drop_first());
        assert forall|j: int| 0 <= j < first_user_turn(ms) implies ms[j].0 != ChatRole::User by {
            if j > 0 {
                assert(ms[j] == ms.drop_first()[j - 1]);
            }
        }
    }
}

/// The conversation as sent: the context wraps only the first user turn;
/// every other turn is unchanged.
pub open spec fn wrapped_turns(ms: Seq<(ChatRole, Seq<char>)>, context: Seq<char>) -> Seq<
    (ChatRole, Seq<char>),
> {
    Seq::new(
        ms.len(),
        |i: int|
            if i == first_user_turn(ms) {
                (ChatRole::User, ask_user_text(ms[i].1, context))
            } else {
                ms[i]
            },
    )
}

pub open spec fn session_system_text(lang: Lang, study: Option<(StudyMode, Denomination)>) -> Seq<
    char,
> {
    match study {
        Some((mode, lens)) => followup_system_text(mode, lens, lang),
        None => ask_system_text(lang),
    }
}

/// A multi-turn conversation anchored on a context. `turns` is the whole
/// history ending in the latest question; the context is embedded only in
/// the first user message. A study follow-up uses a system prompt aware of
/// the study's mode and lens.
pub fn ask_session<P: LlmProvider>(
    provider: &P,
    lang: Lang,
    context: &str,
    turns: &[ChatMessage],
    study: Option<(StudyMode, Denomination)>,
) -> (r: Result<String, AiError>)
    ensures
        provider.may_answer(
            session_system_text(lang, study),
            wrapped_turns(messages_view(turns@), context@),
            answer_view(r),
        ),
{
    let system = match study {
        Some((mode, lens)) => study_followup_system_prompt(mode, lens, lang),
        None => ask_system_prompt(lang),
    };
    let ghost ms = messages_view(turns@);
    proof {
        lemma_first_user_turn(ms);
    }
    let mut messages: Vec<ChatMessage> = Vec::new();
    let mut wrapped_first = false;
    let mut i: usize = 0;
    while i < turns.len()
        invariant
            i <= turns.len(),
            ms == messages_view(turns@),
            0 <= first_user_turn(ms) <= ms.len(),
            first_user_turn(ms) < ms.len() ==> ms[first_user_turn(ms)].0 == ChatRole::User,
            forall|j: int| 0 <= j < first_user_turn(ms) ==> ms[j].0 != ChatRole::User,
            wrapped_first == (first_user_turn(ms) < i),
            messages_view(messages@) == wrapped_turns(ms, context@).take(i as int),
        decreases turns.len() - i,
    {
        let m = &turns[i];
        let ghost old_msgs = messages@;
        let next = if m.role == ChatRole::User && !wrapped_first {
            wrapped_first = true;
            ChatMessage { role: ChatRole::User, content: ask_user_prompt(m.content.as_str(), context) }
        } else {
            ChatMessage { role: m.role, content: crate::text::copy_str(m.content.as_str()) }
        };
        assert(ms[i as int] == (m.role, m.content@));
        messages.push(next);
        assert(messages_view(messages@) =~= messages_view(old_msgs).push(
            wrapped_turns(ms, context@)[i as int],
        ));
        assert(wrapped_turns(ms, context@).take((i + 1) as int) =~= wrapped_turns(ms, context@).take(
            i as int,
        ).push(wrapped_turns(ms, context@)[i as int]));
        i = i + 1;
    }
    assert(wrapped_turns(ms, context@).take(turns.len() as int) =~= wrapped_turns(ms, context@));
    provider.chat(system.as_str(), messages.as_slice())
}

// ---------------------------------------------------------------------------
// The result of a study and its Markdown renderings.
// ---------------------------------------------------------------------------
/// A finished study: the quoted text (from the local store) kept apart from
/// the interpretation (from the model).
pub struct StudyResult {
    /// Studied reference.
    pub reference: Reference,
    /// Formatted reference.
    pub reference_label: String,
    /// Mode used.
    pub mode: StudyMode,
    /// Lens used.
    pub lens: Denomination,
    /// Depth.
    pub depth: StudyDepth,
    /// Language.
    pub language: Lang,
    /// Quoted text (numbered), from the local store.
    pub passage_text: String,
    /// The model's interpretation, whole.
    pub interpretation: String,
    /// The interpretation cut by `## ` section (empty when the model used no
    /// heading: the plain rendering is used then).
    pub sections: Vec<StudySection>,
    /// Verification warnings (empty when nothing was flagged).
    pub warnings: Vec<String>,
    /// Verifiable citations for the academic apparatus, built from the store,
    /// never by the model.
    pub citations: Vec<Citation>,
    /// Provider used.
    pub provider: String,
    /// Model used.
    pub model: String,
}

/// `"- {x}\n"` for every item, in order.
pub open spec fn dash_lines(xs: Seq<Seq<char>>) -> Seq<char>
    decreases xs.len(),
{
    if xs.len() == 0 {
        seq![]
    } else {
        dash_lines(xs.drop_last()) + "- "@ + xs.last() + "\n"@
    }
}

/// The warnings block (empty when there is no warning).
pub open spec fn warnings_text(ws: Seq<Seq<char>>) -> Seq<char> {
    if ws.len() == 0 {
        seq![]
    } else {
        "\n## Avisos de verificação\n\n"@ + dash_lines(ws)
    }
}

/// The quoted-text block (absent in a topical study, which has no passage).
pub open spec fn quoted_block(p: Seq<char>) -> Seq<char> {
    if p.len() == 0 {
        seq![]
    } else {
        "## Texto citado\n\n"@ + p + "\n\n"@
    }
}

pub open spec fn sections_markdown(ss: Seq<(Seq<char>, Seq<char>)>) -> Seq<char>
    decreases ss.len(),
{
    if ss.len() == 0 {
        seq![]
    } else {
        sections_markdown(ss.drop_last()) + "## "@ + ss.last().0 + "\n\n"@ + ss.last().1 + "\n\n"@
    }
}

pub open spec fn meta_lines(lens: Denomination, depth: StudyDepth, provider: Seq<char>, model: Seq<char>) -> Seq<char> {
    "- Lente: "@ + lens_name_pt(lens) + "\n- Profundidade: "@ + depth_name_pt(depth) + "\n- Gerado por: "@
        + provider + "/"@ + model + "\n\n"@
}

/// Citation kinds that become footnotes.
pub open spec fn note_kind(k: CitationKind) -> bool {
    k == CitationKind::Lexicon || k == CitationKind::Web
}

/// Keys of the citations that may be anchored in the text.
pub open spec fn note_keys(cs: Seq<CiteView>) -> Seq<Seq<char>>
    decreases cs.len(),
{
    if cs.len() == 0 {
        seq![]
    } else if note_kind(cs.last().kind) {
        note_keys(cs.drop_last()).push(cs.last().key)
    } else {
        note_keys(cs.drop_last())
    }
}

pub open spec fn analysis_sections(ss: Seq<(Seq<char>, Seq<char>)>, valid: Set<Seq<char>>) -> Seq<char>
    decreases ss.len(),
{
    if ss.len() == 0 {
        seq![]
    } else {
        analysis_sections(ss.drop_last(), valid) + "## "@ + ss.last().0 + "\n\n"@ + rewrite_all_spec(
            ss.last().1,
            valid,
        ) + "\n\n"@
    }
}

/// The analysis: the sections with their anchors rewritten, or the whole
/// interpretation under one heading.
pub open spec fn analysis_text(
    interpretation: Seq<char>,
    ss: Seq<(Seq<char>, Seq<char>)>,
    valid: Set<Seq<char>>,
) -> Seq<char> {
    if ss.len() == 0 {
        "## Análise\n\n"@ + rewrite_all_spec(interpretation, valid) + "\n\n"@
    } else {
        analysis_sections(ss, valid)
    }
}

pub open spec fn local_text_block(p: Seq<char>) -> Seq<char> {
    if p.len() == 0 {
        seq![]
    } else {
        "## Texto (acervo local)\n\n"@ + p + "\n\n"@
    }
}

pub open spec fn note_mark(key: Seq<char>) -> Seq<char> {
    "[^"@ + key + "]"@
}

/// Whether a citation gets a footnote: a note kind whose marker occurs in the analysis.
pub open spec fn is_note(c: CiteView, analysis: Seq<char>) -> bool {
    note_kind(c.kind) && contains_seq(analysis, note_mark(c.key))
}

pub open spec fn note_lines(cs: Seq<CiteView>, analysis: Seq<char>) -> Seq<char>
    decreases cs.len(),
{
    if cs.len() == 0 {
        seq![]
    } else {
        note_lines(cs.drop_last(), analysis) + if is_note(cs.last(), analysis) {
            note_mark(cs.last().key) + ": "@ + footnote_text(cs.last()) + "\n\n"@
        } else {
            seq![]
        }
    }
}

pub open spec fn notes_block(cs: Seq<CiteView>, analysis: Seq<char>) -> Seq<char> {
    if note_lines(cs, analysis).len() == 0 {
        seq![]
    } else {
        "## Notas\n\n"@ + note_lines(cs, analysis)
    }
}

/// Bibliography entries of the citations that go into the bibliography.
pub open spec fn bib_entries(cs: Seq<CiteView>) -> Seq<Seq<char>>
    decreases cs.len(),
{
    if cs.len() == 0 {
        seq![]
    } else if cs.last().kind == CitationKind::Source || cs.last().kind == CitationKind::Web {
        bib_entries(cs.drop_last()).push(bibliography_text(cs.last()))
    } else {
        bib_entries(cs.drop_last())
    }
}

/// The bibliography: its entries once each, in alphabetical order.
pub open spec fn bib_block(cs: Seq<CiteView>) -> Seq<char> {
    let bs = sorted_set(bib_entries(cs).to_set());
    if bs.len() == 0 {
        seq![]
    } else {
        "## Bibliografia\n\n"@ + dash_lines(bs) + "\n"@
    }
}

fn dash_lines_string(xs: &[String]) -> (r: String)
    ensures
        r@ == dash_lines(strs(xs@)),
{
    let ghost v = strs(xs@);
    let mut s = String::new();
    let mut i: usize = 0;
    while i < xs.len()
        invariant
            i <= xs.len(),
            v == strs(xs@),
            s@ == dash_lines(v.take(i as int)),
        decreases xs.len() - i,
    {
        s.append("- ");
        s.append(xs[i].as_str());
        s.append("\n");
        assert(v.take((i + 1) as int).drop_last() =~= v.take(i as int));
        i = i + 1;
    }
    assert(v.take(xs.len() as int) =~= v);
    s
}

fn note_keys_vec(cs: &[Citation]) -> (r: Vec<String>)
    ensures
        strs(r@) == note_keys(cites_view(cs@)),
{
    let ghost cv = cites_view(cs@);
    let mut r: Vec<String> = Vec::new();
    let mut i: usize = 0;
    while i < cs.len()
        invariant
            i <= cs.len(),
            cv == cites_view(cs@),
            strs(r@) == note_keys(cv.take(i as int)),
        decreases cs.len() - i,
    {
        assert(cv.take((i + 1) as int).drop_last() =~= cv.take(i as int));
        assert(cv.take((i + 1) as int).last() == cite_view(cs@[i as int]));
        let c = &cs[i];
        if c.kind == CitationKind::Lexicon || c.kind == CitationKind::Web {
            let ghost r0 = r@;
            r.push(copy_str(c.key.as_str()));
            assert(strs(r@) =~= strs(r0).push(c.key@));
        }
        i = i + 1;
    }
    assert(cv.take(cs.len() as int) =~= cv);
    r
}

fn bib_entries_vec(cs: &[Citation]) -> (r: Vec<String>)
    ensures
        strs(r@) == bib_entries(cites_view(cs@)),
{
    let ghost cv = cites_view(cs@);
    let mut r: Vec<String> = Vec::new();
    let mut i: usize = 0;
    while i < cs.len()
        invariant
            i <= cs.len(),
            cv == cites_view(cs@),
            strs(r@) == bib_entries(cv.take(i as int)),
        decreases cs.len() - i,
    {
        assert(cv.take((i + 1) as int).drop_last() =~= cv.take(i as int));
        assert(cv.take((i + 1) as int).last() == cite_view(cs@[i as int]));
        let c = &cs[i];
        if c.kind.in_bibliography() {
            let ghost r0 = r@;
            r.push(sbl_bibliography_entry(c));
            assert(strs(r@) =~= strs(r0).push(bibliography_text(cite_view(*c))));
        }
        i = i + 1;
    }
    assert(cv.take(cs.len() as int) =~= cv);
    r
}

fn note_lines_string(cs: &[Citation], analysis: &str, lang: Lang) -> (r: String)
    ensures
        r@ == note_lines(cites_view(cs@), analysis@),
{
    let ghost cv = cites_view(cs@);
    let av = chars_of(analysis);
    let mut s = String::new();
    let mut i: usize = 0;
    while i < cs.len()
        invariant
            i <= cs.len(),
            cv == cites_view(cs@),
            av@ == analysis@,
            s@ == note_lines(cv.take(i as int), analysis@),
        decreases cs.len() - i,
    {
        assert(cv.take((i + 1) as int).drop_last() =~= cv.take(i as int));
        assert(cv.take((i + 1) as int).last() == cite_view(cs@[i as int]));
        let c = &cs[i];
        if c.kind == CitationKind::Lexicon || c.kind == CitationKind::Web {
            let mut mark = String::new();
            mark.append("[^");
            mark.append(c.key.as_str());
            mark.append("]");
            let mv = chars_of(mark.as_str());
            if contains_chars(av.as_slice(), mv.as_slice()) {
                s.append(mark.as_str());
                s.append(": ");
                let f = sbl_footnote(c, lang);
                s.append(f.as_str());
                s.append("\n\n");
            }
        }
        i = i + 1;
    }
    assert(cv.take(cs.len() as int) =~= cv);
    s
}

fn analysis_string(interpretation: &str, sections: &[StudySection], valid: &Vec<String>) -> (r: String)
    ensures
        r@ == analysis_text(interpretation@, sections_view(sections@), key_set(valid@)),
{
    let ghost vs = key_set(valid@);
    if sections.len() == 0 {
        let mut a = String::new();
        a.append("## Análise\n\n");
        let t = rewrite_all_anchors(interpretation, valid);
        a.append(t.as_str());
        a.append("\n\n");
        return a;
    }
    let ghost sv = sections_view(sections@);
    let mut a = String::new();
    let mut i: usize = 0;
    while i < sections.len()
        invariant
            i <= sections.len(),
            sv == sections_view(sections@),
            vs == key_set(valid@),
            a@ == analysis_sections(sv.take(i as int), vs),
        decreases sections.len() - i,
    {
        assert(sv.take((i + 1) as int).drop_last() =~= sv.take(i as int));
        assert(sv.take((i + 1) as int).last() == section_view(sections@[i as int]));
        let sec = &sections[i];
        a.append("## ");
        a.append(sec.heading.as_str());
        a.append("\n\n");
        let t = rewrite_all_anchors(sec.body.as_str(), valid);
        a.append(t.as_str());
        a.append("\n\n");
        i = i + 1;
    }
    assert(sv.take(sections.len() as int) =~= sv);
    a
}

fn notes_block_string(cs: &[Citation], analysis: &str, lang: Lang) -> (r: String)
    ensures
        r@ == notes_block(cites_view(cs@), analysis@),
{
    let notes = note_lines_string(cs, analysis, lang);
    let nv = chars_of(notes.as_str());
    let mut out = String::new();
    if nv.len() > 0 {
        out.append("## Notas\n\n");
        out.append(notes.as_str());
    }
    out
}

fn bib_block_string(cs: &[Citation]) -> (r: String)
    ensures
        r@ == bib_block(cites_view(cs@)),
{
    let bib = sorted_unique(bib_entries_vec(cs));
    let mut out = String::new();
    if bib.len() > 0 {
        out.append("## Bibliografia\n\n");
        let l = dash_lines_string(bib.as_slice());
        out.append(l.as_str());
        out.append("\n");
    }
    out
}

impl StudyResult {
    pub open spec fn warnings_view(&self) -> Seq<Seq<char>> {
        strs(self.warnings@)
    }

    /// The Markdown rendering: quoted text, interpretation and the notice.
    pub open spec fn markdown(&self) -> Seq<char> {
        if self.sections@.len() == 0 {
            "# Estudo — "@ + self.reference_label@ + "\n\n"@ + meta_lines(
                self.lens,
                self.depth,
                self.provider@,
                self.model@,
            ) + quoted_block(self.passage_text@) + "## Interpretação ("@ + lens_name_pt(self.lens)
                + ")\n\n"@ + self.interpretation@
                + "\n\n---\n_Texto bíblico do acervo local; a interpretação é gerada por IA sob a lente "@
                + lens_name_pt(self.lens) + " e pode conter erros — confira sempre as Escrituras._\n"@
                + warnings_text(self.warnings_view())
        } else {
            "# Estudo — "@ + self.reference_label@ + "\n\n- Modo: "@ + mode_name_pt(self.mode)
                + "\n"@ + meta_lines(self.lens, self.depth, self.provider@, self.model@)
                + quoted_block(self.passage_text@) + sections_markdown(
                sections_view(self.sections@),
            ) + "---\n_Texto bíblico do acervo local; a interpretação é gerada por IA sob a lente "@
                + lens_name_pt(self.lens) + " (modo "@ + mode_name_pt(self.mode)
                + ") e pode conter erros — confira sempre as Escrituras._\n"@ + warnings_text(
                self.warnings_view(),
            )
        }
    }

    /// The academic rendering.
    pub open spec fn academic(&self, lang: Lang) -> Seq<char> {
        let cs = cites_view(self.citations@);
        let analysis = analysis_text(
            self.interpretation@,
            sections_view(self.sections@),
            note_keys(cs).to_set(),
        );
        "---\ntitle: \"Estudo Exegético — "@ + self.reference_label@ + "\"\nauthor: \"The Light — "@
            + self.provider@ + "/"@ + self.model@ + "\"\nlang: \""@ + lang_code(lang)
            + "\"\n---\n\n"@ + local_text_block(self.passage_text@) + analysis + notes_block(
            cs,
            analysis,
        ) + bib_block(cs) + footer_text(cs, self.provider@, self.model@) + warnings_text(
            self.warnings_view(),
        )
    }

    fn warnings_block(&self) -> (r: String)
        ensures
            r@ == warnings_text(self.warnings_view()),
    {
        if self.warnings.len() == 0 {
            return String::new();
        }
        let mut s = String::new();
        s.append("\n## Avisos de verificação\n\n");
        let l = dash_lines_string(self.warnings.as_slice());
        s.append(l.as_str());
        s
    }

    fn meta_string(&self) -> (r: String)
        ensures
            r@ == meta_lines(self.lens, self.depth, self.provider@, self.model@),
    {
        let mut s = String::new();
        s.append("- Lente: ");
        s.append(self.lens.name_pt());
        s.append("\n- Profundidade: ");
        s.append(self.depth.name_pt());
        s.append("\n- Gerado por: ");
        s.append(self.provider.as_str());
        s.append("/");
        s.append(self.model.as_str());
        s.append("\n\n");
        s
    }

    fn quoted_string(&self) -> (r: String)
        ensures
            r@ == quoted_block(self.passage_text@),
    {
        let p = chars_of(self.passage_text.as_str());
        if p.len() == 0 {
            return String::new();
        }
        let mut s = String::new();
        s.append("## Texto citado\n\n");
        s.append(self.passage_text.as_str());
        s.append("\n\n");
        s
    }

    fn sections_string(&self) -> (r: String)
        ensures
            r@ == sections_markdown(sections_view(self.sections@)),
    {
        let ghost sv = sections_view(self.sections@);
        let mut a = String::new();
        let mut i: usize = 0;
        while i < self.sections.len()
            invariant
                i <= self.sections.len(),
                sv == sections_view(self.sections@),
                a@ == sections_markdown(sv.take(i as int)),
            decreases self.sections.len() - i,
        {
            assert(sv.take((i + 1) as int).drop_last() =~= sv.take(i as int));
            assert(sv.take((i + 1) as int).last() == section_view(self.sections@[i as int]));
            let sec = &self.sections[i];
            a.append("## ");
            a.append(sec.heading.as_str());
            a.append("\n\n");
            a.append(sec.body.as_str());
            a.append("\n\n");
            i = i + 1;
        }
        assert(sv.take(self.sections.len() as int) =~= sv);
        a
    }

    /// Renders the study in Markdown (quoted text + interpretation + notice).
    /// With no section, the plain layout; with sections, the mode's structure
    /// and a `- Modo:` line.
    pub fn to_markdown(&self) -> (r: String)
        ensures
            r@ == self.markdown(),
    {
        let mut out = String::new();
        out.append("# Estudo — ");
        out.append(self.reference_label.as_str());
        if self.sections.len() == 0 {
            out.append("\n\n");
            let m = self.meta_string();
            out.append(m.as_str());
            let q = self.quoted_string();
            out.append(q.as_str());
            out.append("## Interpretação (");
            out.append(self.lens.name_pt());
            out.append(")\n\n");
            out.append(self.interpretation.as_str());
            out.append("\n\n---\n_Texto bíblico do acervo local; a interpretação é gerada por IA sob a lente ");
            out.append(self.lens.name_pt());
            out.append(" e pode conter erros — confira sempre as Escrituras._\n");
        } else {
            out.append("\n\n- Modo: ");
            out.append(self.mode.name_pt());
            out.append("\n");
            let m = self.meta_string();
            out.append(m.as_str());
            let q = self.quoted_string();
            out.append(q.as_str());
            let b = self.sections_string();
            out.append(b.as_str());
            out.append("---\n_Texto bíblico do acervo local; a interpretação é gerada por IA sob a lente ");
            out.append(self.lens.name_pt());
            out.append(" (modo ");
            out.append(self.mode.name_pt());
            out.append(") e pode conter erros — confira sempre as Escrituras._\n");
        }
        let w = self.warnings_block();
        out.append(w.as_str());
        out
    }

    /// Renders the study as an academic paper: metadata (YAML for pandoc),
    /// quoted text, analysis with SBL footnotes, bibliography and the
    /// provenance footer. The notes are placed deterministically from the
    /// verifiable citations: anchors are validated and turned into `[^key]`
    /// markers, invalid ones dropped.
    pub fn to_academic_markdown(&self, lang: Lang) -> (r: String)
        ensures
            r@ == self.academic(lang),
    {
        let ghost cs = cites_view(self.citations@);
        let valid = note_keys_vec(self.citations.as_slice());
        assert(valid@.map_values(|k: String| k@) =~= strs(valid@));
        let analysis = analysis_string(self.interpretation.as_str(), self.sections.as_slice(), &valid);
        let mut out = self.academic_head(lang);
        let l = self.local_text_string();
        out.append(l.as_str());
        out.append(analysis.as_str());
        let n = notes_block_string(self.citations.as_slice(), analysis.as_str(), lang);
        out.append(n.as_str());
        let b = bib_block_string(self.citations.as_slice());
        out.append(b.as_str());
        let f = provenance_footer(self.citations.as_slice(), self.provider.as_str(), self.model.as_str(), lang);
        out.append(f.as_str());
        let w = self.warnings_block();
        out.append(w.as_str());
        out
    }

    fn academic_head(&self, lang: Lang) -> (r: String)
        ensures
            r@ == "---\ntitle: \"Estudo Exegético — "@ + self.reference_label@ + "\"\nauthor: \"The Light — "@
                + self.provider@ + "/"@ + self.model@ + "\"\nlang: \""@ + lang_code(lang)
                + "\"\n---\n\n"@,
    {
        let mut out = String::new();
        out.append("---\ntitle: \"Estudo Exegético — ");
        out.append(self.reference_label.as_str());
        out.append("\"\nauthor: \"The Light — ");
        out.append(self.provider.as_str());
        out.append("/");
        out.append(self.model.as_str());
        out.append("\"\nlang: \"");
        out.append(lang.code());
        out.append("\"\n---\n\n");
        out
    }

    fn local_text_string(&self) -> (r: String)
        ensures
            r@ == local_text_block(self.passage_text@),
    {
        let p = chars_of(self.passage_text.as_str());
        let mut out = String::new();
        if p.len() > 0 {
            out.append("## Texto (acervo local)\n\n");
            out.append(self.passage_text.as_str());
            out.append("\n\n");
        }
        out
    }
}

// ---------------------------------------------------------------------------
// Refining the scope of a study.
// ---------------------------------------------------------------------------
/// One round of scope refinement: a question and multiple-choice options.
#[derive(Debug, Clone, PartialEq, Eq)]
pub struct Refinement {
    /// Refinement question proposed by the model.
    pub question: String,
    /// Suggested options (the user may also type an answer).
    pub options: Vec<String>,
}

/// Reading one more line of the model's reply: `PERGUNTA: …` sets the
/// question; `- …` / `* …` lines are options (each kept once, never empty);
/// the first other line becomes the question while none is set.
pub open spec fn refine_step(st: (Seq<char>, Seq<Seq<char>>), line: Seq<char>) -> (
    Seq<char>,
    Seq<Seq<char>>,
) {
    let t = trim(line);
    if t.len() == 0 {
        st
    } else if starts_with(t, "PERGUNTA:"@) || starts_with(t, "Pergunta:"@) {
        (trim(t.skip(9)), st.1)
    } else if starts_with(t, "- "@) || starts_with(t, "* "@) {
        let o = trim(t.skip(2));
        if o.len() > 0 && !st.1.contains(o) {
            (st.0, st.1.push(o))
        } else {
            st
        }
    } else if st.0.len() == 0 {
        (t, st.1)
    } else {
        st
    }
}

pub open spec fn refine_after(ls: Seq<Seq<char>>) -> (Seq<char>, Seq<Seq<char>>)
    decreases ls.len(),
{
    if ls.len() == 0 {
        (seq![], seq![])
    } else {
        refine_step(refine_after(ls.drop_last()), ls.last())
    }
}

/// What the tolerant parser reads from a reply: (question, options).
pub open spec fn refinement_of(raw: Seq<char>) -> (Seq<char>, Seq<Seq<char>>) {
    refine_after(lines(raw))
}

pub open spec fn refinement_view(r: Refinement) -> (Seq<char>, Seq<Seq<char>>) {
    (r.question@, strs(r.options@))
}

/// No option is empty and none occurs twice.
pub open spec fn options_clean(os: Seq<Seq<char>>) -> bool {
    &&& forall|i: int| 0 <= i < os.len() ==> (#[trigger] os[i]).len() > 0
    &&& forall|i: int, j: int| 0 <= i < j < os.len() ==> #[trigger] os[i] != #[trigger] os[j]
}

pub proof fn lemma_refine_options_clean(ls: Seq<Seq<char>>)
    ensures
        options_clean(refine_after(ls).1),
    decreases ls.len(),
{
    if ls.len() > 0 {
        lemma_refine_options_clean(ls.drop_last());
        let os = refine_after(ls.drop_last()).1;
        let n = refine_after(ls).1;
        if n != os {
            let o = n.last();
            assert(n == os.push(o));
            assert(!os.contains(o));
            assert forall|i: int, j: int| 0 <= i < j < n.len() implies #[trigger] n[i] != #[trigger] n[j] by {
                if j == n.len() - 1 {
                    assert(n[i] == os[i]);
                } else {
                    assert(n[i] == os[i] && n[j] == os[j]);
                }
            }
            assert forall|i: int| 0 <= i < n.len() implies (#[trigger] n[i]).len() > 0 by {
                if i < os.len() {
                    assert(n[i] == os[i]);
                }
            }
        }
    }
}

fn contains_option(opts: &Vec<Vec<char>>, o: &[char]) -> (r: bool)
    ensures
        r == opts@.map_values(|w: Vec<char>| w@).contains(o@),
{
    let ghost ov = opts@.map_values(|w: Vec<char>| w@);
    let mut i: usize = 0;
    while i < opts.len()
        invariant
            i <= opts.len(),
            ov == opts@.map_values(|w: Vec<char>| w@),
            forall|j: int| 0 <= j < i ==> ov[j] != o@,
        decreases opts.len() - i,
    {
        if crate::text::chars_eq(opts[i].as_slice(), o) {
            assert(ov[i as int] == o@);
            return true;
        }
        i = i + 1;
    }
    false
}

struct RefineState {
    question: Vec<char>,
    options: Vec<Vec<char>>,
}

impl RefineState {
    spec fn view_state(&self) -> (Seq<char>, Seq<Seq<char>>) {
        (self.question@, self.options@.map_values(|w: Vec<char>| w@))
    }

    fn step(&mut self, line: &[char])
        ensures
            final(self).view_state() == refine_step(old(self).view_state(), line@),
    {
        let t = trim_chars(line);
        proof {
            reveal_strlit("PERGUNTA:");
            reveal_strlit("Pergunta:");
            reveal_strlit("- ");
            reveal_strlit("* ");
        }
        if t.len() == 0 {
            return ;
        }
        if starts_with_lit(t.as_slice(), "PERGUNTA:") || starts_with_lit(t.as_slice(), "Pergunta:") {
            let rest = slice_chars(t.as_slice(), 9, t.len());
            assert(rest@ == t@.skip(9));
            self.question = trim_chars(rest.as_slice());
        } else if starts_with_lit(t.as_slice(), "- ") || starts_with_lit(t.as_slice(), "* ") {
            let rest = slice_chars(t.as_slice(), 2, t.len());
            assert(rest@ == t@.skip(2));
            let o = trim_chars(rest.as_slice());
            if o.len() > 0 && !contains_option(&self.options, o.as_slice()) {
                let ghost o0 = self.options@;
                self.options.push(o);
                assert(self.options@.map_values(|w: Vec<char>| w@) =~= o0.map_values(
                    |w: Vec<char>| w@,
                ).push(o@));
            }
        } else if self.question.len() == 0 {
            self.question = t;
        }
    }
}

/// Tolerant parser of a refinement round: `PERGUNTA: …` (or the first line
/// that is not an option) is the question; `- …` / `* …` lines are the
/// options (deduplicated, never empty).
pub fn parse_refinement(raw: &str) -> (r: Refinement)
    ensures
        refinement_view(r) == refinement_of(raw@),
        options_clean(strs(r.options@)),
{
    let v = chars_of(raw);
    let ls = lines_of(v.as_slice());
    let ghost lsv = ls@.map_values(|w: Vec<char>| w@);
    let mut st = RefineState { question: Vec::new(), options: Vec::new() };
    assert(st.view_state() =~= (Seq::<char>::empty(), Seq::<Seq<char>>::empty()));
    let mut i: usize = 0;
    while i < ls.len()
        invariant
            i <= ls.len(),
            lsv == ls@.map_values(|w: Vec<char>| w@),
            lsv == lines(raw@),
            st.view_state() == refine_after(lsv.take(i as int)),
        decreases ls.len() - i,
    {
        st.step(ls[i].as_slice());
        assert(lsv.take((i + 1) as int).drop_last() =~= lsv.take(i as int));
        assert(lsv.take((i + 1) as int).last() == ls@[i as int]@);
        i = i + 1;
    }
    assert(lsv.take(ls.len() as int) =~= lsv);
    proof {
        lemma_refine_options_clean(lsv);
    }
    let options = crate::text::strings_of(&st.options);
    Refinement { question: string_of(st.question.as_slice()), options }
}

pub open spec fn last_round_note(round: u8) -> Seq<char> {
    if round >= 3 {
        " Esta é a ÚLTIMA rodada: faça as opções convergirem para uma PASSAGEM concreta (ex.: \"Efésios 2.8-9\") ou \"estudo temático\"."@
    } else {
        ""@
    }
}

pub open spec fn write_in(lang: Lang) -> Seq<char> {
    match lang {
        Lang::Pt => "Escreva em português."@,
        Lang::En => "Write in English."@,
    }
}

/// System prompt of a refinement round.
pub open spec fn refine_system_text(mode: StudyMode, lang: Lang, round: u8) -> Seq<char> {
    "Você ajuda a delimitar o ESCOPO de um estudo bíblico ("@ + mode_name_pt(mode)
        + "). Proponha UMA pergunta curta para refinar o escopo e de 3 a 4 opções de resposta."@
        + last_round_note(round)
        + " Responda EXATAMENTE neste formato, sem nada além disso:\nPERGUNTA: <pergunta>\n- <opção 1>\n- <opção 2>\n- <opção 3>\n"@
        + write_in(lang)
}

pub open spec fn qa_line(p: (Seq<char>, Seq<char>)) -> Seq<char> {
    "- "@ + p.0 + " → "@ + p.1
}

pub open spec fn qa_view(p: (String, String)) -> (Seq<char>, Seq<char>) {
    (p.0@, p.1@)
}

/// The answers given so far, one per line (or `"(nenhuma)"`).
pub open spec fn history_text(prior: Seq<(Seq<char>, Seq<char>)>) -> Seq<char> {
    if prior.len() == 0 {
        "(nenhuma)"@
    } else {
        join(prior.map_values(|p: (Seq<char>, Seq<char>)| qa_line(p)), "\n"@)
    }
}

/// User message of a refinement round.
pub open spec fn refine_user_text(brief: Seq<char>, prior: Seq<(Seq<char>, Seq<char>)>, round: u8) -> Seq<char> {
    "ASSUNTO DO ESTUDO: "@ + brief + "\n\nRESPOSTAS ANTERIORES:\n"@ + history_text(prior)
        + "\n\nProponha a próxima pergunta de refinamento (rodada "@ + decimal(round as nat)
        + " de 3)."@
}

fn refine_system_prompt(mode: StudyMode, lang: Lang, round: u8) -> (r: String)
    ensures
        r@ == refine_system_text(mode, lang, round),
{
    let mut s = String::new();
    s.append("Você ajuda a delimitar o ESCOPO de um estudo bíblico (");
    s.append(mode.name_pt());
    s.append("). Proponha UMA pergunta curta para refinar o escopo e de 3 a 4 opções de resposta.");
    proof {
        reveal_strlit("");
    }
    assert(s@ + ""@ =~= s@);
    if round >= 3 {
        s.append(" Esta é a ÚLTIMA rodada: faça as opções convergirem para uma PASSAGEM concreta (ex.: \"Efésios 2.8-9\") ou \"estudo temático\".");
    }
    s.append(" Responda EXATAMENTE neste formato, sem nada além disso:\nPERGUNTA: <pergunta>\n- <opção 1>\n- <opção 2>\n- <opção 3>\n");
    match lang {
        Lang::Pt => s.append("Escreva em português."),
        Lang::En => s.append("Write in English."),
    }
    s
}

fn refine_user_prompt(brief: &str, prior: &[(String, String)], round: u8) -> (r: String)
    ensures
        r@ == refine_user_text(brief@, prior@.map_values(|p: (String, String)| qa_view(p)), round),
{
    let ghost pv = prior@.map_values(|p: (String, String)| qa_view(p));
    let ghost want = pv.map_values(|p: (Seq<char>, Seq<char>)| qa_line(p));
    let mut lines: Vec<String> = Vec::new();
    let mut i: usize = 0;
    while i < prior.len()
        invariant
            i <= prior.len(),
            pv == prior@.map_values(|p: (String, String)| qa_view(p)),
            want == pv.map_values(|p: (Seq<char>, Seq<char>)| qa_line(p)),
            strs(lines@) == want.take(i as int),
        decreases prior.len() - i,
    {
        let mut l = String::new();
        l.append("- ");
        l.append(prior[i].0.as_str());
        l.append(" → ");
        l.append(prior[i].1.as_str());
        let ghost l0 = lines@;
        lines.push(l);
        assert(strs(lines@) =~= strs(l0).push(want[i as int]));
        assert(want.take((i + 1) as int) =~= want.take(i as int).push(want[i as int]));
        i = i + 1;
    }
    assert(want.take(prior.len() as int) =~= want);
    let mut s = String::new();
    s.append("ASSUNTO DO ESTUDO: ");
    s.append(brief);
    s.append("\n\nRESPOSTAS ANTERIORES:\n");
    if prior.len() == 0 {
        s.append("(nenhuma)");
    } else {
        let h = join_strings(lines.as_slice(), "\n");
        s.append(h.as_str());
    }
    s.append("\n\nProponha a próxima pergunta de refinamento (rodada ");
    push_decimal(&mut s, round as u64);
    s.append(" de 3).");
    s
}

/// Asks the model for ONE round of scope refinement (a question and options)
/// given the subject and the answers so far. The reply is read by
/// [`parse_refinement`].
pub fn refine_scope<P: LlmProvider>(
    provider: &P,
    mode: StudyMode,
    lang: Lang,
    brief: &str,
    prior: &[(String, String)],
    round: u8,
) -> (r: Result<Refinement, AiError>)
    ensures
        ({
            let sys = refine_system_text(mode, lang, round);
            let msgs = seq![
                (
                    ChatRole::User,
                    refine_user_text(brief@, prior@.map_values(|p: (String, String)| qa_view(p)), round),
                ),
            ];
            match r {
                Ok(rf) => exists|raw: Seq<char>|
                    provider.may_answer(sys, msgs, Ok(raw)) && refinement_view(rf)
                        == refinement_of(raw),
                Err(e) => provider.may_answer(sys, msgs, Err(e)),
            }
        }),
{
    let system = refine_system_prompt(mode, lang, round);
    let user = refine_user_prompt(brief, prior, round);
    match provider.complete(system.as_str(), user.as_str()) {
        Ok(raw) => {
            let rf = parse_refinement(raw.as_str());
            Ok(rf)
        },
        Err(e) => Err(e),
    }
}

/// A `PERGUNTA:` (or `Pergunta:`) line of a reply, once trimmed.
pub open spec fn question_line(l: Seq<char>) -> bool {
    starts_with(trim(l), "PERGUNTA:"@) || starts_with(trim(l), "Pergunta:"@)
}

/// The question a `PERGUNTA:` line asks.
pub open spec fn asked(l: Seq<char>) -> Seq<char> {
    trim(trim(l).skip(9))
}

/// The question of a reply is the one its last `PERGUNTA:` line asks (when
/// that is not empty), whatever lines came before it, and the lines after it
/// do not change it.
pub proof fn lemma_last_question_wins(pre: Seq<Seq<char>>, q: Seq<char>, post: Seq<Seq<char>>)
    requires
        question_line(q),
        asked(q).len() > 0,
        forall|i: int| 0 <= i < post.len() ==> !question_line(#[trigger] post[i]),
    ensures
        refine_after(pre.push(q) + post).0 == asked(q),
    decreases post.len(),
{
    reveal_strlit("PERGUNTA:");
    reveal_strlit("Pergunta:");
    let ls = pre.push(q) + post;
    if post.len() == 0 {
        assert(ls =~= pre.push(q));
        assert(ls.drop_last() =~= pre);
        assert(trim(q).len() > 0) by {
            assert(trim(q).len() >= 9);
        }
    } else {
        let init = post.drop_last();
        assert forall|i: int| 0 <= i < init.len() implies !question_line(#[trigger] init[i]) by {
            assert(init[i] == post[i]);
        }
        lemma_last_question_wins(pre, q, init);
        assert(ls.drop_last() =~= pre.push(q) + init);
        assert(ls.last() == post[post.len() - 1]);
    }
}

/// How many lines open `ls` blank.
pub open spec fn leading_blank(ls: Seq<Seq<char>>) -> nat
    decreases ls.len(),
{
    if ls.len() == 0 || !blank(ls[0]) {
        0
    } else {
        1 + leading_blank(ls.drop_first())
    }
}

/// The lines, each followed by a line break.
pub open spec fn unlines(ls: Seq<Seq<char>>) -> Seq<char>
    decreases ls.len(),
{
    if ls.len() == 0 {
        seq![]
    } else {
        unlines(ls.drop_last()) + ls.last() + "\n"@
    }
}

proof fn lemma_leading_blank_push(ls: Seq<Seq<char>>, l: Seq<char>)
    ensures
        leading_blank(ls) <= ls.len(),
        leading_blank(ls.push(l)) == (if leading_blank(ls) < ls.len() {
            leading_blank(ls) as int
        } else if blank(l) {
            (ls.len() + 1) as int
        } else {
            ls.len() as int
        }),
        forall|i: int| 0 <= i < leading_blank(ls) ==> blank(#[trigger] ls[i]),
        leading_blank(ls) < ls.len() ==> !blank(ls[leading_blank(ls) as int]),
    decreases ls.len(),
{
    let p = ls.push(l);
    if ls.len() == 0 {
        assert(p[0] == l);
        assert(leading_blank(ls) == 0);
        if blank(l) {
            assert(p.drop_first() =~= Seq::<Seq<char>>::empty());
            assert(leading_blank(p.drop_first()) == 0);
            assert(leading_blank(p) == 1);
        } else {
            assert(leading_blank(p) == 0);
        }
    } else {
        assert(p[0] == ls[0]);
        if blank(ls[0]) {
            lemma_leading_blank_push(ls.drop_first(), l);
            assert(p.drop_first() =~= ls.drop_first().push(l));
            assert(leading_blank(p) == 1 + leading_blank(ls.drop_first().push(l)));
            assert(leading_blank(ls) == 1 + leading_blank(ls.drop_first()));
            assert forall|i: int| 0 <= i < leading_blank(ls) implies blank(#[trigger] ls[i]) by {
                if i > 0 {
                    assert(ls[i] == ls.drop_first()[i - 1]);
                }
            }
            if leading_blank(ls) < ls.len() {
                assert(ls[leading_blank(ls) as int] == ls.drop_first()[leading_blank(ls) - 1]);
            }
        }
    }
}

proof fn lemma_unlines_len(ls: Seq<Seq<char>>)
    ensures
        ls.len() > 0 ==> unlines(ls).len() > 0,
{
    reveal_strlit("\n");
}

/// What follows a heading is its body: the lines after the leading blank
/// ones, each followed by a line break (blank lines inside the body are
/// kept), until the next heading.
pub proof fn lemma_section_body(pre: Seq<Seq<char>>, h: Seq<char>, body: Seq<Seq<char>>)
    requires
        is_heading_line(h),
        forall|i: int| 0 <= i < body.len() ==> !is_heading_line(#[trigger] body[i]),
    ensures
        sections_after(pre.push(h) + body) == (
            close_section(sections_after(pre).0, sections_after(pre).1),
            Some((trim(h.skip(3)), unlines(body.skip(leading_blank(body) as int)))),
        ),
    decreases body.len(),
{
    let ls = pre.push(h) + body;
    if body.len() == 0 {
        assert(ls =~= pre.push(h));
        assert(ls.drop_last() =~= pre);
        assert(body.skip(0) =~= Seq::<Seq<char>>::empty());
    } else {
        let init = body.drop_last();
        let l = body.last();
        assert forall|i: int| 0 <= i < init.len() implies !is_heading_line(#[trigger] init[i]) by {
            assert(init[i] == body[i]);
        }
        lemma_section_body(pre, h, init);
        assert(ls.drop_last() =~= pre.push(h) + init);
        assert(ls.last() == l);
        assert(!is_heading_line(l)) by {
            assert(l == body[body.len() - 1]);
        }
        lemma_leading_blank_push(init, l);
        assert(body =~= init.push(l));
        let k = leading_blank(init);
        let cur = unlines(init.skip(k as int));
        if k < init.len() {
            lemma_unlines_len(init.skip(k as int));
            assert(body.skip(k as int) =~= init.skip(k as int).push(l));
            assert(body.skip(k as int).drop_last() =~= init.skip(k as int));
        } else if blank(l) {
            assert(init.skip(k as int) =~= Seq::<Seq<char>>::empty());
            assert(body.skip((init.len() + 1) as int) =~= Seq::<Seq<char>>::empty());
        } else {
            assert(init.skip(k as int) =~= Seq::<Seq<char>>::empty());
            assert(body.skip(init.len() as int) =~= seq![l]);
            assert(seq![l].drop_last() =~= Seq::<Seq<char>>::empty());
            assert(unlines(seq![l]) =~= seq![] + l + "\n"@);
        }
    }
}

/// The last section of a reply is headed by its last heading, and its body
/// is the lines after that heading past the leading blank ones, joined by
/// line breaks and right-trimmed.
pub proof fn lemma_last_section(raw: Seq<char>, pre: Seq<Seq<char>>, h: Seq<char>, body: Seq<Seq<char>>)
    requires
        lines(raw) == pre.push(h) + body,
        is_heading_line(h),
        forall|i: int| 0 <= i < body.len() ==> !is_heading_line(#[trigger] body[i]),
    ensures
        sections_of(raw).len() > 0,
        sections_of(raw).last() == (trim(h.skip(3)), trim_end(unlines(body.skip(leading_blank(body) as int)))),
{
    lemma_section_body(pre, h, body);
}

/// Lines before the first heading belong to no section: a reply without a
/// heading has no section at all.
pub proof fn lemma_no_heading_no_section(ls: Seq<Seq<char>>)
    requires
        forall|i: int| 0 <= i < ls.len() ==> !is_heading_line(#[trigger] ls[i]),
    ensures
        sections_after(ls) == (Seq::<(Seq<char>, Seq<char>)>::empty(), Option::<(Seq<char>, Seq<char>)>::None),
    decreases ls.len(),
{
    if ls.len() > 0 {
        let init = ls.drop_last();
        assert forall|i: int| 0 <= i < init.len() implies !is_heading_line(#[trigger] init[i]) by {
            assert(init[i] == ls[i]);
        }
        lemma_no_heading_no_section(init);
        assert(!is_heading_line(ls[ls.len() - 1]));
    }
}

/// The option a `- …` or `* …` line offers (trimmed), when it offers one.
pub open spec fn offered(l: Seq<char>) -> Option<Seq<char>> {
    let t = trim(l);
    if (starts_with(t, "- "@) || starts_with(t, "* "@)) && trim(t.skip(2)).len() > 0 {
        Some(trim(t.skip(2)))
    } else {
        None
    }
}

/// The options of a reply are exactly what its `- …` / `* …` lines offer,
/// each once.
pub proof fn lemma_options_are_the_offered_items(ls: Seq<Seq<char>>)
    ensures
        forall|o: Seq<char>|
            #[trigger] refine_after(ls).1.contains(o) <==> exists|i: int| 0 <= i < ls.len() && offered(ls[i]) == Some(o),
        options_clean(refine_after(ls).1),
    decreases ls.len(),
{
    lemma_refine_options_clean(ls);
    reveal_strlit("PERGUNTA:");
    reveal_strlit("Pergunta:");
    reveal_strlit("- ");
    reveal_strlit("* ");
    if ls.len() > 0 {
        let init = ls.drop_last();
        let l = ls.last();
        lemma_options_are_the_offered_items(init);
        let prev = refine_after(init).1;
        let now = refine_after(ls).1;
        let t = trim(l);
        assert(starts_with(t, "PERGUNTA:"@) || starts_with(t, "Pergunta:"@) ==> !(starts_with(t, "- "@) || starts_with(t, "* "@))) by {
            if starts_with(t, "PERGUNTA:"@) || starts_with(t, "Pergunta:"@) {
                assert(t.subrange(0, 9)[0] == t[0]);
                assert(t[0] == 'P');
                if starts_with(t, "- "@) || starts_with(t, "* "@) {
                    assert(t.subrange(0, 2)[0] == t[0]);
                }
            }
        }
        assert(offered(l) is None ==> now == prev);
        assert forall|o: Seq<char>| #[trigger] now.contains(o) <==> exists|i: int| 0 <= i < ls.len() && offered(ls[i]) == Some(o) by {
            if now.contains(o) {
                if prev.contains(o) {
                    let i = choose|i: int| 0 <= i < init.len() && offered(init[i]) == Some(o);
                    assert(ls[i] == init[i]);
                } else {
                    let k = choose|k: int| 0 <= k < now.len() && now[k] == o;
                    assert(now == prev.push(offered(l)->0));
                    assert(k == prev.len());
                    assert(ls[ls.len() - 1] == l);
                }
            }
            if exists|i: int| 0 <= i < ls.len() && offered(ls[i]) == Some(o) {
                let i = choose|i: int| 0 <= i < ls.len() && offered(ls[i]) == Some(o);
                if i < init.len() {
                    assert(init[i] == ls[i]);
                    assert(prev.contains(o));
                    let k = choose|k: int| 0 <= k < prev.len() && prev[k] == o;
                    if now != prev {
                        assert(now == prev.push(offered(l)->0));
                        assert(now[k] == prev[k]);
                    }
                } else {
                    assert(ls[i] == l);
                    if !prev.contains(o) {
                        assert(now == prev.push(o));
                        assert(now[prev.len() as int] == o);
                    }
                }
            }
        }
    }
}

} // verus!
