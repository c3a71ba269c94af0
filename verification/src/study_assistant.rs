//! The guided study of the reader: opening it, the three refinement rounds,
//! grounding, the study itself, deepening and export, as a step function from
//! the AI panel and an event to the next panel and what the program must do.
use vstd::prelude::*;
use vstd::string::StringExecFns;

use crate::ai::{
    deeper_depth, lens_name_pt, lens_slug, mode_name_pt, ChatRole, Denomination, StudyDepth, StudyMode,
};
use crate::export::{slug_of, slugify};
use crate::model::{Lang, Reference};
use crate::panels::{
    prior_view, session_title, session_title_text, study_title, study_title_text, AiPanel, AiStatus, RoundStep,
    StudyContext, StudyFlow,
};
use crate::reference::{format_reference, format_reference_spec};
use crate::session::Session;
use crate::study::Refinement;
use crate::text::{chars_of, copy_str, string_of, trim, trim_chars};

verus! {

/// The modes whose studies carry the verified lexicon (Academic and Sermon).
pub open spec fn wants_lexicon(mode: StudyMode) -> bool {
    mode == StudyMode::Academic || mode == StudyMode::Sermon
}

/// Whether a study can start.
#[derive(Debug, Clone, PartialEq, Eq)]
pub enum StudyGate {
    /// The mode needs the lexical data, which is not installed: open the
    /// scholarly panel with this message.
    NeedLexicon(String),
    /// No provider can answer: show this message.
    NoProvider(String),
    /// The study may start.
    Open,
}

/// The message that asks for the lexical data a mode needs.
pub open spec fn lexicon_needed_text(mode: StudyMode) -> Seq<char> {
    "O modo "@ + mode_name_pt(mode) + " precisa dos dados léxicos — instale aqui (Enter)."@
}

/// Before a study: a mode that wants the lexicon needs the lexical data
/// installed; then a provider must be ready (`provider` is what resolving it
/// gave: its key, or the error to show).
pub fn study_gate(mode: StudyMode, lexicon_installed: bool, provider: &Result<Option<String>, String>) -> (r: StudyGate)
    ensures
        wants_lexicon(mode) && !lexicon_installed ==> (r matches StudyGate::NeedLexicon(m) && m@
            == lexicon_needed_text(mode)),
        !(wants_lexicon(mode) && !lexicon_installed) ==> match provider {
            Err(e) => (r matches StudyGate::NoProvider(m) && m@ == e@),
            Ok(_) => r == StudyGate::Open,
        },
{
    if mode.wants_lexical() && !lexicon_installed {
        let mut m = copy_str("O modo ");
        m.append(mode.name_pt());
        m.append(" precisa dos dados léxicos — instale aqui (Enter).");
        return StudyGate::NeedLexicon(m);
    }
    match provider {
        Err(e) => StudyGate::NoProvider(copy_str(e.as_str())),
        Ok(_) => StudyGate::Open,
    }
}

/// Opens the assistant on a new conversation: the session is marked as a
/// study of this mode and lens, and the rounds lead to a study at `depth`.
pub fn open_study(session: Session, mode: StudyMode, lens: Denomination, depth: StudyDepth) -> (r: AiPanel)
    ensures
        r.wf(),
        r.session.study_mode == Some(mode),
        r.session.study_lens matches Some(l) && l@ == lens_slug(lens),
        r.session.messages@ == session.messages@,
        r.session.title@ == session.title@,
        r.session.context@ == session.context@,
        r.session.lang == session.lang,
        r.status is Idle,
        r.study_done is None,
        r.study matches Some(f) && f.mode == mode && f.lens == lens && f.depth == depth && f.round == 0
            && f.brief@.len() == 0 && f.options@.len() == 0 && f.prior@.len() == 0,
{
    let mut session = session;
    session.study_mode = Some(mode);
    session.study_lens = Some(copy_str(lens.slug()));
    let mut panel = AiPanel::from_session(session);
    let mut flow = StudyFlow::new(mode, lens);
    flow.depth = depth;
    panel.study = Some(flow);
    panel
}

/// How much is fetched to ground a study: 16 cross references and the
/// verified lexicon for the modes that want the lexicon, else 8 and none.
pub open spec fn xref_limit_of(mode: StudyMode) -> usize {
    if wants_lexicon(mode) {
        16
    } else {
        8
    }
}

/// The scope of a study: the subject, then each answer after `; `.
pub open spec fn scope_text(brief: Seq<char>, prior: Seq<(Seq<char>, Seq<char>)>) -> Seq<char>
    decreases prior.len(),
{
    if prior.len() == 0 {
        brief
    } else {
        scope_text(brief, prior.drop_last()) + "; "@ + prior.last().1
    }
}

fn scope_of(brief: &str, prior: &Vec<(String, String)>) -> (r: String)
    ensures
        r@ == scope_text(brief@, prior_view(prior@)),
{
    let ghost pv = prior_view(prior@);
    let mut s = copy_str(brief);
    let mut i: usize = 0;
    while i < prior.len()
        invariant
            i <= prior@.len(),
            pv == prior_view(prior@),
            s@ == scope_text(brief@, pv.take(i as int)),
        decreases prior@.len() - i,
    {
        s.append("; ");
        s.append(prior[i].1.as_str());
        proof {
            reveal_strlit("; ");
            assert(pv.take((i + 1) as int).drop_last() =~= pv.take(i as int));
            assert(pv.take((i + 1) as int).last() == pv[i as int]);
        }
        i = i + 1;
    }
    assert(pv.take(prior@.len() as int) =~= pv);
    s
}

/// The context of the study the rounds lead to: grounded on `found` (the
/// first reference of the scope that the store holds, labelled as it is
/// written in `lang`), else on the `fallback` chapter, labelled by the
/// subject's short title.
pub open spec fn grounded_context(
    mode: StudyMode,
    lens: Denomination,
    depth: StudyDepth,
    brief: Seq<char>,
    scope: Seq<char>,
    found: Option<Reference>,
    fallback: Reference,
    lang: Lang,
    ctx: StudyContext,
) -> bool {
    &&& ctx.mode == mode && ctx.lens == lens && ctx.depth == depth && ctx.scope@ == scope
    &&& match found {
        Some(r) => ctx.reference == r && ctx.reference_label@ == format_reference_spec(r, lang) && ctx.grounded,
        None => ctx.reference == fallback && ctx.reference_label@ == session_title_text(brief) && !ctx.grounded,
    }
}

/// What the program runs for a study: the context, the brief of the
/// request, how many cross references to fetch, and whether to fetch the
/// verified lexicon.
#[derive(Debug, Clone)]
pub struct RunPlan {
    pub context: StudyContext,
    pub brief: String,
    pub xref_limit: usize,
    pub with_lexicon: bool,
}

/// `p` runs the study of `ctx` with the brief `brief`.
pub open spec fn runs(p: RunPlan, ctx: StudyContext, brief: Seq<char>) -> bool {
    &&& p.context == ctx
    &&& p.brief@ == brief
    &&& p.xref_limit == xref_limit_of(ctx.mode)
    &&& p.with_lexicon == wants_lexicon(ctx.mode)
}

fn run_plan(ctx: StudyContext, brief: String) -> (r: RunPlan)
    ensures
        runs(r, ctx, brief@),
{
    let with_lexicon = ctx.mode.wants_lexical();
    RunPlan { context: ctx, brief, xref_limit: if with_lexicon { 16 } else { 8 }, with_lexicon }
}

/// What the program reports to the assistant.
#[derive(Debug)]
pub enum StudyEvent {
    /// The subject typed for the study.
    Brief(String),
    /// What the refinement round gave: its question and options, or the error.
    Refined(Result<Refinement, String>),
    /// The answer to the round under way (an option, or one's own text).
    Answer(String),
    /// The first reference of the scope that the store holds (if any), and
    /// the chapter to fall back on.
    Grounded(Option<Reference>, Reference),
    /// What the study gave (its Markdown, or the error), with the context it
    /// ran in.
    Generated(Result<String, String>, StudyContext),
    /// Deepen the finished study, with an optional focus.
    Deepen(String),
    /// The default lens changed.
    LensChanged(Denomination),
    /// Export the study.
    Export,
}

/// What the assistant asks of the program.
#[derive(Debug)]
pub enum StudyCommand {
    /// Nothing to do.
    Nothing,
    /// Close the panel.
    Close,
    /// Ask the refinement round with this number.
    Refine(u8),
    /// Find, in the store, the first reference this scope names.
    Ground(String),
    /// Fetch the grounding and run the study.
    Run(RunPlan),
    /// Save the conversation.
    Save,
    /// Write this Markdown to the file with this stem.
    Export(String, String),
}

/// `b` is `a` with one more turn, the rest of the conversation as it was
/// (title and context aside).
pub open spec fn with_turn(a: Session, b: Session, role: ChatRole, content: Seq<char>) -> bool {
    &&& b.messages@.len() == a.messages@.len() + 1
    &&& b.messages@.drop_last() == a.messages@
    &&& b.messages@.last().role == role
    &&& b.messages@.last().content@ == content
    &&& b.id@ == a.id@ && b.anchor_label@ == a.anchor_label@ && b.lang == a.lang
    &&& b.provider@ == a.provider@ && b.model@ == a.model@ && b.created_at == a.created_at
    &&& b.study_mode == a.study_mode && b.study_lens == a.study_lens
}

/// The abstract value of a study context.
pub open spec fn context_view(c: StudyContext) -> (StudyMode, Denomination, StudyDepth, Reference, Seq<char>, bool, Seq<char>) {
    (c.mode, c.lens, c.depth, c.reference, c.reference_label@, c.grounded, c.scope@)
}

/// `p` runs its context with the brief `brief`, fetching what its mode wants.
pub open spec fn plan_ok(p: RunPlan, brief: Seq<char>) -> bool {
    &&& p.brief@ == brief
    &&& p.xref_limit == xref_limit_of(p.context.mode)
    &&& p.with_lexicon == wants_lexicon(p.context.mode)
}

/// The text of the last answer of the assistant, if there is one.
pub open spec fn last_answer(ms: Seq<crate::session::Message>) -> Option<Seq<char>>
    decreases ms.len(),
{
    if ms.len() == 0 {
        None
    } else if ms.last().role == ChatRole::Assistant {
        Some(ms.last().content@)
    } else {
        last_answer(ms.drop_last())
    }
}

/// The file stem an exported study takes: the slug of its title (of
/// `estudo` when the title is blank), `estudo` when the slug is empty.
pub open spec fn export_stem(title: Seq<char>) -> Seq<char> {
    let t = if trim(title).len() == 0 {
        "estudo"@
    } else {
        title
    };
    if slug_of(t).len() == 0 {
        "estudo"@
    } else {
        slug_of(t)
    }
}

/// The context a finished study leaves in a conversation that had none.
pub open spec fn study_context_text(c: StudyContext) -> Seq<char> {
    "Estudo "@ + mode_name_pt(c.mode) + " sob a lente "@ + lens_name_pt(c.lens) + ". Escopo: "@
        + c.reference_label@ + " — "@ + c.scope@ + "."@
}

/// Everything of the panel but the conversation, the status and the flow
/// is as it was.
pub open spec fn keeps_rest(a: AiPanel, b: AiPanel) -> bool {
    b.refs == a.refs && b.ref_selected == a.ref_selected && b.study_done == a.study_done
}

/// One step of the assistant: from the panel `a` and the event `ev`, the
/// panel `b` and the command `r`.
pub open spec fn step_spec(a: AiPanel, ev: StudyEvent, b: AiPanel, r: StudyCommand) -> bool {
    match ev {
        StudyEvent::Brief(text) => match a.study {
            None => r is Nothing && b == a,
            Some(f) => if trim(text@).len() == 0 {
                r is Close && b == a
            } else {
                let t = trim(text@);
                &&& r matches StudyCommand::Refine(n) && n == 1
                &&& with_turn(a.session, b.session, ChatRole::User, "Estudar: "@ + t)
                &&& b.session.title@ == study_title_text(f.mode, f.lens, t)
                &&& b.session.context@ == a.session.context@
                &&& b.status is Pending && b.scroll@ == u16::MAX && keeps_rest(a, b)
                &&& b.study matches Some(g) && g.brief@ == t && g.round == 1 && g.mode == f.mode && g.lens
                    == f.lens && g.depth == f.depth && g.prior@ == f.prior@ && g.options@ == f.options@
                    && g.question@ == f.question@ && g.selected == f.selected
            }
        },
        StudyEvent::Refined(res) => match a.study {
            None => r is Nothing && b == a,
            Some(f) => r is Nothing && match res {
                Ok(q) => {
                    &&& with_turn(a.session, b.session, ChatRole::Assistant, q.question@)
                    &&& b.session.title@ == a.session.title@ && b.session.context@ == a.session.context@
                    &&& b.status is Idle && b.scroll@ == u16::MAX && keeps_rest(a, b)
                    &&& b.study matches Some(g) && g.question@ == q.question@ && g.options@ == q.options@
                        && g.selected == 0 && g.mode == f.mode && g.lens == f.lens && g.depth == f.depth
                        && g.brief@ == f.brief@ && g.round == f.round && g.prior@ == f.prior@
                },
                Err(e) => b.status matches AiStatus::Error(m) && m@ == e@ && b.session == a.session
                    && b.scroll == a.scroll && b.study == a.study && keeps_rest(a, b),
            },
        },
        StudyEvent::Answer(text) => match a.study {
            None => r is Nothing && b == a,
            Some(f) => if trim(text@).len() == 0 || f.options@.len() == 0 {
                r is Nothing && b == a
            } else {
                let t = trim(text@);
                &&& with_turn(a.session, b.session, ChatRole::User, t)
                &&& b.session.title@ == a.session.title@ && b.session.context@ == a.session.context@
                &&& b.status is Pending && b.scroll@ == u16::MAX && keeps_rest(a, b)
                &&& b.study matches Some(g) && prior_view(g.prior@) == prior_view(f.prior@).push((f.question@, t))
                    && g.options@.len() == 0 && g.mode == f.mode && g.lens == f.lens && g.depth == f.depth
                    && g.brief@ == f.brief@ && (if f.round < 3 {
                    g.round == f.round + 1 && (r matches StudyCommand::Refine(n) && n == f.round + 1)
                } else {
                    g.round == f.round && (r matches StudyCommand::Ground(sc) && sc@ == scope_text(
                        f.brief@,
                        prior_view(g.prior@),
                    ))
                })
            }
        },
        StudyEvent::Grounded(found, fallback) => match a.study {
            None => r is Nothing && b == a,
            Some(f) => b == a && (r matches StudyCommand::Run(p) && plan_ok(p, scope_text(f.brief@, prior_view(f.prior@)))
                && grounded_context(
                f.mode,
                f.lens,
                f.depth,
                f.brief@,
                scope_text(f.brief@, prior_view(f.prior@)),
                found,
                fallback,
                a.session.lang,
                p.context,
            )),
        },
        StudyEvent::Generated(res, ctx) => match res {
            Ok(md) => {
                &&& r is Save
                &&& with_turn(a.session, b.session, ChatRole::Assistant, md@)
                &&& b.session.title@ == a.session.title@
                &&& b.session.context@ == (if trim(a.session.context@).len() == 0 {
                    study_context_text(ctx)
                } else {
                    a.session.context@
                })
                &&& b.status is Idle && b.scroll@ == u16::MAX && b.study is None && b.study_done == Some(ctx)
                &&& crate::panels::session_cites(b.session.messages@, b.refs@)
                &&& b.ref_selected == (if a.ref_selected < b.refs@.len() {
                    a.ref_selected
                } else {
                    0
                })
            },
            Err(e) => r is Nothing && (b.status matches AiStatus::Error(m) && m@ == e@) && b.session == a.session
                && b.scroll == a.scroll && b.study == a.study && keeps_rest(a, b),
        },
        StudyEvent::Deepen(focus) => match a.study_done {
            None => r is Nothing && b == a,
            Some(c) => {
                let f = trim(focus@);
                &&& with_turn(
                    a.session,
                    b.session,
                    ChatRole::User,
                    if f.len() == 0 {
                        "Aprofundar o estudo"@
                    } else {
                        "Aprofundar: "@ + f
                    },
                )
                &&& b.session.title@ == a.session.title@ && b.session.context@ == a.session.context@
                &&& b.status is Pending && b.scroll@ == u16::MAX && b.study == a.study && keeps_rest(a, b)
                &&& r matches StudyCommand::Run(p) && plan_ok(
                    p,
                    if f.len() == 0 {
                        "Aprofundar: "@ + c.scope@
                    } else {
                        f
                    },
                ) && context_view(p.context) == (
                    c.mode,
                    c.lens,
                    deeper_depth(c.depth),
                    c.reference,
                    c.reference_label@,
                    c.grounded,
                    c.scope@,
                )
            },
        },
        StudyEvent::LensChanged(l) => {
            &&& r is Nothing
            &&& b.session == a.session && b.status == a.status && b.scroll == a.scroll && b.refs == a.refs
                && b.ref_selected == a.ref_selected
            &&& match a.study {
                None => b.study is None,
                Some(f) => b.study matches Some(g) && g.lens == l && g.mode == f.mode && g.depth == f.depth
                    && g.brief@ == f.brief@ && g.round == f.round && g.question@ == f.question@ && g.options@
                    == f.options@ && g.selected == f.selected && g.prior@ == f.prior@,
            }
            &&& match a.study_done {
                None => b.study_done is None,
                Some(c) => b.study_done matches Some(d) && context_view(d) == (
                    c.mode,
                    l,
                    c.depth,
                    c.reference,
                    c.reference_label@,
                    c.grounded,
                    c.scope@,
                ),
            }
        },
        StudyEvent::Export => b == a && match last_answer(a.session.messages@) {
            None => r is Nothing,
            Some(md) => r matches StudyCommand::Export(stem, text) && text@ == md && stem@ == export_stem(
                a.session.title@,
            ),
        },
    }
}

/// Appends a turn to the conversation and scrolls to its end.
fn add_turn(panel: &mut AiPanel, role: ChatRole, content: String)
    ensures
        with_turn(old(panel).session, final(panel).session, role, content@),
        final(panel).session.title@ == old(panel).session.title@,
        final(panel).session.context@ == old(panel).session.context@,
        final(panel).scroll@ == u16::MAX,
        final(panel).status == old(panel).status,
        final(panel).study == old(panel).study,
        keeps_rest(*old(panel), *final(panel)),
{
    panel.session.push(role, content);
    panel.scroll.jump_to_end();
}

fn on_brief(panel: &mut AiPanel, text: String) -> (r: StudyCommand)
    requires
        old(panel).wf(),
    ensures
        final(panel).wf(),
        step_spec(*old(panel), StudyEvent::Brief(text), *final(panel), r),
{
    if panel.study.is_none() {
        return StudyCommand::Nothing;
    }
    let t = trim_chars(chars_of(text.as_str()).as_slice());
    if t.len() == 0 {
        return StudyCommand::Close;
    }
    let brief = string_of(t.as_slice());
    let mut flow = match panel.study.take() {
        Some(f) => f,
        None => return StudyCommand::Nothing,
    };
    flow.set_brief(brief.as_str());
    panel.session.title = study_title(flow.mode, flow.lens, brief.as_str());
    panel.study = Some(flow);
    let mut turn = copy_str("Estudar: ");
    turn.append(brief.as_str());
    proof {
        reveal_strlit("Estudar: ");
    }
    add_turn(panel, ChatRole::User, turn);
    panel.status = AiStatus::Pending;
    StudyCommand::Refine(1)
}

fn on_refined(panel: &mut AiPanel, res: Result<Refinement, String>) -> (r: StudyCommand)
    requires
        old(panel).wf(),
    ensures
        final(panel).wf(),
        step_spec(*old(panel), StudyEvent::Refined(res), *final(panel), r),
{
    if panel.study.is_none() {
        return StudyCommand::Nothing;
    }
    match res {
        Ok(q) => {
            let mut flow = match panel.study.take() {
                Some(f) => f,
                None => return StudyCommand::Nothing,
            };
            let turn = copy_str(q.question.as_str());
            flow.question = q.question;
            flow.options = q.options;
            flow.selected = 0;
            panel.study = Some(flow);
            add_turn(panel, ChatRole::Assistant, turn);
            panel.status = AiStatus::Idle;
        },
        Err(e) => {
            panel.status = AiStatus::Error(e);
        },
    }
    StudyCommand::Nothing
}

fn on_answer(panel: &mut AiPanel, text: String) -> (r: StudyCommand)
    requires
        old(panel).wf(),
    ensures
        final(panel).wf(),
        step_spec(*old(panel), StudyEvent::Answer(text), *final(panel), r),
{
    let waiting = match &panel.study {
        Some(f) => f.options.len() > 0,
        None => return StudyCommand::Nothing,
    };
    let t = trim_chars(chars_of(text.as_str()).as_slice());
    if t.len() == 0 || !waiting {
        return StudyCommand::Nothing;
    }
    let answer = string_of(t.as_slice());
    let mut flow = match panel.study.take() {
        Some(f) => f,
        None => return StudyCommand::Nothing,
    };
    let step = flow.record_answer(answer.as_str());
    proof {
        crate::text::lemma_trim_idem(text@);
    }
    let cmd = match step {
        RoundStep::Refine(n) => StudyCommand::Refine(n),
        _ => StudyCommand::Ground(scope_of(flow.brief.as_str(), &flow.prior)),
    };
    panel.study = Some(flow);
    add_turn(panel, ChatRole::User, answer);
    panel.status = AiStatus::Pending;
    cmd
}

fn on_grounded(panel: &mut AiPanel, found: Option<Reference>, fallback: Reference) -> (r: StudyCommand)
    requires
        old(panel).wf(),
    ensures
        final(panel).wf(),
        step_spec(*old(panel), StudyEvent::Grounded(found, fallback), *final(panel), r),
{
    let f = match &panel.study {
        Some(f) => f,
        None => return StudyCommand::Nothing,
    };
    let scope = scope_of(f.brief.as_str(), &f.prior);
    let (reference, reference_label, grounded) = match found {
        Some(r) => (r, format_reference(&r, panel.session.lang), true),
        None => (fallback, session_title(f.brief.as_str()), false),
    };
    let ctx = StudyContext {
        mode: f.mode,
        lens: f.lens,
        depth: f.depth,
        reference,
        reference_label,
        grounded,
        scope: copy_str(scope.as_str()),
    };
    StudyCommand::Run(run_plan(ctx, scope))
}

fn context_string(c: &StudyContext) -> (r: String)
    ensures
        r@ == study_context_text(*c),
{
    let mut s = copy_str("Estudo ");
    s.append(c.mode.name_pt());
    s.append(" sob a lente ");
    s.append(c.lens.name_pt());
    s.append(". Escopo: ");
    s.append(c.reference_label.as_str());
    s.append(" — ");
    s.append(c.scope.as_str());
    s.append(".");
    s
}

fn on_generated(panel: &mut AiPanel, res: Result<String, String>, ctx: StudyContext) -> (r: StudyCommand)
    requires
        old(panel).wf(),
    ensures
        final(panel).wf(),
        step_spec(*old(panel), StudyEvent::Generated(res, ctx), *final(panel), r),
{
    match res {
        Ok(md) => {
            add_turn(panel, ChatRole::Assistant, md);
            let blank = trim_chars(chars_of(panel.session.context.as_str()).as_slice()).len() == 0;
            if blank {
                panel.session.context = context_string(&ctx);
            }
            panel.status = AiStatus::Idle;
            panel.study = None;
            panel.study_done = Some(ctx);
            panel.refresh_refs();
            StudyCommand::Save
        },
        Err(e) => {
            panel.status = AiStatus::Error(e);
            StudyCommand::Nothing
        },
    }
}

fn on_deepen(panel: &mut AiPanel, focus: String) -> (r: StudyCommand)
    requires
        old(panel).wf(),
    ensures
        final(panel).wf(),
        step_spec(*old(panel), StudyEvent::Deepen(focus), *final(panel), r),
{
    let ctx = match &panel.study_done {
        Some(c) => StudyContext {
            mode: c.mode,
            lens: c.lens,
            depth: c.depth.deeper(),
            reference: c.reference,
            reference_label: copy_str(c.reference_label.as_str()),
            grounded: c.grounded,
            scope: copy_str(c.scope.as_str()),
        },
        None => return StudyCommand::Nothing,
    };
    let f = trim_chars(chars_of(focus.as_str()).as_slice());
    proof {
        reveal_strlit("Aprofundar: ");
    }
    let (request, label) = if f.len() == 0 {
        let mut q = copy_str("Aprofundar: ");
        q.append(ctx.scope.as_str());
        (q, copy_str("Aprofundar o estudo"))
    } else {
        let mut l = copy_str("Aprofundar: ");
        l.append(string_of(f.as_slice()).as_str());
        (string_of(f.as_slice()), l)
    };
    add_turn(panel, ChatRole::User, label);
    panel.status = AiStatus::Pending;
    StudyCommand::Run(run_plan(ctx, request))
}

fn on_lens(panel: &mut AiPanel, l: Denomination) -> (r: StudyCommand)
    requires
        old(panel).wf(),
    ensures
        final(panel).wf(),
        step_spec(*old(panel), StudyEvent::LensChanged(l), *final(panel), r),
{
    match panel.study.take() {
        Some(mut f) => {
            f.lens = l;
            panel.study = Some(f);
        },
        None => {},
    }
    match panel.study_done.take() {
        Some(mut c) => {
            c.lens = l;
            panel.study_done = Some(c);
        },
        None => {},
    }
    StudyCommand::Nothing
}

fn last_answer_of(ms: &Vec<crate::session::Message>) -> (r: Option<String>)
    ensures
        match last_answer(ms@) {
            Some(t) => r matches Some(s) && s@ == t,
            None => r is None,
        },
{
    let mut k = ms.len();
    assert(ms@.take(k as int) =~= ms@);
    while k > 0
        invariant
            k <= ms@.len(),
            last_answer(ms@) == last_answer(ms@.take(k as int)),
        decreases k,
    {
        let m = &ms[k - 1];
        assert(ms@.take(k as int).last() == ms@[k - 1]);
        assert(ms@.take(k as int).drop_last() =~= ms@.take(k - 1));
        if m.role == ChatRole::Assistant {
            return Some(copy_str(m.content.as_str()));
        }
        k = k - 1;
    }
    None
}

fn export_stem_of(title: &str) -> (r: String)
    ensures
        r@ == export_stem(title@),
{
    let t = trim_chars(chars_of(title).as_slice());
    let s = if t.len() == 0 {
        slugify("estudo")
    } else {
        slugify(title)
    };
    let sc = chars_of(s.as_str());
    if sc.len() == 0 {
        copy_str("estudo")
    } else {
        s
    }
}

fn on_export(panel: &mut AiPanel) -> (r: StudyCommand)
    requires
        old(panel).wf(),
    ensures
        final(panel).wf(),
        step_spec(*old(panel), StudyEvent::Export, *final(panel), r),
{
    match last_answer_of(&panel.session.messages) {
        Some(md) => StudyCommand::Export(export_stem_of(panel.session.title.as_str()), md),
        None => StudyCommand::Nothing,
    }
}

/// One step of the study assistant: the panel moves to its next state and
/// the program is told what to do (see [`step_spec`]).
pub fn study_step(panel: &mut AiPanel, ev: StudyEvent) -> (r: StudyCommand)
    requires
        old(panel).wf(),
    ensures
        final(panel).wf(),
        step_spec(*old(panel), ev, *final(panel), r),
{
    match ev {
        StudyEvent::Brief(t) => on_brief(panel, t),
        StudyEvent::Refined(res) => on_refined(panel, res),
        StudyEvent::Answer(t) => on_answer(panel, t),
        StudyEvent::Grounded(found, fallback) => on_grounded(panel, found, fallback),
        StudyEvent::Generated(res, ctx) => on_generated(panel, res, ctx),
        StudyEvent::Deepen(focus) => on_deepen(panel, focus),
        StudyEvent::LensChanged(l) => on_lens(panel, l),
        StudyEvent::Export => on_export(panel),
    }
}

} // verus!
