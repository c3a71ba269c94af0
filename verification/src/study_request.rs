//! The study of a passage (or of a theme): the user prompt that surrounds the
//! model with the local text, the cross references, the verified lexicon and
//! the web sources; the call; and the checks of what comes back (invented
//! Strong's numbers, web sources cited out of range).
use vstd::prelude::*;
use vstd::string::StringExecFns;

use crate::ai::{depth_name_pt, lens_name_pt, mode_name_pt, AiError, ChatRole, Denomination, LlmProvider, StudyDepth, StudyMode};
use crate::citation::{add_entries, add_webs, cites_view, CitationCollector, CiteView};
use crate::lexicon::{cited_strongs_spec, format_verified_block, verified_block_text, verify, warnings_for, VerifiedLexicon};
use crate::model::{Lang, Passage, Reference};
use crate::prompts::{builtin_text, first_override, system_prompt_from};
use crate::research::{sources_view, WebSource};
use crate::sorted::strs;
use crate::study::{
    numbered_passage, numbered_text, passage_pairs, sections_of, sections_view, split_sections,
    StudyResult,
};
use crate::text::{chars_of, copy_str, decimal, digits_upto, digits_upto_exec, find_char, find_char_at, find_chars, find_from, lemma_find_from, join, join_strings, push_decimal, slice_chars, string_of, trim, trim_chars};

verus! {

/// A request to study a passage.
pub struct StudyRequest<'a> {
    /// Reference of the passage.
    pub reference: Reference,
    /// Formatted reference (ex.: "Ef 2.8-9").
    pub reference_label: String,
    /// Study mode (shapes structure and tone).
    pub mode: StudyMode,
    /// Denominational lens.
    pub lens: Denomination,
    /// Depth.
    pub depth: StudyDepth,
    /// Language of the answer.
    pub language: Lang,
    /// The passage (text of the local store). `None`: a topical study, whose
    /// subject is the brief; the model cites the references it discusses.
    pub passage: Option<&'a Passage>,
    /// Local cross references (labels), given as context.
    pub cross_references: Vec<String>,
    /// Verified lexical data, put in the prompt only with a passage and a
    /// mode that wants it.
    pub verified_lexicon: VerifiedLexicon,
    /// Secondary web sources (opt-in research); empty when offline.
    pub web_sources: Vec<WebSource>,
    /// The user's focus for the study; the subject of a topical study.
    pub brief: Option<String>,
}

// ---------------------------------------------------------------------------
// The user prompt.
// ---------------------------------------------------------------------------
/// The cross references joined by `"; "`, or `"(nenhuma)"`.
pub open spec fn xrefs_text(xs: Seq<Seq<char>>) -> Seq<char> {
    if xs.len() == 0 {
        "(nenhuma)"@
    } else {
        join(xs, "; "@)
    }
}

pub open spec fn lexical_rule() -> Seq<char> {
    "\n\nAo tratar de termos no original, cite EXCLUSIVAMENTE os Strong do bloco acima usando a marca [V:NÚMERO]; se o bloco indicar que não há dados, declare isso e NÃO invente números, lemas ou sentidos.\n"@
}

/// The block of verified lexical data, with a passage and a mode that wants it.
pub open spec fn lexical_text(req: StudyRequest) -> Seq<char> {
    if req.passage is Some && (req.mode == StudyMode::Academic || req.mode == StudyMode::Sermon) {
        "\nDADOS LÉXICOS:\n"@ + verified_block_text(req.verified_lexicon.view()) + lexical_rule()
    } else {
        seq![]
    }
}

/// One web source, as the `n`-th (from 1): `"[W:n] title (site) — snippet\n"`.
pub open spec fn web_line(n: nat, w: WebSource) -> Seq<char> {
    "[W:"@ + decimal(n) + "] "@ + w.title@ + " ("@ + w.site@ + ") — "@ + w.snippet@ + "\n"@
}

pub open spec fn web_lines(ws: Seq<WebSource>) -> Seq<char>
    decreases ws.len(),
{
    if ws.len() == 0 {
        seq![]
    } else {
        web_lines(ws.drop_last()) + web_line(ws.len(), ws.last())
    }
}

pub open spec fn web_header() -> Seq<char> {
    "\nFONTES SECUNDÁRIAS (recuperadas da web — cite por [W:n]; use SOMENTE estas, NÃO invente URLs nem extrapole além do trecho):\n"@
}

/// The block of web sources, citable by `[W:n]` (nothing when there are none).
pub open spec fn web_text(ws: Seq<WebSource>) -> Seq<char> {
    if ws.len() == 0 {
        seq![]
    } else {
        web_header() + web_lines(ws)
    }
}

/// The user's focus, trimmed (nothing when absent or blank).
pub open spec fn brief_text(b: Option<String>) -> Seq<char> {
    match b {
        Some(s) => if trim(s@).len() > 0 {
            "\n\nFOCO DO ESTUDO (definido pelo usuário — atenda exatamente a isto):\n"@ + trim(s@)
        } else {
            seq![]
        },
        None => seq![],
    }
}

pub open spec fn closing_rules() -> Seq<char> {
    "Produza a interpretação seguindo as regras do sistema (estrutura de seções do modo, citar versículos, separar texto de interpretação, marcar a lente, sinalizar divergências)."@
}

/// The opening sentence of the prompt: mode, passage (or theme), lens,
/// depth, and the user's focus.
pub open spec fn opening_text(req: StudyRequest) -> Seq<char> {
    "Faça um estudo bíblico ("@ + mode_name_pt(req.mode) + ")"@ + (if req.passage is Some {
        " da passagem "@ + req.reference_label@
    } else {
        " TEMÁTICO"@
    }) + ", pela lente "@ + lens_name_pt(req.lens) + ", profundidade "@ + depth_name_pt(req.depth) + "."@
        + brief_text(req.brief)
}

/// The body of the prompt of a passage study.
pub open spec fn passage_body_text(req: StudyRequest, passage_text: Seq<char>) -> Seq<char> {
    "\n\nTEXTO DA PASSAGEM (acervo local — cite por número de versículo):\n"@ + passage_text
        + "\n\nREFERÊNCIAS CRUZADAS LOCAIS (contexto, use se ajudar):\n"@ + xrefs_text(
        strs(req.cross_references@),
    ) + "\n"@ + lexical_text(req) + web_text(req.web_sources@) + "\n"@
}

pub open spec fn topical_rule() -> Seq<char> {
    "\n\nNão há uma única passagem fixada: trate o tema abrangendo as passagens bíblicas pertinentes e CITE cada referência que discutir (ex.: Ef 2.8). NÃO invente versículos nem referências.\nREFERÊNCIAS RELACIONADAS (contexto, use se ajudar):\n"@
}

/// The body of the prompt of a topical study.
pub open spec fn topical_body_text(req: StudyRequest) -> Seq<char> {
    topical_rule() + xrefs_text(strs(req.cross_references@)) + "\n"@ + web_text(req.web_sources@) + "\n"@
}

/// The user prompt of a study.
pub open spec fn study_user_text(req: StudyRequest, passage_text: Seq<char>) -> Seq<char> {
    opening_text(req) + (if req.passage is Some {
        passage_body_text(req, passage_text)
    } else {
        topical_body_text(req)
    }) + closing_rules()
}

fn web_block(ws: &Vec<WebSource>) -> (r: String)
    ensures
        r@ == web_text(ws@),
{
    if ws.len() == 0 {
        return String::new();
    }
    let mut b = copy_str(
        "\nFONTES SECUNDÁRIAS (recuperadas da web — cite por [W:n]; use SOMENTE estas, NÃO invente URLs nem extrapole além do trecho):\n",
    );
    let ghost h = b@;
    let mut i: usize = 0;
    while i < ws.len()
        invariant
            i <= ws@.len(),
            b@ == h + web_lines(ws@.take(i as int)),
        decreases ws@.len() - i,
    {
        let w = &ws[i];
        b.append("[W:");
        push_decimal(&mut b, (i as u64) + 1);
        b.append("] ");
        b.append(w.title.as_str());
        b.append(" (");
        b.append(w.site.as_str());
        b.append(") — ");
        b.append(w.snippet.as_str());
        b.append("\n");
        assert(ws@.take(i + 1).drop_last() =~= ws@.take(i as int));
        assert(ws@.take(i + 1).last() == ws@[i as int]);
        i = i + 1;
    }
    assert(ws@.take(ws@.len() as int) =~= ws@);
    b
}

fn brief_block(b: &Option<String>) -> (r: String)
    ensures
        r@ == brief_text(*b),
{
    match b {
        Some(s) => {
            let t = trim_chars(chars_of(s.as_str()).as_slice());
            if t.len() > 0 {
                let mut r = copy_str("\n\nFOCO DO ESTUDO (definido pelo usuário — atenda exatamente a isto):\n");
                let ts = string_of(t.as_slice());
                r.append(ts.as_str());
                r
            } else {
                String::new()
            }
        },
        None => String::new(),
    }
}

fn opening(req: &StudyRequest) -> (r: String)
    ensures
        r@ == opening_text(*req),
{
    let brief = brief_block(&req.brief);
    let mut s = copy_str("Faça um estudo bíblico (");
    s.append(req.mode.name_pt());
    s.append(")");
    let ghost a = s@;
    if req.passage.is_some() {
        s.append(" da passagem ");
        s.append(req.reference_label.as_str());
    } else {
        s.append(" TEMÁTICO");
    }
    let ghost b = s@;
    s.append(", pela lente ");
    s.append(req.lens.name_pt());
    s.append(", profundidade ");
    s.append(req.depth.name_pt());
    s.append(".");
    s.append(brief.as_str());
    proof {
        let mid = if req.passage is Some {
            " da passagem "@ + req.reference_label@
        } else {
            " TEMÁTICO"@
        };
        assert(b =~= a + mid);
    }
    s
}

fn xrefs_block(xs: &Vec<String>) -> (r: String)
    ensures
        r@ == xrefs_text(strs(xs@)),
{
    if xs.len() == 0 {
        copy_str("(nenhuma)")
    } else {
        join_strings(xs.as_slice(), "; ")
    }
}

fn passage_body(req: &StudyRequest, passage_text: &str) -> (r: String)
    ensures
        r@ == passage_body_text(*req, passage_text@),
{
    let xrefs = xrefs_block(&req.cross_references);
    let web = web_block(&req.web_sources);
    let mut s = copy_str("\n\nTEXTO DA PASSAGEM (acervo local — cite por número de versículo):\n");
    s.append(passage_text);
    s.append("\n\nREFERÊNCIAS CRUZADAS LOCAIS (contexto, use se ajudar):\n");
    s.append(xrefs.as_str());
    s.append("\n");
    let ghost a = s@;
    if req.passage.is_some() && req.mode.wants_lexical() {
        s.append("\nDADOS LÉXICOS:\n");
        let block = format_verified_block(&req.verified_lexicon, req.language);
        s.append(block.as_str());
        s.append(
            "\n\nAo tratar de termos no original, cite EXCLUSIVAMENTE os Strong do bloco acima usando a marca [V:NÚMERO]; se o bloco indicar que não há dados, declare isso e NÃO invente números, lemas ou sentidos.\n",
        );
    }
    let ghost b = s@;
    s.append(web.as_str());
    s.append("\n");
    proof {
        assert(b =~= a + lexical_text(*req));
    }
    s
}

fn topical_body(req: &StudyRequest) -> (r: String)
    ensures
        r@ == topical_body_text(*req),
{
    let xrefs = xrefs_block(&req.cross_references);
    let web = web_block(&req.web_sources);
    let mut s = copy_str(
        "\n\nNão há uma única passagem fixada: trate o tema abrangendo as passagens bíblicas pertinentes e CITE cada referência que discutir (ex.: Ef 2.8). NÃO invente versículos nem referências.\nREFERÊNCIAS RELACIONADAS (contexto, use se ajudar):\n",
    );
    s.append(xrefs.as_str());
    s.append("\n");
    s.append(web.as_str());
    s.append("\n");
    s
}

/// The user prompt of a study: the passage (numbered) or the theme, the
/// cross references, and the lexical and web blocks.
pub fn user_prompt(req: &StudyRequest, passage_text: &str) -> (r: String)
    ensures
        r@ == study_user_text(*req, passage_text@),
{
    let mut s = opening(req);
    let body = if req.passage.is_some() {
        passage_body(req, passage_text)
    } else {
        topical_body(req)
    };
    s.append(body.as_str());
    s.append(
        "Produza a interpretação seguindo as regras do sistema (estrutura de seções do modo, citar versículos, separar texto de interpretação, marcar a lente, sinalizar divergências).",
    );
    s
}

// ---------------------------------------------------------------------------
// Checking what comes back.
// ---------------------------------------------------------------------------
/// The numbers of the `[W:n]` anchors of `s` from position `p`, in order: an
/// anchor is `[W:` followed by a non-empty run of ASCII digits that fits in a
/// `usize` and `]`; the scan stops at an `[W:` that is never closed.
pub open spec fn web_anchors_from(s: Seq<char>, p: int) -> Seq<usize>
    decreases s.len() - p,
{
    if p < 0 || p > s.len() {
        seq![]
    } else {
        let k = find_from(s, "[W:"@, p);
        if k + 3 > s.len() {
            seq![]
        } else {
            let close = find_char(s, ']', k + 3);
            if close >= s.len() || close < k + 3 || k < p {
                seq![]
            } else {
                let tok = s.subrange(k + 3, close);
                let rest = web_anchors_from(s, close + 1);
                match digits_upto(tok, usize::MAX as nat) {
                    Some(n) => seq![n as usize] + rest,
                    None => rest,
                }
            }
        }
    }
}

/// Indices of the web sources cited (`[W:n]`) in a text.
pub fn cited_web_indices(text: &str) -> (r: Vec<usize>)
    ensures
        r@ == web_anchors_from(text@, 0),
{
    let v = chars_of(text);
    let pat = chars_of("[W:");
    proof {
        reveal_strlit("[W:");
    }
    assert(pat@ == "[W:"@);
    let mut out: Vec<usize> = Vec::new();
    let mut p: usize = 0;
    let ghost s = v@;
    assert(web_anchors_from(s, 0) == out@ + web_anchors_from(s, 0));
    while p <= v.len()
        invariant
            p <= v@.len() + 1,
            s == v@,
            s == text@,
            pat@ == "[W:"@,
            web_anchors_from(s, 0) == out@ + web_anchors_from(s, p as int),
        ensures
            web_anchors_from(s, 0) == out@,
        decreases v@.len() + 1 - p,
    {
        proof {
            lemma_find_from(s, "[W:"@, p as int);
        }
        let k = match find_chars(v.as_slice(), pat.as_slice(), p) {
            Some(k) => k,
            None => {
                assert(web_anchors_from(s, p as int) =~= Seq::<usize>::empty());
                assert(out@ + Seq::<usize>::empty() =~= out@);
                break;
            },
        };
        if v.len() < 3 || k > v.len() - 3 {
            assert(web_anchors_from(s, p as int) =~= Seq::<usize>::empty());
            assert(out@ + Seq::<usize>::empty() =~= out@);
            break;
        }
        let close = find_char_at(v.as_slice(), ']', k + 3);
        proof {
            crate::text::lemma_find_char(s, ']', k + 3);
        }
        if close >= v.len() {
            assert(web_anchors_from(s, p as int) =~= Seq::<usize>::empty());
            assert(out@ + Seq::<usize>::empty() =~= out@);
            break;
        }
        let tok = slice_chars(v.as_slice(), k + 3, close);
        let ghost rest = web_anchors_from(s, close + 1);
        let ghost o0 = out@;
        match digits_upto_exec(tok.as_slice(), usize::MAX as u64) {
            Some(n) => {
                out.push(n as usize);
                assert(out@ + rest =~= o0 + (seq![n as usize] + rest));
            },
            None => {},
        }
        p = close + 1;
    }
    out
}

/// The warning of a web source cited out of range.
pub open spec fn web_warning(n: usize, count: nat) -> Seq<char> {
    "Fonte web citada [W:"@ + decimal(n as nat) + "] fora do intervalo (há "@ + decimal(count) + " fonte(s))"@
}

/// One warning per anchor outside `1..=count`, in order.
pub open spec fn web_warnings(ns: Seq<usize>, count: nat) -> Seq<Seq<char>>
    decreases ns.len(),
{
    if ns.len() == 0 {
        seq![]
    } else {
        let p = web_warnings(ns.drop_last(), count);
        if ns.last() == 0 || ns.last() > count {
            p.push(web_warning(ns.last(), count))
        } else {
            p
        }
    }
}

// ---------------------------------------------------------------------------
// The study.
// ---------------------------------------------------------------------------
/// The quoted text of a request: the passage numbered by verse (nothing for
/// a topical study).
pub open spec fn passage_text_of(req: StudyRequest) -> Seq<char> {
    match req.passage {
        Some(p) => numbered_text(passage_pairs(*p)),
        None => seq![],
    }
}

/// The warnings of an answer: Strong's numbers cited outside the verified
/// data (with a passage and a lexical mode), then web sources cited out of
/// range (when there are web sources).
pub open spec fn study_warnings(req: StudyRequest, answer: Seq<char>) -> Seq<Seq<char>> {
    let lex = if req.passage is Some && (req.mode == StudyMode::Academic || req.mode == StudyMode::Sermon) {
        warnings_for(cited_strongs_spec(answer), req.verified_lexicon.strongs())
    } else {
        seq![]
    };
    let web = if req.web_sources@.len() > 0 {
        web_warnings(web_anchors_from(answer, 0), req.web_sources@.len())
    } else {
        seq![]
    };
    lex + web
}

/// The citations of a study: those of the verified lexicon, then one per
/// retrieved web source, for a mode with an apparatus.
pub open spec fn study_citations(req: StudyRequest) -> Seq<CiteView> {
    if req.mode == StudyMode::Academic {
        add_webs(
            add_entries(seq![], req.verified_lexicon.view().entries, req.verified_lexicon.first_source()),
            sources_view(req.web_sources@),
        )
    } else {
        seq![]
    }
}

/// The system prompt of a study, given the override files found.
pub open spec fn study_system_text(req: StudyRequest, overrides: Seq<Option<String>>) -> Seq<char> {
    match first_override(overrides) {
        Some(o) => o,
        None => builtin_text(req.mode, req.lens, req.depth, req.language),
    }
}

/// What a study returns for the provider's answer.
pub open spec fn study_result_of(x: StudyResult, req: StudyRequest, answer: Seq<char>) -> bool {
    &&& x.reference == req.reference
    &&& x.reference_label@ == req.reference_label@
    &&& x.mode == req.mode
    &&& x.lens == req.lens
    &&& x.depth == req.depth
    &&& x.language == req.language
    &&& x.passage_text@ == passage_text_of(req)
    &&& x.interpretation@ == answer
    &&& sections_view(x.sections@) == sections_of(answer)
    &&& strs(x.warnings@) == study_warnings(req, answer)
    &&& cites_view(x.citations@) == study_citations(req)
}

fn web_warning_string(n: usize, count: usize) -> (r: String)
    ensures
        r@ == web_warning(n, count as nat),
{
    let mut m = copy_str("Fonte web citada [W:");
    push_decimal(&mut m, n as u64);
    m.append("] fora do intervalo (há ");
    push_decimal(&mut m, count as u64);
    m.append(" fonte(s))");
    m
}

fn add_web_warnings(warnings: &mut Vec<String>, ns: &Vec<usize>, count: usize)
    ensures
        strs(final(warnings)@) == strs(old(warnings)@) + web_warnings(ns@, count as nat),
{
    let mut i: usize = 0;
    assert(ns@.take(0) =~= Seq::<usize>::empty());
    assert(strs(warnings@) =~= strs(old(warnings)@) + web_warnings(ns@.take(0), count as nat));
    while i < ns.len()
        invariant
            i <= ns@.len(),
            strs(warnings@) == strs(old(warnings)@) + web_warnings(ns@.take(i as int), count as nat),
        decreases ns@.len() - i,
    {
        let n = ns[i];
        assert(ns@.take(i + 1).drop_last() =~= ns@.take(i as int));
        assert(ns@.take(i + 1).last() == n);
        if n == 0 || n > count {
            let w = web_warning_string(n, count);
            let ghost w0 = warnings@;
            warnings.push(w);
            assert(strs(warnings@) =~= strs(w0).push(web_warning(n, count as nat)));
        }
        i = i + 1;
    }
    assert(ns@.take(ns@.len() as int) =~= ns@);
}

/// Runs a study: the system prompt (the first override file found, or the
/// built-in one), the user prompt and one call to the provider; the answer
/// is cut in sections and checked, and the citations come from the verified
/// data, never from the model.
pub fn study<P: LlmProvider>(provider: &P, req: &StudyRequest, overrides: &Vec<Option<String>>) -> (r: Result<
    StudyResult,
    AiError,
>)
    ensures
        match r {
            Ok(x) => provider.may_answer(
                study_system_text(*req, overrides@),
                seq![(ChatRole::User, study_user_text(*req, passage_text_of(*req)))],
                Ok(x.interpretation@),
            ) && study_result_of(x, *req, x.interpretation@) && (provider.reports_names() ==> x.provider@
                == provider.name_view() && x.model@ == provider.model_view()),
            Err(e) => provider.may_answer(
                study_system_text(*req, overrides@),
                seq![(ChatRole::User, study_user_text(*req, passage_text_of(*req)))],
                Err(e),
            ),
        },
{
    let passage_text = match req.passage {
        Some(p) => numbered_passage(p),
        None => String::new(),
    };
    let system = system_prompt_from(req.mode, req.lens, req.depth, req.language, overrides);
    let user = user_prompt(req, passage_text.as_str());
    let interpretation = match provider.complete(system.as_str(), user.as_str()) {
        Ok(a) => a,
        Err(e) => return Err(e),
    };
    let sections = split_sections(interpretation.as_str());
    let mut warnings: Vec<String> = if req.passage.is_some() && req.mode.wants_lexical() {
        verify(interpretation.as_str(), &req.verified_lexicon).warnings
    } else {
        Vec::new()
    };
    let ghost lex = strs(warnings@);
    if req.web_sources.len() > 0 {
        let ns = cited_web_indices(interpretation.as_str());
        add_web_warnings(&mut warnings, &ns, req.web_sources.len());
    } else {
        assert(strs(warnings@) =~= lex + Seq::<Seq<char>>::empty());
    }
    let citations = if req.mode.emits_apparatus() {
        let mut c = CitationCollector::new();
        c.from_verified_lexicon(&req.verified_lexicon);
        c.from_web_results(req.web_sources.as_slice());
        c.into_vec()
    } else {
        Vec::new()
    };
    proof {
        if req.mode != StudyMode::Academic {
            assert(cites_view(citations@) =~= Seq::<CiteView>::empty());
        }
    }
    Ok(StudyResult {
        reference: req.reference,
        reference_label: copy_str(req.reference_label.as_str()),
        mode: req.mode,
        lens: req.lens,
        depth: req.depth,
        language: req.language,
        passage_text,
        interpretation,
        sections,
        warnings,
        citations,
        provider: copy_str(provider.name()),
        model: copy_str(provider.model()),
    })
}

} // verus!
