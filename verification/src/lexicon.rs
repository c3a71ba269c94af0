//! Verified lexical data (original languages, Strong's numbers, glosses) of a
//! passage, and the anti-hallucination check of generated text against it.
use vstd::prelude::*;
use vstd::string::StringExecFns;

use crate::citation::{base_strong, base_strong_of, dedup, or_empty, ov};
use crate::model::Lang;
use crate::text::{
    ascii_alpha, ascii_digit, chars_of, copy_str, decimal, is_ascii_alpha, is_ascii_digit, join,
    join_strings, occurs_at, push_decimal, string_of,
};

verus! {

/// Sentinel when a passage has no lexical data: the prompt tells the model to
/// say so instead of inventing.
pub const EMPTY_SENTINEL: &'static str = "(nenhum dado léxico verificado disponível para esta passagem)";

/// A verified lexical entry, aggregated by base Strong's number.
#[derive(Debug, Clone, PartialEq, Eq)]
pub struct LexicalEntry {
    /// Base Strong's number (e.g. "H7225"), the citation key `[V:H7225]`.
    pub strongs: String,
    pub lemma: Option<String>,
    pub translit: Option<String>,
    pub gloss: Option<String>,
    /// Occurrences in the passage.
    pub occurrences: u32,
    /// "OT" (Hebrew) or "NT" (Greek).
    pub testament: String,
}

pub struct EntryView {
    pub strongs: Seq<char>,
    pub lemma: Option<Seq<char>>,
    pub translit: Option<Seq<char>>,
    pub gloss: Option<Seq<char>>,
    pub occurrences: u32,
    pub testament: Seq<char>,
}

pub open spec fn entry_view(e: LexicalEntry) -> EntryView {
    EntryView {
        strongs: e.strongs@,
        lemma: ov(e.lemma),
        translit: ov(e.translit),
        gloss: ov(e.gloss),
        occurrences: e.occurrences,
        testament: e.testament@,
    }
}

/// Verified lexical data of a passage and the attributions of its sources.
#[derive(Debug, Clone, Default, PartialEq, Eq)]
pub struct VerifiedLexicon {
    /// Entries by base Strong's number, most frequent first.
    pub entries: Vec<LexicalEntry>,
    /// Attributions of the sources used.
    pub sources: Vec<String>,
}

pub struct LexiconView {
    pub entries: Seq<EntryView>,
    pub sources: Seq<Seq<char>>,
}

impl VerifiedLexicon {
    pub open spec fn view(&self) -> LexiconView {
        LexiconView {
            entries: self.entries@.map_values(|e: LexicalEntry| entry_view(e)),
            sources: self.sources@.map_values(|s: String| s@),
        }
    }

    /// The first attribution, if any.
    pub open spec fn first_source(&self) -> Option<Seq<char>> {
        if self.sources@.len() > 0 {
            Some(self.sources@[0]@)
        } else {
            None
        }
    }

    /// The set of base Strong's numbers present.
    pub open spec fn strongs(&self) -> Set<Seq<char>> {
        self.view().entries.map_values(|e: EntryView| e.strongs).to_set()
    }

    /// `true` if there is no entry.
    pub fn is_empty(&self) -> (r: bool)
        ensures
            r == (self.entries.len() == 0),
    {
        self.entries.len() == 0
    }

    /// The Strong's numbers present, each once, in order of first appearance.
    pub fn strong_set(&self) -> (r: Vec<String>)
        ensures
            r@.map_values(|s: String| s@) == dedup(
                self.view().entries.map_values(|e: EntryView| e.strongs),
            ),
            r@.map_values(|s: String| s@).no_duplicates(),
            forall|k: Seq<char>| r@.map_values(|s: String| s@).contains(k) <==> self.strongs().contains(k),
    {
        let ghost ks = self.view().entries.map_values(|e: EntryView| e.strongs);
        let mut r: Vec<String> = Vec::new();
        let mut i: usize = 0;
        while i < self.entries.len()
            invariant
                i <= self.entries.len(),
                ks == self.view().entries.map_values(|e: EntryView| e.strongs),
                r@.map_values(|s: String| s@) == dedup(ks.take(i as int)),
            decreases self.entries.len() - i,
        {
            let ghost rv = r@.map_values(|s: String| s@);
            let k = self.entries[i].strongs.as_str();
            assert(ks.take((i + 1) as int).drop_last() =~= ks.take(i as int));
            assert(ks.take((i + 1) as int).last() == k@);
            let mut found = false;
            let mut j: usize = 0;
            while j < r.len()
                invariant
                    j <= r.len(),
                    rv == r@.map_values(|s: String| s@),
                    found == (exists|m: int| 0 <= m < j && rv[m] == k@),
                decreases r.len() - j,
            {
                assert(rv[j as int] == r@[j as int]@);
                if crate::text::str_eq(r[j].as_str(), k) {
                    found = true;
                }
                assert(found == (exists|m: int| 0 <= m < j + 1 && rv[m] == k@)) by {
                    if exists|m: int| 0 <= m < j + 1 && rv[m] == k@ {
                        let m = choose|m: int| 0 <= m < j + 1 && rv[m] == k@;
                        if m < j {
                            assert(exists|m2: int| 0 <= m2 < j && rv[m2] == k@);
                        }
                    }
                }
                j = j + 1;
            }
            if !found {
                r.push(copy_str(k));
                assert(r@.map_values(|s: String| s@) =~= rv.push(k@));
            }
            i = i + 1;
        }
        assert(ks.take(i as int) =~= ks);
        proof {
            lemma_dedup_distinct(ks);
            assert forall|k: Seq<char>| r@.map_values(|s: String| s@).contains(k) <==> self.strongs().contains(k) by {
                crate::citation::lemma_dedup_contains(ks, k);
                if ks.contains(k) {
                    let m = choose|m: int| 0 <= m < ks.len() && ks[m] == k;
                    assert(self.strongs().contains(ks[m]));
                }
            }
        }
        r
    }

    /// Whether base number `k` is present.
    pub fn has_strong(&self, k: &str) -> (r: bool)
        ensures
            r == self.strongs().contains(k@),
    {
        let ghost ks = self.view().entries.map_values(|e: EntryView| e.strongs);
        let mut i: usize = 0;
        while i < self.entries.len()
            invariant
                i <= self.entries.len(),
                ks == self.view().entries.map_values(|e: EntryView| e.strongs),
                forall|j: int| 0 <= j < i ==> ks[j] != k@,
            decreases self.entries.len() - i,
        {
            if crate::text::str_eq(self.entries[i].strongs.as_str(), k) {
                assert(ks[i as int] == k@);
                return true;
            }
            i = i + 1;
        }
        false
    }
}

/// One original-language word (interlinear), in reading order.
#[derive(Debug, Clone, PartialEq, Eq)]
pub struct InterlinearToken {
    pub surface: String,
    pub translit: Option<String>,
    pub lemma: Option<String>,
    pub strongs: Option<String>,
    pub morph_code: Option<String>,
    pub gloss: Option<String>,
    pub word_index: u32,
    pub testament: String,
}

/// Interlinear tokens of one verse, with the attributions of their sources.
#[derive(Debug, Clone, Default, PartialEq, Eq)]
pub struct InterlinearVerse {
    pub tokens: Vec<InterlinearToken>,
    pub sources: Vec<String>,
}

/// One line of the verified block.
pub open spec fn entry_line(e: EntryView) -> Seq<char> {
    let translit = match e.translit {
        Some(t) => " ("@ + t + ")"@,
        None => seq![],
    };
    let gloss = match e.gloss {
        Some(g) => g,
        None => "—"@,
    };
    "- [V:"@ + e.strongs + "] "@ + or_empty(e.lemma) + translit + " — \""@ + gloss + "\" [×"@
        + decimal(e.occurrences as nat) + "]\n"@
}

pub open spec fn entry_lines(es: Seq<EntryView>) -> Seq<char>
    decreases es.len(),
{
    if es.len() == 0 {
        seq![]
    } else {
        entry_lines(es.drop_last()) + entry_line(es.last())
    }
}

pub open spec fn block_header() -> Seq<char> {
    "DADOS LÉXICOS VERIFICADOS (acervo local — cite o Strong com a marca [V:NÚMERO], ex.: [V:H7225]; use SOMENTE estes números e sentidos; NÃO invente):\n"@
}

/// The verified-data block of the prompt; the sentinel when there is no entry.
pub open spec fn verified_block_text(l: LexiconView) -> Seq<char> {
    if l.entries.len() == 0 {
        EMPTY_SENTINEL@
    } else {
        block_header() + entry_lines(l.entries) + if l.sources.len() > 0 {
            "Fontes: "@ + join(l.sources, " · "@) + "\n"@
        } else {
            seq![]
        }
    }
}

fn entry_line_exec(e: &LexicalEntry) -> (r: String)
    ensures
        r@ == entry_line(entry_view(*e)),
{
    let mut out = copy_str("- [V:");
    out.append(e.strongs.as_str());
    out.append("] ");
    out.append(crate::citation::opt_text(&e.lemma));
    if let Some(t) = &e.translit {
        out.append(" (");
        out.append(t.as_str());
        out.append(")");
    }
    out.append(" — \"");
    match &e.gloss {
        Some(g) => out.append(g.as_str()),
        None => out.append("—"),
    }
    out.append("\" [×");
    push_decimal(&mut out, e.occurrences as u64);
    out.append("]\n");
    out
}

pub fn format_verified_block(vl: &VerifiedLexicon, _lang: Lang) -> (r: String)
    ensures
        r@ == verified_block_text(vl.view()),
{
    if vl.entries.len() == 0 {
        return copy_str(EMPTY_SENTINEL);
    }
    let ghost es = vl.view().entries;
    let mut out = copy_str(
        "DADOS LÉXICOS VERIFICADOS (acervo local — cite o Strong com a marca [V:NÚMERO], ex.: [V:H7225]; use SOMENTE estes números e sentidos; NÃO invente):\n",
    );
    let mut i: usize = 0;
    while i < vl.entries.len()
        invariant
            i <= vl.entries.len(),
            es == vl.view().entries,
            out@ == block_header() + entry_lines(es.take(i as int)),
        decreases vl.entries.len() - i,
    {
        let e = &vl.entries[i];
        let line = entry_line_exec(e);
        out.append(line.as_str());
        assert(es.take((i + 1) as int).drop_last() =~= es.take(i as int));
        assert(es[i as int] == entry_view(*e));
        i = i + 1;
    }
    assert(es.take(i as int) =~= es);
    if vl.sources.len() > 0 {
        out.append("Fontes: ");
        let j = join_strings(vl.sources.as_slice(), " · ");
        out.append(j.as_str());
        out.append("\n");
    }
    out
}

/// Result of checking a generated text.
#[derive(Debug, Clone, Default, PartialEq, Eq)]
pub struct VerifiedOutput {
    /// The text (unchanged under the default `flag` policy).
    pub text: String,
    /// Warnings: `[V:...]` anchors not backed by the passage data.
    pub warnings: Vec<String>,
}

/// End of the run of characters satisfying ASCII digit (`d`) or letter from `i`.
pub open spec fn digit_end(s: Seq<char>, i: int) -> int
    decreases s.len() - i,
{
    if i < 0 || i >= s.len() {
        i
    } else if ascii_digit(s[i]) {
        digit_end(s, i + 1)
    } else {
        i
    }
}

pub open spec fn alpha_end(s: Seq<char>, i: int) -> int
    decreases s.len() - i,
{
    if i < 0 || i >= s.len() {
        i
    } else if ascii_alpha(s[i]) {
        alpha_end(s, i + 1)
    } else {
        i
    }
}

/// A run of digits or of letters ends within the text, not before it starts.
pub proof fn lemma_runs(s: Seq<char>, i: int)
    requires
        0 <= i <= s.len(),
    ensures
        i <= digit_end(s, i) <= s.len(),
        i <= alpha_end(s, i) <= s.len(),
    decreases s.len() - i,
{
    if i < s.len() {
        lemma_runs(s, i + 1);
    }
}

/// The Strong's number cited by an anchor starting at `i`: `[V:`, then `H`/`G`,
/// at least one ASCII digit, optional ASCII letters, and `]`.
pub open spec fn anchored_strong(s: Seq<char>, i: int) -> Option<Seq<char>> {
    let j = i + 3;
    if occurs_at(s, seq!['[', 'V', ':'], i) && j < s.len() && (s[j] == 'H' || s[j] == 'G') {
        let d = digit_end(s, j + 1);
        let e = alpha_end(s, d);
        if d > j + 1 && e < s.len() && s[e] == ']' {
            Some(s.subrange(j, e))
        } else {
            None
        }
    } else {
        None
    }
}

/// The Strong's numbers cited as anchors in `s[..n]` positions, in order.
pub open spec fn cited_upto(s: Seq<char>, n: int) -> Seq<Seq<char>>
    decreases n,
{
    if n <= 0 {
        seq![]
    } else {
        let rest = cited_upto(s, n - 1);
        match anchored_strong(s, n - 1) {
            Some(t) => rest.push(t),
            None => rest,
        }
    }
}

pub open spec fn cited_strongs_spec(s: Seq<char>) -> Seq<Seq<char>> {
    cited_upto(s, s.len() as int)
}

fn anchored_at(v: &[char], i: usize) -> (r: Option<Vec<char>>)
    requires
        i < v.len(),
    ensures
        match r {
            Some(t) => anchored_strong(v@, i as int) == Some(t@),
            None => anchored_strong(v@, i as int) is None,
        },
{
    let open = chars_of("[V:");
    assert(open@ =~= seq!['[', 'V', ':']) by {
        reveal_strlit("[V:");
    }
    if !crate::text::match_at(v, open.as_slice(), i) {
        return None;
    }
    let j = i + 3;
    if !(j < v.len() && (v[j] == 'H' || v[j] == 'G')) {
        return None;
    }
    proof {
        lemma_runs(v@, j + 1);
    }
    let mut d = j + 1;
    while d < v.len() && is_ascii_digit(v[d])
        invariant
            j + 1 <= d <= v.len(),
            digit_end(v@, j + 1) == digit_end(v@, d as int),
        decreases v.len() - d,
    {
        d = d + 1;
    }
    proof {
        lemma_runs(v@, d as int);
    }
    let mut e = d;
    while e < v.len() && is_ascii_alpha(v[e])
        invariant
            d <= e <= v.len(),
            alpha_end(v@, d as int) == alpha_end(v@, e as int),
        decreases v.len() - e,
    {
        e = e + 1;
    }
    if d > j + 1 && e < v.len() && v[e] == ']' {
        Some(crate::text::slice_chars(v, j, e))
    } else {
        None
    }
}

/// Strong's numbers cited as anchors `[V:H1234]`/`[V:G1234]` (bare digits do not count).
pub fn cited_strongs(text: &str) -> (r: Vec<String>)
    ensures
        r@.map_values(|s: String| s@) == cited_strongs_spec(text@),
{
    let v = chars_of(text);
    let mut out: Vec<String> = Vec::new();
    let mut i: usize = 0;
    while i < v.len()
        invariant
            i <= v.len(),
            v@ == text@,
            out@.map_values(|s: String| s@) == cited_upto(v@, i as int),
        decreases v.len() - i,
    {
        let ghost before = out@.map_values(|s: String| s@);
        match anchored_at(v.as_slice(), i) {
            Some(t) => {
                out.push(string_of(t.as_slice()));
                assert(out@.map_values(|s: String| s@) =~= before.push(t@));
            },
            None => {},
        }
        i = i + 1;
    }
    out
}

pub open spec fn warning_text(cited: Seq<char>) -> Seq<char> {
    "Strong não verificado citado: [V:"@ + cited + "] — não consta do acervo da passagem"@
}

/// Warnings for cited numbers whose base is not in `allowed`, one per base
/// (at its first citation), with the bases already warned about.
pub open spec fn warn_state(cs: Seq<Seq<char>>, allowed: Set<Seq<char>>) -> (
    Seq<Seq<char>>,
    Seq<Seq<char>>,
)
    decreases cs.len(),
{
    if cs.len() == 0 {
        (seq![], seq![])
    } else {
        let (ws, seen) = warn_state(cs.drop_last(), allowed);
        let b = base_strong_of(cs.last());
        if !allowed.contains(b) && !seen.contains(b) {
            (ws.push(warning_text(cs.last())), seen.push(b))
        } else {
            (ws, seen)
        }
    }
}

pub open spec fn warnings_for(cs: Seq<Seq<char>>, allowed: Set<Seq<char>>) -> Seq<Seq<char>> {
    warn_state(cs, allowed).0
}

/// Checks a generated text against the passage's verified data: every cited
/// `[V:Strong]` whose base is not in the data gives one warning; the text is kept.
pub fn verify(text: &str, lexicon: &VerifiedLexicon) -> (r: VerifiedOutput)
    ensures
        r.text@ == text@,
        r.warnings@.map_values(|s: String| s@) == warnings_for(
            cited_strongs_spec(text@),
            lexicon.strongs(),
        ),
{
    let cited = cited_strongs(text);
    let ghost cs = cited@.map_values(|s: String| s@);
    let ghost allowed = lexicon.strongs();
    let mut warnings: Vec<String> = Vec::new();
    let mut seen: Vec<String> = Vec::new();
    let mut i: usize = 0;
    while i < cited.len()
        invariant
            i <= cited.len(),
            cs == cited@.map_values(|s: String| s@),
            cs == cited_strongs_spec(text@),
            allowed == lexicon.strongs(),
            warnings@.map_values(|s: String| s@) == warn_state(cs.take(i as int), allowed).0,
            seen@.map_values(|s: String| s@) == warn_state(cs.take(i as int), allowed).1,
        decreases cited.len() - i,
    {
        let base = base_strong(cited[i].as_str());
        assert(cs.take((i + 1) as int).drop_last() =~= cs.take(i as int));
        assert(cs.take((i + 1) as int).last() == cs[i as int]);
        let ghost before = warnings@.map_values(|s: String| s@);
        let ghost seen_before = seen@.map_values(|s: String| s@);
        if !lexicon.has_strong(base.as_str()) {
            let mut found = false;
            let mut j: usize = 0;
            while j < seen.len()
                invariant
                    j <= seen.len(),
                    seen_before == seen@.map_values(|s: String| s@),
                    found == exists|q: int| 0 <= q < j && seen_before[q] == base@,
                decreases seen.len() - j,
            {
                if crate::text::str_eq(seen[j].as_str(), base.as_str()) {
                    found = true;
                    assert(seen_before[j as int] == base@);
                }
                j = j + 1;
            }
            assert(found == seen_before.contains(base@));
            if !found {
                let mut w = copy_str("Strong não verificado citado: [V:");
                w.append(cited[i].as_str());
                w.append("] — não consta do acervo da passagem");
                warnings.push(w);
                assert(warnings@.map_values(|s: String| s@) =~= before.push(
                    warning_text(cs[i as int]),
                ));
                seen.push(base);
                assert(seen@.map_values(|s: String| s@) =~= seen_before.push(base@));
            }
        }
        i = i + 1;
    }
    assert(cs.take(cited.len() as int) =~= cs);
    VerifiedOutput { text: copy_str(text), warnings }
}

/// A sequence with later repetitions dropped holds each item once.
proof fn lemma_dedup_distinct(s: Seq<Seq<char>>)
    ensures
        dedup(s).no_duplicates(),
    decreases s.len(),
{
    if s.len() > 0 {
        let d = dedup(s.drop_last());
        lemma_dedup_distinct(s.drop_last());
        if !d.contains(s.last()) {
            let e = d.push(s.last());
            assert forall|i: int, j: int| 0 <= i < e.len() && 0 <= j < e.len() && i != j implies e[i] != e[j] by {
                if i == d.len() as int {
                    assert(d[j] == e[j]);
                } else if j == d.len() as int {
                    assert(d[i] == e[i]);
                }
            }
        }
    }
}

} // verus!
