//! Academic apparatus: the citation model, SBL footnotes and bibliography, and
//! the provenance footer that separates what is verifiable from what the model
//! generated.
//!
//! The model never produces a `Citation`: citations are built from verified
//! lexicon data. The model only emits anchors `[V:H7225]`, which are validated
//! and rewritten into footnote markers `[^H7225]` here.
use vstd::prelude::*;
use vstd::string::StringExecFns;

use crate::lexicon::{LexicalEntry, VerifiedLexicon};
use crate::model::Lang;
use crate::research::{source_view, sources_view, WebSource};
use crate::text::{ascii_alpha, ascii_digit, chars_of, copy_str, decimal, find_char, find_char_at, find_chars, find_from, is_ascii_alpha, is_ascii_digit, lemma_find_char, lemma_find_from, push_decimal, slice_chars, string_of, trim, trim_chars};

verus! {

/// Kind of a citation (where it appears and whether it is verifiable).
#[derive(Debug, Clone, Copy, PartialEq, Eq, Structural)]
pub enum CitationKind {
    /// Bible passage (cited in the text; out of the bibliography in SBL style).
    Scripture,
    /// Lexicon entry by Strong's number (becomes a footnote).
    Lexicon,
    /// Reference work (lexicon/dataset) — in the bibliography.
    Source,
    /// Secondary source retrieved from the web — note and bibliography.
    Web,
}

impl CitationKind {
    /// The citation points to a verifiable fact (database or real URL).
    pub fn is_verifiable(self) -> (r: bool)
        ensures
            r == (self == CitationKind::Scripture || self == CitationKind::Lexicon || self
                == CitationKind::Source),
    {
        match self {
            CitationKind::Scripture | CitationKind::Lexicon | CitationKind::Source => true,
            CitationKind::Web => false,
        }
    }

    /// The citation goes into the bibliography (SBL leaves Scripture out).
    pub fn in_bibliography(self) -> (r: bool)
        ensures
            r == (self == CitationKind::Source || self == CitationKind::Web),
    {
        match self {
            CitationKind::Source | CitationKind::Web => true,
            _ => false,
        }
    }
}

/// A structured citation.
#[derive(Debug, Clone, PartialEq, Eq)]
pub struct Citation {
    pub kind: CitationKind,
    /// Stable key, identical to the anchor the model cites (e.g. "H7225").
    pub key: String,
    pub author: Option<String>,
    pub title: Option<String>,
    pub locus: Option<String>,
    pub publisher: Option<String>,
    pub year: Option<String>,
    pub url: Option<String>,
    /// License label for display (e.g. "CC BY 4.0").
    pub license: Option<String>,
    /// Verbatim attribution required by the source.
    pub attribution: Option<String>,
    /// Access date (web sources).
    pub accessed: Option<String>,
}

pub open spec fn ov(o: Option<String>) -> Option<Seq<char>> {
    match o {
        Some(s) => Some(s@),
        None => None,
    }
}

/// The text of an optional field, empty when absent.
pub open spec fn or_empty(o: Option<Seq<char>>) -> Seq<char> {
    match o {
        Some(s) => s,
        None => seq![],
    }
}

pub fn opt_text(o: &Option<String>) -> (r: &str)
    ensures
        r@ == or_empty(ov(*o)),
{
    match o {
        Some(s) => s.as_str(),
        None => {
            proof {
                reveal_strlit("");
            }
            ""
        },
    }
}

pub fn copy_opt(o: &Option<String>) -> (r: Option<String>)
    ensures
        ov(r) == ov(*o),
{
    match o {
        Some(s) => Some(copy_str(s.as_str())),
        None => None,
    }
}

impl Citation {
    /// A citation with only a kind and a key.
    pub fn empty(kind: CitationKind, key: &str) -> (r: Citation)
        ensures
            r.kind == kind,
            r.key@ == key@,
            r.author is None && r.title is None && r.locus is None && r.publisher is None
                && r.year is None && r.url is None && r.license is None && r.attribution is None
                && r.accessed is None,
    {
        Citation {
            kind,
            key: copy_str(key),
            author: None,
            title: None,
            locus: None,
            publisher: None,
            year: None,
            url: None,
            license: None,
            attribution: None,
            accessed: None,
        }
    }

    /// A field-by-field copy.
    pub fn duplicate(&self) -> (r: Citation)
        ensures
            cite_view(r) == cite_view(*self),
    {
        Citation {
            kind: self.kind,
            key: copy_str(self.key.as_str()),
            author: copy_opt(&self.author),
            title: copy_opt(&self.title),
            locus: copy_opt(&self.locus),
            publisher: copy_opt(&self.publisher),
            year: copy_opt(&self.year),
            url: copy_opt(&self.url),
            license: copy_opt(&self.license),
            attribution: copy_opt(&self.attribution),
            accessed: copy_opt(&self.accessed),
        }
    }
}

/// Abstract citation.
pub struct CiteView {
    pub kind: CitationKind,
    pub key: Seq<char>,
    pub author: Option<Seq<char>>,
    pub title: Option<Seq<char>>,
    pub locus: Option<Seq<char>>,
    pub publisher: Option<Seq<char>>,
    pub year: Option<Seq<char>>,
    pub url: Option<Seq<char>>,
    pub license: Option<Seq<char>>,
    pub attribution: Option<Seq<char>>,
    pub accessed: Option<Seq<char>>,
}

pub open spec fn cite_view(c: Citation) -> CiteView {
    CiteView {
        kind: c.kind,
        key: c.key@,
        author: ov(c.author),
        title: ov(c.title),
        locus: ov(c.locus),
        publisher: ov(c.publisher),
        year: ov(c.year),
        url: ov(c.url),
        license: ov(c.license),
        attribution: ov(c.attribution),
        accessed: ov(c.accessed),
    }
}

pub open spec fn cites_view(cs: Seq<Citation>) -> Seq<CiteView> {
    cs.map_values(|c: Citation| cite_view(c))
}

pub open spec fn hebrew_title() -> Seq<char> {
    "Translators Brief lexicon of Extended Strongs for Hebrew (TBESH)"@
}

pub open spec fn greek_title() -> Seq<char> {
    "Translators Brief lexicon of Extended Strongs for Greek (TBESG)"@
}

/// Reference work of a testament's lexicon (STEP brief lexicons).
pub open spec fn lexicon_title_text(testament: Seq<char>) -> Seq<char> {
    if testament == "NT"@ {
        greek_title()
    } else {
        hebrew_title()
    }
}

pub fn lexicon_title(testament: &str) -> (r: &'static str)
    ensures
        r@ == lexicon_title_text(testament@),
{
    if crate::text::str_eq(testament, "NT") {
        "Translators Brief lexicon of Extended Strongs for Greek (TBESG)"
    } else {
        "Translators Brief lexicon of Extended Strongs for Hebrew (TBESH)"
    }
}

/// Collector of citations: one per key, in insertion order.
pub struct CitationCollector {
    items: Vec<Citation>,
}

pub open spec fn keys_unique(cs: Seq<CiteView>) -> bool {
    forall|i: int, j: int| 0 <= i < j < cs.len() ==> cs[i].key != cs[j].key
}

pub open spec fn has_key(cs: Seq<CiteView>, k: Seq<char>) -> bool {
    exists|i: int| 0 <= i < cs.len() && cs[i].key == k
}

/// Adding one citation: kept only if its key is new.
pub open spec fn add_cite(cs: Seq<CiteView>, c: CiteView) -> Seq<CiteView> {
    if has_key(cs, c.key) {
        cs
    } else {
        cs.push(c)
    }
}

/// The citations derived from one lexicon entry: its footnote, then the
/// reference work it comes from.
pub open spec fn entry_cites(e: crate::lexicon::EntryView, attribution: Option<Seq<char>>) -> (
    CiteView,
    CiteView,
) {
    let title = lexicon_title_text(e.testament);
    let lemma = or_empty(e.lemma);
    let note = CiteView {
        kind: CitationKind::Lexicon,
        key: e.strongs,
        author: Some("STEP Bible"@),
        title: Some(title),
        locus: Some(
            if lemma.len() == 0 {
                e.strongs
            } else {
                lemma + " ("@ + e.strongs + ")"@
            },
        ),
        publisher: None,
        year: None,
        url: None,
        license: Some("CC BY 4.0"@),
        attribution,
        accessed: None,
    };
    let src = CiteView {
        kind: CitationKind::Source,
        key: "src:"@ + title,
        author: Some("STEP Bible"@),
        title: Some(title),
        locus: None,
        publisher: Some("Tyndale House, Cambridge"@),
        year: None,
        url: None,
        license: Some("CC BY 4.0"@),
        attribution,
        accessed: None,
    };
    (note, src)
}

pub open spec fn add_entries(
    cs: Seq<CiteView>,
    es: Seq<crate::lexicon::EntryView>,
    attribution: Option<Seq<char>>,
) -> Seq<CiteView>
    decreases es.len(),
{
    if es.len() == 0 {
        cs
    } else {
        let before = add_entries(cs, es.drop_last(), attribution);
        let (note, src) = entry_cites(es.last(), attribution);
        add_cite(add_cite(before, note), src)
    }
}

/// The citation of the web source `w` (its fields as `sources_view` gives
/// them), the `i`-th of the request (from 0): cited as `[W:i+1]`, with its
/// excerpt as the note's quoted text and its site as publisher.
pub open spec fn web_cite(w: (Seq<char>, Seq<char>, Seq<char>, Seq<char>, i64), i: nat) -> CiteView {
    CiteView {
        kind: CitationKind::Web,
        key: web_key(decimal(i + 1)),
        author: None,
        title: Some(w.0),
        locus: Some(w.2),
        publisher: Some(w.3),
        year: None,
        url: Some(w.1),
        license: None,
        attribution: None,
        accessed: None,
    }
}

/// The citations of the web sources `ws`, added in order.
pub open spec fn add_webs(cs: Seq<CiteView>, ws: Seq<(Seq<char>, Seq<char>, Seq<char>, Seq<char>, i64)>) -> Seq<CiteView>
    decreases ws.len(),
{
    if ws.len() == 0 {
        cs
    } else {
        add_cite(add_webs(cs, ws.drop_last()), web_cite(ws.last(), (ws.len() - 1) as nat))
    }
}

impl CitationCollector {
    pub closed spec fn view(&self) -> Seq<CiteView> {
        cites_view(self.items@)
    }

    pub open spec fn wf(&self) -> bool {
        keys_unique(self.view())
    }

    /// Empty collector.
    pub fn new() -> (r: CitationCollector)
        ensures
            r.view() == Seq::<CiteView>::empty(),
            r.wf(),
    {
        let r = CitationCollector { items: Vec::new() };
        assert(r.view() =~= Seq::<CiteView>::empty());
        r
    }

    /// Adds a citation unless its key is already present.
    pub fn push(&mut self, c: Citation)
        requires
            old(self).wf(),
        ensures
            final(self).wf(),
            final(self).view() == add_cite(old(self).view(), cite_view(c)),
    {
        let ghost v = self.view();
        let mut i: usize = 0;
        while i < self.items.len()
            invariant
                i <= self.items.len(),
                v == cites_view(self.items@),
                v == old(self).view(),
                keys_unique(v),
                forall|j: int| 0 <= j < i ==> v[j].key != c.key@,
            decreases self.items.len() - i,
        {
            if crate::text::str_eq(self.items[i].key.as_str(), c.key.as_str()) {
                assert(has_key(v, c.key@)) by {
                    assert(v[i as int].key == c.key@);
                }
                assert(add_cite(v, cite_view(c)) == v);
                return;
            }
            i = i + 1;
        }
        assert(!has_key(v, c.key@));
        self.items.push(c);
        assert(self.view() =~= v.push(cite_view(c)));
    }

    /// Adds the citations derived from a verified lexicon: one note per Strong
    /// number and the reference works used (bibliography).
    pub fn from_verified_lexicon(&mut self, vl: &VerifiedLexicon)
        requires
            old(self).wf(),
        ensures
            final(self).wf(),
            final(self).view() == add_entries(
                old(self).view(),
                vl.view().entries,
                vl.first_source(),
            ),
    {
        let attribution: Option<String> = if vl.sources.len() > 0 {
            Some(copy_str(vl.sources[0].as_str()))
        } else {
            None
        };
        let ghost start = self.view();
        let ghost es = vl.view().entries;
        let mut i: usize = 0;
        while i < vl.entries.len()
            invariant
                i <= vl.entries.len(),
                self.wf(),
                es == vl.view().entries,
                ov(attribution) == vl.first_source(),
                self.view() == add_entries(start, es.take(i as int), vl.first_source()),
            decreases vl.entries.len() - i,
        {
            let e = &vl.entries[i];
            assert(es[i as int] == crate::lexicon::entry_view(*e));
            let ghost prev = self.view();
            self.add_entry(e, &attribution);
            proof {
                let a = vl.first_source();
                assert(es.take((i + 1) as int).drop_last() =~= es.take(i as int));
                assert(es.take((i + 1) as int).last() == es[i as int]);
                let (n1, s1) = entry_cites(es[i as int], a);
                assert(add_entries(start, es.take((i + 1) as int), a) == add_cite(
                    add_cite(add_entries(start, es.take(i as int), a), n1),
                    s1,
                ));
            }
            assert(es.take((i + 1) as int).drop_last() =~= es.take(i as int));
            i = i + 1;
        }
        assert(es.take(vl.entries.len() as int) =~= es);
    }

    fn add_entry(&mut self, e: &LexicalEntry, attribution: &Option<String>)
        requires
            old(self).wf(),
        ensures
            final(self).wf(),
            final(self).view() == add_cite(
                add_cite(old(self).view(), entry_cites(crate::lexicon::entry_view(*e), ov(*attribution)).0),
                entry_cites(crate::lexicon::entry_view(*e), ov(*attribution)).1,
            ),
    {
        let ghost (note, src_v) = entry_cites(crate::lexicon::entry_view(*e), ov(*attribution));
        let title = lexicon_title(e.testament.as_str());
        let lemma = opt_text(&e.lemma);
        let mut c = Citation::empty(CitationKind::Lexicon, e.strongs.as_str());
        c.author = Some(copy_str("STEP Bible"));
        c.title = Some(copy_str(title));
        let locus = if lemma.is_empty() {
            copy_str(e.strongs.as_str())
        } else {
            let mut l = copy_str(lemma);
            l.append(" (");
            l.append(e.strongs.as_str());
            l.append(")");
            l
        };
        c.locus = Some(locus);
        c.license = Some(copy_str("CC BY 4.0"));
        c.attribution = copy_opt(attribution);
        assert(cite_view(c) == note);
        self.push(c);
        let mut src = Citation::empty(CitationKind::Source, "src:");
        let mut key = copy_str("src:");
        key.append(title);
        src.key = key;
        src.author = Some(copy_str("STEP Bible"));
        src.title = Some(copy_str(title));
        src.publisher = Some(copy_str("Tyndale House, Cambridge"));
        src.license = Some(copy_str("CC BY 4.0"));
        src.attribution = copy_opt(attribution);
        assert(cite_view(src) == src_v);
        self.push(src);
    }

    /// Adds one citation per retrieved web source (note and bibliography),
    /// keyed `W1`, `W2`, … as the anchors `[W:1]`, `[W:2]`, … cite them.
    pub fn from_web_results(&mut self, ws: &[WebSource])
        requires
            old(self).wf(),
        ensures
            final(self).wf(),
            final(self).view() == add_webs(old(self).view(), sources_view(ws@)),
    {
        let ghost start = self.view();
        let ghost wv = sources_view(ws@);
        let mut i: usize = 0;
        while i < ws.len()
            invariant
                i <= ws@.len(),
                self.wf(),
                wv == sources_view(ws@),
                self.view() == add_webs(start, wv.take(i as int)),
            decreases ws@.len() - i,
        {
            let w = &ws[i];
            let mut key = String::new();
            crate::text::push_char(&mut key, 'W');
            push_decimal(&mut key, (i + 1) as u64);
            let mut c = Citation::empty(CitationKind::Web, key.as_str());
            c.title = Some(copy_str(w.title.as_str()));
            c.locus = Some(copy_str(w.snippet.as_str()));
            c.publisher = Some(copy_str(w.site.as_str()));
            c.url = Some(copy_str(w.url.as_str()));
            proof {
                assert(key@ =~= web_key(decimal((i + 1) as nat)));
                assert(wv[i as int] == source_view(*w));
                assert(cite_view(c) == web_cite(wv[i as int], i as nat));
                assert(wv.take((i + 1) as int).drop_last() =~= wv.take(i as int));
                assert(wv.take((i + 1) as int).last() == wv[i as int]);
            }
            self.push(c);
            i = i + 1;
        }
        assert(wv.take(ws@.len() as int) =~= wv);
    }

    /// The citations, in insertion order.
    pub fn into_vec(self) -> (r: Vec<Citation>)
        ensures
            cites_view(r@) == self.view(),
            keys_unique(cites_view(r@)) == self.wf(),
    {
        self.items
    }
}

// ---------------------------------------------------------------------------
// Anchors.
// ---------------------------------------------------------------------------
/// Length of the run of trailing ASCII letters of `s` (from `hi` down).
pub open spec fn trailing_alpha_start(s: Seq<char>, hi: int) -> int
    decreases hi,
{
    if hi <= 0 {
        0
    } else if ascii_alpha(s[hi - 1]) {
        trailing_alpha_start(s, hi - 1)
    } else {
        hi
    }
}

/// Base Strong's number: trimmed, trailing ASCII letters removed ("H7225G" → "H7225").
pub open spec fn base_strong_of(s: Seq<char>) -> Seq<char> {
    let t = trim(s);
    t.subrange(0, trailing_alpha_start(t, t.len() as int))
}

pub proof fn lemma_trailing_alpha(s: Seq<char>, hi: int)
    requires
        0 <= hi <= s.len(),
    ensures
        0 <= trailing_alpha_start(s, hi) <= hi,
    decreases hi,
{
    if hi > 0 && ascii_alpha(s[hi - 1]) {
        lemma_trailing_alpha(s, hi - 1);
    }
}

pub fn base_strong(s: &str) -> (r: String)
    ensures
        r@ == base_strong_of(s@),
{
    let t = trim_chars(chars_of(s).as_slice());
    let mut k = t.len();
    while k > 0 && is_ascii_alpha(t[k - 1])
        invariant
            k <= t.len(),
            trailing_alpha_start(t@, t@.len() as int) == trailing_alpha_start(t@, k as int),
        decreases k,
    {
        k = k - 1;
    }
    string_of(slice_chars(t.as_slice(), 0, k).as_slice())
}

/// Shape of a Strong's number: `H` or `G`, then ASCII digits and letters, with
/// at least one digit.
pub open spec fn strong_shape(t: Seq<char>) -> bool {
    &&& t.len() > 0
    &&& (t[0] == 'H' || t[0] == 'G')
    &&& forall|i: int| 1 <= i < t.len() ==> ascii_digit(t[i]) || ascii_alpha(t[i])
    &&& exists|i: int| 1 <= i < t.len() && ascii_digit(t[i])
}

pub fn is_strong(tok: &str) -> (r: bool)
    ensures
        r == strong_shape(tok@),
{
    let t = chars_of(tok);
    if t.len() == 0 || !(t[0] == 'H' || t[0] == 'G') {
        assert(!strong_shape(t@));
        return false;
    }
    let mut saw_digit = false;
    let mut i: usize = 1;
    while i < t.len()
        invariant
            1 <= i <= t.len(),
            t@ == tok@,
            t@[0] == 'H' || t@[0] == 'G',
            forall|j: int| 1 <= j < i ==> ascii_digit(t@[j]) || ascii_alpha(t@[j]),
            saw_digit == exists|j: int| 1 <= j < i && ascii_digit(t@[j]),
        decreases t.len() - i,
    {
        if is_ascii_digit(t[i]) {
            saw_digit = true;
        } else if !is_ascii_alpha(t[i]) {
            assert(!(ascii_digit(t@[i as int]) || ascii_alpha(t@[i as int])));
            assert(!(forall|j: int| 1 <= j < t@.len() ==> ascii_digit(t@[j]) || ascii_alpha(t@[j])));
            assert(!strong_shape(t@));
            return false;
        }
        i = i + 1;
    }
    saw_digit
}

pub open spec fn anchor_open() -> Seq<char> {
    seq!['[', 'V', ':']
}

/// Anchors `[V:Strong]` rewritten into footnote markers `[^Strong]` when the
/// base number is in `valid`; well-formed anchors that are not valid are
/// removed; a `[V:` that does not open a well-formed anchor is kept.
pub open spec fn rewrite_spec(s: Seq<char>, valid: Set<Seq<char>>) -> Seq<char>
    decreases s.len(),
{
    let pos = find_from(s, anchor_open(), 0);
    if pos > s.len() || pos < 0 || pos + 3 > s.len() {
        s
    } else {
        let after = s.subrange(pos + 3, s.len() as int);
        let close = find_char(after, ']', 0);
        if close < after.len() && 0 <= close && strong_shape(after.subrange(0, close)) {
            let base = base_strong_of(after.subrange(0, close));
            s.subrange(0, pos) + (if valid.contains(base) {
                seq!['[', '^'] + base + seq![']']
            } else {
                seq![]
            }) + rewrite_spec(after.subrange(close + 1, after.len() as int), valid)
        } else {
            s.subrange(0, pos) + anchor_open() + rewrite_spec(after, valid)
        }
    }
}

pub open spec fn key_set(valid: Seq<String>) -> Set<Seq<char>> {
    valid.map_values(|k: String| k@).to_set()
}

fn contains_key(valid: &Vec<String>, k: &str) -> (r: bool)
    ensures
        r == key_set(valid@).contains(k@),
{
    let mut i: usize = 0;
    while i < valid.len()
        invariant
            i <= valid.len(),
            forall|j: int| 0 <= j < i ==> valid@[j]@ != k@,
        decreases valid.len() - i,
    {
        if crate::text::str_eq(valid[i].as_str(), k) {
            assert(valid@.map_values(|k: String| k@)[i as int] == k@);
            return true;
        }
        i = i + 1;
    }
    let ghost vm = valid@.map_values(|k: String| k@);
    assert(!key_set(valid@).contains(k@)) by {
        if vm.to_set().contains(k@) {
            let j = choose|j: int| 0 <= j < vm.len() && vm[j] == k@;
            assert(valid@[j]@ == k@);
        }
    }
    false
}

/// Rewrites anchors `[V:Strong]` into `[^Strong]` when the key is in `valid`,
/// removes invalid ones; deterministic, never trusts the model to place a note.
pub fn rewrite_anchors(text: &str, valid: &Vec<String>) -> (r: String)
    ensures
        r@ == rewrite_spec(text@, key_set(valid@)),
{
    let ghost vs = key_set(valid@);
    let mut out = String::new();
    let mut rest = chars_of(text);
    let open = chars_of("[V:");
    assert(open@ =~= anchor_open()) by {
        reveal_strlit("[V:");
    }
    while rest.len() > 0
        invariant
            vs == key_set(valid@),
            open@ == anchor_open(),
            "[V:"@ == anchor_open(),
            out@ + rewrite_spec(rest@, vs) == rewrite_spec(text@, vs),
        decreases rest.len(),
    {
        proof {
            lemma_find_from(rest@, anchor_open(), 0);
        }
        let pos = match find_chars(rest.as_slice(), open.as_slice(), 0) {
            Some(p) => p,
            None => {
                assert(rewrite_spec(rest@, vs) == rest@);
                let tail = string_of(rest.as_slice());
                out.append(tail.as_str());
                return out;
            },
        };
        let ghost r0 = rest@;
        let ghost o0 = out@;
        let n = rest.len();
        let head = slice_chars(rest.as_slice(), 0, pos);
        crate::text::push_chars(&mut out, head.as_slice());
        let after = slice_chars(rest.as_slice(), pos + 3, n);
        proof {
            lemma_find_char(after@, ']', 0);
        }
        let close = find_char_at(after.as_slice(), ']', 0);
        assert(head@ == r0.subrange(0, pos as int));
        assert(after@ == r0.subrange(pos + 3, r0.len() as int));
        assert(pos + 3 <= r0.len());
        if close < after.len() {
            let tokv = slice_chars(after.as_slice(), 0, close);
            let tok = string_of(tokv.as_slice());
            if is_strong(tok.as_str()) {
                let base = base_strong(tok.as_str());
                let ghost o1 = out@;
                if contains_key(valid, base.as_str()) {
                    out.append("[^");
                    out.append(base.as_str());
                    crate::text::push_char(&mut out, ']');
                    assert(seq!['[', '^'] =~= "[^"@) by {
                        reveal_strlit("[^");
                    }
                }
                rest = slice_chars(after.as_slice(), close + 1, after.len());
                let ghost x = if vs.contains(base@) {
                    seq!['[', '^'] + base@ + seq![']']
                } else {
                    seq![]
                };
                assert(rewrite_spec(r0, vs) == head@ + x + rewrite_spec(rest@, vs));
                assert(out@ =~= o0 + head@ + x);
                assert(out@ + rewrite_spec(rest@, vs) =~= o0 + rewrite_spec(r0, vs));
                continue;
            }
        }
        out.append("[V:");
        assert(rewrite_spec(r0, vs) == head@ + anchor_open() + rewrite_spec(after@, vs));
        assert(out@ + rewrite_spec(after@, vs) =~= o0 + rewrite_spec(r0, vs));
        rest = after;
    }
    assert(rewrite_spec(rest@, vs) == rest@) by {
        assert(find_from(rest@, anchor_open(), 1) == 1);
    }
    assert(out@ =~= out@ + rest@);
    out
}

pub open spec fn web_anchor_open() -> Seq<char> {
    seq!['[', 'W', ':']
}

/// A web anchor's index: one or more ASCII digits.
pub open spec fn web_index_shape(t: Seq<char>) -> bool {
    t.len() > 0 && forall|i: int| 0 <= i < t.len() ==> ascii_digit(t[i])
}

/// The key of the web source an anchor `[W:n]` names (and the label of its
/// footnote marker): `W` and the index.
pub open spec fn web_key(n: Seq<char>) -> Seq<char> {
    seq!['W'] + n
}

/// Anchors `[W:n]` rewritten into footnote markers `[^Wn]` when the source
/// `Wn` is in `valid`; well-formed anchors naming no such source (fabricated
/// or out of range) are removed; a `[W:` that does not open a well-formed
/// anchor is kept.
pub open spec fn rewrite_web_spec(s: Seq<char>, valid: Set<Seq<char>>) -> Seq<char>
    decreases s.len(),
{
    let pos = find_from(s, web_anchor_open(), 0);
    if pos > s.len() || pos < 0 || pos + 3 > s.len() {
        s
    } else {
        let after = s.subrange(pos + 3, s.len() as int);
        let close = find_char(after, ']', 0);
        if close < after.len() && 0 <= close && web_index_shape(after.subrange(0, close)) {
            let key = web_key(after.subrange(0, close));
            s.subrange(0, pos) + (if valid.contains(key) {
                seq!['[', '^'] + key + seq![']']
            } else {
                seq![]
            }) + rewrite_web_spec(after.subrange(close + 1, after.len() as int), valid)
        } else {
            s.subrange(0, pos) + web_anchor_open() + rewrite_web_spec(after, valid)
        }
    }
}

/// Every anchor of a generated text rewritten: lexicon anchors first, then
/// web anchors.
pub open spec fn rewrite_all_spec(s: Seq<char>, valid: Set<Seq<char>>) -> Seq<char> {
    rewrite_web_spec(rewrite_spec(s, valid), valid)
}

fn is_web_index(t: &[char]) -> (r: bool)
    ensures
        r == web_index_shape(t@),
{
    if t.len() == 0 {
        return false;
    }
    let mut i: usize = 0;
    while i < t.len()
        invariant
            i <= t.len(),
            forall|j: int| 0 <= j < i ==> ascii_digit(t@[j]),
        decreases t.len() - i,
    {
        if !is_ascii_digit(t[i]) {
            return false;
        }
        i = i + 1;
    }
    true
}

/// Rewrites anchors `[W:n]` into `[^Wn]` when the source `Wn` is in `valid`,
/// removes the well-formed ones that name no source.
pub fn rewrite_web_anchors(text: &str, valid: &Vec<String>) -> (r: String)
    ensures
        r@ == rewrite_web_spec(text@, key_set(valid@)),
{
    let ghost vs = key_set(valid@);
    let mut out = String::new();
    let mut rest = chars_of(text);
    let open = chars_of("[W:");
    assert(open@ =~= web_anchor_open()) by {
        reveal_strlit("[W:");
    }
    while rest.len() > 0
        invariant
            vs == key_set(valid@),
            open@ == web_anchor_open(),
            "[W:"@ == web_anchor_open(),
            out@ + rewrite_web_spec(rest@, vs) == rewrite_web_spec(text@, vs),
        decreases rest.len(),
    {
        proof {
            lemma_find_from(rest@, web_anchor_open(), 0);
        }
        let pos = match find_chars(rest.as_slice(), open.as_slice(), 0) {
            Some(p) => p,
            None => {
                assert(rewrite_web_spec(rest@, vs) == rest@);
                let tail = string_of(rest.as_slice());
                out.append(tail.as_str());
                return out;
            },
        };
        let ghost r0 = rest@;
        let ghost o0 = out@;
        let n = rest.len();
        let head = slice_chars(rest.as_slice(), 0, pos);
        crate::text::push_chars(&mut out, head.as_slice());
        let after = slice_chars(rest.as_slice(), pos + 3, n);
        proof {
            lemma_find_char(after@, ']', 0);
        }
        let close = find_char_at(after.as_slice(), ']', 0);
        assert(head@ == r0.subrange(0, pos as int));
        assert(after@ == r0.subrange(pos + 3, r0.len() as int));
        if close < after.len() {
            let tokv = slice_chars(after.as_slice(), 0, close);
            if is_web_index(tokv.as_slice()) {
                let mut key = String::new();
                crate::text::push_char(&mut key, 'W');
                crate::text::push_chars(&mut key, tokv.as_slice());
                assert(key@ =~= web_key(tokv@));
                if contains_key(valid, key.as_str()) {
                    out.append("[^");
                    out.append(key.as_str());
                    crate::text::push_char(&mut out, ']');
                    assert(seq!['[', '^'] =~= "[^"@) by {
                        reveal_strlit("[^");
                    }
                }
                rest = slice_chars(after.as_slice(), close + 1, after.len());
                let ghost x = if vs.contains(key@) {
                    seq!['[', '^'] + key@ + seq![']']
                } else {
                    seq![]
                };
                assert(rewrite_web_spec(r0, vs) == head@ + x + rewrite_web_spec(rest@, vs));
                assert(out@ =~= o0 + head@ + x);
                assert(out@ + rewrite_web_spec(rest@, vs) =~= o0 + rewrite_web_spec(r0, vs));
                continue;
            }
        }
        out.append("[W:");
        assert(rewrite_web_spec(r0, vs) == head@ + web_anchor_open() + rewrite_web_spec(after@, vs));
        assert(out@ + rewrite_web_spec(after@, vs) =~= o0 + rewrite_web_spec(r0, vs));
        rest = after;
    }
    assert(rewrite_web_spec(rest@, vs) == rest@) by {
        assert(find_from(rest@, web_anchor_open(), 1) == 1);
    }
    assert(out@ =~= out@ + rest@);
    out
}

/// Rewrites every anchor of a generated text (lexicon, then web).
pub fn rewrite_all_anchors(text: &str, valid: &Vec<String>) -> (r: String)
    ensures
        r@ == rewrite_all_spec(text@, key_set(valid@)),
{
    let v = rewrite_anchors(text, valid);
    rewrite_web_anchors(v.as_str(), valid)
}

// ---------------------------------------------------------------------------
// SBL rendering.
// ---------------------------------------------------------------------------
/// SBL-style footnote text of a citation.
pub open spec fn footnote_text(c: CiteView) -> Seq<char> {
    match c.kind {
        CitationKind::Lexicon | CitationKind::Source => {
            let head = or_empty(c.author) + ", *"@ + or_empty(c.title) + "*"@;
            let l = match c.locus {
                Some(l) => ", s.v. “"@ + l + "”"@,
                None => seq![],
            };
            head + l + "."@
        },
        CitationKind::Web => {
            let author = or_empty(c.author);
            let head = if author.len() == 0 {
                "“"@ + or_empty(c.title) + "”"@
            } else {
                author + ", “"@ + or_empty(c.title) + "”"@
            };
            let u = match c.url {
                Some(u) => ", "@ + u,
                None => seq![],
            };
            let a = match c.accessed {
                Some(a) => " (acesso em "@ + a + ")"@,
                None => seq![],
            };
            let x = match c.locus {
                Some(l) => " “"@ + l + "”"@,
                None => seq![],
            };
            head + u + a + "."@ + x
        },
        CitationKind::Scripture => c.key,
    }
}

/// Footnote in SBL style for a citation.
pub fn sbl_footnote(c: &Citation, _lang: Lang) -> (r: String)
    ensures
        r@ == footnote_text(cite_view(*c)),
{
    match c.kind {
        CitationKind::Lexicon | CitationKind::Source => {
            let mut s = copy_str(opt_text(&c.author));
            s.append(", *");
            s.append(opt_text(&c.title));
            s.append("*");
            if let Some(locus) = &c.locus {
                s.append(", s.v. “");
                s.append(locus.as_str());
                s.append("”");
            }
            s.append(".");
            s
        },
        CitationKind::Web => {
            let author = opt_text(&c.author);
            let mut s = if author.is_empty() {
                let mut s = copy_str("“");
                s.append(opt_text(&c.title));
                s.append("”");
                s
            } else {
                let mut s = copy_str(author);
                s.append(", “");
                s.append(opt_text(&c.title));
                s.append("”");
                s
            };
            if let Some(url) = &c.url {
                s.append(", ");
                s.append(url.as_str());
            }
            if let Some(acc) = &c.accessed {
                s.append(" (acesso em ");
                s.append(acc.as_str());
                s.append(")");
            }
            s.append(".");
            if let Some(excerpt) = &c.locus {
                s.append(" “");
                s.append(excerpt.as_str());
                s.append("”");
            }
            s
        },
        CitationKind::Scripture => copy_str(c.key.as_str()),
    }
}

/// SBL bibliography entry (author inverted) of a citation.
pub open spec fn bibliography_text(c: CiteView) -> Seq<char> {
    let author = or_empty(c.author);
    let head = if author.len() == 0 {
        "*"@ + or_empty(c.title) + "*."@
    } else {
        author + ". *"@ + or_empty(c.title) + "*."@
    };
    let p = match c.publisher {
        Some(x) => " "@ + x + "."@,
        None => seq![],
    };
    let y = match c.year {
        Some(x) => " "@ + x + "."@,
        None => seq![],
    };
    let u = match c.url {
        Some(x) => " "@ + x + "."@,
        None => seq![],
    };
    let l = match c.license {
        Some(x) => " "@ + x + "."@,
        None => seq![],
    };
    head + p + y + u + l
}

fn append_field(s: &mut String, o: &Option<String>)
    ensures
        final(s)@ == old(s)@ + (match ov(*o) {
            Some(x) => " "@ + x + "."@,
            None => seq![],
        }),
{
    if let Some(x) = o {
        s.append(" ");
        s.append(x.as_str());
        s.append(".");
    }
}

pub fn sbl_bibliography_entry(c: &Citation) -> (r: String)
    ensures
        r@ == bibliography_text(cite_view(*c)),
{
    let author = opt_text(&c.author);
    let mut s = if author.is_empty() {
        let mut s = copy_str("*");
        s.append(opt_text(&c.title));
        s.append("*.");
        s
    } else {
        let mut s = copy_str(author);
        s.append(". *");
        s.append(opt_text(&c.title));
        s.append("*.");
        s
    };
    append_field(&mut s, &c.publisher);
    append_field(&mut s, &c.year);
    append_field(&mut s, &c.url);
    append_field(&mut s, &c.license);
    s
}

/// Sequence with later repetitions dropped (first occurrences, in order).
pub open spec fn dedup(s: Seq<Seq<char>>) -> Seq<Seq<char>>
    decreases s.len(),
{
    if s.len() == 0 {
        seq![]
    } else {
        let d = dedup(s.drop_last());
        if d.contains(s.last()) {
            d
        } else {
            d.push(s.last())
        }
    }
}

/// The verifiable-source line of a `Source` citation.
pub open spec fn source_line(c: CiteView) -> Seq<char> {
    or_empty(c.title) + " — "@ + or_empty(c.license) + ". "@ + or_empty(c.attribution)
}

pub open spec fn source_lines(cs: Seq<CiteView>) -> Seq<Seq<char>>
    decreases cs.len(),
{
    if cs.len() == 0 {
        seq![]
    } else {
        let rest = source_lines(cs.drop_last());
        if cs.last().kind == CitationKind::Source {
            rest.push(source_line(cs.last()))
        } else {
            rest
        }
    }
}

pub open spec fn web_count(cs: Seq<CiteView>) -> nat
    decreases cs.len(),
{
    if cs.len() == 0 {
        0
    } else {
        web_count(cs.drop_last()) + if cs.last().kind == CitationKind::Web {
            1nat
        } else {
            0nat
        }
    }
}

pub open spec fn bullet_lines(vs: Seq<Seq<char>>) -> Seq<char>
    decreases vs.len(),
{
    if vs.len() == 0 {
        seq![]
    } else {
        bullet_lines(vs.drop_last()) + "  - "@ + vs.last() + "\n"@
    }
}

/// The provenance footer: what is verifiable (local data with licenses and
/// attributions, web sources) versus what the model generated.
pub open spec fn footer_text(cs: Seq<CiteView>, provider: Seq<char>, model: Seq<char>) -> Seq<char> {
    let verif = dedup(source_lines(cs));
    let v = if verif.len() == 0 {
        ".\n"@
    } else {
        "; dados léxicos de:\n"@ + bullet_lines(verif)
    };
    let n = web_count(cs);
    let w = if n > 0 {
        "- **Recuperado da web:** "@ + decimal(n)
            + " fonte(s) secundária(s), citadas com trecho e data de acesso.\n"@
    } else {
        seq![]
    };
    "---\n\n**Procedência e verificação**\n\n"@
        + "- **Verificável (acervo local):** texto bíblico da edição citada"@ + v + w
        + "- **Gerado por IA:** a análise e a interpretação são geradas por "@ + provider + "/"@
        + model
        + " sob a lente escolhida e podem conter erros — confira sempre as fontes primárias.\n"@
}

pub proof fn lemma_dedup_contains(s: Seq<Seq<char>>, x: Seq<char>)
    ensures
        dedup(s).contains(x) == s.contains(x),
    decreases s.len(),
{
    if s.len() > 0 {
        let p = s.drop_last();
        let d = dedup(p);
        lemma_dedup_contains(p, x);
        assert(s.contains(x) == (p.contains(x) || s.last() == x)) by {
            if s.contains(x) {
                let i = choose|i: int| 0 <= i < s.len() && s[i] == x;
                if i < s.len() - 1 {
                    assert(p[i] == x);
                }
            }
            if p.contains(x) {
                let i = choose|i: int| 0 <= i < p.len() && p[i] == x;
                assert(s[i] == x);
            }
            if s.last() == x {
                assert(s[s.len() - 1] == x);
            }
        }
        lemma_dedup_contains(p, s.last());
        if !d.contains(s.last()) {
            assert(d.push(s.last()).contains(x) == (d.contains(x) || s.last() == x)) by {
                if d.push(s.last()).contains(x) {
                    let i = choose|i: int| 0 <= i < d.push(s.last()).len() && d.push(s.last())[i] == x;
                    if i < d.len() {
                        assert(d[i] == x);
                    }
                }
                if d.contains(x) {
                    let i = choose|i: int| 0 <= i < d.len() && d[i] == x;
                    assert(d.push(s.last())[i] == x);
                }
                if s.last() == x {
                    assert(d.push(s.last())[d.len() as int] == x);
                }
            }
        }
    }
}

fn contains_string(v: &Vec<String>, x: &String) -> (r: bool)
    ensures
        r == v@.map_values(|s: String| s@).contains(x@),
{
    let mut i: usize = 0;
    while i < v.len()
        invariant
            i <= v.len(),
            forall|j: int| 0 <= j < i ==> v@[j]@ != x@,
        decreases v.len() - i,
    {
        if crate::text::str_eq(v[i].as_str(), x.as_str()) {
            assert(v@.map_values(|s: String| s@)[i as int] == x@);
            return true;
        }
        i = i + 1;
    }
    false
}

pub fn provenance_footer(citations: &[Citation], provider: &str, model: &str, _lang: Lang) -> (r:
    String)
    ensures
        r@ == footer_text(cites_view(citations@), provider@, model@),
{
    let ghost cs = cites_view(citations@);
    let mut out = copy_str("---\n\n**Procedência e verificação**\n\n");
    let mut verif: Vec<String> = Vec::new();
    let mut web: u64 = 0;
    let mut i: usize = 0;
    while i < citations.len()
        invariant
            i <= citations.len(),
            cs == cites_view(citations@),
            verif@.map_values(|s: String| s@) == dedup(source_lines(cs.take(i as int))),
            web as nat == web_count(cs.take(i as int)),
            web <= i,
        decreases citations.len() - i,
    {
        let c = &citations[i];
        assert(cs.take((i + 1) as int).drop_last() =~= cs.take(i as int));
        assert(cs.take((i + 1) as int).last() == cite_view(*c));
        if c.kind == CitationKind::Source {
            let mut line = copy_str(opt_text(&c.title));
            line.append(" — ");
            line.append(opt_text(&c.license));
            line.append(". ");
            line.append(opt_text(&c.attribution));
            let ghost before = verif@.map_values(|s: String| s@);
            proof {
                lemma_dedup_contains(source_lines(cs.take(i as int)), line@);
                let sl = source_lines(cs.take((i + 1) as int));
                assert(sl == source_lines(cs.take(i as int)).push(line@));
                assert(sl.drop_last() =~= source_lines(cs.take(i as int)));
                assert(sl.last() == line@);
            }
            if !contains_string(&verif, &line) {
                verif.push(line);
                assert(verif@.map_values(|s: String| s@) =~= before.push(
                    source_line(cite_view(*c)),
                ));
            }
        }
        if c.kind != CitationKind::Source {
            assert(source_lines(cs.take((i + 1) as int)) == source_lines(cs.take(i as int)));
        }
        if c.kind == CitationKind::Web {
            web = web + 1;
        }
        i = i + 1;
    }
    assert(cs.take(citations.len() as int) =~= cs);
    out.append("- **Verificável (acervo local):** texto bíblico da edição citada");
    if verif.len() == 0 {
        out.append(".\n");
    } else {
        out.append("; dados léxicos de:\n");
        let ghost vv = verif@.map_values(|s: String| s@);
        let ghost base = out@;
        let mut j: usize = 0;
        while j < verif.len()
            invariant
                j <= verif.len(),
                vv == verif@.map_values(|s: String| s@),
                out@ == base + bullet_lines(vv.take(j as int)),
            decreases verif.len() - j,
        {
            out.append("  - ");
            out.append(verif[j].as_str());
            out.append("\n");
            assert(vv.take((j + 1) as int).drop_last() =~= vv.take(j as int));
            j = j + 1;
        }
        assert(vv.take(verif.len() as int) =~= vv);
    }
    if web > 0 {
        out.append("- **Recuperado da web:** ");
        push_decimal(&mut out, web);
        out.append(" fonte(s) secundária(s), citadas com trecho e data de acesso.\n");
    }
    out.append("- **Gerado por IA:** a análise e a interpretação são geradas por ");
    out.append(provider);
    out.append("/");
    out.append(model);
    out.append(
        " sob a lente escolhida e podem conter erros — confira sempre as fontes primárias.\n",
    );
    out
}

/// Adding one citation keeps every key already there and adds its own.
proof fn lemma_add_cite_keys(cs: Seq<CiteView>, c: CiteView)
    ensures
        has_key(add_cite(cs, c), c.key),
        forall|k: Seq<char>| has_key(cs, k) ==> #[trigger] has_key(add_cite(cs, c), k),
{
    let r = add_cite(cs, c);
    if !has_key(cs, c.key) {
        assert(r[cs.len() as int] == c);
        assert forall|k: Seq<char>| has_key(cs, k) implies #[trigger] has_key(r, k) by {
            let i = choose|i: int| 0 <= i < cs.len() && cs[i].key == k;
            assert(r[i] == cs[i]);
        }
    }
}

/// After `add_entries`, the keys that were there and the keys of both
/// citations of every entry are present.
proof fn lemma_add_entries_keys(cs: Seq<CiteView>, es: Seq<crate::lexicon::EntryView>, a: Option<Seq<char>>)
    ensures
        forall|k: Seq<char>| has_key(cs, k) ==> #[trigger] has_key(add_entries(cs, es, a), k),
        forall|i: int|
            0 <= i < es.len() ==> has_key(add_entries(cs, es, a), (#[trigger] entry_cites(es[i], a)).0.key)
                && has_key(add_entries(cs, es, a), entry_cites(es[i], a).1.key),
    decreases es.len(),
{
    if es.len() > 0 {
        let init = es.drop_last();
        lemma_add_entries_keys(cs, init, a);
        let before = add_entries(cs, init, a);
        let (note, src) = entry_cites(es.last(), a);
        lemma_add_cite_keys(before, note);
        lemma_add_cite_keys(add_cite(before, note), src);
        let r = add_entries(cs, es, a);
        assert forall|i: int| 0 <= i < es.len() implies has_key(r, (#[trigger] entry_cites(es[i], a)).0.key)
            && has_key(r, entry_cites(es[i], a).1.key) by {
            if i < init.len() {
                assert(init[i] == es[i]);
                assert(has_key(before, entry_cites(init[i], a).0.key));
                assert(has_key(before, entry_cites(init[i], a).1.key));
            } else {
                assert(es[i] == es.last());
            }
        }
    }
}

/// Entries whose citation keys are all present add nothing.
proof fn lemma_add_entries_present(cs: Seq<CiteView>, es: Seq<crate::lexicon::EntryView>, a: Option<Seq<char>>)
    requires
        forall|i: int|
            0 <= i < es.len() ==> has_key(cs, (#[trigger] entry_cites(es[i], a)).0.key) && has_key(
                cs,
                entry_cites(es[i], a).1.key,
            ),
    ensures
        add_entries(cs, es, a) == cs,
    decreases es.len(),
{
    if es.len() > 0 {
        let init = es.drop_last();
        assert forall|i: int| 0 <= i < init.len() implies has_key(cs, (#[trigger] entry_cites(init[i], a)).0.key)
            && has_key(cs, entry_cites(init[i], a).1.key) by {
            assert(init[i] == es[i]);
        }
        lemma_add_entries_present(cs, init, a);
        assert(es.last() == es[es.len() - 1]);
        let (note, src) = entry_cites(es.last(), a);
        assert(has_key(cs, note.key));
        assert(has_key(cs, src.key));
    }
}

/// Collecting the citations of the same verified lexicon twice gives what
/// collecting them once gives: the second pass adds nothing.
pub proof fn lemma_lexicon_citations_idempotent(cs: Seq<CiteView>, vl: VerifiedLexicon)
    ensures
        ({
            let once = add_entries(cs, vl.view().entries, vl.first_source());
            add_entries(once, vl.view().entries, vl.first_source()) == once
        }),
{
    let es = vl.view().entries;
    let a = vl.first_source();
    lemma_add_entries_keys(cs, es, a);
    lemma_add_entries_present(add_entries(cs, es, a), es, a);
}

/// The citations `xs` pushed one after the other onto `cs`.
pub open spec fn add_all(cs: Seq<CiteView>, xs: Seq<CiteView>) -> Seq<CiteView>
    decreases xs.len(),
{
    if xs.len() == 0 {
        cs
    } else {
        add_cite(add_all(cs, xs.drop_last()), xs.last())
    }
}

/// The index of the first citation of `xs` with the key `k` (meaningful when
/// `xs` has that key).
pub open spec fn first_index(xs: Seq<CiteView>, k: Seq<char>) -> int
    decreases xs.len(),
{
    if xs.len() == 0 {
        0
    } else if has_key(xs.drop_last(), k) {
        first_index(xs.drop_last(), k)
    } else {
        xs.len() - 1
    }
}

proof fn lemma_has_key_push(p: Seq<CiteView>, x: CiteView, k: Seq<char>)
    ensures
        has_key(p.push(x), k) == (has_key(p, k) || x.key == k),
{
    let q = p.push(x);
    if has_key(q, k) {
        let i = choose|i: int| 0 <= i < q.len() && q[i].key == k;
        if i < p.len() {
            assert(p[i] == q[i]);
        }
    }
    if has_key(p, k) {
        let i = choose|i: int| 0 <= i < p.len() && p[i].key == k;
        assert(q[i] == p[i]);
    }
    if x.key == k {
        assert(q[p.len() as int] == x);
    }
}

proof fn lemma_first_index(xs: Seq<CiteView>, k: Seq<char>)
    requires
        has_key(xs, k),
    ensures
        0 <= first_index(xs, k) < xs.len(),
        xs[first_index(xs, k)].key == k,
        forall|l: int| 0 <= l < first_index(xs, k) ==> xs[l].key != k,
    decreases xs.len(),
{
    let p = xs.drop_last();
    assert(xs =~= p.push(xs.last()));
    lemma_has_key_push(p, xs.last(), k);
    if has_key(p, k) {
        lemma_first_index(p, k);
        assert(xs[first_index(p, k)] == p[first_index(p, k)]);
        assert forall|l: int| 0 <= l < first_index(xs, k) implies xs[l].key != k by {
            assert(xs[l] == p[l]);
        }
    } else {
        assert forall|l: int| 0 <= l < first_index(xs, k) implies xs[l].key != k by {
            assert(xs[l] == p[l]);
        }
    }
}

/// Pushing citations one after the other into an empty collector keeps, of
/// each key, the first citation pushed with it, in the order in which the
/// keys first came: the keys are distinct, they are exactly the keys pushed,
/// each kept citation is the first one pushed with its key, and a key that
/// came first stays first.
pub proof fn lemma_collector_keeps_first(xs: Seq<CiteView>)
    ensures
        ({
            let r = add_all(seq![], xs);
            &&& keys_unique(r)
            &&& forall|k: Seq<char>| #[trigger] has_key(r, k) <==> has_key(xs, k)
            &&& forall|k: Seq<char>|
                has_key(xs, k) ==> {
                    &&& 0 <= #[trigger] first_index(xs, k) < xs.len()
                    &&& xs[first_index(xs, k)].key == k
                    &&& forall|l: int| 0 <= l < first_index(xs, k) ==> xs[l].key != k
                }
            &&& forall|i: int| 0 <= i < r.len() ==> #[trigger] r[i] == xs[first_index(xs, r[i].key)]
            &&& forall|i: int, j: int|
                0 <= i < j < r.len() ==> first_index(xs, #[trigger] r[i].key) < first_index(xs, #[trigger] r[j].key)
        }),
    decreases xs.len(),
{
    assert forall|k: Seq<char>| has_key(xs, k) implies {
        &&& 0 <= #[trigger] first_index(xs, k) < xs.len()
        &&& xs[first_index(xs, k)].key == k
        &&& forall|l: int| 0 <= l < first_index(xs, k) ==> xs[l].key != k
    } by {
        lemma_first_index(xs, k);
    }
    if xs.len() > 0 {
        let p = xs.drop_last();
        let x = xs.last();
        lemma_collector_keeps_first(p);
        let rp = add_all(seq![], p);
        let r = add_all(seq![], xs);
        assert(xs =~= p.push(x));
        assert forall|k: Seq<char>| has_key(xs, k) == (has_key(p, k) || x.key == k) by {
            lemma_has_key_push(p, x, k);
        }
        assert forall|k: Seq<char>| #[trigger] has_key(p, k) implies first_index(xs, k) == first_index(p, k)
            && xs[first_index(p, k)] == p[first_index(p, k)] by {
            lemma_first_index(p, k);
        }
        if has_key(rp, x.key) {
            assert(r == rp);
            assert forall|i: int| 0 <= i < r.len() implies #[trigger] r[i] == xs[first_index(xs, r[i].key)] by {
                assert(has_key(rp, rp[i].key));
            }
            assert forall|i: int, j: int| 0 <= i < j < r.len() implies first_index(xs, #[trigger] r[i].key)
                < first_index(xs, #[trigger] r[j].key) by {
                assert(has_key(rp, rp[i].key));
                assert(has_key(rp, rp[j].key));
            }
        } else {
            assert(r == rp.push(x));
            assert forall|k: Seq<char>| #[trigger] has_key(r, k) <==> has_key(xs, k) by {
                lemma_has_key_push(rp, x, k);
            }
            assert(!has_key(p, x.key));
            assert(first_index(xs, x.key) == xs.len() - 1);
            assert forall|i: int| 0 <= i < r.len() implies #[trigger] r[i] == xs[first_index(xs, r[i].key)] by {
                if i < rp.len() {
                    assert(r[i] == rp[i]);
                    assert(has_key(rp, rp[i].key));
                } else {
                    assert(r[i] == x);
                }
            }
            assert forall|i: int, j: int| 0 <= i < j < r.len() implies first_index(xs, #[trigger] r[i].key)
                < first_index(xs, #[trigger] r[j].key) by {
                assert(r[i] == rp[i]);
                assert(has_key(rp, rp[i].key));
                lemma_first_index(p, rp[i].key);
                if j < rp.len() {
                    assert(r[j] == rp[j]);
                    assert(has_key(rp, rp[j].key));
                } else {
                    assert(r[j] == x);
                }
            }
            assert forall|i: int, j: int| 0 <= i < j < r.len() implies r[i].key != r[j].key by {
                assert(r[i] == rp[i]);
                if j < rp.len() {
                    assert(r[j] == rp[j]);
                } else {
                    assert(has_key(rp, rp[i].key));
                }
            }
        }
    }
}

/// The citations a verified lexicon pushes, in order: for each entry its
/// footnote, then the reference work it comes from.
pub open spec fn lexicon_citations(es: Seq<crate::lexicon::EntryView>, attribution: Option<Seq<char>>) -> Seq<CiteView>
    decreases es.len(),
{
    if es.len() == 0 {
        seq![]
    } else {
        let (note, src) = entry_cites(es.last(), attribution);
        lexicon_citations(es.drop_last(), attribution).push(note).push(src)
    }
}

/// Collecting a verified lexicon is pushing its citations in order, so what
/// `lemma_collector_keeps_first` says of pushes holds of it.
pub proof fn lemma_lexicon_is_pushes(cs: Seq<CiteView>, es: Seq<crate::lexicon::EntryView>, a: Option<Seq<char>>)
    ensures
        add_entries(cs, es, a) == add_all(cs, lexicon_citations(es, a)),
    decreases es.len(),
{
    if es.len() > 0 {
        lemma_lexicon_is_pushes(cs, es.drop_last(), a);
        let ys = lexicon_citations(es.drop_last(), a);
        let (note, src) = entry_cites(es.last(), a);
        let zs = lexicon_citations(es, a);
        assert(zs == ys.push(note).push(src));
        assert(zs.drop_last() =~= ys.push(note));
        assert(zs.last() == src);
        assert(ys.push(note).drop_last() =~= ys);
        assert(ys.push(note).last() == note);
        assert(add_all(cs, ys.push(note)) == add_cite(add_all(cs, ys), note));
        assert(add_all(cs, zs) == add_cite(add_all(cs, zs.drop_last()), src));
    }
}

} // verus!
