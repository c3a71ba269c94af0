//! Finding Bible references inside free prose.
//!
//! The search pattern alternates every known spelling, longest first (the
//! `regex` engine is leftmost-first, so "1 Coríntios" wins over "Coríntios"),
//! followed by `chapter[:.]verse[-verse]`. The `regex` crate performs the
//! search; what is kept of each match is decided here.
use vstd::prelude::*;
use vstd::string::StringExecFns;

use crate::alias::{
    alphanumeric, book_number_in, build_alias_map, is_alnum_char, resolve_book, spellings,
};
use crate::books::{book_info, book_spec, chapter_count, chapters_in_book};
use crate::model::{Reference, VerseRange};
use crate::text::{chars_of, chars_eq, join, parse_u16, parse_u16_chars};

verus! {

// ---------------------------------------------------------------------------
// The ordered list of spellings.
// ---------------------------------------------------------------------------
/// Lexicographic order of character codes (the order of `str::cmp` on UTF-8).
pub open spec fn lex_lt(a: Seq<char>, b: Seq<char>) -> bool
    decreases a.len(),
{
    if b.len() == 0 {
        false
    } else if a.len() == 0 {
        true
    } else if a[0] != b[0] {
        a[0] < b[0]
    } else {
        lex_lt(a.drop_first(), b.drop_first())
    }
}

/// Longer spellings first; equal lengths in lexicographic order.
pub open spec fn precedes(a: Seq<char>, b: Seq<char>) -> bool {
    a.len() > b.len() || (a.len() == b.len() && lex_lt(a, b))
}

/// No spelling comes before itself.
pub proof fn lemma_lex_irrefl(a: Seq<char>)
    ensures
        !lex_lt(a, a),
    decreases a.len(),
{
    if a.len() > 0 {
        lemma_lex_irrefl(a.drop_first());
    }
}

/// The order of spellings is transitive.
pub proof fn lemma_lex_trans(a: Seq<char>, b: Seq<char>, c: Seq<char>)
    requires
        lex_lt(a, b),
        lex_lt(b, c),
    ensures
        lex_lt(a, c),
    decreases a.len(),
{
    if a.len() > 0 && b.len() > 0 && c.len() > 0 && a[0] == b[0] && b[0] == c[0] {
        lemma_lex_trans(a.drop_first(), b.drop_first(), c.drop_first());
    }
}

/// Of two distinct spellings of one length, one comes first.
pub proof fn lemma_lex_total(a: Seq<char>, b: Seq<char>)
    requires
        a.len() == b.len(),
        a != b,
    ensures
        lex_lt(a, b) || lex_lt(b, a),
    decreases a.len(),
{
    if a.len() == 0 {
        assert(a =~= b);
    } else if a[0] == b[0] {
        if a.drop_first() == b.drop_first() {
            assert(a =~= b) by {
                assert forall|i: int| 0 <= i < a.len() implies a[i] == b[i] by {
                    if i > 0 {
                        assert(a[i] == a.drop_first()[i - 1]);
                    }
                }
            }
        }
        lemma_lex_total(a.drop_first(), b.drop_first());
    }
}

pub open spec fn strictly_ordered(s: Seq<Seq<char>>) -> bool {
    forall|i: int, j: int| 0 <= i < j < s.len() ==> precedes(s[i], s[j])
}

/// Every spelling of books `1..=m`, in table order.
pub open spec fn spellings_upto(m: int) -> Seq<Seq<char>>
    decreases m,
{
    if m <= 0 {
        seq![]
    } else {
        spellings_upto(m - 1) + spellings(book_spec(m))
    }
}

/// Spelling comparison used to order the alternation.
pub fn precedes_exec(a: &[char], b: &[char]) -> (r: bool)
    ensures
        r == precedes(a@, b@),
{
    if a.len() != b.len() {
        return a.len() > b.len();
    }
    let mut i: usize = 0;
    assert(a@.skip(0) =~= a@);
    assert(b@.skip(0) =~= b@);
    while i < a.len()
        invariant
            i <= a.len() == b.len(),
            lex_lt(a@, b@) == lex_lt(a@.skip(i as int), b@.skip(i as int)),
        decreases a.len() - i,
    {
        assert(a@.skip(i as int).drop_first() =~= a@.skip(i + 1));
        assert(b@.skip(i as int).drop_first() =~= b@.skip(i + 1));
        if a[i] != b[i] {
            return a[i] < b[i];
        }
        i = i + 1;
    }
    assert(b@.skip(i as int).len() == 0);
    false
}

/// Inserts `x` into the strictly ordered `out`, unless it is already there.
fn insert_ordered(out: &mut Vec<Vec<char>>, x: Vec<char>)
    requires
        strictly_ordered(old(out)@.map_values(|w: Vec<char>| w@)),
    ensures
        strictly_ordered(final(out)@.map_values(|w: Vec<char>| w@)),
        final(out)@.map_values(|w: Vec<char>| w@).to_set() == old(out)@.map_values(
            |w: Vec<char>| w@,
        ).to_set().insert(x@),
{
    let ghost o = out@.map_values(|w: Vec<char>| w@);
    let mut p: usize = 0;
    while p < out.len() && precedes_exec(out[p].as_slice(), x.as_slice())
        invariant
            p <= out.len(),
            o == out@.map_values(|w: Vec<char>| w@),
            forall|i: int| 0 <= i < p ==> precedes(o[i], x@),
        decreases out.len() - p,
    {
        p = p + 1;
    }
    if p < out.len() && chars_eq(out[p].as_slice(), x.as_slice()) {
        assert(o.to_set().insert(x@) =~= o.to_set()) by {
            assert(o.to_set().contains(o[p as int]));
        }
        return;
    }
    proof {
        if p < out.len() {
            lemma_lex_irrefl(x@);
            if o[p as int].len() == x@.len() {
                lemma_lex_total(o[p as int], x@);
            }
            assert(precedes(x@, o[p as int]));
        }
    }
    out.insert(p, x);
    let ghost n = out@.map_values(|w: Vec<char>| w@);
    assert(n =~= o.insert(p as int, x@));
    assert forall|i: int, j: int| 0 <= i < j < n.len() implies precedes(n[i], n[j]) by {
        if i < p && j == p {
        } else if i < p && j > p {
            assert(n[j] == o[j - 1]);
        } else if i == p && j > p {
            assert(n[j] == o[j - 1]);
            if j - 1 > p {
                assert(precedes(o[p as int], o[j - 1]));
                lemma_precedes_trans(x@, o[p as int], o[j - 1]);
            }
        } else if i > p {
            assert(n[i] == o[i - 1] && n[j] == o[j - 1]);
        }
    }
    assert(n.to_set() =~= o.to_set().insert(x@)) by {
        assert forall|y: Seq<char>| n.to_set().contains(y) <==> o.to_set().insert(x@).contains(y) by {
            if n.to_set().contains(y) {
                let k = choose|k: int| 0 <= k < n.len() && n[k] == y;
                if k < p {
                    assert(o[k] == y);
                } else if k > p {
                    assert(o[k - 1] == y);
                }
            }
            if o.to_set().contains(y) {
                let k = choose|k: int| 0 <= k < o.len() && o[k] == y;
                if k < p {
                    assert(n[k] == y);
                } else {
                    assert(n[k + 1] == y);
                }
            }
            if y == x@ {
                assert(n[p as int] == y);
            }
        }
    }
}

/// The order of the spellings list (longest first) is transitive.
pub proof fn lemma_precedes_trans(a: Seq<char>, b: Seq<char>, c: Seq<char>)
    requires
        precedes(a, b),
        precedes(b, c),
    ensures
        precedes(a, c),
{
    if a.len() == b.len() && b.len() == c.len() {
        lemma_lex_trans(a, b, c);
    }
}

/// The distinct spellings of all books, longest first, then lexicographic.
pub fn ordered_spellings() -> (r: Vec<Vec<char>>)
    ensures
        strictly_ordered(r@.map_values(|w: Vec<char>| w@)),
        r@.map_values(|w: Vec<char>| w@).to_set() == spellings_upto(66).to_set(),
{
    let mut out: Vec<Vec<char>> = Vec::new();
    let mut n: u8 = 1;
    assert(out@.map_values(|w: Vec<char>| w@).to_set() =~= spellings_upto(0).to_set());
    while n <= 66
        invariant
            1 <= n <= 67,
            strictly_ordered(out@.map_values(|w: Vec<char>| w@)),
            out@.map_values(|w: Vec<char>| w@).to_set() == spellings_upto(n - 1).to_set(),
        decreases 67 - n,
    {
        let b = book_info(n).unwrap();
        let mut names: Vec<&str> = Vec::new();
        names.push(b.name_en);
        names.push(b.name_pt);
        names.push(b.abbrev_en);
        names.push(b.abbrev_pt);
        let mut k: usize = 0;
        assert(names@.map_values(|a: &str| a@) =~= seq![
            b.name_en@,
            b.name_pt@,
            b.abbrev_en@,
            b.abbrev_pt@,
        ] + b.aliases@.map_values(|a: &str| a@).take(0));
        while k < b.aliases.len()
            invariant
                k <= b.aliases.len(),
                names@.map_values(|a: &str| a@) == seq![
                    b.name_en@,
                    b.name_pt@,
                    b.abbrev_en@,
                    b.abbrev_pt@,
                ] + b.aliases@.map_values(|a: &str| a@).take(k as int),
            decreases b.aliases.len() - k,
        {
            let ghost before = names@.map_values(|a: &str| a@);
            names.push(b.aliases[k]);
            assert(names@.map_values(|a: &str| a@) =~= before.push(b.aliases@[k as int]@));
            assert(b.aliases@.map_values(|a: &str| a@).take((k + 1) as int) =~= b.aliases@.map_values(
                |a: &str| a@,
            ).take(k as int).push(b.aliases@[k as int]@));
            k = k + 1;
            assert(names@.map_values(|a: &str| a@) =~= seq![
                b.name_en@,
                b.name_pt@,
                b.abbrev_en@,
                b.abbrev_pt@,
            ] + b.aliases@.map_values(|a: &str| a@).take(k as int));
        }
        let ghost ns = names@.map_values(|a: &str| a@);
        assert(b.aliases@.map_values(|a: &str| a@).take(k as int) =~= b.aliases@.map_values(
            |a: &str| a@,
        ));
        assert(ns == spellings(book_spec(n as int)));
        let ghost base = out@.map_values(|w: Vec<char>| w@).to_set();
        let mut j: usize = 0;
        while j < names.len()
            invariant
                j <= names.len(),
                ns == names@.map_values(|a: &str| a@),
                strictly_ordered(out@.map_values(|w: Vec<char>| w@)),
                out@.map_values(|w: Vec<char>| w@).to_set() == base + ns.take(j as int).to_set(),
            decreases names.len() - j,
        {
            let x = chars_of(names[j]);
            insert_ordered(&mut out, x);
            assert(ns.take((j + 1) as int).to_set() =~= ns.take(j as int).to_set().insert(
                ns[j as int],
            )) by {
                assert(ns.take((j + 1) as int) =~= ns.take(j as int) + seq![ns[j as int]]);
                Seq::lemma_to_set_insert_commutes(ns.take(j as int), ns[j as int]);
            }
            assert(out@.map_values(|w: Vec<char>| w@).to_set() =~= base + ns.take(
                (j + 1) as int,
            ).to_set());
            j = j + 1;
        }
        assert(ns.take(j as int) =~= ns);
        proof {
            lemma_to_set_add(spellings_upto(n - 1), ns);
        }
        n = n + 1;
    }
    out
}

/// The items of a concatenation are those of both parts.
pub proof fn lemma_to_set_add(a: Seq<Seq<char>>, b: Seq<Seq<char>>)
    ensures
        (a + b).to_set() == a.to_set() + b.to_set(),
{
    assert forall|y: Seq<char>| (a + b).to_set().contains(y) <==> (a.to_set() + b.to_set()).contains(
        y,
    ) by {
        if (a + b).to_set().contains(y) {
            let k = choose|k: int| 0 <= k < (a + b).len() && (a + b)[k] == y;
            if k < a.len() {
                assert(a[k] == y);
            } else {
                assert(b[k - a.len()] == y);
            }
        }
        if a.to_set().contains(y) {
            let k = choose|k: int| 0 <= k < a.len() && a[k] == y;
            assert((a + b)[k] == y);
        }
        if b.to_set().contains(y) {
            let k = choose|k: int| 0 <= k < b.len() && b[k] == y;
            assert((a + b)[k + a.len()] == y);
        }
    }
    assert((a + b).to_set() =~= a.to_set() + b.to_set());
}

// ---------------------------------------------------------------------------
// The pattern and the search.
// ---------------------------------------------------------------------------
/// The characters that have a meaning in a regular expression.
pub open spec fn regex_meta(c: char) -> bool {
    c == '\\' || c == '.' || c == '+' || c == '*' || c == '?' || c == '(' || c == ')' || c == '|' || c
        == '[' || c == ']' || c == '{' || c == '}' || c == '^' || c == '$' || c == '#' || c == '&' || c
        == '-' || c == '~'
}

/// `s` as a literal of a regular expression: a backslash before each meta
/// character (what `regex::escape` returns).
pub open spec fn regex_escape(s: Seq<char>) -> Seq<char>
    decreases s.len(),
{
    if s.len() == 0 {
        Seq::empty()
    } else {
        regex_escape(s.drop_last()) + if regex_meta(s.last()) {
            seq!['\\', s.last()]
        } else {
            seq![s.last()]
        }
    }
}

/// `s` as a literal of a regular expression.
pub fn escape(s: &str) -> (r: String)
    ensures
        r@ == regex_escape(s@),
{
    let v = chars_of(s);
    let mut out: Vec<char> = Vec::new();
    let mut i: usize = 0;
    while i < v.len()
        invariant
            i <= v@.len(),
            out@ == regex_escape(v@.take(i as int)),
        decreases v@.len() - i,
    {
        let c = v[i];
        assert(v@.take((i + 1) as int).drop_last() =~= v@.take(i as int));
        let meta = c == '\\' || c == '.' || c == '+' || c == '*' || c == '?' || c == '(' || c == ')'
            || c == '|' || c == '[' || c == ']' || c == '{' || c == '}' || c == '^' || c == '$' || c
            == '#' || c == '&' || c == '-' || c == '~';
        let ghost before = out@;
        if meta {
            out.push('\\');
        }
        out.push(c);
        assert(out@ =~= before + if regex_meta(c) { seq!['\\', c] } else { seq![c] });
        i = i + 1;
    }
    assert(v@.take(v@.len() as int) =~= v@);
    crate::text::string_of(out.as_slice())
}

pub open spec fn pattern_head() -> Seq<char> {
    "(?i)\\b(?P<book>"@
}

pub open spec fn pattern_tail() -> Seq<char> {
    ")\\.?\\s*(?P<chap>\\d{1,3})(?:\\s*[:.]\\s*(?P<v1>\\d{1,3})(?:\\s*[-–]\\s*(?P<v2>\\d{1,3}))?)?"@
}

/// The search pattern built from the ordered spellings `ord`.
pub open spec fn scan_pattern(ord: Seq<Seq<char>>) -> Seq<char> {
    pattern_head() + join(ord.map_values(|w: Seq<char>| regex_escape(w)), "|"@) + pattern_tail()
}

/// Builds the search pattern: every spelling escaped, longest first, joined by `|`.
pub fn build_scan_pattern() -> (r: String)
    ensures
        exists|ord: Seq<Seq<char>>|
            strictly_ordered(ord) && ord.to_set() == spellings_upto(66).to_set() && r@
                == scan_pattern(ord),
{
    let ord = ordered_spellings();
    let ghost ov = ord@.map_values(|w: Vec<char>| w@);
    let mut esc: Vec<String> = Vec::new();
    let mut i: usize = 0;
    while i < ord.len()
        invariant
            i <= ord.len(),
            ov == ord@.map_values(|w: Vec<char>| w@),
            esc@.map_values(|p: String| p@) == ov.take(i as int).map_values(
                |w: Seq<char>| regex_escape(w),
            ),
        decreases ord.len() - i,
    {
        let s = crate::text::string_of(ord[i].as_slice());
        let e = escape(s.as_str());
        let ghost before = esc@.map_values(|p: String| p@);
        esc.push(e);
        assert(esc@.map_values(|p: String| p@) =~= before.push(regex_escape(ov[i as int])));
        assert(ov.take((i + 1) as int).map_values(|w: Seq<char>| regex_escape(w)) =~= ov.take(
            i as int,
        ).map_values(|w: Seq<char>| regex_escape(w)).push(regex_escape(ov[i as int])));
        i = i + 1;
        assert(esc@.map_values(|p: String| p@) =~= ov.take(i as int).map_values(
            |w: Seq<char>| regex_escape(w),
        ));
    }
    assert(ov.take(i as int) =~= ov);
    let mut r = String::new();
    r.append("(?i)\\b(?P<book>");
    let alt = crate::text::join_strings(esc.as_slice(), "|");
    r.append(alt.as_str());
    r.append(")\\.?\\s*(?P<chap>\\d{1,3})(?:\\s*[:.]\\s*(?P<v1>\\d{1,3})(?:\\s*[-–]\\s*(?P<v2>\\d{1,3}))?)?");
    r
}

/// One match of the search pattern, as plain values: the byte range of the
/// whole match and the text of each group.
pub struct Capture {
    pub start: usize,
    pub end: usize,
    pub book: Option<String>,
    pub chap: Option<String>,
    pub v1: Option<String>,
    pub v2: Option<String>,
}

pub struct CaptureView {
    pub start: usize,
    pub end: usize,
    pub book: Option<Seq<char>>,
    pub chap: Option<Seq<char>>,
    pub v1: Option<Seq<char>>,
    pub v2: Option<Seq<char>>,
}

pub open spec fn opt_view(o: Option<String>) -> Option<Seq<char>> {
    match o {
        Some(s) => Some(s@),
        None => None,
    }
}

pub open spec fn capture_view(c: Capture) -> CaptureView {
    CaptureView {
        start: c.start,
        end: c.end,
        book: opt_view(c.book),
        chap: opt_view(c.chap),
        v1: opt_view(c.v1),
        v2: opt_view(c.v2),
    }
}

/// Length in bytes of the UTF-8 encoding of `s`.
pub open spec fn utf8_len(s: Seq<char>) -> nat
    decreases s.len(),
{
    if s.len() == 0 {
        0
    } else {
        utf8_len(s.drop_last()) + crate::scholarly::utf8_of(s.last()).len()
    }
}

/// `b` is a byte offset of `text` that falls between two characters.
pub open spec fn char_boundary(text: Seq<char>, b: int) -> bool {
    exists|k: int| 0 <= k <= text.len() && utf8_len(text.take(k)) == b
}

/// Byte ranges of `text` in order: each on character boundaries, none
/// ending after the next one starts.
pub open spec fn spans_ok(text: Seq<char>, xs: Seq<(usize, usize)>) -> bool {
    &&& forall|i: int|
        0 <= i < xs.len() ==> (#[trigger] xs[i]).0 <= xs[i].1 && char_boundary(text, xs[i].0 as int)
            && char_boundary(text, xs[i].1 as int)
    &&& forall|i: int, j: int| 0 <= i < j < xs.len() ==> (#[trigger] xs[i]).1 <= (#[trigger] xs[j]).0
}

pub open spec fn capture_spans(cs: Seq<CaptureView>) -> Seq<(usize, usize)> {
    cs.map_values(|c: CaptureView| (c.start, c.end))
}

pub open spec fn kept_spans(xs: Seq<(usize, usize, Reference)>) -> Seq<(usize, usize)> {
    xs.map_values(|x: (usize, usize, Reference)| (x.0, x.1))
}

/// The matches (`captures_iter`, leftmost-first, non-overlapping) of `pattern` in `text`.
pub uninterp spec fn regex_scan(pattern: Seq<char>, text: Seq<char>) -> Seq<CaptureView>;

/// Whether `regex::Regex::new` accepts `pattern`.
pub uninterp spec fn regex_compiles(pattern: Seq<char>) -> bool;

/// Compiles `pattern` with `regex::Regex::new` and runs `captures_iter` over
/// `text`: every match with its named groups `book`, `chap`, `v1`, `v2`
/// (`None` for a group that did not take part, or that the pattern lacks);
/// `None` exactly when the pattern does not compile. As the crate documents,
/// the matches come in order and do not overlap, and their byte offsets fall
/// on character boundaries of `text`.
#[verifier::external_body]
pub fn regex_captures(pattern: &str, text: &str) -> (r: Option<Vec<Capture>>)
    ensures
        (r is Some) == regex_compiles(pattern@),
        r matches Some(v) ==> v@.map_values(|c: Capture| capture_view(c)) == regex_scan(
            pattern@,
            text@,
        ),
        r matches Some(v) ==> spans_ok(text@, capture_spans(v@.map_values(|c: Capture| capture_view(c)))),
{
    let re = regex::Regex::new(pattern).ok()?;
    let mut out = Vec::new();
    for c in re.captures_iter(text) {
        let whole = c.get(0).unwrap();
        let group = |name: &str| c.name(name).map(|m| m.as_str().to_string());
        out.push(Capture {
            start: whole.start(),
            end: whole.end(),
            book: group("book"),
            chap: group("chap"),
            v1: group("v1"),
            v2: group("v2"),
        });
    }
    Some(out)
}

// ---------------------------------------------------------------------------
// Keeping the meaningful matches.
// ---------------------------------------------------------------------------
/// A reference found in prose, with the byte range it occupies in the text.
#[derive(Debug, PartialEq, Eq)]
pub struct ScannedRef {
    /// Byte range of the reference in the source text.
    pub range: std::ops::Range<usize>,
    /// The reference.
    pub reference: Reference,
}

/// Number of alphanumeric characters of `s`.
pub open spec fn alnum_count(s: Seq<char>) -> nat
    decreases s.len(),
{
    if s.len() == 0 {
        0
    } else {
        alnum_count(s.drop_last()) + if alphanumeric(s.last()) {
            1nat
        } else {
            0nat
        }
    }
}

pub open spec fn opt_number(o: Option<Seq<char>>) -> Option<u16> {
    match o {
        Some(s) => parse_u16(s),
        None => None,
    }
}

/// What one match contributes: a reference, or nothing. Short abbreviations
/// (three letters or fewer) count only with an explicit verse; chapters outside
/// the book are dropped.
pub open spec fn scan_keep(c: CaptureView) -> Option<(usize, usize, Reference)> {
    if c.book is None || c.chap is None {
        None
    } else {
        scan_keep_groups(c, c.book->0, c.chap->0)
    }
}

/// What a match with the groups `book` and `chap` contributes.
pub open spec fn scan_keep_groups(c: CaptureView, book_text: Seq<char>, chap_text: Seq<char>) -> Option<(usize, usize, Reference)> {
    match resolve_book(book_text) {
        None => None,
        Some(book) => match parse_u16(chap_text) {
            None => None,
            Some(chapter) => if chapter == 0 || chapter > chapter_count(book as int) {
                None
            } else {
                let v1 = opt_number(c.v1);
                let v2 = opt_number(c.v2);
                if alnum_count(book_text) <= 3 && v1 is None {
                    None
                } else {
                    let verses = match (v1, v2) {
                        (None, _) => Some(VerseRange::WholeChapter),
                        (Some(a), None) => if a > 0 {
                            Some(VerseRange::Single(a))
                        } else {
                            None
                        },
                        (Some(a), Some(b)) => if a > 0 && b > 0 && a <= b {
                            if a == b {
                                Some(VerseRange::Single(a))
                            } else {
                                Some(VerseRange::Range { start: a, end: b })
                            }
                        } else {
                            None
                        },
                    };
                    match verses {
                        Some(v) => Some((c.start, c.end, Reference { book, chapter, verses: v })),
                        None => None,
                    }
                }
            },
        },
    }
}

pub open spec fn scan_filter(cs: Seq<CaptureView>) -> Seq<(usize, usize, Reference)>
    decreases cs.len(),
{
    if cs.len() == 0 {
        seq![]
    } else {
        let rest = scan_filter(cs.drop_last());
        match scan_keep(cs.last()) {
            Some(x) => rest.push(x),
            None => rest,
        }
    }
}

pub open spec fn scanned_view(s: ScannedRef) -> (usize, usize, Reference) {
    (s.range.start, s.range.end, s.reference)
}

fn count_alnum(v: &[char]) -> (r: usize)
    ensures
        r == alnum_count(v@),
{
    let mut n: usize = 0;
    let mut i: usize = 0;
    while i < v.len()
        invariant
            i <= v.len(),
            n == alnum_count(v@.take(i as int)),
            n <= i,
        decreases v.len() - i,
    {
        assert(v@.take((i + 1) as int).drop_last() =~= v@.take(i as int));
        if is_alnum_char(v[i]) {
            n = n + 1;
        }
        i = i + 1;
    }
    assert(v@.take(v.len() as int) =~= v@);
    n
}

fn opt_number_exec(o: &Option<String>) -> (r: Option<u16>)
    ensures
        r == opt_number(opt_view(*o)),
{
    match o {
        Some(s) => parse_u16_chars(chars_of(s.as_str()).as_slice()),
        None => None,
    }
}

/// Keeps, in order, the matches that name a real book, chapter and verses.
pub fn scan_matches(caps: &Vec<Capture>) -> (r: Vec<ScannedRef>)
    ensures
        r@.map_values(|s: ScannedRef| scanned_view(s)) == scan_filter(
            caps@.map_values(|c: Capture| capture_view(c)),
        ),
{
    let map = build_alias_map();
    let ghost cv = caps@.map_values(|c: Capture| capture_view(c));
    let mut out: Vec<ScannedRef> = Vec::new();
    let mut i: usize = 0;
    while i < caps.len()
        invariant
            i <= caps.len(),
            map.wf(),
            cv == caps@.map_values(|c: Capture| capture_view(c)),
            out@.map_values(|s: ScannedRef| scanned_view(s)) == scan_filter(cv.take(i as int)),
        decreases caps.len() - i,
    {
        let c = &caps[i];
        assert(cv.take((i + 1) as int).drop_last() =~= cv.take(i as int));
        assert(cv.take((i + 1) as int).last() == capture_view(*c));
        let ghost prev = out@.map_values(|s: ScannedRef| scanned_view(s));
        let kept = scan_one(&map, c);
        match kept {
            Some(s) => {
                out.push(s);
                assert(out@.map_values(|s: ScannedRef| scanned_view(s)) =~= prev.push(
                    scanned_view(s),
                ));
            },
            None => {},
        }
        i = i + 1;
    }
    assert(cv.take(caps.len() as int) =~= cv);
    out
}

fn scan_one(map: &crate::alias::AliasMap, c: &Capture) -> (r: Option<ScannedRef>)
    requires
        map.wf(),
    ensures
        match r {
            Some(s) => scan_keep(capture_view(*c)) == Some(scanned_view(s)),
            None => scan_keep(capture_view(*c)) is None,
        },
{
    let (book_text, chap_text) = match (&c.book, &c.chap) {
        (Some(b), Some(ch)) => (b, ch),
        _ => return None,
    };
    let bv = chars_of(book_text.as_str());
    let book = match book_number_in(map, bv.as_slice()) {
        Some(b) => b,
        None => return None,
    };
    let chapter = match parse_u16_chars(chars_of(chap_text.as_str()).as_slice()) {
        Some(ch) => ch,
        None => return None,
    };
    if chapter == 0 || chapter > chapters_in_book(book) {
        return None;
    }
    let v1 = opt_number_exec(&c.v1);
    let v2 = opt_number_exec(&c.v2);
    if count_alnum(bv.as_slice()) <= 3 && v1.is_none() {
        return None;
    }
    let verses = match (v1, v2) {
        (None, _) => VerseRange::WholeChapter,
        (Some(a), None) => {
            if a > 0 {
                VerseRange::Single(a)
            } else {
                return None;
            }
        },
        (Some(a), Some(b)) => {
            if a > 0 && b > 0 && a <= b {
                if a == b {
                    VerseRange::Single(a)
                } else {
                    VerseRange::Range { start: a, end: b }
                }
            } else {
                return None;
            }
        },
    };
    Some(ScannedRef { range: c.start..c.end, reference: Reference { book, chapter, verses } })
}

/// The references cited in `text`, in order of appearance, with their byte ranges.
pub fn scan_references(text: &str) -> (r: Vec<ScannedRef>)
    ensures
        spans_ok(text@, kept_spans(r@.map_values(|s: ScannedRef| scanned_view(s)))),
        exists|ord: Seq<Seq<char>>|
            strictly_ordered(ord) && ord.to_set() == spellings_upto(66).to_set() && (regex_compiles(
                scan_pattern(ord),
            ) ==> r@.map_values(|s: ScannedRef| scanned_view(s)) == scan_filter(
                regex_scan(scan_pattern(ord), text@),
            )) && (!regex_compiles(scan_pattern(ord)) ==> r@.len() == 0),
{
    let pattern = build_scan_pattern();
    match regex_captures(pattern.as_str(), text) {
        Some(caps) => {
            let r = scan_matches(&caps);
            proof {
                lemma_filter_spans(text@, caps@.map_values(|c: Capture| capture_view(c)));
            }
            r
        },
        None => {
            let r: Vec<ScannedRef> = Vec::new();
            assert(kept_spans(r@.map_values(|s: ScannedRef| scanned_view(s))) =~= Seq::<(usize, usize)>::empty());
            r
        },
    }
}

/// Keeping some matches keeps their ranges, in order.
proof fn lemma_filter_spans(text: Seq<char>, cs: Seq<CaptureView>)
    requires
        spans_ok(text, capture_spans(cs)),
    ensures
        spans_ok(text, kept_spans(scan_filter(cs))),
        forall|i: int|
            0 <= i < scan_filter(cs).len() ==> exists|k: int|
                0 <= k < cs.len() && (#[trigger] scan_filter(cs)[i]).0 == cs[k].start && scan_filter(cs)[i].1
                    == cs[k].end,
    decreases cs.len(),
{
    if cs.len() > 0 {
        let init = cs.drop_last();
        let last = cs.last();
        let n = cs.len() - 1;
        assert forall|i: int| 0 <= i < init.len() implies capture_spans(init)[i] == capture_spans(cs)[i] by {}
        assert(capture_spans(cs)[n] == (last.start, last.end));
        assert(spans_ok(text, capture_spans(init))) by {
            assert forall|i: int, j: int| 0 <= i < j < capture_spans(init).len() implies (#[trigger] capture_spans(init)[i]).1
                <= (#[trigger] capture_spans(init)[j]).0 by {
                assert(capture_spans(cs)[i].1 <= capture_spans(cs)[j].0);
            }
            assert forall|i: int| 0 <= i < capture_spans(init).len() implies (#[trigger] capture_spans(init)[i]).0
                <= capture_spans(init)[i].1 && char_boundary(text, capture_spans(init)[i].0 as int)
                && char_boundary(text, capture_spans(init)[i].1 as int) by {
                assert(capture_spans(cs)[i] == capture_spans(init)[i]);
            }
        }
        lemma_filter_spans(text, init);
        let rest = scan_filter(init);
        let f = scan_filter(cs);
        match scan_keep(last) {
            None => {
                assert(f == rest);
                assert forall|i: int| 0 <= i < f.len() implies exists|k: int|
                    0 <= k < cs.len() && (#[trigger] f[i]).0 == cs[k].start && f[i].1 == cs[k].end by {
                    let k = choose|k: int| 0 <= k < init.len() && rest[i].0 == init[k].start && rest[i].1 == init[k].end;
                    assert(cs[k] == init[k]);
                }
                assert(kept_spans(f) == kept_spans(rest));
            },
            Some(x) => {
                assert(f == rest.push(x));
                assert(x.0 == last.start && x.1 == last.end);
                assert forall|i: int| 0 <= i < f.len() implies exists|k: int|
                    0 <= k < cs.len() && (#[trigger] f[i]).0 == cs[k].start && f[i].1 == cs[k].end by {
                    if i < rest.len() {
                        assert(f[i] == rest[i]);
                        let k = choose|k: int| 0 <= k < init.len() && rest[i].0 == init[k].start && rest[i].1 == init[k].end;
                        assert(cs[k] == init[k]);
                    } else {
                        assert(f[i] == x);
                        assert(cs[n] == last);
                    }
                }
                let ks = kept_spans(f);
                let kr = kept_spans(rest);
                assert forall|i: int| 0 <= i < ks.len() implies (#[trigger] ks[i]).0 <= ks[i].1 && char_boundary(text, ks[i].0 as int)
                    && char_boundary(text, ks[i].1 as int) by {
                    if i < rest.len() {
                        assert(ks[i] == kr[i]);
                    } else {
                        assert(ks[i] == capture_spans(cs)[n]);
                    }
                }
                assert forall|i: int, j: int| 0 <= i < j < ks.len() implies (#[trigger] ks[i]).1 <= (#[trigger] ks[j]).0 by {
                    if j < rest.len() {
                        assert(ks[i] == kr[i]);
                        assert(ks[j] == kr[j]);
                    } else {
                        assert(ks[i] == kr[i]);
                        assert(ks[j] == capture_spans(cs)[n]);
                        let k = choose|k: int| 0 <= k < init.len() && rest[i].0 == init[k].start && rest[i].1 == init[k].end;
                        assert(capture_spans(cs)[k].1 <= capture_spans(cs)[n].0);
                    }
                }
            },
        }
    }
}

/// A match of a known book with a chapter inside it and an explicit verse
/// is always kept, however short the book's spelling ("Gn 1.1" counts): as
/// that verse, or as the range to its second verse when that is not smaller.
/// Without a verse, a spelling of three letters or fewer is dropped and a
/// longer one gives the whole chapter ("Am 7" does not count, "Amós 7" does).
pub proof fn lemma_scan_keeps_explicit_verses(c: CaptureView, book_text: Seq<char>, chap_text: Seq<char>, book: u8, chapter: u16)
    requires
        resolve_book(book_text) == Some(book),
        parse_u16(chap_text) == Some(chapter),
        0 < chapter <= chapter_count(book as int),
    ensures
        forall|v: u16|
            opt_number(c.v1) == Some(v) && v > 0 && opt_number(c.v2) is None ==> #[trigger] scan_keep_groups(
                c,
                book_text,
                chap_text,
            ) == Some((c.start, c.end, Reference { book, chapter, verses: VerseRange::Single(v) })),
        forall|v: u16, w: u16|
            opt_number(c.v1) == Some(v) && opt_number(c.v2) == Some(w) && 0 < v && v < w ==> #[trigger] scan_keep_groups(
                c,
                book_text,
                chap_text,
            ) == Some((c.start, c.end, Reference { book, chapter, verses: VerseRange::Range { start: v, end: w } })),
        opt_number(c.v1) is None ==> scan_keep_groups(c, book_text, chap_text) == (if alnum_count(book_text) <= 3 {
            None
        } else {
            Some((c.start, c.end, Reference { book, chapter, verses: VerseRange::WholeChapter }))
        }),
{
}

/// A match is dropped when its book is unknown, its chapter is not a number
/// from 1 to the book's last chapter, its verse is 0, or its range ends
/// before it starts.
pub proof fn lemma_scan_drops_invalid(c: CaptureView, book_text: Seq<char>, chap_text: Seq<char>)
    ensures
        resolve_book(book_text) is None ==> scan_keep_groups(c, book_text, chap_text) is None,
        match resolve_book(book_text) {
            Some(book) => !(parse_u16(chap_text) matches Some(ch) && 0 < ch <= chapter_count(book as int))
                ==> scan_keep_groups(c, book_text, chap_text) is None,
            None => true,
        },
        opt_number(c.v1) == Some(0u16) ==> scan_keep_groups(c, book_text, chap_text) is None,
        forall|v: u16, w: u16|
            opt_number(c.v1) == Some(v) && opt_number(c.v2) == Some(w) && w < v ==> #[trigger] scan_keep_groups(
                c,
                book_text,
                chap_text,
            ) is None,
{
}

} // verus!
