//! Text layout for the reading screen: greedy word wrapping, the segments of
//! a search result with its matches marked, and the copy of a mouse
//! selection (its rows, its text and the citation that heads it).
use vstd::prelude::*;
use vstd::string::StringExecFns;

use crate::model::{Lang, Reference, VerseRange};
use crate::panels::{Area, Selection};
use crate::reference::{format_reference, format_reference_spec};
use crate::sorted::strs;
use crate::text::{
    chars_of, decimal, find_char, find_char_at, join, join_strings, lemma_find_char, parse_u16_std,
    parse_u16_text, slice_chars, string_of, trim, trim_chars, white_space, words, words_from, words_of,
};

verus! {

// ---------------------------------------------------------------------------
// Word wrapping.
// ---------------------------------------------------------------------------
/// One word joins the wrapping under way: when it does not fit on the
/// current line (which is not empty), that line is closed first.
pub open spec fn wrap_step(st: (Seq<Seq<char>>, Seq<char>), word: Seq<char>, w: nat) -> (Seq<Seq<char>>, Seq<char>) {
    let lines = st.0;
    let cur = st.1;
    let extra = if cur.len() == 0 {
        word.len()
    } else {
        word.len() + 1
    };
    if cur.len() + extra > w && cur.len() > 0 {
        (lines.push(cur), word)
    } else if cur.len() > 0 {
        (lines, cur + seq![' '] + word)
    } else {
        (lines, word)
    }
}

pub open spec fn wrap_fold(ws: Seq<Seq<char>>, w: nat) -> (Seq<Seq<char>>, Seq<char>)
    decreases ws.len(),
{
    if ws.len() == 0 {
        (seq![], seq![])
    } else {
        wrap_step(wrap_fold(ws.drop_last(), w), ws.last(), w)
    }
}

/// A word cut into pieces of `w` characters (the last one shorter), so that
/// no piece is longer than the line.
pub open spec fn chunks(word: Seq<char>, w: nat) -> Seq<Seq<char>>
    decreases word.len(),
{
    if w == 0 || word.len() <= w {
        seq![word]
    } else {
        seq![word.take(w as int)] + chunks(word.skip(w as int), w)
    }
}

/// The words, each cut into pieces that fit a line of `w`.
pub open spec fn pieces(ws: Seq<Seq<char>>, w: nat) -> Seq<Seq<char>>
    decreases ws.len(),
{
    if ws.len() == 0 {
        seq![]
    } else {
        pieces(ws.drop_last(), w) + chunks(ws.last(), w)
    }
}

/// `text` in lines of at most `w` characters, greedily, word by word (words
/// separated by one space; a word longer than `w` is cut into pieces of `w`
/// characters). A width of 0 leaves the text whole.
pub open spec fn wrap_text(text: Seq<char>, w: nat) -> Seq<Seq<char>> {
    if w == 0 {
        seq![text]
    } else {
        let st = wrap_fold(pieces(words(text), w), w);
        if st.1.len() > 0 || st.0.len() == 0 {
            st.0.push(st.1)
        } else {
            st.0
        }
    }
}

/// The pieces of `word` (of at most `w` characters).
fn cut_word(out: &mut Vec<Vec<char>>, word: &Vec<char>, w: usize)
    requires
        w > 0,
    ensures
        final(out)@.map_values(|x: Vec<char>| x@) == old(out)@.map_values(|x: Vec<char>| x@) + chunks(word@, w as nat),
{
    let ghost o0 = old(out)@.map_values(|x: Vec<char>| x@);
    let mut start: usize = 0;
    assert(word@.skip(0) =~= word@);
    while word.len() - start > w
        invariant
            w > 0,
            start <= word@.len(),
            out@.map_values(|x: Vec<char>| x@) + chunks(word@.skip(start as int), w as nat) == o0 + chunks(word@, w as nat),
        decreases word@.len() - start,
    {
        let ghost rest = word@.skip(start as int);
        let piece = slice_chars(word.as_slice(), start, start + w);
        let ghost ob = out@.map_values(|x: Vec<char>| x@);
        out.push(piece);
        proof {
            assert(piece@ =~= rest.take(w as int));
            assert(rest.skip(w as int) =~= word@.skip(start + w));
            assert(chunks(rest, w as nat) == seq![rest.take(w as int)] + chunks(rest.skip(w as int), w as nat));
            assert(out@.map_values(|x: Vec<char>| x@) =~= ob.push(piece@));
            assert(ob.push(piece@) + chunks(word@.skip(start + w), w as nat) =~= ob + chunks(rest, w as nat));
        }
        start = start + w;
    }
    let last = slice_chars(word.as_slice(), start, word.len());
    let ghost ob = out@.map_values(|x: Vec<char>| x@);
    out.push(last);
    proof {
        let rest = word@.skip(start as int);
        assert(last@ =~= rest);
        assert(chunks(rest, w as nat) == seq![rest]);
        assert(out@.map_values(|x: Vec<char>| x@) =~= ob + seq![rest]);
    }
}

/// Every word cut into pieces of at most `w` characters.
fn cut_words(whole: &Vec<Vec<char>>, w: usize) -> (ws: Vec<Vec<char>>)
    requires
        w > 0,
    ensures
        ws@.map_values(|x: Vec<char>| x@) == pieces(whole@.map_values(|x: Vec<char>| x@), w as nat),
{
    let ghost wsv = whole@.map_values(|x: Vec<char>| x@);
    let mut ws: Vec<Vec<char>> = Vec::new();
    let mut p: usize = 0;
    assert(ws@.map_values(|x: Vec<char>| x@) =~= pieces(wsv.take(0), w as nat));
    while p < whole.len()
        invariant
            p <= whole@.len(),
            w > 0,
            whole@.map_values(|x: Vec<char>| x@) == wsv,
            ws@.map_values(|x: Vec<char>| x@) == pieces(wsv.take(p as int), w as nat),
        decreases whole@.len() - p,
    {
        assert(whole@[p as int]@ == wsv[p as int]);
        assert(wsv.take(p + 1).drop_last() =~= wsv.take(p as int));
        cut_word(&mut ws, &whole[p], w);
        p = p + 1;
    }
    assert(wsv.take(whole@.len() as int) =~= wsv);
    ws
}

/// Wraps `text` in lines of at most `w` characters (greedy, by word; a word
/// longer than a line is cut).
pub fn wrap(text: &str, w: usize) -> (r: Vec<String>)
    ensures
        strs(r@) == wrap_text(text@, w as nat),
{
    if w == 0 {
        let v = vec![crate::text::copy_str(text)];
        assert(strs(v@) =~= seq![text@]);
        return v;
    }
    let cs = chars_of(text);
    let whole = words_of(cs.as_slice());
    let ghost wsv = words(text@);
    let ws = cut_words(&whole, w);
    let ghost wv = pieces(wsv, w as nat);
    let mut lines: Vec<Vec<char>> = Vec::new();
    let mut cur: Vec<char> = Vec::new();
    let mut i: usize = 0;
    while i < ws.len()
        invariant
            i <= ws@.len(),
            ws@.map_values(|x: Vec<char>| x@) == wv,
            w > 0,
            (lines@.map_values(|x: Vec<char>| x@), cur@) == wrap_fold(wv.take(i as int), w as nat),
        decreases ws@.len() - i,
    {
        let word = &ws[i];
        assert(word@ == wv[i as int]);
        assert(wv.take(i + 1).drop_last() =~= wv.take(i as int));
        assert(wv.take(i + 1).last() == wv[i as int]);
        let ghost l0 = lines@;
        let closes = cur.len() > 0 && (word.len() >= w || cur.len() >= w - word.len());
        if closes {
            let done = cur;
            lines.push(done);
            cur = slice_chars(word.as_slice(), 0, word.len());
            assert(lines@.map_values(|x: Vec<char>| x@) =~= l0.map_values(|x: Vec<char>| x@).push(done@));
            assert(cur@ =~= word@);
        } else if cur.len() > 0 {
            let ghost c0 = cur@;
            cur.push(' ');
            let mut k: usize = 0;
            while k < word.len()
                invariant
                    k <= word@.len(),
                    cur@ == c0 + seq![' '] + word@.take(k as int),
                decreases word@.len() - k,
            {
                cur.push(word[k]);
                assert(word@.take(k + 1) =~= word@.take(k as int).push(word@[k as int]));
                k = k + 1;
            }
            assert(word@.take(word@.len() as int) =~= word@);
        } else {
            cur = slice_chars(word.as_slice(), 0, word.len());
            assert(cur@ =~= word@);
        }
        i = i + 1;
    }
    assert(wv.take(ws@.len() as int) =~= wv);
    if cur.len() > 0 || lines.len() == 0 {
        let ghost l0 = lines@;
        lines.push(cur);
        assert(lines@.map_values(|x: Vec<char>| x@) =~= l0.map_values(|x: Vec<char>| x@).push(
            wrap_fold(wv, w as nat).1,
        ));
    }
    let mut out: Vec<String> = Vec::new();
    let mut j: usize = 0;
    while j < lines.len()
        invariant
            j <= lines@.len(),
            strs(out@) == lines@.map_values(|x: Vec<char>| x@).take(j as int),
        decreases lines@.len() - j,
    {
        let ghost o0 = out@;
        out.push(string_of(lines[j].as_slice()));
        assert(strs(out@) =~= strs(o0).push(lines@[j as int]@));
        assert(lines@.map_values(|x: Vec<char>| x@).take(j + 1) =~= lines@.map_values(|x: Vec<char>| x@).take(
            j as int,
        ).push(lines@[j as int]@));
        j = j + 1;
    }
    assert(lines@.map_values(|x: Vec<char>| x@).take(lines@.len() as int) =~= lines@.map_values(
        |x: Vec<char>| x@,
    ));
    out
}

/// No white space in `s`.
pub open spec fn no_space(s: Seq<char>) -> bool {
    forall|j: int| 0 <= j < s.len() ==> !white_space(#[trigger] s[j])
}

proof fn lemma_skip_word(s: Seq<char>, a: int)
    requires
        0 <= a <= s.len(),
    ensures
        a <= crate::text::skip_word(s, a) <= s.len(),
        forall|j: int| a <= j < crate::text::skip_word(s, a) ==> !white_space(#[trigger] s[j]),
    decreases s.len() - a,
{
    if a < s.len() && !white_space(s[a]) {
        lemma_skip_word(s, a + 1);
    }
}

/// The words of a text are not empty and hold no white space.
pub proof fn lemma_words_shape(s: Seq<char>, i: int)
    ensures
        forall|k: int| 0 <= k < words_from(s, i).len() ==> (#[trigger] words_from(s, i)[k]).len() > 0 && no_space(
            words_from(s, i)[k],
        ),
    decreases s.len() - i,
{
    if !(i < 0 || i >= s.len()) {
        let a = crate::text::skip_ws(s, i);
        crate::text::lemma_skip_ws(s, i);
        if a < s.len() {
            let b = crate::text::skip_word(s, a);
            if !(b <= i || b < a || b > s.len()) {
                lemma_words_shape(s, b);
                if a >= 0 {
                    lemma_skip_word(s, a);
                }
                let ws = words_from(s, i);
                let rest = words_from(s, b);
                assert(ws == seq![s.subrange(a, b)] + rest);
                assert forall|k: int| 0 <= k < ws.len() implies (#[trigger] ws[k]).len() > 0 && no_space(ws[k]) by {
                    if k == 0 {
                        assert(ws[0] == s.subrange(a, b));
                        assert(a < b) by {
                            assert(b == crate::text::skip_word(s, a + 1));
                            lemma_skip_word(s, a + 1);
                        }
                        assert forall|j: int| 0 <= j < ws[0].len() implies !white_space(#[trigger] ws[0][j]) by {
                            assert(ws[0][j] == s[a + j]);
                        }
                    } else {
                        assert(ws[k] == rest[k - 1]);
                    }
                }
            }
        }
    }
}

proof fn lemma_chunks_fit(word: Seq<char>, w: nat)
    requires
        w > 0,
    ensures
        forall|k: int| 0 <= k < chunks(word, w).len() ==> (#[trigger] chunks(word, w)[k]).len() <= w,
    decreases word.len(),
{
    if word.len() > w {
        lemma_chunks_fit(word.skip(w as int), w);
        let c = chunks(word, w);
        let rest = chunks(word.skip(w as int), w);
        assert forall|k: int| 0 <= k < c.len() implies (#[trigger] c[k]).len() <= w by {
            if k > 0 {
                assert(c[k] == rest[k - 1]);
            }
        }
    }
}

proof fn lemma_pieces_fit(ws: Seq<Seq<char>>, w: nat)
    requires
        w > 0,
    ensures
        forall|k: int| 0 <= k < pieces(ws, w).len() ==> (#[trigger] pieces(ws, w)[k]).len() <= w,
    decreases ws.len(),
{
    if ws.len() > 0 {
        lemma_pieces_fit(ws.drop_last(), w);
        lemma_chunks_fit(ws.last(), w);
        let a = pieces(ws.drop_last(), w);
        let c = chunks(ws.last(), w);
        assert forall|k: int| 0 <= k < (a + c).len() implies (#[trigger] (a + c)[k]).len() <= w by {
            if k < a.len() {
                assert((a + c)[k] == a[k]);
            } else {
                assert((a + c)[k] == c[k - a.len()]);
            }
        }
    }
}

proof fn lemma_wrap_fold_short(ws: Seq<Seq<char>>, w: nat)
    requires
        forall|k: int| 0 <= k < ws.len() ==> (#[trigger] ws[k]).len() <= w,
    ensures
        forall|k: int| 0 <= k < wrap_fold(ws, w).0.len() ==> (#[trigger] wrap_fold(ws, w).0[k]).len() <= w,
        wrap_fold(ws, w).1.len() <= w,
    decreases ws.len(),
{
    if ws.len() > 0 {
        let p = ws.drop_last();
        assert forall|k: int| 0 <= k < p.len() implies (#[trigger] p[k]).len() <= w by {
            assert(p[k] == ws[k]);
        }
        lemma_wrap_fold_short(p, w);
        let st = wrap_fold(p, w);
        let word = ws.last();
        assert(word == ws[ws.len() - 1]);
        let extra = if st.1.len() == 0 { word.len() } else { word.len() + 1 };
        if st.1.len() + extra > w && st.1.len() > 0 {
            assert forall|k: int| 0 <= k < st.0.push(st.1).len() implies (#[trigger] st.0.push(st.1)[k]).len() <= w by {
                if k < st.0.len() {
                    assert(st.0.push(st.1)[k] == st.0[k]);
                }
            }
        } else if st.1.len() > 0 {
            assert((st.1 + seq![' '] + word).len() <= w);
        }
    }
}

/// Wrapping to a positive width gives lines of at most `w` characters.
pub proof fn lemma_wrap_fits(text: Seq<char>, w: nat)
    requires
        w > 0,
    ensures
        forall|k: int| 0 <= k < wrap_text(text, w).len() ==> (#[trigger] wrap_text(text, w)[k]).len() <= w,
{
    lemma_pieces_fit(words(text), w);
    lemma_wrap_fold_short(pieces(words(text), w), w);
    let st = wrap_fold(pieces(words(text), w), w);
    let r = wrap_text(text, w);
    assert forall|k: int| 0 <= k < r.len() implies (#[trigger] r[k]).len() <= w by {
        if st.1.len() > 0 || st.0.len() == 0 {
            assert(r == st.0.push(st.1));
            if k < st.0.len() {
                assert(r[k] == st.0[k]);
            } else {
                assert(r[k] == st.1);
            }
        } else {
            assert(r == st.0);
        }
    }
}

// ---------------------------------------------------------------------------
// Marked matches.
// ---------------------------------------------------------------------------
/// Opening mark of a match in a search snippet.
pub open spec fn mark_start() -> char {
    '\u{2}'
}

/// Closing mark of a match.
pub open spec fn mark_end() -> char {
    '\u{3}'
}

/// The segments of `s` from `p`: `(text, matched)`, the marks dropped. An
/// opening mark never closed marks the rest.
pub open spec fn segments_from(s: Seq<char>, p: int) -> Seq<(Seq<char>, bool)>
    decreases s.len() - p,
{
    if p < 0 || p >= s.len() {
        seq![]
    } else {
        let a = find_char(s, mark_start(), p);
        if a >= s.len() || a < p {
            seq![(s.subrange(p, s.len() as int), false)]
        } else {
            let pre: Seq<(Seq<char>, bool)> = if a > p {
                seq![(s.subrange(p, a), false)]
            } else {
                seq![]
            };
            let b = find_char(s, mark_end(), a + 1);
            if b >= s.len() || b < a + 1 {
                pre + seq![(s.subrange(a + 1, s.len() as int), true)]
            } else {
                pre + seq![(s.subrange(a + 1, b), true)] + segments_from(s, b + 1)
            }
        }
    }
}

pub open spec fn segment_views(v: Seq<(String, bool)>) -> Seq<(Seq<char>, bool)> {
    v.map_values(|x: (String, bool)| (x.0@, x.1))
}

/// A snippet with marked matches, cut in segments `(text, matched)`; the
/// marks never appear in the segments.
pub fn marked_segments(s: &str) -> (r: Vec<(String, bool)>)
    ensures
        segment_views(r@) == segments_from(s@, 0),
{
    let v = chars_of(s);
    let ghost sv = v@;
    let mut out: Vec<(String, bool)> = Vec::new();
    let mut p: usize = 0;
    while p < v.len()
        invariant_except_break
            segments_from(sv, 0) == segment_views(out@) + segments_from(sv, p as int),
        invariant
            sv == v@,
            sv == s@,
            p <= sv.len(),
        ensures
            segments_from(sv, 0) == segment_views(out@),
        decreases sv.len() - p,
    {
        let a = find_char_at(v.as_slice(), '\u{2}', p);
        proof {
            lemma_find_char(sv, '\u{2}', p as int);
        }
        let ghost o0 = out@;
        if a >= v.len() {
            out.push((string_of(slice_chars(v.as_slice(), p, v.len()).as_slice()), false));
            assert(segment_views(out@) =~= segment_views(o0) + segments_from(sv, p as int));
            assert(segments_from(sv, 0) == segment_views(out@)) by {
                assert(segment_views(o0) + segments_from(sv, p as int) =~= segment_views(out@));
            }
            break;
        }
        if a > p {
            out.push((string_of(slice_chars(v.as_slice(), p, a).as_slice()), false));
        }
        let ghost o1 = out@;
        let b = find_char_at(v.as_slice(), '\u{3}', a + 1);
        proof {
            lemma_find_char(sv, '\u{3}', a + 1);
        }
        if b >= v.len() {
            out.push((string_of(slice_chars(v.as_slice(), a + 1, v.len()).as_slice()), true));
            proof {
                let pre: Seq<(Seq<char>, bool)> = if a > p {
                    seq![(sv.subrange(p as int, a as int), false)]
                } else {
                    seq![]
                };
                assert(segment_views(o1) =~= segment_views(o0) + pre);
                assert(segment_views(out@) =~= segment_views(o0) + segments_from(sv, p as int));
            }
            break;
        }
        out.push((string_of(slice_chars(v.as_slice(), a + 1, b).as_slice()), true));
        proof {
            let pre: Seq<(Seq<char>, bool)> = if a > p {
                seq![(sv.subrange(p as int, a as int), false)]
            } else {
                seq![]
            };
            assert(segment_views(o1) =~= segment_views(o0) + pre);
            assert(segment_views(out@) =~= segment_views(o0) + pre + seq![(sv.subrange(a + 1, b as int), true)]);
            assert(segments_from(sv, p as int) == pre + seq![(sv.subrange(a + 1, b as int), true)] + segments_from(sv, b + 1));
            assert(segment_views(o0) + segments_from(sv, p as int) =~= segment_views(out@) + segments_from(sv, b + 1));
        }
        p = b + 1;
    }
    out
}

// ---------------------------------------------------------------------------
// The verse gutter.
// ---------------------------------------------------------------------------
/// Number of decimal digits of `n`.
pub open spec fn digit_count(n: nat) -> nat {
    decimal(n).len()
}

/// Width of the verse-number gutter: the widest number, at least 2.
pub open spec fn gutter_width_of(ns: Seq<u16>) -> nat
    decreases ns.len(),
{
    if ns.len() == 0 {
        2
    } else {
        let p = gutter_width_of(ns.drop_last());
        let d = digit_count(ns.last() as nat);
        if d > p {
            d
        } else {
            p
        }
    }
}

pub open spec fn verse_numbers_of(vs: Seq<(u16, String)>) -> Seq<u16> {
    vs.map_values(|v: (u16, String)| v.0)
}

fn digits_of_u16(n: u16) -> (r: usize)
    ensures
        r == digit_count(n as nat),
{
    let d = crate::text::decimal_chars(n as u64);
    d.len()
}

/// Width of the verse-number gutter of the reader.
pub fn gutter_width(verses: &[(u16, String)]) -> (r: usize)
    ensures
        r == gutter_width_of(verse_numbers_of(verses@)),
{
    let ghost ns = verse_numbers_of(verses@);
    let mut w: usize = 2;
    let mut i: usize = 0;
    while i < verses.len()
        invariant
            i <= verses@.len(),
            ns == verse_numbers_of(verses@),
            w == gutter_width_of(ns.take(i as int)),
        decreases verses@.len() - i,
    {
        let d = digits_of_u16(verses[i].0);
        assert(ns.take(i + 1).drop_last() =~= ns.take(i as int));
        assert(ns.take(i + 1).last() == verses@[i as int].0);
        if d > w {
            w = d;
        }
        i = i + 1;
    }
    assert(ns.take(verses@.len() as int) =~= ns);
    w
}

/// The verse number printed in a gutter cell text (trimmed), if any.
pub fn gutter_number(cells: &str) -> (r: Option<u16>)
    ensures
        r == parse_u16_std(trim(cells@)),
{
    let t = trim_chars(chars_of(cells).as_slice());
    parse_u16_text(t.as_slice())
}

// ---------------------------------------------------------------------------
// Copying a selection.
// ---------------------------------------------------------------------------
/// The two ends of a selection in reading order (row, then column).
pub open spec fn in_reading_order(a: (u16, u16), b: (u16, u16)) -> bool {
    a.1 < b.1 || (a.1 == b.1 && a.0 <= b.0)
}

pub fn order_points(sel: Selection) -> (r: ((u16, u16), (u16, u16)))
    ensures
        r == (if in_reading_order(sel.anchor, sel.cursor) {
            (sel.anchor, sel.cursor)
        } else {
            (sel.cursor, sel.anchor)
        }),
        in_reading_order(r.0, r.1),
{
    if sel.anchor.1 < sel.cursor.1 || (sel.anchor.1 == sel.cursor.1 && sel.anchor.0 <= sel.cursor.0) {
        (sel.anchor, sel.cursor)
    } else {
        (sel.cursor, sel.anchor)
    }
}

pub open spec fn clamp_int(v: int, lo: int, hi: int) -> int {
    if v < lo {
        lo
    } else if v > hi {
        hi
    } else {
        v
    }
}

/// The cells a selection covers on row `y` (first and last column, both
/// inside the area): a flow selection, like a paragraph's.
pub open spec fn row_span(inner: Area, start: (u16, u16), end: (u16, u16), y0: int, y1: int, y: int) -> (int, int) {
    let left = inner.x as int;
    let right = inner.x + inner.width - 1;
    let (c0, c1) = if y0 == y1 {
        (if start.0 <= end.0 { start.0 as int } else { end.0 as int }, if start.0 <= end.0 { end.0 as int } else { start.0 as int })
    } else if y == y0 {
        (start.0 as int, right)
    } else if y == y1 {
        (left, end.0 as int)
    } else {
        (left, right)
    };
    (clamp_int(c0, left, right), clamp_int(c1, left, right))
}

/// The rows of a selection `(row, first column, last column)`, top to bottom,
/// kept inside the area.
pub open spec fn selection_rows_of(inner: Area, sel: Selection) -> Seq<(u16, u16, u16)> {
    let (start, end) = if in_reading_order(sel.anchor, sel.cursor) {
        (sel.anchor, sel.cursor)
    } else {
        (sel.cursor, sel.anchor)
    };
    let top = inner.y as int;
    let bottom = inner.y + inner.height - 1;
    let y0 = clamp_int(start.1 as int, top, bottom);
    let y1 = clamp_int(end.1 as int, top, bottom);
    Seq::new(
        if y1 >= y0 { (y1 - y0 + 1) as nat } else { 0 },
        |k: int| {
            let y = y0 + k;
            let sp = row_span(inner, start, end, y0, y1, y);
            (y as u16, sp.0 as u16, sp.1 as u16)
        },
    )
}

/// The rows a selection covers in the area, each with its first and last
/// column.
pub fn selection_rows(inner: Area, sel: Selection) -> (r: Vec<(u16, u16, u16)>)
    requires
        inner.fits(),
        inner.width > 0,
        inner.height > 0,
    ensures
        r@ == selection_rows_of(inner, sel),
{
    let left = inner.x;
    let right = inner.x + inner.width - 1;
    let top = inner.y;
    let bottom = inner.y + inner.height - 1;
    let (start, end) = order_points(sel);
    let y0 = clamp_u16(start.1, top, bottom);
    let y1 = clamp_u16(end.1, top, bottom);
    let ghost want = selection_rows_of(inner, sel);
    let mut out: Vec<(u16, u16, u16)> = Vec::new();
    if y1 < y0 {
        assert(want =~= out@);
        return out;
    }
    let mut y = y0;
    loop
        invariant_except_break
            out@ == want.take(y - y0),
        invariant
            inner.fits(),
            inner.width > 0,
            inner.height > 0,
            y0 <= y <= y1,
            left == inner.x,
            right == inner.x + inner.width - 1,
            want == selection_rows_of(inner, sel),
            want.len() == y1 - y0 + 1,
            (start, end) == (if in_reading_order(sel.anchor, sel.cursor) {
                (sel.anchor, sel.cursor)
            } else {
                (sel.cursor, sel.anchor)
            }),
            y0 == clamp_int(start.1 as int, inner.y as int, inner.y + inner.height - 1),
            y1 == clamp_int(end.1 as int, inner.y as int, inner.y + inner.height - 1),
        ensures
            out@ == want,
        decreases y1 - y,
    {
        let (c0, c1) = if y0 == y1 {
            if start.0 <= end.0 {
                (start.0, end.0)
            } else {
                (end.0, start.0)
            }
        } else if y == y0 {
            (start.0, right)
        } else if y == y1 {
            (left, end.0)
        } else {
            (left, right)
        };
        let c0 = clamp_u16(c0, left, right);
        let c1 = clamp_u16(c1, left, right);
        let ghost o0 = out@;
        out.push((y, c0, c1));
        proof {
            let k = y - y0;
            let sp = row_span(inner, start, end, y0 as int, y1 as int, y as int);
            assert(want[k] == (y, sp.0 as u16, sp.1 as u16));
            assert(out@ =~= want.take(k + 1));
        }
        if y == y1 {
            assert(want.take(y1 - y0 + 1) =~= want);
            break;
        }
        y = y + 1;
    }
    out
}

fn clamp_u16(v: u16, lo: u16, hi: u16) -> (r: u16)
    requires
        lo <= hi,
    ensures
        r == clamp_int(v as int, lo as int, hi as int),
{
    if v < lo {
        lo
    } else if v > hi {
        hi
    } else {
        v
    }
}

/// A copied row without its trailing spaces.
pub open spec fn trim_spaces_end(l: Seq<char>) -> Seq<char>
    decreases l.len(),
{
    if l.len() > 0 && l.last() == ' ' {
        trim_spaces_end(l.drop_last())
    } else {
        l
    }
}

/// The rows without the empty ones at the end.
pub open spec fn drop_empty_end(ls: Seq<Seq<char>>) -> Seq<Seq<char>>
    decreases ls.len(),
{
    if ls.len() > 0 && ls.last().len() == 0 {
        drop_empty_end(ls.drop_last())
    } else {
        ls
    }
}

/// The text of a selection from the text of its rows: trailing spaces and
/// trailing empty rows dropped, rows joined by line breaks.
pub open spec fn selection_body_of(rows: Seq<Seq<char>>) -> Seq<char> {
    join(drop_empty_end(rows.map_values(|l: Seq<char>| trim_spaces_end(l))), "\n"@)
}

fn trim_spaces_end_chars(v: &[char]) -> (r: String)
    ensures
        r@ == trim_spaces_end(v@),
{
    let mut n = v.len();
    assert(v@.take(n as int) =~= v@);
    while n > 0 && v[n - 1] == ' '
        invariant
            n <= v@.len(),
            trim_spaces_end(v@) == trim_spaces_end(v@.take(n as int)),
        decreases n,
    {
        assert(v@.take(n as int).drop_last() =~= v@.take(n - 1));
        n = n - 1;
    }
    let t = slice_chars(v, 0, n);
    assert(t@ =~= v@.take(n as int));
    string_of(t.as_slice())
}

/// The text of a selection, from the text of the rows it covers.
pub fn selection_body(rows: &Vec<String>) -> (r: String)
    ensures
        r@ == selection_body_of(strs(rows@)),
{
    assert(strs(rows@).take(rows@.len() as int) =~= strs(rows@));
    let ghost all = strs(rows@).map_values(|l: Seq<char>| trim_spaces_end(l));
    let mut trimmed: Vec<String> = Vec::new();
    let mut i: usize = 0;
    while i < rows.len()
        invariant
            i <= rows@.len(),
            all == strs(rows@).map_values(|l: Seq<char>| trim_spaces_end(l)),
            strs(trimmed@) == all.take(i as int),
        decreases rows@.len() - i,
    {
        let t = trim_spaces_end_chars(chars_of(rows[i].as_str()).as_slice());
        let ghost t0 = trimmed@;
        trimmed.push(t);
        assert(strs(trimmed@) =~= strs(t0).push(all[i as int]));
        assert(all.take(i + 1) =~= all.take(i as int).push(all[i as int]));
        i = i + 1;
    }
    assert(all.take(rows@.len() as int) =~= all);
    let mut n = trimmed.len();
    while n > 0 && trimmed[n - 1].as_str().unicode_len() == 0
        invariant
            n <= trimmed@.len(),
            strs(trimmed@) == all,
            drop_empty_end(all) == drop_empty_end(all.take(n as int)),
        decreases n,
    {
        assert(all.take(n as int).drop_last() =~= all.take(n - 1));
        assert(all.take(n as int).last() == trimmed@[n - 1]@);
        n = n - 1;
    }
    proof {
        if n > 0 {
            assert(all.take(n as int).last() == trimmed@[n - 1]@);
        }
        assert(drop_empty_end(all.take(n as int)) == all.take(n as int));
    }
    let kept = vstd::slice::slice_subrange(trimmed.as_slice(), 0, n);
    assert(kept@ =~= trimmed@.take(n as int));
    assert(kept@.map_values(|p: String| p@) =~= all.take(n as int));
    join_strings(kept, "\n")
}

/// The verses a selection cites, from the numbers in the gutter at its
/// first and last row: one verse, a range, or, when a number is out of sight,
/// the whole chapter.
pub open spec fn selection_verses_of(first: Option<u16>, last: Option<u16>) -> VerseRange {
    match (first, last) {
        (Some(s), Some(e)) => if s == e {
            VerseRange::Single(s)
        } else if s < e {
            VerseRange::Range { start: s, end: e }
        } else {
            VerseRange::Range { start: e, end: s }
        },
        _ => VerseRange::WholeChapter,
    }
}

pub fn selection_verses(first: Option<u16>, last: Option<u16>) -> (r: VerseRange)
    ensures
        r == selection_verses_of(first, last),
{
    match (first, last) {
        (Some(s), Some(e)) => if s == e {
            VerseRange::Single(s)
        } else if s < e {
            VerseRange::Range { start: s, end: e }
        } else {
            VerseRange::Range { start: e, end: s }
        },
        _ => VerseRange::WholeChapter,
    }
}

/// What a selection copies: the citation (`reference (VERSION)`) over the
/// text, or the text alone when it is blank.
pub open spec fn selection_copy_of(body: Seq<char>, reference: Reference, lang: Lang, version: Seq<char>) -> Seq<char> {
    if trim(body).len() == 0 {
        body
    } else {
        format_reference_spec(reference, lang) + " ("@ + version + ")\n"@ + body
    }
}

pub fn selection_copy(body: &str, reference: &Reference, lang: Lang, version: &str) -> (r: String)
    ensures
        r@ == selection_copy_of(body@, *reference, lang, version@),
{
    let t = trim_chars(chars_of(body).as_slice());
    if t.len() == 0 {
        return crate::text::copy_str(body);
    }
    let mut s = format_reference(reference, lang);
    s.append(" (");
    s.append(version);
    s.append(")\n");
    s.append(body);
    s
}

// ---------------------------------------------------------------------------
// Selecting with the mouse.
// ---------------------------------------------------------------------------
/// A press of the left button starts a selection only inside the reading
/// area.
pub fn press(reader: Option<Area>, col: u16, row: u16) -> (r: Option<Selection>)
    requires
        reader matches Some(a) ==> a.fits(),
    ensures
        match reader {
            Some(a) => if a.x <= col < a.x + a.width && a.y <= row < a.y + a.height {
                r == Some(Selection { anchor: (col, row), cursor: (col, row), dragging: true })
            } else {
                r is None
            },
            None => r is None,
        },
{
    match reader {
        Some(a) => if a.contains(col, row) {
            Some(Selection { anchor: (col, row), cursor: (col, row), dragging: true })
        } else {
            None
        },
        None => None,
    }
}

impl Selection {
    /// A drag moves the end of a selection under way, kept inside the area.
    pub fn drag(&mut self, inner: Area, col: u16, row: u16)
        requires
            inner.fits(),
        ensures
            final(self).anchor == old(self).anchor,
            final(self).dragging == old(self).dragging,
            old(self).dragging ==> final(self).cursor == inner.clamp_spec(col, row),
            !old(self).dragging ==> final(self).cursor == old(self).cursor,
    {
        if self.dragging {
            self.cursor = inner.clamp(col, row);
        }
    }

    /// The release ends the selection, at the release point (kept inside the
    /// area when there is one). `true` when it was a plain click: nothing was
    /// dragged.
    pub fn release(&mut self, inner: Option<Area>, col: u16, row: u16) -> (click: bool)
        requires
            inner matches Some(a) ==> a.fits(),
        ensures
            final(self).anchor == old(self).anchor,
            !final(self).dragging,
            final(self).cursor == (match inner {
                Some(a) => a.clamp_spec(col, row),
                None => old(self).cursor,
            }),
            click == (final(self).anchor == final(self).cursor),
    {
        self.dragging = false;
        match inner {
            Some(a) => {
                self.cursor = a.clamp(col, row);
            },
            None => {},
        }
        self.anchor.0 == self.cursor.0 && self.anchor.1 == self.cursor.1
    }
}


/// The verse that owns row `y` of the reader: the last number printed in the
/// gutter at `y` or above (a wrapped verse's continuation rows have none).
pub open spec fn owner_at(gutter: Seq<Option<u16>>, y: int) -> Option<u16>
    decreases y + 1,
{
    if y < 0 || y >= gutter.len() {
        None
    } else {
        match gutter[y] {
            Some(v) => Some(v),
            None => owner_at(gutter, y - 1),
        }
    }
}

/// The verse owning row `y`, given the numbers read from each row's gutter.
pub fn verse_at_or_above(gutter: &[Option<u16>], y: usize) -> (r: Option<u16>)
    requires
        y < gutter@.len(),
    ensures
        r == owner_at(gutter@, y as int),
{
    let mut yy: usize = y;
    loop
        invariant
            yy <= y < gutter@.len(),
            owner_at(gutter@, y as int) == owner_at(gutter@, yy as int),
        decreases yy,
    {
        if let Some(v) = gutter[yy] {
            return Some(v);
        }
        if yy == 0 {
            return None;
        }
        yy = yy - 1;
    }
}

/// The first row shown so that the selected row stays visible in a window
/// of `height` rows (at least one): scrolled down just enough when the
/// selection fell below the window, up to it when it rose above, else kept.
pub open spec fn visible_top_spec(selected: int, top: int, height: int) -> int {
    let h = if height < 1 { 1 } else { height };
    if selected >= top + h {
        selected - h + 1
    } else if selected < top {
        selected
    } else {
        top
    }
}

/// The first row to show so that row `selected` is in the window.
pub fn visible_top(selected: usize, top: usize, height: usize) -> (r: usize)
    ensures
        r == visible_top_spec(selected as int, top as int, height as int),
        r <= selected < r + (if height < 1 { 1 } else { height as int }),
{
    let h: usize = if height < 1 { 1 } else { height };
    if selected >= top && selected - top >= h {
        selected - h + 1
    } else if selected < top {
        selected
    } else {
        top
    }
}

} // verus!
