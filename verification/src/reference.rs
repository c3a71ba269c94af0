//! Bible reference parsing (PT/EN) and formatting.
//!
//! Accepted forms include `Jo 3.16`, `John 3:16`, `Gn 1.1-3`, `Sl 23`,
//! `1Co 13.4-7`, `II Coríntios 5:17` and lists separated by `;`.
//!
//! The grammar of one reference, over Unicode character classes:
//! `WS* BOOK WS* DIGITS (WS* [:.] WS* DIGITS (WS* - WS* DIGITS)?)? WS*`, where
//! `BOOK` is an optional `1`/`2`/`3`, white space, a letter, then letters,
//! combining marks, dots and white space (shortest such run).
use vstd::prelude::*;
use vstd::string::StringExecFns;

use crate::alias::{build_alias_map, book_number_in, resolve_book, AliasMap};
use crate::books::{book_info, book_spec, valid_book};
use crate::model::{Lang, Reference, VerseRange};
use crate::text::{
    blank, chars_of, decimal, is_blank, is_ws, lemma_skip_ws, lemma_trim_end_from, parse_u16,
    parse_u16_chars, push_decimal, replace_char, skip_ws, skip_ws_at, slice_chars, split,
    split_chars, string_of, trim, trim_chars, trim_end_at, trim_end_from, white_space,
};

verus! {

/// Unicode general category Letter (`\p{L}` of the `regex` crate).
pub uninterp spec fn regex_letter(c: char) -> bool;

/// Unicode general category Mark (`\p{M}` of the `regex` crate).
pub uninterp spec fn regex_mark(c: char) -> bool;

/// Unicode decimal digit (`\d`, that is `\p{Nd}`, of the `regex` crate).
pub uninterp spec fn regex_digit(c: char) -> bool;

/// Matches `c` against the `regex` class `\p{L}`.
#[verifier::external_body]
pub fn is_letter(c: char) -> (r: bool)
    ensures
        r == regex_letter(c),
{
    regex::Regex::new(r"^\p{L}$").unwrap().is_match(c.encode_utf8(&mut [0u8; 4]))
}

/// Matches `c` against the `regex` class `\p{M}`.
#[verifier::external_body]
pub fn is_mark(c: char) -> (r: bool)
    ensures
        r == regex_mark(c),
{
    regex::Regex::new(r"^\p{M}$").unwrap().is_match(c.encode_utf8(&mut [0u8; 4]))
}

/// Matches `c` against the `regex` class `\d`.
#[verifier::external_body]
pub fn is_digit(c: char) -> (r: bool)
    ensures
        r == regex_digit(c),
{
    regex::Regex::new(r"^\d$").unwrap().is_match(c.encode_utf8(&mut [0u8; 4]))
}

/// Characters allowed after the first letter of a book name.
pub open spec fn book_tail_char(c: char) -> bool {
    regex_letter(c) || regex_mark(c) || c == '.' || white_space(c)
}

/// End of the maximal run of digits starting at `i`.
pub open spec fn digit_run(s: Seq<char>, i: int) -> int
    decreases s.len() - i,
{
    if i < 0 || i >= s.len() {
        if i < 0 { 0 } else { s.len() as int }
    } else if regex_digit(s[i]) {
        digit_run(s, i + 1)
    } else {
        i
    }
}

/// End of the maximal run of book-name characters starting at `i`.
pub open spec fn tail_run(s: Seq<char>, i: int) -> int
    decreases s.len() - i,
{
    if i < 0 || i >= s.len() {
        if i < 0 { 0 } else { s.len() as int }
    } else if book_tail_char(s[i]) {
        tail_run(s, i + 1)
    } else {
        i
    }
}

pub proof fn lemma_digit_run(s: Seq<char>, i: int)
    requires
        0 <= i <= s.len(),
    ensures
        i <= digit_run(s, i) <= s.len(),
    decreases s.len() - i,
{
    if i < s.len() && regex_digit(s[i]) {
        lemma_digit_run(s, i + 1);
    }
}

pub proof fn lemma_tail_run(s: Seq<char>, i: int)
    requires
        0 <= i <= s.len(),
    ensures
        i <= tail_run(s, i) <= s.len(),
    decreases s.len() - i,
{
    if i < s.len() && book_tail_char(s[i]) {
        lemma_tail_run(s, i + 1);
    }
}

/// Positions of the parts of a reference in its input.
#[derive(Clone, Copy)]
pub struct Shape {
    pub book_start: usize,
    pub book_end: usize,
    pub chap_start: usize,
    pub chap_end: usize,
    pub v1: Option<(usize, usize)>,
    pub v2: Option<(usize, usize)>,
}

pub open spec fn numbered_prefix(c: char) -> bool {
    c == '1' || c == '2' || c == '3'
}

/// The decomposition of `s` by the reference grammar, if `s` is in it.
pub open spec fn ref_shape(s: Seq<char>) -> Option<Shape> {
    let n = s.len() as int;
    let b0 = skip_ws(s, 0);
    let l = if b0 < n && numbered_prefix(s[b0]) {
        skip_ws(s, b0 + 1)
    } else {
        b0
    };
    if !(l < n && regex_letter(s[l])) {
        None
    } else {
        let e = tail_run(s, l + 1);
        if !(e < n && regex_digit(s[e])) {
            None
        } else {
            let bend = trim_end_from(s, l, e);
            let c1 = digit_run(s, e);
            let p = skip_ws(s, c1);
            let base = Shape {
                book_start: b0 as usize,
                book_end: bend as usize,
                chap_start: e as usize,
                chap_end: c1 as usize,
                v1: None,
                v2: None,
            };
            if p == n {
                Some(base)
            } else if s[p] == ':' || s[p] == '.' {
                let q = skip_ws(s, p + 1);
                if q < n && regex_digit(s[q]) {
                    let q1 = digit_run(s, q);
                    let r = skip_ws(s, q1);
                    if r == n {
                        Some(Shape { v1: Some((q as usize, q1 as usize)), ..base })
                    } else if s[r] == '-' {
                        let t = skip_ws(s, r + 1);
                        if t < n && regex_digit(s[t]) {
                            let t1 = digit_run(s, t);
                            if skip_ws(s, t1) == n {
                                Some(
                                    Shape {
                                        v1: Some((q as usize, q1 as usize)),
                                        v2: Some((t as usize, t1 as usize)),
                                        ..base
                                    },
                                )
                            } else {
                                None
                            }
                        } else {
                            None
                        }
                    } else {
                        None
                    }
                } else {
                    None
                }
            } else {
                None
            }
        }
    }
}

/// Error while parsing a Bible reference.
#[derive(Debug, PartialEq, Eq)]
pub enum ReferenceError {
    /// Empty or white-space-only input.
    Empty,
    /// Does not match the reference grammar.
    Malformed(String),
    /// Unknown book.
    UnknownBook(String),
    /// Number out of `u16` range, not ASCII, or a zero chapter/verse.
    InvalidNumber(String),
    /// Range whose end precedes its start.
    RangeOrder { start: u16, end: u16 },
}

pub enum RefErr {
    Empty,
    Malformed(Seq<char>),
    UnknownBook(Seq<char>),
    InvalidNumber(Seq<char>),
    RangeOrder { start: u16, end: u16 },
}

pub open spec fn err_view(e: ReferenceError) -> RefErr {
    match e {
        ReferenceError::Empty => RefErr::Empty,
        ReferenceError::Malformed(s) => RefErr::Malformed(s@),
        ReferenceError::UnknownBook(s) => RefErr::UnknownBook(s@),
        ReferenceError::InvalidNumber(s) => RefErr::InvalidNumber(s@),
        ReferenceError::RangeOrder { start, end } => RefErr::RangeOrder { start, end },
    }
}

pub open spec fn result_view(r: Result<Reference, ReferenceError>) -> Result<Reference, RefErr> {
    match r {
        Ok(x) => Ok(x),
        Err(e) => Err(err_view(e)),
    }
}

/// Verses part of a reference from the parsed verse numbers.
pub open spec fn verses_of(s: Seq<char>, a: Option<u16>, b: Option<u16>) -> Result<VerseRange, RefErr> {
    match (a, b) {
        (None, _) => Ok(VerseRange::WholeChapter),
        (Some(x), None) => if x == 0 {
            Err(RefErr::InvalidNumber(s))
        } else {
            Ok(VerseRange::Single(x))
        },
        (Some(x), Some(y)) => if x == 0 || y == 0 {
            Err(RefErr::InvalidNumber(s))
        } else if x > y {
            Err(RefErr::RangeOrder { start: x, end: y })
        } else if x == y {
            Ok(VerseRange::Single(x))
        } else {
            Ok(VerseRange::Range { start: x, end: y })
        },
    }
}

/// Number in `s` between positions `p`, parsed as a `u16`, when the part is present.
pub open spec fn part_number(s: Seq<char>, p: Option<(usize, usize)>) -> Option<Option<u16>> {
    match p {
        None => Some(None),
        Some((a, b)) => match parse_u16(s.subrange(a as int, b as int)) {
            Some(v) => Some(Some(v)),
            None => None,
        },
    }
}

/// What parsing `s` as one reference gives.
pub open spec fn parse_reference_spec(s: Seq<char>) -> Result<Reference, RefErr> {
    if blank(s) {
        Err(RefErr::Empty)
    } else {
        match ref_shape(s) {
            None => Err(RefErr::Malformed(s)),
            Some(sh) => {
                let tok = s.subrange(sh.book_start as int, sh.book_end as int);
                match resolve_book(tok) {
                    None => Err(RefErr::UnknownBook(trim(tok))),
                    Some(book) => match parse_u16(
                        s.subrange(sh.chap_start as int, sh.chap_end as int),
                    ) {
                        None => Err(RefErr::InvalidNumber(s)),
                        Some(chapter) => if chapter == 0 {
                            Err(RefErr::InvalidNumber(s))
                        } else {
                            match (part_number(s, sh.v1), part_number(s, sh.v2)) {
                                (Some(a), Some(b)) => match verses_of(s, a, b) {
                                    Ok(verses) => Ok(Reference { book, chapter, verses }),
                                    Err(e) => Err(e),
                                },
                                _ => Err(RefErr::InvalidNumber(s)),
                            }
                        },
                    },
                }
            },
        }
    }
}

fn digit_run_at(v: &[char], i: usize) -> (r: usize)
    requires
        i <= v.len(),
    ensures
        r as int == digit_run(v@, i as int),
        i <= r <= v.len(),
{
    proof {
        lemma_digit_run(v@, i as int);
    }
    let mut k = i;
    while k < v.len() && is_digit(v[k])
        invariant
            i <= k <= v.len(),
            digit_run(v@, i as int) == digit_run(v@, k as int),
        decreases v.len() - k,
    {
        k = k + 1;
    }
    k
}

fn tail_run_at(v: &[char], i: usize) -> (r: usize)
    requires
        i <= v.len(),
    ensures
        r as int == tail_run(v@, i as int),
        i <= r <= v.len(),
{
    proof {
        lemma_tail_run(v@, i as int);
    }
    let mut k = i;
    while k < v.len() && (is_letter(v[k]) || is_mark(v[k]) || v[k] == '.' || is_ws(v[k]))
        invariant
            i <= k <= v.len(),
            tail_run(v@, i as int) == tail_run(v@, k as int),
        decreases v.len() - k,
    {
        k = k + 1;
    }
    k
}

/// Decomposes `v` by the reference grammar.
pub fn shape_of(v: &[char]) -> (r: Option<Shape>)
    ensures
        r == ref_shape(v@),
        r matches Some(sh) ==> sh.book_start <= sh.book_end <= sh.chap_start < sh.chap_end <= v.len()
            && (sh.v1 matches Some((a, b)) ==> a <= b <= v.len()) && (sh.v2 matches Some((a, b))
            ==> a <= b <= v.len()),
{
    let n = v.len();
    proof {
        lemma_skip_ws(v@, 0);
    }
    let b0 = skip_ws_at(v, 0);
    let l = if b0 < n && (v[b0] == '1' || v[b0] == '2' || v[b0] == '3') {
        proof {
            lemma_skip_ws(v@, b0 + 1);
        }
        skip_ws_at(v, b0 + 1)
    } else {
        b0
    };
    if !(l < n && is_letter(v[l])) {
        return None;
    }
    let e = tail_run_at(v, l + 1);
    if !(e < n && is_digit(v[e])) {
        return None;
    }
    let bend = trim_end_at(v, l, e);
    proof {
        lemma_trim_end_from(v@, l as int, e as int);
    }
    let c1 = digit_run_at(v, e);
    proof {
        lemma_digit_run(v@, e as int + 1);
        lemma_skip_ws(v@, c1 as int);
    }
    assert(c1 > e) by {
        assert(digit_run(v@, e as int) == digit_run(v@, e + 1));
    }
    let p = skip_ws_at(v, c1);
    let base = Shape { book_start: b0, book_end: bend, chap_start: e, chap_end: c1, v1: None, v2: None };
    if p == n {
        return Some(base);
    }
    if !(v[p] == ':' || v[p] == '.') {
        return None;
    }
    proof {
        lemma_skip_ws(v@, p + 1);
    }
    let q = skip_ws_at(v, p + 1);
    if !(q < n && is_digit(v[q])) {
        return None;
    }
    let q1 = digit_run_at(v, q);
    proof {
        lemma_skip_ws(v@, q1 as int);
    }
    let r = skip_ws_at(v, q1);
    if r == n {
        return Some(Shape { v1: Some((q, q1)), ..base });
    }
    if v[r] != '-' {
        return None;
    }
    proof {
        lemma_skip_ws(v@, r + 1);
    }
    let t = skip_ws_at(v, r + 1);
    if !(t < n && is_digit(v[t])) {
        return None;
    }
    let t1 = digit_run_at(v, t);
    proof {
        lemma_skip_ws(v@, t1 as int);
    }
    if skip_ws_at(v, t1) == n {
        Some(Shape { v1: Some((q, q1)), v2: Some((t, t1)), ..base })
    } else {
        None
    }
}

fn part_number_exec(v: &[char], p: Option<(usize, usize)>) -> (r: Option<Option<u16>>)
    requires
        p matches Some((a, b)) ==> a <= b <= v.len(),
    ensures
        r == part_number(v@, p),
{
    match p {
        None => Some(None),
        Some((a, b)) => {
            let d = slice_chars(v, a, b);
            match parse_u16_chars(d.as_slice()) {
                Some(x) => Some(Some(x)),
                None => None,
            }
        },
    }
}

/// Parses one reference with a prebuilt resolution table.
pub fn parse_reference_in(map: &AliasMap, input: &str) -> (r: Result<Reference, ReferenceError>)
    requires
        map.wf(),
    ensures
        result_view(r) == parse_reference_spec(input@),
{
    let v = chars_of(input);
    let vs = v.as_slice();
    if is_blank(vs) {
        return Err(ReferenceError::Empty);
    }
    let sh = match shape_of(vs) {
        None => return Err(ReferenceError::Malformed(string_of(vs))),
        Some(sh) => sh,
    };
    let tok = slice_chars(vs, sh.book_start, sh.book_end);
    let book = match book_number_in(map, tok.as_slice()) {
        None => {
            let t = trim_chars(tok.as_slice());
            return Err(ReferenceError::UnknownBook(string_of(t.as_slice())));
        },
        Some(b) => b,
    };
    let cd = slice_chars(vs, sh.chap_start, sh.chap_end);
    let chapter = match parse_u16_chars(cd.as_slice()) {
        None => return Err(ReferenceError::InvalidNumber(string_of(vs))),
        Some(c) => c,
    };
    if chapter == 0 {
        return Err(ReferenceError::InvalidNumber(string_of(vs)));
    }
    let a = part_number_exec(vs, sh.v1);
    let b = part_number_exec(vs, sh.v2);
    let (a, b) = match (a, b) {
        (Some(a), Some(b)) => (a, b),
        _ => return Err(ReferenceError::InvalidNumber(string_of(vs))),
    };
    let verses = match (a, b) {
        (None, _) => VerseRange::WholeChapter,
        (Some(x), None) => {
            if x == 0 {
                return Err(ReferenceError::InvalidNumber(string_of(vs)));
            }
            VerseRange::Single(x)
        },
        (Some(x), Some(y)) => {
            if x == 0 || y == 0 {
                return Err(ReferenceError::InvalidNumber(string_of(vs)));
            }
            if x > y {
                return Err(ReferenceError::RangeOrder { start: x, end: y });
            }
            if x == y {
                VerseRange::Single(x)
            } else {
                VerseRange::Range { start: x, end: y }
            }
        },
    };
    Ok(Reference { book, chapter, verses })
}

/// Parses one Bible reference in PT or EN.
pub fn parse_reference(input: &str) -> (r: Result<Reference, ReferenceError>)
    ensures
        result_view(r) == parse_reference_spec(input@),
{
    let map = build_alias_map();
    parse_reference_in(&map, input)
}


/// Parsing a list of pieces: blank pieces are skipped, the first failure wins.
pub open spec fn parse_pieces(ps: Seq<Seq<char>>) -> Result<Seq<Reference>, RefErr>
    decreases ps.len(),
{
    if ps.len() == 0 {
        Ok(seq![])
    } else {
        match parse_pieces(ps.drop_last()) {
            Err(e) => Err(e),
            Ok(rs) => if blank(ps.last()) {
                Ok(rs)
            } else {
                match parse_reference_spec(ps.last()) {
                    Ok(r) => Ok(rs.push(r)),
                    Err(e) => Err(e),
                }
            },
        }
    }
}

/// The pieces of a list: split on `;` and on line breaks.
pub open spec fn list_pieces(s: Seq<char>) -> Seq<Seq<char>> {
    split(replace_char(s, '\n', ';'), ';')
}

pub open spec fn parse_references_spec(s: Seq<char>) -> Result<Seq<Reference>, RefErr> {
    match parse_pieces(list_pieces(s)) {
        Err(e) => Err(e),
        Ok(rs) => if rs.len() == 0 {
            Err(RefErr::Empty)
        } else {
            Ok(rs)
        },
    }
}

/// Parses a list of references separated by `;` or line breaks; fails on the
/// first invalid item, and on a list with no item.
pub fn parse_references(input: &str) -> (r: Result<Vec<Reference>, ReferenceError>)
    ensures
        match r {
            Ok(v) => parse_references_spec(input@) == Ok::<Seq<Reference>, RefErr>(v@),
            Err(e) => parse_references_spec(input@) == Err::<Seq<Reference>, RefErr>(err_view(e)),
        },
{
    let map = build_alias_map();
    let v = chars_of(input);
    let joined = crate::text::replace_char_vec(v.as_slice(), '\n', ';');
    let pieces = split_chars(joined.as_slice(), ';');
    let ghost ps = list_pieces(input@);
    assert(pieces@.map_values(|w: Vec<char>| w@) == ps);
    let mut out: Vec<Reference> = Vec::new();
    let mut i: usize = 0;
    while i < pieces.len()
        invariant
            i <= pieces.len(),
            map.wf(),
            ps == pieces@.map_values(|w: Vec<char>| w@),
            ps == list_pieces(input@),
            parse_pieces(ps.take(i as int)) == Ok::<Seq<Reference>, RefErr>(out@),
        decreases pieces.len() - i,
    {
        let piece = &pieces[i];
        assert(ps.take((i + 1) as int).drop_last() =~= ps.take(i as int));
        assert(ps.take((i + 1) as int).last() == piece@);
        if !is_blank(piece.as_slice()) {
            let text = string_of(piece.as_slice());
            match parse_reference_in(&map, text.as_str()) {
                Ok(r) => out.push(r),
                Err(e) => {
                    assert(parse_reference_spec(piece@) == Err::<Reference, RefErr>(err_view(e)));
                    assert(parse_pieces(ps.take((i + 1) as int)) == Err::<Seq<Reference>, RefErr>(
                        err_view(e),
                    ));
                    proof {
                        lemma_parse_pieces_prefix_err(ps, (i + 1) as int);
                    }
                    return Err(e);
                },
            }
        }
        i = i + 1;
    }
    assert(ps.take(pieces.len() as int) =~= ps);
    if out.len() == 0 {
        return Err(ReferenceError::Empty);
    }
    Ok(out)
}

/// An error on a prefix of the pieces is the error of the whole list.
pub proof fn lemma_parse_pieces_prefix_err(ps: Seq<Seq<char>>, k: int)
    requires
        0 <= k <= ps.len(),
        parse_pieces(ps.take(k)) is Err,
    ensures
        parse_pieces(ps) == parse_pieces(ps.take(k)),
    decreases ps.len() - k,
{
    if k < ps.len() {
        assert(ps.take(k + 1).drop_last() =~= ps.take(k));
        lemma_parse_pieces_prefix_err(ps, k + 1);
    } else {
        assert(ps.take(k) =~= ps);
    }
}

/// Display name of book `b` in `lang` (`"?"` for an unknown number).
pub open spec fn book_name(b: u8, lang: Lang) -> Seq<char> {
    if valid_book(b as int) {
        match lang {
            Lang::Pt => book_spec(b as int).name_pt,
            Lang::En => book_spec(b as int).name_en,
        }
    } else {
        "?"@
    }
}

/// Chapter/verse separator: `.` in Portuguese, `:` in English.
pub open spec fn verse_sep(lang: Lang) -> char {
    match lang {
        Lang::Pt => '.',
        Lang::En => ':',
    }
}

/// Text of a reference: `"{name} {chapter}"`, then `"{sep}{verse}"` or
/// `"{sep}{start}-{end}"`.
pub open spec fn format_reference_spec(r: Reference, lang: Lang) -> Seq<char> {
    let head = book_name(r.book, lang) + seq![' '] + decimal(r.chapter as nat);
    match r.verses {
        VerseRange::WholeChapter => head,
        VerseRange::Single(v) => head + seq![verse_sep(lang)] + decimal(v as nat),
        VerseRange::Range { start, end } => head + seq![verse_sep(lang)] + decimal(start as nat)
            + seq!['-'] + decimal(end as nat),
    }
}

/// Formats a reference for display in `lang`.
pub fn format_reference(r: &Reference, lang: Lang) -> (s: String)
    ensures
        s@ == format_reference_spec(*r, lang),
{
    let mut s = String::new();
    match book_info(r.book) {
        Some(b) => match lang {
            Lang::Pt => s.append(b.name_pt),
            Lang::En => s.append(b.name_en),
        },
        None => s.append("?"),
    }
    crate::text::push_char(&mut s, ' ');
    push_decimal(&mut s, r.chapter as u64);
    let sep = match lang {
        Lang::Pt => '.',
        Lang::En => ':',
    };
    match r.verses {
        VerseRange::WholeChapter => {},
        VerseRange::Single(v) => {
            crate::text::push_char(&mut s, sep);
            push_decimal(&mut s, v as u64);
        },
        VerseRange::Range { start, end } => {
            crate::text::push_char(&mut s, sep);
            push_decimal(&mut s, start as u64);
            crate::text::push_char(&mut s, '-');
            push_decimal(&mut s, end as u64);
        },
    }
    s
}

/// A line break separates the items of a list exactly as `;` does: the two
/// texts that differ only there parse to the same result.
pub proof fn lemma_newline_separates_like_semicolon(a: Seq<char>, b: Seq<char>)
    ensures
        parse_references_spec(a + seq!['\n'] + b) == parse_references_spec(a + seq![';'] + b),
{
    let x = a + seq!['\n'] + b;
    let y = a + seq![';'] + b;
    assert(replace_char(x, '\n', ';') =~= replace_char(y, '\n', ';'));
}

/// A list of two items `a; b` (neither holding a separator): when both
/// parse, the list is the two references in order; when `a` is not blank and
/// fails, its error is the list's error (the first failure wins); a blank
/// item is skipped.
#[verifier::rlimit(80)]
pub proof fn lemma_list_of_two(a: Seq<char>, b: Seq<char>)
    requires
        !a.contains(';') && !a.contains('\n'),
        !b.contains(';') && !b.contains('\n'),
    ensures
        match (parse_reference_spec(a), parse_reference_spec(b)) {
            (Ok(ra), Ok(rb)) => parse_references_spec(a + seq![';'] + b) == Ok::<Seq<Reference>, RefErr>(seq![ra, rb]),
            _ => true,
        },
        !blank(a) && parse_reference_spec(a) is Err ==> parse_references_spec(a + seq![';'] + b)
            == Err::<Seq<Reference>, RefErr>(parse_reference_spec(a)->Err_0),
        blank(a) ==> parse_references_spec(a + seq![';'] + b) == parse_references_spec(b),
{
    let s = a + seq![';'] + b;
    assert(replace_char(s, '\n', ';') =~= s) by {
        assert forall|i: int| 0 <= i < s.len() implies s[i] != '\n' by {
            if i < a.len() {
                assert(s[i] == a[i]);
            } else if i > a.len() {
                assert(s[i] == b[i - a.len() - 1]);
            }
        }
    }
    assert(replace_char(b, '\n', ';') =~= b) by {
        assert forall|i: int| 0 <= i < b.len() implies b[i] != '\n' by {}
    }
    crate::text::lemma_split_cons(a, b, ';');
    crate::text::lemma_split_none(b, ';');
    let ps = seq![a] + seq![b];
    assert(list_pieces(s) == ps);
    assert(list_pieces(b) == seq![b]);
    assert(ps.drop_last() =~= seq![a]);
    assert(seq![a].drop_last() =~= Seq::<Seq<char>>::empty());
    assert(seq![b].drop_last() =~= Seq::<Seq<char>>::empty());
    assert(ps.last() == b);
    let e = Seq::<Seq<char>>::empty();
    assert(parse_pieces(e) == Ok::<Seq<Reference>, RefErr>(seq![]));
    assert(seq![a].last() == a);
    assert(seq![b].last() == b);
    let pa = parse_pieces(seq![a]);
    let pb = parse_pieces(seq![b]);
    assert(pa == (if blank(a) {
        Ok::<Seq<Reference>, RefErr>(seq![])
    } else {
        match parse_reference_spec(a) {
            Ok(r) => Ok(seq![].push(r)),
            Err(x) => Err(x),
        }
    }));
    assert(pb == (if blank(b) {
        Ok::<Seq<Reference>, RefErr>(seq![])
    } else {
        match parse_reference_spec(b) {
            Ok(r) => Ok(seq![].push(r)),
            Err(x) => Err(x),
        }
    }));
    assert(parse_pieces(ps) == match pa {
        Err(x) => Err(x),
        Ok(rs) => if blank(b) {
            Ok(rs)
        } else {
            match parse_reference_spec(b) {
                Ok(r) => Ok(rs.push(r)),
                Err(x) => Err(x),
            }
        },
    });
    if parse_reference_spec(a) is Ok {
        assert(!blank(a));
    }
    if parse_reference_spec(b) is Ok {
        assert(!blank(b));
    }
    if let (Ok(ra), Ok(rb)) = (parse_reference_spec(a), parse_reference_spec(b)) {
        assert(seq![].push(ra).push(rb) =~= seq![ra, rb]);
    }
}

} // verus!
