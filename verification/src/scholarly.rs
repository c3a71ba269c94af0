//! Scholarly data from STEPBible (CC BY 4.0): original-language tokens
//! (TAHOT Hebrew, TAGNT Greek) and brief lexicons (TBESH/TBESG). This module
//! holds the row parsers, the licence gate and the list of datasets.
use vstd::prelude::*;
use vstd::string::StringExecFns;

use crate::alias::{book_number, resolve_book};
use crate::text::{
    parse_u16_std, parse_u16_text,
    ascii_alpha, ascii_digit, chars_eq, chars_of, copy_str, find_char, find_char_at, find_chars,
    contains_lit, contains_seq, eq_lit, find_from, is_ascii_alpha, is_ascii_digit, join,
    join_strings, lemma_find_char, starts_with, starts_with_lit, ascii_alnum,
    lemma_find_from, lower_chars, lower_seq, parse_u16, parse_u16_chars, slice_chars, split,
    split_chars, string_of, strings_of, trim, trim_chars, words, words_of,
};

verus! {

// ---------------------------------------------------------------------------
// STEPBible book codes.
// ---------------------------------------------------------------------------
/// STEPBible's own code of book `n` (ex.: `Mrk`, `Jhn`).
pub open spec fn step_code(n: int) -> Seq<char> {
    if n == 1 {
        "Gen"@
    } else if n == 2 {
        "Exo"@
    } else if n == 3 {
        "Lev"@
    } else if n == 4 {
        "Num"@
    } else if n == 5 {
        "Deu"@
    } else if n == 6 {
        "Jos"@
    } else if n == 7 {
        "Jdg"@
    } else if n == 8 {
        "Rut"@
    } else if n == 9 {
        "1Sa"@
    } else if n == 10 {
        "2Sa"@
    } else if n == 11 {
        "1Ki"@
    } else if n == 12 {
        "2Ki"@
    } else if n == 13 {
        "1Ch"@
    } else if n == 14 {
        "2Ch"@
    } else if n == 15 {
        "Ezr"@
    } else if n == 16 {
        "Neh"@
    } else if n == 17 {
        "Est"@
    } else if n == 18 {
        "Job"@
    } else if n == 19 {
        "Psa"@
    } else if n == 20 {
        "Pro"@
    } else if n == 21 {
        "Ecc"@
    } else if n == 22 {
        "Sng"@
    } else if n == 23 {
        "Isa"@
    } else if n == 24 {
        "Jer"@
    } else if n == 25 {
        "Lam"@
    } else if n == 26 {
        "Ezk"@
    } else if n == 27 {
        "Dan"@
    } else if n == 28 {
        "Hos"@
    } else if n == 29 {
        "Jol"@
    } else if n == 30 {
        "Amo"@
    } else if n == 31 {
        "Oba"@
    } else if n == 32 {
        "Jon"@
    } else if n == 33 {
        "Mic"@
    } else if n == 34 {
        "Nam"@
    } else if n == 35 {
        "Hab"@
    } else if n == 36 {
        "Zep"@
    } else if n == 37 {
        "Hag"@
    } else if n == 38 {
        "Zec"@
    } else if n == 39 {
        "Mal"@
    } else if n == 40 {
        "Mat"@
    } else if n == 41 {
        "Mrk"@
    } else if n == 42 {
        "Luk"@
    } else if n == 43 {
        "Jhn"@
    } else if n == 44 {
        "Act"@
    } else if n == 45 {
        "Rom"@
    } else if n == 46 {
        "1Co"@
    } else if n == 47 {
        "2Co"@
    } else if n == 48 {
        "Gal"@
    } else if n == 49 {
        "Eph"@
    } else if n == 50 {
        "Php"@
    } else if n == 51 {
        "Col"@
    } else if n == 52 {
        "1Th"@
    } else if n == 53 {
        "2Th"@
    } else if n == 54 {
        "1Ti"@
    } else if n == 55 {
        "2Ti"@
    } else if n == 56 {
        "Tit"@
    } else if n == 57 {
        "Phm"@
    } else if n == 58 {
        "Heb"@
    } else if n == 59 {
        "Jas"@
    } else if n == 60 {
        "1Pe"@
    } else if n == 61 {
        "2Pe"@
    } else if n == 62 {
        "1Jn"@
    } else if n == 63 {
        "2Jn"@
    } else if n == 64 {
        "3Jn"@
    } else if n == 65 {
        "Jud"@
    } else if n == 66 {
        "Rev"@
    } else {
        seq![]
    }
}

fn step_code_str(n: u8) -> (r: &'static str)
    requires
        1 <= n <= 66,
    ensures
        r@ == step_code(n as int),
{
    match n {
        1 => "Gen",
        2 => "Exo",
        3 => "Lev",
        4 => "Num",
        5 => "Deu",
        6 => "Jos",
        7 => "Jdg",
        8 => "Rut",
        9 => "1Sa",
        10 => "2Sa",
        11 => "1Ki",
        12 => "2Ki",
        13 => "1Ch",
        14 => "2Ch",
        15 => "Ezr",
        16 => "Neh",
        17 => "Est",
        18 => "Job",
        19 => "Psa",
        20 => "Pro",
        21 => "Ecc",
        22 => "Sng",
        23 => "Isa",
        24 => "Jer",
        25 => "Lam",
        26 => "Ezk",
        27 => "Dan",
        28 => "Hos",
        29 => "Jol",
        30 => "Amo",
        31 => "Oba",
        32 => "Jon",
        33 => "Mic",
        34 => "Nam",
        35 => "Hab",
        36 => "Zep",
        37 => "Hag",
        38 => "Zec",
        39 => "Mal",
        40 => "Mat",
        41 => "Mrk",
        42 => "Luk",
        43 => "Jhn",
        44 => "Act",
        45 => "Rom",
        46 => "1Co",
        47 => "2Co",
        48 => "Gal",
        49 => "Eph",
        50 => "Php",
        51 => "Col",
        52 => "1Th",
        53 => "2Th",
        54 => "1Ti",
        55 => "2Ti",
        56 => "Tit",
        57 => "Phm",
        58 => "Heb",
        59 => "Jas",
        60 => "1Pe",
        61 => "2Pe",
        62 => "1Jn",
        63 => "2Jn",
        64 => "3Jn",
        65 => "Jud",
        66 => "Rev",
        _ => "",
    }
}

/// The first book from `n` on whose code matches `code` (ASCII case-insensitive).
pub open spec fn step_lookup(code: Seq<char>, n: int) -> Option<u8>
    decreases 67 - n,
{
    if n < 1 || n > 66 {
        None
    } else if lower_seq(step_code(n)) == lower_seq(code) {
        Some(n as u8)
    } else {
        step_lookup(code, n + 1)
    }
}

/// A STEPBible book code: STEP's own table first, then the general book
/// names as a fallback.
pub open spec fn step_book(code: Seq<char>) -> Option<u8> {
    match step_lookup(code, 1) {
        Some(b) => Some(b),
        None => resolve_book(code),
    }
}

/// The canonical number of a STEPBible book code.
pub fn step_book_number(code: &str) -> (r: Option<u8>)
    ensures
        r == step_book(code@),
{
    let cv = chars_of(code);
    let key = lower_chars(cv.as_slice());
    let mut n: u8 = 1;
    while n <= 66
        invariant
            1 <= n <= 67,
            key@ == lower_seq(code@),
            step_lookup(code@, 1) == step_lookup(code@, n as int),
        decreases 67 - n,
    {
        let c = chars_of(step_code_str(n));
        let lc = lower_chars(c.as_slice());
        if chars_eq(lc.as_slice(), key.as_slice()) {
            return Some(n);
        }
        n = n + 1;
    }
    book_number(code)
}


// ---------------------------------------------------------------------------
// Pieces of a row.
// ---------------------------------------------------------------------------
/// `str::split_once(c)`: the text before and after the first `c`.
pub open spec fn split_once(s: Seq<char>, c: char) -> Option<(Seq<char>, Seq<char>)> {
    let j = find_char(s, c, 0);
    if 0 <= j < s.len() {
        Some((s.subrange(0, j), s.subrange(j + 1, s.len() as int)))
    } else {
        None
    }
}

/// The text before the first `c` (all of it when there is none).
pub open spec fn before_char(s: Seq<char>, c: char) -> Seq<char> {
    s.subrange(0, find_char(s, c, 0))
}

pub fn split_once_chars(v: &[char], c: char) -> (r: Option<(Vec<char>, Vec<char>)>)
    ensures
        match split_once(v@, c) {
            Some((a, b)) => r matches Some(p) && p.0@ == a && p.1@ == b,
            None => r is None,
        },
{
    proof {
        lemma_find_char(v@, c, 0);
    }
    let j = find_char_at(v, c, 0);
    if j < v.len() {
        Some((slice_chars(v, 0, j), slice_chars(v, j + 1, v.len())))
    } else {
        None
    }
}

fn before_char_chars(v: &[char], c: char) -> (r: Vec<char>)
    ensures
        r@ == before_char(v@, c),
{
    proof {
        lemma_find_char(v@, c, 0);
    }
    let j = find_char_at(v, c, 0);
    slice_chars(v, 0, j)
}

/// End of the run of ASCII digits starting at `j`.
pub open spec fn digits_end(s: Seq<char>, j: int) -> int
    decreases s.len() - j,
{
    if j < 0 || j >= s.len() {
        if j < 0 { 0 } else { s.len() as int }
    } else if ascii_digit(s[j]) {
        digits_end(s, j + 1)
    } else {
        j
    }
}

/// End of the run of ASCII letters starting at `j`.
pub open spec fn alpha_end(s: Seq<char>, j: int) -> int
    decreases s.len() - j,
{
    if j < 0 || j >= s.len() {
        if j < 0 { 0 } else { s.len() as int }
    } else if ascii_alpha(s[j]) {
        alpha_end(s, j + 1)
    } else {
        j
    }
}

proof fn lemma_digits_end(s: Seq<char>, j: int)
    requires
        0 <= j <= s.len(),
    ensures
        j <= digits_end(s, j) <= s.len(),
    decreases s.len() - j,
{
    if j < s.len() && ascii_digit(s[j]) {
        lemma_digits_end(s, j + 1);
    }
}

proof fn lemma_alpha_end(s: Seq<char>, j: int)
    requires
        0 <= j <= s.len(),
    ensures
        j <= alpha_end(s, j) <= s.len(),
    decreases s.len() - j,
{
    if j < s.len() && ascii_alpha(s[j]) {
        lemma_alpha_end(s, j + 1);
    }
}

fn digits_end_at(v: &[char], j: usize) -> (r: usize)
    requires
        j <= v.len(),
    ensures
        r as int == digits_end(v@, j as int),
        j <= r <= v.len(),
{
    proof {
        lemma_digits_end(v@, j as int);
    }
    let mut k = j;
    while k < v.len() && is_ascii_digit(v[k])
        invariant
            j <= k <= v.len(),
            digits_end(v@, j as int) == digits_end(v@, k as int),
        decreases v.len() - k,
    {
        k = k + 1;
    }
    k
}

fn alpha_end_at(v: &[char], j: usize) -> (r: usize)
    requires
        j <= v.len(),
    ensures
        r as int == alpha_end(v@, j as int),
        j <= r <= v.len(),
{
    proof {
        lemma_alpha_end(v@, j as int);
    }
    let mut k = j;
    while k < v.len() && is_ascii_alpha(v[k])
        invariant
            j <= k <= v.len(),
            alpha_end(v@, j as int) == alpha_end(v@, k as int),
        decreases v.len() - k,
    {
        k = k + 1;
    }
    k
}

/// The number at the start of a text (after trimming): its leading ASCII
/// digits, read as a `u16`.
pub open spec fn leading_number_of(s: Seq<char>) -> Option<u16> {
    let t = trim(s);
    parse_u16(t.subrange(0, digits_end(t, 0)))
}

pub fn leading_number(s: &[char]) -> (r: Option<u16>)
    ensures
        r == leading_number_of(s@),
{
    let t = trim_chars(s);
    let e = digits_end_at(t.as_slice(), 0);
    let d = slice_chars(t.as_slice(), 0, e);
    parse_u16_chars(d.as_slice())
}


/// The reference column of a STEP row, `Eng(+Heb)#word=type`, as
/// `(book, chapter, verse, word)`. The English reference (before `(`) is
/// used: it is the versification of the embedded translations.
pub open spec fn parse_ref_spec(col: Seq<char>) -> Option<(u8, u16, u16, u16)> {
    match split_once(col, '#') {
        None => None,
        Some((refpart, after)) => {
            let eng = trim(before_char(refpart, '('));
            let parts = split(eng, '.');
            if parts.len() < 3 {
                None
            } else {
                match step_book(trim(parts[0])) {
                    None => None,
                    Some(book) => match parse_u16_std(trim(parts[1])) {
                        None => None,
                        Some(chapter) => match leading_number_of(trim(parts[2])) {
                            None => None,
                            Some(verse) => match leading_number_of(after) {
                                None => None,
                                Some(word) => Some((book, chapter, verse, word)),
                            },
                        },
                    },
                }
            }
        },
    }
}

/// Parses the reference column of a STEP row; `None` for an invalid row.
pub fn parse_ref(col: &str) -> (r: Option<(u8, u16, u16, u16)>)
    ensures
        r == parse_ref_spec(col@),
{
    let cv = chars_of(col);
    let (refpart, after) = match split_once_chars(cv.as_slice(), '#') {
        Some(p) => p,
        None => return None,
    };
    let eng = trim_chars(before_char_chars(refpart.as_slice(), '(').as_slice());
    let parts = split_chars(eng.as_slice(), '.');
    assert(parts@.map_values(|w: Vec<char>| w@).len() == parts@.len());
    if parts.len() < 3 {
        return None;
    }
    assert(parts@[0]@ == split(eng@, '.')[0]);
    assert(parts@[1]@ == split(eng@, '.')[1]);
    assert(parts@[2]@ == split(eng@, '.')[2]);
    let code = string_of(trim_chars(parts[0].as_slice()).as_slice());
    let book = match step_book_number(code.as_str()) {
        Some(b) => b,
        None => return None,
    };
    let chapter = match parse_u16_text(trim_chars(parts[1].as_slice()).as_slice()) {
        Some(c) => c,
        None => return None,
    };
    let verse = match leading_number(trim_chars(parts[2].as_slice()).as_slice()) {
        Some(v) => v,
        None => return None,
    };
    let word = match leading_number(after.as_slice()) {
        Some(w) => w,
        None => return None,
    };
    Some((book, chapter, verse, word))
}

/// Where a Strong's number starts: `H` or `G` followed by a digit.
pub open spec fn strong_start(s: Seq<char>, i: int) -> bool {
    0 <= i && i + 1 < s.len() && (s[i] == 'H' || s[i] == 'G') && ascii_digit(s[i + 1])
}

pub open spec fn first_strong(s: Seq<char>, i: int) -> int
    decreases s.len() - i,
{
    if i < 0 || i >= s.len() {
        s.len() as int
    } else if strong_start(s, i) {
        i
    } else {
        first_strong(s, i + 1)
    }
}

proof fn lemma_first_strong(s: Seq<char>, i: int)
    requires
        0 <= i <= s.len(),
    ensures
        i <= first_strong(s, i) <= s.len(),
        first_strong(s, i) < s.len() ==> strong_start(s, first_strong(s, i)),
    decreases s.len() - i,
{
    if i < s.len() && !strong_start(s, i) {
        lemma_first_strong(s, i + 1);
    }
}

/// The first Strong's number of a text (`H1254A`, `G0976`): the letter, its
/// digits and any letters right after them.
pub open spec fn extract_strong_of(s: Seq<char>) -> Option<Seq<char>> {
    let i = first_strong(s, 0);
    if i >= s.len() {
        None
    } else {
        Some(s.subrange(i, alpha_end(s, digits_end(s, i + 1))))
    }
}

fn extract_strong_chars(v: &[char]) -> (r: Option<Vec<char>>)
    ensures
        match extract_strong_of(v@) {
            Some(x) => r matches Some(w) && w@ == x,
            None => r is None,
        },
{
    proof {
        lemma_first_strong(v@, 0);
    }
    let mut i: usize = 0;
    while i < v.len()
        invariant
            i <= v.len(),
            first_strong(v@, 0) == first_strong(v@, i as int),
        decreases v.len() - i,
    {
        if (v[i] == 'H' || v[i] == 'G') && i + 1 < v.len() && is_ascii_digit(v[i + 1]) {
            let d = digits_end_at(v, i + 1);
            let a = alpha_end_at(v, d);
            return Some(slice_chars(v, i, a));
        }
        i = i + 1;
    }
    None
}

/// Extracts the first Strong's number (`H1254A`/`G0976`) of a text.
pub fn extract_strong(s: &str) -> (r: Option<String>)
    ensures
        match extract_strong_of(s@) {
            Some(x) => r matches Some(w) && w@ == x,
            None => r is None,
        },
{
    match extract_strong_chars(chars_of(s).as_slice()) {
        Some(w) => Some(string_of(w.as_slice())),
        None => None,
    }
}

/// The text between the first braces `{...}` (the root, in TAHOT's dStrongs).
pub open spec fn braces_of(s: Seq<char>) -> Option<Seq<char>> {
    let start = find_char(s, '{', 0);
    if start >= s.len() {
        None
    } else {
        let end = find_char(s, '}', start);
        if end >= s.len() {
            None
        } else {
            Some(s.subrange(start + 1, end))
        }
    }
}

fn braces_chars(v: &[char]) -> (r: Option<Vec<char>>)
    ensures
        match braces_of(v@) {
            Some(x) => r matches Some(w) && w@ == x,
            None => r is None,
        },
{
    proof {
        lemma_find_char(v@, '{', 0);
    }
    let start = find_char_at(v, '{', 0);
    if start >= v.len() {
        return None;
    }
    proof {
        lemma_find_char(v@, '}', start as int);
    }
    let end = find_char_at(v, '}', start);
    if end >= v.len() {
        return None;
    }
    assert(v@[start as int] == '{');
    assert(end != start);
    Some(slice_chars(v, start + 1, end))
}

/// The content of the first braces of a text.
pub fn braces_content(s: &str) -> (r: Option<String>)
    ensures
        match braces_of(s@) {
            Some(x) => r matches Some(w) && w@ == x,
            None => r is None,
        },
{
    match braces_chars(chars_of(s).as_slice()) {
        Some(w) => Some(string_of(w.as_slice())),
        None => None,
    }
}


// ---------------------------------------------------------------------------
// Cleaning the text of a column.
// ---------------------------------------------------------------------------
/// White-space runs collapsed to one space, no space at the ends.
pub open spec fn collapse_ws_of(s: Seq<char>) -> Seq<char> {
    join(words(s), " "@)
}

pub fn collapse_ws(v: &[char]) -> (r: String)
    ensures
        r@ == collapse_ws_of(v@),
{
    let ws = words_of(v);
    let ss = strings_of(&ws);
    join_strings(ss.as_slice(), " ")
}

/// `s` without any `a` or `b`.
pub open spec fn drop_chars(s: Seq<char>, a: char, b: char) -> Seq<char>
    decreases s.len(),
{
    if s.len() == 0 {
        seq![]
    } else if s.last() == a || s.last() == b {
        drop_chars(s.drop_last(), a, b)
    } else {
        drop_chars(s.drop_last(), a, b).push(s.last())
    }
}

fn drop_chars_vec(v: &[char], a: char, b: char) -> (r: Vec<char>)
    ensures
        r@ == drop_chars(v@, a, b),
{
    let mut r: Vec<char> = Vec::new();
    let mut i: usize = 0;
    while i < v.len()
        invariant
            i <= v.len(),
            r@ == drop_chars(v@.take(i as int), a, b),
        decreases v.len() - i,
    {
        assert(v@.take((i + 1) as int).drop_last() =~= v@.take(i as int));
        if v[i] != a && v[i] != b {
            r.push(v[i]);
        }
        i = i + 1;
    }
    assert(v@.take(v.len() as int) =~= v@);
    r
}

/// The surface form: `/` and `\\` (morpheme breaks) removed, spaces collapsed.
pub open spec fn clean_surface_of(s: Seq<char>) -> Seq<char> {
    collapse_ws_of(drop_chars(s, '/', '\\'))
}

pub fn clean_surface(s: &[char]) -> (r: String)
    ensures
        r@ == clean_surface_of(s@),
{
    let d = drop_chars_vec(s, '/', '\\');
    collapse_ws(d.as_slice())
}

/// Reading a gloss: text inside `<...>` is dropped, and so are `/`, `[`, `]`.
pub open spec fn gloss_step(st: (Seq<char>, bool), c: char) -> (Seq<char>, bool) {
    if c == '<' {
        (st.0, true)
    } else if c == '>' {
        (st.0, false)
    } else if c == '/' || c == '[' || c == ']' {
        st
    } else if st.1 {
        st
    } else {
        (st.0.push(c), st.1)
    }
}

pub open spec fn gloss_after(s: Seq<char>) -> (Seq<char>, bool)
    decreases s.len(),
{
    if s.len() == 0 {
        (seq![], false)
    } else {
        gloss_step(gloss_after(s.drop_last()), s.last())
    }
}

pub open spec fn clean_gloss_of(s: Seq<char>) -> Seq<char> {
    collapse_ws_of(gloss_after(s).0)
}

pub fn clean_gloss(s: &[char]) -> (r: String)
    ensures
        r@ == clean_gloss_of(s@),
{
    let mut out: Vec<char> = Vec::new();
    let mut in_angle = false;
    let mut i: usize = 0;
    while i < s.len()
        invariant
            i <= s.len(),
            (out@, in_angle) == gloss_after(s@.take(i as int)),
        decreases s.len() - i,
    {
        assert(s@.take((i + 1) as int).drop_last() =~= s@.take(i as int));
        let c = s[i];
        if c == '<' {
            in_angle = true;
        } else if c == '>' {
            in_angle = false;
        } else if c == '/' || c == '[' || c == ']' {
        } else if in_angle {
        } else {
            out.push(c);
        }
        i = i + 1;
    }
    assert(s@.take(s.len() as int) =~= s@);
    collapse_ws(out.as_slice())
}

/// `str::replace(pat, rep)`: non-overlapping occurrences of `pat`, left to
/// right, replaced by `rep`.
pub open spec fn replace_all(s: Seq<char>, pat: Seq<char>, rep: Seq<char>) -> Seq<char>
    decreases s.len(),
{
    let i = find_from(s, pat, 0);
    if pat.len() == 0 || i < 0 || i + pat.len() > s.len() {
        s
    } else {
        s.subrange(0, i) + rep + replace_all(s.subrange(i + pat.len(), s.len() as int), pat, rep)
    }
}

fn replace_all_vec(v: &[char], pat: &[char], rep: &[char]) -> (r: Vec<char>)
    requires
        pat.len() > 0,
    ensures
        r@ == replace_all(v@, pat@, rep@),
{
    let mut out: Vec<char> = Vec::new();
    let mut rest: Vec<char> = slice_chars(v, 0, v.len());
    assert(rest@ =~= v@);
    while rest.len() > 0
        invariant
            pat@.len() > 0,
            out@ + replace_all(rest@, pat@, rep@) == replace_all(v@, pat@, rep@),
        decreases rest.len(),
    {
        proof {
            lemma_find_from(rest@, pat@, 0);
        }
        let ghost r0 = rest@;
        match find_chars(rest.as_slice(), pat, 0) {
            Some(i) => {
                if i + pat.len() > rest.len() {
                    assert(replace_all(r0, pat@, rep@) == r0);
                    let mut k: usize = 0;
                    let ghost o0 = out@;
                    while k < rest.len()
                        invariant
                            k <= rest.len(),
                            out@ == o0 + rest@.take(k as int),
                        decreases rest.len() - k,
                    {
                        out.push(rest[k]);
                        assert(rest@.take((k + 1) as int) =~= rest@.take(k as int).push(rest@[k as int]));
                        k = k + 1;
                    }
                    assert(rest@.take(rest.len() as int) =~= rest@);
                    assert(out@ =~= o0 + r0);
                    assert(out@ =~= out@ + replace_all(Seq::<char>::empty(), pat@, rep@));
                    return out;
                }
                let ghost o0 = out@;
                let mut k: usize = 0;
                while k < i
                    invariant
                        k <= i <= rest.len(),
                        out@ == o0 + rest@.take(k as int),
                    decreases i - k,
                {
                    out.push(rest[k]);
                    assert(rest@.take((k + 1) as int) =~= rest@.take(k as int).push(rest@[k as int]));
                    k = k + 1;
                }
                let mut j: usize = 0;
                while j < rep.len()
                    invariant
                        j <= rep.len(),
                        k == i,
                        out@ == o0 + rest@.take(i as int) + rep@.take(j as int),
                    decreases rep.len() - j,
                {
                    out.push(rep[j]);
                    assert(rep@.take((j + 1) as int) =~= rep@.take(j as int).push(rep@[j as int]));
                    j = j + 1;
                }
                assert(rep@.take(rep.len() as int) =~= rep@);
                assert(rest@.take(i as int) =~= r0.subrange(0, i as int));
                let next = slice_chars(rest.as_slice(), i + pat.len(), rest.len());
                rest = next;
                assert(replace_all(r0, pat@, rep@) == r0.subrange(0, i as int) + rep@ + replace_all(rest@, pat@, rep@));
                assert(out@ + replace_all(rest@, pat@, rep@) =~= o0 + replace_all(r0, pat@, rep@));
            },
            None => {
                assert(replace_all(r0, pat@, rep@) == r0);
                let mut k: usize = 0;
                let ghost o0 = out@;
                while k < rest.len()
                    invariant
                        k <= rest.len(),
                        out@ == o0 + rest@.take(k as int),
                    decreases rest.len() - k,
                {
                    out.push(rest[k]);
                    assert(rest@.take((k + 1) as int) =~= rest@.take(k as int).push(rest@[k as int]));
                    k = k + 1;
                }
                assert(rest@.take(rest.len() as int) =~= rest@);
                assert(out@ =~= o0 + r0);
                assert(out@ =~= out@ + replace_all(Seq::<char>::empty(), pat@, rep@));
                return out;
            },
        }
    }
    assert(replace_all(rest@, pat@, rep@) =~= rest@) by {
        assert(rest@.len() == 0);
    }
    assert(out@ =~= out@ + rest@);
    out
}

/// Reading a definition: text inside `<...>` tags is dropped.
pub open spec fn tag_step(st: (Seq<char>, bool), c: char) -> (Seq<char>, bool) {
    if c == '<' {
        (st.0, true)
    } else if c == '>' {
        (st.0, false)
    } else if st.1 {
        st
    } else {
        (st.0.push(c), st.1)
    }
}

pub open spec fn tags_after(s: Seq<char>) -> (Seq<char>, bool)
    decreases s.len(),
{
    if s.len() == 0 {
        (seq![], false)
    } else {
        tag_step(tags_after(s.drop_last()), s.last())
    }
}

/// A definition: line breaks `<br>`/`<BR>` become `"; "`, other tags are
/// dropped, spaces collapsed.
pub open spec fn clean_definition_of(s: Seq<char>) -> Seq<char> {
    let a = replace_all(replace_all(s, "<br>"@, "; "@), "<BR>"@, "; "@);
    collapse_ws_of(tags_after(a).0)
}

pub fn clean_definition(s: &[char]) -> (r: String)
    ensures
        r@ == clean_definition_of(s@),
{
    let br = chars_of("<br>");
    let br2 = chars_of("<BR>");
    let semi = chars_of("; ");
    proof {
        reveal_strlit("<br>");
        reveal_strlit("<BR>");
    }
    let a1 = replace_all_vec(s, br.as_slice(), semi.as_slice());
    let a = replace_all_vec(a1.as_slice(), br2.as_slice(), semi.as_slice());
    let mut out: Vec<char> = Vec::new();
    let mut in_tag = false;
    let mut i: usize = 0;
    while i < a.len()
        invariant
            i <= a.len(),
            (out@, in_tag) == tags_after(a@.take(i as int)),
        decreases a.len() - i,
    {
        assert(a@.take((i + 1) as int).drop_last() =~= a@.take(i as int));
        let c = a[i];
        if c == '<' {
            in_tag = true;
        } else if c == '>' {
            in_tag = false;
        } else if in_tag {
        } else {
            out.push(c);
        }
        i = i + 1;
    }
    assert(a@.take(a.len() as int) =~= a@);
    collapse_ws(out.as_slice())
}

/// A trimmed text, `None` when empty.
pub open spec fn opt_of(s: Seq<char>) -> Option<Seq<char>> {
    if trim(s).len() == 0 {
        None
    } else {
        Some(trim(s))
    }
}

pub open spec fn opt_view(o: Option<String>) -> Option<Seq<char>> {
    match o {
        Some(s) => Some(s@),
        None => None,
    }
}

pub fn opt(s: &[char]) -> (r: Option<String>)
    ensures
        opt_view(r) == opt_of(s@),
{
    let t = trim_chars(s);
    if t.len() == 0 {
        None
    } else {
        Some(string_of(t.as_slice()))
    }
}


// ---------------------------------------------------------------------------
// Rows.
// ---------------------------------------------------------------------------
/// One word of the original-language text.
#[derive(Debug, Clone, PartialEq, Eq)]
pub struct Token {
    /// `OT` or `NT`.
    pub testament: &'static str,
    pub book: u8,
    pub chapter: u16,
    pub verse: u16,
    /// Position of the word in the verse.
    pub word_index: u16,
    /// Surface form.
    pub surface: String,
    pub translit: Option<String>,
    pub lemma: Option<String>,
    /// Strong's number (with its letter suffix).
    pub strongs: Option<String>,
    /// Strong's number as found in the row.
    pub strongs_raw: Option<String>,
    pub morph: Option<String>,
    pub gloss: Option<String>,
}

/// One entry of a brief lexicon.
#[derive(Debug, Clone, PartialEq, Eq)]
pub struct LexEntry {
    /// Extended Strong's number.
    pub strongs: String,
    pub lemma: Option<String>,
    pub translit: Option<String>,
    pub gloss: Option<String>,
    pub definition: Option<String>,
    pub derivation: Option<String>,
}

/// Abstract token.
pub struct TokenView {
    pub testament: Seq<char>,
    pub book: u8,
    pub chapter: u16,
    pub verse: u16,
    pub word_index: u16,
    pub surface: Seq<char>,
    pub translit: Option<Seq<char>>,
    pub lemma: Option<Seq<char>>,
    pub strongs: Option<Seq<char>>,
    pub strongs_raw: Option<Seq<char>>,
    pub morph: Option<Seq<char>>,
    pub gloss: Option<Seq<char>>,
}

pub open spec fn token_view(t: Token) -> TokenView {
    TokenView {
        testament: t.testament@,
        book: t.book,
        chapter: t.chapter,
        verse: t.verse,
        word_index: t.word_index,
        surface: t.surface@,
        translit: opt_view(t.translit),
        lemma: opt_view(t.lemma),
        strongs: opt_view(t.strongs),
        strongs_raw: opt_view(t.strongs_raw),
        morph: opt_view(t.morph),
        gloss: opt_view(t.gloss),
    }
}

/// Abstract lexicon entry.
pub struct LexView {
    pub strongs: Seq<char>,
    pub lemma: Option<Seq<char>>,
    pub translit: Option<Seq<char>>,
    pub gloss: Option<Seq<char>>,
    pub definition: Option<Seq<char>>,
    pub derivation: Option<Seq<char>>,
}

pub open spec fn lex_view(e: LexEntry) -> LexView {
    LexView {
        strongs: e.strongs@,
        lemma: opt_view(e.lemma),
        translit: opt_view(e.translit),
        gloss: opt_view(e.gloss),
        definition: opt_view(e.definition),
        derivation: opt_view(e.derivation),
    }
}

pub open spec fn and_then_strong(b: Option<Seq<char>>) -> Option<Seq<char>> {
    match b {
        Some(x) => extract_strong_of(x),
        None => None,
    }
}

/// A TAHOT row (Hebrew OT), tab-separated: reference, surface, translit,
/// gloss, dStrongs, morphology. The Strong's number is the root's, in braces.
pub open spec fn hebrew_row_of(line: Seq<char>) -> Option<TokenView> {
    let cols = split(line, '\t');
    if cols.len() < 6 {
        None
    } else {
        match parse_ref_spec(cols[0]) {
            None => None,
            Some((book, chapter, verse, word_index)) => {
                let raw = and_then_strong(braces_of(cols[4]));
                Some(
                    TokenView {
                        testament: "OT"@,
                        book,
                        chapter,
                        verse,
                        word_index,
                        surface: clean_surface_of(cols[1]),
                        translit: opt_of(drop_chars(cols[2], '/', '/')),
                        lemma: None,
                        strongs: raw,
                        strongs_raw: raw,
                        morph: opt_of(cols[5]),
                        gloss: opt_of(clean_gloss_of(cols[3])),
                    },
                )
            },
        }
    }
}

fn cols_of(line: &str) -> (r: Vec<Vec<char>>)
    ensures
        r@.map_values(|w: Vec<char>| w@) == split(line@, '\t'),
{
    let v = chars_of(line);
    split_chars(v.as_slice(), '\t')
}

fn opt_string(o: Option<Vec<char>>) -> (r: Option<String>)
    ensures
        opt_view(r) == (match o {
            Some(w) => Some(w@),
            None => None::<Seq<char>>,
        }),
{
    match o {
        Some(w) => Some(string_of(w.as_slice())),
        None => None,
    }
}

fn clone_opt(o: &Option<String>) -> (r: Option<String>)
    ensures
        opt_view(r) == opt_view(*o),
{
    match o {
        Some(s) => Some(copy_str(s.as_str())),
        None => None,
    }
}

/// Parses a TAHOT row; `None` for a short or invalid row.
pub fn parse_hebrew_row(line: &str) -> (r: Option<Token>)
    ensures
        match hebrew_row_of(line@) {
            Some(t) => r matches Some(x) && token_view(x) == t,
            None => r is None,
        },
{
    let cols = cols_of(line);
    let ghost cv = cols@.map_values(|w: Vec<char>| w@);
    if cols.len() < 6 {
        return None;
    }
    assert(cols@[0]@ == cv[0] && cols@[1]@ == cv[1] && cols@[2]@ == cv[2]);
    assert(cols@[3]@ == cv[3] && cols@[4]@ == cv[4] && cols@[5]@ == cv[5]);
    let r0 = string_of(cols[0].as_slice());
    let (book, chapter, verse, word_index) = match parse_ref(r0.as_str()) {
        Some(x) => x,
        None => return None,
    };
    let raw = match braces_chars(cols[4].as_slice()) {
        Some(b) => extract_strong_chars(b.as_slice()),
        None => None,
    };
    let strongs = opt_string(raw);
    let strongs_raw = clone_opt(&strongs);
    let translit_src = drop_chars_vec(cols[2].as_slice(), '/', '/');
    let gloss = clean_gloss(cols[3].as_slice());
    let gv = chars_of(gloss.as_str());
    Some(Token {
        testament: "OT",
        book,
        chapter,
        verse,
        word_index,
        surface: clean_surface(cols[1].as_slice()),
        translit: opt(translit_src.as_slice()),
        lemma: None,
        strongs,
        strongs_raw,
        morph: opt(cols[5].as_slice()),
        gloss: opt(gv.as_slice()),
    })
}

/// `s` with every trailing `c` removed.
pub open spec fn strip_trailing(s: Seq<char>, c: char) -> Seq<char>
    decreases s.len(),
{
    if s.len() > 0 && s.last() == c {
        strip_trailing(s.drop_last(), c)
    } else {
        s
    }
}

fn strip_trailing_vec(v: &[char], c: char) -> (r: Vec<char>)
    ensures
        r@ == strip_trailing(v@, c),
{
    let mut k = v.len();
    assert(v@.take(v.len() as int) =~= v@);
    while k > 0 && v[k - 1] == c
        invariant
            k <= v.len(),
            strip_trailing(v@, c) == strip_trailing(v@.take(k as int), c),
        decreases k,
    {
        assert(v@.take(k as int).drop_last() =~= v@.take(k - 1));
        k = k - 1;
    }
    let r = slice_chars(v, 0, k);
    assert(r@ =~= v@.take(k as int));
    r
}

/// A TAGNT row (Greek NT): reference, `surface (translit)`, gloss,
/// `Strong=morphology`, `lemma=gloss`.
pub open spec fn greek_row_of(line: Seq<char>) -> Option<TokenView> {
    let cols = split(line, '\t');
    if cols.len() < 5 {
        None
    } else {
        match parse_ref_spec(cols[0]) {
            None => None,
            Some((book, chapter, verse, word_index)) => {
                let (surface, translit) = match split_once(cols[1], '(') {
                    Some((a, b)) => (trim(a), opt_of(strip_trailing(b, ')'))),
                    None => (trim(cols[1]), None),
                };
                let (strongs, morph) = match split_once(cols[3], '=') {
                    Some((a, m)) => (extract_strong_of(a), opt_of(m)),
                    None => (extract_strong_of(cols[3]), None),
                };
                Some(
                    TokenView {
                        testament: "NT"@,
                        book,
                        chapter,
                        verse,
                        word_index,
                        surface,
                        translit,
                        lemma: opt_of(before_char(cols[4], '=')),
                        strongs,
                        strongs_raw: strongs,
                        morph,
                        gloss: opt_of(clean_gloss_of(cols[2])),
                    },
                )
            },
        }
    }
}

/// Parses a TAGNT row; `None` for a short or invalid row.
pub fn parse_greek_row(line: &str) -> (r: Option<Token>)
    ensures
        match greek_row_of(line@) {
            Some(t) => r matches Some(x) && token_view(x) == t,
            None => r is None,
        },
{
    let cols = cols_of(line);
    let ghost cv = cols@.map_values(|w: Vec<char>| w@);
    if cols.len() < 5 {
        return None;
    }
    assert(cols@[0]@ == cv[0] && cols@[1]@ == cv[1] && cols@[2]@ == cv[2]);
    assert(cols@[3]@ == cv[3] && cols@[4]@ == cv[4]);
    let r0 = string_of(cols[0].as_slice());
    let (book, chapter, verse, word_index) = match parse_ref(r0.as_str()) {
        Some(x) => x,
        None => return None,
    };
    let (surface, translit) = match split_once_chars(cols[1].as_slice(), '(') {
        Some((a, b)) => {
            let t = strip_trailing_vec(b.as_slice(), ')');
            (string_of(trim_chars(a.as_slice()).as_slice()), opt(t.as_slice()))
        },
        None => (string_of(trim_chars(cols[1].as_slice()).as_slice()), None),
    };
    let (strongs, morph) = match split_once_chars(cols[3].as_slice(), '=') {
        Some((a, m)) => (opt_string(extract_strong_chars(a.as_slice())), opt(m.as_slice())),
        None => (opt_string(extract_strong_chars(cols[3].as_slice())), None),
    };
    let strongs_raw = clone_opt(&strongs);
    let lemma_src = before_char_chars(cols[4].as_slice(), '=');
    let gloss = clean_gloss(cols[2].as_slice());
    let gv = chars_of(gloss.as_str());
    Some(Token {
        testament: "NT",
        book,
        chapter,
        verse,
        word_index,
        surface,
        translit,
        lemma: opt(lemma_src.as_slice()),
        strongs,
        strongs_raw,
        morph,
        gloss: opt(gv.as_slice()),
    })
}

/// A TBESH/TBESG row: the entry is keyed on the extended Strong's number of
/// the second column (before any `=`, which introduces the derivation).
pub open spec fn lexicon_row_of(line: Seq<char>) -> Option<LexView> {
    let cols = split(line, '\t');
    if cols.len() < 7 {
        None
    } else {
        let (key_part, relation) = match split_once(cols[1], '=') {
            Some((k, r)) => (trim(k), opt_of(r)),
            None => (trim(cols[1]), None),
        };
        match extract_strong_of(key_part) {
            None => None,
            Some(strongs) => Some(
                LexView {
                    strongs,
                    lemma: opt_of(cols[3]),
                    translit: opt_of(cols[4]),
                    gloss: opt_of(clean_gloss_of(cols[6])),
                    definition: if cols.len() > 7 {
                        opt_of(clean_definition_of(cols[7]))
                    } else {
                        None
                    },
                    derivation: relation,
                },
            ),
        }
    }
}

/// Parses a lexicon row; `None` for a short row or one without a Strong's number.
pub fn parse_lexicon_row(line: &str) -> (r: Option<LexEntry>)
    ensures
        match lexicon_row_of(line@) {
            Some(e) => r matches Some(x) && lex_view(x) == e,
            None => r is None,
        },
{
    let cols = cols_of(line);
    let ghost cv = cols@.map_values(|w: Vec<char>| w@);
    if cols.len() < 7 {
        return None;
    }
    assert(cols@[1]@ == cv[1] && cols@[3]@ == cv[3] && cols@[4]@ == cv[4] && cols@[6]@ == cv[6]);
    let (key_part, relation) = match split_once_chars(cols[1].as_slice(), '=') {
        Some((k, r)) => (trim_chars(k.as_slice()), opt(r.as_slice())),
        None => (trim_chars(cols[1].as_slice()), None),
    };
    let strongs = match extract_strong_chars(key_part.as_slice()) {
        Some(w) => string_of(w.as_slice()),
        None => return None,
    };
    let gloss = clean_gloss(cols[6].as_slice());
    let gv = chars_of(gloss.as_str());
    let definition = if cols.len() > 7 {
        assert(cols@[7]@ == cv[7]);
        let d = clean_definition(cols[7].as_slice());
        let dv = chars_of(d.as_str());
        opt(dv.as_slice())
    } else {
        None
    };
    Some(LexEntry {
        strongs,
        lemma: opt(cols[3].as_slice()),
        translit: opt(cols[4].as_slice()),
        gloss: opt(gv.as_slice()),
        definition,
        derivation: relation,
    })
}


// ---------------------------------------------------------------------------
// Paths in the STEPBible repository.
// ---------------------------------------------------------------------------
/// The UTF-8 encoding of a character.
pub open spec fn utf8_of(c: char) -> Seq<u8> {
    let x = c as u32 as int;
    if x < 0x80 {
        seq![x as u8]
    } else if x < 0x800 {
        seq![(0xC0 + x / 64) as u8, (0x80 + x % 64) as u8]
    } else if x < 0x10000 {
        seq![(0xE0 + x / 4096) as u8, (0x80 + (x / 64) % 64) as u8, (0x80 + x % 64) as u8]
    } else {
        seq![
            (0xF0 + x / 262144) as u8,
            (0x80 + (x / 4096) % 64) as u8,
            (0x80 + (x / 64) % 64) as u8,
            (0x80 + x % 64) as u8,
        ]
    }
}

pub open spec fn hex_digit(d: int) -> char {
    if d < 10 {
        (('0' as u32) + d) as char
    } else {
        (('A' as u32) + d - 10) as char
    }
}

/// `%XX` (uppercase hex) for each byte.
pub open spec fn percent_bytes(bs: Seq<u8>) -> Seq<char>
    decreases bs.len(),
{
    if bs.len() == 0 {
        seq![]
    } else {
        percent_bytes(bs.drop_last()) + seq!['%', hex_digit((bs.last() / 16) as int), hex_digit((bs.last() % 16) as int)]
    }
}

/// Characters kept as they are in a path.
pub open spec fn path_safe(c: char) -> bool {
    ascii_alnum(c) || c == '-' || c == '.' || c == '_' || c == '~' || c == '/'
}

/// A repository path percent-encoded (keeps `/`, `-`, `.`, `_`, `~`).
pub open spec fn encode_path_of(s: Seq<char>) -> Seq<char>
    decreases s.len(),
{
    if s.len() == 0 {
        seq![]
    } else {
        encode_path_of(s.drop_last()) + if path_safe(s.last()) {
            seq![s.last()]
        } else {
            percent_bytes(utf8_of(s.last()))
        }
    }
}

fn hex_char(d: u8) -> (r: char)
    requires
        d < 16,
    ensures
        r == hex_digit(d as int),
{
    if d < 10 {
        let b: u8 = 48 + d;
        b as char
    } else {
        let b: u8 = 55 + d;
        b as char
    }
}

pub fn utf8_bytes(c: char) -> (r: Vec<u8>)
    ensures
        r@ == utf8_of(c),
{
    let x: u32 = c as u32;
    if x < 0x80 {
        vec![x as u8]
    } else if x < 0x800 {
        vec![(0xC0 + x / 64) as u8, (0x80 + x % 64) as u8]
    } else if x < 0x10000 {
        vec![(0xE0 + x / 4096) as u8, (0x80 + (x / 64) % 64) as u8, (0x80 + x % 64) as u8]
    } else {
        assert(x <= 0x10FFFF);
        vec![
            (0xF0 + x / 262144) as u8,
            (0x80 + (x / 4096) % 64) as u8,
            (0x80 + (x / 64) % 64) as u8,
            (0x80 + x % 64) as u8,
        ]
    }
}

pub fn push_percent(out: &mut Vec<char>, bs: &[u8])
    ensures
        final(out)@ == old(out)@ + percent_bytes(bs@),
{
    let ghost o0 = out@;
    let mut i: usize = 0;
    while i < bs.len()
        invariant
            i <= bs.len(),
            out@ == o0 + percent_bytes(bs@.take(i as int)),
        decreases bs.len() - i,
    {
        let b = bs[i];
        out.push('%');
        out.push(hex_char(b / 16));
        out.push(hex_char(b % 16));
        assert(bs@.take((i + 1) as int).drop_last() =~= bs@.take(i as int));
        i = i + 1;
        assert(out@ =~= o0 + percent_bytes(bs@.take(i as int)));
    }
    assert(bs@.take(bs.len() as int) =~= bs@);
}

/// Percent-encodes a repository path (keeps `/`, `-`, `.`, `_`, `~`).
pub fn encode_path(path: &str) -> (r: String)
    ensures
        r@ == encode_path_of(path@),
{
    let v = chars_of(path);
    let mut out: Vec<char> = Vec::new();
    let mut i: usize = 0;
    while i < v.len()
        invariant
            i <= v.len(),
            v@ == path@,
            out@ == encode_path_of(v@.take(i as int)),
        decreases v.len() - i,
    {
        let c = v[i];
        assert(v@.take((i + 1) as int).drop_last() =~= v@.take(i as int));
        if crate::text::is_ascii_alnum(c) || c == '-' || c == '.' || c == '_' || c == '~' || c == '/' {
            out.push(c);
        } else {
            let bs = utf8_bytes(c);
            push_percent(&mut out, bs.as_slice());
        }
        i = i + 1;
    }
    assert(v@.take(v.len() as int) =~= v@);
    string_of(out.as_slice())
}

// ---------------------------------------------------------------------------
// Datasets and the licence gate.
// ---------------------------------------------------------------------------
/// Required attribution (recorded with the data and shown by the interface).
pub const ATTRIBUTION: &'static str =
    "Credit it to 'STEP Bible' linked to www.STEPBible.org (data based on work at Tyndale House, Cambridge; CC BY 4.0)";

/// Kind of content of a STEP dataset.
#[derive(Debug, Clone, Copy, PartialEq, Eq, Structural)]
pub enum Kind {
    /// Hebrew tokens (TAHOT), Old Testament.
    HebrewTokens,
    /// Greek tokens (TAGNT), New Testament.
    GreekTokens,
    /// Brief lexicon (TBESH/TBESG).
    Lexicon,
}

/// An embeddable dataset: its record and its remote files.
#[derive(Debug, Clone, Copy)]
pub struct ScholarlySpec {
    pub id: &'static str,
    pub name: &'static str,
    pub license: &'static str,
    /// Must be `true` to import.
    pub embeddable: bool,
    pub kind: Kind,
    /// Folder in the repository.
    pub folder: &'static str,
    /// Files in the repository, downloaded in order and concatenated.
    pub files: &'static [&'static str],
}

/// Ids of the importable datasets, in order.
pub open spec fn dataset_ids() -> Seq<Seq<char>> {
    seq!["tahot"@, "tagnt"@, "tbesh"@, "tbesg"@]
}

/// Content kinds of the importable datasets, in order.
pub open spec fn dataset_kinds() -> Seq<Kind> {
    seq![Kind::HebrewTokens, Kind::GreekTokens, Kind::Lexicon, Kind::Lexicon]
}

/// The importable datasets.
pub fn specs() -> (r: Vec<ScholarlySpec>)
    ensures
        r@.map_values(|s: ScholarlySpec| s.id@) == dataset_ids(),
        r@.map_values(|s: ScholarlySpec| s.kind) == dataset_kinds(),
        forall|i: int| 0 <= i < r@.len() ==> (#[trigger] r@[i]).embeddable && r@[i].license@ == "cc-by"@,
{
    let r = vec![
        ScholarlySpec {
            id: "tahot",
            name: "Translators Amalgamated Hebrew OT (TAHOT)",
            license: "cc-by",
            embeddable: true,
            kind: Kind::HebrewTokens,
            folder: "Translators Amalgamated OT+NT",
            files: &[
                "TAHOT Gen-Deu - Translators Amalgamated Hebrew OT - STEPBible.org CC BY.txt",
                "TAHOT Jos-Est - Translators Amalgamated Hebrew OT - STEPBible.org CC BY.txt",
                "TAHOT Job-Sng - Translators Amalgamated Hebrew OT - STEPBible.org CC BY.txt",
                "TAHOT Isa-Mal - Translators Amalgamated Hebrew OT - STEPBible.org CC BY.txt",
            ],
        },
        ScholarlySpec {
            id: "tagnt",
            name: "Translators Amalgamated Greek NT (TAGNT)",
            license: "cc-by",
            embeddable: true,
            kind: Kind::GreekTokens,
            folder: "Translators Amalgamated OT+NT",
            files: &[
                "TAGNT Mat-Jhn - Translators Amalgamated Greek NT - STEPBible.org CC-BY.txt",
                "TAGNT Act-Rev - Translators Amalgamated Greek NT - STEPBible.org CC-BY.txt",
            ],
        },
        ScholarlySpec {
            id: "tbesh",
            name: "Translators Brief lexicon of Extended Strongs for Hebrew (TBESH)",
            license: "cc-by",
            embeddable: true,
            kind: Kind::Lexicon,
            folder: "Lexicons",
            files: &["TBESH - Translators Brief lexicon of Extended Strongs for Hebrew - STEPBible.org CC BY.txt"],
        },
        ScholarlySpec {
            id: "tbesg",
            name: "Translators Brief lexicon of Extended Strongs for Greek (TBESG)",
            license: "cc-by",
            embeddable: true,
            kind: Kind::Lexicon,
            folder: "Lexicons",
            files: &["TBESG - Translators Brief lexicon of Extended Strongs for Greek - STEPBible.org CC BY.txt"],
        },
    ];
    assert(r@.map_values(|s: ScholarlySpec| s.id@) =~= dataset_ids());
    assert(r@.map_values(|s: ScholarlySpec| s.kind) =~= dataset_kinds());
    r
}

/// Importable datasets, in order (the complete default set).
pub fn default_datasets() -> (r: Vec<String>)
    ensures
        r@.map_values(|s: String| s@) == dataset_ids(),
{
    let sp = specs();
    let ghost ids = sp@.map_values(|s: ScholarlySpec| s.id@);
    let mut r: Vec<String> = Vec::new();
    let mut i: usize = 0;
    while i < sp.len()
        invariant
            i <= sp.len(),
            ids == sp@.map_values(|s: ScholarlySpec| s.id@),
            r@.map_values(|s: String| s@) == ids.take(i as int),
        decreases sp.len() - i,
    {
        let ghost r0 = r@;
        r.push(copy_str(sp[i].id));
        assert(r@.map_values(|s: String| s@) =~= r0.map_values(|s: String| s@).push(ids[i as int]));
        assert(ids.take((i + 1) as int) =~= ids.take(i as int).push(ids[i as int]));
        i = i + 1;
    }
    assert(ids.take(sp.len() as int) =~= ids);
    r
}

/// The importable ids as text (for help and errors).
pub fn available_datasets() -> (r: String)
    ensures
        r@ == join(dataset_ids(), ", "@),
{
    let ids = default_datasets();
    join_strings(ids.as_slice(), ", ")
}

/// Ids that can never be embedded, whatever a licence string says.
pub open spec fn denylisted(id: Seq<char>) -> bool {
    id == "sblgnt"@ || id == "morphgnt"@ || id == "louwnida"@ || id == "bdag"@ || id == "halot"@
}

/// A licence that allows embedding: public domain, CC0 or CC BY, without
/// share-alike, non-commercial or no-derivatives terms.
pub open spec fn license_allows(lic: Seq<char>) -> bool {
    (lic == "public-domain"@ || lic == "cc0"@ || starts_with(lic, "cc-by"@)) && !contains_seq(lic, "-sa"@)
        && !contains_seq(lic, "-nc"@) && !contains_seq(lic, "-nd"@)
}

/// The error message of the licence gate, `None` when the dataset may be embedded.
pub open spec fn embeddable_error(id: Seq<char>, embeddable: bool, license: Seq<char>) -> Option<Seq<char>> {
    if denylisted(lower_seq(id)) {
        Some("`"@ + id + "` está na denylist e não pode ser embarcado"@)
    } else if !embeddable {
        Some("`"@ + id + "` não é embarcável (embeddable=false)"@)
    } else if !license_allows(lower_seq(license)) {
        Some("licença `"@ + license + "` de `"@ + id + "` não passa na verificação de embarcabilidade"@)
    } else {
        None
    }
}

/// Errors of the scholarly import.
#[derive(Debug)]
pub enum ScholarlyError {
    /// Generic error with a message.
    Msg(String),
    /// Network/HTTP error.
    Http(String),
    /// I/O error (message).
    Io(String),
    /// SQLite error (message).
    Sqlite(String),
}

/// Checks licence and embeddability BEFORE any import: denylist, the
/// `embeddable` flag and a CC-BY/PD licence string.
pub fn ensure_embeddable(spec: &ScholarlySpec) -> (r: Result<(), ScholarlyError>)
    ensures
        match embeddable_error(spec.id@, spec.embeddable, spec.license@) {
            Some(m) => r matches Err(ScholarlyError::Msg(x)) && x@ == m,
            None => r is Ok,
        },
{
    let id = lower_chars(chars_of(spec.id).as_slice());
    let idv = id.as_slice();
    if eq_lit(idv, "sblgnt") || eq_lit(idv, "morphgnt") || eq_lit(idv, "louwnida") || eq_lit(idv, "bdag")
        || eq_lit(idv, "halot") {
        let mut m = copy_str("`");
        m.append(spec.id);
        m.append("` está na denylist e não pode ser embarcado");
        return Err(ScholarlyError::Msg(m));
    }
    if !spec.embeddable {
        let mut m = copy_str("`");
        m.append(spec.id);
        m.append("` não é embarcável (embeddable=false)");
        return Err(ScholarlyError::Msg(m));
    }
    let lic = lower_chars(chars_of(spec.license).as_slice());
    let lv = lic.as_slice();
    let ok = eq_lit(lv, "public-domain") || eq_lit(lv, "cc0") || starts_with_lit(lv, "cc-by");
    if !ok || contains_lit(lv, "-sa") || contains_lit(lv, "-nc") || contains_lit(lv, "-nd") {
        let mut m = copy_str("licença `");
        m.append(spec.license);
        m.append("` de `");
        m.append(spec.id);
        m.append("` não passa na verificação de embarcabilidade");
        return Err(ScholarlyError::Msg(m));
    }
    Ok(())
}

/// Least number of records a complete dataset has (a smaller import means an
/// incomplete source).
pub open spec fn floor_of(id: Seq<char>) -> nat {
    if id == "tahot"@ {
        300000
    } else if id == "tagnt"@ {
        100000
    } else if id == "tbesh"@ || id == "tbesg"@ {
        5000
    } else {
        1
    }
}

pub fn sanity_floor(spec: &ScholarlySpec) -> (r: usize)
    ensures
        r == floor_of(spec.id@),
{
    let id = chars_of(spec.id);
    let v = id.as_slice();
    if eq_lit(v, "tahot") {
        300000
    } else if eq_lit(v, "tagnt") {
        100000
    } else if eq_lit(v, "tbesh") || eq_lit(v, "tbesg") {
        5000
    } else {
        1
    }
}

} // verus!
