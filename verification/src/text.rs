//! Character and string primitives shared by every parser and renderer of the
//! library, each stated over `Seq<char>` views.
use vstd::prelude::*;
use vstd::string::StringExecFns;

verus! {

// ---------------------------------------------------------------------------
// Character classes.
// ---------------------------------------------------------------------------
/// The Unicode `White_Space` property (what `char::is_whitespace` decides):
/// ASCII tab to carriage return and space, NEL, NBSP, OGHAM SPACE MARK,
/// EN QUAD to HAIR SPACE, LINE and PARAGRAPH SEPARATOR, NNBSP, MMSP and
/// IDEOGRAPHIC SPACE.
pub open spec fn white_space(c: char) -> bool {
    ||| c == ' '
    ||| ('\u{9}' <= c && c <= '\u{d}')
    ||| c == '\u{85}'
    ||| c == '\u{a0}'
    ||| c == '\u{1680}'
    ||| ('\u{2000}' <= c && c <= '\u{200a}')
    ||| c == '\u{2028}'
    ||| c == '\u{2029}'
    ||| c == '\u{202f}'
    ||| c == '\u{205f}'
    ||| c == '\u{3000}'
}

/// `char::is_whitespace`.
pub fn is_ws(c: char) -> (r: bool)
    ensures
        r == white_space(c),
{
    c == ' ' || ('\u{9}' <= c && c <= '\u{d}') || c == '\u{85}' || c == '\u{a0}' || c == '\u{1680}'
        || ('\u{2000}' <= c && c <= '\u{200a}') || c == '\u{2028}' || c == '\u{2029}' || c
        == '\u{202f}' || c == '\u{205f}' || c == '\u{3000}'
}

pub open spec fn ascii_digit(c: char) -> bool {
    '0' <= c && c <= '9'
}

pub open spec fn ascii_upper(c: char) -> bool {
    'A' <= c && c <= 'Z'
}

pub open spec fn ascii_lowercase_letter(c: char) -> bool {
    'a' <= c && c <= 'z'
}

pub open spec fn ascii_alpha(c: char) -> bool {
    ascii_upper(c) || ascii_lowercase_letter(c)
}

pub open spec fn ascii_alnum(c: char) -> bool {
    ascii_alpha(c) || ascii_digit(c)
}

/// ASCII lowercase of one character (non-ASCII characters are kept).
pub open spec fn ascii_lower(c: char) -> char {
    if ascii_upper(c) {
        ((c as u32) + 32) as char
    } else {
        c
    }
}

pub open spec fn lower_seq(s: Seq<char>) -> Seq<char> {
    s.map_values(|c: char| ascii_lower(c))
}

pub fn is_ascii_digit(c: char) -> (r: bool)
    ensures
        r == ascii_digit(c),
{
    '0' <= c && c <= '9'
}

pub fn is_ascii_alpha(c: char) -> (r: bool)
    ensures
        r == ascii_alpha(c),
{
    ('A' <= c && c <= 'Z') || ('a' <= c && c <= 'z')
}

pub fn is_ascii_alnum(c: char) -> (r: bool)
    ensures
        r == ascii_alnum(c),
{
    is_ascii_alpha(c) || is_ascii_digit(c)
}

pub fn to_ascii_lower(c: char) -> (r: char)
    ensures
        r == ascii_lower(c),
{
    if 'A' <= c && c <= 'Z' {
        let b: u8 = c as u8;
        assert(b as int == c as int);
        ((b + 32) as u8) as char
    } else {
        c
    }
}

// ---------------------------------------------------------------------------
// Conversions between `&str`, `String` and `Vec<char>`.
// ---------------------------------------------------------------------------
pub fn chars_of(s: &str) -> (v: Vec<char>)
    ensures
        v@ == s@,
{
    let mut v: Vec<char> = Vec::new();
    for c in it: s.chars()
        invariant
            v@ == it.seq().take(it.index() as int),
            it.seq() == s@,
    {
        v.push(c);
    }
    v
}

/// Calls `String::push`: appends one character.
#[verifier::external_body]
pub fn push_char(s: &mut String, c: char)
    ensures
        final(s)@ == old(s)@.push(c),
{
    s.push(c);
}

pub fn push_chars(s: &mut String, v: &[char])
    ensures
        final(s)@ == old(s)@ + v@,
{
    let ghost start = s@;
    let mut i: usize = 0;
    while i < v.len()
        invariant
            i <= v.len(),
            s@ == start + v@.take(i as int),
        decreases v.len() - i,
    {
        push_char(s, v[i]);
        i = i + 1;
        assert(v@.take(i as int) == v@.take((i - 1) as int).push(v@[i - 1]));
    }
    assert(v@.take(v.len() as int) == v@);
}

pub fn string_of(v: &[char]) -> (s: String)
    ensures
        s@ == v@,
{
    let mut s = String::new();
    push_chars(&mut s, v);
    s
}

/// Each character vector as a `String`, in order.
pub fn strings_of(v: &Vec<Vec<char>>) -> (r: Vec<String>)
    ensures
        r@.map_values(|s: String| s@) == v@.map_values(|w: Vec<char>| w@),
{
    let mut r: Vec<String> = Vec::new();
    let mut i: usize = 0;
    while i < v.len()
        invariant
            i <= v.len(),
            r@.map_values(|s: String| s@) == v@.take(i as int).map_values(|w: Vec<char>| w@),
        decreases v.len() - i,
    {
        let ghost old_r = r@;
        r.push(string_of(v[i].as_slice()));
        assert(r@.map_values(|s: String| s@) =~= old_r.map_values(|s: String| s@).push(v@[i as int]@));
        assert(v@.take((i + 1) as int).map_values(|w: Vec<char>| w@) =~= v@.take(i as int).map_values(
            |w: Vec<char>| w@,
        ).push(v@[i as int]@));
        i = i + 1;
    }
    assert(v@.take(v.len() as int) =~= v@);
    r
}

pub fn copy_str(s: &str) -> (r: String)
    ensures
        r@ == s@,
{
    let mut r = String::new();
    r.append(s);
    r
}

/// Two character sequences are equal.
pub fn chars_eq(a: &[char], b: &[char]) -> (r: bool)
    ensures
        r == (a@ == b@),
{
    if a.len() != b.len() {
        return false;
    }
    let mut i: usize = 0;
    while i < a.len()
        invariant
            i <= a.len(),
            a.len() == b.len(),
            forall|j: int| 0 <= j < i ==> a@[j] == b@[j],
        decreases a.len() - i,
    {
        if a[i] != b[i] {
            return false;
        }
        i = i + 1;
    }
    assert(a@ =~= b@);
    true
}

/// `v` equals the characters of `lit`.
pub fn eq_lit(v: &[char], lit: &str) -> (r: bool)
    ensures
        r == (v@ == lit@),
{
    let l = chars_of(lit);
    chars_eq(v, l.as_slice())
}

pub fn str_eq(a: &str, b: &str) -> (r: bool)
    ensures
        r == (a@ == b@),
{
    let x = chars_of(a);
    let y = chars_of(b);
    chars_eq(x.as_slice(), y.as_slice())
}

pub fn lower_chars(v: &[char]) -> (r: Vec<char>)
    ensures
        r@ == lower_seq(v@),
{
    let mut r: Vec<char> = Vec::new();
    let mut i: usize = 0;
    while i < v.len()
        invariant
            i <= v.len(),
            r@ == lower_seq(v@.take(i as int)),
        decreases v.len() - i,
    {
        r.push(to_ascii_lower(v[i]));
        i = i + 1;
        assert(lower_seq(v@.take(i as int)) =~= lower_seq(v@.take((i - 1) as int)).push(
            ascii_lower(v@[i - 1]),
        ));
    }
    assert(v@.take(v.len() as int) =~= v@);
    r
}

/// `s` with every `from` character replaced by `to`.
pub open spec fn replace_char(s: Seq<char>, from: char, to: char) -> Seq<char> {
    s.map_values(|c: char| if c == from { to } else { c })
}

pub fn replace_char_vec(v: &[char], from: char, to: char) -> (r: Vec<char>)
    ensures
        r@ == replace_char(v@, from, to),
{
    let mut r: Vec<char> = Vec::new();
    let mut i: usize = 0;
    while i < v.len()
        invariant
            i <= v.len(),
            r@ == replace_char(v@.take(i as int), from, to),
        decreases v.len() - i,
    {
        let c = v[i];
        r.push(if c == from { to } else { c });
        i = i + 1;
        assert(replace_char(v@.take(i as int), from, to) =~= replace_char(
            v@.take((i - 1) as int),
            from,
            to,
        ).push(if c == from { to } else { c }));
    }
    assert(v@.take(v.len() as int) =~= v@);
    r
}

// ---------------------------------------------------------------------------
// Matching a pattern at a position.
// ---------------------------------------------------------------------------
/// `pat` occurs in `s` starting at index `i`.
pub open spec fn occurs_at(s: Seq<char>, pat: Seq<char>, i: int) -> bool {
    0 <= i && i + pat.len() <= s.len() && s.subrange(i, i + pat.len()) == pat
}

pub open spec fn starts_with(s: Seq<char>, pat: Seq<char>) -> bool {
    occurs_at(s, pat, 0)
}

pub open spec fn ends_with(s: Seq<char>, pat: Seq<char>) -> bool {
    occurs_at(s, pat, s.len() - pat.len())
}

/// `pat` occurs somewhere in `s`.
pub open spec fn contains_seq(s: Seq<char>, pat: Seq<char>) -> bool {
    exists|i: int| occurs_at(s, pat, i)
}

pub fn match_at(s: &[char], pat: &[char], i: usize) -> (r: bool)
    ensures
        r == occurs_at(s@, pat@, i as int),
{
    if i > s.len() || pat.len() > s.len() - i {
        return false;
    }
    let mut k: usize = 0;
    while k < pat.len()
        invariant
            k <= pat.len(),
            i + pat.len() <= s.len(),
            forall|j: int| 0 <= j < k ==> s@[i + j] == pat@[j],
        decreases pat.len() - k,
    {
        if s[i + k] != pat[k] {
            assert(s@.subrange(i as int, i + pat.len())[k as int] != pat@[k as int]);
            return false;
        }
        k = k + 1;
    }
    assert(s@.subrange(i as int, i + pat.len()) =~= pat@);
    true
}

/// Index of the first occurrence of `pat` at or after `from` (none: `s.len() + 1`).
pub open spec fn find_from(s: Seq<char>, pat: Seq<char>, from: int) -> int
    decreases s.len() + 1 - from,
{
    if from < 0 || from > s.len() {
        (s.len() + 1) as int
    } else if occurs_at(s, pat, from) {
        from
    } else {
        find_from(s, pat, from + 1)
    }
}

pub proof fn lemma_find_from(s: Seq<char>, pat: Seq<char>, from: int)
    requires
        0 <= from <= s.len(),
    ensures
        from <= find_from(s, pat, from) <= s.len() + 1,
        find_from(s, pat, from) <= s.len() ==> occurs_at(s, pat, find_from(s, pat, from)),
        forall|j: int| from <= j < find_from(s, pat, from) && j <= s.len() ==> !occurs_at(s, pat, j),
    decreases s.len() + 1 - from,
{
    if !occurs_at(s, pat, from) {
        if from < s.len() {
            lemma_find_from(s, pat, from + 1);
        } else {
            assert(find_from(s, pat, from + 1) == s.len() + 1);
        }
    }
}

pub fn find_chars(s: &[char], pat: &[char], from: usize) -> (r: Option<usize>)
    requires
        from <= s.len(),
    ensures
        match r {
            Some(i) => i as int == find_from(s@, pat@, from as int) && i <= s.len(),
            None => find_from(s@, pat@, from as int) == s.len() + 1,
        },
{
    let mut i = from;
    while i < s.len()
        invariant
            from <= i <= s.len(),
            find_from(s@, pat@, from as int) == find_from(s@, pat@, i as int),
        decreases s.len() - i,
    {
        if match_at(s, pat, i) {
            return Some(i);
        }
        i = i + 1;
    }
    if match_at(s, pat, i) {
        return Some(i);
    }
    assert(find_from(s@, pat@, i + 1) == s.len() + 1);
    None
}

pub fn contains_chars(s: &[char], pat: &[char]) -> (r: bool)
    ensures
        r == contains_seq(s@, pat@),
{
    proof {
        lemma_find_from(s@, pat@, 0);
    }
    match find_chars(s, pat, 0) {
        Some(_) => true,
        None => {
            assert forall|i: int| !occurs_at(s@, pat@, i) by {
                if 0 <= i <= s@.len() {
                } else {
                }
            }
            false
        },
    }
}

pub fn contains_lit(s: &[char], lit: &str) -> (r: bool)
    ensures
        r == contains_seq(s@, lit@),
{
    let p = chars_of(lit);
    contains_chars(s, p.as_slice())
}

pub fn starts_with_lit(s: &[char], lit: &str) -> (r: bool)
    ensures
        r == starts_with(s@, lit@),
{
    let p = chars_of(lit);
    match_at(s, p.as_slice(), 0)
}

// ---------------------------------------------------------------------------
// Slicing.
// ---------------------------------------------------------------------------
pub fn slice_chars(v: &[char], from: usize, to: usize) -> (r: Vec<char>)
    requires
        from <= to <= v.len(),
    ensures
        r@ == v@.subrange(from as int, to as int),
{
    let mut r: Vec<char> = Vec::new();
    let mut i = from;
    while i < to
        invariant
            from <= i <= to <= v.len(),
            r@ == v@.subrange(from as int, i as int),
        decreases to - i,
    {
        r.push(v[i]);
        i = i + 1;
        assert(v@.subrange(from as int, i as int) =~= v@.subrange(from as int, (i - 1) as int).push(
            v@[i - 1],
        ));
    }
    r
}

// ---------------------------------------------------------------------------
// Whitespace: trimming and words.
// ---------------------------------------------------------------------------
/// First index at or after `i` that is not white space (or `s.len()`).
pub open spec fn skip_ws(s: Seq<char>, i: int) -> int
    decreases s.len() - i,
{
    if i < 0 || i >= s.len() {
        if i < 0 { 0 } else { s.len() as int }
    } else if white_space(s[i]) {
        skip_ws(s, i + 1)
    } else {
        i
    }
}

/// First index at or after `i` that is white space (or `s.len()`).
pub open spec fn skip_word(s: Seq<char>, i: int) -> int
    decreases s.len() - i,
{
    if i < 0 || i >= s.len() {
        if i < 0 { 0 } else { s.len() as int }
    } else if !white_space(s[i]) {
        skip_word(s, i + 1)
    } else {
        i
    }
}

/// End of `s` once trailing white space (at or after `lo`) is dropped.
pub open spec fn trim_end_from(s: Seq<char>, lo: int, hi: int) -> int
    decreases hi - lo,
{
    if hi <= lo {
        lo
    } else if white_space(s[hi - 1]) {
        trim_end_from(s, lo, hi - 1)
    } else {
        hi
    }
}

/// `str::trim`: leading and trailing white space removed.
pub open spec fn trim(s: Seq<char>) -> Seq<char> {
    let a = skip_ws(s, 0);
    s.subrange(a, trim_end_from(s, a, s.len() as int))
}

/// `str::trim_end`: trailing white space removed.
pub open spec fn trim_end(s: Seq<char>) -> Seq<char> {
    s.subrange(0, trim_end_from(s, 0, s.len() as int))
}

/// Every character of `s` is white space.
pub open spec fn blank(s: Seq<char>) -> bool {
    forall|i: int| 0 <= i < s.len() ==> white_space(#[trigger] s[i])
}

pub proof fn lemma_skip_ws(s: Seq<char>, i: int)
    requires
        0 <= i <= s.len(),
    ensures
        i <= skip_ws(s, i) <= s.len(),
        skip_ws(s, i) < s.len() ==> !white_space(s[skip_ws(s, i)]),
        forall|j: int| i <= j < skip_ws(s, i) ==> white_space(s[j]),
    decreases s.len() - i,
{
    if i < s.len() && white_space(s[i]) {
        lemma_skip_ws(s, i + 1);
    }
}

pub proof fn lemma_skip_word(s: Seq<char>, i: int)
    requires
        0 <= i <= s.len(),
    ensures
        i <= skip_word(s, i) <= s.len(),
        skip_word(s, i) < s.len() ==> white_space(s[skip_word(s, i)]),
        forall|j: int| i <= j < skip_word(s, i) ==> !white_space(s[j]),
    decreases s.len() - i,
{
    if i < s.len() && !white_space(s[i]) {
        lemma_skip_word(s, i + 1);
    }
}

pub proof fn lemma_trim_end_from(s: Seq<char>, lo: int, hi: int)
    requires
        0 <= lo <= hi <= s.len(),
    ensures
        lo <= trim_end_from(s, lo, hi) <= hi,
        trim_end_from(s, lo, hi) > lo ==> !white_space(s[trim_end_from(s, lo, hi) - 1]),
        forall|j: int| trim_end_from(s, lo, hi) <= j < hi ==> white_space(s[j]),
    decreases hi - lo,
{
    if hi > lo && white_space(s[hi - 1]) {
        lemma_trim_end_from(s, lo, hi - 1);
    }
}

/// A sequence with no white space is its own trim.
pub proof fn lemma_trim_plain(s: Seq<char>)
    requires
        forall|i: int| 0 <= i < s.len() ==> !white_space(#[trigger] s[i]),
    ensures
        trim(s) == s,
{
    lemma_skip_ws(s, 0);
    let a = skip_ws(s, 0);
    assert(a == 0) by {
        if a > 0 {
            assert(white_space(s[0]));
        }
    }
    lemma_trim_end_from(s, 0, s.len() as int);
    let b = trim_end_from(s, 0, s.len() as int);
    assert(b == s.len()) by {
        if b < s.len() {
            assert(white_space(s[b]));
        }
    }
    assert(s.subrange(0, s.len() as int) =~= s);
}

/// A sequence that is empty or has no white space at either end is its own trim.
pub proof fn lemma_trim_fixed(s: Seq<char>)
    requires
        s.len() == 0 || (!white_space(s[0]) && !white_space(s[s.len() - 1])),
    ensures
        trim(s) == s,
{
    if s.len() > 0 {
        lemma_skip_ws(s, 0);
        lemma_trim_end_from(s, 0, s.len() as int);
        assert(skip_ws(s, 0) == 0);
        assert(trim_end_from(s, 0, s.len() as int) == s.len());
    }
    assert(s.subrange(0, s.len() as int) =~= s);
}

/// A trimmed sequence has no white space at either end.
pub proof fn lemma_trim_ends(s: Seq<char>)
    ensures
        trim(s).len() > 0 ==> !white_space(trim(s)[0]) && !white_space(trim(s)[trim(s).len() - 1]),
        trim(s).len() <= s.len(),
{
    lemma_skip_ws(s, 0);
    let a = skip_ws(s, 0);
    lemma_trim_end_from(s, a, s.len() as int);
    let b = trim_end_from(s, a, s.len() as int);
    if b > a {
        assert(trim(s)[0] == s[a]);
        assert(trim(s)[trim(s).len() - 1] == s[b - 1]);
    }
}

/// Trimming twice is trimming once.
pub proof fn lemma_trim_idem(s: Seq<char>)
    ensures
        trim(trim(s)) == trim(s),
{
    lemma_trim_ends(s);
    lemma_trim_fixed(trim(s));
}

/// The characters of `trim(s)` are characters of `s`.
pub proof fn lemma_trim_sub(s: Seq<char>)
    ensures
        forall|i: int| 0 <= i < trim(s).len() ==> exists|j: int| 0 <= j < s.len() && s[j] == #[trigger] trim(s)[i],
{
    lemma_skip_ws(s, 0);
    let a = skip_ws(s, 0);
    lemma_trim_end_from(s, a, s.len() as int);
    assert forall|i: int| 0 <= i < trim(s).len() implies exists|j: int| 0 <= j < s.len() && s[j] == #[trigger] trim(s)[i] by {
        assert(s[a + i] == trim(s)[i]);
    }
}

/// ASCII lowercasing keeps a trimmed sequence trimmed, and is idempotent.
pub proof fn lemma_lower_trimmed(t: Seq<char>)
    requires
        trim(t) == t,
    ensures
        trim(lower_seq(t)) == lower_seq(t),
        lower_seq(lower_seq(t)) == lower_seq(t),
{
    lemma_trim_ends(t);
    let l = lower_seq(t);
    if t.len() > 0 {
        assert(l[0] == ascii_lower(t[0]));
        assert(l[l.len() - 1] == ascii_lower(t[t.len() - 1]));
    }
    lemma_trim_fixed(l);
    assert(lower_seq(l) =~= l);
}

pub fn skip_ws_at(v: &[char], i: usize) -> (r: usize)
    requires
        i <= v.len(),
    ensures
        r as int == skip_ws(v@, i as int),
{
    let mut k = i;
    while k < v.len() && is_ws(v[k])
        invariant
            i <= k <= v.len(),
            skip_ws(v@, i as int) == skip_ws(v@, k as int),
        decreases v.len() - k,
    {
        k = k + 1;
    }
    k
}

pub fn skip_word_at(v: &[char], i: usize) -> (r: usize)
    requires
        i <= v.len(),
    ensures
        r as int == skip_word(v@, i as int),
{
    let mut k = i;
    while k < v.len() && !is_ws(v[k])
        invariant
            i <= k <= v.len(),
            skip_word(v@, i as int) == skip_word(v@, k as int),
        decreases v.len() - k,
    {
        k = k + 1;
    }
    k
}

pub fn trim_end_at(v: &[char], lo: usize, hi: usize) -> (r: usize)
    requires
        lo <= hi <= v.len(),
    ensures
        r as int == trim_end_from(v@, lo as int, hi as int),
{
    let mut k = hi;
    while k > lo && is_ws(v[k - 1])
        invariant
            lo <= k <= hi <= v.len(),
            trim_end_from(v@, lo as int, hi as int) == trim_end_from(v@, lo as int, k as int),
        decreases k - lo,
    {
        k = k - 1;
    }
    k
}

pub fn trim_chars(v: &[char]) -> (r: Vec<char>)
    ensures
        r@ == trim(v@),
{
    proof {
        lemma_skip_ws(v@, 0);
    }
    let a = skip_ws_at(v, 0);
    let b = trim_end_at(v, a, v.len());
    proof {
        lemma_trim_end_from(v@, a as int, v@.len() as int);
    }
    slice_chars(v, a, b)
}

pub fn trim_end_chars(v: &[char]) -> (r: Vec<char>)
    ensures
        r@ == trim_end(v@),
{
    let b = trim_end_at(v, 0, v.len());
    proof {
        lemma_trim_end_from(v@, 0, v@.len() as int);
    }
    slice_chars(v, 0, b)
}

pub fn trim_str(s: &str) -> (r: String)
    ensures
        r@ == trim(s@),
{
    let v = chars_of(s);
    let t = trim_chars(v.as_slice());
    string_of(t.as_slice())
}

pub proof fn lemma_blank_iff_trim_empty(s: Seq<char>)
    ensures
        blank(s) <==> trim(s).len() == 0,
{
    lemma_skip_ws(s, 0);
    let a = skip_ws(s, 0);
    lemma_trim_end_from(s, a, s.len() as int);
    if trim(s).len() == 0 {
        assert forall|i: int| 0 <= i < s.len() implies white_space(#[trigger] s[i]) by {
            if i >= a {
            }
        }
    }
    if blank(s) && a < s.len() {
        assert(white_space(s[a]));
    }
}

pub fn is_blank(v: &[char]) -> (r: bool)
    ensures
        r == blank(v@),
        r == (trim(v@).len() == 0),
{
    proof {
        lemma_blank_iff_trim_empty(v@);
        lemma_skip_ws(v@, 0);
    }
    let a = skip_ws_at(v, 0);
    a == v.len()
}

/// `str::split_whitespace`: the maximal runs of non-white-space characters, from `i` on.
pub open spec fn words_from(s: Seq<char>, i: int) -> Seq<Seq<char>>
    decreases s.len() - i,
{
    if i < 0 || i >= s.len() {
        seq![]
    } else {
        let a = skip_ws(s, i);
        if a >= s.len() {
            seq![]
        } else {
            let b = skip_word(s, a);
            if b <= i || b < a || b > s.len() {
                seq![]
            } else {
                seq![s.subrange(a, b)] + words_from(s, b)
            }
        }
    }
}

pub open spec fn words(s: Seq<char>) -> Seq<Seq<char>> {
    words_from(s, 0)
}

pub fn words_of(v: &[char]) -> (r: Vec<Vec<char>>)
    ensures
        r@.map_values(|w: Vec<char>| w@) == words(v@),
{
    let mut r: Vec<Vec<char>> = Vec::new();
    let mut i: usize = 0;
    while i < v.len()
        invariant
            i <= v.len(),
            r@.map_values(|w: Vec<char>| w@) + words_from(v@, i as int) == words(v@),
        decreases v.len() - i,
    {
        proof {
            lemma_skip_ws(v@, i as int);
        }
        let a = skip_ws_at(v, i);
        if a >= v.len() {
            i = v.len();
            assert(words_from(v@, i as int) =~= seq![]);
        } else {
            proof {
                lemma_skip_word(v@, a as int);
            }
            let b = skip_word_at(v, a);
            let w = slice_chars(v, a, b);
            let ghost old_r = r@;
            r.push(w);
            assert(r@.map_values(|w: Vec<char>| w@) =~= old_r.map_values(|w: Vec<char>| w@).push(
                v@.subrange(a as int, b as int),
            ));
            i = b;
        }
    }
    assert(words_from(v@, i as int) =~= seq![]);
    assert(r@.map_values(|w: Vec<char>| w@) =~= words(v@));
    r
}

// ---------------------------------------------------------------------------
// Splitting on one character, and lines.
// ---------------------------------------------------------------------------
/// First index at or after `i` holding `c` (or `s.len()`).
pub open spec fn find_char(s: Seq<char>, c: char, i: int) -> int
    decreases s.len() - i,
{
    if i < 0 || i >= s.len() {
        if i < 0 { 0 } else { s.len() as int }
    } else if s[i] == c {
        i
    } else {
        find_char(s, c, i + 1)
    }
}

pub proof fn lemma_find_char(s: Seq<char>, c: char, i: int)
    requires
        0 <= i <= s.len(),
    ensures
        i <= find_char(s, c, i) <= s.len(),
        find_char(s, c, i) < s.len() ==> s[find_char(s, c, i)] == c,
        forall|j: int| i <= j < find_char(s, c, i) ==> s[j] != c,
    decreases s.len() - i,
{
    if i < s.len() && s[i] != c {
        lemma_find_char(s, c, i + 1);
    }
}

/// `str::split(c)` on the part of `s` from `i`: always at least one piece.
pub open spec fn split_from(s: Seq<char>, c: char, i: int) -> Seq<Seq<char>>
    decreases s.len() - i,
{
    if i < 0 || i > s.len() {
        seq![]
    } else {
        let j = find_char(s, c, i);
        if j >= s.len() || j < i {
            seq![s.subrange(i, s.len() as int)]
        } else {
            seq![s.subrange(i, j)] + split_from(s, c, j + 1)
        }
    }
}

pub open spec fn split(s: Seq<char>, c: char) -> Seq<Seq<char>> {
    split_from(s, c, 0)
}

pub proof fn lemma_find_char_shift(p: Seq<char>, y: Seq<char>, c: char, i: int)
    requires
        0 <= i <= y.len(),
    ensures
        find_char(p + y, c, p.len() + i) == p.len() + find_char(y, c, i),
    decreases y.len() - i,
{
    let s = p + y;
    if i < y.len() {
        assert(s[p.len() + i] == y[i]);
        if y[i] != c {
            lemma_find_char_shift(p, y, c, i + 1);
        }
    }
}

pub proof fn lemma_split_shift(p: Seq<char>, y: Seq<char>, c: char, i: int)
    requires
        0 <= i <= y.len(),
    ensures
        split_from(p + y, c, p.len() + i) == split_from(y, c, i),
    decreases y.len() - i,
{
    let s = p + y;
    lemma_find_char_shift(p, y, c, i);
    lemma_find_char(y, c, i);
    let j = find_char(y, c, i);
    if j >= y.len() {
        assert(s.subrange(p.len() + i, s.len() as int) =~= y.subrange(i, y.len() as int));
    } else {
        assert(s.subrange(p.len() + i, p.len() + j) =~= y.subrange(i, j));
        lemma_split_shift(p, y, c, j + 1);
    }
}

/// Splitting text without the separator gives the text itself.
pub proof fn lemma_split_none(y: Seq<char>, c: char)
    requires
        !y.contains(c),
    ensures
        split(y, c) == seq![y],
{
    lemma_find_char(y, c, 0);
    if find_char(y, c, 0) < y.len() {
        assert(y[find_char(y, c, 0)] == c);
    }
    assert(y.subrange(0, y.len() as int) =~= y);
}

/// Splitting `x c y` (with no `c` in `x`) gives `x`, then the pieces of `y`.
pub proof fn lemma_split_cons(x: Seq<char>, y: Seq<char>, c: char)
    requires
        !x.contains(c),
    ensures
        split(x + seq![c] + y, c) == seq![x] + split(y, c),
{
    let s = x + seq![c] + y;
    lemma_find_char(s, c, 0);
    let j = find_char(s, c, 0);
    assert(s[x.len() as int] == c);
    assert(j == x.len()) by {
        if j < x.len() {
            assert(s[j] == x[j]);
        }
    }
    assert(s.subrange(0, j) =~= x);
    assert(s =~= (x + seq![c]) + y);
    lemma_split_shift(x + seq![c], y, c, 0);
}

/// `join` seen from the front.
pub proof fn lemma_join_front(vs: Seq<Seq<char>>, sep: Seq<char>)
    requires
        vs.len() >= 2,
    ensures
        join(vs, sep) == vs[0] + sep + join(vs.drop_first(), sep),
    decreases vs.len(),
{
    if vs.len() == 2 {
        assert(vs.drop_last() =~= seq![vs[0]]);
        assert(vs.drop_first() =~= seq![vs[1]]);
        assert(join(vs.drop_last(), sep) == vs[0]);
        assert(join(vs.drop_first(), sep) == vs[1]);
    } else {
        let a = vs.drop_last();
        let t = vs.drop_first();
        lemma_join_front(a, sep);
        assert(a.drop_first() =~= t.drop_last());
        assert(t.last() == vs.last());
        assert(a[0] == vs[0]);
        assert(join(t, sep) == join(t.drop_last(), sep) + sep + t.last());
        assert(join(vs, sep) == join(a, sep) + sep + vs.last());
        assert(join(vs, sep) =~= vs[0] + sep + join(t, sep));
    }
}

/// Splitting a join on a separator that no part contains gives the parts back.
pub proof fn lemma_split_join(vs: Seq<Seq<char>>, c: char)
    requires
        vs.len() >= 1,
        forall|i: int| 0 <= i < vs.len() ==> !(#[trigger] vs[i]).contains(c),
    ensures
        split(join(vs, seq![c]), c) == vs,
    decreases vs.len(),
{
    if vs.len() == 1 {
        lemma_split_none(vs[0], c);
        assert(vs =~= seq![vs[0]]);
    } else {
        lemma_join_front(vs, seq![c]);
        let t = vs.drop_first();
        assert forall|i: int| 0 <= i < t.len() implies !(#[trigger] t[i]).contains(c) by {
            assert(t[i] == vs[i + 1]);
        }
        lemma_split_join(t, c);
        assert(!vs[0].contains(c));
        lemma_split_cons(vs[0], join(t, seq![c]), c);
        assert(vs =~= seq![vs[0]] + t);
    }
}

/// No piece of a split holds the separator.
pub proof fn lemma_split_pieces(s: Seq<char>, c: char, i: int)
    requires
        0 <= i <= s.len(),
    ensures
        forall|k: int| 0 <= k < split_from(s, c, i).len() ==> !(#[trigger] split_from(s, c, i)[k]).contains(c),
    decreases s.len() - i,
{
    lemma_find_char(s, c, i);
    let j = find_char(s, c, i);
    let p = split_from(s, c, i);
    if j >= s.len() {
        assert forall|k: int| 0 <= k < p.len() implies !(#[trigger] p[k]).contains(c) by {
            let w = s.subrange(i, s.len() as int);
            assert(p[k] == w);
            if w.contains(c) {
                let m = choose|m: int| 0 <= m < w.len() && w[m] == c;
                assert(s[i + m] == c);
            }
        }
    } else {
        lemma_split_pieces(s, c, j + 1);
        assert forall|k: int| 0 <= k < p.len() implies !(#[trigger] p[k]).contains(c) by {
            if k == 0 {
                let w = s.subrange(i, j);
                assert(p[0] == w);
                if w.contains(c) {
                    let m = choose|m: int| 0 <= m < w.len() && w[m] == c;
                    assert(s[i + m] == c);
                }
            } else {
                assert(p[k] == split_from(s, c, j + 1)[k - 1]);
            }
        }
    }
}

pub fn find_char_at(v: &[char], c: char, i: usize) -> (r: usize)
    requires
        i <= v.len(),
    ensures
        r as int == find_char(v@, c, i as int),
{
    let mut k = i;
    while k < v.len() && v[k] != c
        invariant
            i <= k <= v.len(),
            find_char(v@, c, i as int) == find_char(v@, c, k as int),
        decreases v.len() - k,
    {
        k = k + 1;
    }
    k
}

pub fn split_chars(v: &[char], c: char) -> (r: Vec<Vec<char>>)
    ensures
        r@.map_values(|w: Vec<char>| w@) == split(v@, c),
{
    let mut r: Vec<Vec<char>> = Vec::new();
    let mut i: usize = 0;
    loop
        invariant
            i <= v.len(),
            r@.map_values(|w: Vec<char>| w@) + split_from(v@, c, i as int) == split(v@, c),
        decreases v.len() - i,
    {
        proof {
            lemma_find_char(v@, c, i as int);
        }
        let j = find_char_at(v, c, i);
        let piece = slice_chars(v, i, j);
        let ghost old_r = r@;
        r.push(piece);
        assert(r@.map_values(|w: Vec<char>| w@) =~= old_r.map_values(|w: Vec<char>| w@).push(
            v@.subrange(i as int, j as int),
        ));
        if j >= v.len() {
            assert(r@.map_values(|w: Vec<char>| w@) =~= split(v@, c));
            return r;
        }
        i = j + 1;
    }
}

/// A line as `str::lines` yields it: one trailing `'\r'` removed.
pub open spec fn strip_cr(l: Seq<char>) -> Seq<char> {
    if l.len() > 0 && l.last() == '\r' {
        l.drop_last()
    } else {
        l
    }
}

/// `str::lines`: pieces between `'\n'`, without a final empty piece, each without a trailing `'\r'`.
pub open spec fn lines(s: Seq<char>) -> Seq<Seq<char>> {
    let p = split(s, '\n');
    let q = if p.len() > 0 && p.last().len() == 0 {
        p.drop_last()
    } else {
        p
    };
    q.map_values(|l: Seq<char>| strip_cr(l))
}

pub fn lines_of(v: &[char]) -> (r: Vec<Vec<char>>)
    ensures
        r@.map_values(|w: Vec<char>| w@) == lines(v@),
{
    let pieces = split_chars(v, '\n');
    let ghost p = split(v@, '\n');
    let n = pieces.len();
    let keep = if n > 0 && pieces[n - 1].len() == 0 {
        n - 1
    } else {
        n
    };
    let ghost q = if p.len() > 0 && p.last().len() == 0 {
        p.drop_last()
    } else {
        p
    };
    assert(pieces@.map_values(|w: Vec<char>| w@).len() == n);
    assert(q.len() == keep);
    let mut r: Vec<Vec<char>> = Vec::new();
    let mut i: usize = 0;
    while i < keep
        invariant
            i <= keep <= n == pieces.len(),
            keep == q.len(),
            pieces@.map_values(|w: Vec<char>| w@) == p,
            forall|j: int| 0 <= j < keep ==> q[j] == p[j],
            r@.map_values(|w: Vec<char>| w@) == q.take(i as int).map_values(
                |l: Seq<char>| strip_cr(l),
            ),
        decreases keep - i,
    {
        let l = &pieces[i];
        assert(l@ == p[i as int]);
        let line = if l.len() > 0 && l[l.len() - 1] == '\r' {
            slice_chars(l.as_slice(), 0, l.len() - 1)
        } else {
            slice_chars(l.as_slice(), 0, l.len())
        };
        assert(line@ == strip_cr(q[i as int]));
        let ghost old_r = r@;
        r.push(line);
        assert(r@.map_values(|w: Vec<char>| w@) =~= old_r.map_values(|w: Vec<char>| w@).push(
            strip_cr(q[i as int]),
        ));
        assert(q.take((i + 1) as int).map_values(|l: Seq<char>| strip_cr(l)) =~= q.take(
            i as int,
        ).map_values(|l: Seq<char>| strip_cr(l)).push(strip_cr(q[i as int])));
        i = i + 1;
    }
    assert(q.take(keep as int) =~= q);
    r
}

// ---------------------------------------------------------------------------
// Joining.
// ---------------------------------------------------------------------------
/// `parts.join(sep)`.
pub open spec fn join(parts: Seq<Seq<char>>, sep: Seq<char>) -> Seq<char>
    decreases parts.len(),
{
    if parts.len() == 0 {
        seq![]
    } else if parts.len() == 1 {
        parts[0]
    } else {
        join(parts.drop_last(), sep) + sep + parts.last()
    }
}

pub fn join_strings(parts: &[String], sep: &str) -> (r: String)
    ensures
        r@ == join(parts@.map_values(|p: String| p@), sep@),
{
    let ghost ps = parts@.map_values(|p: String| p@);
    let mut r = String::new();
    let mut i: usize = 0;
    while i < parts.len()
        invariant
            i <= parts.len(),
            ps == parts@.map_values(|p: String| p@),
            r@ == join(ps.take(i as int), sep@),
        decreases parts.len() - i,
    {
        if i > 0 {
            r.append(sep);
        }
        r.append(parts[i].as_str());
        assert(ps.take((i + 1) as int).drop_last() =~= ps.take(i as int));
        assert(ps[i as int] == parts@[i as int]@);
        i = i + 1;
    }
    assert(ps.take(parts.len() as int) =~= ps);
    r
}

// ---------------------------------------------------------------------------
// Decimal numbers.
// ---------------------------------------------------------------------------
pub open spec fn digit_char(d: nat) -> char {
    (('0' as u32) + d) as char
}

/// Decimal representation of `n` (no leading zeros; `"0"` for zero).
pub open spec fn decimal(n: nat) -> Seq<char>
    decreases n,
{
    if n < 10 {
        seq![digit_char(n)]
    } else {
        decimal(n / 10).push(digit_char(n % 10))
    }
}

pub fn digit_of(d: u64) -> (c: char)
    requires
        d < 10,
    ensures
        c == digit_char(d as nat),
{
    let b: u8 = (48 + d) as u8;
    assert(b as int == '0' as int + d);
    b as char
}

pub fn decimal_chars(n: u64) -> (r: Vec<char>)
    ensures
        r@ == decimal(n as nat),
    decreases n,
{
    if n < 10 {
        let mut r = Vec::new();
        r.push(digit_of(n));
        r
    } else {
        let mut r = decimal_chars(n / 10);
        r.push(digit_of(n % 10));
        r
    }
}

pub fn push_decimal(s: &mut String, n: u64)
    ensures
        final(s)@ == old(s)@ + decimal(n as nat),
{
    let d = decimal_chars(n);
    push_chars(s, d.as_slice());
}

/// Value of a sequence of ASCII digits.
pub open spec fn digits_value(s: Seq<char>) -> nat
    decreases s.len(),
{
    if s.len() == 0 {
        0
    } else {
        digits_value(s.drop_last()) * 10 + ((s.last() as u32) - ('0' as u32)) as nat
    }
}

pub open spec fn all_ascii_digits(s: Seq<char>) -> bool {
    forall|i: int| 0 <= i < s.len() ==> ascii_digit(#[trigger] s[i])
}

/// `str::parse::<u16>` on a sequence without sign: `Some` iff it is a non-empty run of
/// ASCII digits whose value fits in a `u16`.
pub open spec fn parse_u16(s: Seq<char>) -> Option<u16> {
    if s.len() > 0 && all_ascii_digits(s) && digits_value(s) <= u16::MAX {
        Some(digits_value(s) as u16)
    } else {
        None
    }
}

pub proof fn lemma_digits_value_mono(s: Seq<char>, k: int)
    requires
        0 <= k <= s.len(),
        all_ascii_digits(s),
    ensures
        digits_value(s.take(k)) <= digits_value(s),
    decreases s.len() - k,
{
    if k < s.len() {
        lemma_digits_value_mono(s, k + 1);
        assert(s.take(k + 1).drop_last() =~= s.take(k));
    } else {
        assert(s.take(k) =~= s);
    }
}

pub proof fn lemma_digit_char_value(k: nat)
    requires
        k < 10,
    ensures
        ascii_digit(digit_char(k)),
        ((digit_char(k) as u32) - ('0' as u32)) as nat == k,
{
    if k == 0 { assert(digit_char(0) == '0'); }
    else if k == 1 { assert(digit_char(1) == '1'); }
    else if k == 2 { assert(digit_char(2) == '2'); }
    else if k == 3 { assert(digit_char(3) == '3'); }
    else if k == 4 { assert(digit_char(4) == '4'); }
    else if k == 5 { assert(digit_char(5) == '5'); }
    else if k == 6 { assert(digit_char(6) == '6'); }
    else if k == 7 { assert(digit_char(7) == '7'); }
    else if k == 8 { assert(digit_char(8) == '8'); }
    else { assert(digit_char(9) == '9'); }
}

/// The decimal representation is a non-empty run of digits worth `n`.
pub proof fn lemma_decimal_digits(n: nat)
    ensures
        decimal(n).len() > 0,
        all_ascii_digits(decimal(n)),
        digits_value(decimal(n)) == n,
    decreases n,
{
    lemma_digit_char_value(n % 10);
    if n < 10 {
        let d = decimal(n);
        assert(d.drop_last() =~= Seq::<char>::empty());
        assert(d.last() == digit_char(n));
        assert(digits_value(d) == digits_value(d.drop_last()) * 10 + ((d.last() as u32) - ('0' as u32)) as nat);
    } else {
        lemma_decimal_digits(n / 10);
        assert((n / 10) * 10 + n % 10 == n);
        let d = decimal(n);
        assert(d.drop_last() =~= decimal(n / 10));
        assert(d.last() == digit_char(n % 10));
        assert(digits_value(d) == digits_value(d.drop_last()) * 10 + ((d.last() as u32) - ('0' as u32)) as nat);
        assert(digits_value(d) == (n / 10) * 10 + n % 10);
        assert forall|i: int| 0 <= i < d.len() implies ascii_digit(#[trigger] d[i]) by {
            if i < d.len() - 1 {
                assert(d[i] == decimal(n / 10)[i]);
            }
        }
    }
}

/// Reading back a decimal representation gives the number.
pub proof fn lemma_parse_decimal(n: u16)
    ensures
        parse_u16(decimal(n as nat)) == Some(n),
{
    lemma_decimal_digits(n as nat);
}

pub fn parse_u16_chars(v: &[char]) -> (r: Option<u16>)
    ensures
        r == parse_u16(v@),
{
    if v.len() == 0 {
        return None;
    }
    let mut acc: u32 = 0;
    let mut i: usize = 0;
    while i < v.len()
        invariant
            i <= v.len(),
            acc as nat == digits_value(v@.take(i as int)),
            acc <= u16::MAX,
            all_ascii_digits(v@.take(i as int)),
        decreases v.len() - i,
    {
        let c = v[i];
        if !is_ascii_digit(c) {
            assert(!all_ascii_digits(v@)) by {
                assert(!ascii_digit(v@[i as int]));
            }
            return None;
        }
        let d: u32 = (c as u32) - ('0' as u32);
        assert(v@.take((i + 1) as int).drop_last() =~= v@.take(i as int));
        assert(v@.take((i + 1) as int).last() == c);
        let next = acc * 10 + d;
        i = i + 1;
        if next > 65535 {
            proof {
                if all_ascii_digits(v@) {
                    lemma_digits_value_mono(v@, i as int);
                }
            }
            return None;
        }
        acc = next;
    }
    assert(v@.take(v.len() as int) =~= v@);
    Some(acc as u16)
}

/// `u16::from_str`: an optional `+`, then ASCII digits whose value fits.
pub open spec fn parse_u16_std(s: Seq<char>) -> Option<u16> {
    if s.len() > 0 && s[0] == '+' {
        parse_u16(s.drop_first())
    } else {
        parse_u16(s)
    }
}

pub fn parse_u16_text(v: &[char]) -> (r: Option<u16>)
    ensures
        r == parse_u16_std(v@),
{
    if v.len() > 0 && v[0] == '+' {
        let rest = slice_chars(v, 1, v.len());
        assert(rest@ =~= v@.drop_first());
        parse_u16_chars(rest.as_slice())
    } else {
        parse_u16_chars(v)
    }
}

/// The value of a non-empty run of ASCII digits when it is at most `limit`.
pub open spec fn digits_upto(s: Seq<char>, limit: nat) -> Option<nat> {
    if s.len() > 0 && all_ascii_digits(s) && digits_value(s) <= limit {
        Some(digits_value(s))
    } else {
        None
    }
}

pub fn digits_upto_exec(v: &[char], limit: u64) -> (r: Option<u64>)
    ensures
        match digits_upto(v@, limit as nat) {
            Some(n) => r == Some(n as u64),
            None => r is None,
        },
{
    if v.len() == 0 {
        return None;
    }
    let mut acc: u128 = 0;
    let mut i: usize = 0;
    while i < v.len()
        invariant
            i <= v.len(),
            acc as nat == digits_value(v@.take(i as int)),
            acc <= limit,
            all_ascii_digits(v@.take(i as int)),
        decreases v.len() - i,
    {
        let c = v[i];
        if !is_ascii_digit(c) {
            assert(!all_ascii_digits(v@)) by {
                assert(!ascii_digit(v@[i as int]));
            }
            return None;
        }
        let d: u128 = ((c as u32) - ('0' as u32)) as u128;
        assert(v@.take((i + 1) as int).drop_last() =~= v@.take(i as int));
        assert(v@.take((i + 1) as int).last() == c);
        let next = acc * 10 + d;
        i = i + 1;
        if next > limit as u128 {
            proof {
                if all_ascii_digits(v@) {
                    lemma_digits_value_mono(v@, i as int);
                }
            }
            return None;
        }
        acc = next;
    }
    assert(v@.take(v.len() as int) =~= v@);
    Some(acc as u64)
}

/// `i64::from_str`: an optional sign, then ASCII digits whose signed value fits.
pub open spec fn parse_i64_std(s: Seq<char>) -> Option<i64> {
    if s.len() > 0 && s[0] == '-' {
        match digits_upto(s.drop_first(), 9223372036854775808) {
            Some(n) => Some((-(n as int)) as i64),
            None => None,
        }
    } else {
        let d = if s.len() > 0 && s[0] == '+' {
            s.drop_first()
        } else {
            s
        };
        match digits_upto(d, 9223372036854775807) {
            Some(n) => Some(n as i64),
            None => None,
        }
    }
}

pub fn parse_i64_text(v: &[char]) -> (r: Option<i64>)
    ensures
        r == parse_i64_std(v@),
{
    if v.len() > 0 && v[0] == '-' {
        let rest = slice_chars(v, 1, v.len());
        assert(rest@ =~= v@.drop_first());
        match digits_upto_exec(rest.as_slice(), 9223372036854775808u64) {
            Some(n) => {
                if n == 9223372036854775808u64 {
                    Some(-9223372036854775807i64 - 1)
                } else {
                    Some(-(n as i64))
                }
            },
            None => None,
        }
    } else {
        let d = if v.len() > 0 && v[0] == '+' {
            let rest = slice_chars(v, 1, v.len());
            assert(rest@ =~= v@.drop_first());
            rest
        } else {
            slice_chars(v, 0, v.len())
        };
        assert(v@.subrange(0, v@.len() as int) =~= v@);
        match digits_upto_exec(d.as_slice(), 9223372036854775807u64) {
            Some(n) => Some(n as i64),
            None => None,
        }
    }
}

} // verus!
