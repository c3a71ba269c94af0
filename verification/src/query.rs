//! Pure SQL planners: every query of the store is built here as a pair
//! `(sql, params)` of plain data, the single source for every executor.
//!
//! `SqlParam` is the library's own enum; mapping it onto a database driver
//! happens where the driver is.
use vstd::prelude::*;
use vstd::string::StringExecFns;

use crate::model::{Reference, VerseRange};
use crate::text::{chars_of, copy_str, join, join_strings, words, words_of};

verus! {

/// Start marker of a matched term (search highlight).
pub const HL_START: &'static str = "\u{2}";

/// End marker of a matched term.
pub const HL_END: &'static str = "\u{3}";

/// A bind parameter of a query: text or a 64-bit integer.
#[derive(Debug, Clone, PartialEq)]
pub enum SqlParam {
    /// Text bound to a `?`.
    Text(String),
    /// 64-bit integer bound to a `?`.
    Int(i64),
}

/// Abstract bind parameter.
pub enum ParamView {
    Text(Seq<char>),
    Int(int),
}

pub open spec fn param_view(p: SqlParam) -> ParamView {
    match p {
        SqlParam::Text(s) => ParamView::Text(s@),
        SqlParam::Int(i) => ParamView::Int(i as int),
    }
}

pub open spec fn params_view(ps: Seq<SqlParam>) -> Seq<ParamView> {
    ps.map_values(|p: SqlParam| param_view(p))
}

/// A query plan as `(sql, params)`.
pub open spec fn plan_view(p: (String, Vec<SqlParam>)) -> (Seq<char>, Seq<ParamView>) {
    (p.0@, params_view(p.1@))
}

/// `LIMIT` kept within `[1, i64::MAX]`: no useless `LIMIT 0`, and no huge
/// value turned into `-1` (no limit at all) by the cast.
pub open spec fn clamped(limit: int) -> int {
    if limit < 1 {
        1
    } else if limit > i64::MAX {
        i64::MAX as int
    } else {
        limit
    }
}

fn clamp_limit(limit: usize) -> (r: i64)
    ensures
        r as int == clamped(limit as int),
{
    if limit < 1 {
        1
    } else if limit as u64 > 9223372036854775807u64 {
        9223372036854775807i64
    } else {
        limit as i64
    }
}

/// Translations select (static, no params).
pub const TRANSLATIONS_SELECT: &'static str =
    "SELECT id, abbrev, name, language, license, embeddable FROM translations ORDER BY language, id";

/// Presence of a translation (`?1` = id).
pub const HAS_TRANSLATION_SELECT: &'static str = "SELECT 1 FROM translations WHERE id = ?1";

/// `max(chapter)` of a book in a translation (`?1` = translation, `?2` = book).
pub const CHAPTER_COUNT_SELECT: &'static str =
    "SELECT max(chapter) FROM verses WHERE translation_id = ?1 AND book_number = ?2";

/// Cross references of a verse (`?1..?5` = from_book, from_chapter,
/// from_verse, min_votes, limit).
pub const XREF_SELECT: &'static str =
    "SELECT to_book, to_chapter, to_verse_start, to_verse_end, votes FROM cross_references WHERE from_book = ?1 AND from_chapter = ?2 AND from_verse = ?3 AND votes >= ?4 ORDER BY votes DESC, to_book, to_chapter, to_verse_start LIMIT ?5";

/// The original-language words of a verse, in reading order, with the
/// lexicon's gloss where there is one (`?1..?3` = book, chapter, verse).
pub const INTERLINEAR_SELECT: &'static str =
    "SELECT t.surface, t.translit, t.lemma, t.strongs, t.morph_code, COALESCE(l.gloss, t.gloss), t.word_index, t.testament, t.source_id FROM original_tokens t LEFT JOIN lexicon l ON l.strongs = t.strongs WHERE t.book_number = ?1 AND t.chapter = ?2 AND t.verse = ?3 ORDER BY t.word_index";

fn text_param(s: &str) -> (r: SqlParam)
    ensures
        param_view(r) == ParamView::Text(s@),
{
    SqlParam::Text(copy_str(s))
}

/// Plan of the chapter count: `(sql, [translation, book])`.
pub fn chapter_count_plan(book: u8, translation: &str) -> (r: (String, Vec<SqlParam>))
    ensures
        plan_view(r) == (CHAPTER_COUNT_SELECT@, seq![ParamView::Text(translation@), ParamView::Int(book as int)]),
{
    let params = vec![text_param(translation), SqlParam::Int(book as i64)];
    let r = (copy_str(CHAPTER_COUNT_SELECT), params);
    assert(params_view(r.1@) =~= seq![ParamView::Text(translation@), ParamView::Int(book as int)]);
    r
}

/// Plan of the presence of a translation: `(sql, [translation])`.
pub fn has_translation_plan(translation: &str) -> (r: (String, Vec<SqlParam>))
    ensures
        plan_view(r) == (HAS_TRANSLATION_SELECT@, seq![ParamView::Text(translation@)]),
{
    let params = vec![text_param(translation)];
    let r = (copy_str(HAS_TRANSLATION_SELECT), params);
    assert(params_view(r.1@) =~= seq![ParamView::Text(translation@)]);
    r
}

/// Plan of the translations: `(sql, [])`.
pub fn translations_plan() -> (r: (String, Vec<SqlParam>))
    ensures
        plan_view(r) == (TRANSLATIONS_SELECT@, Seq::<ParamView>::empty()),
{
    let r = (copy_str(TRANSLATIONS_SELECT), Vec::new());
    assert(params_view(r.1@) =~= Seq::<ParamView>::empty());
    r
}

pub open spec fn passage_base() -> Seq<char> {
    "SELECT verse, text FROM verses WHERE translation_id = ?1 AND book_number = ?2 AND chapter = ?3"@
}

/// The passage plan for each shape of `VerseRange`: `?1` = translation,
/// `?2` = book, `?3` = chapter; a single verse adds `?4`; a range adds
/// `?4..?5`.
pub open spec fn passage_plan_view(reference: Reference, translation: Seq<char>) -> (
    Seq<char>,
    Seq<ParamView>,
) {
    let head = seq![
        ParamView::Text(translation),
        ParamView::Int(reference.book as int),
        ParamView::Int(reference.chapter as int),
    ];
    match reference.verses {
        VerseRange::WholeChapter => (passage_base() + " ORDER BY verse"@, head),
        VerseRange::Single(v) => (
            passage_base() + " AND verse = ?4 ORDER BY verse"@,
            head.push(ParamView::Int(v as int)),
        ),
        VerseRange::Range { start, end } => (
            passage_base() + " AND verse BETWEEN ?4 AND ?5 ORDER BY verse"@,
            head.push(ParamView::Int(start as int)).push(ParamView::Int(end as int)),
        ),
    }
}

/// Plan of a passage, covering the three shapes of `VerseRange`.
pub fn passage_plan(reference: &Reference, translation: &str) -> (r: (String, Vec<SqlParam>))
    ensures
        plan_view(r) == passage_plan_view(*reference, translation@),
{
    let mut params = vec![
        text_param(translation),
        SqlParam::Int(reference.book as i64),
        SqlParam::Int(reference.chapter as i64),
    ];
    let mut sql = String::new();
    sql.append("SELECT verse, text FROM verses WHERE translation_id = ?1 AND book_number = ?2 AND chapter = ?3");
    let ghost p0 = params@;
    match reference.verses {
        VerseRange::WholeChapter => {
            sql.append(" ORDER BY verse");
        },
        VerseRange::Single(v) => {
            params.push(SqlParam::Int(v as i64));
            sql.append(" AND verse = ?4 ORDER BY verse");
        },
        VerseRange::Range { start, end } => {
            params.push(SqlParam::Int(start as i64));
            params.push(SqlParam::Int(end as i64));
            sql.append(" AND verse BETWEEN ?4 AND ?5 ORDER BY verse");
        },
    }
    let r = (sql, params);
    assert(params_view(r.1@) =~= passage_plan_view(*reference, translation@).1);
    r
}

/// A term in FTS5 quotes, inner quotes doubled.
pub open spec fn double_quotes(s: Seq<char>) -> Seq<char>
    decreases s.len(),
{
    if s.len() == 0 {
        seq![]
    } else {
        double_quotes(s.drop_last()) + if s.last() == '"' {
            seq!['"', '"']
        } else {
            seq![s.last()]
        }
    }
}

pub open spec fn quoted_term(w: Seq<char>) -> Seq<char> {
    seq!['"'] + double_quotes(w) + seq!['"']
}

/// The safe FTS5 expression of a query: each word becomes a quoted term
/// (inner quotes escaped), joined by spaces (implicit AND); `None` when
/// there is no word.
pub open spec fn match_query_of(input: Seq<char>) -> Option<Seq<char>> {
    let ws = words(input);
    if ws.len() == 0 {
        None
    } else {
        Some(join(ws.map_values(|w: Seq<char>| quoted_term(w)), " "@))
    }
}

fn quote_term(w: &[char]) -> (r: String)
    ensures
        r@ == quoted_term(w@),
{
    let mut s = String::new();
    crate::text::push_char(&mut s, '"');
    let ghost s0 = s@;
    let mut i: usize = 0;
    while i < w.len()
        invariant
            i <= w.len(),
            s0 == seq!['"'],
            s@ == s0 + double_quotes(w@.take(i as int)),
        decreases w.len() - i,
    {
        assert(w@.take((i + 1) as int).drop_last() =~= w@.take(i as int));
        if w[i] == '"' {
            crate::text::push_char(&mut s, '"');
            crate::text::push_char(&mut s, '"');
        } else {
            crate::text::push_char(&mut s, w[i]);
        }
        i = i + 1;
        assert(s@ =~= s0 + double_quotes(w@.take(i as int)));
    }
    assert(w@.take(w.len() as int) =~= w@);
    crate::text::push_char(&mut s, '"');
    assert(s@ =~= quoted_term(w@));
    s
}

/// Builds a safe FTS5 expression from the user's query: every word becomes a
/// quoted term (inner quotes escaped), combined by implicit AND. `None` when
/// there is no usable term, which keeps FTS5 syntax out of the input.
pub fn build_match_query(input: &str) -> (r: Option<String>)
    ensures
        r matches Some(s) ==> match_query_of(input@) == Some(s@),
        r is None ==> match_query_of(input@) is None,
{
    let v = chars_of(input);
    let ws = words_of(v.as_slice());
    let ghost wv = ws@.map_values(|w: Vec<char>| w@);
    let ghost want = wv.map_values(|w: Seq<char>| quoted_term(w));
    if ws.len() == 0 {
        return None;
    }
    let mut terms: Vec<String> = Vec::new();
    let mut i: usize = 0;
    while i < ws.len()
        invariant
            i <= ws.len(),
            wv == ws@.map_values(|w: Vec<char>| w@),
            want == wv.map_values(|w: Seq<char>| quoted_term(w)),
            terms@.map_values(|s: String| s@) == want.take(i as int),
        decreases ws.len() - i,
    {
        let t = quote_term(ws[i].as_slice());
        let ghost t0 = terms@;
        terms.push(t);
        assert(terms@.map_values(|s: String| s@) =~= t0.map_values(|s: String| s@).push(want[i as int]));
        assert(want.take((i + 1) as int) =~= want.take(i as int).push(want[i as int]));
        i = i + 1;
    }
    assert(want.take(ws.len() as int) =~= want);
    Some(join_strings(terms.as_slice(), " "))
}

pub open spec fn search_head() -> Seq<char> {
    "SELECT v.book_number, v.chapter, v.verse, v.text, highlight(verses_fts, 0, ?, ?) AS hl, bm25(verses_fts) AS score FROM verses_fts JOIN verses v ON v.id = verses_fts.verse_id WHERE verses_fts MATCH ? AND verses_fts.translation_id = ?"@
}

/// The search plan: params in the order highlight start, highlight end,
/// match expression, translation, the book when filtered, and the clamped
/// limit; `None` when the query has no term.
pub open spec fn search_plan_view(query: Seq<char>, translation: Seq<char>, book: Option<u8>, limit: int) -> Option<
    (Seq<char>, Seq<ParamView>),
> {
    match match_query_of(query) {
        None => None,
        Some(m) => {
            let head = seq![
                ParamView::Text(HL_START@),
                ParamView::Text(HL_END@),
                ParamView::Text(m),
                ParamView::Text(translation),
            ];
            let (sql, ps) = match book {
                Some(b) => (search_head() + " AND v.book_number = ?"@, head.push(ParamView::Int(b as int))),
                None => (search_head(), head),
            };
            Some((sql + " ORDER BY score LIMIT ?"@, ps.push(ParamView::Int(clamped(limit)))))
        },
    }
}

/// FTS5 search plan (BM25 ranking, highlighted terms, clamped limit); `None`
/// when the query has no term (no result).
pub fn search_plan(query: &str, translation: &str, book: Option<u8>, limit: usize) -> (r: Option<
    (String, Vec<SqlParam>),
>)
    ensures
        match r {
            Some(p) => search_plan_view(query@, translation@, book, limit as int) == Some(plan_view(p)),
            None => search_plan_view(query@, translation@, book, limit as int) is None,
        },
{
    let match_query = match build_match_query(query) {
        Some(m) => m,
        None => return None,
    };
    let mut sql = String::new();
    sql.append("SELECT v.book_number, v.chapter, v.verse, v.text, highlight(verses_fts, 0, ?, ?) AS hl, bm25(verses_fts) AS score FROM verses_fts JOIN verses v ON v.id = verses_fts.verse_id WHERE verses_fts MATCH ? AND verses_fts.translation_id = ?");
    let ghost m = match_query@;
    let mut params = vec![
        text_param(HL_START),
        text_param(HL_END),
        SqlParam::Text(match_query),
        text_param(translation),
    ];
    if let Some(b) = book {
        sql.append(" AND v.book_number = ?");
        params.push(SqlParam::Int(b as i64));
    }
    sql.append(" ORDER BY score LIMIT ?");
    params.push(SqlParam::Int(clamp_limit(limit)));
    let r = (sql, params);
    assert(params_view(r.1@) =~= search_plan_view(query@, translation@, book, limit as int).unwrap().1);
    Some(r)
}

/// Plan of the cross references of a verse: `(sql, [book, chapter, verse,
/// min_votes, limit])`, the limit clamped.
pub fn xref_plan(book: u8, chapter: u16, verse: u16, min_votes: i64, limit: usize) -> (r: (
    String,
    Vec<SqlParam>,
))
    ensures
        plan_view(r) == (
            XREF_SELECT@,
            seq![
                ParamView::Int(book as int),
                ParamView::Int(chapter as int),
                ParamView::Int(verse as int),
                ParamView::Int(min_votes as int),
                ParamView::Int(clamped(limit as int)),
            ],
        ),
{
    let params = vec![
        SqlParam::Int(book as i64),
        SqlParam::Int(chapter as i64),
        SqlParam::Int(verse as i64),
        SqlParam::Int(min_votes),
        SqlParam::Int(clamp_limit(limit)),
    ];
    let r = (copy_str(XREF_SELECT), params);
    assert(params_view(r.1@) =~= seq![
        ParamView::Int(book as int),
        ParamView::Int(chapter as int),
        ParamView::Int(verse as int),
        ParamView::Int(min_votes as int),
        ParamView::Int(clamped(limit as int)),
    ]);
    r
}

/// Plan of the interlinear words of a verse: `(sql, [book, chapter, verse])`.
pub fn interlinear_plan(book: u8, chapter: u16, verse: u16) -> (r: (String, Vec<SqlParam>))
    ensures
        plan_view(r) == (
            INTERLINEAR_SELECT@,
            seq![ParamView::Int(book as int), ParamView::Int(chapter as int), ParamView::Int(verse as int)],
        ),
{
    let params = vec![SqlParam::Int(book as i64), SqlParam::Int(chapter as i64), SqlParam::Int(verse as i64)];
    let r = (copy_str(INTERLINEAR_SELECT), params);
    assert(params_view(r.1@) =~= seq![
        ParamView::Int(book as int),
        ParamView::Int(chapter as int),
        ParamView::Int(verse as int),
    ]);
    r
}

/// The verse filter a passage plan applies, read as SQL: `verse = ?4`
/// admits the 4th parameter, `verse BETWEEN ?4 AND ?5` the verses from the
/// 4th parameter to the 5th, and a plan without a verse condition every
/// verse of the chapter.
pub open spec fn plan_admits(p: (Seq<char>, Seq<ParamView>), v: int) -> bool {
    if p.0 == "SELECT verse, text FROM verses WHERE translation_id = ?1 AND book_number = ?2 AND chapter = ?3 AND verse = ?4 ORDER BY verse"@ {
        p.1.len() > 3 && p.1[3] == ParamView::Int(v)
    } else if p.0
        == "SELECT verse, text FROM verses WHERE translation_id = ?1 AND book_number = ?2 AND chapter = ?3 AND verse BETWEEN ?4 AND ?5 ORDER BY verse"@ {
        p.1.len() > 4 && match (p.1[3], p.1[4]) {
            (ParamView::Int(lo), ParamView::Int(hi)) => lo <= v && v <= hi,
            _ => false,
        }
    } else {
        p.0 == "SELECT verse, text FROM verses WHERE translation_id = ?1 AND book_number = ?2 AND chapter = ?3 ORDER BY verse"@
    }
}

/// The passage plan reads the chapter of the reference in the translation
/// (`?1..?3`), and its verse filter admits exactly the verses the reference
/// covers: one verse, every verse from the start of a range to its end, or
/// the whole chapter.
pub proof fn lemma_passage_plan_reads_the_reference(reference: Reference, translation: Seq<char>, v: u16)
    ensures
        ({
            let p = passage_plan_view(reference, translation);
            &&& p.1.len() >= 3
            &&& p.1[0] == ParamView::Text(translation)
            &&& p.1[1] == ParamView::Int(reference.book as int)
            &&& p.1[2] == ParamView::Int(reference.chapter as int)
            &&& plan_admits(p, v as int) == match reference.verses {
                VerseRange::Single(s) => s == v,
                VerseRange::Range { start, end } => start <= v && v <= end,
                VerseRange::WholeChapter => true,
            }
        }),
{
    reveal_strlit("SELECT verse, text FROM verses WHERE translation_id = ?1 AND book_number = ?2 AND chapter = ?3");
    reveal_strlit(" ORDER BY verse");
    reveal_strlit(" AND verse = ?4 ORDER BY verse");
    reveal_strlit(" AND verse BETWEEN ?4 AND ?5 ORDER BY verse");
    reveal_strlit("SELECT verse, text FROM verses WHERE translation_id = ?1 AND book_number = ?2 AND chapter = ?3 ORDER BY verse");
    reveal_strlit("SELECT verse, text FROM verses WHERE translation_id = ?1 AND book_number = ?2 AND chapter = ?3 AND verse = ?4 ORDER BY verse");
    reveal_strlit("SELECT verse, text FROM verses WHERE translation_id = ?1 AND book_number = ?2 AND chapter = ?3 AND verse BETWEEN ?4 AND ?5 ORDER BY verse");
    let b = passage_base();
    let w = b + " ORDER BY verse"@;
    let s1 = b + " AND verse = ?4 ORDER BY verse"@;
    let s2 = b + " AND verse BETWEEN ?4 AND ?5 ORDER BY verse"@;
    assert(w =~= "SELECT verse, text FROM verses WHERE translation_id = ?1 AND book_number = ?2 AND chapter = ?3 ORDER BY verse"@);
    assert(s1 =~= "SELECT verse, text FROM verses WHERE translation_id = ?1 AND book_number = ?2 AND chapter = ?3 AND verse = ?4 ORDER BY verse"@);
    assert(s2 =~= "SELECT verse, text FROM verses WHERE translation_id = ?1 AND book_number = ?2 AND chapter = ?3 AND verse BETWEEN ?4 AND ?5 ORDER BY verse"@);
    assert(w.len() != s1.len() && w.len() != s2.len() && s1.len() != s2.len());
}

} // verus!
