//! Reading the cross-reference TSV of OpenBible.info (CC-BY): columns
//! `From Verse` (OSIS `Gen.1.1`), `To Verse` (one OSIS id or a range
//! `John.1.1-John.1.3`) and `Votes` (an integer, possibly negative). OSIS book
//! codes are resolved by the book-name table.
use vstd::prelude::*;

use crate::alias::{book_number, resolve_book};
use crate::scholarly::{split_once, split_once_chars};
use crate::text::{
    chars_of, lines, lines_of, parse_i64_std, parse_i64_text, parse_u16_std, parse_u16_text, split,
    split_chars, string_of, trim, trim_chars,
};

verus! {

/// One decomposed cross-reference row.
#[derive(Debug, Clone, PartialEq, Eq)]
pub struct XrefRow {
    pub from_book: u8,
    pub from_chapter: u16,
    pub from_verse: u16,
    pub to_book: u8,
    pub to_chapter: u16,
    pub to_verse_start: u16,
    pub to_verse_end: u16,
    pub votes: i64,
}

/// An OSIS id `Book.Chapter.Verse` (exactly three parts) as
/// `(book, chapter, verse)`.
pub open spec fn osis_of(s: Seq<char>) -> Option<(u8, u16, u16)> {
    let parts = split(trim(s), '.');
    if parts.len() != 3 {
        None
    } else {
        match (resolve_book(parts[0]), parse_u16_std(parts[1]), parse_u16_std(parts[2])) {
            (Some(b), Some(c), Some(v)) => Some((b, c, v)),
            _ => None,
        }
    }
}

/// Decomposes an OSIS id `Book.Chapter.Verse`.
pub fn parse_osis(s: &str) -> (r: Option<(u8, u16, u16)>)
    ensures
        r == osis_of(s@),
{
    let t = trim_chars(chars_of(s).as_slice());
    let parts = split_chars(t.as_slice(), '.');
    let ghost pv = parts@.map_values(|w: Vec<char>| w@);
    assert(pv.len() == parts@.len());
    if parts.len() != 3 {
        return None;
    }
    assert(parts@[0]@ == pv[0] && parts@[1]@ == pv[1] && parts@[2]@ == pv[2]);
    let code = string_of(parts[0].as_slice());
    let b = book_number(code.as_str());
    let c = parse_u16_text(parts[1].as_slice());
    let v = parse_u16_text(parts[2].as_slice());
    match (b, c, v) {
        (Some(b), Some(c), Some(v)) => Some((b, c, v)),
        _ => None,
    }
}

/// The `To Verse` column: one id, or a range `A-B`. A range that crosses a
/// chapter or a book keeps the start's book and chapter and falls back to a
/// single verse.
pub open spec fn to_of(to: Seq<char>) -> Option<(u8, u16, u16, u16)> {
    match split_once(to, '-') {
        Some((start, end)) => match (osis_of(start), osis_of(end)) {
            (Some((tb, tc, ts)), Some((eb, ec, ev))) => {
                let te = if eb == tb && ec == tc && ev >= ts {
                    ev
                } else {
                    ts
                };
                Some((tb, tc, ts, te))
            },
            _ => None,
        },
        None => match osis_of(to) {
            Some((tb, tc, ts)) => Some((tb, tc, ts, ts)),
            None => None,
        },
    }
}

/// Decomposes the `To Verse` column.
pub fn parse_to(to: &str) -> (r: Option<(u8, u16, u16, u16)>)
    ensures
        r == to_of(to@),
{
    let v = chars_of(to);
    match split_once_chars(v.as_slice(), '-') {
        Some((a, b)) => {
            let sa = string_of(a.as_slice());
            let sb = string_of(b.as_slice());
            match (parse_osis(sa.as_str()), parse_osis(sb.as_str())) {
                (Some((tb, tc, ts)), Some((eb, ec, ev))) => {
                    let te = if eb == tb && ec == tc && ev >= ts {
                        ev
                    } else {
                        ts
                    };
                    Some((tb, tc, ts, te))
                },
                _ => None,
            }
        },
        None => match parse_osis(to) {
            Some((tb, tc, ts)) => Some((tb, tc, ts, ts)),
            None => None,
        },
    }
}

pub open spec fn row_of(line: Seq<char>) -> Option<XrefRow> {
    let cols = split(line, '\t');
    if cols.len() < 3 {
        None
    } else {
        match (parse_i64_std(trim(cols[2])), osis_of(cols[0]), to_of(cols[1])) {
            (Some(votes), Some((fb, fc, fv)), Some((tb, tc, ts, te))) => Some(
                XrefRow {
                    from_book: fb,
                    from_chapter: fc,
                    from_verse: fv,
                    to_book: tb,
                    to_chapter: tc,
                    to_verse_start: ts,
                    to_verse_end: te,
                    votes,
                },
            ),
            _ => None,
        }
    }
}

/// Decomposes one TSV line; `None` for the header and invalid lines.
pub fn parse_line(line: &str) -> (r: Option<XrefRow>)
    ensures
        r == row_of(line@),
{
    let v = chars_of(line);
    let cols = split_chars(v.as_slice(), '\t');
    let ghost cv = cols@.map_values(|w: Vec<char>| w@);
    assert(cv.len() == cols@.len());
    if cols.len() < 3 {
        return None;
    }
    assert(cols@[0]@ == cv[0] && cols@[1]@ == cv[1] && cols@[2]@ == cv[2]);
    let votes = match parse_i64_text(trim_chars(cols[2].as_slice()).as_slice()) {
        Some(n) => n,
        None => return None,
    };
    let from = string_of(cols[0].as_slice());
    let to = string_of(cols[1].as_slice());
    match (parse_osis(from.as_str()), parse_to(to.as_str())) {
        (Some((fb, fc, fv)), Some((tb, tc, ts, te))) => Some(
            XrefRow {
                from_book: fb,
                from_chapter: fc,
                from_verse: fv,
                to_book: tb,
                to_chapter: tc,
                to_verse_start: ts,
                to_verse_end: te,
                votes,
            },
        ),
        _ => None,
    }
}

/// The rows of the valid lines, in order.
pub open spec fn rows_of(ls: Seq<Seq<char>>) -> Seq<XrefRow>
    decreases ls.len(),
{
    if ls.len() == 0 {
        seq![]
    } else {
        match row_of(ls.last()) {
            Some(r) => rows_of(ls.drop_last()).push(r),
            None => rows_of(ls.drop_last()),
        }
    }
}

/// Reads the whole TSV: every valid line, in order; the others are skipped.
pub fn parse_tsv(data: &str) -> (r: Vec<XrefRow>)
    ensures
        r@ == rows_of(lines(data@)),
{
    let v = chars_of(data);
    let ls = lines_of(v.as_slice());
    let ghost lv = ls@.map_values(|w: Vec<char>| w@);
    let mut out: Vec<XrefRow> = Vec::new();
    let mut i: usize = 0;
    while i < ls.len()
        invariant
            i <= ls.len(),
            lv == ls@.map_values(|w: Vec<char>| w@),
            lv == lines(data@),
            out@ == rows_of(lv.take(i as int)),
        decreases ls.len() - i,
    {
        assert(lv.take((i + 1) as int).drop_last() =~= lv.take(i as int));
        assert(lv.take((i + 1) as int).last() == ls@[i as int]@);
        let line = string_of(ls[i].as_slice());
        if let Some(r) = parse_line(line.as_str()) {
            out.push(r);
        }
        i = i + 1;
    }
    assert(lv.take(ls.len() as int) =~= lv);
    out
}

/// Removes a leading UTF-8 byte-order mark, if present.
pub fn strip_bom(bytes: &[u8]) -> (r: &[u8])
    ensures
        r@ == (if bytes@.len() >= 3 && bytes@[0] == 0xEF && bytes@[1] == 0xBB && bytes@[2] == 0xBF {
            bytes@.skip(3)
        } else {
            bytes@
        }),
{
    if bytes.len() >= 3 && bytes[0] == 0xEF && bytes[1] == 0xBB && bytes[2] == 0xBF {
        let r = vstd::slice::slice_subrange(bytes, 3, bytes.len());
        assert(r@ =~= bytes@.skip(3));
        r
    } else {
        bytes
    }
}

} // verus!
