//! From a downloaded STEPBible file to the records to import: every line is
//! parsed, and a record whose key was already seen is dropped (the first
//! reading wins). Also: which datasets an import request names, and the
//! sanity floor of a complete dataset.
use std::collections::HashSet;
use vstd::prelude::*;
use vstd::string::StringExecFns;

use crate::scholarly::{
    available_datasets, dataset_ids, dataset_kinds, embeddable_error, ensure_embeddable, floor_of,
    sanity_floor, specs, ScholarlyError, ScholarlySpec, greek_row_of, hebrew_row_of, lex_view, lexicon_row_of, parse_greek_row, parse_hebrew_row,
    parse_lexicon_row, token_view, Kind, LexEntry, LexView, Token, TokenView,
};
use crate::sorted::{char_views, insert_new, lex_sorted};
use crate::text::{
    chars_of, copy_str, decimal, join, lines, lines_of, lower_chars, lower_seq, push_decimal, string_of,
    trim, trim_chars,
};

verus! {

// ---------------------------------------------------------------------------
// Tokens.
// ---------------------------------------------------------------------------
/// The row parser of a token dataset (Greek for anything but Hebrew).
pub open spec fn token_row_of(kind: Kind, line: Seq<char>) -> Option<TokenView> {
    if kind == Kind::HebrewTokens {
        hebrew_row_of(line)
    } else {
        greek_row_of(line)
    }
}

/// The tokens of the lines that parse, in order.
pub open spec fn parsed_tokens(ls: Seq<Seq<char>>, kind: Kind) -> Seq<TokenView>
    decreases ls.len(),
{
    if ls.len() == 0 {
        seq![]
    } else {
        let p = parsed_tokens(ls.drop_last(), kind);
        match token_row_of(kind, ls.last()) {
            Some(t) => p.push(t),
            None => p,
        }
    }
}

/// Where a token stands: book, chapter, verse and word.
pub open spec fn token_key(t: TokenView) -> (u8, u16, u16, u16) {
    (t.book, t.chapter, t.verse, t.word_index)
}

/// The tokens whose place no earlier token took (the first reading wins).
pub open spec fn first_tokens(ts: Seq<TokenView>) -> Seq<TokenView>
    decreases ts.len(),
{
    if ts.len() == 0 {
        seq![]
    } else {
        let p = ts.drop_last();
        if exists|j: int| 0 <= j < p.len() && token_key(#[trigger] p[j]) == token_key(ts.last()) {
            first_tokens(p)
        } else {
            first_tokens(p).push(ts.last())
        }
    }
}

/// A token's place packed in 64 bits (16 bits each).
pub open spec fn pack_place(b: u8, c: u16, v: u16, w: u16) -> u64 {
    ((b as u64) << 48u64) | ((c as u64) << 32u64) | ((v as u64) << 16u64) | (w as u64)
}

pub open spec fn packed(t: TokenView) -> u64 {
    pack_place(t.book, t.chapter, t.verse, t.word_index)
}

proof fn lemma_pack_injective(b1: u8, c1: u16, v1: u16, w1: u16, b2: u8, c2: u16, v2: u16, w2: u16)
    requires
        pack_place(b1, c1, v1, w1) == pack_place(b2, c2, v2, w2),
    ensures
        b1 == b2 && c1 == c2 && v1 == v2 && w1 == w2,
{
    assert(b1 == b2 && c1 == c2 && v1 == v2 && w1 == w2) by (bit_vector)
        requires
            ((b1 as u64) << 48u64) | ((c1 as u64) << 32u64) | ((v1 as u64) << 16u64) | (w1 as u64)
                == ((b2 as u64) << 48u64) | ((c2 as u64) << 32u64) | ((v2 as u64) << 16u64) | (
            w2 as u64),
    ;
}

proof fn lemma_push_set<A>(q: Seq<A>, x: A)
    ensures
        q.push(x).to_set() == q.to_set().insert(x),
{
    let p = q.push(x);
    assert forall|y: A| p.to_set().contains(y) <==> q.to_set().insert(x).contains(y) by {
        if p.to_set().contains(y) {
            let i = choose|i: int| 0 <= i < p.len() && p[i] == y;
            if i < q.len() {
                assert(q[i] == y);
            }
        }
        if q.to_set().contains(y) {
            let i = choose|i: int| 0 <= i < q.len() && q[i] == y;
            assert(p[i] == y);
        }
        if y == x {
            assert(p[q.len() as int] == y);
        }
    }
    assert(p.to_set() =~= q.to_set().insert(x));
}

fn pack_token(t: &Token) -> (k: u64)
    ensures
        k == packed(token_view(*t)),
{
    ((t.book as u64) << 48u64) | ((t.chapter as u64) << 32u64) | ((t.verse as u64) << 16u64) | (
    t.word_index as u64)
}

pub open spec fn token_views(v: Seq<Token>) -> Seq<TokenView> {
    v.map_values(|t: Token| token_view(t))
}

/// The tokens of a downloaded file, each place once (the first reading wins).
pub fn collect_tokens(text: &str, kind: Kind) -> (r: Vec<Token>)
    ensures
        token_views(r@) == first_tokens(parsed_tokens(lines(text@), kind)),
{
    broadcast use vstd::std_specs::hash::group_hash_axioms;

    let cs = chars_of(text);
    let ls = lines_of(cs.as_slice());
    let ghost all = lines(text@);
    assert(char_views(ls@) == all);
    let mut seen: HashSet<u64> = HashSet::new();
    let mut out: Vec<Token> = Vec::new();
    let ghost mut parsed: Seq<TokenView> = seq![];
    let mut i: usize = 0;
    while i < ls.len()
        invariant
            i <= ls@.len(),
            char_views(ls@) == all,
            parsed == parsed_tokens(all.take(i as int), kind),
            token_views(out@) == first_tokens(parsed),
            seen@ == parsed.map_values(|t: TokenView| packed(t)).to_set(),
        decreases ls@.len() - i,
    {
        let line = string_of(ls[i].as_slice());
        assert(line@ == all[i as int]);
        let row = if kind == Kind::HebrewTokens {
            parse_hebrew_row(line.as_str())
        } else {
            parse_greek_row(line.as_str())
        };
        assert(all.take(i + 1).drop_last() =~= all.take(i as int));
        assert(all.take(i + 1).last() == all[i as int]);
        match row {
            Some(t) => {
                let k = pack_token(&t);
                let ghost tv = token_view(t);
                let ghost p0 = parsed;
                let ghost o0 = out@;
                let fresh = seen.insert(k);
                proof {
                    parsed = p0.push(tv);
                    assert(parsed.drop_last() =~= p0);
                    assert(parsed.map_values(|t: TokenView| packed(t)) =~= p0.map_values(
                        |t: TokenView| packed(t),
                    ).push(packed(tv)));
                    assert(parsed.map_values(|t: TokenView| packed(t)).to_set() =~= p0.map_values(
                        |t: TokenView| packed(t),
                    ).to_set().insert(packed(tv))) by {
                        lemma_push_set(
                            p0.map_values(|t: TokenView| packed(t)),
                            packed(tv),
                        );
                    }
                    let same = exists|j: int| 0 <= j < p0.len() && token_key(#[trigger] p0[j]) == token_key(tv);
                    if same {
                        let j = choose|j: int| 0 <= j < p0.len() && token_key(#[trigger] p0[j]) == token_key(tv);
                        assert(p0.map_values(|t: TokenView| packed(t))[j] == packed(tv));
                        assert(p0.map_values(|t: TokenView| packed(t)).to_set().contains(packed(tv)));
                    } else {
                        let pm = p0.map_values(|t: TokenView| packed(t));
                        if pm.to_set().contains(packed(tv)) {
                            let j = choose|j: int| 0 <= j < pm.len() && pm[j] == packed(tv);
                            assert(pm[j] == packed(p0[j]));
                            let u = p0[j];
                            lemma_pack_injective(
                                u.book,
                                u.chapter,
                                u.verse,
                                u.word_index,
                                tv.book,
                                tv.chapter,
                                tv.verse,
                                tv.word_index,
                            );
                            assert(token_key(p0[j]) == token_key(tv));
                        }
                    }
                }
                if fresh {
                    out.push(t);
                    assert(token_views(out@) =~= token_views(o0).push(tv));
                }
            },
            None => {},
        }
        i = i + 1;
    }
    assert(all.take(ls@.len() as int) =~= all);
    out
}

// ---------------------------------------------------------------------------
// Lexicon entries.
// ---------------------------------------------------------------------------
/// The entries of the lines that parse, in order.
pub open spec fn parsed_entries(ls: Seq<Seq<char>>) -> Seq<LexView>
    decreases ls.len(),
{
    if ls.len() == 0 {
        seq![]
    } else {
        let p = parsed_entries(ls.drop_last());
        match lexicon_row_of(ls.last()) {
            Some(e) => p.push(e),
            None => p,
        }
    }
}

/// The entries whose Strong's number no earlier entry had.
pub open spec fn first_entries(es: Seq<LexView>) -> Seq<LexView>
    decreases es.len(),
{
    if es.len() == 0 {
        seq![]
    } else {
        let p = es.drop_last();
        if exists|j: int| 0 <= j < p.len() && (#[trigger] p[j]).strongs == es.last().strongs {
            first_entries(p)
        } else {
            first_entries(p).push(es.last())
        }
    }
}

pub open spec fn lex_views(v: Seq<LexEntry>) -> Seq<LexView> {
    v.map_values(|e: LexEntry| lex_view(e))
}

/// The entries of a downloaded lexicon, each Strong's number once (the first
/// reading wins).
pub fn collect_lexicon(text: &str) -> (r: Vec<LexEntry>)
    ensures
        lex_views(r@) == first_entries(parsed_entries(lines(text@))),
{
    let cs = chars_of(text);
    let ls = lines_of(cs.as_slice());
    let ghost all = lines(text@);
    assert(char_views(ls@) == all);
    let mut seen: Vec<Vec<char>> = Vec::new();
    let mut out: Vec<LexEntry> = Vec::new();
    let ghost mut parsed: Seq<LexView> = seq![];
    assert(char_views(seen@).to_set() =~= parsed.map_values(|e: LexView| e.strongs).to_set());
    let mut i: usize = 0;
    while i < ls.len()
        invariant
            i <= ls@.len(),
            char_views(ls@) == all,
            parsed == parsed_entries(all.take(i as int)),
            lex_views(out@) == first_entries(parsed),
            lex_sorted(char_views(seen@)),
            char_views(seen@).to_set() == parsed.map_values(|e: LexView| e.strongs).to_set(),
        decreases ls@.len() - i,
    {
        let line = string_of(ls[i].as_slice());
        assert(line@ == all[i as int]);
        let row = parse_lexicon_row(line.as_str());
        assert(all.take(i + 1).drop_last() =~= all.take(i as int));
        assert(all.take(i + 1).last() == all[i as int]);
        match row {
            Some(e) => {
                let key = chars_of(e.strongs.as_str());
                let ghost ev = lex_view(e);
                let ghost p0 = parsed;
                let ghost o0 = out@;
                let fresh = insert_new(&mut seen, key.as_slice());
                proof {
                    parsed = p0.push(ev);
                    assert(parsed.drop_last() =~= p0);
                    let pm = p0.map_values(|e: LexView| e.strongs);
                    assert(parsed.map_values(|e: LexView| e.strongs) =~= pm.push(ev.strongs));
                    lemma_push_set(pm, ev.strongs);
                    let same = exists|j: int| 0 <= j < p0.len() && (#[trigger] p0[j]).strongs == ev.strongs;
                    if same {
                        let j = choose|j: int| 0 <= j < p0.len() && (#[trigger] p0[j]).strongs == ev.strongs;
                        assert(pm[j] == ev.strongs);
                        assert(pm.to_set().contains(ev.strongs));
                    } else {
                        if pm.to_set().contains(ev.strongs) {
                            let j = choose|j: int| 0 <= j < pm.len() && pm[j] == ev.strongs;
                            assert(pm[j] == p0[j].strongs);
                        }
                    }
                }
                if fresh {
                    out.push(e);
                    assert(lex_views(out@) =~= lex_views(o0).push(ev));
                }
            },
            None => {},
        }
        i = i + 1;
    }
    assert(all.take(ls@.len() as int) =~= all);
    out
}

// ---------------------------------------------------------------------------
// The sanity floor.
// ---------------------------------------------------------------------------
/// What the records of a dataset are called in messages.
pub open spec fn records_word(kind: Kind) -> Seq<char> {
    if kind == Kind::Lexicon {
        "entradas"@
    } else {
        "tokens"@
    }
}

/// The message of an import that found fewer records than a complete dataset has.
pub open spec fn floor_message(count: nat, kind: Kind, id: Seq<char>) -> Seq<char> {
    "apenas "@ + decimal(count) + " "@ + records_word(kind) + " em `"@ + id + "` (piso "@ + decimal(
        floor_of(id),
    ) + "); fonte incompleta?"@
}

/// Refuses a dataset with fewer records than its sanity floor (an incomplete
/// source).
pub fn check_floor(spec: &ScholarlySpec, count: usize) -> (r: Result<(), ScholarlyError>)
    ensures
        count < floor_of(spec.id@) ==> (r matches Err(ScholarlyError::Msg(m)) && m@ == floor_message(
            count as nat,
            spec.kind,
            spec.id@,
        )),
        count >= floor_of(spec.id@) ==> r is Ok,
{
    let floor = sanity_floor(spec);
    if count < floor {
        let mut m = copy_str("apenas ");
        push_decimal(&mut m, count as u64);
        m.append(" ");
        if spec.kind == Kind::Lexicon {
            m.append("entradas");
        } else {
            m.append("tokens");
        }
        m.append(" em `");
        m.append(spec.id);
        m.append("` (piso ");
        push_decimal(&mut m, floor as u64);
        m.append("); fonte incompleta?");
        Err(ScholarlyError::Msg(m))
    } else {
        Ok(())
    }
}

// ---------------------------------------------------------------------------
// Choosing the datasets.
// ---------------------------------------------------------------------------
/// How a requested dataset is looked up: trimmed, in lower case.
pub open spec fn dataset_key(v: Seq<char>) -> Seq<char> {
    lower_seq(trim(v))
}

/// The error when no dataset is named.
pub open spec fn none_named_message() -> Seq<char> {
    "informe ao menos um conjunto (disponíveis: "@ + join(dataset_ids(), ", "@) + ")"@
}

/// The error for an unknown dataset.
pub open spec fn unknown_message(key: Seq<char>) -> Seq<char> {
    "conjunto desconhecido `"@ + key + "` (use: "@ + join(dataset_ids(), ", "@) + ")"@
}

/// The error a requested dataset raises, if any: unknown, or refused by the
/// licence gate (every importable dataset is embeddable, under `cc-by`).
pub open spec fn request_error(v: Seq<char>) -> Option<Seq<char>> {
    let k = dataset_key(v);
    if !dataset_ids().contains(k) {
        Some(unknown_message(k))
    } else {
        embeddable_error(k, true, "cc-by"@)
    }
}

/// The error of the first request that raises one.
pub open spec fn first_request_error(vs: Seq<Seq<char>>) -> Option<Seq<char>>
    decreases vs.len(),
{
    if vs.len() == 0 {
        None
    } else {
        match first_request_error(vs.drop_last()) {
            Some(m) => Some(m),
            None => request_error(vs.last()),
        }
    }
}

/// Content kind of a dataset id.
pub open spec fn kind_of_id(id: Seq<char>) -> Kind {
    if id == "tahot"@ {
        Kind::HebrewTokens
    } else if id == "tagnt"@ {
        Kind::GreekTokens
    } else {
        Kind::Lexicon
    }
}

pub open spec fn request_views(ds: Seq<String>) -> Seq<Seq<char>> {
    ds.map_values(|d: String| d@)
}

/// The datasets an import request names, each checked against the licence
/// gate before anything is downloaded. Fails on an empty request, and on the
/// first unknown or refused dataset.
pub fn choose_datasets(datasets: &[String]) -> (r: Result<Vec<ScholarlySpec>, ScholarlyError>)
    ensures
        datasets@.len() == 0 ==> (r matches Err(ScholarlyError::Msg(m)) && m@ == none_named_message()),
        datasets@.len() > 0 ==> match first_request_error(request_views(datasets@)) {
            Some(e) => r matches Err(ScholarlyError::Msg(m)) && m@ == e,
            None => r matches Ok(v) && v@.len() == datasets@.len() && forall|i: int|
                0 <= i < v@.len() ==> (#[trigger] v@[i]).id@ == dataset_key(datasets@[i]@) && v@[i].kind
                    == kind_of_id(v@[i].id@),
        },
{
    if datasets.len() == 0 {
        let mut m = copy_str("informe ao menos um conjunto (disponíveis: ");
        let a = available_datasets();
        m.append(a.as_str());
        m.append(")");
        return Err(ScholarlyError::Msg(m));
    }
    let all = specs();
    proof {
        assert(all@.map_values(|s: ScholarlySpec| s.id@) == dataset_ids());
        assert(all@.map_values(|s: ScholarlySpec| s.kind) == dataset_kinds());
        assert(all@.len() == 4);
    }
    let ghost vs = request_views(datasets@);
    let mut chosen: Vec<ScholarlySpec> = Vec::new();
    let mut i: usize = 0;
    while i < datasets.len()
        invariant
            i <= datasets@.len(),
            vs == request_views(datasets@),
            all@.len() == 4,
            all@.map_values(|s: ScholarlySpec| s.id@) == dataset_ids(),
            all@.map_values(|s: ScholarlySpec| s.kind) == dataset_kinds(),
            forall|j: int| 0 <= j < all@.len() ==> (#[trigger] all@[j]).embeddable && all@[j].license@ == "cc-by"@,
            first_request_error(vs.take(i as int)) is None,
            chosen@.len() == i,
            forall|j: int|
                0 <= j < i ==> (#[trigger] chosen@[j]).id@ == dataset_key(datasets@[j]@) && chosen@[j].kind
                    == kind_of_id(chosen@[j].id@),
        decreases datasets@.len() - i,
    {
        assert(vs.take(i + 1).drop_last() =~= vs.take(i as int));
        assert(vs.take(i + 1).last() == datasets@[i as int]@);
        let key = lower_chars(trim_chars(chars_of(datasets[i].as_str()).as_slice()).as_slice());
        let mut k: usize = 0;
        while k < all.len()
            invariant
                k <= all@.len(),
                all@.len() == 4,
                all@.map_values(|s: ScholarlySpec| s.id@) == dataset_ids(),
                forall|j: int| 0 <= j < k ==> (#[trigger] dataset_ids()[j]) != key@,
            ensures
                k <= 4,
                k < 4 ==> dataset_ids()[k as int] == key@,
                forall|j: int| 0 <= j < k ==> (#[trigger] dataset_ids()[j]) != key@,
            decreases all@.len() - k,
        {
            assert(dataset_ids()[k as int] == all@[k as int].id@) by {
                assert(all@.map_values(|s: ScholarlySpec| s.id@)[k as int] == all@[k as int].id@);
            }
            if crate::text::chars_eq(chars_of(all[k].id).as_slice(), key.as_slice()) {
                break;
            }
            k = k + 1;
        }
        if k == 4 {
            proof {
                if dataset_ids().contains(key@) {
                    let w = choose|w: int| 0 <= w < dataset_ids().len() && dataset_ids()[w] == key@;
                    assert(dataset_ids()[w] != key@);
                }
            }
            let mut m = copy_str("conjunto desconhecido `");
            let ks = string_of(key.as_slice());
            m.append(ks.as_str());
            m.append("` (use: ");
            let a = available_datasets();
            m.append(a.as_str());
            m.append(")");
            proof {
                assert(vs[i as int] == datasets@[i as int]@);
                assert(request_error(vs[i as int]) == Some(unknown_message(key@)));
                lemma_first_error_extend(vs, i as int);
                assert(vs.take(vs.len() as int) =~= vs);
                assert(first_request_error(vs.take(vs.len() as int)) == request_error(vs[i as int]));
            }
            return Err(ScholarlyError::Msg(m));
        }
        let sp = all[k];
        proof {
            assert(dataset_ids().contains(key@)) by {
                assert(dataset_ids()[k as int] == key@);
            }
            assert(all@.map_values(|s: ScholarlySpec| s.id@)[k as int] == sp.id@);
            assert(all@.map_values(|s: ScholarlySpec| s.kind)[k as int] == sp.kind);
            assert(sp.id@ == key@);
            assert(sp.embeddable && sp.license@ == "cc-by"@);
        }
        match ensure_embeddable(&sp) {
            Err(e) => {
                proof {
                    assert(vs[i as int] == datasets@[i as int]@);
                    assert(request_error(vs[i as int]) == embeddable_error(key@, true, "cc-by"@));
                    lemma_first_error_extend(vs, i as int);
                    assert(vs.take(vs.len() as int) =~= vs);
                    assert(first_request_error(vs.take(vs.len() as int)) == request_error(vs[i as int]));
                }
                return Err(e);
            },
            Ok(()) => {},
        }
        proof {
            assert(sp.kind == kind_of_id(sp.id@)) by {
                if k == 0 {
                    assert(dataset_ids()[0] == "tahot"@);
                } else if k == 1 {
                    assert(dataset_ids()[1] == "tagnt"@);
                    assert(sp.id@ != "tahot"@) by {
                        reveal_strlit("tagnt");
                        reveal_strlit("tahot");
                        assert(sp.id@[2] != "tahot"@[2]);
                    }
                } else {
                    assert(sp.kind == Kind::Lexicon);
                    assert(sp.id@ != "tahot"@ && sp.id@ != "tagnt"@) by {
                        reveal_strlit("tagnt");
                        reveal_strlit("tahot");
                        reveal_strlit("tbesh");
                        reveal_strlit("tbesg");
                        assert(sp.id@[1] != "tahot"@[1]);
                    }
                }
            }
        }
        chosen.push(sp);
        i = i + 1;
    }
    assert(vs.take(datasets@.len() as int) =~= vs);
    Ok(chosen)
}

/// Once the requests before `i` raise nothing, the first error up to `i` is
/// that of request `i`.
proof fn lemma_first_error_extend(vs: Seq<Seq<char>>, i: int)
    requires
        0 <= i < vs.len(),
        first_request_error(vs.take(i)) is None,
    ensures
        forall|n: int|
            i < n <= vs.len() && request_error(vs[i]) is Some ==> #[trigger] first_request_error(vs.take(n))
                == request_error(vs[i]),
    decreases vs.len() - i,
{
    assert forall|n: int|
        i < n <= vs.len() && request_error(vs[i]) is Some implies #[trigger] first_request_error(vs.take(n))
        == request_error(vs[i]) by {
        lemma_first_error_prefix(vs, i, n);
    }
}

proof fn lemma_first_error_prefix(vs: Seq<Seq<char>>, i: int, n: int)
    requires
        0 <= i < n <= vs.len(),
        first_request_error(vs.take(i)) is None,
        request_error(vs[i]) is Some,
    ensures
        first_request_error(vs.take(n)) == request_error(vs[i]),
    decreases n - i,
{
    assert(vs.take(n).drop_last() =~= vs.take(n - 1));
    if n == i + 1 {
        assert(vs.take(n).last() == vs[i]);
    } else {
        lemma_first_error_prefix(vs, i, n - 1);
    }
}

} // verus!
