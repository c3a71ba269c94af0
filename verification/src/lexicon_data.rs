//! The verified lexicon of a passage, from the token rows the store returns:
//! rows are aggregated by base Strong's number (the first value present wins,
//! occurrences are counted), ranked by frequency (then by Strong's number)
//! and cut to a limit; the sources are listed once each.
use vstd::prelude::*;

use crate::citation::{base_strong, base_strong_of, ov};
use crate::lexicon::{entry_view, EntryView, LexicalEntry, VerifiedLexicon};
use crate::scan::{lemma_lex_trans, lex_lt};
use crate::sorted::{lemma_lex_asym, lemma_lex_total, lex_lt_exec, lex_sorted, sorted_set, sorted_unique, strs};
use crate::text::{chars_of, copy_str, str_eq};

verus! {

/// One token row of a passage, as the store returns it.
#[derive(Debug, Clone, PartialEq, Eq)]
pub struct LexRow {
    /// Strong's number of the token (possibly with a letter suffix).
    pub strongs: String,
    pub lemma: Option<String>,
    pub translit: Option<String>,
    /// "OT" or "NT".
    pub testament: String,
    pub gloss: Option<String>,
    /// Source id of the token data.
    pub token_source: Option<String>,
    /// Source id of the lexicon data.
    pub lexicon_source: Option<String>,
}

/// What aggregating reads of a row.
pub struct RowView {
    pub key: Seq<char>,
    pub lemma: Option<Seq<char>>,
    pub translit: Option<Seq<char>>,
    pub testament: Seq<char>,
    pub gloss: Option<Seq<char>>,
}

pub open spec fn row_view(r: LexRow) -> RowView {
    RowView {
        key: base_strong_of(r.strongs@),
        lemma: ov(r.lemma),
        translit: ov(r.translit),
        testament: r.testament@,
        gloss: ov(r.gloss),
    }
}

pub open spec fn first_present(a: Option<Seq<char>>, b: Option<Seq<char>>) -> Option<Seq<char>> {
    if a is Some {
        a
    } else {
        b
    }
}

/// One row joins the aggregates: the entry of its base number counts one more
/// occurrence and takes the values it still lacks; a new number gets a new
/// entry.
pub open spec fn add_row(es: Seq<EntryView>, r: RowView) -> Seq<EntryView> {
    if exists|j: int| 0 <= j < es.len() && (#[trigger] es[j]).strongs == r.key {
        let j = choose|j: int| 0 <= j < es.len() && (#[trigger] es[j]).strongs == r.key;
        let e = es[j];
        es.update(
            j,
            EntryView {
                strongs: e.strongs,
                lemma: first_present(e.lemma, r.lemma),
                translit: first_present(e.translit, r.translit),
                gloss: first_present(e.gloss, r.gloss),
                occurrences: (e.occurrences + 1) as u32,
                testament: if e.testament.len() == 0 {
                    r.testament
                } else {
                    e.testament
                },
            },
        )
    } else {
        es.push(
            EntryView {
                strongs: r.key,
                lemma: r.lemma,
                translit: r.translit,
                gloss: r.gloss,
                occurrences: 1,
                testament: r.testament,
            },
        )
    }
}

/// The aggregates of the rows, in order of first appearance of each number.
pub open spec fn aggregate(rows: Seq<RowView>) -> Seq<EntryView>
    decreases rows.len(),
{
    if rows.len() == 0 {
        seq![]
    } else {
        add_row(aggregate(rows.drop_last()), rows.last())
    }
}

pub open spec fn keys_distinct(es: Seq<EntryView>) -> bool {
    forall|a: int, b: int| 0 <= a < es.len() && 0 <= b < es.len() && a != b ==> (#[trigger] es[a]).strongs != (#[trigger] es[b]).strongs
}

pub open spec fn rows_view(rows: Seq<LexRow>) -> Seq<RowView> {
    rows.map_values(|r: LexRow| row_view(r))
}

pub open spec fn entries_view(es: Seq<LexicalEntry>) -> Seq<EntryView> {
    es.map_values(|e: LexicalEntry| entry_view(e))
}

proof fn lemma_aggregate(rows: Seq<RowView>)
    ensures
        keys_distinct(aggregate(rows)),
        aggregate(rows).len() <= rows.len(),
        forall|j: int| 0 <= j < aggregate(rows).len() ==> (#[trigger] aggregate(rows)[j]).occurrences <= rows.len(),
    decreases rows.len(),
{
    if rows.len() > 0 {
        let p = rows.drop_last();
        lemma_aggregate(p);
        let es = aggregate(p);
        let r = rows.last();
        let n = add_row(es, r);
        if exists|j: int| 0 <= j < es.len() && (#[trigger] es[j]).strongs == r.key {
            let j = choose|j: int| 0 <= j < es.len() && (#[trigger] es[j]).strongs == r.key;
            assert forall|a: int, b: int| 0 <= a < n.len() && 0 <= b < n.len() && a != b implies (#[trigger] n[a]).strongs != (#[trigger] n[b]).strongs by {
                assert(n[a].strongs == es[a].strongs);
                assert(n[b].strongs == es[b].strongs);
            }
            assert forall|k: int| 0 <= k < n.len() implies (#[trigger] n[k]).occurrences <= rows.len() by {
                if k != j {
                    assert(n[k] == es[k]);
                }
            }
        } else {
            assert forall|a: int, b: int| 0 <= a < n.len() && 0 <= b < n.len() && a != b implies (#[trigger] n[a]).strongs != (#[trigger] n[b]).strongs by {
                if a < es.len() && b < es.len() {
                    assert(n[a] == es[a] && n[b] == es[b]);
                } else if a < es.len() {
                    assert(n[a] == es[a]);
                } else {
                    assert(n[b] == es[b]);
                }
            }
            assert forall|k: int| 0 <= k < n.len() implies (#[trigger] n[k]).occurrences <= rows.len() by {
                if k < es.len() {
                    assert(n[k] == es[k]);
                }
            }
        }
    }
}

fn first_present_exec(a: &Option<String>, b: &Option<String>) -> (r: Option<String>)
    ensures
        ov(r) == first_present(ov(*a), ov(*b)),
{
    match a {
        Some(x) => Some(copy_str(x.as_str())),
        None => match b {
            Some(y) => Some(copy_str(y.as_str())),
            None => None,
        },
    }
}

fn copy_opt(a: &Option<String>) -> (r: Option<String>)
    ensures
        ov(r) == ov(*a),
{
    match a {
        Some(x) => Some(copy_str(x.as_str())),
        None => None,
    }
}

/// Adds one row to the aggregates.
fn add_row_exec(es: &mut Vec<LexicalEntry>, row: &LexRow)
    requires
        keys_distinct(entries_view(old(es)@)),
        forall|j: int| 0 <= j < old(es)@.len() ==> (#[trigger] old(es)@[j]).occurrences < u32::MAX,
    ensures
        entries_view(final(es)@) == add_row(entries_view(old(es)@), row_view(*row)),
{
    let key = base_strong(row.strongs.as_str());
    let ghost ev = entries_view(es@);
    let mut j: usize = 0;
    while j < es.len()
        invariant
            j <= es@.len(),
            ev == entries_view(es@),
            forall|k: int| 0 <= k < j ==> (#[trigger] ev[k]).strongs != key@,
        ensures
            j <= es@.len(),
            j < es@.len() ==> ev[j as int].strongs == key@,
            forall|k: int| 0 <= k < j ==> (#[trigger] ev[k]).strongs != key@,
        decreases es@.len() - j,
    {
        if str_eq(es[j].strongs.as_str(), key.as_str()) {
            break;
        }
        j = j + 1;
    }
    if j < es.len() {
        proof {
            let w = choose|w: int| 0 <= w < ev.len() && (#[trigger] ev[w]).strongs == key@;
            assert(ev[j as int].strongs == key@);
            assert(w == j);
        }
        let e = &es[j];
        let updated = LexicalEntry {
            strongs: copy_str(e.strongs.as_str()),
            lemma: first_present_exec(&e.lemma, &row.lemma),
            translit: first_present_exec(&e.translit, &row.translit),
            gloss: first_present_exec(&e.gloss, &row.gloss),
            occurrences: e.occurrences + 1,
            testament: if chars_of(e.testament.as_str()).len() == 0 {
                copy_str(row.testament.as_str())
            } else {
                copy_str(e.testament.as_str())
            },
        };
        es.set(j, updated);
        assert(entries_view(es@) =~= add_row(ev, row_view(*row)));
    } else {
        proof {
            assert(!(exists|k: int| 0 <= k < ev.len() && (#[trigger] ev[k]).strongs == key@));
        }
        let fresh = LexicalEntry {
            strongs: key,
            lemma: copy_opt(&row.lemma),
            translit: copy_opt(&row.translit),
            gloss: copy_opt(&row.gloss),
            occurrences: 1,
            testament: copy_str(row.testament.as_str()),
        };
        es.push(fresh);
        assert(entries_view(es@) =~= add_row(ev, row_view(*row)));
    }
}

/// The aggregates of a passage's rows, by base Strong's number.
pub fn aggregate_rows(rows: &[LexRow]) -> (r: Vec<LexicalEntry>)
    requires
        rows@.len() < u32::MAX,
    ensures
        entries_view(r@) == aggregate(rows_view(rows@)),
{
    let ghost rv = rows_view(rows@);
    let mut es: Vec<LexicalEntry> = Vec::new();
    let mut i: usize = 0;
    assert(entries_view(es@) =~= aggregate(rv.take(0)));
    while i < rows.len()
        invariant
            i <= rows@.len(),
            rows@.len() < u32::MAX,
            rv == rows_view(rows@),
            entries_view(es@) == aggregate(rv.take(i as int)),
        decreases rows@.len() - i,
    {
        proof {
            lemma_aggregate(rv.take(i as int));
            assert forall|j: int| 0 <= j < es@.len() implies (#[trigger] es@[j]).occurrences < u32::MAX by {
                assert(entries_view(es@)[j].occurrences == es@[j].occurrences);
            }
        }
        add_row_exec(&mut es, &rows[i]);
        assert(rv.take(i + 1).drop_last() =~= rv.take(i as int));
        assert(rv.take(i + 1).last() == row_view(rows@[i as int]));
        i = i + 1;
    }
    assert(rv.take(rows@.len() as int) =~= rv);
    es
}

// ---------------------------------------------------------------------------
// Most frequent first.
// ---------------------------------------------------------------------------
/// Entry `a` ranks before entry `b`: more occurrences first, then the lower
/// Strong's number.
pub open spec fn entry_before(es: Seq<EntryView>, a: int, b: int) -> bool {
    es[a].occurrences > es[b].occurrences || (es[a].occurrences == es[b].occurrences && lex_lt(
        es[a].strongs,
        es[b].strongs,
    ))
}

/// `o` lists every index of `es` once, best ranked first.
pub open spec fn is_entry_ranking(es: Seq<EntryView>, o: Seq<usize>) -> bool {
    &&& o.len() == es.len()
    &&& forall|k: int| 0 <= k < o.len() ==> #[trigger] o[k] < es.len()
    &&& forall|x: usize| x < es.len() ==> #[trigger] o.contains(x)
    &&& forall|a: int, b: int| 0 <= a < b < o.len() ==> entry_before(es, #[trigger] o[a] as int, #[trigger] o[b] as int)
}

proof fn lemma_entry_order(es: Seq<EntryView>)
    requires
        keys_distinct(es),
    ensures
        forall|a: int, b: int| #[trigger] entry_before(es, a, b) ==> !entry_before(es, b, a),
        forall|a: int, b: int, c: int|
            #[trigger] entry_before(es, a, b) && #[trigger] entry_before(es, b, c) ==> entry_before(es, a, c),
        forall|a: int, b: int|
            0 <= a < es.len() && 0 <= b < es.len() && a != b ==> #[trigger] entry_before(es, a, b) || entry_before(es, b, a),
{
    assert forall|a: int, b: int| #[trigger] entry_before(es, a, b) implies !entry_before(es, b, a) by {
        if es[a].occurrences == es[b].occurrences && lex_lt(es[a].strongs, es[b].strongs) {
            lemma_lex_asym(es[a].strongs, es[b].strongs);
        }
    }
    assert forall|a: int, b: int, c: int|
        #[trigger] entry_before(es, a, b) && #[trigger] entry_before(es, b, c) implies entry_before(es, a, c) by {
        if es[a].occurrences == es[b].occurrences && es[b].occurrences == es[c].occurrences {
            lemma_lex_trans(es[a].strongs, es[b].strongs, es[c].strongs);
        }
    }
    assert forall|a: int, b: int|
        0 <= a < es.len() && 0 <= b < es.len() && a != b implies #[trigger] entry_before(es, a, b) || entry_before(es, b, a) by {
        if es[a].occurrences == es[b].occurrences {
            lemma_lex_total(es[a].strongs, es[b].strongs);
        }
    }
}

/// There is one ranking only: the order is total on distinct numbers.
pub proof fn lemma_entry_ranking_unique(es: Seq<EntryView>, o1: Seq<usize>, o2: Seq<usize>)
    requires
        keys_distinct(es),
        is_entry_ranking(es, o1),
        is_entry_ranking(es, o2),
    ensures
        o1 == o2,
{
    assert forall|k: int| 0 <= k < o1.len() implies o1[k] == o2[k] by {
        lemma_entry_ranking_agree(es, o1, o2, k);
    }
    assert(o1 =~= o2);
}

proof fn lemma_entry_ranking_agree(es: Seq<EntryView>, o1: Seq<usize>, o2: Seq<usize>, k: int)
    requires
        keys_distinct(es),
        is_entry_ranking(es, o1),
        is_entry_ranking(es, o2),
        0 <= k < o1.len(),
    ensures
        o1[k] == o2[k],
    decreases k,
{
    lemma_entry_order(es);
    if k > 0 {
        assert forall|m: int| 0 <= m < k implies o1[m] == o2[m] by {
            lemma_entry_ranking_agree(es, o1, o2, m);
        }
    }
    let x = o1[k];
    let y = o2[k];
    if x != y {
        assert(o1.contains(y));
        let p1 = choose|p: int| 0 <= p < o1.len() && o1[p] == y;
        assert(o2.contains(x));
        let p2 = choose|p: int| 0 <= p < o2.len() && o2[p] == x;
        if p1 < k {
            assert(o2[p1] == y);
            assert(entry_before(es, o2[p1] as int, o2[k] as int));
        }
        if p2 < k {
            assert(o1[p2] == x);
            assert(entry_before(es, o1[p2] as int, o1[k] as int));
        }
        assert(entry_before(es, o1[k] as int, o1[p1] as int));
        assert(entry_before(es, o2[k] as int, o2[p2] as int));
    }
}

fn entry_before_exec(es: &Vec<LexicalEntry>, a: usize, b: usize) -> (r: bool)
    requires
        a < es@.len(),
        b < es@.len(),
    ensures
        r == entry_before(entries_view(es@), a as int, b as int),
{
    let ea = &es[a];
    let eb = &es[b];
    if ea.occurrences != eb.occurrences {
        ea.occurrences > eb.occurrences
    } else {
        let ka = chars_of(ea.strongs.as_str());
        let kb = chars_of(eb.strongs.as_str());
        lex_lt_exec(ka.as_slice(), kb.as_slice())
    }
}

/// The ranking of aggregated entries (insertion of each index in turn).
fn entry_order(es: &Vec<LexicalEntry>) -> (o: Vec<usize>)
    requires
        keys_distinct(entries_view(es@)),
    ensures
        is_entry_ranking(entries_view(es@), o@),
{
    let ghost ev = entries_view(es@);
    proof {
        lemma_entry_order(ev);
    }
    let mut o: Vec<usize> = Vec::new();
    let mut i: usize = 0;
    while i < es.len()
        invariant
            i <= ev.len(),
            ev == entries_view(es@),
            keys_distinct(ev),
            o@.len() == i,
            forall|k: int| 0 <= k < o@.len() ==> #[trigger] o@[k] < i,
            forall|x: usize| x < i ==> #[trigger] o@.contains(x),
            forall|a: int, b: int|
                0 <= a < b < o@.len() ==> entry_before(ev, #[trigger] o@[a] as int, #[trigger] o@[b] as int),
        decreases ev.len() - i,
    {
        proof {
            lemma_entry_order(ev);
        }
        let mut p: usize = 0;
        while p < o.len() && entry_before_exec(es, o[p], i)
            invariant
                i < ev.len(),
                ev == entries_view(es@),
                p <= o@.len(),
                forall|k: int| 0 <= k < o@.len() ==> #[trigger] o@[k] < i,
                forall|k: int| 0 <= k < p ==> entry_before(ev, #[trigger] o@[k] as int, i as int),
            decreases o@.len() - p,
        {
            p = p + 1;
        }
        let ghost o0 = o@;
        proof {
            if p < o0.len() {
                assert(!entry_before(ev, o0[p as int] as int, i as int));
                assert(o0[p as int] != i);
                assert(entry_before(ev, i as int, o0[p as int] as int));
                assert forall|k: int| p <= k < o0.len() implies entry_before(ev, i as int, #[trigger] o0[k] as int) by {
                    if k > p {
                        assert(entry_before(ev, o0[p as int] as int, o0[k] as int));
                    }
                }
            }
        }
        o.insert(p, i);
        proof {
            let o1 = o@;
            assert(o1 == o0.insert(p as int, i));
            assert forall|k: int| 0 <= k < o1.len() implies #[trigger] o1[k] < i + 1 by {
                if k < p {
                    assert(o1[k] == o0[k]);
                } else if k > p {
                    assert(o1[k] == o0[k - 1]);
                }
            }
            assert forall|x: usize| x < i + 1 implies #[trigger] o1.contains(x) by {
                if x == i {
                    assert(o1[p as int] == i);
                } else {
                    assert(o0.contains(x));
                    let w = choose|w: int| 0 <= w < o0.len() && o0[w] == x;
                    if w < p {
                        assert(o1[w] == x);
                    } else {
                        assert(o1[w + 1] == x);
                    }
                }
            }
            assert forall|a: int, b: int|
                0 <= a < b < o1.len() implies entry_before(ev, #[trigger] o1[a] as int, #[trigger] o1[b] as int) by {
                if b < p {
                    assert(o1[a] == o0[a] && o1[b] == o0[b]);
                } else if b == p {
                    assert(o1[a] == o0[a]);
                } else if a > p {
                    assert(o1[a] == o0[a - 1] && o1[b] == o0[b - 1]);
                } else if a == p {
                    assert(o1[b] == o0[b - 1]);
                } else {
                    assert(o1[a] == o0[a] && o1[b] == o0[b - 1]);
                    assert(entry_before(ev, o0[a] as int, i as int));
                    assert(entry_before(ev, i as int, o0[b - 1] as int));
                }
            }
        }
        i = i + 1;
    }
    o
}

/// The ranking of a list of aggregates (there is exactly one, see
/// `lemma_entry_ranking_unique`).
pub open spec fn entry_ranking_of(es: Seq<EntryView>) -> Seq<usize> {
    choose|o: Seq<usize>| is_entry_ranking(es, o)
}

/// The lexicon entries of a passage: the rows aggregated by base Strong's
/// number, most frequent first (then by number), at most `limit` of them.
pub open spec fn lexicon_entries_of(rows: Seq<RowView>, limit: nat) -> Seq<EntryView> {
    let es = aggregate(rows);
    let o = entry_ranking_of(es);
    let n = if limit < o.len() {
        limit as int
    } else {
        o.len() as int
    };
    o.take(n).map_values(|i: usize| es[i as int])
}

fn copy_entry(e: &LexicalEntry) -> (r: LexicalEntry)
    ensures
        entry_view(r) == entry_view(*e),
{
    LexicalEntry {
        strongs: copy_str(e.strongs.as_str()),
        lemma: copy_opt(&e.lemma),
        translit: copy_opt(&e.translit),
        gloss: copy_opt(&e.gloss),
        occurrences: e.occurrences,
        testament: copy_str(e.testament.as_str()),
    }
}

/// The verified entries of a passage from its token rows.
pub fn lexicon_entries(rows: &[LexRow], limit: usize) -> (r: Vec<LexicalEntry>)
    requires
        rows@.len() < u32::MAX,
    ensures
        entries_view(r@) == lexicon_entries_of(rows_view(rows@), limit as nat),
{
    let es = aggregate_rows(rows);
    proof {
        lemma_aggregate(rows_view(rows@));
    }
    let o = entry_order(&es);
    let ghost ev = entries_view(es@);
    proof {
        let c = entry_ranking_of(ev);
        assert(is_entry_ranking(ev, c));
        lemma_entry_ranking_unique(ev, o@, c);
    }
    let n: usize = if limit < o.len() {
        limit
    } else {
        o.len()
    };
    let ghost want = lexicon_entries_of(rows_view(rows@), limit as nat);
    let mut out: Vec<LexicalEntry> = Vec::new();
    let mut k: usize = 0;
    while k < n
        invariant
            k <= n,
            n <= o@.len(),
            n == (if limit < o@.len() { limit as int } else { o@.len() as int }),
            is_entry_ranking(ev, o@),
            ev == entries_view(es@),
            want == o@.take(n as int).map_values(|i: usize| ev[i as int]),
            entries_view(out@) == want.take(k as int),
        decreases n - k,
    {
        let i = o[k];
        let e = copy_entry(&es[i]);
        let ghost o0 = out@;
        out.push(e);
        proof {
            assert(o@.take(n as int)[k as int] == i);
            assert(want[k as int] == ev[i as int]);
            assert(entries_view(out@) =~= entries_view(o0).push(ev[i as int]));
            assert(want.take(k + 1) =~= want.take(k as int).push(want[k as int]));
        }
        k = k + 1;
    }
    assert(want.take(n as int) =~= want);
    out
}

// ---------------------------------------------------------------------------
// Sources.
// ---------------------------------------------------------------------------
/// The source ids a row names (token data, then lexicon data).
pub open spec fn row_sources(r: LexRow) -> Seq<Seq<char>> {
    (match r.token_source {
        Some(s) => seq![s@],
        None => seq![],
    }) + (match r.lexicon_source {
        Some(s) => seq![s@],
        None => seq![],
    })
}

pub open spec fn all_sources(rows: Seq<LexRow>) -> Seq<Seq<char>>
    decreases rows.len(),
{
    if rows.len() == 0 {
        seq![]
    } else {
        all_sources(rows.drop_last()) + row_sources(rows.last())
    }
}

/// The source ids the rows of a passage name, each once, in order.
pub fn source_ids(rows: &[LexRow]) -> (r: Vec<String>)
    ensures
        strs(r@) == sorted_set(all_sources(rows@).to_set()),
        lex_sorted(strs(r@)),
{
    let mut ids: Vec<String> = Vec::new();
    let mut i: usize = 0;
    while i < rows.len()
        invariant
            i <= rows@.len(),
            strs(ids@) == all_sources(rows@.take(i as int)),
        decreases rows@.len() - i,
    {
        let r = &rows[i];
        let ghost i0 = ids@;
        match &r.token_source {
            Some(t) => ids.push(copy_str(t.as_str())),
            None => {},
        }
        match &r.lexicon_source {
            Some(l) => ids.push(copy_str(l.as_str())),
            None => {},
        }
        assert(strs(ids@) =~= strs(i0) + row_sources(*r));
        assert(rows@.take(i + 1).drop_last() =~= rows@.take(i as int));
        i = i + 1;
    }
    assert(rows@.take(rows@.len() as int) =~= rows@);
    sorted_unique(ids)
}

/// The source ids the words of a verse name (`None`: a word without one),
/// each once, in order.
pub fn token_source_ids(found: &[Option<String>]) -> (r: Vec<String>)
    ensures
        strs(r@) == sorted_set(present_texts(found@).to_set()),
        lex_sorted(strs(r@)),
{
    let mut ids: Vec<String> = Vec::new();
    let mut i: usize = 0;
    while i < found.len()
        invariant
            i <= found@.len(),
            strs(ids@) == present_texts(found@.take(i as int)),
        decreases found@.len() - i,
    {
        let ghost i0 = ids@;
        match &found[i] {
            Some(t) => ids.push(copy_str(t.as_str())),
            None => {},
        }
        assert(found@.take(i + 1).drop_last() =~= found@.take(i as int));
        assert(strs(ids@) =~= present_texts(found@.take(i + 1)));
        i = i + 1;
    }
    assert(found@.take(found@.len() as int) =~= found@);
    sorted_unique(ids)
}

/// The first occurrence of each text, in order.
pub open spec fn first_occurrences(xs: Seq<Seq<char>>) -> Seq<Seq<char>>
    decreases xs.len(),
{
    if xs.len() == 0 {
        seq![]
    } else {
        let p = first_occurrences(xs.drop_last());
        if p.contains(xs.last()) {
            p
        } else {
            p.push(xs.last())
        }
    }
}

/// The texts of the attributions found, in order.
pub open spec fn present_texts(found: Seq<Option<String>>) -> Seq<Seq<char>>
    decreases found.len(),
{
    if found.len() == 0 {
        seq![]
    } else {
        let p = present_texts(found.drop_last());
        match found.last() {
            Some(s) => p.push(s@),
            None => p,
        }
    }
}

/// The attributions found for the source ids (`None`: none found), each once,
/// in order.
pub open spec fn attributions_of(found: Seq<Option<String>>) -> Seq<Seq<char>> {
    first_occurrences(present_texts(found))
}

fn contains_text(v: &Vec<String>, x: &str) -> (b: bool)
    ensures
        b == strs(v@).contains(x@),
{
    let mut i: usize = 0;
    while i < v.len()
        invariant
            i <= v@.len(),
            forall|j: int| 0 <= j < i ==> strs(v@)[j] != x@,
        decreases v@.len() - i,
    {
        if str_eq(v[i].as_str(), x) {
            assert(strs(v@)[i as int] == x@);
            return true;
        }
        i = i + 1;
    }
    false
}

/// The attributions of the sources used, without repetitions.
pub fn unique_attributions(found: &[Option<String>]) -> (r: Vec<String>)
    ensures
        strs(r@) == attributions_of(found@),
{
    let mut out: Vec<String> = Vec::new();
    let mut i: usize = 0;
    while i < found.len()
        invariant
            i <= found@.len(),
            strs(out@) == first_occurrences(present_texts(found@.take(i as int))),
        decreases found@.len() - i,
    {
        let ghost f = present_texts(found@.take(i as int));
        assert(found@.take(i + 1).drop_last() =~= found@.take(i as int));
        assert(found@.take(i + 1).last() == found@[i as int]);
        match &found[i] {
            Some(a) => {
                assert(found@[i as int] == Some(*a));
                assert(present_texts(found@.take(i + 1)) == f.push(a@));
                assert(f.push(a@).drop_last() =~= f);
                assert(f.push(a@).last() == a@);
                if !contains_text(&out, a.as_str()) {
                    let ghost o0 = out@;
                    out.push(copy_str(a.as_str()));
                    assert(strs(out@) =~= strs(o0).push(a@));
                }
            },
            None => {
                assert(found@[i as int] is None);
                assert(present_texts(found@.take(i + 1)) == f);
            },
        }
        i = i + 1;
    }
    assert(found@.take(found@.len() as int) =~= found@);
    out
}

/// The verified lexicon of a passage: its entries, and the attributions found
/// for its sources.
pub fn verified_lexicon(rows: &[LexRow], limit: usize, attributions: &[Option<String>]) -> (r: VerifiedLexicon)
    requires
        rows@.len() < u32::MAX,
    ensures
        entries_view(r.entries@) == lexicon_entries_of(rows_view(rows@), limit as nat),
        strs(r.sources@) == attributions_of(attributions@),
{
    VerifiedLexicon { entries: lexicon_entries(rows, limit), sources: unique_attributions(attributions) }
}

} // verus!
