//! Cross references (Treasury of Scripture Knowledge / OpenBible.info, CC-BY):
//! a related verse or range with the community's votes.
use vstd::prelude::*;

use crate::model::{Lang, Reference, VerseRange};
use crate::reference::{format_reference, format_reference_spec};
use crate::sorted::strs;

verus! {

/// Default vote threshold: disputed references (negative votes) are hidden.
pub const DEFAULT_MIN_VOTES: i64 = 1;

/// Default number of results.
pub const DEFAULT_LIMIT: usize = 20;

/// A target cross reference with its community votes.
#[derive(Debug, Clone, Copy, PartialEq, Eq)]
pub struct CrossRef {
    /// Related verse (or range).
    pub reference: Reference,
    /// Community votes (higher = more relevant; negative = disputed).
    pub votes: i64,
}

/// The cross reference a stored row describes: a start at or after the end
/// is a single verse, otherwise a range. The stored numbers are narrowed to
/// the reference's integer widths.
pub open spec fn row_cross_ref(to_book: i64, to_chapter: i64, start: i64, end: i64, votes: i64) -> CrossRef {
    CrossRef {
        reference: Reference {
            book: to_book as u8,
            chapter: to_chapter as u16,
            verses: if start >= end {
                VerseRange::Single(start as u16)
            } else {
                VerseRange::Range { start: start as u16, end: end as u16 }
            },
        },
        votes,
    }
}

/// Builds the cross reference of a stored row
/// `(to_book, to_chapter, to_verse_start, to_verse_end, votes)`.
pub fn cross_ref_from_row(to_book: i64, to_chapter: i64, start: i64, end: i64, votes: i64) -> (r: CrossRef)
    ensures
        r == row_cross_ref(to_book, to_chapter, start, end, votes),
{
    let verses = if start >= end {
        VerseRange::Single(start as u16)
    } else {
        VerseRange::Range { start: start as u16, end: end as u16 }
    };
    CrossRef { reference: Reference { book: to_book as u8, chapter: to_chapter as u16, verses }, votes }
}

/// The verses whose cross references describe a passage: the given numbers,
/// or, when there are none, the start of the reference (verse 1 for a whole
/// chapter).
pub fn anchor_verses(reference: &Reference, verse_numbers: &[u16]) -> (r: Vec<u16>)
    ensures
        r@ == (if verse_numbers@.len() == 0 {
            seq![
                match reference.verses {
                    VerseRange::Single(v) => v,
                    VerseRange::Range { start, .. } => start,
                    VerseRange::WholeChapter => 1u16,
                },
            ]
        } else {
            verse_numbers@
        }),
{
    if verse_numbers.len() == 0 {
        let v: u16 = match reference.verses {
            VerseRange::Single(v) => v,
            VerseRange::Range { start, .. } => start,
            VerseRange::WholeChapter => 1,
        };
        let r = vec![v];
        assert(r@ =~= seq![v]);
        r
    } else {
        let mut r: Vec<u16> = Vec::new();
        let mut i: usize = 0;
        while i < verse_numbers.len()
            invariant
                i <= verse_numbers.len(),
                r@ == verse_numbers@.take(i as int),
            decreases verse_numbers.len() - i,
        {
            r.push(verse_numbers[i]);
            assert(verse_numbers@.take((i + 1) as int) =~= verse_numbers@.take(i as int).push(
                verse_numbers@[i as int],
            ));
            i = i + 1;
        }
        assert(verse_numbers@.take(verse_numbers.len() as int) =~= verse_numbers@);
        r
    }
}

// ---------------------------------------------------------------------------
// Cross references of a whole passage.
// ---------------------------------------------------------------------------
/// Rows asked of the store for each verse of a passage: the label limit, at
/// least one.
pub fn per_verse_limit(limit: usize) -> (r: usize)
    ensures
        r == (if limit < 1 {
            1
        } else {
            limit
        }),
{
    if limit < 1 {
        1
    } else {
        limit
    }
}

/// The hits of every verse, one after the other.
pub open spec fn flatten_hits(hs: Seq<Vec<CrossRef>>) -> Seq<CrossRef>
    decreases hs.len(),
{
    if hs.len() == 0 {
        seq![]
    } else {
        flatten_hits(hs.drop_last()) + hs.last()@
    }
}

/// Some entry of `l` is about reference `r`.
pub open spec fn has_ref(l: Seq<(Reference, i64)>, r: Reference) -> bool {
    exists|j: int| 0 <= j < l.len() && (#[trigger] l[j]).0 == r
}

/// No reference occurs twice in `l`.
pub open spec fn refs_unique(l: Seq<(Reference, i64)>) -> bool {
    forall|a: int, b: int| 0 <= a < l.len() && 0 <= b < l.len() && a != b ==> (#[trigger] l[a]).0 != (#[trigger] l[b]).0
}

/// One hit joins the list: a reference already there keeps the greater
/// number of votes, a new one goes to the end.
pub open spec fn merge_hit(l: Seq<(Reference, i64)>, c: CrossRef) -> Seq<(Reference, i64)> {
    if has_ref(l, c.reference) {
        let j = choose|j: int| 0 <= j < l.len() && (#[trigger] l[j]).0 == c.reference;
        l.update(j, (c.reference, if l[j].1 >= c.votes { l[j].1 } else { c.votes }))
    } else {
        l.push((c.reference, c.votes))
    }
}

/// Each distinct reference of the hits, in order of first appearance, with
/// the greatest number of votes it was given.
pub open spec fn best_votes(xs: Seq<CrossRef>) -> Seq<(Reference, i64)>
    decreases xs.len(),
{
    if xs.len() == 0 {
        seq![]
    } else {
        merge_hit(best_votes(xs.drop_last()), xs.last())
    }
}

proof fn lemma_merge_unique(l: Seq<(Reference, i64)>, c: CrossRef)
    requires
        refs_unique(l),
    ensures
        refs_unique(merge_hit(l, c)),
        has_ref(merge_hit(l, c), c.reference),
        forall|r: Reference| has_ref(l, r) ==> has_ref(merge_hit(l, c), r),
{
    let m = merge_hit(l, c);
    if has_ref(l, c.reference) {
        let j = choose|j: int| 0 <= j < l.len() && (#[trigger] l[j]).0 == c.reference;
        assert(m[j].0 == c.reference);
        assert forall|r: Reference| has_ref(l, r) implies has_ref(m, r) by {
            let k = choose|k: int| 0 <= k < l.len() && (#[trigger] l[k]).0 == r;
            assert(m[k].0 == r);
        }
    } else {
        assert(m[l.len() as int].0 == c.reference);
        assert forall|r: Reference| has_ref(l, r) implies has_ref(m, r) by {
            let k = choose|k: int| 0 <= k < l.len() && (#[trigger] l[k]).0 == r;
            assert(m[k].0 == r);
        }
    }
}

proof fn lemma_best_unique(xs: Seq<CrossRef>)
    ensures
        refs_unique(best_votes(xs)),
    decreases xs.len(),
{
    if xs.len() > 0 {
        lemma_best_unique(xs.drop_last());
        lemma_merge_unique(best_votes(xs.drop_last()), xs.last());
    }
}

/// Adds one hit to the list of best votes.
fn merge_into(best: &mut Vec<(Reference, i64)>, c: CrossRef)
    requires
        refs_unique(old(best)@),
    ensures
        final(best)@ == merge_hit(old(best)@, c),
        refs_unique(final(best)@),
{
    proof {
        lemma_merge_unique(best@, c);
    }
    let mut j: usize = 0;
    while j < best.len()
        invariant
            j <= best.len(),
            forall|k: int| 0 <= k < j ==> (#[trigger] best@[k]).0 != c.reference,
        ensures
            j <= best.len(),
            j < best.len() ==> best@[j as int].0 == c.reference,
            forall|k: int| 0 <= k < j ==> (#[trigger] best@[k]).0 != c.reference,
        decreases best.len() - j,
    {
        if best[j].0 == c.reference {
            break;
        }
        j = j + 1;
    }
    if j < best.len() {
        let ghost l = best@;
        proof {
            let w = choose|w: int| 0 <= w < l.len() && (#[trigger] l[w]).0 == c.reference;
            assert(l[j as int].0 == c.reference);
            assert(w == j);
        }
        let v = best[j].1;
        let m = if v >= c.votes {
            v
        } else {
            c.votes
        };
        best.set(j, (c.reference, m));
    } else {
        proof {
            assert(!has_ref(best@, c.reference));
        }
        best.push((c.reference, c.votes));
    }
}

/// The best votes of every reference among the hits of a passage.
pub fn best_of_hits(hits: &[Vec<CrossRef>]) -> (r: Vec<(Reference, i64)>)
    ensures
        r@ == best_votes(flatten_hits(hits@)),
        refs_unique(r@),
{
    let mut best: Vec<(Reference, i64)> = Vec::new();
    let ghost mut seen: Seq<CrossRef> = seq![];
    let mut i: usize = 0;
    while i < hits.len()
        invariant
            i <= hits.len(),
            seen == flatten_hits(hits@.take(i as int)),
            best@ == best_votes(seen),
            refs_unique(best@),
        decreases hits.len() - i,
    {
        let row = &hits[i];
        let mut j: usize = 0;
        while j < row.len()
            invariant
                i < hits.len(),
                *row == hits@[i as int],
                j <= row.len(),
                seen == flatten_hits(hits@.take(i as int)) + row@.take(j as int),
                best@ == best_votes(seen),
                refs_unique(best@),
            decreases row.len() - j,
        {
            let c = row[j];
            merge_into(&mut best, c);
            proof {
                let s2 = seen.push(c);
                assert(s2.drop_last() =~= seen);
                assert(flatten_hits(hits@.take(i as int)) + row@.take(j + 1) =~= s2);
                seen = s2;
            }
            j = j + 1;
        }
        proof {
            assert(hits@.take(i + 1).drop_last() =~= hits@.take(i as int));
            assert(row@.take(row@.len() as int) =~= row@);
            assert(flatten_hits(hits@.take(i + 1)) == flatten_hits(hits@.take(i as int)) + row@);
        }
        i = i + 1;
    }
    proof {
        assert(hits@.take(hits@.len() as int) =~= hits@);
    }
    best
}

/// Entry `a` of `l` ranks before entry `b`: more votes first, then by book,
/// then by chapter, then by first appearance.
pub open spec fn ranks_before(l: Seq<(Reference, i64)>, a: int, b: int) -> bool {
    let (ra, va) = l[a];
    let (rb, vb) = l[b];
    ||| va > vb
    ||| va == vb && ra.book < rb.book
    ||| va == vb && ra.book == rb.book && ra.chapter < rb.chapter
    ||| va == vb && ra.book == rb.book && ra.chapter == rb.chapter && a < b
}

/// `o` lists every index of `l` once, best ranked first.
pub open spec fn is_ranking(l: Seq<(Reference, i64)>, o: Seq<usize>) -> bool {
    &&& o.len() == l.len()
    &&& forall|k: int| 0 <= k < o.len() ==> #[trigger] o[k] < l.len()
    &&& forall|x: usize| x < l.len() ==> #[trigger] o.contains(x)
    &&& forall|a: int, b: int| 0 <= a < b < o.len() ==> ranks_before(l, #[trigger] o[a] as int, #[trigger] o[b] as int)
}

/// Ranking is a strict order: never both ways, and transitive.
proof fn lemma_ranks_order(l: Seq<(Reference, i64)>)
    ensures
        forall|a: int, b: int| #[trigger] ranks_before(l, a, b) ==> !ranks_before(l, b, a),
        forall|a: int, b: int, c: int|
            #[trigger] ranks_before(l, a, b) && #[trigger] ranks_before(l, b, c) ==> ranks_before(l, a, c),
        forall|a: int, b: int| a != b ==> #[trigger] ranks_before(l, a, b) || ranks_before(l, b, a),
{
}

/// There is only one ranking of a list: the order is total on its indices.
pub proof fn lemma_ranking_unique(l: Seq<(Reference, i64)>, o1: Seq<usize>, o2: Seq<usize>)
    requires
        is_ranking(l, o1),
        is_ranking(l, o2),
    ensures
        o1 == o2,
{
    lemma_ranks_order(l);
    assert forall|k: int| 0 <= k < o1.len() implies o1[k] == o2[k] by {
        lemma_ranking_agree(l, o1, o2, k);
    }
    assert(o1 =~= o2);
}

proof fn lemma_ranking_agree(l: Seq<(Reference, i64)>, o1: Seq<usize>, o2: Seq<usize>, k: int)
    requires
        is_ranking(l, o1),
        is_ranking(l, o2),
        0 <= k < o1.len(),
    ensures
        o1[k] == o2[k],
    decreases k,
{
    lemma_ranks_order(l);
    if k > 0 {
        assert forall|m: int| 0 <= m < k implies o1[m] == o2[m] by {
            lemma_ranking_agree(l, o1, o2, m);
        }
    }
    let x = o1[k];
    let y = o2[k];
    if x != y {
        // `y` sits after position `k` in `o1`, and `x` after `k` in `o2`.
        assert(o1.contains(y));
        let p1 = choose|p: int| 0 <= p < o1.len() && o1[p] == y;
        assert(o2.contains(x));
        let p2 = choose|p: int| 0 <= p < o2.len() && o2[p] == x;
        if p1 < k {
            assert(o2[p1] == y);
            assert(ranks_before(l, o2[p1] as int, o2[k] as int));
        }
        if p2 < k {
            assert(o1[p2] == x);
            assert(ranks_before(l, o1[p2] as int, o1[k] as int));
        }
        assert(p1 > k);
        assert(p2 > k);
        assert(ranks_before(l, o1[k] as int, o1[p1] as int));
        assert(ranks_before(l, o2[k] as int, o2[p2] as int));
    }
}

/// Whether entry `a` ranks before entry `b`.
fn ranks_before_exec(l: &Vec<(Reference, i64)>, a: usize, b: usize) -> (r: bool)
    requires
        a < l@.len(),
        b < l@.len(),
    ensures
        r == ranks_before(l@, a as int, b as int),
{
    let (ra, va) = l[a];
    let (rb, vb) = l[b];
    if va != vb {
        va > vb
    } else if ra.book != rb.book {
        ra.book < rb.book
    } else if ra.chapter != rb.chapter {
        ra.chapter < rb.chapter
    } else {
        a < b
    }
}

/// The ranking of a list of best votes (insertion of each index in turn).
pub fn rank_order(l: &Vec<(Reference, i64)>) -> (o: Vec<usize>)
    ensures
        is_ranking(l@, o@),
{
    proof {
        lemma_ranks_order(l@);
    }
    let mut o: Vec<usize> = Vec::new();
    let mut i: usize = 0;
    while i < l.len()
        invariant
            i <= l@.len(),
            o@.len() == i,
            forall|k: int| 0 <= k < o@.len() ==> #[trigger] o@[k] < i,
            forall|x: usize| x < i ==> #[trigger] o@.contains(x),
            forall|a: int, b: int|
                0 <= a < b < o@.len() ==> ranks_before(l@, #[trigger] o@[a] as int, #[trigger] o@[b] as int),
        decreases l@.len() - i,
    {
        let mut p: usize = 0;
        while p < o.len() && ranks_before_exec(l, o[p], i)
            invariant
                i < l@.len(),
                p <= o@.len(),
                forall|k: int| 0 <= k < o@.len() ==> #[trigger] o@[k] < i,
                forall|k: int| 0 <= k < p ==> ranks_before(l@, #[trigger] o@[k] as int, i as int),
            decreases o@.len() - p,
        {
            p = p + 1;
        }
        let ghost o0 = o@;
        proof {
            if p < o0.len() {
                assert(!ranks_before(l@, o0[p as int] as int, i as int));
                assert(o0[p as int] != i);
                assert(ranks_before(l@, i as int, o0[p as int] as int));
                assert forall|k: int| p <= k < o0.len() implies ranks_before(l@, i as int, #[trigger] o0[k] as int) by {
                    if k > p {
                        assert(ranks_before(l@, o0[p as int] as int, o0[k] as int));
                    }
                }
            }
        }
        o.insert(p, i);
        proof {
            let o1 = o@;
            assert(o1 == o0.insert(p as int, i));
            assert forall|k: int| 0 <= k < o1.len() implies #[trigger] o1[k] < i + 1 by {
                if k < p {
                    assert(o1[k] == o0[k]);
                } else if k > p {
                    assert(o1[k] == o0[k - 1]);
                }
            }
            assert forall|x: usize| x < i + 1 implies #[trigger] o1.contains(x) by {
                if x == i {
                    assert(o1[p as int] == i);
                } else {
                    assert(o0.contains(x));
                    let w = choose|w: int| 0 <= w < o0.len() && o0[w] == x;
                    if w < p {
                        assert(o1[w] == x);
                    } else {
                        assert(o1[w + 1] == x);
                    }
                }
            }
            assert forall|a: int, b: int|
                0 <= a < b < o1.len() implies ranks_before(l@, #[trigger] o1[a] as int, #[trigger] o1[b] as int) by {
                if b < p {
                    assert(o1[a] == o0[a] && o1[b] == o0[b]);
                } else if b == p {
                    assert(o1[a] == o0[a]);
                } else if a > p {
                    assert(o1[a] == o0[a - 1] && o1[b] == o0[b - 1]);
                } else if a == p {
                    assert(o1[b] == o0[b - 1]);
                } else {
                    assert(o1[a] == o0[a] && o1[b] == o0[b - 1]);
                    assert(ranks_before(l@, o0[a] as int, i as int));
                    assert(ranks_before(l@, i as int, o0[b - 1] as int));
                }
            }
        }
        i = i + 1;
    }
    o
}

/// The ranking of a list of best votes (there is exactly one, see
/// `lemma_ranking_unique`).
pub open spec fn ranking_of(l: Seq<(Reference, i64)>) -> Seq<usize> {
    choose|o: Seq<usize>| is_ranking(l, o)
}

/// The labels of the first `limit` ranked entries, formatted in `lang`.
pub open spec fn ranked_labels(l: Seq<(Reference, i64)>, o: Seq<usize>, lang: Lang, limit: nat) -> Seq<Seq<char>> {
    let n = if limit < o.len() {
        limit as int
    } else {
        o.len() as int
    };
    o.take(n).map_values(|i: usize| format_reference_spec(l[i as int].0, lang))
}

/// Labels of the cross references of a whole passage: `hits` holds what the
/// store returned for each verse of the passage. Each reference is kept once,
/// with its greatest number of votes; they are ranked by votes (then book,
/// then chapter, then first appearance), at most `limit` of them, formatted
/// in `lang`.
pub fn passage_labels(hits: &[Vec<CrossRef>], lang: Lang, limit: usize) -> (r: Vec<String>)
    ensures
        strs(r@) == ranked_labels(
            best_votes(flatten_hits(hits@)),
            ranking_of(best_votes(flatten_hits(hits@))),
            lang,
            limit as nat,
        ),
{
    let best = best_of_hits(hits);
    let o = rank_order(&best);
    proof {
        let c = ranking_of(best@);
        assert(is_ranking(best@, c));
        lemma_ranking_unique(best@, o@, c);
    }
    let n: usize = if limit < o.len() {
        limit
    } else {
        o.len()
    };
    let ghost want = ranked_labels(best@, o@, lang, limit as nat);
    let mut r: Vec<String> = Vec::new();
    let mut k: usize = 0;
    while k < n
        invariant
            k <= n,
            n <= o@.len(),
            n == (if limit < o@.len() { limit as int } else { o@.len() as int }),
            is_ranking(best@, o@),
            want == ranked_labels(best@, o@, lang, limit as nat),
            want.len() == n,
            strs(r@) == want.take(k as int),
        decreases n - k,
    {
        let i = o[k];
        let label = format_reference(&best[i].0, lang);
        let ghost r0 = r@;
        r.push(label);
        proof {
            assert(strs(r@) =~= strs(r0).push(label@));
            assert(o@.take(n as int)[k as int] == i);
            assert(want[k as int] == format_reference_spec(best@[i as int].0, lang));
            assert(strs(r@) =~= want.take(k + 1));
        }
        k = k + 1;
    }
    proof {
        assert(want.take(n as int) =~= want);
    }
    r
}

/// In a ranking, the votes never increase from one entry to the next.
pub proof fn lemma_ranking_votes_desc(l: Seq<(Reference, i64)>, o: Seq<usize>)
    requires
        is_ranking(l, o),
    ensures
        forall|a: int, b: int| 0 <= a < b < o.len() ==> l[#[trigger] o[a] as int].1 >= l[#[trigger] o[b] as int].1,
{
    assert forall|a: int, b: int| 0 <= a < b < o.len() implies l[#[trigger] o[a] as int].1 >= l[#[trigger] o[b] as int].1 by {
        assert(ranks_before(l, o[a] as int, o[b] as int));
    }
}

/// Each hit's reference is listed with at least its votes, and each listed
/// number of votes is that of some hit of the reference: the greatest.
pub proof fn lemma_best_votes_max(xs: Seq<CrossRef>)
    ensures
        forall|k: int|
            0 <= k < xs.len() ==> exists|j: int|
                0 <= j < best_votes(xs).len() && (#[trigger] best_votes(xs)[j]).0 == (#[trigger] xs[k]).reference
                    && best_votes(xs)[j].1 >= xs[k].votes,
        forall|j: int|
            0 <= j < best_votes(xs).len() ==> exists|k: int|
                0 <= k < xs.len() && (#[trigger] xs[k]).reference == (#[trigger] best_votes(xs)[j]).0
                    && xs[k].votes == best_votes(xs)[j].1,
    decreases xs.len(),
{
    if xs.len() > 0 {
        let p = xs.drop_last();
        let c = xs.last();
        let l = best_votes(p);
        let m = best_votes(xs);
        lemma_best_votes_max(p);
        lemma_best_unique(p);
        assert(m == merge_hit(l, c));
        if has_ref(l, c.reference) {
            let w = choose|j: int| 0 <= j < l.len() && (#[trigger] l[j]).0 == c.reference;
            assert forall|k: int| 0 <= k < xs.len() implies exists|j: int|
                0 <= j < m.len() && (#[trigger] m[j]).0 == (#[trigger] xs[k]).reference && m[j].1 >= xs[k].votes by {
                if k == xs.len() - 1 {
                    assert(m[w].0 == xs[k].reference);
                } else {
                    assert(xs[k] == p[k]);
                    let j = choose|j: int| 0 <= j < l.len() && (#[trigger] l[j]).0 == (#[trigger] p[k]).reference && l[j].1 >= p[k].votes;
                    assert(m[j].0 == xs[k].reference);
                }
            }
            assert forall|j: int| 0 <= j < m.len() implies exists|k: int|
                0 <= k < xs.len() && (#[trigger] xs[k]).reference == (#[trigger] m[j]).0 && xs[k].votes == m[j].1 by {
                if j == w && c.votes > l[w].1 {
                    assert(xs[xs.len() - 1] == c);
                } else {
                    let k = choose|k: int| 0 <= k < p.len() && (#[trigger] p[k]).reference == (#[trigger] l[j]).0 && p[k].votes == l[j].1;
                    assert(xs[k] == p[k]);
                }
            }
        } else {
            assert forall|k: int| 0 <= k < xs.len() implies exists|j: int|
                0 <= j < m.len() && (#[trigger] m[j]).0 == (#[trigger] xs[k]).reference && m[j].1 >= xs[k].votes by {
                if k == xs.len() - 1 {
                    assert(m[l.len() as int].0 == xs[k].reference);
                } else {
                    assert(xs[k] == p[k]);
                    let j = choose|j: int| 0 <= j < l.len() && (#[trigger] l[j]).0 == (#[trigger] p[k]).reference && l[j].1 >= p[k].votes;
                    assert(m[j] == l[j]);
                }
            }
            assert forall|j: int| 0 <= j < m.len() implies exists|k: int|
                0 <= k < xs.len() && (#[trigger] xs[k]).reference == (#[trigger] m[j]).0 && xs[k].votes == m[j].1 by {
                if j == l.len() {
                    assert(xs[xs.len() - 1] == c);
                } else {
                    let k = choose|k: int| 0 <= k < p.len() && (#[trigger] p[k]).reference == (#[trigger] l[j]).0 && p[k].votes == l[j].1;
                    assert(xs[k] == p[k]);
                }
            }
        }
    }
}

} // verus!
