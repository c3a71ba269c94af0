//! Sets of strings listed once each in lexicographic order (the order of
//! `str::cmp`, which on UTF-8 is the order of character codes).
use vstd::prelude::*;

use crate::scan::{lemma_lex_irrefl, lemma_lex_trans, lex_lt};
use crate::text::{chars_of, str_eq};

verus! {

pub open spec fn strs(v: Seq<String>) -> Seq<Seq<char>> {
    v.map_values(|s: String| s@)
}

/// Strictly increasing in lexicographic order (so no element repeats).
pub open spec fn lex_sorted(q: Seq<Seq<char>>) -> bool {
    forall|i: int, j: int| 0 <= i < j < q.len() ==> lex_lt(#[trigger] q[i], #[trigger] q[j])
}

/// The elements of `s`, each once, in lexicographic order.
pub open spec fn sorted_set(s: Set<Seq<char>>) -> Seq<Seq<char>> {
    choose|q: Seq<Seq<char>>| lex_sorted(q) && q.to_set() == s
}

/// The text order is asymmetric.
pub proof fn lemma_lex_asym(a: Seq<char>, b: Seq<char>)
    requires
        lex_lt(a, b),
    ensures
        !lex_lt(b, a),
{
    if lex_lt(b, a) {
        lemma_lex_trans(a, b, a);
        lemma_lex_irrefl(a);
    }
}

/// Of two distinct texts one comes first.
pub proof fn lemma_lex_total(a: Seq<char>, b: Seq<char>)
    requires
        a != b,
    ensures
        lex_lt(a, b) || lex_lt(b, a),
    decreases a.len(),
{
    if a.len() == 0 {
        if b.len() == 0 {
            assert(a =~= b);
        }
    } else if b.len() > 0 && a[0] == b[0] {
        if a.drop_first() == b.drop_first() {
            assert(a.drop_first().len() == b.drop_first().len());
            assert(a.len() == b.len());
            assert(a =~= b) by {
                assert forall|i: int| 0 <= i < a.len() implies a[i] == b[i] by {
                    if i > 0 {
                        assert(a[i] == a.drop_first()[i - 1]);
                        assert(b[i] == b.drop_first()[i - 1]);
                    }
                }
            }
        }
        lemma_lex_total(a.drop_first(), b.drop_first());
    }
}

/// Two strictly sorted sequences with the same elements are equal.
pub proof fn lemma_sorted_unique(a: Seq<Seq<char>>, b: Seq<Seq<char>>)
    requires
        lex_sorted(a),
        lex_sorted(b),
        a.to_set() == b.to_set(),
    ensures
        a == b,
    decreases a.len(),
{
    if a.len() == 0 {
        if b.len() > 0 {
            assert(b.to_set().contains(b[0]));
        }
        assert(a =~= b);
    } else {
        assert(a.to_set().contains(a[0]));
        assert(b.len() > 0);
        assert(b.to_set().contains(b[0]));
        if a[0] != b[0] {
            let j = choose|j: int| 0 <= j < b.len() && b[j] == a[0];
            let k = choose|k: int| 0 <= k < a.len() && a[k] == b[0];
            assert(j > 0 && k > 0);
            assert(lex_lt(b[0], b[j]));
            assert(lex_lt(a[0], a[k]));
            lemma_lex_asym(a[0], b[0]);
        }
        let ta = a.drop_first();
        let tb = b.drop_first();
        assert forall|i: int, j: int| 0 <= i < j < ta.len() implies lex_lt(
            #[trigger] ta[i],
            #[trigger] ta[j],
        ) by {
            assert(ta[i] == a[i + 1] && ta[j] == a[j + 1]);
        }
        assert forall|i: int, j: int| 0 <= i < j < tb.len() implies lex_lt(
            #[trigger] tb[i],
            #[trigger] tb[j],
        ) by {
            assert(tb[i] == b[i + 1] && tb[j] == b[j + 1]);
        }
        assert forall|x: Seq<char>| ta.to_set().contains(x) implies tb.to_set().contains(x) by {
            let i = choose|i: int| 0 <= i < ta.len() && ta[i] == x;
            assert(x == a[i + 1]);
            assert(lex_lt(a[0], a[i + 1]));
            lemma_lex_irrefl(a[0]);
            assert(a.to_set().contains(x));
            let j = choose|j: int| 0 <= j < b.len() && b[j] == x;
            assert(j != 0);
            assert(tb[j - 1] == x);
        }
        assert forall|x: Seq<char>| tb.to_set().contains(x) implies ta.to_set().contains(x) by {
            let i = choose|i: int| 0 <= i < tb.len() && tb[i] == x;
            assert(x == b[i + 1]);
            assert(lex_lt(b[0], b[i + 1]));
            lemma_lex_irrefl(b[0]);
            assert(b.to_set().contains(x));
            let j = choose|j: int| 0 <= j < a.len() && a[j] == x;
            assert(j != 0);
            assert(ta[j - 1] == x);
        }
        assert(ta.to_set() =~= tb.to_set());
        lemma_sorted_unique(ta, tb);
        assert(a =~= b) by {
            assert forall|i: int| 0 <= i < a.len() implies a[i] == b[i] by {
                if i > 0 {
                    assert(a[i] == ta[i - 1]);
                    assert(b[i] == tb[i - 1]);
                }
            }
        }
    }
}

/// A strictly sorted listing of a set is the one `sorted_set` names.
pub proof fn lemma_is_sorted_set(q: Seq<Seq<char>>)
    requires
        lex_sorted(q),
    ensures
        sorted_set(q.to_set()) == q,
{
    let s = q.to_set();
    assert(exists|p: Seq<Seq<char>>| lex_sorted(p) && p.to_set() == s);
    let p = sorted_set(s);
    lemma_sorted_unique(p, q);
}

/// Appending an item adds it to the set of items.
pub proof fn lemma_push_to_set(q: Seq<Seq<char>>, x: Seq<char>)
    ensures
        q.push(x).to_set() == q.to_set().insert(x),
{
    let p = q.push(x);
    assert forall|y: Seq<char>| p.to_set().contains(y) <==> q.to_set().insert(x).contains(y) by {
        if p.to_set().contains(y) {
            let i = choose|i: int| 0 <= i < p.len() && p[i] == y;
            if i < q.len() {
                assert(q[i] == y);
            }
        }
        if q.to_set().contains(y) {
            let i = choose|i: int| 0 <= i < q.len() && q[i] == y;
            assert(p[i] == y);
        }
        if y == x {
            assert(p[q.len() as int] == y);
        }
    }
    assert(p.to_set() =~= q.to_set().insert(x));
}

/// `a < b` in lexicographic order.
pub fn lex_lt_exec(a: &[char], b: &[char]) -> (r: bool)
    ensures
        r == lex_lt(a@, b@),
{
    let mut i: usize = 0;
    assert(a@.skip(0) =~= a@);
    assert(b@.skip(0) =~= b@);
    while i < a.len() && i < b.len()
        invariant
            i <= a.len(),
            i <= b.len(),
            lex_lt(a@, b@) == lex_lt(a@.skip(i as int), b@.skip(i as int)),
        decreases a.len() - i,
    {
        assert(a@.skip(i as int).drop_first() =~= a@.skip(i + 1));
        assert(b@.skip(i as int).drop_first() =~= b@.skip(i + 1));
        if a[i] != b[i] {
            return a[i] < b[i];
        }
        i = i + 1;
    }
    i < b.len()
}

/// First position whose element is not below `x`.
fn lower_bound(out: &Vec<String>, x: &[char]) -> (k: usize)
    ensures
        k <= out.len(),
        forall|j: int| 0 <= j < k ==> lex_lt(#[trigger] strs(out@)[j], x@),
        k < out.len() ==> !lex_lt(strs(out@)[k as int], x@),
{
    let mut k: usize = 0;
    while k < out.len()
        invariant
            k <= out.len(),
            forall|j: int| 0 <= j < k ==> lex_lt(#[trigger] strs(out@)[j], x@),
        decreases out.len() - k,
    {
        let e = chars_of(out[k].as_str());
        if !lex_lt_exec(e.as_slice(), x) {
            return k;
        }
        k = k + 1;
    }
    k
}

/// Inserts `x` into the strictly sorted `out`, unless it is already there.
fn insert_sorted(out: &mut Vec<String>, x: String)
    requires
        lex_sorted(strs(old(out)@)),
    ensures
        lex_sorted(strs(final(out)@)),
        strs(final(out)@).to_set() == strs(old(out)@).to_set().insert(x@),
{
    let xv = chars_of(x.as_str());
    let k = lower_bound(out, xv.as_slice());
    let ghost q = strs(out@);
    if k < out.len() && str_eq(out[k].as_str(), x.as_str()) {
        assert(q[k as int] == x@);
        assert(q.to_set() =~= q.to_set().insert(x@));
        return ;
    }
    proof {
        if k < q.len() {
            lemma_lex_total(q[k as int], x@);
        }
    }
    out.insert(k, x);
    let ghost n = strs(out@);
    assert(n =~= q.insert(k as int, x@));
    assert forall|i: int, j: int| 0 <= i < j < n.len() implies lex_lt(#[trigger] n[i], #[trigger] n[j]) by {
        if j < k {
            assert(n[i] == q[i] && n[j] == q[j]);
        } else if j == k {
            assert(n[i] == q[i]);
        } else if i < k {
            assert(n[i] == q[i] && n[j] == q[j - 1]);
            assert(lex_lt(q[i], x@));
            if j - 1 > k {
                assert(lex_lt(q[k as int], q[j - 1]));
                lemma_lex_trans(x@, q[k as int], q[j - 1]);
            }
            lemma_lex_trans(q[i], x@, q[j - 1]);
        } else if i == k {
            assert(n[j] == q[j - 1]);
            if j - 1 > k {
                assert(lex_lt(q[k as int], q[j - 1]));
                lemma_lex_trans(x@, q[k as int], q[j - 1]);
            }
        } else {
            assert(n[i] == q[i - 1] && n[j] == q[j - 1]);
        }
    }
    assert forall|y: Seq<char>| n.to_set().contains(y) <==> q.to_set().insert(x@).contains(y) by {
        if n.to_set().contains(y) {
            let i = choose|i: int| 0 <= i < n.len() && n[i] == y;
            if i < k {
                assert(q[i] == y);
            } else if i > k {
                assert(q[i - 1] == y);
            }
        }
        if q.to_set().contains(y) {
            let i = choose|i: int| 0 <= i < q.len() && q[i] == y;
            if i < k {
                assert(n[i] == y);
            } else {
                assert(n[i + 1] == y);
            }
        }
        if y == x@ {
            assert(n[k as int] == y);
        }
    }
    assert(n.to_set() =~= q.to_set().insert(x@));
}

/// The strings of `v`, each once, in lexicographic order (a sort followed by
/// the removal of adjacent duplicates).
pub fn sorted_unique(v: Vec<String>) -> (r: Vec<String>)
    ensures
        strs(r@) == sorted_set(strs(v@).to_set()),
        lex_sorted(strs(r@)),
{
    let mut out: Vec<String> = Vec::new();
    let mut rest = v;
    let ghost all = strs(rest@);
    let mut i: usize = 0;
    let n = rest.len();
    assert(strs(out@).to_set() =~= strs(rest@).take(0).to_set());
    while rest.len() > 0
        invariant
            lex_sorted(strs(out@)),
            i + rest.len() == n,
            i <= n,
            all.len() == n,
            strs(rest@) == all.skip(i as int),
            strs(out@).to_set() == all.take(i as int).to_set(),
        decreases rest.len(),
    {
        let ghost r0 = rest@;
        let x = rest.remove(0);
        assert(x == r0[0]);
        assert(strs(r0)[0] == all.skip(i as int)[0]);
        assert(x@ == all[i as int]);
        assert(rest@ =~= r0.drop_first());
        assert(strs(r0.drop_first()) =~= strs(r0).drop_first());
        assert(all.skip(i as int).drop_first() =~= all.skip(i + 1));
        assert(strs(rest@) =~= all.skip(i + 1));
        insert_sorted(&mut out, x);
        assert(all.take(i + 1) =~= all.take(i as int).push(all[i as int]));
        proof {
            lemma_push_to_set(all.take(i as int), all[i as int]);
        }
        i = i + 1;
    }
    assert(all.take(n as int) =~= all);
    proof {
        lemma_is_sorted_set(strs(out@));
    }
    out
}

/// The character sequences of a list of character vectors.
pub open spec fn char_views(v: Seq<Vec<char>>) -> Seq<Seq<char>> {
    v.map_values(|w: Vec<char>| w@)
}

/// First position of the strictly sorted `q` whose element is not below `x`
/// (binary search).
fn lower_bound_chars(q: &Vec<Vec<char>>, x: &[char]) -> (k: usize)
    requires
        lex_sorted(char_views(q@)),
    ensures
        k <= q@.len(),
        forall|j: int| 0 <= j < k ==> lex_lt(#[trigger] char_views(q@)[j], x@),
        forall|j: int| k <= j < q@.len() ==> !lex_lt(#[trigger] char_views(q@)[j], x@),
{
    let ghost c = char_views(q@);
    let mut lo: usize = 0;
    let mut hi: usize = q.len();
    while lo < hi
        invariant
            lo <= hi <= q@.len(),
            c == char_views(q@),
            lex_sorted(c),
            forall|j: int| 0 <= j < lo ==> lex_lt(#[trigger] c[j], x@),
            forall|j: int| hi <= j < q@.len() ==> !lex_lt(#[trigger] c[j], x@),
        decreases hi - lo,
    {
        let m = lo + (hi - lo) / 2;
        assert(c[m as int] == q@[m as int]@);
        if lex_lt_exec(q[m].as_slice(), x) {
            assert forall|j: int| 0 <= j < m + 1 implies lex_lt(#[trigger] c[j], x@) by {
                if j < m {
                    lemma_lex_trans(c[j], c[m as int], x@);
                }
            }
            lo = m + 1;
        } else {
            assert forall|j: int| m <= j < q@.len() implies !lex_lt(#[trigger] c[j], x@) by {
                if j > m && lex_lt(c[j], x@) {
                    lemma_lex_trans(c[m as int], c[j], x@);
                }
            }
            hi = m;
        }
    }
    lo
}

/// Adds `x` to the strictly sorted set `seen`; `true` when it was not there.
pub fn insert_new(seen: &mut Vec<Vec<char>>, x: &[char]) -> (fresh: bool)
    requires
        lex_sorted(char_views(old(seen)@)),
    ensures
        lex_sorted(char_views(final(seen)@)),
        char_views(final(seen)@).to_set() == char_views(old(seen)@).to_set().insert(x@),
        fresh == !char_views(old(seen)@).to_set().contains(x@),
{
    let ghost q = char_views(seen@);
    let k = lower_bound_chars(seen, x);
    if k < seen.len() && crate::text::chars_eq(seen[k].as_slice(), x) {
        assert(q[k as int] == x@);
        assert(q.to_set() =~= q.to_set().insert(x@));
        return false;
    }
    proof {
        if k < q.len() {
            assert(q[k as int] == seen@[k as int]@);
            lemma_lex_total(q[k as int], x@);
        }
        if q.to_set().contains(x@) {
            let i = choose|i: int| 0 <= i < q.len() && q[i] == x@;
            lemma_lex_irrefl(x@);
            if i < k {
                assert(lex_lt(q[i], x@));
            } else if i > k {
                assert(lex_lt(q[k as int], q[i]));
                lemma_lex_total(q[k as int], x@);
                lemma_lex_asym(q[k as int], x@);
            }
        }
    }
    let v = crate::text::slice_chars(x, 0, x.len());
    assert(v@ =~= x@);
    seen.insert(k, v);
    let ghost n = char_views(seen@);
    assert(n =~= q.insert(k as int, x@));
    assert forall|i: int, j: int| 0 <= i < j < n.len() implies lex_lt(#[trigger] n[i], #[trigger] n[j]) by {
        if j < k {
            assert(n[i] == q[i] && n[j] == q[j]);
        } else if j == k {
            assert(n[i] == q[i]);
        } else if i < k {
            assert(n[i] == q[i] && n[j] == q[j - 1]);
            if j - 1 > k {
                assert(lex_lt(q[k as int], q[j - 1]));
                lemma_lex_trans(x@, q[k as int], q[j - 1]);
            }
            lemma_lex_trans(q[i], x@, q[j - 1]);
        } else if i == k {
            assert(n[j] == q[j - 1]);
            if j - 1 > k {
                assert(lex_lt(q[k as int], q[j - 1]));
                lemma_lex_trans(x@, q[k as int], q[j - 1]);
            }
        } else {
            assert(n[i] == q[i - 1] && n[j] == q[j - 1]);
        }
    }
    assert forall|y: Seq<char>| n.to_set().contains(y) <==> q.to_set().insert(x@).contains(y) by {
        if n.to_set().contains(y) {
            let i = choose|i: int| 0 <= i < n.len() && n[i] == y;
            if i < k {
                assert(q[i] == y);
            } else if i > k {
                assert(q[i - 1] == y);
            }
        }
        if q.to_set().contains(y) {
            let i = choose|i: int| 0 <= i < q.len() && q[i] == y;
            if i < k {
                assert(n[i] == y);
            } else {
                assert(n[i + 1] == y);
            }
        }
        if y == x@ {
            assert(n[k as int] == y);
        }
    }
    assert(n.to_set() =~= q.to_set().insert(x@));
    true
}

} // verus!
