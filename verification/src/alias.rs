//! Resolution of book names and abbreviations (PT or EN, with or without
//! accents, Roman-numeral prefixes) to canonical book numbers.
//!
//! Spellings are normalized (alphanumeric characters only, lowercased). The
//! accented primary spellings take precedence; Roman variants (`1`→`i`,
//! `2`→`ii`, `3`→`iii`) and accent-folded variants only fill keys that are
//! still free, which is how `jó` stays Job while `jo` is John.
use vstd::prelude::*;

use crate::books::{book_info, book_spec, BookSpec};

verus! {

/// Whether `char::is_alphanumeric` holds of `c`.
pub uninterp spec fn alphanumeric(c: char) -> bool;

/// What `char::to_lowercase` yields for `c` (one or more characters).
pub uninterp spec fn lowercase(c: char) -> Seq<char>;

/// Calls `char::is_alphanumeric`.
#[verifier::external_body]
pub fn is_alnum_char(c: char) -> (r: bool)
    ensures
        r == alphanumeric(c),
{
    c.is_alphanumeric()
}

/// Calls `char::to_lowercase`, collecting the characters it yields.
#[verifier::external_body]
pub fn lowercase_chars(c: char) -> (r: Vec<char>)
    ensures
        r@ == lowercase(c),
{
    c.to_lowercase().collect()
}

/// A normalized key: alphanumeric characters only, each lowercased (accents kept).
pub open spec fn normalize(s: Seq<char>) -> Seq<char>
    decreases s.len(),
{
    if s.len() == 0 {
        seq![]
    } else {
        normalize(s.drop_last()) + if alphanumeric(s.last()) {
            lowercase(s.last())
        } else {
            seq![]
        }
    }
}

pub fn normalize_chars(v: &[char]) -> (r: Vec<char>)
    ensures
        r@ == normalize(v@),
{
    let mut r: Vec<char> = Vec::new();
    let mut i: usize = 0;
    while i < v.len()
        invariant
            i <= v.len(),
            r@ == normalize(v@.take(i as int)),
        decreases v.len() - i,
    {
        let c = v[i];
        assert(v@.take((i + 1) as int).drop_last() =~= v@.take(i as int));
        if is_alnum_char(c) {
            let mut l = lowercase_chars(c);
            r.append(&mut l);
        }
        i = i + 1;
    }
    assert(v@.take(v.len() as int) =~= v@);
    r
}

/// Accent folding of one (lowercase) character.
pub open spec fn fold_char(c: char) -> char {
    if c == 'á' || c == 'à' || c == 'â' || c == 'ã' || c == 'ä' {
        'a'
    } else if c == 'é' || c == 'è' || c == 'ê' || c == 'ë' {
        'e'
    } else if c == 'í' || c == 'ì' || c == 'î' || c == 'ï' {
        'i'
    } else if c == 'ó' || c == 'ò' || c == 'ô' || c == 'õ' || c == 'ö' {
        'o'
    } else if c == 'ú' || c == 'ù' || c == 'û' || c == 'ü' {
        'u'
    } else if c == 'ç' {
        'c'
    } else if c == 'ñ' {
        'n'
    } else {
        c
    }
}

pub open spec fn fold_ascii(s: Seq<char>) -> Seq<char> {
    s.map_values(|c: char| fold_char(c))
}

pub fn fold_char_exec(c: char) -> (r: char)
    ensures
        r == fold_char(c),
{
    match c {
        'á' | 'à' | 'â' | 'ã' | 'ä' => 'a',
        'é' | 'è' | 'ê' | 'ë' => 'e',
        'í' | 'ì' | 'î' | 'ï' => 'i',
        'ó' | 'ò' | 'ô' | 'õ' | 'ö' => 'o',
        'ú' | 'ù' | 'û' | 'ü' => 'u',
        'ç' => 'c',
        'ñ' => 'n',
        other => other,
    }
}

/// Removes diacritics from a normalized key.
pub fn fold_ascii_chars(v: &[char]) -> (r: Vec<char>)
    ensures
        r@ == fold_ascii(v@),
{
    let mut r: Vec<char> = Vec::new();
    let mut i: usize = 0;
    while i < v.len()
        invariant
            i <= v.len(),
            r@ == fold_ascii(v@.take(i as int)),
        decreases v.len() - i,
    {
        r.push(fold_char_exec(v[i]));
        i = i + 1;
        assert(fold_ascii(v@.take(i as int)) =~= fold_ascii(v@.take((i - 1) as int)).push(
            fold_char(v@[i - 1]),
        ));
    }
    assert(v@.take(v.len() as int) =~= v@);
    r
}

/// A key with the book it resolves to.
pub type Entry = (Seq<char>, u8);

/// All spellings of a book entry, in table order.
pub open spec fn spellings(b: BookSpec) -> Seq<Seq<char>> {
    seq![b.name_en, b.name_pt, b.abbrev_en, b.abbrev_pt] + b.aliases
}

/// `(normalize(name), n)` for each name with a non-empty key, in order.
pub open spec fn keyed(names: Seq<Seq<char>>, n: u8) -> Seq<Entry>
    decreases names.len(),
{
    if names.len() == 0 {
        seq![]
    } else {
        let rest = keyed(names.drop_last(), n);
        let k = normalize(names.last());
        if k.len() == 0 {
            rest
        } else {
            rest.push((k, n))
        }
    }
}

/// Primary entries of books `1..=m`.
pub open spec fn raw_upto(m: int) -> Seq<Entry>
    decreases m,
{
    if m <= 0 {
        seq![]
    } else {
        raw_upto(m - 1) + keyed(spellings(book_spec(m)), m as u8)
    }
}

pub open spec fn raw_entries() -> Seq<Entry> {
    raw_upto(66)
}

/// Roman-numeral variant of a key whose first character is `1`, `2` or `3`.
pub open spec fn roman_key(k: Seq<char>) -> Option<Seq<char>> {
    if k.len() > 0 && k[0] == '1' {
        Some(seq!['i'] + k.drop_first())
    } else if k.len() > 0 && k[0] == '2' {
        Some(seq!['i', 'i'] + k.drop_first())
    } else if k.len() > 0 && k[0] == '3' {
        Some(seq!['i', 'i', 'i'] + k.drop_first())
    } else {
        None
    }
}

pub open spec fn roman_entries(es: Seq<Entry>) -> Seq<Entry>
    decreases es.len(),
{
    if es.len() == 0 {
        seq![]
    } else {
        let rest = roman_entries(es.drop_last());
        match roman_key(es.last().0) {
            Some(r) => rest.push((r, es.last().1)),
            None => rest,
        }
    }
}

pub open spec fn folded_entries(es: Seq<Entry>) -> Seq<Entry>
    decreases es.len(),
{
    if es.len() == 0 {
        seq![]
    } else {
        let rest = folded_entries(es.drop_last());
        let f = fold_ascii(es.last().0);
        if f != es.last().0 {
            rest.push((f, es.last().1))
        } else {
            rest
        }
    }
}

/// Entries in priority order: primary spellings, then Roman variants, then
/// accent-folded forms of both.
pub open spec fn alias_entries() -> Seq<Entry> {
    let raw = raw_entries();
    let roman = roman_entries(raw);
    raw + roman + folded_entries(raw + roman)
}

/// Book of the first entry whose key is `k`.
pub open spec fn lookup(es: Seq<Entry>, k: Seq<char>) -> Option<u8>
    decreases es.len(),
{
    if es.len() == 0 {
        None
    } else if es[0].0 == k {
        Some(es[0].1)
    } else {
        lookup(es.drop_first(), k)
    }
}

pub open spec fn no_dup_keys(es: Seq<Entry>) -> bool {
    forall|i: int, j: int| 0 <= i < j < es.len() ==> es[i].0 != es[j].0
}

pub proof fn lemma_lookup_push(es: Seq<Entry>, x: Entry, k: Seq<char>)
    ensures
        lookup(es.push(x), k) == (match lookup(es, k) {
            Some(b) => Some(b),
            None => if x.0 == k {
                Some(x.1)
            } else {
                None
            },
        }),
    decreases es.len(),
{
    if es.len() == 0 {
        assert(es.push(x).drop_first() =~= seq![]);
    } else {
        assert(es.push(x).drop_first() =~= es.drop_first().push(x));
        lemma_lookup_push(es.drop_first(), x, k);
    }
}

pub proof fn lemma_lookup_some(es: Seq<Entry>, k: Seq<char>)
    ensures
        lookup(es, k) is Some <==> exists|i: int| 0 <= i < es.len() && es[i].0 == k,
    decreases es.len(),
{
    if es.len() > 0 {
        lemma_lookup_some(es.drop_first(), k);
        if lookup(es, k) is Some && es[0].0 != k {
            let i = choose|i: int| 0 <= i < es.drop_first().len() && es.drop_first()[i].0 == k;
            assert(es[i + 1].0 == k);
        }
        if exists|i: int| 0 <= i < es.len() && es[i].0 == k {
            let i = choose|i: int| 0 <= i < es.len() && es[i].0 == k;
            if i > 0 {
                assert(es.drop_first()[i - 1].0 == k);
            }
        }
    }
}

/// Resolution table from normalized spellings to book numbers.
pub struct AliasMap {
    entries: Vec<(Vec<char>, u8)>,
}

pub open spec fn entries_view(v: Seq<(Vec<char>, u8)>) -> Seq<Entry> {
    v.map_values(|p: (Vec<char>, u8)| (p.0@, p.1))
}

impl AliasMap {
    pub closed spec fn view(&self) -> Seq<Entry> {
        entries_view(self.entries@)
    }

    /// The map resolves every key as the priority list of all spellings does,
    /// and holds each key once.
    pub open spec fn wf(&self) -> bool {
        &&& no_dup_keys(self.view())
        &&& forall|k: Seq<char>| lookup(self.view(), k) == lookup(alias_entries(), k)
    }

    /// Number of distinct keys.
    pub fn len(&self) -> (r: usize)
        ensures
            r == self.view().len(),
    {
        self.entries.len()
    }

    /// Book of key `k`, if any.
    pub fn get(&self, k: &[char]) -> (r: Option<u8>)
        ensures
            r == lookup(self.view(), k@),
    {
        let ghost es = self.view();
        assert(es.subrange(0, es.len() as int) =~= es);
        let mut i: usize = 0;
        while i < self.entries.len()
            invariant
                i <= self.entries.len(),
                es == entries_view(self.entries@),
                lookup(es, k@) == lookup(es.subrange(i as int, es.len() as int), k@),
            decreases self.entries.len() - i,
        {
            let ghost tail = es.subrange(i as int, es.len() as int);
            assert(tail[0] == (self.entries@[i as int].0@, self.entries@[i as int].1));
            if crate::text::chars_eq(self.entries[i].0.as_slice(), k) {
                return Some(self.entries[i].1);
            }
            assert(tail.drop_first() =~= es.subrange(i + 1, es.len() as int));
            i = i + 1;
        }
        None
    }

    fn insert_if_absent(&mut self, k: Vec<char>, n: u8)
        requires
            no_dup_keys(old(self).view()),
        ensures
            no_dup_keys(final(self).view()),
            forall|q: Seq<char>|
                lookup(final(self).view(), q) == lookup(old(self).view().push((k@, n)), q),
    {
        proof {
            lemma_lookup_some(self.view(), k@);
        }
        match self.get(k.as_slice()) {
            Some(_) => {
                assert forall|q: Seq<char>|
                    lookup(self.view(), q) == lookup(self.view().push((k@, n)), q) by {
                    lemma_lookup_push(self.view(), (k@, n), q);
                }
            },
            None => {
                let ghost old_v = self.view();
                self.entries.push((k, n));
                assert(self.view() =~= old_v.push((k@, n)));
                assert forall|i: int, j: int|
                    0 <= i < j < self.view().len() implies self.view()[i].0 != self.view()[j].0 by {
                    if j == old_v.len() {
                        assert(old_v[i].0 != k@);
                    }
                }
            },
        }
    }
}

fn push_keyed(out: &mut Vec<(Vec<char>, u8)>, name: &str, n: u8)
    ensures
        entries_view(final(out)@) == entries_view(old(out)@) + keyed(seq![name@], n),
{
    let k = normalize_chars(crate::text::chars_of(name).as_slice());
    assert(seq![name@].drop_last() =~= Seq::<Seq<char>>::empty());
    assert(seq![name@].last() == name@);
    assert(keyed(Seq::<Seq<char>>::empty(), n) == Seq::<Entry>::empty());
    if k.len() > 0 {
        let ghost o = out@;
        out.push((k, n));
        assert(entries_view(out@) =~= entries_view(o).push((normalize(name@), n)));
    } else {
        assert(entries_view(out@) =~= entries_view(out@) + Seq::<Entry>::empty());
    }
}

pub proof fn lemma_keyed_append(a: Seq<Seq<char>>, b: Seq<Seq<char>>, n: u8)
    ensures
        keyed(a + b, n) == keyed(a, n) + keyed(b, n),
    decreases b.len(),
{
    if b.len() == 0 {
        assert(a + b =~= a);
        assert(keyed(a, n) + keyed(b, n) =~= keyed(a, n));
    } else {
        assert((a + b).drop_last() =~= a + b.drop_last());
        assert((a + b).last() == b.last());
        lemma_keyed_append(a, b.drop_last(), n);
    }
}

/// Primary entries of books `1..=66`, in table order.
fn raw_spellings() -> (r: Vec<(Vec<char>, u8)>)
    ensures
        entries_view(r@) == raw_entries(),
{
    let mut out: Vec<(Vec<char>, u8)> = Vec::new();
    let mut n: u8 = 1;
    while n <= 66
        invariant
            1 <= n <= 67,
            entries_view(out@) == raw_upto(n - 1),
        decreases 67 - n,
    {
        let b = book_info(n).unwrap();
        let ghost names = spellings(book_spec(n as int));
        let ghost start = entries_view(out@);
        push_keyed(&mut out, b.name_en, n);
        push_keyed(&mut out, b.name_pt, n);
        push_keyed(&mut out, b.abbrev_en, n);
        push_keyed(&mut out, b.abbrev_pt, n);
        proof {
            let s4: Seq<Seq<char>> = seq![b.name_en@, b.name_pt@, b.abbrev_en@, b.abbrev_pt@];
            lemma_keyed_append(seq![b.name_en@], seq![b.name_pt@], n);
            assert(seq![b.name_en@] + seq![b.name_pt@] =~= seq![b.name_en@, b.name_pt@]);
            lemma_keyed_append(seq![b.name_en@, b.name_pt@], seq![b.abbrev_en@], n);
            assert(seq![b.name_en@, b.name_pt@] + seq![b.abbrev_en@] =~= seq![
                b.name_en@,
                b.name_pt@,
                b.abbrev_en@,
            ]);
            lemma_keyed_append(
                seq![b.name_en@, b.name_pt@, b.abbrev_en@],
                seq![b.abbrev_pt@],
                n,
            );
            assert(seq![b.name_en@, b.name_pt@, b.abbrev_en@] + seq![b.abbrev_pt@] =~= s4);
            assert(entries_view(out@) =~= start + keyed(s4, n));
        }
        let ghost mid = entries_view(out@);
        let ghost s4: Seq<Seq<char>> = seq![b.name_en@, b.name_pt@, b.abbrev_en@, b.abbrev_pt@];
        let mut j: usize = 0;
        while j < b.aliases.len()
            invariant
                j <= b.aliases.len(),
                entries_view(out@) == start + keyed(
                    s4 + b.aliases@.map_values(|a: &str| a@).take(j as int),
                    n,
                ),
            decreases b.aliases.len() - j,
        {
            let ghost before = entries_view(out@);
            push_keyed(&mut out, b.aliases[j], n);
            proof {
                let al = b.aliases@.map_values(|a: &str| a@);
                assert(s4 + al.take((j + 1) as int) =~= (s4 + al.take(j as int)) + seq![
                    b.aliases@[j as int]@,
                ]);
                lemma_keyed_append(s4 + al.take(j as int), seq![b.aliases@[j as int]@], n);
            }
            j = j + 1;
        }
        proof {
            let al = b.aliases@.map_values(|a: &str| a@);
            assert(al.take(b.aliases.len() as int) =~= al);
            assert(s4 + al =~= names);
            assert(raw_upto(n as int) == raw_upto(n - 1) + keyed(names, n));
        }
        n = n + 1;
    }
    out
}

fn roman_of(raw: &Vec<(Vec<char>, u8)>) -> (r: Vec<(Vec<char>, u8)>)
    ensures
        entries_view(r@) == roman_entries(entries_view(raw@)),
{
    let ghost rv = entries_view(raw@);
    let mut out: Vec<(Vec<char>, u8)> = Vec::new();
    let mut i: usize = 0;
    while i < raw.len()
        invariant
            i <= raw.len(),
            rv == entries_view(raw@),
            entries_view(out@) == roman_entries(rv.take(i as int)),
        decreases raw.len() - i,
    {
        let k = &raw[i].0;
        let n = raw[i].1;
        assert(rv.take((i + 1) as int).drop_last() =~= rv.take(i as int));
        assert(rv.take((i + 1) as int).last() == (k@, n));
        let ghost o = entries_view(out@);
        if k.len() > 0 && (k[0] == '1' || k[0] == '2' || k[0] == '3') {
            let mut nk: Vec<char> = Vec::new();
            nk.push('i');
            if k[0] == '2' || k[0] == '3' {
                nk.push('i');
            }
            if k[0] == '3' {
                nk.push('i');
            }
            let ghost prefix = nk@;
            let mut t: usize = 1;
            while t < k.len()
                invariant
                    1 <= t <= k.len(),
                    nk@ == prefix + k@.subrange(1, t as int),
                decreases k.len() - t,
            {
                nk.push(k[t]);
                t = t + 1;
                assert(nk@ =~= prefix + k@.subrange(1, t as int));
            }
            assert(k@.subrange(1, k.len() as int) =~= k@.drop_first());
            assert(nk@ =~= roman_key(k@)->0);
            out.push((nk, n));
            assert(entries_view(out@) =~= o.push((roman_key(k@)->0, n)));
        }
        i = i + 1;
    }
    assert(rv.take(raw.len() as int) =~= rv);
    out
}

fn folded_of(es: &Vec<(Vec<char>, u8)>) -> (r: Vec<(Vec<char>, u8)>)
    ensures
        entries_view(r@) == folded_entries(entries_view(es@)),
{
    let ghost ev = entries_view(es@);
    let mut out: Vec<(Vec<char>, u8)> = Vec::new();
    let mut i: usize = 0;
    while i < es.len()
        invariant
            i <= es.len(),
            ev == entries_view(es@),
            entries_view(out@) == folded_entries(ev.take(i as int)),
        decreases es.len() - i,
    {
        let k = &es[i].0;
        let n = es[i].1;
        assert(ev.take((i + 1) as int).drop_last() =~= ev.take(i as int));
        assert(ev.take((i + 1) as int).last() == (k@, n));
        let f = fold_ascii_chars(k.as_slice());
        let ghost o = entries_view(out@);
        if !crate::text::chars_eq(f.as_slice(), k.as_slice()) {
            out.push((f, n));
            assert(entries_view(out@) =~= o.push((fold_ascii(k@), n)));
        }
        i = i + 1;
    }
    assert(ev.take(es.len() as int) =~= ev);
    out
}

/// Builds the resolution table once: primary spellings, then Roman variants,
/// then accent-folded forms, each filling only keys still free.
pub fn build_alias_map() -> (m: AliasMap)
    ensures
        m.wf(),
{
    let mut raw = raw_spellings();
    let mut roman = roman_of(&raw);
    let ghost rawv = entries_view(raw@);
    let ghost romv = entries_view(roman@);
    let mut all: Vec<(Vec<char>, u8)> = Vec::new();
    all.append(&mut raw);
    all.append(&mut roman);
    assert(entries_view(all@) =~= rawv + romv);
    let mut folded = folded_of(&all);
    all.append(&mut folded);
    let ghost allv = entries_view(all@);
    assert(allv =~= alias_entries());
    let mut m = AliasMap { entries: Vec::new() };
    let mut i: usize = 0;
    while i < all.len()
        invariant
            i <= all.len(),
            allv == entries_view(all@),
            no_dup_keys(m.view()),
            forall|k: Seq<char>| lookup(m.view(), k) == lookup(allv.take(i as int), k),
        decreases all.len() - i,
    {
        let k = crate::text::slice_chars(all[i].0.as_slice(), 0, all[i].0.len());
        let n = all[i].1;
        assert(k@ =~= all@[i as int].0@);
        assert(allv[i as int] == (k@, n));
        let ghost prev = m.view();
        m.insert_if_absent(k, n);
        assert forall|q: Seq<char>| lookup(m.view(), q) == lookup(allv.take((i + 1) as int), q) by {
            assert(allv.take((i + 1) as int) =~= allv.take(i as int).push((k@, n)));
            lemma_lookup_push(prev, (k@, n), q);
            lemma_lookup_push(allv.take(i as int), (k@, n), q);
        }
        i = i + 1;
    }
    assert(allv.take(all.len() as int) =~= allv);
    m
}

/// Book a spelling resolves to in `map`: `None` for an empty key or an unknown one.
pub open spec fn resolve_book(token: Seq<char>) -> Option<u8> {
    let k = normalize(token);
    if k.len() == 0 {
        None
    } else {
        lookup(alias_entries(), k)
    }
}

pub fn book_number_in(map: &AliasMap, token: &[char]) -> (r: Option<u8>)
    requires
        map.wf(),
    ensures
        r == resolve_book(token@),
{
    let k = normalize_chars(token);
    if k.len() == 0 {
        return None;
    }
    map.get(k.as_slice())
}

/// Resolves a book name or abbreviation (PT or EN, with or without accents) to
/// its canonical number.
pub fn book_number(token: &str) -> (r: Option<u8>)
    ensures
        r == resolve_book(token@),
{
    let map = build_alias_map();
    book_number_in(&map, crate::text::chars_of(token).as_slice())
}

} // verus!
