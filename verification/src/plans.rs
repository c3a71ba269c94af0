//! Reading plans: a plan is a sequence of days, each with a list of whole
//! chapters, dealt out as evenly as possible over the plan's length.
use vstd::prelude::*;

use crate::books::{chapter_count, chapters_in_book};
use crate::model::{Reference, VerseRange};
use crate::text::str_eq;

verus! {

/// A concrete reading plan.
#[derive(Debug, Clone, PartialEq, Eq)]
pub struct Plan {
    /// Plan slug.
    pub id: &'static str,
    /// Readable name.
    pub name: &'static str,
    /// Readings per day (each day: whole chapters).
    pub days: Vec<Vec<Reference>>,
}

pub open spec fn days_view(days: Seq<Vec<Reference>>) -> Seq<Seq<Reference>> {
    days.map_values(|d: Vec<Reference>| d@)
}

impl Plan {
    /// Number of days of the plan.
    pub fn len(&self) -> (r: usize)
        ensures
            r == self.days@.len(),
    {
        self.days.len()
    }

    /// Whether the plan has no day.
    pub fn is_empty(&self) -> (r: bool)
        ensures
            r == (self.days@.len() == 0),
    {
        self.days.len() == 0
    }

    /// Readings of a day (0-based); none past the end.
    pub fn reading(&self, day: usize) -> (r: &[Reference])
        ensures
            r@ == (if day < self.days@.len() {
                self.days@[day as int]@
            } else {
                Seq::<Reference>::empty()
            }),
    {
        if day < self.days.len() {
            self.days[day].as_slice()
        } else {
            &[]
        }
    }
}

/// The plans offered: `(id, name, first book, last book, days)`.
pub open spec fn catalog() -> Seq<(Seq<char>, Seq<char>, u8, u8, nat)> {
    seq![
        ("annual"@, "Bíblia em 1 ano"@, 1u8, 66u8, 365nat),
        ("nt"@, "Novo Testamento em 90 dias"@, 40u8, 66u8, 90nat),
        ("gospels"@, "Evangelhos em 30 dias"@, 40u8, 43u8, 30nat),
    ]
}

/// Lists the available plans as `(id, name)`.
pub fn available_plans() -> (r: Vec<(&'static str, &'static str)>)
    ensures
        r@.map_values(|p: (&str, &str)| (p.0@, p.1@)) == catalog().map_values(
            |e: (Seq<char>, Seq<char>, u8, u8, nat)| (e.0, e.1),
        ),
{
    let r = vec![
        ("annual", "Bíblia em 1 ano"),
        ("nt", "Novo Testamento em 90 dias"),
        ("gospels", "Evangelhos em 30 dias"),
    ];
    assert(r@.map_values(|p: (&str, &str)| (p.0@, p.1@)) =~= catalog().map_values(
        |e: (Seq<char>, Seq<char>, u8, u8, nat)| (e.0, e.1),
    ));
    r
}

/// The whole chapters of one book, in order.
pub open spec fn book_chapters(book: u8) -> Seq<Reference> {
    Seq::new(
        chapter_count(book as int) as nat,
        |i: int| Reference { book, chapter: (i + 1) as u16, verses: VerseRange::WholeChapter },
    )
}

/// The whole chapters of the books `first..=last`, in canonical order.
pub open spec fn chapters_between(first: int, last: int) -> Seq<Reference>
    decreases last - first + 1,
{
    if last < first {
        seq![]
    } else {
        chapters_between(first, last - 1) + book_chapters(last as u8)
    }
}

/// Size of day `d` when `n` items are dealt out over `days` days: the first
/// `n % days` days get one item more.
pub open spec fn chunk_size(n: int, days: int, d: int) -> int {
    n / days + if d < n % days {
        1int
    } else {
        0int
    }
}

/// Index of the first item of day `d`.
pub open spec fn chunk_start(n: int, days: int, d: int) -> int {
    d * (n / days) + if d < n % days {
        d
    } else {
        n % days
    }
}

/// `items` split into `days` consecutive runs, as even as possible.
pub open spec fn chunked<T>(items: Seq<T>, days: int) -> Seq<Seq<T>> {
    if days <= 0 {
        seq![]
    } else {
        Seq::new(
            days as nat,
            |d: int|
                items.subrange(
                    chunk_start(items.len() as int, days, d),
                    chunk_start(items.len() as int, days, d) + chunk_size(items.len() as int, days, d),
                ),
        )
    }
}

/// Concatenation of a sequence of sequences.
pub open spec fn flatten<T>(ss: Seq<Seq<T>>) -> Seq<T>
    decreases ss.len(),
{
    if ss.len() == 0 {
        seq![]
    } else {
        flatten(ss.drop_last()) + ss.last()
    }
}

/// Each day starts where the previous one ended.
pub proof fn lemma_chunk_step(n: int, days: int, d: int)
    requires
        n >= 0,
        days > 0,
        0 <= d < days,
    ensures
        chunk_start(n, days, d + 1) == chunk_start(n, days, d) + chunk_size(n, days, d),
        0 <= chunk_start(n, days, d),
        chunk_size(n, days, d) >= 0,
{
    assert((d + 1) * (n / days) == d * (n / days) + n / days) by (nonlinear_arith);
    assert(0 <= d * (n / days)) by (nonlinear_arith)
        requires
            0 <= d,
            n >= 0,
            days > 0,
    ;
}

/// The last day ends with the last item.
pub proof fn lemma_chunk_end(n: int, days: int)
    requires
        n >= 0,
        days > 0,
    ensures
        chunk_start(n, days, days) == n,
{
    assert(days * (n / days) + n % days == n) by (nonlinear_arith)
        requires
            days > 0,
    ;
}

/// Every day starts within the items.
pub proof fn lemma_chunk_bounds(n: int, days: int, d: int)
    requires
        n >= 0,
        days > 0,
        0 <= d <= days,
    ensures
        0 <= chunk_start(n, days, d) <= n,
    decreases days - d,
{
    if d < days {
        lemma_chunk_bounds(n, days, d + 1);
        lemma_chunk_step(n, days, d);
    } else {
        lemma_chunk_end(n, days);
    }
}

/// Splitting into days loses and adds nothing: the days, read in order, are
/// the items.
pub proof fn lemma_chunked_flatten<T>(items: Seq<T>, days: int)
    requires
        days > 0,
    ensures
        chunked(items, days).len() == days,
        flatten(chunked(items, days)) == items,
{
    let n = items.len() as int;
    let c = chunked(items, days);
    assert forall|k: int| 0 <= k <= days implies flatten(#[trigger] c.take(k)) == items.subrange(
        0,
        chunk_start(n, days, k),
    ) by {
        lemma_flatten_prefix(items, days, k);
    }
    lemma_chunk_end(n, days);
    assert(c.take(days) =~= c);
    assert(flatten(c.take(days)) == items.subrange(0, n));
    assert(items.subrange(0, n) =~= items);
}

proof fn lemma_flatten_prefix<T>(items: Seq<T>, days: int, k: int)
    requires
        days > 0,
        0 <= k <= days,
    ensures
        flatten(chunked(items, days).take(k)) == items.subrange(
            0,
            chunk_start(items.len() as int, days, k),
        ),
    decreases k,
{
    let n = items.len() as int;
    let c = chunked(items, days);
    if k == 0 {
        assert(c.take(0) =~= Seq::<Seq<T>>::empty());
        assert(items.subrange(0, 0) =~= Seq::<T>::empty());
    } else {
        lemma_flatten_prefix(items, days, k - 1);
        lemma_chunk_step(n, days, k - 1);
        lemma_chunk_bounds(n, days, k);
        lemma_chunk_bounds(n, days, k - 1);
        assert(c.take(k).drop_last() =~= c.take(k - 1));
        assert(c.take(k).last() == c[k - 1]);
        assert(items.subrange(0, chunk_start(n, days, k)) =~= items.subrange(
            0,
            chunk_start(n, days, k - 1),
        ) + c[k - 1]);
    }
}

/// Any two days differ by at most one reading.
pub proof fn lemma_chunked_even<T>(items: Seq<T>, days: int, a: int, b: int)
    requires
        days > 0,
        0 <= a < days,
        0 <= b < days,
    ensures
        chunked(items, days)[a].len() <= chunked(items, days)[b].len() + 1,
{
    let n = items.len() as int;
    lemma_chunk_step(n, days, a);
    lemma_chunk_bounds(n, days, a);
    lemma_chunk_bounds(n, days, a + 1);
    lemma_chunk_step(n, days, b);
    lemma_chunk_bounds(n, days, b);
    lemma_chunk_bounds(n, days, b + 1);
}

/// Whole-chapter references of every chapter of the books `first..=last`.
pub fn chapters_for_books(first: u8, last: u8) -> (r: Vec<Reference>)
    ensures
        r@ == chapters_between(first as int, last as int),
{
    let mut out: Vec<Reference> = Vec::new();
    if last < first {
        return out;
    }
    let mut book: u8 = first;
    assert(chapters_between(first as int, first - 1) =~= Seq::<Reference>::empty());
    loop
        invariant
            first <= book <= last,
            out@ == chapters_between(first as int, book - 1),
        decreases last - book,
    {
        let n = chapters_in_book(book);
        assert(n <= 150);
        let ghost o0 = out@;
        let mut c: u16 = 1;
        while c <= n
            invariant
                1 <= c <= n as int + 1,
                n <= 150,
                n == chapter_count(book as int),
                out@ == o0 + book_chapters(book).take(c - 1),
            decreases n - c + 1,
        {
            out.push(Reference::whole_chapter(book, c));
            assert(book_chapters(book).take(c as int) =~= book_chapters(book).take(c - 1).push(
                Reference { book, chapter: c, verses: VerseRange::WholeChapter },
            ));
            c = c + 1;
        }
        assert(book_chapters(book).take(n as int) =~= book_chapters(book));
        assert(out@ == chapters_between(first as int, book as int));
        if book == last {
            return out;
        }
        book = book + 1;
    }
}

/// Splits `items` into `days` runs as evenly as possible.
pub fn chunk(items: Vec<Reference>, days: usize) -> (r: Vec<Vec<Reference>>)
    ensures
        days_view(r@) == chunked(items@, days as int),
{
    if days == 0 {
        return Vec::new();
    }
    let n = items.len();
    let base = n / days;
    let rem = n % days;
    let ghost want = chunked(items@, days as int);
    let mut out: Vec<Vec<Reference>> = Vec::new();
    let mut idx: usize = 0;
    let mut d: usize = 0;
    while d < days
        invariant
            d <= days,
            days > 0,
            n == items@.len(),
            base == n / days,
            rem == n % days,
            want == chunked(items@, days as int),
            idx as int == chunk_start(n as int, days as int, d as int),
            days_view(out@) == want.take(d as int),
        decreases days - d,
    {
        proof {
            lemma_chunk_step(n as int, days as int, d as int);
            lemma_chunk_bounds(n as int, days as int, d as int + 1);
        }
        let take: usize = base + if d < rem {
            1
        } else {
            0
        };
        let mut day: Vec<Reference> = Vec::new();
        let mut k: usize = idx;
        while k < idx + take
            invariant
                idx <= k <= idx + take <= n,
                n == items@.len(),
                day@ == items@.subrange(idx as int, k as int),
            decreases idx + take - k,
        {
            day.push(items[k]);
            assert(items@.subrange(idx as int, k + 1) =~= items@.subrange(idx as int, k as int).push(
                items@[k as int],
            ));
            k = k + 1;
        }
        let ghost o0 = out@;
        out.push(day);
        assert(days_view(out@) =~= days_view(o0).push(want[d as int]));
        assert(want.take(d + 1) =~= want.take(d as int).push(want[d as int]));
        idx = idx + take;
        d = d + 1;
    }
    assert(want.take(days as int) =~= want);
    out
}

/// The catalog entry of a plan id, if any.
pub open spec fn plan_entry(id: Seq<char>) -> Option<(Seq<char>, Seq<char>, u8, u8, nat)> {
    if id == catalog()[0].0 {
        Some(catalog()[0])
    } else if id == catalog()[1].0 {
        Some(catalog()[1])
    } else if id == catalog()[2].0 {
        Some(catalog()[2])
    } else {
        None
    }
}

/// The plan a catalog entry describes.
pub open spec fn plan_matches(p: Plan, e: (Seq<char>, Seq<char>, u8, u8, nat)) -> bool {
    &&& p.id@ == e.0
    &&& p.name@ == e.1
    &&& days_view(p.days@) == chunked(chapters_between(e.2 as int, e.3 as int), e.4 as int)
}

fn make_plan(id: &'static str, name: &'static str, first: u8, last: u8, days: usize) -> (r: Plan)
    ensures
        r.id@ == id@,
        r.name@ == name@,
        days_view(r.days@) == chunked(chapters_between(first as int, last as int), days as int),
{
    let chapters = chapters_for_books(first, last);
    Plan { id, name, days: chunk(chapters, days) }
}

/// Builds a plan by id; `None` for an unknown id.
pub fn plan_by_id(id: &str) -> (r: Option<Plan>)
    ensures
        match r {
            Some(p) => plan_entry(id@) matches Some(e) && plan_matches(p, e),
            None => plan_entry(id@) is None,
        },
{
    if str_eq(id, "annual") {
        Some(make_plan("annual", "Bíblia em 1 ano", 1, 66, 365))
    } else if str_eq(id, "nt") {
        Some(make_plan("nt", "Novo Testamento em 90 dias", 40, 66, 90))
    } else if str_eq(id, "gospels") {
        Some(make_plan("gospels", "Evangelhos em 30 dias", 40, 43, 30))
    } else {
        None
    }
}

/// Every plan of the catalog reads, day after day, exactly the chapters of
/// its books in canonical order, over as many days as it promises.
pub proof fn lemma_plan_covers_books(p: Plan, e: (Seq<char>, Seq<char>, u8, u8, nat))
    requires
        plan_matches(p, e),
        e.4 > 0,
    ensures
        p.days@.len() == e.4,
        flatten(days_view(p.days@)) == chapters_between(e.2 as int, e.3 as int),
{
    lemma_chunked_flatten(chapters_between(e.2 as int, e.3 as int), e.4 as int);
    assert(days_view(p.days@).len() == p.days@.len());
}

/// Progress of the active plan. The start date is a day number (days from
/// the start of the common era, day 1 being 0001-01-01).
#[derive(Debug, Clone, PartialEq, Eq)]
pub struct PlanProgress {
    /// Slug of the plan.
    pub plan_id: String,
    /// Start date (day 1 of the plan), as a day number.
    pub start_day: i32,
    /// Number of days marked as done.
    pub completed: u32,
}

impl PlanProgress {
    /// Index (from 0) of the plan day that falls on `day` (a day number),
    /// kept inside `[0, len - 1]` (0 for an empty plan).
    pub fn day_index_for(&self, day: i32, len: usize) -> (r: usize)
        ensures
            len == 0 ==> r == 0,
            len > 0 ==> r == (if day - self.start_day < 0 {
                0
            } else if day - self.start_day > len - 1 {
                (len - 1) as int
            } else {
                day - self.start_day
            }),
    {
        if len == 0 {
            return 0;
        }
        let diff: i64 = day as i64 - self.start_day as i64;
        if diff < 0 {
            0
        } else if diff as u64 > (len - 1) as u64 {
            len - 1
        } else {
            diff as usize
        }
    }
}

} // verus!
