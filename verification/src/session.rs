//! AI conversations that can be saved and resumed (one session = one JSON
//! file in `sessions/`; the files are the program's). Times are UTC instants
//! in microseconds since the Unix epoch; ids and instants come from the
//! clock, so a session built from fixed values stays testable.
use vstd::prelude::*;

use crate::ai::{ChatRole, StudyMode};
use crate::model::Lang;
use crate::text::ascii_digit;

verus! {

/// One turn of an AI conversation.
#[derive(Debug, Clone, PartialEq, Eq)]
pub struct Message {
    /// Role (user/assistant).
    pub role: ChatRole,
    /// Content (the text typed or answered).
    pub content: String,
    /// Instant of the turn (UTC, microseconds since the epoch).
    pub at: i64,
}

/// A saved, resumable AI conversation.
#[derive(Debug, Clone, PartialEq, Eq)]
pub struct Session {
    /// Stable identifier (also the file name).
    pub id: String,
    /// Readable title (from the first question).
    pub title: String,
    /// Label of the passage where the conversation started (ex.: "Romanos 3").
    pub anchor_label: String,
    /// Grounding context (numbered chapter + references) captured at the start.
    pub context: String,
    /// Language of the conversation (for the system prompt).
    pub lang: Lang,
    /// Provider used (ex.: "anthropic").
    pub provider: String,
    /// Model used.
    pub model: String,
    /// Creation instant (UTC, microseconds).
    pub created_at: i64,
    /// Last update (UTC, microseconds).
    pub updated_at: i64,
    /// Turns of the conversation, in order.
    pub messages: Vec<Message>,
    /// Study mode, when the session is a study (not a free conversation).
    pub study_mode: Option<StudyMode>,
    /// Denominational lens of the study (slug), when there is one.
    pub study_lens: Option<String>,
}

/// The current instant, UTC, in microseconds since the epoch
/// (`chrono::Utc::now().timestamp_micros()`). It depends on the clock: nothing
/// is stated of it.
#[verifier::external_body]
fn now_micros() -> i64 {
    chrono::Utc::now().timestamp_micros()
}

/// The shape of an id written from the clock as `%Y%m%dT%H%M%S%6fZ`: the
/// year (at least four digits, with a sign outside 0..=9999), then month,
/// day, `T`, hour, minute, second and six digits of microseconds, then `Z`.
pub open spec fn clock_id_shape(s: Seq<char>) -> bool {
    &&& s.len() >= 22
    &&& s[s.len() - 1] == 'Z'
    &&& s[s.len() - 14] == 'T'
    &&& (s[0] == '+' || s[0] == '-' || ascii_digit(s[0]))
    &&& (s[0] == '+' || s[0] == '-') ==> s.len() >= 23
    &&& forall|i: int| 1 <= i < s.len() - 1 && i != s.len() - 14 ==> ascii_digit(#[trigger] s[i])
}

/// An id from the current instant, UTC, to the microsecond
/// (`chrono::Utc::now().format("%Y%m%dT%H%M%S%6fZ")`). Which instant depends
/// on the clock; what is stated is the shape chrono writes for any instant:
/// the year zero-padded to four digits (signed outside 0..=9999), two digits
/// for each of month, day, hour, minute and second, six for the
/// microseconds.
#[verifier::external_body]
fn id_from_clock() -> (r: String)
    ensures
        clock_id_shape(r@),
{
    chrono::Utc::now().format("%Y%m%dT%H%M%S%6fZ").to_string()
}

pub open spec fn message_view(m: Message) -> (ChatRole, Seq<char>, i64) {
    (m.role, m.content@, m.at)
}

pub open spec fn messages_of(ms: Seq<Message>) -> Seq<(ChatRole, Seq<char>, i64)> {
    ms.map_values(|m: Message| message_view(m))
}

impl Session {
    /// A stable id from the current instant (UTC, microseconds), in the shape
    /// `%Y%m%dT%H%M%S%6fZ`.
    pub fn generate_id() -> (r: String)
        ensures
            clock_id_shape(r@),
    {
        id_from_clock()
    }

    /// Starts an empty conversation, created and updated now.
    pub fn start(
        id: String,
        title: String,
        anchor_label: String,
        context: String,
        lang: Lang,
        provider: String,
        model: String,
    ) -> (r: Session)
        ensures
            r.id@ == id@,
            r.title@ == title@,
            r.anchor_label@ == anchor_label@,
            r.context@ == context@,
            r.lang == lang,
            r.provider@ == provider@,
            r.model@ == model@,
            r.created_at == r.updated_at,
            r.messages@.len() == 0,
            r.study_mode is None,
            r.study_lens is None,
    {
        let now = now_micros();
        Session {
            id,
            title,
            anchor_label,
            context,
            lang,
            provider,
            model,
            created_at: now,
            updated_at: now,
            messages: Vec::new(),
            study_mode: None,
            study_lens: None,
        }
    }

    /// Appends a turn stamped now, which becomes the last update.
    pub fn push(&mut self, role: ChatRole, content: String)
        ensures
            final(self).messages@.len() == old(self).messages@.len() + 1,
            final(self).messages@.drop_last() == old(self).messages@,
            final(self).messages@.last().role == role,
            final(self).messages@.last().content@ == content@,
            final(self).updated_at == final(self).messages@.last().at,
            final(self).id@ == old(self).id@,
            final(self).title@ == old(self).title@,
            final(self).context@ == old(self).context@,
            final(self).lang == old(self).lang,
            final(self).created_at == old(self).created_at,
            final(self).study_mode == old(self).study_mode,
            final(self).study_lens == old(self).study_lens,
            final(self).anchor_label@ == old(self).anchor_label@,
            final(self).provider@ == old(self).provider@,
            final(self).model@ == old(self).model@,
    {
        let now = now_micros();
        self.messages.push(Message { role, content, at: now });
        self.updated_at = now;
        assert(self.messages@.drop_last() =~= old(self).messages@);
    }
}

// ---------------------------------------------------------------------------
// Most recent first.
// ---------------------------------------------------------------------------
/// Position of the first most recently updated session.
pub open spec fn latest_index(ss: Seq<Session>) -> int
    decreases ss.len(),
{
    if ss.len() <= 1 {
        0
    } else {
        let k = latest_index(ss.drop_last());
        if ss.last().updated_at > ss[k].updated_at {
            ss.len() - 1
        } else {
            k
        }
    }
}

/// The sessions from the most recently updated to the oldest; sessions
/// updated at the same instant keep their order.
pub open spec fn by_recency(ss: Seq<Session>) -> Seq<Session>
    decreases ss.len(),
{
    if ss.len() == 0 {
        seq![]
    } else {
        let k = latest_index(ss);
        if 0 <= k < ss.len() {
            seq![ss[k]] + by_recency(ss.remove(k))
        } else {
            seq![]
        }
    }
}

proof fn lemma_latest_index(ss: Seq<Session>)
    requires
        ss.len() > 0,
    ensures
        0 <= latest_index(ss) < ss.len(),
        forall|j: int| 0 <= j < ss.len() ==> (#[trigger] ss[j]).updated_at <= ss[latest_index(ss)].updated_at,
        forall|j: int| 0 <= j < latest_index(ss) ==> (#[trigger] ss[j]).updated_at < ss[latest_index(ss)].updated_at,
    decreases ss.len(),
{
    if ss.len() > 1 {
        let p = ss.drop_last();
        lemma_latest_index(p);
        let k = latest_index(p);
        assert(ss[k] == p[k]);
        let m = latest_index(ss);
        assert forall|j: int| 0 <= j < ss.len() implies (#[trigger] ss[j]).updated_at <= ss[m].updated_at by {
            if j < p.len() {
                assert(ss[j] == p[j]);
                assert(p[j].updated_at <= p[k].updated_at);
            }
        }
        assert forall|j: int| 0 <= j < m implies (#[trigger] ss[j]).updated_at < ss[m].updated_at by {
            assert(ss[j] == p[j]);
            if m == k {
                assert(p[j].updated_at < p[k].updated_at);
            } else {
                assert(p[j].updated_at <= p[k].updated_at);
            }
        }
    }
}

/// The first position holding the most recent update.
fn latest_position(ss: &Vec<Session>) -> (k: usize)
    requires
        ss@.len() > 0,
    ensures
        k == latest_index(ss@),
        k < ss@.len(),
{
    proof {
        lemma_latest_index(ss@);
    }
    let mut k: usize = 0;
    let mut i: usize = 1;
    while i < ss.len()
        invariant
            1 <= i <= ss@.len(),
            k == latest_index(ss@.take(i as int)),
            k < i,
        decreases ss@.len() - i,
    {
        assert(ss@.take(i + 1).drop_last() =~= ss@.take(i as int));
        proof {
            lemma_latest_index(ss@.take(i as int));
        }
        assert(ss@.take(i + 1)[k as int] == ss@[k as int]);
        assert(ss@.take(i + 1).last() == ss@[i as int]);
        if ss[i].updated_at > ss[k].updated_at {
            k = i;
        }
        i = i + 1;
    }
    assert(ss@.take(ss@.len() as int) =~= ss@);
    k
}

/// Sorts sessions from the most recently updated to the oldest (a stable
/// sort: equal instants keep their order).
pub fn sort_by_recency(ss: Vec<Session>) -> (r: Vec<Session>)
    ensures
        r@ == by_recency(ss@),
{
    let mut rest = ss;
    let mut out: Vec<Session> = Vec::new();
    let ghost whole = rest@;
    assert(by_recency(whole) =~= out@ + by_recency(rest@));
    while rest.len() > 0
        invariant
            by_recency(whole) == out@ + by_recency(rest@),
        decreases rest@.len(),
    {
        let ghost r0 = rest@;
        let k = latest_position(&rest);
        let s = rest.remove(k);
        assert(rest@ == r0.remove(k as int));
        assert(by_recency(r0) == seq![r0[k as int]] + by_recency(r0.remove(k as int)));
        let ghost o0 = out@;
        out.push(s);
        assert(out@ =~= o0 + seq![r0[k as int]]);
        assert(by_recency(whole) =~= out@ + by_recency(rest@));
    }
    assert(by_recency(rest@) =~= Seq::<Session>::empty());
    assert(out@ =~= by_recency(whole));
    out
}

/// Sorting by recency puts the most recent update first, and never a later
/// update after an earlier one.
pub proof fn lemma_by_recency_sorted(ss: Seq<Session>)
    ensures
        by_recency(ss).len() == ss.len(),
        forall|a: int, b: int|
            0 <= a < b < ss.len() ==> (#[trigger] by_recency(ss)[a]).updated_at >= (#[trigger] by_recency(ss)[b]).updated_at,
    decreases ss.len(),
{
    if ss.len() > 0 {
        let k = latest_index(ss);
        lemma_latest_index(ss);
        let rest = ss.remove(k);
        lemma_by_recency_sorted(rest);
        lemma_by_recency_members(rest);
        let r = by_recency(ss);
        assert(r == seq![ss[k]] + by_recency(rest));
        assert forall|a: int, b: int| 0 <= a < b < ss.len() implies (#[trigger] r[a]).updated_at >= (#[trigger] r[b]).updated_at by {
            if a == 0 {
                assert(r[b] == by_recency(rest)[b - 1]);
                let j = choose|j: int| 0 <= j < rest.len() && rest[j] == by_recency(rest)[b - 1];
                if j < k {
                    assert(rest[j] == ss[j]);
                } else {
                    assert(rest[j] == ss[j + 1]);
                }
            } else {
                assert(r[a] == by_recency(rest)[a - 1]);
                assert(r[b] == by_recency(rest)[b - 1]);
            }
        }
    }
}

/// Every session of the sorted list is one of the given sessions.
pub proof fn lemma_by_recency_members(ss: Seq<Session>)
    ensures
        by_recency(ss).len() == ss.len(),
        forall|i: int| 0 <= i < ss.len() ==> exists|j: int| 0 <= j < ss.len() && ss[j] == #[trigger] by_recency(ss)[i],
    decreases ss.len(),
{
    if ss.len() > 0 {
        let k = latest_index(ss);
        lemma_latest_index(ss);
        let rest = ss.remove(k);
        lemma_by_recency_members(rest);
        let r = by_recency(ss);
        assert forall|i: int| 0 <= i < ss.len() implies exists|j: int| 0 <= j < ss.len() && ss[j] == #[trigger] r[i] by {
            if i == 0 {
                assert(ss[k] == r[0]);
            } else {
                assert(r[i] == by_recency(rest)[i - 1]);
                let j = choose|j: int| 0 <= j < rest.len() && rest[j] == by_recency(rest)[i - 1];
                if j < k {
                    assert(ss[j] == r[i]);
                } else {
                    assert(ss[j + 1] == r[i]);
                }
            }
        }
    }
}

} // verus!
