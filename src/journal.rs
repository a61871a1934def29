//! Bounded, relevance-ranked journal of spontaneous mental activity.

use vstd::prelude::*;
use crate::clock::{MINUTE_MS};
use crate::clock;

verus! {

broadcast use vstd::seq_lib::group_to_multiset_ensures;

/// A kind of spontaneous thought, with its text.
#[derive(Debug, Clone)]
pub enum SpontaneousThought {
    SelfReflection(String),
    GoalReassessment(String),
    MemoryRecall(String),
    CreativeInsight(String),
    EmotionalProcessing(String),
    CuriosityDriven(String),
    ExistentialWondering(String),
    ErrorRecovery(String),
    AttentionShift(String),
    SystemIntegration(String),
}

/// The variant of a thought, numbered in declaration order.
pub open spec fn thought_kind(t: SpontaneousThought) -> int {
    match t {
        SpontaneousThought::SelfReflection(_) => 0,
        SpontaneousThought::GoalReassessment(_) => 1,
        SpontaneousThought::MemoryRecall(_) => 2,
        SpontaneousThought::CreativeInsight(_) => 3,
        SpontaneousThought::EmotionalProcessing(_) => 4,
        SpontaneousThought::CuriosityDriven(_) => 5,
        SpontaneousThought::ExistentialWondering(_) => 6,
        SpontaneousThought::ErrorRecovery(_) => 7,
        SpontaneousThought::AttentionShift(_) => 8,
        SpontaneousThought::SystemIntegration(_) => 9,
    }
}

/// The text of a thought.
pub open spec fn thought_text(t: SpontaneousThought) -> Seq<char> {
    match t {
        SpontaneousThought::SelfReflection(s) => s@,
        SpontaneousThought::GoalReassessment(s) => s@,
        SpontaneousThought::MemoryRecall(s) => s@,
        SpontaneousThought::CreativeInsight(s) => s@,
        SpontaneousThought::EmotionalProcessing(s) => s@,
        SpontaneousThought::CuriosityDriven(s) => s@,
        SpontaneousThought::ExistentialWondering(s) => s@,
        SpontaneousThought::ErrorRecovery(s) => s@,
        SpontaneousThought::AttentionShift(s) => s@,
        SpontaneousThought::SystemIntegration(s) => s@,
    }
}

impl SpontaneousThought {
    /// The text of this thought.
    pub fn text(&self) -> (r: &String)
        ensures
            r@ == thought_text(*self),
    {
        match self {
            SpontaneousThought::SelfReflection(s) => s,
            SpontaneousThought::GoalReassessment(s) => s,
            SpontaneousThought::MemoryRecall(s) => s,
            SpontaneousThought::CreativeInsight(s) => s,
            SpontaneousThought::EmotionalProcessing(s) => s,
            SpontaneousThought::CuriosityDriven(s) => s,
            SpontaneousThought::ExistentialWondering(s) => s,
            SpontaneousThought::ErrorRecovery(s) => s,
            SpontaneousThought::AttentionShift(s) => s,
            SpontaneousThought::SystemIntegration(s) => s,
        }
    }

    /// An identical copy of this thought.
    pub fn duplicate(&self) -> (r: SpontaneousThought)
        ensures
            r == *self,
    {
        match self {
            SpontaneousThought::SelfReflection(s) => SpontaneousThought::SelfReflection(s.clone()),
            SpontaneousThought::GoalReassessment(s) => SpontaneousThought::GoalReassessment(
                s.clone(),
            ),
            SpontaneousThought::MemoryRecall(s) => SpontaneousThought::MemoryRecall(s.clone()),
            SpontaneousThought::CreativeInsight(s) => SpontaneousThought::CreativeInsight(
                s.clone(),
            ),
            SpontaneousThought::EmotionalProcessing(s) => SpontaneousThought::EmotionalProcessing(
                s.clone(),
            ),
            SpontaneousThought::CuriosityDriven(s) => SpontaneousThought::CuriosityDriven(
                s.clone(),
            ),
            SpontaneousThought::ExistentialWondering(s) => SpontaneousThought::ExistentialWondering(
                s.clone(),
            ),
            SpontaneousThought::ErrorRecovery(s) => SpontaneousThought::ErrorRecovery(s.clone()),
            SpontaneousThought::AttentionShift(s) => SpontaneousThought::AttentionShift(s.clone()),
            SpontaneousThought::SystemIntegration(s) => SpontaneousThought::SystemIntegration(
                s.clone(),
            ),
        }
    }
}

/// Minutes after which an activity no longer counts as recent.
pub const RECENCY_WINDOW_MINUTES: i64 = 30;

/// Recency in thousandths: 1000 for an activity stamped at or after `now`,
/// falling by 1000/30 per whole minute of age, and 0 from 30 minutes on.
pub open spec fn recency(now: i64, timestamp: i64) -> int {
    let age = now - timestamp;
    if age <= 0 {
        1000
    } else if age / MINUTE_MS as int >= RECENCY_WINDOW_MINUTES as int {
        0
    } else {
        1000 - (age / MINUTE_MS as int) * 1000 / RECENCY_WINDOW_MINUTES as int
    }
}

/// One spontaneous thought, stamped with its intensity (thousandths) and the
/// time it arose (milliseconds since the Unix epoch).
#[derive(Debug, Clone)]
pub struct MentalActivity {
    pub thought: SpontaneousThought,
    pub intensity: i64,
    pub timestamp: i64,
    pub triggered_by: Option<String>,
}

/// Relevance in ten-thousandths: seven parts intensity, three parts recency.
pub open spec fn relevance(a: MentalActivity, now: i64) -> int {
    7 * a.intensity + 3 * recency(now, a.timestamp)
}

/// Whether an activity asks for follow-up work at `now`.
pub open spec fn follow_up_needed(a: MentalActivity, now: i64) -> bool {
    a.intensity > 700 && recency(now, a.timestamp) > 500
}

/// `s` is ordered by non-increasing relevance at `now`.
pub open spec fn sorted_by_relevance(s: Seq<MentalActivity>, now: i64) -> bool {
    forall|i: int, j: int| 0 <= i < j < s.len() ==> relevance(s[i], now) >= relevance(s[j], now)
}

/// `r` holds `k` entries of `s` (or all of them, if fewer), in order of
/// non-increasing relevance at `now`, and none of the entries of `s` left out
/// is more relevant than any entry kept.
pub open spec fn is_top_k(r: Seq<MentalActivity>, s: Seq<MentalActivity>, k: nat, now: i64) -> bool {
    &&& r.len() == if k < s.len() {
        k
    } else {
        s.len()
    }
    &&& r.to_multiset().subset_of(s.to_multiset())
    &&& sorted_by_relevance(r, now)
    &&& forall|x: MentalActivity, y: MentalActivity|
        r.to_multiset().contains(x) && s.to_multiset().sub(r.to_multiset()).contains(y) ==> relevance(
            x,
            now,
        ) >= relevance(y, now)
}

impl MentalActivity {
    /// Intensity lies in the unit interval.
    pub open spec fn wf(self) -> bool {
        0 <= self.intensity <= 1000
    }

    /// An activity with its intensity clamped to the unit interval.
    pub fn new(
        thought: SpontaneousThought,
        intensity: i64,
        timestamp: i64,
        triggered_by: Option<String>,
    ) -> (r: MentalActivity)
        ensures
            r.wf(),
            r.thought == thought,
            r.intensity == (if intensity < 0 {
                0
            } else if intensity > 1000 {
                1000
            } else {
                intensity
            }),
            r.timestamp == timestamp,
            r.triggered_by == triggered_by,
    {
        let intensity = if intensity < 0 {
            0
        } else if intensity > 1000 {
            1000
        } else {
            intensity
        };
        MentalActivity { thought, intensity, timestamp, triggered_by }
    }

    /// An identical copy of this activity.
    pub fn duplicate(&self) -> (r: MentalActivity)
        ensures
            r == *self,
    {
        let triggered_by = match &self.triggered_by {
            Some(s) => Some(s.clone()),
            None => None,
        };
        MentalActivity {
            thought: self.thought.duplicate(),
            intensity: self.intensity,
            timestamp: self.timestamp,
            triggered_by,
        }
    }

    /// How recent this activity is at `now`, in thousandths.
    pub fn recency_score_at(&self, now: i64) -> (r: i64)
        ensures
            r == recency(now, self.timestamp),
            0 <= r <= 1000,
    {
        let age: i128 = now as i128 - self.timestamp as i128;
        if age <= 0 {
            1000
        } else {
            let minutes: i128 = age / (MINUTE_MS as i128);
            if minutes >= RECENCY_WINDOW_MINUTES as i128 {
                0
            } else {
                (1000 - minutes * 1000 / (RECENCY_WINDOW_MINUTES as i128)) as i64
            }
        }
    }

    /// Relevance of this activity at `now`, in ten-thousandths.
    pub fn relevance_score_at(&self, now: i64) -> (r: i64)
        requires
            self.wf(),
        ensures
            r == relevance(*self, now),
            0 <= r <= 10000,
    {
        7 * self.intensity + 3 * self.recency_score_at(now)
    }

    /// Whether this activity asks for follow-up work at `now`: intensity above
    /// 700 and recency above 500.
    pub fn needs_follow_up_at(&self, now: i64) -> (r: bool)
        ensures
            r == follow_up_needed(*self, now),
    {
        self.intensity > 700 && self.recency_score_at(now) > 500
    }

    /// How recent this activity is by the system clock, in thousandths.
    pub fn recency_score(&self) -> (r: i64)
        ensures
            0 <= r <= 1000,
    {
        self.recency_score_at(clock::now_millis())
    }

    /// Relevance of this activity by the system clock, in ten-thousandths.
    pub fn relevance_score(&self) -> (r: i64)
        requires
            self.wf(),
        ensures
            0 <= r <= 10000,
    {
        self.relevance_score_at(clock::now_millis())
    }

    /// Whether this activity asks for follow-up work by the system clock.
    pub fn needs_follow_up(&self) -> (r: bool)
        ensures
            r ==> self.intensity > 700,
    {
        self.needs_follow_up_at(clock::now_millis())
    }
}

/// Keeps the `k` most relevant entries of `pool` at `now`, most relevant
/// first; among equally relevant entries the earlier one is taken first.
pub fn select_most_relevant(pool: Vec<MentalActivity>, k: usize, now: i64) -> (r: Vec<
    MentalActivity,
>)
    requires
        forall|i: int| 0 <= i < pool@.len() ==> (#[trigger] pool@[i]).wf(),
    ensures
        is_top_k(r@, pool@, k as nat, now),
        forall|i: int| 0 <= i < r@.len() ==> (#[trigger] r@[i]).wf(),
{
    let ghost orig = pool@;
    let mut pool = pool;
    let mut out: Vec<MentalActivity> = Vec::new();
    while out.len() < k && pool.len() > 0
        invariant
            out@.to_multiset().add(pool@.to_multiset()) == orig.to_multiset(),
            out@.len() + pool@.len() == orig.len(),
            out@.len() <= k,
            sorted_by_relevance(out@, now),
            forall|i: int, j: int|
                0 <= i < out@.len() && 0 <= j < pool@.len() ==> relevance(out@[i], now)
                    >= relevance(pool@[j], now),
            forall|i: int| 0 <= i < pool@.len() ==> (#[trigger] pool@[i]).wf(),
            forall|i: int| 0 <= i < out@.len() ==> (#[trigger] out@[i]).wf(),
        decreases pool@.len(),
    {
        let mut best: usize = 0;
        let mut best_key: i64 = pool[0].relevance_score_at(now);
        let mut j: usize = 1;
        while j < pool.len()
            invariant
                1 <= j <= pool@.len(),
                best < j,
                best_key == relevance(pool@[best as int], now),
                forall|i: int| 0 <= i < pool@.len() ==> (#[trigger] pool@[i]).wf(),
                forall|i: int| 0 <= i < j ==> relevance(pool@[i], now) <= best_key,
            decreases pool@.len() - j,
        {
            let key = pool[j].relevance_score_at(now);
            if key > best_key {
                best = j;
                best_key = key;
            }
            j = j + 1;
        }
        let ghost out_before = out@;
        let ghost pool_before = pool@;
        let x = pool.remove(best);
        out.push(x);
        proof {
            assert(pool_before.remove(best as int).to_multiset() =~= pool_before.to_multiset().remove(
                x,
            ));
            assert(out@.to_multiset() =~= out_before.to_multiset().insert(x));
            assert(out@.to_multiset().add(pool@.to_multiset()) =~= orig.to_multiset());
            assert forall|i: int, j: int|
                0 <= i < out@.len() && 0 <= j < pool@.len() implies relevance(out@[i], now)
                >= relevance(pool@[j], now) by {
                if j < best {
                    assert(pool@[j] == pool_before[j]);
                } else {
                    assert(pool@[j] == pool_before[j + 1]);
                }
                if i < out_before.len() {
                    assert(out@[i] == out_before[i]);
                }
            }
            assert forall|a: int, b: int| 0 <= a < b < out@.len() implies relevance(out@[a], now)
                >= relevance(out@[b], now) by {
                if b == out_before.len() {
                    assert(out@[a] == out_before[a]);
                    assert(out@[b] == pool_before[best as int]);
                } else {
                    assert(out@[a] == out_before[a]);
                    assert(out@[b] == out_before[b]);
                }
            }
        }
    }
    proof {
        let rm = out@.to_multiset();
        let pm = pool@.to_multiset();
        let sm = orig.to_multiset();
        assert(sm.sub(rm) =~= pm);
        assert forall|x: MentalActivity, y: MentalActivity|
            rm.contains(x) && sm.sub(rm).contains(y) implies relevance(x, now) >= relevance(
            y,
            now,
        ) by {
            assert(out@.contains(x));
            assert(pool@.contains(y));
            let i = choose|i: int| 0 <= i < out@.len() && out@[i] == x;
            let j = choose|j: int| 0 <= j < pool@.len() && pool@[j] == y;
        }
    }
    out
}

/// Default number of entries that triggers a truncation.
pub const JOURNAL_CAPACITY: usize = 100;

/// Default number of entries kept by a truncation.
pub const JOURNAL_RETAIN: usize = 50;

/// A journal of mental activity that, on growing past its capacity, keeps only
/// its most relevant entries.
#[derive(Debug)]
pub struct ActivityJournal {
    entries: Vec<MentalActivity>,
    capacity: usize,
    retain: usize,
}

impl View for ActivityJournal {
    type V = Seq<MentalActivity>;

    closed spec fn view(&self) -> Seq<MentalActivity> {
        self.entries@
    }
}

/// The `n` most recent entries of `s`, newest first.
pub open spec fn newest_first(s: Seq<MentalActivity>, n: nat) -> Seq<MentalActivity> {
    let m = if n < s.len() {
        n as int
    } else {
        s.len() as int
    };
    Seq::new(m as nat, |i: int| s[s.len() - 1 - i])
}

impl ActivityJournal {
    /// Entries are well formed and at most `capacity` of them are held.
    pub closed spec fn inv(self) -> bool {
        &&& self.entries@.len() <= self.capacity
        &&& self.retain <= self.capacity
        &&& forall|i: int| 0 <= i < self.entries@.len() ==> (#[trigger] self.entries@[i]).wf()
    }

    /// Every entry of a journal has its intensity in the unit interval.
    pub proof fn lemma_entries_wf(&self)
        requires
            self.inv(),
        ensures
            forall|i: int| 0 <= i < self@.len() ==> (#[trigger] self@[i]).wf(),
    {
    }

    /// Number of entries that triggers a truncation.
    pub closed spec fn capacity_spec(self) -> nat {
        self.capacity as nat
    }

    /// Number of entries kept by a truncation.
    pub closed spec fn retain_spec(self) -> nat {
        self.retain as nat
    }

    /// An empty journal that truncates to 50 entries when it holds more than 100.
    pub fn new() -> (r: ActivityJournal)
        ensures
            r.inv(),
            r@.len() == 0,
            r.capacity_spec() == JOURNAL_CAPACITY,
            r.retain_spec() == JOURNAL_RETAIN,
    {
        ActivityJournal { entries: Vec::new(), capacity: JOURNAL_CAPACITY, retain: JOURNAL_RETAIN }
    }

    /// An empty journal that truncates to `retain` entries when it holds more
    /// than `capacity`.
    pub fn with_limits(capacity: usize, retain: usize) -> (r: ActivityJournal)
        requires
            retain <= capacity,
        ensures
            r.inv(),
            r@.len() == 0,
            r.capacity_spec() == capacity,
            r.retain_spec() == retain,
    {
        ActivityJournal { entries: Vec::new(), capacity, retain }
    }

    /// Appends `activity`; if the journal then holds more than its capacity,
    /// keeps only its `retain` most relevant entries at `now`.
    pub fn record(&mut self, activity: MentalActivity, now: i64)
        requires
            old(self).inv(),
            activity.wf(),
        ensures
            final(self).inv(),
            final(self).capacity_spec() == old(self).capacity_spec(),
            final(self).retain_spec() == old(self).retain_spec(),
            old(self)@.len() < old(self).capacity_spec() ==> final(self)@ == old(self)@.push(
                activity,
            ),
            old(self)@.len() >= old(self).capacity_spec() ==> is_top_k(
                final(self)@,
                old(self)@.push(activity),
                old(self).retain_spec(),
                now,
            ),
    {
        self.entries.push(activity);
        if self.entries.len() > self.capacity {
            let mut pool: Vec<MentalActivity> = Vec::new();
            core::mem::swap(&mut pool, &mut self.entries);
            self.entries = select_most_relevant(pool, self.retain, now);
        }
    }

    /// Number of entries held.
    pub fn len(&self) -> (r: usize)
        ensures
            r == self@.len(),
    {
        self.entries.len()
    }

    /// The last `count` entries in order of insertion, newest first.
    pub fn recent(&self, count: usize) -> (r: Vec<MentalActivity>)
        ensures
            r@ == newest_first(self@, count as nat),
    {
        let n = self.entries.len();
        let mut out: Vec<MentalActivity> = Vec::new();
        let mut i: usize = 0;
        while i < count && i < n
            invariant
                n == self@.len(),
                i <= n,
                i <= count,
                out@ == newest_first(self@, i as nat),
            decreases n - i,
        {
            out.push(self.entries[n - 1 - i].duplicate());
            i = i + 1;
            assert(out@ =~= newest_first(self@, i as nat));
        }
        assert(out@ =~= newest_first(self@, count as nat));
        out
    }

    /// The `count` most relevant entries at `now`, most relevant first.
    pub fn most_relevant(&self, count: usize, now: i64) -> (r: Vec<MentalActivity>)
        requires
            self.inv(),
        ensures
            is_top_k(r@, self@, count as nat, now),
    {
        let mut copy: Vec<MentalActivity> = Vec::new();
        let mut i: usize = 0;
        while i < self.entries.len()
            invariant
                self.inv(),
                i <= self@.len(),
                copy@ == self@.subrange(0, i as int),
            decreases self@.len() - i,
        {
            copy.push(self.entries[i].duplicate());
            i = i + 1;
            assert(copy@ =~= self@.subrange(0, i as int));
        }
        assert(copy@ =~= self@);
        select_most_relevant(copy, count, now)
    }

    /// Entries that ask for follow-up work at `now`, in order of insertion.
    pub fn needing_follow_up(&self, now: i64) -> (r: Vec<MentalActivity>)
        ensures
            r@ == self@.filter(|a: MentalActivity| follow_up_needed(a, now)),
    {
        let mut out: Vec<MentalActivity> = Vec::new();
        let mut i: usize = 0;
        while i < self.entries.len()
            invariant
                i <= self@.len(),
                out@ == self@.subrange(0, i as int).filter(
                    |a: MentalActivity| follow_up_needed(a, now),
                ),
            decreases self@.len() - i,
        {
            proof {
                assert(self@.subrange(0, i + 1) =~= self@.subrange(0, i as int).push(self@[i as int]));
                self@.subrange(0, i as int).lemma_filter_push(self@[i as int], |a: MentalActivity| follow_up_needed(a, now));
            }
            if self.entries[i].needs_follow_up_at(now) {
                out.push(self.entries[i].duplicate());
            }
            i = i + 1;
        }
        assert(self@.subrange(0, self@.len() as int) =~= self@);
        out
    }

    /// The most recently recorded entry, if any.
    pub fn last(&self) -> (r: Option<MentalActivity>)
        ensures
            self@.len() == 0 ==> r.is_none(),
            self@.len() > 0 ==> r == Some(self@.last()),
    {
        if self.entries.len() == 0 {
            None
        } else {
            Some(self.entries[self.entries.len() - 1].duplicate())
        }
    }
}

} // verus!
