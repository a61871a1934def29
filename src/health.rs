//! Counts collaborator failures and turns sustained failure into a recovery task.

use vstd::prelude::*;
use crate::scheduler::{BackgroundTask, SchedulerView, TaskScheduler};
use crate::text::{concat, decimal, decimal_string};

verus! {

/// Number of failure categories kept.
pub const ERROR_HISTORY_CAPACITY: usize = 20;

/// Default number of failures a health check tolerates before escalating.
pub const DEFAULT_ERROR_THRESHOLD: u64 = 5;

/// Text that opens the summary carried by a recovery task.
pub open spec fn summary_prefix() -> Seq<char> {
    "High error count: "@
}

/// The summary carried by the recovery task for `count` failures.
pub open spec fn recovery_summary(count: u64) -> Seq<char> {
    summary_prefix() + decimal(count as nat)
}

/// Abstract state of an error tracker.
pub struct TrackerView {
    pub error_count: u64,
    pub last_error_time: Option<i64>,
    pub error_types: Seq<String>,
    pub threshold: u64,
}

impl TrackerView {
    /// The tracker after a failure of `category` at `now`.
    pub open spec fn record(self, category: String, now: i64) -> TrackerView {
        TrackerView {
            error_count: if self.error_count < u64::MAX {
                (self.error_count + 1) as u64
            } else {
                self.error_count
            },
            last_error_time: Some(now),
            error_types: if self.error_types.push(category).len() > ERROR_HISTORY_CAPACITY {
                self.error_types.push(category).drop_first()
            } else {
                self.error_types.push(category)
            },
            threshold: self.threshold,
        }
    }

    /// Whether a health check escalates.
    pub open spec fn escalates(self) -> bool {
        self.error_count > self.threshold
    }
}

/// The tracker and scheduler after a health check: past the threshold one
/// recovery task carrying `summary` is scheduled and the count returns to 0;
/// otherwise nothing changes.
pub open spec fn health_check(t: TrackerView, s: SchedulerView, summary: String) -> (
    TrackerView,
    SchedulerView,
) {
    if t.escalates() {
        (
            TrackerView { error_count: 0, ..t },
            s.schedule(BackgroundTask::ErrorRecovery(summary)),
        )
    } else {
        (t, s)
    }
}

/// Failure count, time of the last failure and the categories of recent failures.
#[derive(Debug)]
pub struct ErrorTracker {
    error_count: u64,
    last_error_time: Option<i64>,
    error_types: Vec<String>,
    threshold: u64,
}

impl View for ErrorTracker {
    type V = TrackerView;

    closed spec fn view(&self) -> TrackerView {
        TrackerView {
            error_count: self.error_count,
            last_error_time: self.last_error_time,
            error_types: self.error_types@,
            threshold: self.threshold,
        }
    }
}

impl ErrorTracker {
    /// A tracker with no failures that escalates past five.
    pub fn new() -> (r: ErrorTracker)
        ensures
            r@.error_count == 0,
            r@.last_error_time.is_none(),
            r@.error_types.len() == 0,
            r@.threshold == DEFAULT_ERROR_THRESHOLD,
    {
        ErrorTracker::with_threshold(DEFAULT_ERROR_THRESHOLD)
    }

    /// A tracker with no failures that escalates past `threshold`.
    pub fn with_threshold(threshold: u64) -> (r: ErrorTracker)
        ensures
            r@.error_count == 0,
            r@.last_error_time.is_none(),
            r@.error_types.len() == 0,
            r@.threshold == threshold,
    {
        ErrorTracker { error_count: 0, last_error_time: None, error_types: Vec::new(), threshold }
    }

    /// Counts a failure of `category` at `now`, keeping the last twenty categories.
    pub fn record_failure(&mut self, category: String, now: i64)
        requires
            old(self)@.error_types.len() <= ERROR_HISTORY_CAPACITY,
        ensures
            final(self)@ == old(self)@.record(category, now),
            final(self)@.error_types.len() <= ERROR_HISTORY_CAPACITY,
    {
        if self.error_count < u64::MAX {
            self.error_count = self.error_count + 1;
        }
        self.last_error_time = Some(now);
        let ghost h = self.error_types@;
        self.error_types.push(category);
        if self.error_types.len() > ERROR_HISTORY_CAPACITY {
            self.error_types.remove(0);
            assert(self.error_types@ =~= h.push(category).drop_first());
        }
    }

    /// Past the threshold, schedules one `ErrorRecovery` task whose text gives
    /// the failure count, resets the count to 0 and returns `true`; otherwise
    /// changes nothing and returns `false`.
    pub fn check_health(&mut self, scheduler: &mut TaskScheduler) -> (r: bool)
        requires
            old(scheduler)@.inv(),
        ensures
            r == old(self)@.escalates(),
            final(scheduler)@.inv(),
            r ==> exists|summary: String|
                summary@ == recovery_summary(old(self)@.error_count) && (
                final(self)@,
                final(scheduler)@,
            ) == health_check(old(self)@, old(scheduler)@, summary),
            !r ==> final(self)@ == old(self)@ && final(scheduler)@ == old(scheduler)@,
    {
        let ghost t0 = self@;
        let ghost s0 = scheduler@;
        if self.error_count > self.threshold {
            let summary = concat("High error count: ", decimal_string(self.error_count).as_str());
            let ghost g = summary;
            assert(g@ == recovery_summary(t0.error_count));
            self.error_count = 0;
            scheduler.schedule_task(BackgroundTask::ErrorRecovery(summary));
            assert((self@, scheduler@) == health_check(t0, s0, g));
            true
        } else {
            false
        }
    }

    /// The number of failures since the last escalation.
    pub fn error_count(&self) -> (r: u64)
        ensures
            r == self@.error_count,
    {
        self.error_count
    }

    /// The categories of recent failures, oldest first.
    pub fn error_types(&self) -> (r: &Vec<String>)
        ensures
            r@ == self@.error_types,
    {
        &self.error_types
    }

    /// The time of the last failure, if any.
    pub fn last_error_time(&self) -> (r: Option<i64>)
        ensures
            r == self@.last_error_time,
    {
        self.last_error_time
    }
}

/// Once failures pass the threshold, a health check schedules exactly one
/// recovery task and resets the count to 0; a second check right after
/// schedules nothing and changes nothing.
pub proof fn lemma_health_check_escalates_once(
    t: TrackerView,
    s: SchedulerView,
    summary: String,
    again: String,
)
    requires
        t.error_count > t.threshold,
    ensures
        health_check(t, s, summary).0.error_count == 0,
        health_check(t, s, summary).1.pending.len() == s.pending.len() + 1,
        health_check(t, s, summary).1.running == s.running,
        health_check(t, s, summary).1.completed == s.completed,
        health_check(health_check(t, s, summary).0, health_check(t, s, summary).1, again)
            == health_check(t, s, summary),
{
    crate::scheduler::lemma_insertion_point_bounds(
        s.pending,
        crate::scheduler::task_priority(BackgroundTask::ErrorRecovery(summary)),
    );
}

} // verus!
