//! Priority queue of deferred background work with a concurrency cap.

use vstd::prelude::*;
use crate::text::{concat, decimal, decimal_string};

verus! {

/// A deferred unit of background work.
#[derive(Debug, Clone)]
pub enum BackgroundTask {
    DeepReflection,
    GoalReassessment,
    EmotionalRegulation,
    AttentionUpdate,
    SpontaneousThought,
    ErrorRecovery(String),
    MemoryConsolidation,
    SystemHealthCheck,
    CreativeIncubation,
    SocialContextAnalysis,
}

/// Fixed priority of each kind of task, in tenths (higher runs first).
pub open spec fn task_priority(t: BackgroundTask) -> u64 {
    match t {
        BackgroundTask::ErrorRecovery(_) => 10,
        BackgroundTask::EmotionalRegulation => 9,
        BackgroundTask::DeepReflection => 8,
        BackgroundTask::SystemHealthCheck => 7,
        BackgroundTask::GoalReassessment => 6,
        BackgroundTask::AttentionUpdate => 5,
        BackgroundTask::MemoryConsolidation => 4,
        BackgroundTask::SpontaneousThought => 3,
        BackgroundTask::CreativeIncubation => 3,
        BackgroundTask::SocialContextAnalysis => 2,
    }
}

/// Expected running time of each kind of task, in seconds.
pub open spec fn task_execution_time(t: BackgroundTask) -> u64 {
    match t {
        BackgroundTask::DeepReflection => 60,
        BackgroundTask::MemoryConsolidation => 30,
        BackgroundTask::GoalReassessment => 15,
        BackgroundTask::ErrorRecovery(_) => 10,
        BackgroundTask::SystemHealthCheck => 5,
        BackgroundTask::EmotionalRegulation => 2,
        BackgroundTask::AttentionUpdate => 1,
        BackgroundTask::SpontaneousThought => 3,
        BackgroundTask::CreativeIncubation => 20,
        BackgroundTask::SocialContextAnalysis => 10,
    }
}

/// The variant of a task, ignoring any payload.
pub open spec fn task_kind(t: BackgroundTask) -> u8 {
    match t {
        BackgroundTask::DeepReflection => 0,
        BackgroundTask::GoalReassessment => 1,
        BackgroundTask::EmotionalRegulation => 2,
        BackgroundTask::AttentionUpdate => 3,
        BackgroundTask::SpontaneousThought => 4,
        BackgroundTask::ErrorRecovery(_) => 5,
        BackgroundTask::MemoryConsolidation => 6,
        BackgroundTask::SystemHealthCheck => 7,
        BackgroundTask::CreativeIncubation => 8,
        BackgroundTask::SocialContextAnalysis => 9,
    }
}

impl BackgroundTask {
    /// Priority in tenths: error recovery 10 down to social analysis 2.
    pub fn priority(&self) -> (r: u64)
        ensures
            r == task_priority(*self),
    {
        match self {
            BackgroundTask::ErrorRecovery(_) => 10,
            BackgroundTask::EmotionalRegulation => 9,
            BackgroundTask::DeepReflection => 8,
            BackgroundTask::SystemHealthCheck => 7,
            BackgroundTask::GoalReassessment => 6,
            BackgroundTask::AttentionUpdate => 5,
            BackgroundTask::MemoryConsolidation => 4,
            BackgroundTask::SpontaneousThought => 3,
            BackgroundTask::CreativeIncubation => 3,
            BackgroundTask::SocialContextAnalysis => 2,
        }
    }

    /// Expected execution time in seconds.
    pub fn execution_time(&self) -> (r: u64)
        ensures
            r == task_execution_time(*self),
    {
        match self {
            BackgroundTask::DeepReflection => 60,
            BackgroundTask::MemoryConsolidation => 30,
            BackgroundTask::GoalReassessment => 15,
            BackgroundTask::ErrorRecovery(_) => 10,
            BackgroundTask::SystemHealthCheck => 5,
            BackgroundTask::EmotionalRegulation => 2,
            BackgroundTask::AttentionUpdate => 1,
            BackgroundTask::SpontaneousThought => 3,
            BackgroundTask::CreativeIncubation => 20,
            BackgroundTask::SocialContextAnalysis => 10,
        }
    }

    /// The variant, ignoring any payload.
    pub fn kind(&self) -> (r: u8)
        ensures
            r == task_kind(*self),
    {
        match self {
            BackgroundTask::DeepReflection => 0,
            BackgroundTask::GoalReassessment => 1,
            BackgroundTask::EmotionalRegulation => 2,
            BackgroundTask::AttentionUpdate => 3,
            BackgroundTask::SpontaneousThought => 4,
            BackgroundTask::ErrorRecovery(_) => 5,
            BackgroundTask::MemoryConsolidation => 6,
            BackgroundTask::SystemHealthCheck => 7,
            BackgroundTask::CreativeIncubation => 8,
            BackgroundTask::SocialContextAnalysis => 9,
        }
    }

    /// An identical copy.
    pub fn duplicate(&self) -> (r: BackgroundTask)
        ensures
            r == *self,
    {
        match self {
            BackgroundTask::DeepReflection => BackgroundTask::DeepReflection,
            BackgroundTask::GoalReassessment => BackgroundTask::GoalReassessment,
            BackgroundTask::EmotionalRegulation => BackgroundTask::EmotionalRegulation,
            BackgroundTask::AttentionUpdate => BackgroundTask::AttentionUpdate,
            BackgroundTask::SpontaneousThought => BackgroundTask::SpontaneousThought,
            BackgroundTask::ErrorRecovery(s) => BackgroundTask::ErrorRecovery(s.clone()),
            BackgroundTask::MemoryConsolidation => BackgroundTask::MemoryConsolidation,
            BackgroundTask::SystemHealthCheck => BackgroundTask::SystemHealthCheck,
            BackgroundTask::CreativeIncubation => BackgroundTask::CreativeIncubation,
            BackgroundTask::SocialContextAnalysis => BackgroundTask::SocialContextAnalysis,
        }
    }
}

/// Default number of tasks that may run at once.
pub const DEFAULT_MAX_CONCURRENT: usize = 3;

/// Number of completed tasks kept for diagnostics.
pub const COMPLETED_CAPACITY: usize = 50;

/// Abstract state of a scheduler.
pub struct SchedulerView {
    pub pending: Seq<BackgroundTask>,
    pub running: Seq<BackgroundTask>,
    pub completed: Seq<BackgroundTask>,
    pub max_concurrent: nat,
}

/// Pending tasks are ordered by non-increasing priority.
pub open spec fn sorted_by_priority(s: Seq<BackgroundTask>) -> bool {
    forall|i: int, j: int| 0 <= i < j < s.len() ==> task_priority(s[i]) >= task_priority(s[j])
}

/// Index of the first task in `s` at or after `i` whose priority is below
/// `p`, or `s.len()` if there is none.
pub open spec fn first_below_from(s: Seq<BackgroundTask>, p: u64, i: int) -> int
    decreases s.len() - i,
{
    if i < 0 || i >= s.len() {
        s.len() as int
    } else if task_priority(s[i]) < p {
        i
    } else {
        first_below_from(s, p, i + 1)
    }
}

/// Where a task of priority `p` enters `s`: after every task of priority at
/// least `p` that precedes the first one of lower priority.
pub open spec fn insertion_point(s: Seq<BackgroundTask>, p: u64) -> int {
    first_below_from(s, p, 0)
}

/// Index of the first task in `s` at or after `i` of the same kind as `t`,
/// or `s.len()` if there is none.
pub open spec fn first_of_kind_from(s: Seq<BackgroundTask>, t: BackgroundTask, i: int) -> int
    decreases s.len() - i,
{
    if i < 0 || i >= s.len() {
        s.len() as int
    } else if task_kind(s[i]) == task_kind(t) {
        i
    } else {
        first_of_kind_from(s, t, i + 1)
    }
}

/// Index of the first task in `s` of the same kind as `t`, or `s.len()`.
pub open spec fn first_of_kind(s: Seq<BackgroundTask>, t: BackgroundTask) -> int {
    first_of_kind_from(s, t, 0)
}

/// Appends `t` to `s`, dropping the oldest entry when `s` grows past `cap`.
pub open spec fn push_bounded(s: Seq<BackgroundTask>, t: BackgroundTask, cap: nat) -> Seq<
    BackgroundTask,
> {
    if s.push(t).len() > cap {
        s.push(t).drop_first()
    } else {
        s.push(t)
    }
}

impl SchedulerView {
    /// What holds of a scheduler at all times.
    pub open spec fn inv(self) -> bool {
        &&& self.running.len() <= self.max_concurrent
        &&& sorted_by_priority(self.pending)
        &&& self.completed.len() <= COMPLETED_CAPACITY
    }

    /// The scheduler after `schedule_task(t)`: `t` enters pending after every
    /// task of priority at least its own.
    pub open spec fn schedule(self, t: BackgroundTask) -> SchedulerView {
        SchedulerView {
            pending: self.pending.insert(insertion_point(self.pending, task_priority(t)), t),
            ..self
        }
    }

    /// Whether `get_next_task` hands out a task.
    pub open spec fn can_start(self) -> bool {
        self.running.len() < self.max_concurrent && self.pending.len() > 0
    }

    /// The scheduler after `get_next_task`.
    pub open spec fn start_next(self) -> SchedulerView {
        if self.can_start() {
            SchedulerView {
                pending: self.pending.drop_first(),
                running: self.running.push(self.pending[0]),
                ..self
            }
        } else {
            self
        }
    }

    /// The scheduler after `complete_task(t)`: the first running task of the
    /// same kind moves to the completed buffer; without one nothing changes.
    pub open spec fn complete(self, t: BackgroundTask) -> SchedulerView {
        let pos = first_of_kind(self.running, t);
        if pos < self.running.len() {
            SchedulerView {
                running: self.running.remove(pos),
                completed: push_bounded(
                    self.completed,
                    self.running[pos],
                    COMPLETED_CAPACITY as nat,
                ),
                ..self
            }
        } else {
            self
        }
    }
}

/// Pending, running and completed background tasks.
#[derive(Debug)]
pub struct TaskScheduler {
    pending_tasks: Vec<BackgroundTask>,
    running_tasks: Vec<BackgroundTask>,
    completed_tasks: Vec<BackgroundTask>,
    max_concurrent: usize,
}

impl View for TaskScheduler {
    type V = SchedulerView;

    closed spec fn view(&self) -> SchedulerView {
        SchedulerView {
            pending: self.pending_tasks@,
            running: self.running_tasks@,
            completed: self.completed_tasks@,
            max_concurrent: self.max_concurrent as nat,
        }
    }
}

proof fn lemma_first_of_kind_step(s: Seq<BackgroundTask>, t: BackgroundTask, i: int)
    requires
        0 <= i < s.len(),
        task_kind(s[i]) != task_kind(t),
    ensures
        first_of_kind_from(s, t, i) == first_of_kind_from(s, t, i + 1),
{
}

proof fn lemma_first_of_kind_bounds(s: Seq<BackgroundTask>, t: BackgroundTask, i: int)
    requires
        0 <= i <= s.len(),
    ensures
        i <= first_of_kind_from(s, t, i) <= s.len(),
        first_of_kind_from(s, t, i) < s.len() ==> task_kind(s[first_of_kind_from(s, t, i)])
            == task_kind(t),
        forall|j: int|
            i <= j < first_of_kind_from(s, t, i) ==> task_kind(s[j]) != task_kind(t),
    decreases s.len() - i,
{
    if i < s.len() && task_kind(s[i]) != task_kind(t) {
        lemma_first_of_kind_bounds(s, t, i + 1);
    }
}

proof fn lemma_first_below_bounds(s: Seq<BackgroundTask>, p: u64, i: int)
    requires
        0 <= i <= s.len(),
    ensures
        i <= first_below_from(s, p, i) <= s.len(),
        first_below_from(s, p, i) < s.len() ==> task_priority(s[first_below_from(s, p, i)]) < p,
        forall|j: int| i <= j < first_below_from(s, p, i) ==> task_priority(s[j]) >= p,
    decreases s.len() - i,
{
    if i < s.len() && task_priority(s[i]) >= p {
        lemma_first_below_bounds(s, p, i + 1);
    }
}

/// A task enters the pending queue at an index within it or at its end.
pub proof fn lemma_insertion_point_bounds(s: Seq<BackgroundTask>, p: u64)
    ensures
        0 <= insertion_point(s, p) <= s.len(),
{
    lemma_first_below_bounds(s, p, 0);
}

proof fn lemma_schedule_keeps_invariant(v: SchedulerView, t: BackgroundTask)
    requires
        v.inv(),
    ensures
        v.schedule(t).inv(),
{
    let p = task_priority(t);
    let pos = insertion_point(v.pending, p);
    lemma_first_below_bounds(v.pending, p, 0);
    let n = v.schedule(t).pending;
    assert forall|a: int, b: int| 0 <= a < b < n.len() implies task_priority(n[a])
        >= task_priority(n[b]) by {
        if b < pos {
        } else if b == pos {
        } else if a < pos {
            assert(n[b] == v.pending[b - 1]);
        } else if a == pos {
            assert(n[b] == v.pending[b - 1]);
            assert(task_priority(v.pending[pos]) < p);
            if b - 1 > pos {
                assert(task_priority(v.pending[pos]) >= task_priority(v.pending[b - 1]));
            }
        } else {
            assert(n[a] == v.pending[a - 1]);
            assert(n[b] == v.pending[b - 1]);
        }
    }
}

proof fn lemma_start_next_keeps_invariant(v: SchedulerView)
    requires
        v.inv(),
    ensures
        v.start_next().inv(),
{
    if v.can_start() {
        let n = v.start_next().pending;
        assert forall|a: int, b: int| 0 <= a < b < n.len() implies task_priority(n[a])
            >= task_priority(n[b]) by {
            assert(n[a] == v.pending[a + 1]);
            assert(n[b] == v.pending[b + 1]);
        }
    }
}

proof fn lemma_complete_keeps_invariant(v: SchedulerView, t: BackgroundTask)
    requires
        v.inv(),
    ensures
        v.complete(t).inv(),
{
    lemma_first_of_kind_bounds(v.running, t, 0);
}

/// One call on a scheduler.
pub enum SchedulerOp {
    Schedule(BackgroundTask),
    Next,
    Complete(BackgroundTask),
}

/// The scheduler after one call.
pub open spec fn apply_op(v: SchedulerView, op: SchedulerOp) -> SchedulerView {
    match op {
        SchedulerOp::Schedule(t) => v.schedule(t),
        SchedulerOp::Next => v.start_next(),
        SchedulerOp::Complete(t) => v.complete(t),
    }
}

/// The scheduler after a sequence of calls, in order.
pub open spec fn apply_ops(v: SchedulerView, ops: Seq<SchedulerOp>) -> SchedulerView
    decreases ops.len(),
{
    if ops.len() == 0 {
        v
    } else {
        apply_op(apply_ops(v, ops.drop_last()), ops.last())
    }
}

/// After any sequence of `schedule_task`, `get_next_task` and
/// `complete_task` calls, no more than `max_concurrent` tasks are running and
/// the pending queue is ordered by non-increasing priority.
pub proof fn lemma_scheduler_invariant_holds(v: SchedulerView, ops: Seq<SchedulerOp>)
    requires
        v.inv(),
    ensures
        apply_ops(v, ops).inv(),
        apply_ops(v, ops).running.len() <= apply_ops(v, ops).max_concurrent,
        sorted_by_priority(apply_ops(v, ops).pending),
    decreases ops.len(),
{
    if ops.len() > 0 {
        lemma_scheduler_invariant_holds(v, ops.drop_last());
        let w = apply_ops(v, ops.drop_last());
        match ops.last() {
            SchedulerOp::Schedule(t) => lemma_schedule_keeps_invariant(w, t),
            SchedulerOp::Next => lemma_start_next_keeps_invariant(w),
            SchedulerOp::Complete(t) => lemma_complete_keeps_invariant(w, t),
        }
    }
}

/// Completing a task twice, when it was the only running task of its kind,
/// changes nothing the second time: the completed buffer is not touched again.
pub proof fn lemma_complete_twice_is_noop(v: SchedulerView, t: BackgroundTask)
    requires
        forall|i: int, j: int|
            0 <= i < v.running.len() && 0 <= j < v.running.len() && task_kind(v.running[i])
                == task_kind(t) && task_kind(v.running[j]) == task_kind(t) ==> i == j,
    ensures
        v.complete(t).complete(t) == v.complete(t),
{
    let once = v.complete(t);
    lemma_first_of_kind_bounds(v.running, t, 0);
    lemma_first_of_kind_bounds(once.running, t, 0);
    let pos = first_of_kind(v.running, t);
    if pos < v.running.len() {
        let q = first_of_kind(once.running, t);
        if q < once.running.len() {
            if q < pos {
                assert(once.running[q] == v.running[q]);
            } else {
                assert(once.running[q] == v.running[q + 1]);
            }
        }
    }
}

impl TaskScheduler {
    /// An empty scheduler that runs at most three tasks at once.
    pub fn new() -> (r: TaskScheduler)
        ensures
            r@.pending.len() == 0,
            r@.running.len() == 0,
            r@.completed.len() == 0,
            r@.max_concurrent == DEFAULT_MAX_CONCURRENT,
            r@.inv(),
    {
        TaskScheduler {
            pending_tasks: Vec::new(),
            running_tasks: Vec::new(),
            completed_tasks: Vec::new(),
            max_concurrent: DEFAULT_MAX_CONCURRENT,
        }
    }

    /// An empty scheduler with a concurrency cap of `max_concurrent`.
    pub fn with_capacity(max_concurrent: usize) -> (r: TaskScheduler)
        ensures
            r@.pending.len() == 0,
            r@.running.len() == 0,
            r@.completed.len() == 0,
            r@.max_concurrent == max_concurrent,
            r@.inv(),
    {
        TaskScheduler {
            pending_tasks: Vec::new(),
            running_tasks: Vec::new(),
            completed_tasks: Vec::new(),
            max_concurrent,
        }
    }

    /// Adds `task` to the pending queue, after every pending task of at least
    /// its priority (ties keep their order of arrival).
    pub fn schedule_task(&mut self, task: BackgroundTask)
        requires
            old(self)@.inv(),
        ensures
            final(self)@ == old(self)@.schedule(task),
            final(self)@.inv(),
    {
        let p = task.priority();
        let ghost before = self@;
        let mut i: usize = 0;
        while i < self.pending_tasks.len()
            invariant
                self@ == before,
                p == task_priority(task),
                0 <= i <= before.pending.len(),
                insertion_point(before.pending, p) == first_below_from(before.pending, p, i as int),
            ensures
                self@ == before,
                0 <= i <= before.pending.len(),
                insertion_point(before.pending, p) == first_below_from(before.pending, p, i as int),
                i < before.pending.len() ==> task_priority(before.pending[i as int]) < p,
            decreases self.pending_tasks.len() - i,
        {
            if self.pending_tasks[i].priority() < p {
                break;
            }
            i = i + 1;
        }
        assert(insertion_point(before.pending, p) == i);
        self.pending_tasks.insert(i, task);
        proof {
            lemma_schedule_keeps_invariant(before, task);
        }
    }

    /// Moves the highest-priority pending task to running and returns it, if
    /// fewer than `max_concurrent` tasks are running; otherwise returns `None`.
    pub fn get_next_task(&mut self) -> (r: Option<BackgroundTask>)
        requires
            old(self)@.inv(),
        ensures
            final(self)@ == old(self)@.start_next(),
            r == (if old(self)@.can_start() {
                Some(old(self)@.pending[0])
            } else {
                None::<BackgroundTask>
            }),
            final(self)@.inv(),
    {
        if self.running_tasks.len() < self.max_concurrent && self.pending_tasks.len() > 0 {
            let ghost before = self@;
            let task = self.pending_tasks.remove(0);
            self.running_tasks.push(task.duplicate());
            assert(self@.pending =~= before.pending.drop_first());
            assert(self@ == before.start_next());
            Some(task)
        } else {
            None
        }
    }

    /// Moves the first running task of the same kind as `task` to the
    /// completed buffer, dropping the oldest completed task past the buffer's
    /// capacity. Without a running task of that kind nothing changes.
    pub fn complete_task(&mut self, task: &BackgroundTask)
        requires
            old(self)@.inv(),
        ensures
            final(self)@ == old(self)@.complete(*task),
            final(self)@.inv(),
    {
        let k = task.kind();
        let ghost before = self@;
        proof {
            lemma_first_of_kind_bounds(before.running, *task, 0);
        }
        let mut i: usize = 0;
        while i < self.running_tasks.len()
            invariant
                self@ == before,
                k == task_kind(*task),
                0 <= i <= before.running.len(),
                first_of_kind(before.running, *task) == first_of_kind_from(
                    before.running,
                    *task,
                    i as int,
                ),
            ensures
                self@ == before,
                0 <= i <= before.running.len(),
                first_of_kind(before.running, *task) == first_of_kind_from(
                    before.running,
                    *task,
                    i as int,
                ),
                i < before.running.len() ==> task_kind(before.running[i as int]) == k,
            decreases self.running_tasks.len() - i,
        {
            let ki = self.running_tasks[i].kind();
            if ki == k {
                break;
            }
            proof {
                lemma_first_of_kind_step(before.running, *task, i as int);
            }
            i = i + 1;
        }
        assert(i < before.running.len() ==> first_of_kind(before.running, *task) == i);
        assert(i == before.running.len() ==> first_of_kind(before.running, *task) == i);
        if i < self.running_tasks.len() {
            let done = self.running_tasks.remove(i);
            self.completed_tasks.push(done);
            if self.completed_tasks.len() > COMPLETED_CAPACITY {
                self.completed_tasks.remove(0);
            }
            assert(self@.completed =~= push_bounded(
                before.completed,
                before.running[i as int],
                COMPLETED_CAPACITY as nat,
            ));
            assert(self@.running =~= before.running.remove(i as int));
            assert(self@ == before.complete(*task));
        }
        proof {
            lemma_complete_keeps_invariant(before, *task);
        }
    }

    /// Number of pending tasks.
    pub fn pending_count(&self) -> (r: usize)
        ensures
            r == self@.pending.len(),
    {
        self.pending_tasks.len()
    }

    /// Number of running tasks.
    pub fn running_count(&self) -> (r: usize)
        ensures
            r == self@.running.len(),
    {
        self.running_tasks.len()
    }

    /// Number of completed tasks kept.
    pub fn completed_count(&self) -> (r: usize)
        ensures
            r == self@.completed.len(),
    {
        self.completed_tasks.len()
    }

    /// The concurrency cap.
    pub fn max_concurrent(&self) -> (r: usize)
        ensures
            r == self@.max_concurrent,
    {
        self.max_concurrent
    }
}

/// The status line of a scheduler with the given counts.
pub open spec fn status_line(pending: nat, running: nat, completed: nat) -> Seq<char> {
    "Tasks - Pending: "@ + decimal(pending) + ", Running: "@ + decimal(running) + ", Completed: "@
        + decimal(completed)
}

impl TaskScheduler {
    /// How many tasks are pending, running and completed, in words.
    pub fn get_status(&self) -> (r: String)
        ensures
            r@ == status_line(self@.pending.len(), self@.running.len(), self@.completed.len()),
    {
        let p = decimal_string(self.pending_tasks.len() as u64);
        let q = decimal_string(self.running_tasks.len() as u64);
        let c = decimal_string(self.completed_tasks.len() as u64);
        let t1 = concat("Tasks - Pending: ", p.as_str());
        let t2 = concat(t1.as_str(), ", Running: ");
        let t3 = concat(t2.as_str(), q.as_str());
        let t4 = concat(t3.as_str(), ", Completed: ");
        concat(t4.as_str(), c.as_str())
    }
}

} // verus!
