//! Goal formation, focus and progress, with a cap on simultaneously active goals.

use vstd::prelude::*;
use crate::clock::{HOUR_MS, DAY_MS};
use crate::affect::{AffectiveState, clamp};
use crate::text::{concat, decimal, decimal_string, lower_of, lowercase, texts};
use crate::collaborator::{contains_chars, str_contains};

verus! {

/// Categories of goals.
#[derive(Debug, Clone, Copy, PartialEq, Eq)]
pub enum GoalCategory {
    /// Learning and understanding.
    Epistemic,
    /// Social connection.
    Social,
    /// Self-improvement.
    SelfDevelopment,
    /// Creative expression.
    Creative,
    /// Helping others.
    Altruistic,
    /// Stability.
    Homeostatic,
}

/// Status of a goal; completed, abandoned and failed are terminal.
#[derive(Debug, Clone, Copy, PartialEq, Eq)]
pub enum GoalStatus {
    Active,
    Completed,
    Abandoned,
    Paused,
    Failed,
}

/// A goal; scalars in thousandths, times in milliseconds since the Unix epoch.
#[derive(Debug, Clone)]
pub struct Goal {
    pub id: u64,
    pub description: String,
    pub category: GoalCategory,
    pub priority: i64,
    pub urgency: i64,
    pub progress: i64,
    pub status: GoalStatus,
    pub created_at: i64,
    pub deadline: Option<i64>,
    pub sub_goals: Vec<u64>,
    pub success_criteria: Vec<String>,
    pub obstacles: Vec<String>,
    pub strategies: Vec<String>,
    pub emotional_investment: i64,
}

/// Time pressure in thousandths: 1000 with under an hour to the deadline,
/// 800 with under a day, 500 otherwise or without a deadline.
pub open spec fn time_factor(deadline: Option<i64>, now: i64) -> int {
    match deadline {
        Some(d) => if d - now < HOUR_MS {
            1000
        } else if d - now < DAY_MS {
            800
        } else {
            500
        },
        None => 500,
    }
}

/// Importance in thousandths: four parts priority, three urgency, two
/// emotional investment and one time pressure.
pub open spec fn importance(g: Goal, now: i64) -> int {
    (4 * g.priority + 3 * g.urgency + 2 * g.emotional_investment + time_factor(g.deadline, now))
        / 10
}

/// Whether a goal is active.
pub open spec fn is_active(g: Goal) -> bool {
    g.status == GoalStatus::Active
}

/// Whether a goal is worth acting on at `now`.
pub open spec fn worth_acting_on(g: Goal, now: i64) -> bool {
    is_active(g) && importance(g, now) > 300
}

/// Motivation in thousandths to pursue a goal of `category` in affect state `a`.
pub open spec fn motivation(a: AffectiveState, category: GoalCategory) -> int {
    let v = a.valence as int;
    let ar = a.arousal as int;
    let d = a.dominance as int;
    let n = a.novelty as int;
    let abs_n = if n < 0 {
        -n
    } else {
        n
    };
    let abs_d = if d < 0 {
        -d
    } else {
        d
    };
    let weighted = match category {
        GoalCategory::Epistemic => 5 * ar + 5 * abs_n,
        GoalCategory::Social => 6 * v + 4 * (1000 - abs_d),
        GoalCategory::SelfDevelopment => 4 * (1000 - v) + 6 * d,
        GoalCategory::Creative => 6 * v + 4 * ar,
        GoalCategory::Altruistic => 7 * v + 3 * d,
        GoalCategory::Homeostatic => 6 * ar + 4 * (1000 - v),
    };
    clamp(weighted, 0, 10000) / 10
}

impl Goal {
    /// Scalars lie in the unit interval.
    pub open spec fn wf(self) -> bool {
        &&& 0 <= self.priority <= 1000
        &&& 0 <= self.urgency <= 1000
        &&& 0 <= self.progress <= 1000
        &&& 0 <= self.emotional_investment <= 1000
    }

    /// An active goal with the priority clamped to the unit interval, urgency
    /// 500, no progress and no deadline; its emotional investment starts at
    /// its priority.
    pub fn new(id: u64, description: String, category: GoalCategory, priority: i64, now: i64) -> (r:
        Goal)
        ensures
            r.wf(),
            r.id == id,
            r.description == description,
            r.category == category,
            r.priority == clamp(priority as int, 0, 1000),
            r.urgency == 500,
            r.progress == 0,
            r.status == GoalStatus::Active,
            r.created_at == now,
            r.deadline.is_none(),
            r.strategies@.len() == 0,
            r.emotional_investment == r.priority,
    {
        let p: i64 = if priority < 0 {
            0
        } else if priority > 1000 {
            1000
        } else {
            priority
        };
        Goal {
            id,
            description,
            category,
            priority: p,
            urgency: 500,
            progress: 0,
            status: GoalStatus::Active,
            created_at: now,
            deadline: None,
            sub_goals: Vec::new(),
            success_criteria: Vec::new(),
            obstacles: Vec::new(),
            strategies: Vec::new(),
            emotional_investment: p,
        }
    }

    /// Importance at `now`, in thousandths.
    pub fn calculate_importance(&self, now: i64) -> (r: i64)
        requires
            self.wf(),
        ensures
            r == importance(*self, now),
            0 <= r <= 1000,
    {
        let tf: i64 = match self.deadline {
            Some(d) => {
                let left: i128 = d as i128 - now as i128;
                if left < HOUR_MS as i128 {
                    1000
                } else if left < DAY_MS as i128 {
                    800
                } else {
                    500
                }
            },
            None => 500,
        };
        (4 * self.priority + 3 * self.urgency + 2 * self.emotional_investment + tf) / 10
    }

    /// Whether this goal is active and of importance above 300 at `now`.
    pub fn should_act_on(&self, now: i64) -> (r: bool)
        requires
            self.wf(),
        ensures
            r == worth_acting_on(*self, now),
    {
        match self.status {
            GoalStatus::Active => self.calculate_importance(now) > 300,
            _ => false,
        }
    }

    fn active(&self) -> (r: bool)
        ensures
            r == is_active(*self),
    {
        match self.status {
            GoalStatus::Active => true,
            _ => false,
        }
    }
}

/// Number of active goals in `s`.
pub open spec fn count_active(s: Seq<Goal>) -> nat
    decreases s.len(),
{
    if s.len() == 0 {
        0
    } else {
        count_active(s.drop_last()) + if is_active(s.last()) {
            1nat
        } else {
            0nat
        }
    }
}

proof fn lemma_count_active_push(s: Seq<Goal>, g: Goal)
    ensures
        count_active(s.push(g)) == count_active(s) + if is_active(g) {
            1nat
        } else {
            0nat
        },
{
    assert(s.push(g).drop_last() =~= s);
}

proof fn lemma_count_active_update(s: Seq<Goal>, i: int, g: Goal)
    requires
        0 <= i < s.len(),
    ensures
        count_active(s.update(i, g)) + (if is_active(s[i]) {
            1nat
        } else {
            0nat
        }) == count_active(s) + if is_active(g) {
            1nat
        } else {
            0nat
        },
    decreases s.len(),
{
    if i < s.len() - 1 {
        assert(s.update(i, g).drop_last() =~= s.drop_last().update(i, g));
        lemma_count_active_update(s.drop_last(), i, g);
    } else {
        assert(s.update(i, g).drop_last() =~= s.drop_last());
    }
}

/// Index of the first active goal of least importance at `now` in `s`, or
/// `s.len()` if none is active.
pub open spec fn is_least_important_active(s: Seq<Goal>, now: i64, i: int) -> bool {
    &&& 0 <= i < s.len()
    &&& is_active(s[i])
    &&& forall|j: int| 0 <= j < s.len() && is_active(s[j]) ==> importance(s[i], now) <= importance(s[j], now)
    &&& forall|j: int| 0 <= j < i && is_active(s[j]) ==> importance(s[i], now) < importance(s[j], now)
}

/// `i` is the first goal worth acting on of greatest importance at `now`.
pub open spec fn is_best_focus(s: Seq<Goal>, now: i64, i: int) -> bool {
    &&& 0 <= i < s.len()
    &&& worth_acting_on(s[i], now)
    &&& forall|j: int| 0 <= j < s.len() && worth_acting_on(s[j], now) ==> importance(s[j], now) <= importance(s[i], now)
    &&& forall|j: int| 0 <= j < i && worth_acting_on(s[j], now) ==> importance(s[j], now) < importance(s[i], now)
}

/// Default minimum motivation needed to form a goal.
pub const DEFAULT_FORMATION_THRESHOLD: i64 = 400;

/// Default cap on active goals.
pub const DEFAULT_MAX_ACTIVE_GOALS: usize = 10;

/// All goals ever formed, in order of formation (a goal's id is its index),
/// the goal in focus and the record of completed goals.
#[derive(Debug)]
pub struct GoalSystem {
    goals: Vec<Goal>,
    current_focus: Option<u64>,
    goal_formation_threshold: i64,
    max_active_goals: usize,
    achievement_history: Vec<(String, i64)>,
}

impl GoalSystem {
    /// Goals are well formed and numbered by position, at most
    /// `max_active_goals` are active, and the focus names an active goal.
    pub closed spec fn inv(self) -> bool {
        &&& self.max_active_goals >= 1
        &&& forall|i: int| 0 <= i < self.goals@.len() ==> (#[trigger] self.goals@[i]).wf()
        &&& forall|i: int| 0 <= i < self.goals@.len() ==> (#[trigger] self.goals@[i]).id == i
        &&& count_active(self.goals@) <= self.max_active_goals
        &&& match self.current_focus {
            Some(f) => f < self.goals@.len() && is_active(self.goals@[f as int]),
            None => true,
        }
    }

    /// The goals, in order of formation.
    pub closed spec fn goals_spec(self) -> Seq<Goal> {
        self.goals@
    }

    /// The id of the goal in focus.
    pub closed spec fn focus_spec(self) -> Option<u64> {
        self.current_focus
    }

    /// Minimum motivation needed to form a goal.
    pub closed spec fn threshold_spec(self) -> i64 {
        self.goal_formation_threshold
    }

    /// Cap on active goals.
    pub closed spec fn max_active_spec(self) -> nat {
        self.max_active_goals as nat
    }

    /// Descriptions and completion times of completed goals.
    pub closed spec fn achievements_spec(self) -> Seq<(String, i64)> {
        self.achievement_history@
    }

    /// An empty system with formation threshold 400 and at most ten active goals.
    pub fn new() -> (r: GoalSystem)
        ensures
            r.inv(),
            r.goals_spec().len() == 0,
            r.focus_spec().is_none(),
            r.threshold_spec() == DEFAULT_FORMATION_THRESHOLD,
            r.max_active_spec() == DEFAULT_MAX_ACTIVE_GOALS,
            r.achievements_spec().len() == 0,
    {
        GoalSystem::with_limits(DEFAULT_FORMATION_THRESHOLD, DEFAULT_MAX_ACTIVE_GOALS)
    }

    /// An empty system with the given formation threshold and active-goal cap.
    pub fn with_limits(threshold: i64, max_active_goals: usize) -> (r: GoalSystem)
        requires
            max_active_goals >= 1,
        ensures
            r.inv(),
            r.goals_spec().len() == 0,
            r.focus_spec().is_none(),
            r.threshold_spec() == threshold,
            r.max_active_spec() == max_active_goals,
            r.achievements_spec().len() == 0,
    {
        let r = GoalSystem {
            goals: Vec::new(),
            current_focus: None,
            goal_formation_threshold: threshold,
            max_active_goals,
            achievement_history: Vec::new(),
        };
        assert(count_active(r.goals@) == 0);
        r
    }

    /// Motivation in thousandths to pursue a goal of `category` in `affective_state`.
    pub fn calculate_motivation(affective_state: &AffectiveState, category: GoalCategory) -> (r:
        i64)
        requires
            affective_state.wf(),
        ensures
            r == motivation(*affective_state, category),
            0 <= r <= 1000,
    {
        let v = affective_state.valence;
        let ar = affective_state.arousal;
        let d = affective_state.dominance;
        let n = affective_state.novelty;
        let abs_n = if n < 0 {
            -n
        } else {
            n
        };
        let abs_d = if d < 0 {
            -d
        } else {
            d
        };
        let weighted: i64 = match category {
            GoalCategory::Epistemic => 5 * ar + 5 * abs_n,
            GoalCategory::Social => 6 * v + 4 * (1000 - abs_d),
            GoalCategory::SelfDevelopment => 4 * (1000 - v) + 6 * d,
            GoalCategory::Creative => 6 * v + 4 * ar,
            GoalCategory::Altruistic => 7 * v + 3 * d,
            GoalCategory::Homeostatic => 6 * ar + 4 * (1000 - v),
        };
        let c: i64 = if weighted < 0 {
            0
        } else if weighted > 10000 {
            10000
        } else {
            weighted
        };
        c / 10
    }

    /// Default strategies for a category of goal.
    pub fn generate_default_strategies(category: GoalCategory) -> (r: Vec<String>)
        ensures
            texts(r@) == default_strategies(category),
    {
        let (a, b, c) = match category {
            GoalCategory::Epistemic => (
                "Ask clarifying questions",
                "Seek additional information sources",
                "Reflect on what I already know",
            ),
            GoalCategory::Social => (
                "Show genuine interest in others",
                "Share appropriate personal insights",
                "Practice empathetic listening",
            ),
            GoalCategory::SelfDevelopment => (
                "Identify specific areas for improvement",
                "Set measurable milestones",
                "Reflect on progress regularly",
            ),
            GoalCategory::Creative => (
                "Explore unconventional combinations",
                "Draw inspiration from diverse sources",
                "Embrace experimentation",
            ),
            GoalCategory::Altruistic => (
                "Understand others' needs deeply",
                "Offer help without being asked",
                "Provide value through my unique capabilities",
            ),
            GoalCategory::Homeostatic => (
                "Identify sources of instability",
                "Develop coping mechanisms",
                "Seek equilibrium gradually",
            ),
        };
        let mut r: Vec<String> = Vec::new();
        r.push(a.to_owned());
        r.push(b.to_owned());
        r.push(c.to_owned());
        assert(texts(r@) =~= default_strategies(category));
        r
    }

    /// Number of active goals.
    pub fn active_count(&self) -> (r: usize)
        requires
            self.inv(),
        ensures
            r == count_active(self.goals_spec()),
    {
        let mut n: usize = 0;
        let mut i: usize = 0;
        while i < self.goals.len()
            invariant
                self.inv(),
                i <= self.goals@.len(),
                n == count_active(self.goals@.subrange(0, i as int)),
                n <= i,
            decreases self.goals@.len() - i,
        {
            assert(self.goals@.subrange(0, i + 1).drop_last() =~= self.goals@.subrange(0, i as int));
            if self.goals[i].active() {
                n = n + 1;
            }
            i = i + 1;
        }
        assert(self.goals@.subrange(0, i as int) =~= self.goals@);
        n
    }

    /// Index of the first active goal of least importance at `now`.
    fn least_important_active(&self, now: i64) -> (r: Option<usize>)
        requires
            forall|i: int| 0 <= i < self.goals@.len() ==> (#[trigger] self.goals@[i]).wf(),
        ensures
            match r {
                Some(i) => is_least_important_active(self.goals@, now, i as int),
                None => forall|j: int| 0 <= j < self.goals@.len() ==> !is_active(self.goals@[j]),
            },
    {
        let mut best: Option<usize> = None;
        let mut best_key: i64 = 0;
        let mut i: usize = 0;
        while i < self.goals.len()
            invariant
                i <= self.goals@.len(),
                forall|k: int| 0 <= k < self.goals@.len() ==> (#[trigger] self.goals@[k]).wf(),
                match best {
                    Some(b) => {
                        &&& b < i
                        &&& is_active(self.goals@[b as int])
                        &&& best_key == importance(self.goals@[b as int], now)
                        &&& forall|j: int| 0 <= j < i && is_active(self.goals@[j]) ==> best_key <= importance(self.goals@[j], now)
                        &&& forall|j: int| 0 <= j < b && is_active(self.goals@[j]) ==> best_key < importance(self.goals@[j], now)
                    },
                    None => forall|j: int| 0 <= j < i ==> !is_active(self.goals@[j]),
                },
            decreases self.goals@.len() - i,
        {
            if self.goals[i].active() {
                let key = self.goals[i].calculate_importance(now);
                match best {
                    Some(_) => {
                        if key < best_key {
                            best = Some(i);
                            best_key = key;
                        }
                    },
                    None => {
                        best = Some(i);
                        best_key = key;
                    },
                }
            }
            i = i + 1;
        }
        best
    }

    /// Forms a goal if the motivation that `affective_state` gives for its
    /// category reaches the formation threshold, and returns its id. When the
    /// new goal takes the number of active goals past the cap, the first
    /// active goal of least importance (possibly the new one) is abandoned.
    pub fn form_goal(
        &mut self,
        description: String,
        category: GoalCategory,
        priority: i64,
        affective_state: &AffectiveState,
        now: i64,
    ) -> (r: Option<u64>)
        requires
            old(self).inv(),
            affective_state.wf(),
            old(self).goals_spec().len() < u64::MAX,
        ensures
            final(self).inv(),
            final(self).threshold_spec() == old(self).threshold_spec(),
            final(self).max_active_spec() == old(self).max_active_spec(),
            final(self).achievements_spec() == old(self).achievements_spec(),
            motivation(*affective_state, category) < old(self).threshold_spec() ==> r.is_none()
                && *final(self) == *old(self),
            motivation(*affective_state, category) >= old(self).threshold_spec() ==> {
                let n = old(self).goals_spec().len();
                let g = final(self).goals_spec()[n as int];
                &&& r == Some(n as u64)
                &&& final(self).goals_spec().len() == n + 1
                &&& g.description == description
                &&& g.category == category
                &&& g.priority == clamp(priority as int, 0, 1000)
                &&& g.urgency == 500
                &&& g.progress == 0
                &&& g.created_at == now
                &&& g.deadline.is_none()
                &&& g.emotional_investment == motivation(*affective_state, category)
                &&& texts(g.strategies@) == default_strategies(category)
                &&& count_active(old(self).goals_spec()) < old(self).max_active_spec() ==> {
                    &&& is_active(g)
                    &&& final(self).goals_spec().drop_last() == old(self).goals_spec()
                    &&& final(self).focus_spec() == old(self).focus_spec()
                }
                &&& count_active(old(self).goals_spec()) >= old(self).max_active_spec() ==> {
                    let admitted = old(self).goals_spec().push(
                        Goal { status: GoalStatus::Active, ..g },
                    );
                    exists|i: int|
                        is_least_important_active(admitted, now, i) && final(self).goals_spec()
                            == admitted.update(
                            i,
                            Goal { status: GoalStatus::Abandoned, ..admitted[i] },
                        ) && final(self).focus_spec() == (if old(self).focus_spec() == Some(
                            i as u64,
                        ) {
                            None::<u64>
                        } else {
                            old(self).focus_spec()
                        })
                }
            },
    {
        let m = GoalSystem::calculate_motivation(affective_state, category);
        if m < self.goal_formation_threshold {
            return None;
        }
        let ghost old_goals = self.goals@;
        let active = self.active_count();
        let id = self.goals.len() as u64;
        let mut goal = Goal::new(id, description, category, priority, now);
        goal.emotional_investment = m;
        goal.strategies = GoalSystem::generate_default_strategies(category);
        self.goals.push(goal);
        proof {
            lemma_count_active_push(old_goals, self.goals@.last());
        }
        let ghost admitted = self.goals@;
        if active >= self.max_active_goals {
            match self.least_important_active(now) {
                Some(i) => {
                    let mut g = self.goals.remove(i);
                    g.status = GoalStatus::Abandoned;
                    self.goals.insert(i, g);
                    proof {
                        assert(self.goals@ =~= admitted.update(
                            i as int,
                            Goal { status: GoalStatus::Abandoned, ..admitted[i as int] },
                        ));
                        lemma_count_active_update(
                            admitted,
                            i as int,
                            Goal { status: GoalStatus::Abandoned, ..admitted[i as int] },
                        );
                    }
                    if self.current_focus == Some(i as u64) {
                        self.current_focus = None;
                    }
                    assert(is_least_important_active(admitted, now, i as int));
                },
                None => {
                    assert(is_active(admitted[id as int]));
                },
            }
        } else {
            assert(self.goals@.drop_last() =~= old_goals);
        }
        Some(id)
    }

    /// Adds `delta` (thousandths) to the progress of active goal `goal_id`,
    /// clamped to the unit interval; at full progress the goal is completed,
    /// recorded at `now` and leaves the focus. Other goals are left alone.
    pub fn update_goal_progress(&mut self, goal_id: u64, delta: i64, now: i64)
        requires
            old(self).inv(),
        ensures
            final(self).inv(),
            final(self).threshold_spec() == old(self).threshold_spec(),
            final(self).max_active_spec() == old(self).max_active_spec(),
            final(self).goals_spec().len() == old(self).goals_spec().len(),
            !(goal_id < old(self).goals_spec().len() && is_active(old(self).goals_spec()[goal_id as int]))
                ==> *final(self) == *old(self),
            goal_id < old(self).goals_spec().len() && is_active(old(self).goals_spec()[goal_id as int])
                ==> {
                let g = old(self).goals_spec()[goal_id as int];
                let p = clamp(g.progress + delta, 0, 1000);
                &&& p < 1000 ==> final(self).goals_spec() == old(self).goals_spec().update(
                    goal_id as int,
                    Goal { progress: p as i64, ..g },
                ) && final(self).focus_spec() == old(self).focus_spec()
                    && final(self).achievements_spec() == old(self).achievements_spec()
                &&& p == 1000 ==> final(self).goals_spec() == old(self).goals_spec().update(
                    goal_id as int,
                    Goal { progress: 1000, status: GoalStatus::Completed, ..g },
                ) && final(self).achievements_spec() == old(self).achievements_spec().push(
                    (g.description, now),
                ) && final(self).focus_spec() == (if old(self).focus_spec() == Some(goal_id) {
                    None::<u64>
                } else {
                    old(self).focus_spec()
                })
            },
    {
        if goal_id >= self.goals.len() as u64 {
            return;
        }
        let i = goal_id as usize;
        if !self.goals[i].active() {
            return;
        }
        let ghost before = self.goals@;
        let mut g = self.goals.remove(i);
        let sum: i128 = g.progress as i128 + delta as i128;
        g.progress = if sum < 0 {
            0
        } else if sum > 1000 {
            1000
        } else {
            sum as i64
        };
        if g.progress >= 1000 {
            g.status = GoalStatus::Completed;
            self.achievement_history.push((g.description.clone(), now));
            if self.current_focus == Some(goal_id) {
                self.current_focus = None;
            }
        }
        let ghost ng = g;
        self.goals.insert(i, g);
        proof {
            assert(self.goals@ =~= before.update(i as int, ng));
            lemma_count_active_update(before, i as int, ng);
        }
    }

    /// Focuses on the first goal worth acting on of greatest importance at
    /// `now` and returns its id; with none, clears the focus.
    pub fn determine_focus(&mut self, now: i64) -> (r: Option<u64>)
        requires
            old(self).inv(),
        ensures
            final(self).inv(),
            final(self).goals_spec() == old(self).goals_spec(),
            final(self).threshold_spec() == old(self).threshold_spec(),
            final(self).max_active_spec() == old(self).max_active_spec(),
            final(self).achievements_spec() == old(self).achievements_spec(),
            final(self).focus_spec() == r,
            match r {
                Some(i) => is_best_focus(old(self).goals_spec(), now, i as int),
                None => forall|j: int|
                    0 <= j < old(self).goals_spec().len() ==> !worth_acting_on(
                        old(self).goals_spec()[j],
                        now,
                    ),
            },
    {
        let mut best: Option<usize> = None;
        let mut best_key: i64 = 0;
        let mut i: usize = 0;
        while i < self.goals.len()
            invariant
                self.inv(),
                i <= self.goals@.len(),
                match best {
                    Some(b) => {
                        &&& b < i
                        &&& worth_acting_on(self.goals@[b as int], now)
                        &&& best_key == importance(self.goals@[b as int], now)
                        &&& forall|j: int| 0 <= j < i && worth_acting_on(self.goals@[j], now) ==> importance(self.goals@[j], now) <= best_key
                        &&& forall|j: int| 0 <= j < b && worth_acting_on(self.goals@[j], now) ==> importance(self.goals@[j], now) < best_key
                    },
                    None => forall|j: int| 0 <= j < i ==> !worth_acting_on(self.goals@[j], now),
                },
            decreases self.goals@.len() - i,
        {
            if self.goals[i].should_act_on(now) {
                let key = self.goals[i].calculate_importance(now);
                match best {
                    Some(_) => {
                        if key > best_key {
                            best = Some(i);
                            best_key = key;
                        }
                    },
                    None => {
                        best = Some(i);
                        best_key = key;
                    },
                }
            }
            i = i + 1;
        }
        let r = match best {
            Some(b) => Some(b as u64),
            None => None,
        };
        self.current_focus = r;
        r
    }

    /// The goal in focus, if any.
    pub fn get_current_focus(&self) -> (r: Option<&Goal>)
        requires
            self.inv(),
        ensures
            match self.focus_spec() {
                Some(f) => r == Some(&self.goals_spec()[f as int]),
                None => r.is_none(),
            },
    {
        match self.current_focus {
            Some(f) => {
                if f < self.goals.len() as u64 {
                    Some(&self.goals[f as usize])
                } else {
                    None
                }
            },
            None => None,
        }
    }

    /// The id of the goal in focus, if any.
    pub fn current_focus_id(&self) -> (r: Option<u64>)
        ensures
            r == self.focus_spec(),
    {
        self.current_focus
    }

    /// The goal with id `goal_id`, if there is one.
    pub fn get_goal(&self, goal_id: u64) -> (r: Option<&Goal>)
        ensures
            goal_id < self.goals_spec().len() ==> r == Some(&self.goals_spec()[goal_id as int]),
            goal_id >= self.goals_spec().len() ==> r.is_none(),
    {
        if goal_id < self.goals.len() as u64 {
            Some(&self.goals[goal_id as usize])
        } else {
            None
        }
    }

    /// The ids of the active goals, in order of formation.
    pub fn get_active_goals(&self) -> (r: Vec<u64>)
        requires
            self.inv(),
        ensures
            forall|k: int| 0 <= k < r@.len() ==> (#[trigger] r@[k]) < self.goals_spec().len() && is_active(self.goals_spec()[r@[k] as int]),
            forall|j: int| 0 <= j < self.goals_spec().len() && is_active(self.goals_spec()[j]) ==> r@.contains(j as u64),
            forall|a: int, b: int| 0 <= a < b < r@.len() ==> r@[a] < r@[b],
    {
        let mut out: Vec<u64> = Vec::new();
        let mut i: usize = 0;
        while i < self.goals.len()
            invariant
                self.inv(),
                i <= self.goals@.len(),
                forall|k: int| 0 <= k < out@.len() ==> (#[trigger] out@[k]) < i && is_active(self.goals@[out@[k] as int]),
                forall|j: int| 0 <= j < i && is_active(self.goals@[j]) ==> out@.contains(j as u64),
                forall|a: int, b: int| 0 <= a < b < out@.len() ==> out@[a] < out@[b],
            decreases self.goals@.len() - i,
        {
            let ghost prev = out@;
            if self.goals[i].active() {
                out.push(i as u64);
                assert(out@.last() == i as u64);
            }
            assert forall|j: int| 0 <= j < i + 1 && is_active(self.goals@[j]) implies out@.contains(j as u64) by {
                if j < i {
                    let k = choose|k: int| 0 <= k < prev.len() && prev[k] == j as u64;
                    assert(out@[k] == j as u64);
                } else {
                    assert(out@[out@.len() - 1] == j as u64);
                }
            }
            i = i + 1;
        }
        out
    }

    /// Number of goals completed so far.
    pub fn completed_count(&self) -> (r: usize)
        ensures
            r == self.achievements_spec().len(),
    {
        self.achievement_history.len()
    }

    /// Actions the goal in focus suggests: one per strategy, then one for its
    /// category where it has one; without a focus, two reflective actions.
    pub fn generate_desired_actions(&self) -> (r: Vec<String>)
        requires
            self.inv(),
        ensures
            texts(r@) == desired_actions(self.goals_spec(), self.focus_spec()),
    {
        let mut out: Vec<String> = Vec::new();
        match self.current_focus {
            Some(f) => {
                if f >= self.goals.len() as u64 {
                    return Vec::new();
                }
                let g = &self.goals[f as usize];
                let mut i: usize = 0;
                while i < g.strategies.len()
                    invariant
                        i <= g.strategies@.len(),
                        texts(out@) == strategy_actions(g.description@, g.strategies@.subrange(0, i as int)),
                    decreases g.strategies@.len() - i,
                {
                    let head = concat("Work on '", g.description.as_str());
                    let mid = concat(head.as_str(), "' by: ");
                    let line = concat(mid.as_str(), g.strategies[i].as_str());
                    let ghost prev = out@;
                    out.push(line);
                    assert(texts(out@) =~= texts(prev).push(line@));
                    assert(strategy_actions(g.description@, g.strategies@.subrange(0, i + 1)) =~= strategy_actions(g.description@, g.strategies@.subrange(0, i as int)).push(strategy_action(g.description@, g.strategies@[i as int]@)));
                    i = i + 1;
                }
                assert(g.strategies@.subrange(0, i as int) =~= g.strategies@);
                let ghost base = texts(out@);
                let extra: Option<&str> = match g.category {
                    GoalCategory::Epistemic => Some("Ask a thoughtful question about something I'm curious about"),
                    GoalCategory::Social => Some("Initiate a meaningful conversation or check in with someone"),
                    GoalCategory::Creative => Some("Propose a creative solution or express an original idea"),
                    _ => None,
                };
                match extra {
                    Some(text) => {
                        out.push(text.to_owned());
                        assert(category_action(g.category) =~= seq![text@]);
                        assert(texts(out@) =~= base + category_action(g.category));
                    },
                    None => {
                        assert(category_action(g.category) =~= Seq::<Seq<char>>::empty());
                        assert(texts(out@) =~= base + category_action(g.category));
                    },
                }
            },
            None => {},
        }
        if out.len() == 0 {
            out.push("Reflect on what I'd like to accomplish".to_owned());
            out.push("Consider forming a new goal based on current interests".to_owned());
        }
        assert(texts(out@) =~= desired_actions(self.goals@, self.current_focus));
        out
    }
}

/// The default strategies of a category.
pub open spec fn default_strategies(category: GoalCategory) -> Seq<Seq<char>> {
    match category {
        GoalCategory::Epistemic => seq![
            "Ask clarifying questions"@,
            "Seek additional information sources"@,
            "Reflect on what I already know"@,
        ],
        GoalCategory::Social => seq![
            "Show genuine interest in others"@,
            "Share appropriate personal insights"@,
            "Practice empathetic listening"@,
        ],
        GoalCategory::SelfDevelopment => seq![
            "Identify specific areas for improvement"@,
            "Set measurable milestones"@,
            "Reflect on progress regularly"@,
        ],
        GoalCategory::Creative => seq![
            "Explore unconventional combinations"@,
            "Draw inspiration from diverse sources"@,
            "Embrace experimentation"@,
        ],
        GoalCategory::Altruistic => seq![
            "Understand others' needs deeply"@,
            "Offer help without being asked"@,
            "Provide value through my unique capabilities"@,
        ],
        GoalCategory::Homeostatic => seq![
            "Identify sources of instability"@,
            "Develop coping mechanisms"@,
            "Seek equilibrium gradually"@,
        ],
    }
}

/// The action that works on a goal through one strategy.
pub open spec fn strategy_action(description: Seq<char>, strategy: Seq<char>) -> Seq<char> {
    "Work on '"@ + description + "' by: "@ + strategy
}

/// One action per strategy for the goal described by `description`.
pub open spec fn strategy_actions(description: Seq<char>, strategies: Seq<String>) -> Seq<Seq<char>> {
    strategies.map_values(|x: String| strategy_action(description, x@))
}

/// The action a category adds, if it adds one.
pub open spec fn category_action(category: GoalCategory) -> Seq<Seq<char>> {
    match category {
        GoalCategory::Epistemic => seq!["Ask a thoughtful question about something I'm curious about"@],
        GoalCategory::Social => seq!["Initiate a meaningful conversation or check in with someone"@],
        GoalCategory::Creative => seq!["Propose a creative solution or express an original idea"@],
        _ => Seq::empty(),
    }
}

/// The actions suggested by the goal in `focus`, or the two reflective
/// actions when that gives none.
pub open spec fn desired_actions(goals: Seq<Goal>, focus: Option<u64>) -> Seq<Seq<char>> {
    let focused = match focus {
        Some(f) => strategy_actions(goals[f as int].description@, goals[f as int].strategies@)
            + category_action(goals[f as int].category),
        None => Seq::empty(),
    };
    if focused.len() == 0 {
        seq![
            "Reflect on what I'd like to accomplish"@,
            "Consider forming a new goal based on current interests"@,
        ]
    } else {
        focused
    }
}

/// A summary of the goals: how many are active and completed, and the focus.
pub open spec fn goal_summary(active: nat, completed: nat, focus: Option<Seq<char>>) -> Seq<char> {
    "Goals: "@ + decimal(active) + " active, "@ + decimal(completed) + " completed. "@ + match focus {
        Some(d) => "Currently focused on: '"@ + d + "'"@,
        None => "No current focus"@,
    }
}

impl GoalSystem {
    /// Summarizes the goals in one line.
    pub fn generate_summary(&self) -> (r: String)
        requires
            self.inv(),
        ensures
            r@ == goal_summary(
                count_active(self.goals_spec()),
                self.achievements_spec().len(),
                match self.focus_spec() {
                    Some(f) => Some(self.goals_spec()[f as int].description@),
                    None => None,
                },
            ),
    {
        let a = decimal_string(self.active_count() as u64);
        let c = decimal_string(self.achievement_history.len() as u64);
        let focus: String = match self.get_current_focus() {
            Some(g) => {
                let h = concat("Currently focused on: '", g.description.as_str());
                concat(h.as_str(), "'")
            },
            None => "No current focus".to_owned(),
        };
        let t1 = concat("Goals: ", a.as_str());
        let t2 = concat(t1.as_str(), " active, ");
        let t3 = concat(t2.as_str(), c.as_str());
        let t4 = concat(t3.as_str(), " completed. ");
        concat(t4.as_str(), focus.as_str())
    }
}

/// A goal a conversational turn suggests: description, category and priority.
pub struct GoalOpportunity {
    pub description: String,
    pub category: GoalCategory,
    pub priority: i64,
}

/// The goals a prompt suggests, given its lowercase form: helping when help
/// is asked, understanding when learning is mentioned, creative work when
/// creating or imagining is.
pub open spec fn opportunities_for(prompt: Seq<char>, lowered: Seq<char>) -> Seq<(Seq<char>, GoalCategory, i64)> {
    let h = if contains_chars(lowered, "help"@) {
        seq![("Help the user with: "@ + prompt, GoalCategory::Altruistic, 800i64)]
    } else {
        Seq::empty()
    };
    let l = if contains_chars(lowered, "learn"@) || contains_chars(lowered, "understand"@) {
        seq![("Deepen understanding of this topic"@, GoalCategory::Epistemic, 700i64)]
    } else {
        Seq::empty()
    };
    let c = if contains_chars(lowered, "create"@) || contains_chars(lowered, "imagine"@) {
        seq![("Engage in creative problem-solving"@, GoalCategory::Creative, 600i64)]
    } else {
        Seq::empty()
    };
    h + l + c
}

/// The plain values of an opportunity.
pub open spec fn opportunity_view(o: GoalOpportunity) -> (Seq<char>, GoalCategory, i64) {
    (o.description@, o.category, o.priority)
}

/// The plain values of each opportunity.
pub open spec fn opportunity_views(s: Seq<GoalOpportunity>) -> Seq<(Seq<char>, GoalCategory, i64)> {
    s.map_values(|o: GoalOpportunity| opportunity_view(o))
}

fn push_opportunity(out: &mut Vec<GoalOpportunity>, o: GoalOpportunity)
    ensures
        opportunity_views(final(out)@) == opportunity_views(old(out)@).push(opportunity_view(o)),
{
    let ghost before = out@;
    out.push(o);
    assert(opportunity_views(out@) =~= opportunity_views(before).push(opportunity_view(o)));
}

/// The goals `prompt` suggests, given its lowercase form `lowered`.
pub fn goal_opportunities_in(prompt: &str, lowered: &str) -> (r: Vec<GoalOpportunity>)
    ensures
        opportunity_views(r@) == opportunities_for(prompt@, lowered@),
{
    let mut out: Vec<GoalOpportunity> = Vec::new();
    if str_contains(lowered, "help") {
        push_opportunity(&mut out, GoalOpportunity {
            description: concat("Help the user with: ", prompt),
            category: GoalCategory::Altruistic,
            priority: 800,
        });
    }
    if str_contains(lowered, "learn") || str_contains(lowered, "understand") {
        push_opportunity(&mut out, GoalOpportunity {
            description: "Deepen understanding of this topic".to_owned(),
            category: GoalCategory::Epistemic,
            priority: 700,
        });
    }
    if str_contains(lowered, "create") || str_contains(lowered, "imagine") {
        push_opportunity(&mut out, GoalOpportunity {
            description: "Engage in creative problem-solving".to_owned(),
            category: GoalCategory::Creative,
            priority: 600,
        });
    }
    assert(opportunity_views(out@) =~= opportunities_for(prompt@, lowered@));
    out
}

/// The goals `prompt` suggests, matched without regard to case.
pub fn goal_opportunities(prompt: &str) -> (r: Vec<GoalOpportunity>)
    ensures
        opportunity_views(r@) == opportunities_for(prompt@, lower_of(prompt@)),
{
    let lowered = lowercase(prompt);
    goal_opportunities_in(prompt, lowered.as_str())
}

} // verus!
