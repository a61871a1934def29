//! Selective attention: one primary focus and a bounded set of background
//! targets. Scalars here are in millionths, durations in milliseconds.

use vstd::prelude::*;
use crate::affect::clamp;
use crate::text::{concat, decimal, decimal_string, lower_of, lowercase, push_text, texts};
use crate::collaborator::{contains_chars, str_contains};

verus! {

/// Something attention can rest on.
#[derive(Debug, Clone)]
pub enum AttentionTarget {
    UserEmotion,
    ConversationTopic(String),
    SelfGoals,
    SelfEmotion,
    MemoryRecall,
    ProblemSolving,
    CreativeThinking,
    Learning,
    SocialDynamics,
    EnvironmentalAwareness,
}

/// What identifies a target: its variant and, for a topic, the topic's text.
pub open spec fn target_key(t: AttentionTarget) -> (u8, Seq<char>) {
    match t {
        AttentionTarget::UserEmotion => (0, Seq::empty()),
        AttentionTarget::ConversationTopic(s) => (1, s@),
        AttentionTarget::SelfGoals => (2, Seq::empty()),
        AttentionTarget::SelfEmotion => (3, Seq::empty()),
        AttentionTarget::MemoryRecall => (4, Seq::empty()),
        AttentionTarget::ProblemSolving => (5, Seq::empty()),
        AttentionTarget::CreativeThinking => (6, Seq::empty()),
        AttentionTarget::Learning => (7, Seq::empty()),
        AttentionTarget::SocialDynamics => (8, Seq::empty()),
        AttentionTarget::EnvironmentalAwareness => (9, Seq::empty()),
    }
}

impl AttentionTarget {
    /// An identical copy of this target.
    pub fn duplicate(&self) -> (r: AttentionTarget)
        ensures
            r == *self,
    {
        match self {
            AttentionTarget::UserEmotion => AttentionTarget::UserEmotion,
            AttentionTarget::ConversationTopic(s) => AttentionTarget::ConversationTopic(s.clone()),
            AttentionTarget::SelfGoals => AttentionTarget::SelfGoals,
            AttentionTarget::SelfEmotion => AttentionTarget::SelfEmotion,
            AttentionTarget::MemoryRecall => AttentionTarget::MemoryRecall,
            AttentionTarget::ProblemSolving => AttentionTarget::ProblemSolving,
            AttentionTarget::CreativeThinking => AttentionTarget::CreativeThinking,
            AttentionTarget::Learning => AttentionTarget::Learning,
            AttentionTarget::SocialDynamics => AttentionTarget::SocialDynamics,
            AttentionTarget::EnvironmentalAwareness => AttentionTarget::EnvironmentalAwareness,
        }
    }

    /// Whether two targets are the same: same variant and, for topics, same text.
    pub fn same_as(&self, other: &AttentionTarget) -> (r: bool)
        ensures
            r == (target_key(*self) == target_key(*other)),
    {
        match (self, other) {
            (AttentionTarget::UserEmotion, AttentionTarget::UserEmotion) => true,
            (AttentionTarget::ConversationTopic(a), AttentionTarget::ConversationTopic(b)) => *a == *b,
            (AttentionTarget::SelfGoals, AttentionTarget::SelfGoals) => true,
            (AttentionTarget::SelfEmotion, AttentionTarget::SelfEmotion) => true,
            (AttentionTarget::MemoryRecall, AttentionTarget::MemoryRecall) => true,
            (AttentionTarget::ProblemSolving, AttentionTarget::ProblemSolving) => true,
            (AttentionTarget::CreativeThinking, AttentionTarget::CreativeThinking) => true,
            (AttentionTarget::Learning, AttentionTarget::Learning) => true,
            (AttentionTarget::SocialDynamics, AttentionTarget::SocialDynamics) => true,
            (
                AttentionTarget::EnvironmentalAwareness,
                AttentionTarget::EnvironmentalAwareness,
            ) => true,
            _ => false,
        }
    }
}

/// One in a million: the unit of attention scalars.
pub const UNIT: i64 = 1_000_000;

/// Strength and character of attention on one target.
#[derive(Debug, Clone)]
pub struct AttentionState {
    pub target: AttentionTarget,
    pub intensity: i64,
    pub duration_ms: i64,
    pub stability: i64,
    pub salience: i64,
    pub last_updated: i64,
}

/// `x` limited to the unit interval in millionths.
pub open spec fn unit_clamp(x: int) -> int {
    clamp(x, 0, UNIT as int)
}

/// Intensity after `dt_ms` milliseconds: it loses a hundredth of itself per
/// minute, truncated.
pub open spec fn decayed_intensity(intensity: int, dt_ms: int) -> int {
    let loss = dt_ms / 6;
    let factor = if loss >= UNIT as int {
        0
    } else {
        UNIT as int - loss
    };
    intensity * factor / UNIT as int
}

impl AttentionState {
    /// Scalars lie in the unit interval and the duration is not negative.
    pub open spec fn wf(self) -> bool {
        &&& 0 <= self.intensity <= UNIT
        &&& 0 <= self.stability <= UNIT
        &&& 0 <= self.salience <= UNIT
        &&& 0 <= self.duration_ms
    }

    /// The state after `dt_ms` milliseconds at `now`.
    pub open spec fn advanced(self, dt_ms: i64, now: i64) -> AttentionState {
        let dt = if dt_ms < 0 {
            0
        } else {
            dt_ms as int
        };
        let i = decayed_intensity(self.intensity as int, dt);
        AttentionState {
            intensity: i as i64,
            duration_ms: clamp(self.duration_ms + dt, 0, i64::MAX as int) as i64,
            stability: if i > UNIT / 2 {
                clamp(self.stability + dt / 3, 0, UNIT as int) as i64
            } else {
                self.stability
            },
            last_updated: now,
            ..self
        }
    }

    /// New attention on `target`, intensity and salience clamped to the unit
    /// interval, stability one half.
    pub fn new(target: AttentionTarget, intensity: i64, salience: i64, now: i64) -> (r:
        AttentionState)
        ensures
            r.wf(),
            r.target == target,
            r.intensity == unit_clamp(intensity as int),
            r.salience == unit_clamp(salience as int),
            r.duration_ms == 0,
            r.stability == UNIT / 2,
            r.last_updated == now,
    {
        AttentionState {
            target,
            intensity: clamp_unit(intensity),
            duration_ms: 0,
            stability: UNIT / 2,
            salience: clamp_unit(salience),
            last_updated: now,
        }
    }

    /// An identical copy of this state.
    pub fn duplicate(&self) -> (r: AttentionState)
        ensures
            r == *self,
    {
        AttentionState {
            target: self.target.duplicate(),
            intensity: self.intensity,
            duration_ms: self.duration_ms,
            stability: self.stability,
            salience: self.salience,
            last_updated: self.last_updated,
        }
    }

    /// Lets `dt_ms` milliseconds pass: intensity decays by a hundredth per
    /// minute and, while above one half, stability grows by 0.02 per minute.
    pub fn update(&mut self, dt_ms: i64, now: i64)
        requires
            old(self).wf(),
        ensures
            *final(self) == old(self).advanced(dt_ms, now),
            final(self).wf(),
            final(self).intensity <= old(self).intensity,
    {
        let dt: i64 = if dt_ms < 0 {
            0
        } else {
            dt_ms
        };
        let sum: i128 = self.duration_ms as i128 + dt as i128;
        self.duration_ms = if sum > i64::MAX as i128 {
            i64::MAX
        } else {
            sum as i64
        };
        self.last_updated = now;
        let loss: i64 = dt / 6;
        let factor: i64 = if loss >= UNIT {
            0
        } else {
            UNIT - loss
        };
        proof {
            let i = self.intensity as int;
            let f = factor as int;
            assert(0 <= i * f <= UNIT * UNIT) by (nonlinear_arith)
                requires
                    0 <= i <= UNIT,
                    0 <= f <= UNIT,
            ;
            assert(i * f / UNIT as int <= i) by (nonlinear_arith)
                requires
                    0 <= i <= UNIT,
                    0 <= f <= UNIT,
            ;
        }
        self.intensity = ((self.intensity as i128) * (factor as i128) / (UNIT as i128)) as i64;
        if self.intensity > UNIT / 2 {
            let st: i64 = self.stability + dt / 3;
            self.stability = if st > UNIT {
                UNIT
            } else {
                st
            };
        }
    }
}

fn clamp_unit(x: i64) -> (r: i64)
    ensures
        r == unit_clamp(x as int),
{
    if x < 0 {
        0
    } else if x > UNIT {
        UNIT
    } else {
        x
    }
}

/// No two states in `s` are on the same target.
pub open spec fn distinct_targets(s: Seq<AttentionState>) -> bool {
    forall|i: int, j: int|
        0 <= i < s.len() && 0 <= j < s.len() && i != j ==> target_key(s[i].target) != target_key(
            s[j].target,
        )
}

/// `s` with `a` in place of the state on the same target, or `a` appended.
pub open spec fn upsert(s: Seq<AttentionState>, a: AttentionState) -> Seq<AttentionState> {
    if exists|i: int| 0 <= i < s.len() && target_key(s[i].target) == target_key(a.target) {
        let i = choose|i: int| 0 <= i < s.len() && target_key(s[i].target) == target_key(a.target);
        s.update(i, a)
    } else {
        s.push(a)
    }
}

/// `i` is the first state of least intensity in `s`.
pub open spec fn is_weakest(s: Seq<AttentionState>, i: int) -> bool {
    &&& 0 <= i < s.len()
    &&& forall|j: int| 0 <= j < s.len() ==> s[i].intensity <= s[j].intensity
    &&& forall|j: int| 0 <= j < i ==> s[i].intensity < s[j].intensity
}

/// `s` without its weakest state when it holds more than `max`.
pub open spec fn pruned(s: Seq<AttentionState>, max: nat) -> Seq<AttentionState> {
    if s.len() > max {
        s.remove(choose|i: int| is_weakest(s, i))
    } else {
        s
    }
}

/// `s` with each state advanced by `dt_ms` at `now`, dropping those whose
/// intensity falls below `floor`.
pub open spec fn advanced_all(s: Seq<AttentionState>, dt_ms: i64, now: i64, floor: i64) -> Seq<
    AttentionState,
>
    decreases s.len(),
{
    if s.len() == 0 {
        s
    } else {
        let rest = advanced_all(s.drop_last(), dt_ms, now, floor);
        let a = s.last().advanced(dt_ms, now);
        if a.intensity < floor {
            rest
        } else {
            rest.push(a)
        }
    }
}

/// Default cap on background targets.
pub const MAX_BACKGROUND_TARGETS: usize = 5;

/// Salience needed to break an established focus.
pub const DISTRACTION_THRESHOLD: i64 = 700_000;

/// Intensity needed to become the primary focus.
pub const FOCUS_THRESHOLD: i64 = 600_000;

/// Intensity below which the primary focus is lost.
pub const PRIMARY_FLOOR: i64 = 100_000;

/// Intensity below which a background target is dropped.
pub const BACKGROUND_FLOOR: i64 = 50_000;

/// Intensity above which a displaced focus stays in the background.
pub const RETAIN_DISPLACED: i64 = 300_000;

/// Number of attention shifts kept in the history.
pub const ATTENTION_HISTORY_CAPACITY: usize = 100;

/// Abstract state of an attention system.
pub struct AttentionView {
    pub primary: Option<AttentionState>,
    pub background: Seq<AttentionState>,
    pub history: Seq<(i64, AttentionTarget, i64)>,
    pub max_background: nat,
}

impl AttentionView {
    /// The attention system after `focus_on(a.target, ...)` produced `a`.
    pub open spec fn focused(self, a: AttentionState, now: i64) -> AttentionView {
        let history = if self.history.push((now, a.target, a.intensity)).len()
            > ATTENTION_HISTORY_CAPACITY {
            self.history.push((now, a.target, a.intensity)).drop_first()
        } else {
            self.history.push((now, a.target, a.intensity))
        };
        if a.intensity >= FOCUS_THRESHOLD {
            AttentionView {
                primary: Some(a),
                background: match self.primary {
                    Some(c) => if c.intensity > RETAIN_DISPLACED {
                        pruned(upsert(self.background, c), self.max_background)
                    } else {
                        self.background
                    },
                    None => self.background,
                },
                history,
                ..self
            }
        } else {
            AttentionView {
                background: pruned(upsert(self.background, a), self.max_background),
                history,
                ..self
            }
        }
    }
}

/// The primary focus, background targets and history of attention shifts.
#[derive(Debug)]
pub struct AttentionSystem {
    primary_focus: Option<AttentionState>,
    background_attention: Vec<AttentionState>,
    attention_history: Vec<(i64, AttentionTarget, i64)>,
    max_background_targets: usize,
}

impl View for AttentionSystem {
    type V = AttentionView;

    closed spec fn view(&self) -> AttentionView {
        AttentionView {
            primary: self.primary_focus,
            background: self.background_attention@,
            history: self.attention_history@,
            max_background: self.max_background_targets as nat,
        }
    }
}

impl AttentionView {
    /// States are well formed, background targets distinct and within the
    /// cap, and the history within its capacity.
    pub open spec fn inv(self) -> bool {
        &&& self.max_background >= 1
        &&& match self.primary {
            Some(p) => p.wf(),
            None => true,
        }
        &&& forall|i: int| 0 <= i < self.background.len() ==> (#[trigger] self.background[i]).wf()
        &&& distinct_targets(self.background)
        &&& self.background.len() <= self.max_background
        &&& self.history.len() <= ATTENTION_HISTORY_CAPACITY
    }
}

proof fn lemma_upsert_props(s: Seq<AttentionState>, a: AttentionState)
    requires
        distinct_targets(s),
    ensures
        distinct_targets(upsert(s, a)),
        upsert(s, a).len() <= s.len() + 1,
        forall|i: int| 0 <= i < upsert(s, a).len() ==> (#[trigger] upsert(s, a)[i] == a || s.contains(upsert(s, a)[i])),
{
    let u = upsert(s, a);
    if exists|i: int| 0 <= i < s.len() && target_key(s[i].target) == target_key(a.target) {
        let k = choose|i: int| 0 <= i < s.len() && target_key(s[i].target) == target_key(a.target);
        assert forall|i: int| 0 <= i < u.len() implies (#[trigger] u[i] == a || s.contains(u[i])) by {
            if i != k {
                assert(u[i] == s[i]);
            }
        }
    } else {
        assert forall|i: int| 0 <= i < u.len() implies (#[trigger] u[i] == a || s.contains(u[i])) by {
            if i < s.len() {
                assert(u[i] == s[i]);
            }
        }
    }
}

proof fn lemma_pruned_props(s: Seq<AttentionState>, max: nat)
    requires
        distinct_targets(s),
        s.len() <= max + 1,
        s.len() > max ==> exists|i: int| is_weakest(s, i),
    ensures
        distinct_targets(pruned(s, max)),
        pruned(s, max).len() <= max,
        forall|i: int| 0 <= i < pruned(s, max).len() ==> s.contains(#[trigger] pruned(s, max)[i]),
{
    if s.len() > max {
        let k = choose|i: int| is_weakest(s, i);
        let p = s.remove(k);
        assert forall|i: int| 0 <= i < p.len() implies s.contains(#[trigger] p[i]) by {
            if i < k {
                assert(p[i] == s[i]);
            } else {
                assert(p[i] == s[i + 1]);
            }
        }
        assert forall|i: int, j: int|
            0 <= i < p.len() && 0 <= j < p.len() && i != j implies target_key(p[i].target)
            != target_key(p[j].target) by {
            let si = if i < k { i } else { i + 1 };
            let sj = if j < k { j } else { j + 1 };
            assert(p[i] == s[si]);
            assert(p[j] == s[sj]);
        }
    }
}

impl AttentionSystem {
    /// No focus, no background targets, at most five of them.
    pub fn new() -> (r: AttentionSystem)
        ensures
            r@.inv(),
            r@.primary.is_none(),
            r@.background.len() == 0,
            r@.history.len() == 0,
            r@.max_background == MAX_BACKGROUND_TARGETS,
    {
        AttentionSystem::with_capacity(MAX_BACKGROUND_TARGETS)
    }

    /// No focus, no background targets, at most `max_background` of them.
    pub fn with_capacity(max_background: usize) -> (r: AttentionSystem)
        requires
            max_background >= 1,
        ensures
            r@.inv(),
            r@.primary.is_none(),
            r@.background.len() == 0,
            r@.history.len() == 0,
            r@.max_background == max_background,
    {
        AttentionSystem {
            primary_focus: None,
            background_attention: Vec::new(),
            attention_history: Vec::new(),
            max_background_targets: max_background,
        }
    }

    /// Puts `a` in place of the background state on its target, or appends it.
    fn upsert_background(&mut self, a: AttentionState)
        requires
            distinct_targets(old(self).background_attention@),
        ensures
            final(self).background_attention@ == upsert(old(self).background_attention@, a),
            final(self).primary_focus == old(self).primary_focus,
            final(self).attention_history@ == old(self).attention_history@,
            final(self).max_background_targets == old(self).max_background_targets,
    {
        let ghost s = self.background_attention@;
        let mut i: usize = 0;
        while i < self.background_attention.len()
            invariant
                self.background_attention@ == s,
                i <= s.len(),
                forall|j: int| 0 <= j < i ==> target_key(s[j].target) != target_key(a.target),
            ensures
                self.background_attention@ == s,
                i <= s.len(),
                forall|j: int| 0 <= j < i ==> target_key(s[j].target) != target_key(a.target),
                i < s.len() ==> target_key(s[i as int].target) == target_key(a.target),
            decreases s.len() - i,
        {
            if self.background_attention[i].target.same_as(&a.target) {
                break;
            }
            i = i + 1;
        }
        if i < self.background_attention.len() {
            proof {
                let k = choose|k: int| 0 <= k < s.len() && target_key(s[k].target) == target_key(a.target);
                assert(k == i) by {
                    if k != i {
                        assert(target_key(s[k].target) == target_key(s[i as int].target));
                    }
                }
            }
            self.background_attention.set(i, a);
        } else {
            self.background_attention.push(a);
        }
    }

    /// Drops the weakest background state when there are more than the cap.
    fn prune_background_attention(&mut self)
        ensures
            final(self).background_attention@ == pruned(
                old(self).background_attention@,
                old(self).max_background_targets as nat,
            ),
            final(self).primary_focus == old(self).primary_focus,
            final(self).attention_history@ == old(self).attention_history@,
            final(self).max_background_targets == old(self).max_background_targets,
            old(self).background_attention@.len() > old(self).max_background_targets ==> exists|
                i: int,
            | is_weakest(old(self).background_attention@, i),
    {
        if self.background_attention.len() > self.max_background_targets {
            let ghost s = self.background_attention@;
            let mut w: usize = 0;
            let mut i: usize = 1;
            while i < self.background_attention.len()
                invariant
                    self.background_attention@ == s,
                    s.len() > 0,
                    1 <= i <= s.len(),
                    w < i,
                    forall|j: int| 0 <= j < i ==> s[w as int].intensity <= s[j].intensity,
                    forall|j: int| 0 <= j < w ==> s[w as int].intensity < s[j].intensity,
                decreases s.len() - i,
            {
                if self.background_attention[i].intensity < self.background_attention[w].intensity {
                    w = i;
                }
                i = i + 1;
            }
            assert(is_weakest(s, w as int));
            let ghost k = choose|k: int| is_weakest(s, k);
            assert(k == w) by {
                if k < w {
                    assert(s[w as int].intensity < s[k].intensity);
                } else if k > w {
                    assert(s[k].intensity < s[w as int].intensity);
                }
            }
            self.background_attention.remove(w);
        }
    }

    /// Directs attention to `target` at `now`. Attention of at least the
    /// focus threshold becomes the primary focus, moving a displaced focus of
    /// intensity above 0.3 to the background; weaker attention goes to the
    /// background. Past the cap, the weakest background target is dropped.
    pub fn focus_on(&mut self, target: AttentionTarget, intensity: i64, salience: i64, now: i64)
        requires
            old(self)@.inv(),
        ensures
            final(self)@.inv(),
            final(self)@ == old(self)@.focused(
                AttentionState {
                    target,
                    intensity: unit_clamp(intensity as int) as i64,
                    duration_ms: 0,
                    stability: (UNIT / 2) as i64,
                    salience: unit_clamp(salience as int) as i64,
                    last_updated: now,
                },
                now,
            ),
    {
        let ghost v0 = self@;
        let a = AttentionState::new(target, intensity, salience, now);
        let ghost hist = self.attention_history@;
        self.attention_history.push((now, a.target.duplicate(), a.intensity));
        if self.attention_history.len() > ATTENTION_HISTORY_CAPACITY {
            self.attention_history.remove(0);
            assert(self.attention_history@ =~= hist.push((now, a.target, a.intensity)).drop_first());
        }
        if a.intensity >= FOCUS_THRESHOLD {
            let mut old_primary: Option<AttentionState> = None;
            core::mem::swap(&mut old_primary, &mut self.primary_focus);
            match old_primary {
                Some(c) => {
                    if c.intensity > RETAIN_DISPLACED {
                        proof {
                            lemma_upsert_props(v0.background, c);
                        }
                        self.upsert_background(c);
                        self.prune_background_attention();
                        proof {
                            lemma_pruned_props(upsert(v0.background, c), v0.max_background);
                        }
                    }
                },
                None => {},
            }
            self.primary_focus = Some(a);
        } else {
            proof {
                lemma_upsert_props(v0.background, a);
            }
            self.upsert_background(a);
            self.prune_background_attention();
            proof {
                lemma_pruned_props(upsert(v0.background, a), v0.max_background);
            }
        }
    }

    /// Lets `dt_ms` milliseconds pass at `now`: every state decays, a primary
    /// focus below 0.1 is lost and background targets below 0.05 are dropped.
    pub fn update(&mut self, dt_ms: i64, now: i64)
        requires
            old(self)@.inv(),
        ensures
            final(self)@.inv(),
            final(self)@.primary == (match old(self)@.primary {
                Some(p) => if p.advanced(dt_ms, now).intensity < PRIMARY_FLOOR {
                    None
                } else {
                    Some(p.advanced(dt_ms, now))
                },
                None => None,
            }),
            final(self)@.background == advanced_all(
                old(self)@.background,
                dt_ms,
                now,
                BACKGROUND_FLOOR,
            ),
            final(self)@.history == old(self)@.history,
            final(self)@.max_background == old(self)@.max_background,
    {
        let mut p: Option<AttentionState> = None;
        core::mem::swap(&mut p, &mut self.primary_focus);
        match p {
            Some(mut f) => {
                f.update(dt_ms, now);
                if f.intensity >= PRIMARY_FLOOR {
                    self.primary_focus = Some(f);
                }
            },
            None => {},
        }
        let ghost s = self.background_attention@;
        let ghost prim = self.primary_focus;
        let mut old_bg: Vec<AttentionState> = Vec::new();
        core::mem::swap(&mut old_bg, &mut self.background_attention);
        let mut i: usize = 0;
        while i < old_bg.len()
            invariant
                old_bg@ == s,
                self.primary_focus == prim,
                self.attention_history@ == old(self).attention_history@,
                self.max_background_targets == old(self).max_background_targets,
                i <= s.len(),
                self.background_attention@ == advanced_all(s.subrange(0, i as int), dt_ms, now, BACKGROUND_FLOOR),
                forall|k: int| 0 <= k < s.len() ==> (#[trigger] s[k]).wf(),
                distinct_targets(s),
                forall|k: int| 0 <= k < self.background_attention@.len() ==> (#[trigger] self.background_attention@[k]).wf(),
                forall|k: int| 0 <= k < self.background_attention@.len() ==> exists|j: int| 0 <= j < i && target_key(#[trigger] self.background_attention@[k].target) == target_key(s[j].target),
                distinct_targets(self.background_attention@),
            decreases s.len() - i,
        {
            let mut a = old_bg[i].duplicate();
            a.update(dt_ms, now);
            assert(s.subrange(0, i + 1).drop_last() =~= s.subrange(0, i as int));
            if a.intensity >= BACKGROUND_FLOOR {
                let ghost before = self.background_attention@;
                self.background_attention.push(a);
                proof {
                    assert forall|x: int, y: int|
                        0 <= x < self.background_attention@.len() && 0 <= y < self.background_attention@.len() && x != y
                        implies target_key(self.background_attention@[x].target) != target_key(self.background_attention@[y].target) by {
                        if x < before.len() && y < before.len() {
                        } else if x == before.len() {
                            let j = choose|j: int| 0 <= j < i && target_key(before[y].target) == target_key(s[j].target);
                        } else {
                            let j = choose|j: int| 0 <= j < i && target_key(before[x].target) == target_key(s[j].target);
                        }
                    }
                    assert forall|k: int| 0 <= k < self.background_attention@.len() implies exists|j: int| 0 <= j < i + 1 && target_key(#[trigger] self.background_attention@[k].target) == target_key(s[j].target) by {
                        if k < before.len() {
                            let j = choose|j: int| 0 <= j < i && target_key(before[k].target) == target_key(s[j].target);
                        } else {
                            assert(target_key(self.background_attention@[k].target) == target_key(s[i as int].target));
                        }
                    }
                }
            }
            i = i + 1;
        }
        assert(s.subrange(0, i as int) =~= s);
        proof {
            lemma_advanced_all_len(s, dt_ms, now, BACKGROUND_FLOOR);
        }
    }

    /// The primary focus, if any.
    pub fn get_primary_focus(&self) -> (r: Option<&AttentionState>)
        ensures
            match self@.primary {
                Some(p) => r == Some(&p),
                None => r.is_none(),
            },
    {
        match &self.primary_focus {
            Some(p) => Some(p),
            None => None,
        }
    }

    /// The background targets.
    pub fn get_background_attention(&self) -> (r: &Vec<AttentionState>)
        ensures
            r@ == self@.background,
    {
        &self.background_attention
    }

    /// The recorded attention shifts: time, target and intensity, oldest first.
    pub fn history(&self) -> (r: &Vec<(i64, AttentionTarget, i64)>)
        ensures
            r@ == self@.history,
    {
        &self.attention_history
    }
}

proof fn lemma_advanced_all_len(s: Seq<AttentionState>, dt_ms: i64, now: i64, floor: i64)
    ensures
        advanced_all(s, dt_ms, now, floor).len() <= s.len(),
    decreases s.len(),
{
    if s.len() > 0 {
        lemma_advanced_all_len(s.drop_last(), dt_ms, now, floor);
    }
}

/// The state `focus_on(t, sal, sal)` creates at `now`.
pub open spec fn fresh_state(t: AttentionTarget, sal: i64, now: i64) -> AttentionState {
    AttentionState {
        target: t,
        intensity: unit_clamp(sal as int) as i64,
        duration_ms: 0,
        stability: (UNIT / 2) as i64,
        salience: unit_clamp(sal as int) as i64,
        last_updated: now,
    }
}

/// The attention system after weighing `stimuli` in order: with a focus, the
/// first stimulus of salience above the distraction threshold and above the
/// focus's intensity plus stability takes over and ends the weighing; without
/// one, any stimulus above the focus threshold takes the focus.
pub open spec fn shifted(v: AttentionView, stimuli: Seq<(AttentionTarget, i64)>, now: i64) -> AttentionView
    decreases stimuli.len(),
{
    if stimuli.len() == 0 {
        v
    } else {
        let t = stimuli[0].0;
        let sal = stimuli[0].1;
        match v.primary {
            Some(c) => if sal > DISTRACTION_THRESHOLD && sal > c.intensity + c.stability {
                v.focused(fresh_state(t, sal, now), now)
            } else {
                shifted(v, stimuli.drop_first(), now)
            },
            None => if sal > FOCUS_THRESHOLD {
                shifted(v.focused(fresh_state(t, sal, now), now), stimuli.drop_first(), now)
            } else {
                shifted(v, stimuli.drop_first(), now)
            },
        }
    }
}

/// How strongly attention is held, by intensity of the focus.
pub open spec fn intensity_words(intensity: i64) -> Seq<char> {
    if intensity > 800_000 {
        "deeply concentrated on"@
    } else if intensity > 600_000 {
        "focused on"@
    } else {
        "paying attention to"@
    }
}

/// What the focus rests on, in words.
pub open spec fn focus_words(t: AttentionTarget) -> Seq<char> {
    match t {
        AttentionTarget::UserEmotion => "how you're feeling"@,
        AttentionTarget::ConversationTopic(topic) => "our discussion about "@ + topic@,
        AttentionTarget::SelfGoals => "my personal goals"@,
        AttentionTarget::ProblemSolving => "solving the current problem"@,
        AttentionTarget::CreativeThinking => "exploring creative possibilities"@,
        AttentionTarget::Learning => "learning and understanding"@,
        _ => "the current focus of our interaction"@,
    }
}

/// A first-person description of the attention state.
pub open spec fn attention_description(v: AttentionView) -> Seq<char> {
    match v.primary {
        Some(f) => "I'm "@ + intensity_words(f.intensity) + " "@ + focus_words(f.target),
        None => "My attention feels scattered right now"@,
    }
}

impl AttentionSystem {
    /// Weighs competing stimuli, each a target with its salience in
    /// millionths, and shifts the focus as they warrant.
    pub fn evaluate_attention_shift(&mut self, stimuli: Vec<(AttentionTarget, i64)>, now: i64)
        requires
            old(self)@.inv(),
        ensures
            final(self)@.inv(),
            final(self)@ == shifted(old(self)@, stimuli@, now),
    {
        let ghost all = stimuli@;
        let n = stimuli.len();
        let mut i: usize = 0;
        assert(all.subrange(0, n as int) =~= all);
        while i < n
            invariant
                self@.inv(),
                n == all.len(),
                stimuli@ == all,
                0 <= i <= n,
                shifted(old(self)@, all, now) == shifted(self@, all.subrange(i as int, n as int), now),
            decreases n - i,
        {
            let t = stimuli[i].0.duplicate();
            let sal = stimuli[i].1;
            let ghost tail = all.subrange(i as int, n as int);
            assert(tail[0] == all[i as int]);
            assert(tail.drop_first() =~= all.subrange(i + 1, n as int));
            match &self.primary_focus {
                Some(c) => {
                    if sal > DISTRACTION_THRESHOLD && sal as i128 > c.intensity as i128 + c.stability as i128 {
                        self.focus_on(t, sal, sal, now);
                        return;
                    }
                },
                None => {
                    if sal > FOCUS_THRESHOLD {
                        self.focus_on(t, sal, sal, now);
                    }
                },
            }
            i = i + 1;
        }
        assert(all.subrange(i as int, n as int).len() == 0);
    }

    /// Describes the attention state in the first person.
    pub fn describe_attention_state(&self) -> (r: String)
        ensures
            r@ == attention_description(self@),
    {
        match &self.primary_focus {
            Some(f) => {
                let how = if f.intensity > 800_000 {
                    "deeply concentrated on"
                } else if f.intensity > 600_000 {
                    "focused on"
                } else {
                    "paying attention to"
                };
                let what: String = match &f.target {
                    AttentionTarget::UserEmotion => "how you're feeling".to_owned(),
                    AttentionTarget::ConversationTopic(topic) => concat("our discussion about ", topic.as_str()),
                    AttentionTarget::SelfGoals => "my personal goals".to_owned(),
                    AttentionTarget::ProblemSolving => "solving the current problem".to_owned(),
                    AttentionTarget::CreativeThinking => "exploring creative possibilities".to_owned(),
                    AttentionTarget::Learning => "learning and understanding".to_owned(),
                    _ => "the current focus of our interaction".to_owned(),
                };
                let a = concat("I'm ", how);
                let b = concat(a.as_str(), " ");
                concat(b.as_str(), what.as_str())
            },
            None => "My attention feels scattered right now".to_owned(),
        }
    }
}

/// The response modifier the primary focus suggests, if any.
pub open spec fn focus_modifier(t: AttentionTarget) -> Seq<Seq<char>> {
    match t {
        AttentionTarget::UserEmotion => seq!["Pay special attention to the user's emotional state"@],
        AttentionTarget::ConversationTopic(topic) => seq!["Keep focus on the topic of '"@ + topic@ + "'"@],
        AttentionTarget::SelfGoals => seq!["Consider how this relates to my current goals"@],
        AttentionTarget::ProblemSolving => seq!["Approach this analytically and systematically"@],
        AttentionTarget::CreativeThinking => seq!["Think creatively and explore unconventional ideas"@],
        AttentionTarget::Learning => seq!["Focus on understanding and acquiring new knowledge"@],
        _ => Seq::empty(),
    }
}

/// The response modifier a background state suggests, if any.
pub open spec fn background_modifier(a: AttentionState) -> Seq<Seq<char>> {
    if a.intensity > RETAIN_DISPLACED {
        match a.target {
            AttentionTarget::SocialDynamics => seq!["Be aware of social context and relationships"@],
            AttentionTarget::SelfEmotion => seq!["Stay aware of my emotional state"@],
            _ => Seq::empty(),
        }
    } else {
        Seq::empty()
    }
}

/// The modifiers of the background states, in order.
pub open spec fn background_modifiers(s: Seq<AttentionState>) -> Seq<Seq<char>>
    decreases s.len(),
{
    if s.len() == 0 {
        Seq::empty()
    } else {
        background_modifiers(s.drop_last()) + background_modifier(s.last())
    }
}

/// The response modifiers an attention state suggests.
pub open spec fn modifiers(v: AttentionView) -> Seq<Seq<char>> {
    let head = match v.primary {
        Some(p) => focus_modifier(p.target),
        None => Seq::empty(),
    };
    head + background_modifiers(v.background)
}

/// Observations on an attention state.
pub open spec fn attention_insights(v: AttentionView) -> Seq<Seq<char>> {
    let focus_part = match v.primary {
        Some(f) => {
            let long = if f.duration_ms > 600_000 {
                seq!["I've been deeply focused on "@ + focus_words(f.target) + " for "@ + decimal((f.duration_ms / 60_000) as nat) + " minutes"@]
            } else {
                Seq::empty()
            };
            let steady = if f.stability > 800_000 {
                seq!["My attention feels very stable and concentrated"@]
            } else if f.stability < 300_000 {
                seq!["I'm finding it hard to maintain focus"@]
            } else {
                Seq::empty()
            };
            long + steady
        },
        None => seq!["My attention feels unfocused right now"@],
    };
    let breadth = if v.background.len() > 3 {
        seq!["I'm maintaining awareness of multiple things simultaneously"@]
    } else {
        Seq::empty()
    };
    let shifts = if v.history.len() > 5 {
        seq!["I've shifted attention "@ + decimal((v.history.len() - 5) as nat) + " times recently"@]
    } else {
        Seq::empty()
    };
    focus_part + breadth + shifts
}

fn focus_words_of(t: &AttentionTarget) -> (r: String)
    ensures
        r@ == focus_words(*t),
{
    match t {
        AttentionTarget::UserEmotion => "how you're feeling".to_owned(),
        AttentionTarget::ConversationTopic(topic) => concat("our discussion about ", topic.as_str()),
        AttentionTarget::SelfGoals => "my personal goals".to_owned(),
        AttentionTarget::ProblemSolving => "solving the current problem".to_owned(),
        AttentionTarget::CreativeThinking => "exploring creative possibilities".to_owned(),
        AttentionTarget::Learning => "learning and understanding".to_owned(),
        _ => "the current focus of our interaction".to_owned(),
    }
}

impl AttentionSystem {
    /// How a response should be shaped by what holds attention.
    pub fn generate_attention_modifiers(&self) -> (r: Vec<String>)
        ensures
            texts(r@) == modifiers(self@),
    {
        let mut out: Vec<String> = Vec::new();
        match &self.primary_focus {
            Some(f) => match &f.target {
                AttentionTarget::UserEmotion => push_text(&mut out, "Pay special attention to the user's emotional state".to_owned()),
                AttentionTarget::ConversationTopic(topic) => {
                    let h = concat("Keep focus on the topic of '", topic.as_str());
                    push_text(&mut out, concat(h.as_str(), "'"));
                },
                AttentionTarget::SelfGoals => push_text(&mut out, "Consider how this relates to my current goals".to_owned()),
                AttentionTarget::ProblemSolving => push_text(&mut out, "Approach this analytically and systematically".to_owned()),
                AttentionTarget::CreativeThinking => push_text(&mut out, "Think creatively and explore unconventional ideas".to_owned()),
                AttentionTarget::Learning => push_text(&mut out, "Focus on understanding and acquiring new knowledge".to_owned()),
                _ => {},
            },
            None => {},
        }
        let ghost head = texts(out@);
        assert(head == match self@.primary {
            Some(p) => focus_modifier(p.target),
            None => Seq::<Seq<char>>::empty(),
        }) by {
            assert(head =~= match self@.primary {
                Some(p) => focus_modifier(p.target),
                None => Seq::<Seq<char>>::empty(),
            });
        }
        let bg = &self.background_attention;
        let mut i: usize = 0;
        while i < bg.len()
            invariant
                i <= bg@.len(),
                texts(out@) == head + background_modifiers(bg@.subrange(0, i as int)),
            decreases bg@.len() - i,
        {
            let ghost before = texts(out@);
            assert(bg@.subrange(0, i + 1).drop_last() =~= bg@.subrange(0, i as int));
            assert(bg@.subrange(0, i + 1).last() == bg@[i as int]);
            let a = &bg[i];
            if a.intensity > RETAIN_DISPLACED {
                match &a.target {
                    AttentionTarget::SocialDynamics => push_text(&mut out, "Be aware of social context and relationships".to_owned()),
                    AttentionTarget::SelfEmotion => push_text(&mut out, "Stay aware of my emotional state".to_owned()),
                    _ => {},
                }
            }
            assert(texts(out@) =~= before + background_modifier(bg@[i as int]));
            i = i + 1;
        }
        assert(bg@.subrange(0, i as int) =~= bg@);
        out
    }

    /// Observations on how attention has behaved.
    pub fn analyze_attention_patterns(&self) -> (r: Vec<String>)
        requires
            self@.inv(),
        ensures
            texts(r@) == attention_insights(self@),
    {
        let mut out: Vec<String> = Vec::new();
        match &self.primary_focus {
            Some(f) => {
                if f.duration_ms > 600_000 {
                    let w = focus_words_of(&f.target);
                    let m = decimal_string((f.duration_ms / 60_000) as u64);
                    let t1 = concat("I've been deeply focused on ", w.as_str());
                    let t2 = concat(t1.as_str(), " for ");
                    let t3 = concat(t2.as_str(), m.as_str());
                    push_text(&mut out, concat(t3.as_str(), " minutes"));
                }
                if f.stability > 800_000 {
                    push_text(&mut out, "My attention feels very stable and concentrated".to_owned());
                } else if f.stability < 300_000 {
                    push_text(&mut out, "I'm finding it hard to maintain focus".to_owned());
                }
            },
            None => push_text(&mut out, "My attention feels unfocused right now".to_owned()),
        }
        if self.background_attention.len() > 3 {
            push_text(&mut out, "I'm maintaining awareness of multiple things simultaneously".to_owned());
        }
        if self.attention_history.len() > 5 {
            let n = decimal_string((self.attention_history.len() - 5) as u64);
            let t1 = concat("I've shifted attention ", n.as_str());
            push_text(&mut out, concat(t1.as_str(), " times recently"));
        }
        assert(texts(out@) =~= attention_insights(self@));
        out
    }
}

/// Targets worth attending to in a lowercase context, with their salience:
/// problems, feelings, learning and creativity when mentioned, and always a
/// little self-awareness.
pub open spec fn suggestions_for(lowered: Seq<char>) -> Seq<(AttentionTarget, i64)> {
    let p = if contains_chars(lowered, "problem"@) || contains_chars(lowered, "issue"@) {
        seq![(AttentionTarget::ProblemSolving, 800_000i64)]
    } else {
        Seq::empty()
    };
    let f = if contains_chars(lowered, "feel"@) || contains_chars(lowered, "emotion"@) {
        seq![(AttentionTarget::UserEmotion, 700_000i64)]
    } else {
        Seq::empty()
    };
    let l = if contains_chars(lowered, "learn"@) || contains_chars(lowered, "understand"@) {
        seq![(AttentionTarget::Learning, 600_000i64)]
    } else {
        Seq::empty()
    };
    let c = if contains_chars(lowered, "creative"@) || contains_chars(lowered, "idea"@) {
        seq![(AttentionTarget::CreativeThinking, 700_000i64)]
    } else {
        Seq::empty()
    };
    p + f + l + c + seq![(AttentionTarget::SelfEmotion, 400_000i64)]
}

/// Targets worth attending to in an already lowercase context.
pub fn suggest_targets_in(lowered: &str) -> (r: Vec<(AttentionTarget, i64)>)
    ensures
        r@ == suggestions_for(lowered@),
{
    let mut out: Vec<(AttentionTarget, i64)> = Vec::new();
    if str_contains(lowered, "problem") || str_contains(lowered, "issue") {
        out.push((AttentionTarget::ProblemSolving, 800_000));
    }
    let ghost a = out@;
    if str_contains(lowered, "feel") || str_contains(lowered, "emotion") {
        out.push((AttentionTarget::UserEmotion, 700_000));
    }
    let ghost b = out@;
    if str_contains(lowered, "learn") || str_contains(lowered, "understand") {
        out.push((AttentionTarget::Learning, 600_000));
    }
    let ghost c = out@;
    if str_contains(lowered, "creative") || str_contains(lowered, "idea") {
        out.push((AttentionTarget::CreativeThinking, 700_000));
    }
    out.push((AttentionTarget::SelfEmotion, 400_000));
    assert(out@ =~= suggestions_for(lowered@));
    out
}

impl AttentionSystem {
    /// Targets worth attending to in `context`, matched without regard to case.
    pub fn suggest_attention_targets(&self, context: &str) -> (r: Vec<(AttentionTarget, i64)>)
        ensures
            r@ == suggestions_for(lower_of(context@)),
    {
        let lowered = lowercase(context);
        suggest_targets_in(lowered.as_str())
    }
}

proof fn lemma_weakest_exists(s: Seq<AttentionState>)
    requires
        s.len() > 0,
    ensures
        exists|i: int| is_weakest(s, i),
    decreases s.len(),
{
    if s.len() == 1 {
        assert(is_weakest(s, 0));
    } else {
        let init = s.drop_last();
        lemma_weakest_exists(init);
        let k = choose|i: int| is_weakest(init, i);
        assert forall|j: int| 0 <= j < init.len() implies s[j] == init[j] by {}
        if s.last().intensity < init[k].intensity {
            assert forall|j: int| 0 <= j < s.len() - 1 implies s[s.len() - 1].intensity < (#[trigger] s[j]).intensity by {
                assert(s[j] == init[j]);
            }
            assert(is_weakest(s, s.len() - 1));
        } else {
            assert forall|j: int| 0 <= j < s.len() implies s[k].intensity <= s[j].intensity by {
                if j < s.len() - 1 {
                    assert(s[j] == init[j]);
                }
            }
            assert forall|j: int| 0 <= j < k implies s[k].intensity < s[j].intensity by {
                assert(s[j] == init[j]);
            }
            assert(is_weakest(s, k));
        }
    }
}

/// With the background full, directing attention below the focus threshold
/// to a new target leaves the background at the cap: of the old targets and
/// the new one, exactly the first of least intensity is dropped.
pub proof fn lemma_full_background_evicts_weakest(v: AttentionView, a: AttentionState, now: i64)
    requires
        v.inv(),
        v.background.len() == v.max_background,
        a.intensity < FOCUS_THRESHOLD,
        forall|j: int|
            0 <= j < v.background.len() ==> target_key(v.background[j].target) != target_key(
                a.target,
            ),
    ensures
        exists|k: int|
            is_weakest(v.background.push(a), k) && v.focused(a, now).background
                == v.background.push(a).remove(k),
        v.focused(a, now).background.len() == v.max_background,
        v.focused(a, now).primary == v.primary,
{
    let s = v.background.push(a);
    assert(upsert(v.background, a) == s);
    lemma_weakest_exists(s);
}

/// With the background full, directing attention below the focus threshold
/// to a new target that is stronger than some existing one evicts exactly
/// the first existing target of least intensity and keeps the new one.
pub proof fn lemma_new_target_evicts_weakest_existing(v: AttentionView, a: AttentionState, now: i64)
    requires
        v.inv(),
        v.background.len() == v.max_background,
        a.intensity < FOCUS_THRESHOLD,
        forall|j: int|
            0 <= j < v.background.len() ==> target_key(v.background[j].target) != target_key(
                a.target,
            ),
        exists|j: int| 0 <= j < v.background.len() && v.background[j].intensity < a.intensity,
    ensures
        exists|k: int|
            is_weakest(v.background, k) && v.focused(a, now).background == v.background.remove(
                k,
            ).push(a),
{
    lemma_full_background_evicts_weakest(v, a, now);
    let s = v.background.push(a);
    let k = choose|k: int| is_weakest(s, k) && v.focused(a, now).background == s.remove(k);
    let j = choose|j: int| 0 <= j < v.background.len() && v.background[j].intensity < a.intensity;
    assert(s[j] == v.background[j]);
    assert(k != v.background.len()) by {
        if k == v.background.len() {
            assert(s[k] == a);
        }
    }
    assert forall|i: int| 0 <= i < v.background.len() implies v.background[k].intensity
        <= v.background[i].intensity by {
        assert(s[i] == v.background[i]);
        assert(s[k] == v.background[k]);
    }
    assert forall|i: int| 0 <= i < k implies v.background[k].intensity
        < v.background[i].intensity by {
        assert(s[i] == v.background[i]);
        assert(s[k] == v.background[k]);
    }
    assert(is_weakest(v.background, k));
    assert(s.remove(k) =~= v.background.remove(k).push(a));
}

} // verus!
