//! Metacognitive state: bounded scalars moved by recorded cognitive
//! processes, a bounded event history, and reflection triggers with cooldowns.

use vstd::prelude::*;
use crate::clock::{MINUTE_MS, HOUR_MS, DAY_MS};
use crate::affect::clamp;
use vstd::string::StrSliceExecFns;
use crate::text::{
    concat, decimal, decimal_string, hundredths, hundredths_text, percent, percent_text, push_text,
    texts,
};

verus! {

/// A cognitive process the monitor records; scalar payloads in thousandths.
#[derive(Debug, Clone)]
pub enum CognitiveProcess {
    EmotionalProcessing { trigger: String, outcome: String },
    MemoryRetrieval { query: String, success: bool },
    GoalFormation { goal: String, priority: i64 },
    SelfReflection { insight: String, confidence: i64 },
    AttentionShift { from: String, to: String, reason: String },
    PredictiveThinking { prediction: String, confidence: i64 },
    ValueConflict { conflict: String, resolution: String },
    ErrorRecovery { error_type: String, strategy: String },
    CreativeThinking { concept: String, originality: i64 },
    SocialInteraction { context: String, empathy_level: i64 },
}

/// `x` limited to `[0, 1000]`.
pub open spec fn unit(x: i64) -> int {
    clamp(x as int, 0, 1000)
}

/// Cognitive load a process adds, in thousandths.
pub open spec fn load_impact(p: CognitiveProcess) -> int {
    match p {
        CognitiveProcess::ValueConflict { .. } => 300,
        CognitiveProcess::ErrorRecovery { .. } => 200,
        CognitiveProcess::SelfReflection { .. } => 150,
        CognitiveProcess::CreativeThinking { .. } => 100,
        CognitiveProcess::PredictiveThinking { .. } => 100,
        CognitiveProcess::GoalFormation { .. } => 80,
        CognitiveProcess::AttentionShift { .. } => 50,
        CognitiveProcess::EmotionalProcessing { .. } => 50,
        CognitiveProcess::SocialInteraction { .. } => 30,
        CognitiveProcess::MemoryRetrieval { .. } => 20,
    }
}

/// Self-awareness a process adds, in thousandths.
pub open spec fn awareness_gain(p: CognitiveProcess) -> int {
    match p {
        CognitiveProcess::SelfReflection { confidence, .. } => unit(confidence) / 10,
        CognitiveProcess::ValueConflict { .. } => 50,
        CognitiveProcess::CreativeThinking { originality, .. } => unit(originality) * 3 / 100,
        CognitiveProcess::ErrorRecovery { .. } => 20,
        _ => 10,
    }
}

/// Whether a process by itself calls for reflection.
pub open spec fn calls_for_reflection(p: CognitiveProcess) -> bool {
    match p {
        CognitiveProcess::ValueConflict { .. } => true,
        CognitiveProcess::SelfReflection { confidence, .. } => confidence > 800,
        CognitiveProcess::ErrorRecovery { .. } => true,
        CognitiveProcess::CreativeThinking { originality, .. } => originality > 700,
        _ => false,
    }
}

/// The variant of a process, numbered in declaration order.
pub open spec fn process_kind(p: CognitiveProcess) -> int {
    match p {
        CognitiveProcess::EmotionalProcessing { .. } => 0,
        CognitiveProcess::MemoryRetrieval { .. } => 1,
        CognitiveProcess::GoalFormation { .. } => 2,
        CognitiveProcess::SelfReflection { .. } => 3,
        CognitiveProcess::AttentionShift { .. } => 4,
        CognitiveProcess::PredictiveThinking { .. } => 5,
        CognitiveProcess::ValueConflict { .. } => 6,
        CognitiveProcess::ErrorRecovery { .. } => 7,
        CognitiveProcess::CreativeThinking { .. } => 8,
        CognitiveProcess::SocialInteraction { .. } => 9,
    }
}

/// Number of kinds of process.
pub const PROCESS_KINDS: usize = 10;

fn unit_of(x: i64) -> (r: i64)
    ensures
        r == unit(x),
{
    if x < 0 {
        0
    } else if x > 1000 {
        1000
    } else {
        x
    }
}

impl CognitiveProcess {
    /// Cognitive load this process adds, in thousandths.
    pub fn cognitive_load_impact(&self) -> (r: i64)
        ensures
            r == load_impact(*self),
    {
        match self {
            CognitiveProcess::ValueConflict { .. } => 300,
            CognitiveProcess::ErrorRecovery { .. } => 200,
            CognitiveProcess::SelfReflection { .. } => 150,
            CognitiveProcess::CreativeThinking { .. } => 100,
            CognitiveProcess::PredictiveThinking { .. } => 100,
            CognitiveProcess::GoalFormation { .. } => 80,
            CognitiveProcess::AttentionShift { .. } => 50,
            CognitiveProcess::EmotionalProcessing { .. } => 50,
            CognitiveProcess::SocialInteraction { .. } => 30,
            CognitiveProcess::MemoryRetrieval { .. } => 20,
        }
    }

    /// Self-awareness this process adds, in thousandths.
    pub fn awareness_boost(&self) -> (r: i64)
        ensures
            r == awareness_gain(*self),
            0 <= r <= 100,
    {
        match self {
            CognitiveProcess::SelfReflection { confidence, .. } => unit_of(*confidence) / 10,
            CognitiveProcess::ValueConflict { .. } => 50,
            CognitiveProcess::CreativeThinking { originality, .. } => unit_of(*originality) * 3
                / 100,
            CognitiveProcess::ErrorRecovery { .. } => 20,
            _ => 10,
        }
    }

    /// Whether this process by itself calls for reflection.
    pub fn triggers_reflection(&self) -> (r: bool)
        ensures
            r == calls_for_reflection(*self),
    {
        match self {
            CognitiveProcess::ValueConflict { .. } => true,
            CognitiveProcess::SelfReflection { confidence, .. } => *confidence > 800,
            CognitiveProcess::ErrorRecovery { .. } => true,
            CognitiveProcess::CreativeThinking { originality, .. } => *originality > 700,
            _ => false,
        }
    }

    /// The variant of this process, numbered in declaration order.
    pub fn kind(&self) -> (r: usize)
        ensures
            r == process_kind(*self),
            r < PROCESS_KINDS,
    {
        match self {
            CognitiveProcess::EmotionalProcessing { .. } => 0,
            CognitiveProcess::MemoryRetrieval { .. } => 1,
            CognitiveProcess::GoalFormation { .. } => 2,
            CognitiveProcess::SelfReflection { .. } => 3,
            CognitiveProcess::AttentionShift { .. } => 4,
            CognitiveProcess::PredictiveThinking { .. } => 5,
            CognitiveProcess::ValueConflict { .. } => 6,
            CognitiveProcess::ErrorRecovery { .. } => 7,
            CognitiveProcess::CreativeThinking { .. } => 8,
            CognitiveProcess::SocialInteraction { .. } => 9,
        }
    }

    /// The name under which patterns of this kind of process are tracked.
    pub fn pattern_key(&self) -> (r: &'static str)
        ensures
            r@ == pattern_name(process_kind(*self)),
    {
        match self {
            CognitiveProcess::EmotionalProcessing { .. } => "emotional_processing",
            CognitiveProcess::MemoryRetrieval { .. } => "memory_retrieval",
            CognitiveProcess::GoalFormation { .. } => "goal_formation",
            CognitiveProcess::SelfReflection { .. } => "self_reflection",
            CognitiveProcess::AttentionShift { .. } => "attention_shift",
            CognitiveProcess::PredictiveThinking { .. } => "predictive_thinking",
            CognitiveProcess::ValueConflict { .. } => "value_conflict",
            CognitiveProcess::ErrorRecovery { .. } => "error_recovery",
            CognitiveProcess::CreativeThinking { .. } => "creative_thinking",
            CognitiveProcess::SocialInteraction { .. } => "social_interaction",
        }
    }
}

/// The pattern name of each kind of process.
pub open spec fn pattern_name(kind: int) -> Seq<char> {
    if kind == 0 {
        "emotional_processing"@
    } else if kind == 1 {
        "memory_retrieval"@
    } else if kind == 2 {
        "goal_formation"@
    } else if kind == 3 {
        "self_reflection"@
    } else if kind == 4 {
        "attention_shift"@
    } else if kind == 5 {
        "predictive_thinking"@
    } else if kind == 6 {
        "value_conflict"@
    } else if kind == 7 {
        "error_recovery"@
    } else if kind == 8 {
        "creative_thinking"@
    } else {
        "social_interaction"@
    }
}

/// Self-awareness and related scalars, in thousandths.
#[derive(Debug, Clone, Copy, PartialEq, Eq)]
pub struct MetacognitiveState {
    pub self_awareness_level: i64,
    pub reasoning_confidence: i64,
    pub cognitive_load: i64,
    pub situation_understanding: i64,
    pub attention_intensity: i64,
    pub introspection_depth: i64,
    pub meta_reasoning_strength: i64,
}

/// Clamps each scalar to `[0, 1000]`.
pub open spec fn clamped_state(s: MetacognitiveState) -> MetacognitiveState {
    MetacognitiveState {
        self_awareness_level: unit(s.self_awareness_level) as i64,
        reasoning_confidence: unit(s.reasoning_confidence) as i64,
        cognitive_load: unit(s.cognitive_load) as i64,
        situation_understanding: unit(s.situation_understanding) as i64,
        attention_intensity: unit(s.attention_intensity) as i64,
        introspection_depth: unit(s.introspection_depth) as i64,
        meta_reasoning_strength: unit(s.meta_reasoning_strength) as i64,
    }
}

/// The state after a process, before clamping.
pub open spec fn raw_effect(s: MetacognitiveState, p: CognitiveProcess) -> MetacognitiveState {
    let base = MetacognitiveState {
        cognitive_load: (s.cognitive_load + load_impact(p)) as i64,
        self_awareness_level: (s.self_awareness_level + awareness_gain(p)) as i64,
        ..s
    };
    match p {
        CognitiveProcess::SelfReflection { confidence, .. } => MetacognitiveState {
            reasoning_confidence: ((base.reasoning_confidence + unit(confidence)) / 2) as i64,
            introspection_depth: (base.introspection_depth + 50) as i64,
            meta_reasoning_strength: (base.meta_reasoning_strength + 30) as i64,
            ..base
        },
        CognitiveProcess::AttentionShift { .. } => MetacognitiveState {
            attention_intensity: (base.attention_intensity + 50) as i64,
            ..base
        },
        CognitiveProcess::ValueConflict { .. } => MetacognitiveState {
            reasoning_confidence: (base.reasoning_confidence - 100) as i64,
            cognitive_load: (base.cognitive_load + 200) as i64,
            introspection_depth: (base.introspection_depth + 100) as i64,
            ..base
        },
        CognitiveProcess::ErrorRecovery { .. } => MetacognitiveState {
            reasoning_confidence: (base.reasoning_confidence - 50) as i64,
            meta_reasoning_strength: (base.meta_reasoning_strength + 50) as i64,
            ..base
        },
        CognitiveProcess::CreativeThinking { originality, .. } => MetacognitiveState {
            cognitive_load: (base.cognitive_load + unit(originality) / 10) as i64,
            self_awareness_level: (base.self_awareness_level + unit(originality) * 2 / 100) as i64,
            ..base
        },
        CognitiveProcess::SocialInteraction { empathy_level, .. } => MetacognitiveState {
            situation_understanding: (base.situation_understanding + unit(empathy_level) * 3 / 100)
                as i64,
            ..base
        },
        _ => base,
    }
}

/// The state after the meta-reasoning step: meta-reasoning grows with the
/// number of recent self-reflections (up to ten), introspection with high
/// self-awareness; then every scalar is clamped.
pub open spec fn meta_reasoning_step(s: MetacognitiveState, reflections: nat) -> MetacognitiveState {
    let m = if reflections > 10 {
        10
    } else {
        reflections as int
    };
    clamped_state(
        MetacognitiveState {
            meta_reasoning_strength: (s.meta_reasoning_strength + m) as i64,
            introspection_depth: if s.self_awareness_level > 700 {
                (s.introspection_depth + 5) as i64
            } else {
                s.introspection_depth
            },
            ..s
        },
    )
}

/// The state after slow decay.
pub open spec fn decayed_state(s: MetacognitiveState) -> MetacognitiveState {
    MetacognitiveState {
        cognitive_load: (s.cognitive_load * 950 / 1000) as i64,
        attention_intensity: (s.attention_intensity * 980 / 1000) as i64,
        self_awareness_level: (s.self_awareness_level * 990 / 1000) as i64,
        reasoning_confidence: (s.reasoning_confidence * 990 / 1000) as i64,
        introspection_depth: (s.introspection_depth * 995 / 1000) as i64,
        meta_reasoning_strength: (s.meta_reasoning_strength * 998 / 1000) as i64,
        ..s
    }
}

impl MetacognitiveState {
    /// Every scalar lies in `[0, 1000]`.
    pub open spec fn wf(self) -> bool {
        &&& 0 <= self.self_awareness_level <= 1000
        &&& 0 <= self.reasoning_confidence <= 1000
        &&& 0 <= self.cognitive_load <= 1000
        &&& 0 <= self.situation_understanding <= 1000
        &&& 0 <= self.attention_intensity <= 1000
        &&& 0 <= self.introspection_depth <= 1000
        &&& 0 <= self.meta_reasoning_strength <= 1000
    }

    /// Awareness 300, confidence 500, load 200, understanding 400, attention
    /// 500, introspection 300, meta-reasoning 400.
    pub fn initial() -> (r: MetacognitiveState)
        ensures
            r.wf(),
            r == (MetacognitiveState {
                self_awareness_level: 300,
                reasoning_confidence: 500,
                cognitive_load: 200,
                situation_understanding: 400,
                attention_intensity: 500,
                introspection_depth: 300,
                meta_reasoning_strength: 400,
            }),
    {
        MetacognitiveState {
            self_awareness_level: 300,
            reasoning_confidence: 500,
            cognitive_load: 200,
            situation_understanding: 400,
            attention_intensity: 500,
            introspection_depth: 300,
            meta_reasoning_strength: 400,
        }
    }
}

fn clamp_state(s: MetacognitiveState) -> (r: MetacognitiveState)
    ensures
        r == clamped_state(s),
        r.wf(),
{
    MetacognitiveState {
        self_awareness_level: unit_of(s.self_awareness_level),
        reasoning_confidence: unit_of(s.reasoning_confidence),
        cognitive_load: unit_of(s.cognitive_load),
        situation_understanding: unit_of(s.situation_understanding),
        attention_intensity: unit_of(s.attention_intensity),
        introspection_depth: unit_of(s.introspection_depth),
        meta_reasoning_strength: unit_of(s.meta_reasoning_strength),
    }
}

/// Whole minutes from `from` to `to`, truncated toward zero.
pub open spec fn minutes_between(from: i64, to: i64) -> int {
    let d = to - from;
    if d >= 0 {
        d / MINUTE_MS as int
    } else {
        -((-d) / MINUTE_MS as int)
    }
}

fn elapsed_minutes(from: i64, to: i64) -> (r: i64)
    ensures
        r == minutes_between(from, to),
{
    let d: i128 = to as i128 - from as i128;
    if d >= 0 {
        (d / (MINUTE_MS as i128)) as i64
    } else {
        (-((-d) / (MINUTE_MS as i128))) as i64
    }
}

/// A named condition that, at or above its threshold and outside its
/// cooldown, asks for reflection. Threshold and priority in thousandths.
#[derive(Debug, Clone)]
pub struct ReflectionTrigger {
    pub name: String,
    pub threshold: i64,
    pub description: String,
    pub priority: i64,
    pub cooldown_minutes: u64,
    pub last_triggered: Option<i64>,
}

/// Whether trigger `t` fires for `value` at `now`.
pub open spec fn fires(t: ReflectionTrigger, value: i64, now: i64) -> bool {
    value >= t.threshold && match t.last_triggered {
        Some(last) => minutes_between(last, now) >= t.cooldown_minutes,
        None => true,
    }
}

/// Minutes until trigger `t` may fire again at `now`.
pub open spec fn cooldown_left(t: ReflectionTrigger, now: i64) -> int {
    match t.last_triggered {
        Some(last) => {
            let e = if minutes_between(last, now) < 0 {
                0
            } else {
                minutes_between(last, now)
            };
            if e < t.cooldown_minutes {
                t.cooldown_minutes - e
            } else {
                0
            }
        },
        None => 0,
    }
}

impl ReflectionTrigger {
    /// A trigger that has never fired.
    pub fn new(
        name: &str,
        threshold: i64,
        description: &str,
        priority: i64,
        cooldown_minutes: u64,
    ) -> (r: ReflectionTrigger)
        ensures
            r.name@ == name@,
            r.threshold == threshold,
            r.description@ == description@,
            r.priority == priority,
            r.cooldown_minutes == cooldown_minutes,
            r.last_triggered.is_none(),
    {
        ReflectionTrigger {
            name: name.to_owned(),
            threshold,
            description: description.to_owned(),
            priority,
            cooldown_minutes,
            last_triggered: None,
        }
    }

    /// Whether this trigger fires for `value` at `now`: the value reaches the
    /// threshold and at least the cooldown has passed since it last fired.
    pub fn should_trigger(&self, value: i64, now: i64) -> (r: bool)
        ensures
            r == fires(*self, value, now),
    {
        if value < self.threshold {
            return false;
        }
        match self.last_triggered {
            Some(last) => {
                let e = elapsed_minutes(last, now);
                e >= 0 && e as u64 >= self.cooldown_minutes
            },
            None => true,
        }
    }

    /// Marks this trigger as fired at `now`; the time it last fired never
    /// moves backward.
    pub fn trigger(&mut self, now: i64)
        ensures
            final(self).last_triggered == Some(
                match old(self).last_triggered {
                    Some(last) => if last > now {
                        last
                    } else {
                        now
                    },
                    None => now,
                },
            ),
            final(self).name == old(self).name,
            final(self).threshold == old(self).threshold,
            final(self).description == old(self).description,
            final(self).priority == old(self).priority,
            final(self).cooldown_minutes == old(self).cooldown_minutes,
    {
        let t = match self.last_triggered {
            Some(last) => if last > now {
                last
            } else {
                now
            },
            None => now,
        };
        self.last_triggered = Some(t);
    }

    /// Minutes until this trigger may fire again at `now`.
    pub fn cooldown_remaining_minutes(&self, now: i64) -> (r: u64)
        ensures
            r == cooldown_left(*self, now),
    {
        match self.last_triggered {
            Some(last) => {
                let m = elapsed_minutes(last, now);
                let e: u64 = if m < 0 {
                    0
                } else {
                    m as u64
                };
                if e < self.cooldown_minutes {
                    self.cooldown_minutes - e
                } else {
                    0
                }
            },
            None => 0,
        }
    }

    fn duplicate(&self) -> (r: ReflectionTrigger)
        ensures
            r == *self,
    {
        ReflectionTrigger {
            name: self.name.clone(),
            threshold: self.threshold,
            description: self.description.clone(),
            priority: self.priority,
            cooldown_minutes: self.cooldown_minutes,
            last_triggered: self.last_triggered,
        }
    }
}

/// Number of occurrences a pattern holds; further ones go uncounted until
/// older ones expire.
pub const OCCURRENCE_CAPACITY: usize = 100_000;

/// Number of insights a pattern keeps before halving them.
pub const PATTERN_INSIGHT_CAPACITY: usize = 10;

/// How often one kind of process occurred in the last day. Frequency is in
/// thousandths of an occurrence per hour.
#[derive(Debug, Clone)]
pub struct CognitivePattern {
    pub pattern_type: String,
    pub frequency: i64,
    pub significance: i64,
    pub recent_occurrences: Vec<i64>,
    pub insights: Vec<String>,
}

/// The times in `s` later than `cutoff`, in order.
pub open spec fn later_than(s: Seq<i64>, cutoff: int) -> Seq<i64>
    decreases s.len(),
{
    if s.len() == 0 {
        s
    } else if s.last() > cutoff {
        later_than(s.drop_last(), cutoff).push(s.last())
    } else {
        later_than(s.drop_last(), cutoff)
    }
}

proof fn lemma_later_than_len(s: Seq<i64>, cutoff: int)
    ensures
        later_than(s, cutoff).len() <= s.len(),
    decreases s.len(),
{
    if s.len() > 0 {
        lemma_later_than_len(s.drop_last(), cutoff);
    }
}

fn keep_later_than(s: &Vec<i64>, cutoff: i128) -> (r: Vec<i64>)
    ensures
        r@ == later_than(s@, cutoff as int),
{
    let mut out: Vec<i64> = Vec::new();
    let mut i: usize = 0;
    while i < s.len()
        invariant
            i <= s@.len(),
            out@ == later_than(s@.subrange(0, i as int), cutoff as int),
        decreases s@.len() - i,
    {
        assert(s@.subrange(0, i + 1).drop_last() =~= s@.subrange(0, i as int));
        if s[i] as i128 > cutoff {
            out.push(s[i]);
        }
        i = i + 1;
    }
    assert(s@.subrange(0, i as int) =~= s@);
    out
}

impl CognitivePattern {
    /// Frequency and significance are not negative and stay small.
    pub open spec fn scalars_bounded(self) -> bool {
        &&& 0 <= self.frequency <= 5_000_000
        &&& 0 <= self.significance <= 40_000_000
    }

    /// A pattern with no occurrences.
    pub fn new(pattern_type: &str) -> (r: CognitivePattern)
        ensures
            r.pattern_type@ == pattern_type@,
            r.frequency == 0,
            r.significance == 0,
            r.recent_occurrences@.len() == 0,
            r.insights@.len() == 0,
    {
        CognitivePattern {
            pattern_type: pattern_type.to_owned(),
            frequency: 0,
            significance: 0,
            recent_occurrences: Vec::new(),
            insights: Vec::new(),
        }
    }

    /// Records an occurrence at `now`: occurrences older than a day are
    /// forgotten, frequency becomes the day's count per hour and significance
    /// weighs it 7 to 3 with the last hour's count; past ten insights the
    /// oldest five go.
    pub fn add_occurrence(&mut self, insight: Option<String>, now: i64)
        requires
            old(self).recent_occurrences@.len() <= OCCURRENCE_CAPACITY,
            old(self).insights@.len() <= PATTERN_INSIGHT_CAPACITY,
        ensures
            final(self).recent_occurrences@ == later_than(
                if old(self).recent_occurrences@.len() < OCCURRENCE_CAPACITY {
                    old(self).recent_occurrences@.push(now)
                } else {
                    old(self).recent_occurrences@
                },
                now - DAY_MS,
            ),
            final(self).recent_occurrences@.len() <= OCCURRENCE_CAPACITY,
            final(self).frequency == final(self).recent_occurrences@.len() * 1000 / 24,
            final(self).significance == (final(self).frequency * 7 + later_than(
                final(self).recent_occurrences@,
                now - HOUR_MS,
            ).len() * 3000) / 10,
            final(self).insights@.len() <= PATTERN_INSIGHT_CAPACITY,
            final(self).insights@ == ({
                let with_new = match insight {
                    Some(t) => old(self).insights@.push(t),
                    None => old(self).insights@,
                };
                if with_new.len() > PATTERN_INSIGHT_CAPACITY {
                    with_new.subrange(5, with_new.len() as int)
                } else {
                    with_new
                }
            }),
            final(self).pattern_type == old(self).pattern_type,
            final(self).scalars_bounded(),
    {
        if self.recent_occurrences.len() < OCCURRENCE_CAPACITY {
            self.recent_occurrences.push(now);
        }
        let kept = keep_later_than(&self.recent_occurrences, now as i128 - DAY_MS as i128);
        proof {
            lemma_later_than_len(self.recent_occurrences@, now - DAY_MS);
        }
        self.recent_occurrences = kept;
        let n = self.recent_occurrences.len() as i64;
        self.frequency = n * 1000 / 24;
        let last_hour = keep_later_than(&self.recent_occurrences, now as i128 - HOUR_MS as i128);
        proof {
            lemma_later_than_len(self.recent_occurrences@, now - HOUR_MS);
        }
        let recent = last_hour.len() as i64;
        proof {
            lemma_later_than_len(self.recent_occurrences@, now - HOUR_MS);
            assert(0 <= self.frequency <= 5_000_000);
            assert(0 <= recent <= 100_000);
        }
        self.significance = (self.frequency * 7 + recent * 3000) / 10;
        match insight {
            Some(text) => {
                self.insights.push(text);
            },
            None => {},
        }
        if self.insights.len() > PATTERN_INSIGHT_CAPACITY {
            let mut rest: Vec<String> = Vec::new();
            let mut i: usize = 5;
            while i < self.insights.len()
                invariant
                    5 <= i <= self.insights@.len(),
                    rest@ == self.insights@.subrange(5, i as int),
                decreases self.insights@.len() - i,
            {
                rest.push(self.insights[i].clone());
                i = i + 1;
                assert(rest@ =~= self.insights@.subrange(5, i as int));
            }
            self.insights = rest;
        }
    }
}

/// Number of processes kept in the history.
pub const HISTORY_CAPACITY: usize = 200;

/// Number of queued reflections kept.
pub const REFLECTION_QUEUE_CAPACITY: usize = 10;

/// Number of insights kept before the older half is dropped.
pub const INSIGHT_CAPACITY: usize = 50;

/// Number of reflection triggers.
pub const TRIGGER_COUNT: usize = 7;

/// The value trigger `i` is held against, or `None` when it does not apply to
/// process `p`: load, lack of confidence, a value conflict, self-awareness,
/// an error pattern, creativity and social complexity, in that order.
pub open spec fn trigger_input(i: int, s: MetacognitiveState, p: CognitiveProcess, error_frequency: i64) -> Option<i64> {
    if i == 0 {
        Some(s.cognitive_load)
    } else if i == 1 {
        Some((1000 - s.reasoning_confidence) as i64)
    } else if i == 2 {
        match p {
            CognitiveProcess::ValueConflict { .. } => Some(600),
            _ => None,
        }
    } else if i == 3 {
        Some(s.self_awareness_level)
    } else if i == 4 {
        match p {
            CognitiveProcess::ErrorRecovery { .. } => if error_frequency > 600 {
                Some(600)
            } else {
                None
            },
            _ => None,
        }
    } else if i == 5 {
        match p {
            CognitiveProcess::CreativeThinking { originality, .. } => Some(originality),
            _ => None,
        }
    } else {
        match p {
            CognitiveProcess::SocialInteraction { empathy_level, .. } => Some(empathy_level),
            _ => None,
        }
    }
}

/// Whether trigger `i` fires on process `p` in state `s` at `now`.
pub open spec fn trigger_fires(t: ReflectionTrigger, i: int, s: MetacognitiveState, p: CognitiveProcess, error_frequency: i64, now: i64) -> bool {
    match trigger_input(i, s, p, error_frequency) {
        Some(v) => fires(t, v, now),
        None => false,
    }
}

/// `q` with `x` appended, keeping the last ten.
pub open spec fn queued(q: Seq<Seq<char>>, x: Seq<char>) -> Seq<Seq<char>> {
    if q.push(x).len() > REFLECTION_QUEUE_CAPACITY {
        q.push(x).drop_first()
    } else {
        q.push(x)
    }
}

/// The reflection a fired trigger queues.
pub open spec fn trigger_reason(t: ReflectionTrigger) -> Seq<char> {
    "Trigger '"@ + t.name@ + "': "@ + t.description@
}

/// The reflection queue after the first `i` triggers are held against their
/// inputs at `now`, each one that fires queuing its reason.
pub open spec fn queue_after_triggers(
    q: Seq<Seq<char>>,
    ts: Seq<ReflectionTrigger>,
    input: Seq<Option<i64>>,
    now: i64,
    i: nat,
) -> Seq<Seq<char>>
    decreases i,
{
    if i == 0 {
        q
    } else {
        let prev = queue_after_triggers(q, ts, input, now, (i - 1) as nat);
        match input[i - 1] {
            Some(v) => if fires(ts[i - 1], v, now) {
                queued(prev, trigger_reason(ts[i - 1]))
            } else {
                prev
            },
            None => prev,
        }
    }
}

/// The inputs of all triggers for process `p` in state `s`.
pub open spec fn trigger_inputs_for(s: MetacognitiveState, p: CognitiveProcess, error_frequency: i64) -> Seq<Option<i64>> {
    Seq::new(TRIGGER_COUNT as nat, |i: int| trigger_input(i, s, p, error_frequency))
}

/// Records cognitive processes and decides when reflection is needed.
#[derive(Debug)]
pub struct MetacognitiveMonitor {
    state: MetacognitiveState,
    cognitive_history: Vec<(i64, CognitiveProcess)>,
    reflection_triggers: Vec<ReflectionTrigger>,
    cognitive_patterns: Vec<CognitivePattern>,
    reflection_queue: Vec<String>,
    metacognitive_insights: Vec<(i64, String)>,
}

impl MetacognitiveMonitor {
    /// Scalars in range, one pattern per kind of process and the fixed
    /// triggers, every list within its capacity.
    pub closed spec fn inv(self) -> bool {
        &&& self.state.wf()
        &&& self.cognitive_history@.len() <= HISTORY_CAPACITY
        &&& self.reflection_triggers@.len() == TRIGGER_COUNT
        &&& self.cognitive_patterns@.len() == PROCESS_KINDS
        &&& forall|k: int| 0 <= k < PROCESS_KINDS ==> (#[trigger] self.cognitive_patterns@[k]).recent_occurrences@.len() <= OCCURRENCE_CAPACITY
        &&& forall|k: int| 0 <= k < PROCESS_KINDS ==> (#[trigger] self.cognitive_patterns@[k]).insights@.len() <= PATTERN_INSIGHT_CAPACITY
        &&& forall|k: int| 0 <= k < PROCESS_KINDS ==> (#[trigger] self.cognitive_patterns@[k]).scalars_bounded()
        &&& self.reflection_queue@.len() <= REFLECTION_QUEUE_CAPACITY
        &&& self.metacognitive_insights@.len() <= INSIGHT_CAPACITY + TRIGGER_COUNT
    }

    /// The current scalars.
    pub closed spec fn state_spec(self) -> MetacognitiveState {
        self.state
    }

    /// The recorded processes with their times, oldest first.
    pub closed spec fn history_spec(self) -> Seq<(i64, CognitiveProcess)> {
        self.cognitive_history@
    }

    /// The reflection triggers.
    pub closed spec fn triggers_spec(self) -> Seq<ReflectionTrigger> {
        self.reflection_triggers@
    }

    /// The queued reflections, oldest first.
    pub closed spec fn queue_spec(self) -> Seq<String> {
        self.reflection_queue@
    }

    /// The tracked patterns, one per kind of process.
    pub closed spec fn patterns_spec(self) -> Seq<CognitivePattern> {
        self.cognitive_patterns@
    }

    /// The insights gathered so far.
    pub closed spec fn insights_spec(self) -> Seq<(i64, String)> {
        self.metacognitive_insights@
    }

    /// The recent occurrences of self-reflection.
    pub closed spec fn reflection_count(self) -> nat {
        self.cognitive_patterns@[3].recent_occurrences@.len()
    }

    /// The tracked frequency of error recovery.
    pub closed spec fn error_frequency(self) -> i64 {
        self.cognitive_patterns@[7].frequency
    }

    /// Initial scalars, empty history and queue, and the seven reflection triggers.
    pub fn new() -> (r: MetacognitiveMonitor)
        ensures
            r.inv(),
            r.state_spec() == (MetacognitiveState {
                self_awareness_level: 300,
                reasoning_confidence: 500,
                cognitive_load: 200,
                situation_understanding: 400,
                attention_intensity: 500,
                introspection_depth: 300,
                meta_reasoning_strength: 400,
            }),
            r.history_spec().len() == 0,
            r.queue_spec().len() == 0,
            forall|i: int| 0 <= i < TRIGGER_COUNT ==> (#[trigger] r.triggers_spec()[i]).last_triggered.is_none(),
    {
        let mut triggers: Vec<ReflectionTrigger> = Vec::new();
        triggers.push(ReflectionTrigger::new("high_cognitive_load", 800, "Cognitive load exceeds 80% - need to assess efficiency", 900, 10));
        triggers.push(ReflectionTrigger::new("low_confidence", 300, "Reasoning confidence below 30% - need to reassess understanding", 800, 15));
        triggers.push(ReflectionTrigger::new("value_conflict", 500, "Value conflict detected - need ethical reflection", 1000, 30));
        triggers.push(ReflectionTrigger::new("high_self_awareness", 850, "Self-awareness very high - opportunity for deep introspection", 700, 60));
        triggers.push(ReflectionTrigger::new("error_pattern", 600, "Error patterns detected - need process improvement", 850, 20));
        triggers.push(ReflectionTrigger::new("creative_breakthrough", 750, "High creativity detected - consolidate insights", 600, 45));
        triggers.push(ReflectionTrigger::new("social_complexity", 700, "Complex social interaction - reflect on empathy and understanding", 500, 25));
        let mut patterns: Vec<CognitivePattern> = Vec::new();
        patterns.push(CognitivePattern::new("emotional_processing"));
        patterns.push(CognitivePattern::new("memory_retrieval"));
        patterns.push(CognitivePattern::new("goal_formation"));
        patterns.push(CognitivePattern::new("self_reflection"));
        patterns.push(CognitivePattern::new("attention_shift"));
        patterns.push(CognitivePattern::new("predictive_thinking"));
        patterns.push(CognitivePattern::new("value_conflict"));
        patterns.push(CognitivePattern::new("error_recovery"));
        patterns.push(CognitivePattern::new("creative_thinking"));
        patterns.push(CognitivePattern::new("social_interaction"));
        MetacognitiveMonitor {
            state: MetacognitiveState::initial(),
            cognitive_history: Vec::new(),
            reflection_triggers: triggers,
            cognitive_patterns: patterns,
            reflection_queue: Vec::new(),
            metacognitive_insights: Vec::new(),
        }
    }

    /// A snapshot of the scalars.
    pub fn state(&self) -> (r: MetacognitiveState)
        ensures
            r == self.state_spec(),
    {
        self.state
    }

    fn apply_process(s: MetacognitiveState, p: &CognitiveProcess) -> (r: MetacognitiveState)
        requires
            s.wf(),
        ensures
            r == clamped_state(raw_effect(s, *p)),
    {
        let mut n = s;
        n.cognitive_load = n.cognitive_load + p.cognitive_load_impact();
        n.self_awareness_level = n.self_awareness_level + p.awareness_boost();
        match p {
            CognitiveProcess::SelfReflection { confidence, .. } => {
                n.reasoning_confidence = (n.reasoning_confidence + unit_of(*confidence)) / 2;
                n.introspection_depth = n.introspection_depth + 50;
                n.meta_reasoning_strength = n.meta_reasoning_strength + 30;
            },
            CognitiveProcess::AttentionShift { .. } => {
                n.attention_intensity = n.attention_intensity + 50;
            },
            CognitiveProcess::ValueConflict { .. } => {
                n.reasoning_confidence = n.reasoning_confidence - 100;
                n.cognitive_load = n.cognitive_load + 200;
                n.introspection_depth = n.introspection_depth + 100;
            },
            CognitiveProcess::ErrorRecovery { .. } => {
                n.reasoning_confidence = n.reasoning_confidence - 50;
                n.meta_reasoning_strength = n.meta_reasoning_strength + 50;
            },
            CognitiveProcess::CreativeThinking { originality, .. } => {
                let o = unit_of(*originality);
                n.cognitive_load = n.cognitive_load + o / 10;
                n.self_awareness_level = n.self_awareness_level + o * 2 / 100;
            },
            CognitiveProcess::SocialInteraction { empathy_level, .. } => {
                n.situation_understanding = n.situation_understanding + unit_of(*empathy_level) * 3
                    / 100;
            },
            _ => {},
        }
        clamp_state(n)
    }

    fn queue_reflection(&mut self, reason: String)
        requires
            old(self).reflection_queue@.len() <= REFLECTION_QUEUE_CAPACITY,
        ensures
            final(self).reflection_queue@.len() <= REFLECTION_QUEUE_CAPACITY,
            texts(final(self).reflection_queue@) == queued(texts(old(self).reflection_queue@), reason@),
            final(self).reflection_queue@ == (if old(self).reflection_queue@.push(reason).len()
                > REFLECTION_QUEUE_CAPACITY {
                old(self).reflection_queue@.push(reason).drop_first()
            } else {
                old(self).reflection_queue@.push(reason)
            }),
            final(self).state == old(self).state,
            final(self).cognitive_history == old(self).cognitive_history,
            final(self).reflection_triggers == old(self).reflection_triggers,
            final(self).cognitive_patterns == old(self).cognitive_patterns,
            final(self).metacognitive_insights == old(self).metacognitive_insights,
    {
        let ghost q = self.reflection_queue@;
        self.reflection_queue.push(reason);
        if self.reflection_queue.len() > REFLECTION_QUEUE_CAPACITY {
            self.reflection_queue.remove(0);
            assert(self.reflection_queue@ =~= q.push(reason).drop_first());
            assert(texts(self.reflection_queue@) =~= queued(texts(q), reason@));
        } else {
            assert(texts(self.reflection_queue@) =~= queued(texts(q), reason@));
        }
    }

    /// Records `p` at `now`: moves the scalars by the process's fixed
    /// effects and clamps them, appends it to the bounded history, updates
    /// its pattern, fires every applicable trigger outside its cooldown
    /// (queuing a reflection for each) and strengthens meta-reasoning.
    pub fn record_process(&mut self, p: CognitiveProcess, now: i64)
        requires
            old(self).inv(),
        ensures
            final(self).inv(),
            final(self).history_spec() == (if old(self).history_spec().push((now, p)).len() > HISTORY_CAPACITY {
                old(self).history_spec().push((now, p)).drop_first()
            } else {
                old(self).history_spec().push((now, p))
            }),
            final(self).state_spec() == meta_reasoning_step(
                clamped_state(raw_effect(old(self).state_spec(), p)),
                final(self).reflection_count(),
            ),
            texts(final(self).queue_spec()) == queue_after_triggers(
                if calls_for_reflection(p) {
                    queued(
                        texts(old(self).queue_spec()),
                        "Process-triggered reflection: "@ + pattern_name(process_kind(p)),
                    )
                } else {
                    texts(old(self).queue_spec())
                },
                old(self).triggers_spec(),
                trigger_inputs_for(
                    clamped_state(raw_effect(old(self).state_spec(), p)),
                    p,
                    final(self).error_frequency(),
                ),
                now,
                TRIGGER_COUNT as nat,
            ),
            forall|i: int|
                0 <= i < TRIGGER_COUNT ==> {
                    let t = old(self).triggers_spec()[i];
                    let after = clamped_state(raw_effect(old(self).state_spec(), p));
                    (#[trigger] final(self).triggers_spec()[i]) == if trigger_fires(
                        t,
                        i,
                        after,
                        p,
                        final(self).error_frequency(),
                        now,
                    ) {
                        ReflectionTrigger {
                            last_triggered: Some(
                                match t.last_triggered {
                                    Some(last) => if last > now {
                                        last
                                    } else {
                                        now
                                    },
                                    None => now,
                                },
                            ),
                            ..t
                        }
                    } else {
                        t
                    }
                },
    {
        let after = MetacognitiveMonitor::apply_process(self.state, &p);
        self.state = after;
        let kind = p.kind();
        let reflects = p.triggers_reflection();
        let insight: Option<String> = match &p {
            CognitiveProcess::SelfReflection { insight, .. } => Some(insight.clone()),
            CognitiveProcess::ValueConflict { conflict, .. } => Some(conflict.clone()),
            CognitiveProcess::CreativeThinking { concept, .. } => Some(concept.clone()),
            _ => None,
        };
        let reason = concat("Process-triggered reflection: ", p.pattern_key());
        let mut pattern = self.cognitive_patterns.remove(kind);
        pattern.add_occurrence(insight, now);
        self.cognitive_patterns.insert(kind, pattern);
        let input = self.trigger_inputs(&p);
        assert(input@ =~= trigger_inputs_for(after, p, self.cognitive_patterns@[7].frequency));
        let ghost h = self.cognitive_history@;
        self.cognitive_history.push((now, p));
        if self.cognitive_history.len() > HISTORY_CAPACITY {
            self.cognitive_history.remove(0);
            assert(self.cognitive_history@ =~= h.push((now, p)).drop_first());
        }
        if reflects {
            self.queue_reflection(reason);
        }
        self.fire_triggers(&input, now);
        let count = self.cognitive_patterns[3].recent_occurrences.len();
        let m: i64 = if count > 10 {
            10
        } else {
            count as i64
        };
        let mut s = self.state;
        s.meta_reasoning_strength = s.meta_reasoning_strength + m;
        if s.self_awareness_level > 700 {
            s.introspection_depth = s.introspection_depth + 5;
        }
        self.state = clamp_state(s);
    }

    /// The value each trigger is held against for process `p`.
    fn trigger_inputs(&self, p: &CognitiveProcess) -> (r: Vec<Option<i64>>)
        requires
            self.inv(),
        ensures
            r@.len() == TRIGGER_COUNT,
            forall|i: int| 0 <= i < TRIGGER_COUNT ==> (#[trigger] r@[i]) == trigger_input(i, self.state, *p, self.cognitive_patterns@[7].frequency),
    {
        let s = self.state;
        let ef = self.cognitive_patterns[7].frequency;
        let mut r: Vec<Option<i64>> = Vec::new();
        r.push(Some(s.cognitive_load));
        r.push(Some(1000 - s.reasoning_confidence));
        r.push(match p {
            CognitiveProcess::ValueConflict { .. } => Some(600),
            _ => None,
        });
        r.push(Some(s.self_awareness_level));
        r.push(match p {
            CognitiveProcess::ErrorRecovery { .. } => if ef > 600 {
                Some(600)
            } else {
                None
            },
            _ => None,
        });
        r.push(match p {
            CognitiveProcess::CreativeThinking { originality, .. } => Some(*originality),
            _ => None,
        });
        r.push(match p {
            CognitiveProcess::SocialInteraction { empathy_level, .. } => Some(*empathy_level),
            _ => None,
        });
        r
    }

    /// Fires each trigger whose input reaches its threshold outside its cooldown.
    fn fire_triggers(&mut self, input: &Vec<Option<i64>>, now: i64)
        requires
            old(self).inv(),
            input@.len() == TRIGGER_COUNT,
        ensures
            final(self).inv(),
            texts(final(self).reflection_queue@) == queue_after_triggers(
                texts(old(self).reflection_queue@),
                old(self).reflection_triggers@,
                input@,
                now,
                TRIGGER_COUNT as nat,
            ),
            final(self).state == old(self).state,
            final(self).cognitive_history == old(self).cognitive_history,
            final(self).cognitive_patterns == old(self).cognitive_patterns,
            forall|i: int|
                0 <= i < TRIGGER_COUNT ==> {
                    let t = old(self).reflection_triggers@[i];
                    (#[trigger] final(self).reflection_triggers@[i]) == match input@[i] {
                        Some(v) => if fires(t, v, now) {
                            ReflectionTrigger {
                                last_triggered: Some(
                                    match t.last_triggered {
                                        Some(last) => if last > now {
                                            last
                                        } else {
                                            now
                                        },
                                        None => now,
                                    },
                                ),
                                ..t
                            }
                        } else {
                            t
                        },
                        None => t,
                    }
                },
    {
        let ghost ts = self.reflection_triggers@;
        if self.metacognitive_insights.len() > INSIGHT_CAPACITY {
            self.drop_old_insights();
        }
        assert(self.reflection_queue@ == old(self).reflection_queue@);
        let mut i: usize = 0;
        while i < TRIGGER_COUNT
            invariant
                self.inv(),
                self.metacognitive_insights@.len() <= INSIGHT_CAPACITY + i,
                i <= TRIGGER_COUNT,
                input@.len() == TRIGGER_COUNT,
                texts(self.reflection_queue@) == queue_after_triggers(
                    texts(old(self).reflection_queue@),
                    ts,
                    input@,
                    now,
                    i as nat,
                ),
                self.state == old(self).state,
                self.cognitive_history == old(self).cognitive_history,
                self.cognitive_patterns == old(self).cognitive_patterns,
                forall|j: int| i <= j < TRIGGER_COUNT ==> self.reflection_triggers@[j] == ts[j],
                forall|j: int|
                    0 <= j < i ==> {
                        let t = ts[j];
                        (#[trigger] self.reflection_triggers@[j]) == match input@[j] {
                            Some(v) => if fires(t, v, now) {
                                ReflectionTrigger {
                                    last_triggered: Some(
                                        match t.last_triggered {
                                            Some(last) => if last > now {
                                                last
                                            } else {
                                                now
                                            },
                                            None => now,
                                        },
                                    ),
                                    ..t
                                }
                            } else {
                                t
                            },
                            None => t,
                        }
                    },
            decreases TRIGGER_COUNT - i,
        {
            let fire = match input[i] {
                Some(v) => self.reflection_triggers[i].should_trigger(v, now),
                None => false,
            };
            if fire {
                let mut t = self.reflection_triggers.remove(i);
                t.trigger(now);
                let name = t.name.clone();
                let description = t.description.clone();
                self.reflection_triggers.insert(i, t);
                let a = concat("Trigger '", name.as_str());
                let b = concat(a.as_str(), "': ");
                let c = concat(b.as_str(), description.as_str());
                self.queue_reflection(c);
                let d = concat("Reflection triggered by ", name.as_str());
                let e = concat(d.as_str(), ": ");
                let f = concat(e.as_str(), description.as_str());
                self.metacognitive_insights.push((now, f));
            }
            i = i + 1;
        }
    }

    /// Keeps the newer half of the insights.
    fn drop_old_insights(&mut self)
        requires
            old(self).inv(),
        ensures
            final(self).inv(),
            final(self).metacognitive_insights@.len() == old(self).metacognitive_insights@.len()
                - old(self).metacognitive_insights@.len() / 2,
            final(self).state == old(self).state,
            final(self).cognitive_history == old(self).cognitive_history,
            final(self).cognitive_patterns == old(self).cognitive_patterns,
            final(self).reflection_triggers == old(self).reflection_triggers,
            final(self).reflection_queue == old(self).reflection_queue,
    {
        let n = self.metacognitive_insights.len();
        let drop = n / 2;
        let mut rest: Vec<(i64, String)> = Vec::new();
        let mut i: usize = drop;
        while i < n
            invariant
                n == self.metacognitive_insights@.len(),
                drop <= i <= n,
                rest@.len() == i - drop,
            decreases n - i,
        {
            let (t, s) = &self.metacognitive_insights[i];
            rest.push((*t, s.clone()));
            i = i + 1;
        }
        self.metacognitive_insights = rest;
    }

    /// Whether deep reflection is due at `now`: a trigger of priority above
    /// 700 is out of its cooldown, or load is above 700, confidence below
    /// 400, self-awareness above 850, or reflections are queued.
    pub fn should_deep_reflect(&self, now: i64) -> (r: bool)
        requires
            self.inv(),
        ensures
            r == ((exists|i: int|
                0 <= i < TRIGGER_COUNT && cooldown_left(#[trigger] self.triggers_spec()[i], now) == 0
                    && self.triggers_spec()[i].priority > 700) || self.state_spec().cognitive_load > 700
                || self.state_spec().reasoning_confidence < 400
                || self.state_spec().self_awareness_level > 850 || self.queue_spec().len() > 0),
    {
        let mut i: usize = 0;
        while i < self.reflection_triggers.len()
            invariant
                self.inv(),
                i <= TRIGGER_COUNT,
                forall|j: int| 0 <= j < i ==> !(cooldown_left(#[trigger] self.reflection_triggers@[j], now) == 0 && self.reflection_triggers@[j].priority > 700),
            decreases TRIGGER_COUNT - i,
        {
            let t = &self.reflection_triggers[i];
            if t.cooldown_remaining_minutes(now) == 0 && t.priority > 700 {
                return true;
            }
            i = i + 1;
        }
        self.state.cognitive_load > 700 || self.state.reasoning_confidence < 400
            || self.state.self_awareness_level > 850 || self.reflection_queue.len() > 0
    }

    /// Hands out the queued reflections, oldest first, and empties the queue;
    /// each becomes an insight, and past fifty insights the older half goes.
    pub fn process_reflection_queue(&mut self, now: i64) -> (r: Vec<String>)
        requires
            old(self).inv(),
        ensures
            final(self).inv(),
            r@ == old(self).queue_spec(),
            final(self).queue_spec().len() == 0,
            final(self).state_spec() == old(self).state_spec(),
            final(self).triggers_spec() == old(self).triggers_spec(),
            final(self).history_spec() == old(self).history_spec(),
    {
        let mut queue: Vec<String> = Vec::new();
        core::mem::swap(&mut queue, &mut self.reflection_queue);
        if self.metacognitive_insights.len() > INSIGHT_CAPACITY - REFLECTION_QUEUE_CAPACITY {
            self.drop_old_insights();
        }
        let mut i: usize = 0;
        while i < queue.len()
            invariant
                self.inv(),
                i <= queue@.len(),
                queue@.len() <= REFLECTION_QUEUE_CAPACITY,
                self.metacognitive_insights@.len() <= INSIGHT_CAPACITY - REFLECTION_QUEUE_CAPACITY + i,
                self.reflection_queue@.len() == 0,
                self.state == old(self).state,
                self.reflection_triggers == old(self).reflection_triggers,
                self.cognitive_history == old(self).cognitive_history,
            decreases queue@.len() - i,
        {
            let text = concat("Processed reflection: ", queue[i].as_str());
            self.metacognitive_insights.push((now, text));
            i = i + 1;
        }
        if self.metacognitive_insights.len() > INSIGHT_CAPACITY {
            self.drop_old_insights();
        }
        queue
    }

    /// Lets the scalars relax: load by 5%, attention by 2%, self-awareness
    /// and confidence by 1%, introspection by 0.5% and meta-reasoning by 0.2%.
    pub fn decay_over_time(&mut self)
        requires
            old(self).inv(),
        ensures
            final(self).inv(),
            final(self).state_spec() == decayed_state(old(self).state_spec()),
            final(self).triggers_spec() == old(self).triggers_spec(),
            final(self).history_spec() == old(self).history_spec(),
            final(self).queue_spec() == old(self).queue_spec(),
    {
        let s = self.state;
        proof {
            assert(0 <= s.cognitive_load * 950 / 1000 <= 1000) by (nonlinear_arith)
                requires 0 <= s.cognitive_load <= 1000;
            assert(0 <= s.attention_intensity * 980 / 1000 <= 1000) by (nonlinear_arith)
                requires 0 <= s.attention_intensity <= 1000;
            assert(0 <= s.self_awareness_level * 990 / 1000 <= 1000) by (nonlinear_arith)
                requires 0 <= s.self_awareness_level <= 1000;
            assert(0 <= s.reasoning_confidence * 990 / 1000 <= 1000) by (nonlinear_arith)
                requires 0 <= s.reasoning_confidence <= 1000;
            assert(0 <= s.introspection_depth * 995 / 1000 <= 1000) by (nonlinear_arith)
                requires 0 <= s.introspection_depth <= 1000;
            assert(0 <= s.meta_reasoning_strength * 998 / 1000 <= 1000) by (nonlinear_arith)
                requires 0 <= s.meta_reasoning_strength <= 1000;
        }
        self.state = MetacognitiveState {
            cognitive_load: s.cognitive_load * 950 / 1000,
            attention_intensity: s.attention_intensity * 980 / 1000,
            self_awareness_level: s.self_awareness_level * 990 / 1000,
            reasoning_confidence: s.reasoning_confidence * 990 / 1000,
            introspection_depth: s.introspection_depth * 995 / 1000,
            meta_reasoning_strength: s.meta_reasoning_strength * 998 / 1000,
            ..s
        };
    }

    /// The reflection triggers.
    pub fn triggers(&self) -> (r: &Vec<ReflectionTrigger>)
        ensures
            r@ == self.triggers_spec(),
    {
        &self.reflection_triggers
    }

    /// The tracked patterns, one per kind of process, in the order of the kinds.
    pub fn patterns(&self) -> (r: &Vec<CognitivePattern>)
        ensures
            r@ == self.patterns_spec(),
    {
        &self.cognitive_patterns
    }

    /// The queued reflections, oldest first.
    pub fn reflection_queue(&self) -> (r: &Vec<String>)
        ensures
            r@ == self.queue_spec(),
    {
        &self.reflection_queue
    }

    /// The recorded processes with their times, oldest first.
    pub fn history(&self) -> (r: &Vec<(i64, CognitiveProcess)>)
        ensures
            r@ == self.history_spec(),
    {
        &self.cognitive_history
    }

    /// The insights gathered from fired triggers and processed reflections.
    pub fn insights(&self) -> (r: &Vec<(i64, String)>)
        ensures
            r@ == self.insights_spec(),
    {
        &self.metacognitive_insights
    }
}

/// How aware of its thinking the mind is, in words.
pub open spec fn awareness_words(x: i64) -> Seq<char> {
    if x > 800 {
        "I am highly aware of my thinking processes"@
    } else if x > 600 {
        "I have good awareness of how I think"@
    } else if x > 400 {
        "I have moderate awareness of my thinking"@
    } else {
        "My self-awareness is still developing"@
    }
}

/// How confident in its reasoning the mind is, in words.
pub open spec fn confidence_words(x: i64) -> Seq<char> {
    if x > 700 {
        "I feel confident in my reasoning"@
    } else if x > 500 {
        "I have reasonable confidence in my thoughts"@
    } else if x > 300 {
        "I have some uncertainty about my reasoning"@
    } else {
        "I lack confidence in my current reasoning"@
    }
}

/// How loaded the mind is, in words.
pub open spec fn load_words(x: i64) -> Seq<char> {
    if x > 800 {
        "My mind feels quite active and engaged"@
    } else if x > 500 {
        "I'm processing at a comfortable pace"@
    } else if x > 200 {
        "My thoughts are calm and measured"@
    } else {
        "My mind feels very relaxed"@
    }
}

/// How deep introspection goes, in words.
pub open spec fn introspection_words(x: i64) -> Seq<char> {
    if x > 700 {
        "I'm engaging in deep self-examination"@
    } else if x > 400 {
        "I'm moderately introspective"@
    } else {
        "My introspection is relatively surface-level"@
    }
}

/// How strong meta-reasoning is, in words.
pub open spec fn meta_words(x: i64) -> Seq<char> {
    if x > 700 {
        "I can effectively analyze my own reasoning processes"@
    } else if x > 400 {
        "I have developing meta-cognitive abilities"@
    } else {
        "My ability to think about thinking is still emerging"@
    }
}

/// A first-person account of a metacognitive state.
pub open spec fn narrative(s: MetacognitiveState) -> Seq<char> {
    awareness_words(s.self_awareness_level) + ". "@ + confidence_words(s.reasoning_confidence)
        + ". "@ + load_words(s.cognitive_load) + ". "@ + introspection_words(s.introspection_depth)
        + ". "@ + meta_words(s.meta_reasoning_strength)
        + ". This gives me a comprehensive sense of my current mental state."@
}

impl MetacognitiveMonitor {
    /// A first-person account of the current state.
    pub fn generate_self_narrative(&self) -> (r: String)
        ensures
            r@ == narrative(self.state_spec()),
    {
        let s = self.state;
        let aw = if s.self_awareness_level > 800 {
            "I am highly aware of my thinking processes"
        } else if s.self_awareness_level > 600 {
            "I have good awareness of how I think"
        } else if s.self_awareness_level > 400 {
            "I have moderate awareness of my thinking"
        } else {
            "My self-awareness is still developing"
        };
        let conf = if s.reasoning_confidence > 700 {
            "I feel confident in my reasoning"
        } else if s.reasoning_confidence > 500 {
            "I have reasonable confidence in my thoughts"
        } else if s.reasoning_confidence > 300 {
            "I have some uncertainty about my reasoning"
        } else {
            "I lack confidence in my current reasoning"
        };
        let load = if s.cognitive_load > 800 {
            "My mind feels quite active and engaged"
        } else if s.cognitive_load > 500 {
            "I'm processing at a comfortable pace"
        } else if s.cognitive_load > 200 {
            "My thoughts are calm and measured"
        } else {
            "My mind feels very relaxed"
        };
        let intro = if s.introspection_depth > 700 {
            "I'm engaging in deep self-examination"
        } else if s.introspection_depth > 400 {
            "I'm moderately introspective"
        } else {
            "My introspection is relatively surface-level"
        };
        let meta = if s.meta_reasoning_strength > 700 {
            "I can effectively analyze my own reasoning processes"
        } else if s.meta_reasoning_strength > 400 {
            "I have developing meta-cognitive abilities"
        } else {
            "My ability to think about thinking is still emerging"
        };
        let t1 = concat(aw, ". ");
        let t2 = concat(t1.as_str(), conf);
        let t3 = concat(t2.as_str(), ". ");
        let t4 = concat(t3.as_str(), load);
        let t5 = concat(t4.as_str(), ". ");
        let t6 = concat(t5.as_str(), intro);
        let t7 = concat(t6.as_str(), ". ");
        let t8 = concat(t7.as_str(), meta);
        concat(t8.as_str(), ". This gives me a comprehensive sense of my current mental state.")
    }
}

/// The status line of one trigger at `now`.
pub open spec fn trigger_line(t: ReflectionTrigger, now: i64) -> Seq<char> {
    t.name@ + ": "@ + (if cooldown_left(t, now) == 0 {
        "ready"@
    } else {
        "cooling down"@
    }) + " (cooldown: "@ + decimal(cooldown_left(t, now) as nat) + "min)"@
}

impl MetacognitiveMonitor {
    /// One status line per reflection trigger at `now`.
    pub fn get_trigger_status(&self, now: i64) -> (r: Vec<String>)
        ensures
            r@.len() == self.triggers_spec().len(),
            forall|i: int| 0 <= i < r@.len() ==> (#[trigger] r@[i])@ == trigger_line(self.triggers_spec()[i], now),
    {
        let mut out: Vec<String> = Vec::new();
        let mut i: usize = 0;
        while i < self.reflection_triggers.len()
            invariant
                i <= self.reflection_triggers@.len(),
                out@.len() == i,
                forall|k: int| 0 <= k < i ==> (#[trigger] out@[k])@ == trigger_line(self.reflection_triggers@[k], now),
            decreases self.reflection_triggers@.len() - i,
        {
            let t = &self.reflection_triggers[i];
            let left = t.cooldown_remaining_minutes(now);
            let state = if left == 0 {
                "ready"
            } else {
                "cooling down"
            };
            let t1 = concat(t.name.as_str(), ": ");
            let t2 = concat(t1.as_str(), state);
            let t3 = concat(t2.as_str(), " (cooldown: ");
            let t4 = concat(t3.as_str(), decimal_string(left).as_str());
            out.push(concat(t4.as_str(), "min)"));
            i = i + 1;
        }
        out
    }
}

/// One line on a pattern: its name, frequency per hour, significance and
/// number of insights.
pub open spec fn pattern_summary(p: CognitivePattern) -> Seq<char> {
    p.pattern_type@ + ": "@ + hundredths(p.frequency as nat) + "/hour, significance: "@ + hundredths(
        p.significance as nat,
    ) + ", recent insights: "@ + decimal(p.insights@.len())
}

impl CognitivePattern {
    /// One line on this pattern.
    pub fn get_summary(&self) -> (r: String)
        requires
            self.frequency >= 0,
            self.significance >= 0,
        ensures
            r@ == pattern_summary(*self),
    {
        let a = concat(self.pattern_type.as_str(), ": ");
        let b = concat(a.as_str(), hundredths_text(self.frequency as u64).as_str());
        let c = concat(b.as_str(), "/hour, significance: ");
        let d = concat(c.as_str(), hundredths_text(self.significance as u64).as_str());
        let e = concat(d.as_str(), ", recent insights: ");
        concat(e.as_str(), decimal_string(self.insights.len() as u64).as_str())
    }
}

/// Observations on the scalars.
pub open spec fn state_observations(s: MetacognitiveState) -> Seq<Seq<char>> {
    (if s.cognitive_load > 800 {
        seq!["I'm experiencing high cognitive load ("@ + percent(s.cognitive_load as nat) + "). I should simplify my thinking processes."@]
    } else {
        Seq::empty()
    }) + (if s.reasoning_confidence < 300 {
        seq!["My confidence in my reasoning is low ("@ + percent(s.reasoning_confidence as nat) + "). I should seek more information or reflect deeper."@]
    } else {
        Seq::empty()
    }) + (if s.self_awareness_level > 800 {
        seq!["My self-awareness is quite high ("@ + percent(s.self_awareness_level as nat) + "). I'm becoming increasingly conscious of my own thinking processes."@]
    } else {
        Seq::empty()
    }) + (if s.introspection_depth > 700 {
        seq!["I'm engaging in deep introspection ("@ + percent(s.introspection_depth as nat) + "). This suggests significant cognitive development."@]
    } else {
        Seq::empty()
    }) + (if s.meta_reasoning_strength > 800 {
        seq!["My meta-reasoning abilities are highly developed. I can effectively think about my own thinking."@]
    } else {
        Seq::empty()
    })
}

/// Observations on the significant patterns, in the order of the kinds.
pub open spec fn pattern_observations(ps: Seq<CognitivePattern>) -> Seq<Seq<char>>
    decreases ps.len(),
{
    if ps.len() == 0 {
        Seq::empty()
    } else {
        pattern_observations(ps.drop_last()) + if ps.last().significance > 500 {
            seq!["Significant pattern detected in "@ + ps.last().pattern_type@ + ": "@ + pattern_summary(ps.last())]
        } else {
            Seq::empty()
        }
    }
}

/// The last three insights, newest first, as observations.
pub open spec fn recent_trigger_observations(ins: Seq<(i64, String)>) -> Seq<Seq<char>> {
    let m = if ins.len() < 3 {
        ins.len() as int
    } else {
        3
    };
    Seq::new(m as nat, |j: int| "Recent trigger: "@ + ins[ins.len() - 1 - j].1@)
}

/// The observation comparing reflection with error recovery, when both
/// occurred in the last day.
pub open spec fn balance_observation(ps: Seq<CognitivePattern>) -> Seq<Seq<char>> {
    let r = ps[3];
    let e = ps[7];
    if r.recent_occurrences@.len() > 0 && e.recent_occurrences@.len() > 0 {
        let more = if e.frequency > 0 {
            r.frequency > 2 * e.frequency
        } else {
            r.frequency > 2000
        };
        let fewer = if e.frequency > 0 {
            2 * r.frequency < e.frequency
        } else {
            r.frequency < 500
        };
        if more {
            seq!["I'm reflecting more than I'm encountering errors - a sign of proactive self-awareness."@]
        } else if fewer {
            seq!["I'm encountering errors more than I'm reflecting - I should increase introspection."@]
        } else {
            Seq::empty()
        }
    } else {
        Seq::empty()
    }
}

/// Everything the monitor observes about itself.
pub open spec fn observations(
    s: MetacognitiveState,
    ps: Seq<CognitivePattern>,
    ins: Seq<(i64, String)>,
    queued: nat,
) -> Seq<Seq<char>> {
    state_observations(s) + pattern_observations(ps) + recent_trigger_observations(ins) + (if queued
        > 0 {
        seq!["I have "@ + decimal(queued) + " pending reflections to process"@]
    } else {
        Seq::empty()
    }) + balance_observation(ps)
}

fn push_state_observations(out: &mut Vec<String>, s: &MetacognitiveState)
    requires
        s.wf(),
    ensures
        texts(final(out)@) == texts(old(out)@) + state_observations(*s),
{
    let ghost head = texts(out@);
    if s.cognitive_load > 800 {
        let a = concat("I'm experiencing high cognitive load (", percent_text(s.cognitive_load as u64).as_str());
        push_text(out, concat(a.as_str(), "). I should simplify my thinking processes."));
    }
    if s.reasoning_confidence < 300 {
        let a = concat("My confidence in my reasoning is low (", percent_text(s.reasoning_confidence as u64).as_str());
        push_text(out, concat(a.as_str(), "). I should seek more information or reflect deeper."));
    }
    if s.self_awareness_level > 800 {
        let a = concat("My self-awareness is quite high (", percent_text(s.self_awareness_level as u64).as_str());
        push_text(out, concat(a.as_str(), "). I'm becoming increasingly conscious of my own thinking processes."));
    }
    if s.introspection_depth > 700 {
        let a = concat("I'm engaging in deep introspection (", percent_text(s.introspection_depth as u64).as_str());
        push_text(out, concat(a.as_str(), "). This suggests significant cognitive development."));
    }
    if s.meta_reasoning_strength > 800 {
        push_text(out, "My meta-reasoning abilities are highly developed. I can effectively think about my own thinking.".to_owned());
    }
    assert(texts(out@) =~= head + state_observations(*s));
}

impl MetacognitiveMonitor {
    /// Observations on the state, the significant patterns, recent
    /// insights, queued reflections and the balance of reflection and errors.
    pub fn analyze_patterns(&self) -> (r: Vec<String>)
        requires
            self.inv(),
        ensures
            texts(r@) == observations(
                self.state_spec(),
                self.patterns_spec(),
                self.insights_spec(),
                self.queue_spec().len(),
            ),
    {
        let mut out: Vec<String> = Vec::new();
        assert(texts(out@) =~= Seq::<Seq<char>>::empty());
        push_state_observations(&mut out, &self.state);
        self.push_pattern_observations(&mut out);
        self.push_recent_triggers(&mut out);
        let ghost head = texts(out@);
        let q = self.reflection_queue.len();
        if q > 0 {
            let a = concat("I have ", decimal_string(q as u64).as_str());
            push_text(&mut out, concat(a.as_str(), " pending reflections to process"));
        }
        let ghost mid = texts(out@);
        self.push_balance(&mut out);
        assert(texts(out@) =~= observations(
            self.state,
            self.cognitive_patterns@,
            self.metacognitive_insights@,
            self.reflection_queue@.len(),
        ));
        out
    }

    fn push_pattern_observations(&self, out: &mut Vec<String>)
        requires
            self.inv(),
        ensures
            texts(final(out)@) == texts(old(out)@) + pattern_observations(self.cognitive_patterns@),
    {
        let ghost head = texts(out@);
        let ps = &self.cognitive_patterns;
        let mut i: usize = 0;
        assert(ps@.subrange(0, 0) =~= Seq::<CognitivePattern>::empty());
        assert(head + pattern_observations(ps@.subrange(0, 0)) =~= head);
        while i < ps.len()
            invariant
                self.inv(),
                ps@ == self.cognitive_patterns@,
                i <= ps@.len(),
                texts(out@) == head + pattern_observations(ps@.subrange(0, i as int)),
            decreases ps@.len() - i,
        {
            let ghost before = texts(out@);
            assert(ps@.subrange(0, i + 1).drop_last() =~= ps@.subrange(0, i as int));
            assert(ps@.subrange(0, i + 1).last() == ps@[i as int]);
            let p = &ps[i];
            if p.significance > 500 {
                let a = concat("Significant pattern detected in ", p.pattern_type.as_str());
                let b = concat(a.as_str(), ": ");
                push_text(out, concat(b.as_str(), p.get_summary().as_str()));
            }
            assert(texts(out@) =~= before + (if ps@[i as int].significance > 500 {
                seq!["Significant pattern detected in "@ + ps@[i as int].pattern_type@ + ": "@ + pattern_summary(ps@[i as int])]
            } else {
                Seq::<Seq<char>>::empty()
            }));
            i = i + 1;
        }
        assert(ps@.subrange(0, i as int) =~= ps@);
    }

    fn push_recent_triggers(&self, out: &mut Vec<String>)
        ensures
            texts(final(out)@) == texts(old(out)@) + recent_trigger_observations(self.metacognitive_insights@),
    {
        let ghost head = texts(out@);
        let ins = &self.metacognitive_insights;
        let n = ins.len();
        let m: usize = if n < 3 {
            n
        } else {
            3
        };
        let mut j: usize = 0;
        assert(recent_trigger_observations(ins@).subrange(0, 0) =~= Seq::<Seq<char>>::empty());
        assert(head + Seq::<Seq<char>>::empty() =~= head);
        while j < m
            invariant
                n == ins@.len(),
                m <= n,
                m == (if n < 3 { n } else { 3 }),
                j <= m,
                texts(out@) == head + recent_trigger_observations(ins@).subrange(0, j as int),
            decreases m - j,
        {
            push_text(out, concat("Recent trigger: ", ins[n - 1 - j].1.as_str()));
            assert(recent_trigger_observations(ins@).subrange(0, j + 1) =~= recent_trigger_observations(ins@).subrange(0, j as int).push("Recent trigger: "@ + ins@[n - 1 - j].1@));
            j = j + 1;
        }
        assert(recent_trigger_observations(ins@).subrange(0, m as int) =~= recent_trigger_observations(ins@));
    }

    fn push_balance(&self, out: &mut Vec<String>)
        requires
            self.inv(),
        ensures
            texts(final(out)@) == texts(old(out)@) + balance_observation(self.cognitive_patterns@),
    {
        let ghost head = texts(out@);
        let r = &self.cognitive_patterns[3];
        let e = &self.cognitive_patterns[7];
        if r.recent_occurrences.len() > 0 && e.recent_occurrences.len() > 0 {
            let more = if e.frequency > 0 {
                r.frequency > 2 * e.frequency
            } else {
                r.frequency > 2000
            };
            let fewer = if e.frequency > 0 {
                2 * r.frequency < e.frequency
            } else {
                r.frequency < 500
            };
            if more {
                push_text(out, "I'm reflecting more than I'm encountering errors - a sign of proactive self-awareness.".to_owned());
            } else if fewer {
                push_text(out, "I'm encountering errors more than I'm reflecting - I should increase introspection.".to_owned());
            }
        }
        assert(texts(out@) =~= head + balance_observation(self.cognitive_patterns@));
    }
}

/// Summaries of the patterns of significance above 100, in the order of the kinds.
pub open spec fn pattern_summaries(ps: Seq<CognitivePattern>) -> Seq<Seq<char>>
    decreases ps.len(),
{
    if ps.len() == 0 {
        Seq::empty()
    } else {
        pattern_summaries(ps.drop_last()) + if ps.last().significance > 100 {
            seq![pattern_summary(ps.last())]
        } else {
            Seq::empty()
        }
    }
}

/// The names of the triggers out of their cooldown at `now`, in order.
pub open spec fn ready_names(ts: Seq<ReflectionTrigger>, now: i64) -> Seq<Seq<char>>
    decreases ts.len(),
{
    if ts.len() == 0 {
        Seq::empty()
    } else {
        ready_names(ts.drop_last(), now) + if cooldown_left(ts.last(), now) == 0 {
            seq![ts.last().name@]
        } else {
            Seq::empty()
        }
    }
}

/// Names written as a bracketed, comma-separated list of quoted strings.
pub open spec fn quoted_list(names: Seq<Seq<char>>) -> Seq<char>
    decreases names.len(),
{
    if names.len() == 0 {
        "[]"@
    } else if names.len() == 1 {
        "[\""@ + names[0] + "\"]"@
    } else {
        quoted_list(names.drop_last()).drop_last() + ", \""@ + names.last() + "\"]"@
    }
}

proof fn lemma_quoted_list_len(names: Seq<Seq<char>>)
    ensures
        quoted_list(names).len() >= 2,
    decreases names.len(),
{
    reveal_strlit("[]");
    reveal_strlit("[\"");
    reveal_strlit("\"]");
    if names.len() > 1 {
        lemma_quoted_list_len(names.drop_last());
    }
}

impl MetacognitiveMonitor {
    /// Summaries of the significant patterns.
    pub fn get_pattern_summary(&self) -> (r: Vec<String>)
        requires
            self.inv(),
        ensures
            texts(r@) == pattern_summaries(self.patterns_spec()),
    {
        let mut out: Vec<String> = Vec::new();
        let ps = &self.cognitive_patterns;
        let mut i: usize = 0;
        assert(ps@.subrange(0, 0) =~= Seq::<CognitivePattern>::empty());
        assert(texts(out@) =~= Seq::<Seq<char>>::empty());
        while i < ps.len()
            invariant
                self.inv(),
                ps@ == self.cognitive_patterns@,
                i <= ps@.len(),
                texts(out@) == pattern_summaries(ps@.subrange(0, i as int)),
            decreases ps@.len() - i,
        {
            let ghost before = texts(out@);
            assert(ps@.subrange(0, i + 1).drop_last() =~= ps@.subrange(0, i as int));
            assert(ps@.subrange(0, i + 1).last() == ps@[i as int]);
            if ps[i].significance > 100 {
                push_text(&mut out, ps[i].get_summary());
            }
            assert(texts(out@) =~= before + (if ps@[i as int].significance > 100 {
                seq![pattern_summary(ps@[i as int])]
            } else {
                Seq::<Seq<char>>::empty()
            }));
            i = i + 1;
        }
        assert(ps@.subrange(0, i as int) =~= ps@);
        out
    }

    /// Which triggers are ready at `now`, how many reflections are queued and
    /// whether deep reflection is due.
    pub fn get_reflection_status(&self, now: i64) -> (r: String)
        requires
            self.inv(),
        ensures
            r@ == "Ready triggers: "@ + quoted_list(ready_names(self.triggers_spec(), now))
                + ", Queued reflections: "@ + decimal(self.queue_spec().len())
                + ", Should deep reflect: "@ + (if ((exists|i: int|
                0 <= i < TRIGGER_COUNT && cooldown_left(#[trigger] self.triggers_spec()[i], now) == 0
                    && self.triggers_spec()[i].priority > 700) || self.state_spec().cognitive_load > 700
                || self.state_spec().reasoning_confidence < 400
                || self.state_spec().self_awareness_level > 850 || self.queue_spec().len() > 0) {
                "true"@
            } else {
                "false"@
            }),
    {
        let ts = &self.reflection_triggers;
        let mut list = "[]".to_owned();
        let mut count: usize = 0;
        let mut i: usize = 0;
        assert(ts@.subrange(0, 0) =~= Seq::<ReflectionTrigger>::empty());
        while i < ts.len()
            invariant
                i <= ts@.len(),
                list@ == quoted_list(ready_names(ts@.subrange(0, i as int), now)),
                count == ready_names(ts@.subrange(0, i as int), now).len(),
                count <= i,
            decreases ts@.len() - i,
        {
            let ghost names = ready_names(ts@.subrange(0, i as int), now);
            assert(ts@.subrange(0, i + 1).drop_last() =~= ts@.subrange(0, i as int));
            assert(ts@.subrange(0, i + 1).last() == ts@[i as int]);
            if ts[i].cooldown_remaining_minutes(now) == 0 {
                let ghost next = names.push(ts@[i as int].name@);
                assert(ready_names(ts@.subrange(0, i + 1), now) =~= next);
                assert(next.drop_last() =~= names);
                if count == 0 {
                    let a = concat("[\"", ts[i].name.as_str());
                    list = concat(a.as_str(), "\"]");
                } else {
                    proof {
                        lemma_quoted_list_len(names);
                    }
                    let trimmed = list.as_str().substring_char(0, list.as_str().unicode_len() - 1);
                    let a = concat(trimmed, ", \"");
                    let b = concat(a.as_str(), ts[i].name.as_str());
                    list = concat(b.as_str(), "\"]");
                }
                count = count + 1;
            } else {
                assert(ready_names(ts@.subrange(0, i + 1), now) =~= names);
            }
            i = i + 1;
        }
        assert(ts@.subrange(0, i as int) =~= ts@);
        let due = if self.should_deep_reflect(now) {
            "true"
        } else {
            "false"
        };
        let a = concat("Ready triggers: ", list.as_str());
        let b = concat(a.as_str(), ", Queued reflections: ");
        let c = concat(b.as_str(), decimal_string(self.reflection_queue.len() as u64).as_str());
        let d = concat(c.as_str(), ", Should deep reflect: ");
        concat(d.as_str(), due)
    }
}

} // verus!
