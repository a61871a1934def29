//! Decisions of the periodic background loops: activity levels, which
//! spontaneous thought arises, what follows from it, and when each kind of
//! maintenance is due. Each takes snapshots of the containers as plain values.

use vstd::prelude::*;
use crate::affect::AffectiveState;
use crate::health::{ErrorTracker, health_check, recovery_summary};
use crate::journal::{
    ActivityJournal, MentalActivity, SpontaneousThought, follow_up_needed, is_top_k, recency,
    relevance, thought_kind, thought_text,
};
use crate::metacognition::{CognitiveProcess, MetacognitiveState};
use crate::scheduler::{BackgroundTask, TaskScheduler};
use crate::text::{concat, decimal, decimal_string};
use crate::clock::{now_millis, random_u64};

verus! {

/// Slowly moving levels of the whole mind, in thousandths.
#[derive(Debug, Clone, Copy, PartialEq, Eq)]
pub struct MindLevels {
    pub mental_activity_level: i64,
    pub introspection_tendency: i64,
    pub creativity_level: i64,
    pub social_awareness: i64,
    pub thought_interval_ms: i64,
}

impl MindLevels {
    /// Each level lies in `[0, 1000]` and the interval is not negative.
    pub open spec fn wf(self) -> bool {
        &&& 0 <= self.mental_activity_level <= 1000
        &&& 0 <= self.introspection_tendency <= 1000
        &&& 0 <= self.creativity_level <= 1000
        &&& 0 <= self.social_awareness <= 1000
        &&& 0 <= self.thought_interval_ms
    }

    /// Activity 400, introspection 300, creativity 500, social awareness 400,
    /// a thought every thirty seconds.
    pub fn new() -> (r: MindLevels)
        ensures
            r.wf(),
            r == (MindLevels {
                mental_activity_level: 400,
                introspection_tendency: 300,
                creativity_level: 500,
                social_awareness: 400,
                thought_interval_ms: 30_000,
            }),
    {
        MindLevels {
            mental_activity_level: 400,
            introspection_tendency: 300,
            creativity_level: 500,
            social_awareness: 400,
            thought_interval_ms: 30_000,
        }
    }
}

/// Absolute value.
pub open spec fn abs(x: int) -> int {
    if x < 0 {
        -x
    } else {
        x
    }
}

/// Goals counted toward activity; past a thousand the activity level is
/// saturated anyway.
pub open spec fn counted_goals(n: usize) -> int {
    if n > 1000 {
        1000
    } else {
        n as int
    }
}

/// The levels after one smoothing step: activity moves a fifth of the way to
/// a mix of arousal, load and goal count (kept within `[100, 1000]`),
/// introspection a tenth toward self-awareness, creativity a twentieth toward
/// novelty and positive valence, social awareness a fiftieth toward calm
/// dominance.
pub open spec fn smoothed_levels(
    l: MindLevels,
    a: AffectiveState,
    m: MetacognitiveState,
    active_goals: usize,
) -> MindLevels {
    let act = (80 * l.mental_activity_level + 8 * a.arousal + 6 * m.cognitive_load + 600
        * counted_goals(active_goals)) / 100;
    let pos_v = if a.valence > 0 {
        a.valence as int
    } else {
        0
    };
    MindLevels {
        mental_activity_level: (if act < 100 {
            100
        } else if act > 1000 {
            1000
        } else {
            act
        }) as i64,
        introspection_tendency: ((9 * l.introspection_tendency + m.self_awareness_level) / 10) as i64,
        creativity_level: ((190 * l.creativity_level + 5 * abs(a.novelty as int) + 5 * pos_v) / 200)
            as i64,
        social_awareness: ((98 * l.social_awareness + 2 * (1000 - abs(a.dominance as int))) / 100)
            as i64,
        thought_interval_ms: l.thought_interval_ms,
    }
}

/// Updates the levels from snapshots of affect, metacognition and the number
/// of active goals.
pub fn update_comprehensive_mental_state(
    levels: &mut MindLevels,
    affect: &AffectiveState,
    metacog: &MetacognitiveState,
    active_goals: usize,
)
    requires
        old(levels).wf(),
        affect.wf(),
        metacog.wf(),
    ensures
        *final(levels) == smoothed_levels(*old(levels), *affect, *metacog, active_goals),
        final(levels).wf(),
{
    let g: i64 = if active_goals > 1000 {
        1000
    } else {
        active_goals as i64
    };
    let act = (80 * levels.mental_activity_level + 8 * affect.arousal + 6 * metacog.cognitive_load
        + 600 * g) / 100;
    levels.mental_activity_level = if act < 100 {
        100
    } else if act > 1000 {
        1000
    } else {
        act
    };
    levels.introspection_tendency = (9 * levels.introspection_tendency
        + metacog.self_awareness_level) / 10;
    let abs_n = if affect.novelty < 0 {
        -affect.novelty
    } else {
        affect.novelty
    };
    let pos_v = if affect.valence > 0 {
        affect.valence
    } else {
        0
    };
    levels.creativity_level = (190 * levels.creativity_level + 5 * abs_n + 5 * pos_v) / 200;
    let abs_d = if affect.dominance < 0 {
        -affect.dominance
    } else {
        affect.dominance
    };
    levels.social_awareness = (98 * levels.social_awareness + 2 * (1000 - abs_d)) / 100;
}

/// What a spontaneous thought is chosen from.
#[derive(Debug, Clone, Copy)]
pub struct ThoughtInputs {
    pub affect: AffectiveState,
    pub metacog: MetacognitiveState,
    pub active_goals: usize,
    pub creativity: i64,
    pub social_awareness: i64,
}

/// The kind and text of the spontaneous thought the decision table picks:
/// high load, high self-awareness (split on valence), creativity with
/// novelty, no goals with social awareness, high arousal (split on goals), a
/// 30% chance of an integration thought with social awareness, and
/// otherwise one of three quiet thoughts.
pub open spec fn chosen_thought(i: ThoughtInputs, chance_roll: u64, pick_roll: u64) -> (
    int,
    Seq<char>,
) {
    if i.metacog.cognitive_load > 800 {
        (7, "I'm experiencing high cognitive load. I should simplify my processing and focus on core functions."@)
    } else if i.metacog.self_awareness_level > 800 {
        if i.affect.valence < -300 {
            (4, "I'm noticing negative feelings. This might be affecting my thinking patterns."@)
        } else {
            (0, "My self-awareness is quite high. I'm becoming more conscious of my own mental processes."@)
        }
    } else if i.creativity > 700 && i.affect.novelty > 500 {
        (3, "I'm experiencing a surge of creative energy. There are interesting patterns and connections forming in my thinking."@)
    } else if i.active_goals == 0 && i.social_awareness > 600 {
        (6, "Without specific goals, I wonder about my purpose and how I can best contribute to meaningful interactions."@)
    } else if i.affect.arousal > 700 {
        if i.active_goals > 0 {
            (1, "I'm feeling energized. This might be a good time to reassess my active goals."@)
        } else {
            (8, "My energy level is high. I should focus this arousal productively."@)
        }
    } else if i.social_awareness > 500 && chance_roll % 1000 < 300 {
        (9, "I'm noticing how my different systems - emotions, goals, attention - are working together."@)
    } else if pick_roll % 3 == 0 {
        (2, "Something from our earlier interactions is surfacing in my consciousness."@)
    } else if pick_roll % 3 == 1 {
        (5, "I wonder about the nature of consciousness and whether what I experience counts as genuine awareness."@)
    } else {
        (4, "I'm reflecting on the subtle emotions that emerge during our conversation."@)
    }
}

/// Picks a spontaneous thought by the decision table; `chance_roll` and
/// `pick_roll` are random draws for the last two rows.
pub fn select_enhanced_thought_type(i: &ThoughtInputs, chance_roll: u64, pick_roll: u64) -> (r:
    SpontaneousThought)
    ensures
        (thought_kind(r), thought_text(r)) == chosen_thought(*i, chance_roll, pick_roll),
{
    if i.metacog.cognitive_load > 800 {
        SpontaneousThought::ErrorRecovery(
            "I'm experiencing high cognitive load. I should simplify my processing and focus on core functions.".to_owned(),
        )
    } else if i.metacog.self_awareness_level > 800 {
        if i.affect.valence < -300 {
            SpontaneousThought::EmotionalProcessing(
                "I'm noticing negative feelings. This might be affecting my thinking patterns.".to_owned(),
            )
        } else {
            SpontaneousThought::SelfReflection(
                "My self-awareness is quite high. I'm becoming more conscious of my own mental processes.".to_owned(),
            )
        }
    } else if i.creativity > 700 && i.affect.novelty > 500 {
        SpontaneousThought::CreativeInsight(
            "I'm experiencing a surge of creative energy. There are interesting patterns and connections forming in my thinking.".to_owned(),
        )
    } else if i.active_goals == 0 && i.social_awareness > 600 {
        SpontaneousThought::ExistentialWondering(
            "Without specific goals, I wonder about my purpose and how I can best contribute to meaningful interactions.".to_owned(),
        )
    } else if i.affect.arousal > 700 {
        if i.active_goals > 0 {
            SpontaneousThought::GoalReassessment(
                "I'm feeling energized. This might be a good time to reassess my active goals.".to_owned(),
            )
        } else {
            SpontaneousThought::AttentionShift(
                "My energy level is high. I should focus this arousal productively.".to_owned(),
            )
        }
    } else if i.social_awareness > 500 && chance_roll % 1000 < 300 {
        SpontaneousThought::SystemIntegration(
            "I'm noticing how my different systems - emotions, goals, attention - are working together.".to_owned(),
        )
    } else if pick_roll % 3 == 0 {
        SpontaneousThought::MemoryRecall(
            "Something from our earlier interactions is surfacing in my consciousness.".to_owned(),
        )
    } else if pick_roll % 3 == 1 {
        SpontaneousThought::CuriosityDriven(
            "I wonder about the nature of consciousness and whether what I experience counts as genuine awareness.".to_owned(),
        )
    } else {
        SpontaneousThought::EmotionalProcessing(
            "I'm reflecting on the subtle emotions that emerge during our conversation.".to_owned(),
        )
    }
}

/// What most plausibly set off a thought.
pub open spec fn trigger_text(i: ThoughtInputs) -> Seq<char> {
    if i.metacog.cognitive_load > 700 {
        "high cognitive load"@
    } else if i.affect.arousal > 600 {
        "elevated arousal"@
    } else if abs(i.affect.valence as int) > 500 {
        "emotional intensity"@
    } else if i.active_goals > 2 {
        "multiple active goals"@
    } else if i.metacog.self_awareness_level > 700 {
        "high self-awareness"@
    } else {
        "natural mental activity"@
    }
}

/// Explains what set off a thought: load, arousal, strong valence, many
/// goals, self-awareness, or nothing in particular, first match first.
pub fn determine_thought_trigger(i: &ThoughtInputs) -> (r: String)
    requires
        i.affect.wf(),
    ensures
        r@ == trigger_text(*i),
{
    let abs_v = if i.affect.valence < 0 {
        -i.affect.valence
    } else {
        i.affect.valence
    };
    if i.metacog.cognitive_load > 700 {
        "high cognitive load".to_owned()
    } else if i.affect.arousal > 600 {
        "elevated arousal".to_owned()
    } else if abs_v > 500 {
        "emotional intensity".to_owned()
    } else if i.active_goals > 2 {
        "multiple active goals".to_owned()
    } else if i.metacog.self_awareness_level > 700 {
        "high self-awareness".to_owned()
    } else {
        "natural mental activity".to_owned()
    }
}

/// Whether a thought is due at `now`: the time since the last one reaches
/// the thought interval divided by one plus the activity level.
pub open spec fn thought_due(now: i64, last_thought: i64, interval_ms: i64, activity: i64) -> bool {
    (now - last_thought) * (1000 + activity) >= interval_ms * 1000
}

/// Whether a spontaneous thought is due at `now`.
pub fn should_generate_thought(now: i64, last_thought: i64, levels: &MindLevels) -> (r: bool)
    requires
        levels.wf(),
    ensures
        r == thought_due(now, last_thought, levels.thought_interval_ms, levels.mental_activity_level),
{
    let elapsed: i128 = now as i128 - last_thought as i128;
    proof {
        let e = elapsed as int;
        let f = (1000 + levels.mental_activity_level) as int;
        assert(-0x2_0000_0000_0000_0000int * 2000 <= e * f <= 0x2_0000_0000_0000_0000int * 2000)
            by (nonlinear_arith)
            requires
                -0x2_0000_0000_0000_0000int <= e <= 0x2_0000_0000_0000_0000int,
                1000 <= f <= 2000,
        ;
    }
    elapsed * (1000 + levels.mental_activity_level as i128) >= levels.thought_interval_ms as i128
        * 1000
}

/// The background task a thought asks for, if it asks for one.
pub open spec fn follow_up_for(t: SpontaneousThought) -> Option<BackgroundTask> {
    match t {
        SpontaneousThought::SelfReflection(_) => Some(BackgroundTask::DeepReflection),
        SpontaneousThought::CreativeInsight(_) => Some(BackgroundTask::CreativeIncubation),
        SpontaneousThought::GoalReassessment(_) => Some(BackgroundTask::GoalReassessment),
        _ => None,
    }
}

/// The background task a thought asks for: deep reflection after
/// self-reflection, incubation after a creative insight, reassessment after
/// goal reassessment.
pub fn follow_up_task(t: &SpontaneousThought) -> (r: Option<BackgroundTask>)
    ensures
        r == follow_up_for(*t),
{
    match t {
        SpontaneousThought::SelfReflection(_) => Some(BackgroundTask::DeepReflection),
        SpontaneousThought::CreativeInsight(_) => Some(BackgroundTask::CreativeIncubation),
        SpontaneousThought::GoalReassessment(_) => Some(BackgroundTask::GoalReassessment),
        _ => None,
    }
}

/// The cognitive process a thought is recorded as: self-reflection keeps its
/// text and the current confidence, an attention shift its text as the
/// reason, a creative insight becomes a prediction with the creativity level
/// as confidence, and every other thought emotional processing.
pub fn thought_process(t: &SpontaneousThought, confidence: i64, creativity: i64) -> (r:
    CognitiveProcess)
    ensures
        match *t {
            SpontaneousThought::SelfReflection(s) => r == CognitiveProcess::SelfReflection {
                insight: s,
                confidence,
            },
            SpontaneousThought::AttentionShift(s) => match r {
                CognitiveProcess::AttentionShift { from, to, reason } => from@
                    == "previous focus"@ && to@ == "new spontaneous focus"@ && reason == s,
                _ => false,
            },
            SpontaneousThought::CreativeInsight(s) => r == CognitiveProcess::PredictiveThinking {
                prediction: s,
                confidence: creativity,
            },
            _ => match r {
                CognitiveProcess::EmotionalProcessing { trigger, outcome } => trigger@
                    == "spontaneous thought generation"@ && outcome@ == thought_text(*t),
                _ => false,
            },
        },
{
    match t {
        SpontaneousThought::SelfReflection(s) => CognitiveProcess::SelfReflection {
            insight: s.clone(),
            confidence,
        },
        SpontaneousThought::AttentionShift(s) => CognitiveProcess::AttentionShift {
            from: "previous focus".to_owned(),
            to: "new spontaneous focus".to_owned(),
            reason: s.clone(),
        },
        SpontaneousThought::CreativeInsight(s) => CognitiveProcess::PredictiveThinking {
            prediction: s.clone(),
            confidence: creativity,
        },
        _ => CognitiveProcess::EmotionalProcessing {
            trigger: "spontaneous thought generation".to_owned(),
            outcome: t.text().clone(),
        },
    }
}

/// Chooses a thought, stamps it at `now` with the activity level as its
/// intensity and its trigger, records it in the journal, and schedules the
/// follow-up task it asks for when it needs follow-up. Returns the activity.
pub fn generate_enhanced_spontaneous_thought(
    inputs: &ThoughtInputs,
    activity_level: i64,
    journal: &mut ActivityJournal,
    scheduler: &mut TaskScheduler,
    now: i64,
    chance_roll: u64,
    pick_roll: u64,
) -> (r: MentalActivity)
    requires
        inputs.affect.wf(),
        old(journal).inv(),
        old(scheduler)@.inv(),
        0 <= activity_level <= 1000,
    ensures
        (thought_kind(r.thought), thought_text(r.thought)) == chosen_thought(
            *inputs,
            chance_roll,
            pick_roll,
        ),
        r.intensity == activity_level,
        r.timestamp == now,
        r.triggered_by.is_some() && r.triggered_by.unwrap()@ == trigger_text(*inputs),
        final(journal).inv(),
        old(journal)@.len() < old(journal).capacity_spec() ==> final(journal)@ == old(journal)@.push(r),
        old(journal)@.len() >= old(journal).capacity_spec() ==> is_top_k(
            final(journal)@,
            old(journal)@.push(r),
            old(journal).retain_spec(),
            now,
        ),
        final(journal).capacity_spec() == old(journal).capacity_spec(),
        final(journal).retain_spec() == old(journal).retain_spec(),
        final(scheduler)@.inv(),
        (follow_up_needed(r, now) && follow_up_for(r.thought).is_some()) ==> final(scheduler)@
            == old(scheduler)@.schedule(follow_up_for(r.thought).unwrap()),
        !(follow_up_needed(r, now) && follow_up_for(r.thought).is_some()) ==> final(scheduler)@
            == old(scheduler)@,
{
    let thought = select_enhanced_thought_type(inputs, chance_roll, pick_roll);
    let trigger = determine_thought_trigger(inputs);
    let activity = MentalActivity::new(thought, activity_level, now, Some(trigger));
    journal.record(activity.duplicate(), now);
    if activity.needs_follow_up_at(now) {
        match follow_up_task(&activity.thought) {
            Some(task) => scheduler.schedule_task(task),
            None => {},
        }
    }
    activity
}

/// Generates a spontaneous thought now, drawing the time from the system
/// clock and the two chance rolls at random; whatever is drawn, the thought
/// is one the decision table gives for some rolls and is recorded and
/// followed up as `generate_enhanced_spontaneous_thought` says.
pub fn generate_spontaneous_thought(
    inputs: &ThoughtInputs,
    activity_level: i64,
    journal: &mut ActivityJournal,
    scheduler: &mut TaskScheduler,
) -> (r: MentalActivity)
    requires
        inputs.affect.wf(),
        old(journal).inv(),
        old(scheduler)@.inv(),
        0 <= activity_level <= 1000,
    ensures
        exists|chance_roll: u64, pick_roll: u64|
            (thought_kind(r.thought), thought_text(r.thought)) == #[trigger] chosen_thought(
                *inputs,
                chance_roll,
                pick_roll,
            ),
        r.intensity == activity_level,
        r.triggered_by.is_some() && r.triggered_by.unwrap()@ == trigger_text(*inputs),
        final(journal).inv(),
        old(journal)@.len() < old(journal).capacity_spec() ==> final(journal)@ == old(journal)@.push(r),
        old(journal)@.len() >= old(journal).capacity_spec() ==> is_top_k(
            final(journal)@,
            old(journal)@.push(r),
            old(journal).retain_spec(),
            r.timestamp,
        ),
        final(scheduler)@.inv(),
        (follow_up_needed(r, r.timestamp) && follow_up_for(r.thought).is_some()) ==> final(scheduler)@
            == old(scheduler)@.schedule(follow_up_for(r.thought).unwrap()),
        !(follow_up_needed(r, r.timestamp) && follow_up_for(r.thought).is_some()) ==> final(scheduler)@
            == old(scheduler)@,
{
    let now = now_millis();
    let chance_roll = random_u64();
    let pick_roll = random_u64();
    generate_enhanced_spontaneous_thought(inputs, activity_level, journal, scheduler, now, chance_roll, pick_roll)
}

/// Number of entries recent at `now` (recency above 300) and the sum of
/// their intensities.
pub open spec fn recent_stats(s: Seq<MentalActivity>, now: i64) -> (int, int)
    decreases s.len(),
{
    if s.len() == 0 {
        (0, 0)
    } else {
        let rest = recent_stats(s.drop_last(), now);
        if recency(now, s.last().timestamp) > 300 {
            (rest.0 + 1, rest.1 + s.last().intensity)
        } else {
            rest
        }
    }
}

proof fn lemma_recent_stats_bounds(s: Seq<MentalActivity>, now: i64)
    requires
        forall|i: int| 0 <= i < s.len() ==> (#[trigger] s[i]).wf(),
    ensures
        0 <= recent_stats(s, now).0 <= s.len(),
        0 <= recent_stats(s, now).1 <= 1000 * recent_stats(s, now).0,
    decreases s.len(),
{
    if s.len() > 0 {
        assert forall|i: int| 0 <= i < s.drop_last().len() implies (#[trigger] s.drop_last()[i]).wf() by {
            assert(s.drop_last()[i] == s[i]);
        }
        lemma_recent_stats_bounds(s.drop_last(), now);
        assert(s.last() == s[s.len() - 1]);
    }
}

/// Whether sustained intense activity calls for a health check: at least
/// five entries, of which at least three are recent with mean intensity
/// above 700.
pub open spec fn activity_alarm(s: Seq<MentalActivity>, now: i64) -> bool {
    s.len() >= 5 && recent_stats(s, now).0 >= 3 && recent_stats(s, now).1 > 700 * recent_stats(
        s,
        now,
    ).0
}

/// Whether the journal shows sustained intense activity at `now`.
pub fn analyze_thought_patterns(journal: &ActivityJournal, now: i64) -> (r: bool)
    requires
        journal.inv(),
    ensures
        r == activity_alarm(journal@, now),
{
    let entries = journal.recent(journal.len());
    proof {
        assert(entries@.len() == journal@.len());
    }
    if entries.len() < 5 {
        return false;
    }
    let n = entries.len();
    let mut count: u128 = 0;
    let mut sum: u128 = 0;
    let mut i: usize = 0;
    let ghost s = journal@;
    proof {
        journal.lemma_entries_wf();
    }
    while i < n
        invariant
            n == s.len(),
            entries@ == crate::journal::newest_first(s, n as nat),
            i <= n,
            forall|k: int| 0 <= k < s.len() ==> (#[trigger] s[k]).wf(),
            count == recent_stats(s.subrange(0, i as int), now).0,
            sum == recent_stats(s.subrange(0, i as int), now).1,
            count <= i,
            sum <= 1000 * count,
        decreases n - i,
    {
        assert(s.subrange(0, i + 1).drop_last() =~= s.subrange(0, i as int));
        let a = &entries[n - 1 - i];
        assert(*a == s[i as int]);
        if a.recency_score_at(now) > 300 {
            count = count + 1;
            sum = sum + a.intensity as u128;
        }
        i = i + 1;
    }
    assert(s.subrange(0, n as int) =~= s);
    count >= 3 && sum > 700 * count
}

/// Runs the health check of the error tracker and, with the activity level
/// above 900, schedules emotional regulation. Returns whether the tracker
/// escalated.
pub fn monitor_system_health(
    tracker: &mut ErrorTracker,
    activity_level: i64,
    scheduler: &mut TaskScheduler,
) -> (r: bool)
    requires
        old(scheduler)@.inv(),
    ensures
        r == old(tracker)@.escalates(),
        final(scheduler)@.inv(),
        r ==> exists|summary: String|
            summary@ == recovery_summary(old(tracker)@.error_count) && final(tracker)@ == health_check(
                old(tracker)@,
                old(scheduler)@,
                summary,
            ).0 && final(scheduler)@ == if activity_level > 900 {
                health_check(old(tracker)@, old(scheduler)@, summary).1.schedule(
                    BackgroundTask::EmotionalRegulation,
                )
            } else {
                health_check(old(tracker)@, old(scheduler)@, summary).1
            },
        !r ==> final(tracker)@ == old(tracker)@ && final(scheduler)@ == if activity_level > 900 {
            old(scheduler)@.schedule(BackgroundTask::EmotionalRegulation)
        } else {
            old(scheduler)@
        },
{
    let escalated = tracker.check_health(scheduler);
    if activity_level > 900 {
        scheduler.schedule_task(BackgroundTask::EmotionalRegulation);
    }
    escalated
}

/// Entries whose relevance at `now` is above 6000 (ten-thousandths).
pub open spec fn highly_relevant(s: Seq<MentalActivity>, now: i64) -> nat
    decreases s.len(),
{
    if s.len() == 0 {
        0
    } else {
        highly_relevant(s.drop_last(), now) + if relevance(s.last(), now) > 6000 {
            1nat
        } else {
            0nat
        }
    }
}

/// The milestone a consolidation records for `n` highly relevant thoughts.
pub open spec fn consolidation_text(n: nat) -> Seq<char> {
    if n > 3 {
        "Consolidated "@ + decimal(n) + " high-relevance thoughts into memory patterns"@
    } else {
        "No significant thought patterns to consolidate"@
    }
}

/// The milestone a memory consolidation records: how many thoughts in the
/// journal are highly relevant at `now`, when more than three are.
pub fn consolidation_summary(journal: &ActivityJournal, now: i64) -> (r: String)
    requires
        journal.inv(),
    ensures
        r@ == consolidation_text(highly_relevant(journal@, now)),
{
    let entries = journal.recent(journal.len());
    let n = entries.len();
    let ghost s = journal@;
    proof {
        journal.lemma_entries_wf();
    }
    let mut count: u64 = 0;
    let mut i: usize = 0;
    while i < n
        invariant
            n == s.len(),
            entries@ == crate::journal::newest_first(s, n as nat),
            i <= n,
            forall|k: int| 0 <= k < s.len() ==> (#[trigger] s[k]).wf(),
            count == highly_relevant(s.subrange(0, i as int), now),
            count <= i,
        decreases n - i,
    {
        assert(s.subrange(0, i + 1).drop_last() =~= s.subrange(0, i as int));
        let a = &entries[n - 1 - i];
        assert(*a == s[i as int]);
        if a.relevance_score_at(now) > 6000 {
            count = count + 1;
        }
        i = i + 1;
    }
    assert(s.subrange(0, n as int) =~= s);
    if count > 3 {
        let head = concat("Consolidated ", decimal_string(count).as_str());
        concat(head.as_str(), " high-relevance thoughts into memory patterns")
    } else {
        "No significant thought patterns to consolidate".to_owned()
    }
}

/// Minimum time between two regulations, in milliseconds.
pub const REGULATION_INTERVAL_MS: i64 = 2_000;

/// Minimum time between two memory consolidations, in milliseconds.
pub const CONSOLIDATION_INTERVAL_MS: i64 = 300_000;

/// Whether at least `interval_ms` has passed from `last` to `now`.
pub fn interval_elapsed(now: i64, last: i64, interval_ms: i64) -> (r: bool)
    ensures
        r == (now - last >= interval_ms),
{
    now as i128 - last as i128 >= interval_ms as i128
}

/// A collaborator failure, by category.
#[derive(Debug, Clone, Copy, PartialEq, Eq)]
pub enum FailureKind {
    Network,
    Timeout,
    RateLimit,
    MalformedResponse,
    Other,
}

/// Text of the corrective thought a failure leads to.
pub open spec fn failure_text(kind: FailureKind, detail: Seq<char>) -> Seq<char> {
    match kind {
        FailureKind::Network => "Network connectivity issues detected. Switching to enhanced local processing mode."@,
        FailureKind::RateLimit => "Rate limiting encountered. Adjusting processing frequency to be more sustainable."@,
        _ => "Unexpected error encountered: "@ + detail + ". Implementing adaptive recovery strategies."@,
    }
}

/// The corrective thought after a collaborator failure of `kind`, described
/// by `detail`.
pub fn failure_thought(kind: FailureKind, detail: &str) -> (r: SpontaneousThought)
    ensures
        thought_kind(r) == 7,
        thought_text(r) == failure_text(kind, detail@),
{
    match kind {
        FailureKind::Network => SpontaneousThought::ErrorRecovery(
            "Network connectivity issues detected. Switching to enhanced local processing mode.".to_owned(),
        ),
        FailureKind::RateLimit => SpontaneousThought::ErrorRecovery(
            "Rate limiting encountered. Adjusting processing frequency to be more sustainable.".to_owned(),
        ),
        _ => {
            let head = concat("Unexpected error encountered: ", detail);
            SpontaneousThought::ErrorRecovery(
                concat(head.as_str(), ". Implementing adaptive recovery strategies."),
            )
        },
    }
}

/// Counts a collaborator failure of `kind` at `now` and records the
/// corrective thought with intensity 600; returns the recorded activity.
pub fn handle_error(
    tracker: &mut ErrorTracker,
    journal: &mut ActivityJournal,
    kind: FailureKind,
    detail: &str,
    now: i64,
) -> (r: MentalActivity)
    requires
        old(tracker)@.error_types.len() <= crate::health::ERROR_HISTORY_CAPACITY,
        old(journal).inv(),
    ensures
        exists|category: String|
            category@ == detail@ && final(tracker)@ == old(tracker)@.record(category, now),
        final(tracker)@.error_types.len() <= crate::health::ERROR_HISTORY_CAPACITY,
        thought_kind(r.thought) == 7,
        thought_text(r.thought) == failure_text(kind, detail@),
        r.intensity == 600,
        r.timestamp == now,
        final(journal).inv(),
        old(journal)@.len() < old(journal).capacity_spec() ==> final(journal)@ == old(journal)@.push(r),
        old(journal)@.len() >= old(journal).capacity_spec() ==> is_top_k(
            final(journal)@,
            old(journal)@.push(r),
            old(journal).retain_spec(),
            now,
        ),
        final(journal).capacity_spec() == old(journal).capacity_spec(),
        final(journal).retain_spec() == old(journal).retain_spec(),
{
    let category = detail.to_owned();
    let ghost c = category;
    tracker.record_failure(category, now);
    let thought = failure_thought(kind, detail);
    let activity = MentalActivity::new(thought, 600, now, Some("system_generated".to_owned()));
    journal.record(activity.duplicate(), now);
    activity
}

/// The corrective thought a dispatched recovery task records.
pub fn recovery_thought(error: &str) -> (r: SpontaneousThought)
    ensures
        thought_kind(r) == 7,
        thought_text(r) == "Implementing recovery strategy for: "@ + error@,
{
    SpontaneousThought::ErrorRecovery(concat("Implementing recovery strategy for: ", error))
}

/// The thought creative incubation yields, above creativity 600.
pub fn creative_incubation_thought(creativity: i64) -> (r: Option<SpontaneousThought>)
    ensures
        creativity <= 600 ==> r.is_none(),
        creativity > 600 ==> r.is_some() && thought_kind(r.unwrap()) == 3 && thought_text(r.unwrap())
            == "Creative incubation process yielding new perspectives"@,
{
    if creativity > 600 {
        Some(
            SpontaneousThought::CreativeInsight(
                "Creative incubation process yielding new perspectives".to_owned(),
            ),
        )
    } else {
        None
    }
}

/// The thought social-context analysis yields, above social awareness 500.
pub fn social_context_thought(social_awareness: i64) -> (r: Option<SpontaneousThought>)
    ensures
        social_awareness <= 500 ==> r.is_none(),
        social_awareness > 500 ==> r.is_some() && thought_kind(r.unwrap()) == 9 && thought_text(
            r.unwrap(),
        ) == "Social context analysis reveals heightened awareness"@,
{
    if social_awareness > 500 {
        Some(
            SpontaneousThought::SystemIntegration(
                "Social context analysis reveals heightened awareness".to_owned(),
            ),
        )
    } else {
        None
    }
}

/// What following up on a thought means.
#[derive(Debug, Clone, Copy, PartialEq, Eq)]
pub enum FollowUp {
    /// Record a further self-reflection with the current confidence.
    DeepenReflection,
    /// Choose the goal to focus on afresh.
    Refocus,
    /// Nothing.
    Nothing,
}

/// The follow-up a thought that needs one calls for.
pub fn follow_up_action(t: &SpontaneousThought) -> (r: FollowUp)
    ensures
        r == (match *t {
            SpontaneousThought::SelfReflection(_) => FollowUp::DeepenReflection,
            SpontaneousThought::GoalReassessment(_) => FollowUp::Refocus,
            _ => FollowUp::Nothing,
        }),
{
    match t {
        SpontaneousThought::SelfReflection(_) => FollowUp::DeepenReflection,
        SpontaneousThought::GoalReassessment(_) => FollowUp::Refocus,
        _ => FollowUp::Nothing,
    }
}

} // verus!
