use cogno::affect::AffectiveState;
use cogno::health::ErrorTracker;
use cogno::journal::{ActivityJournal, SpontaneousThought};
use cogno::metacognition::{CognitiveProcess, MetacognitiveState};
use cogno::mind::{
    analyze_thought_patterns, consolidation_summary, determine_thought_trigger,
    failure_thought, follow_up_action, follow_up_task, FollowUp, generate_enhanced_spontaneous_thought, handle_error,
    interval_elapsed, monitor_system_health, select_enhanced_thought_type,
    should_generate_thought, thought_process, update_comprehensive_mental_state, FailureKind,
    MindLevels, ThoughtInputs,
};
use cogno::scheduler::{BackgroundTask, TaskScheduler};

fn quiet() -> ThoughtInputs {
    ThoughtInputs {
        affect: AffectiveState { valence: 0, arousal: 300, dominance: 100, novelty: 0 },
        metacog: MetacognitiveState {
            self_awareness_level: 300,
            reasoning_confidence: 500,
            cognitive_load: 200,
            situation_understanding: 400,
            attention_intensity: 500,
            introspection_depth: 300,
            meta_reasoning_strength: 400,
        },
        active_goals: 1,
        creativity: 500,
        social_awareness: 400,
    }
}

#[test]
fn decision_table_first_match_wins() {
    let mut i = quiet();
    i.metacog.cognitive_load = 900;
    i.metacog.self_awareness_level = 900;
    assert!(matches!(select_enhanced_thought_type(&i, 0, 0), SpontaneousThought::ErrorRecovery(_)));
    i.metacog.cognitive_load = 200;
    assert!(matches!(select_enhanced_thought_type(&i, 0, 0), SpontaneousThought::SelfReflection(_)));
    i.affect.valence = -400;
    assert!(matches!(select_enhanced_thought_type(&i, 0, 0), SpontaneousThought::EmotionalProcessing(_)));
    let mut c = quiet();
    c.creativity = 800;
    c.affect.novelty = 600;
    assert!(matches!(select_enhanced_thought_type(&c, 0, 0), SpontaneousThought::CreativeInsight(_)));
    let mut e = quiet();
    e.active_goals = 0;
    e.social_awareness = 700;
    assert!(matches!(select_enhanced_thought_type(&e, 0, 0), SpontaneousThought::ExistentialWondering(_)));
    let mut a = quiet();
    a.affect.arousal = 800;
    assert!(matches!(select_enhanced_thought_type(&a, 0, 0), SpontaneousThought::GoalReassessment(_)));
    a.active_goals = 0;
    assert!(matches!(select_enhanced_thought_type(&a, 0, 0), SpontaneousThought::AttentionShift(_)));
}

#[test]
fn decision_table_chance_rows() {
    let mut s = quiet();
    s.social_awareness = 550;
    assert!(matches!(select_enhanced_thought_type(&s, 299, 0), SpontaneousThought::SystemIntegration(_)));
    assert!(matches!(select_enhanced_thought_type(&s, 300, 0), SpontaneousThought::MemoryRecall(_)));
    let q = quiet();
    assert!(matches!(select_enhanced_thought_type(&q, 0, 3), SpontaneousThought::MemoryRecall(_)));
    assert!(matches!(select_enhanced_thought_type(&q, 0, 4), SpontaneousThought::CuriosityDriven(_)));
    assert!(matches!(select_enhanced_thought_type(&q, 0, 5), SpontaneousThought::EmotionalProcessing(_)));
}

#[test]
fn trigger_explanations() {
    let mut i = quiet();
    assert_eq!(determine_thought_trigger(&i), "natural mental activity");
    i.active_goals = 3;
    assert_eq!(determine_thought_trigger(&i), "multiple active goals");
    i.affect.valence = -600;
    assert_eq!(determine_thought_trigger(&i), "emotional intensity");
    i.affect.arousal = 700;
    assert_eq!(determine_thought_trigger(&i), "elevated arousal");
    i.metacog.cognitive_load = 701;
    assert_eq!(determine_thought_trigger(&i), "high cognitive load");
}

#[test]
fn thought_timing() {
    let levels = MindLevels::new();
    assert!(should_generate_thought(30_000, 0, &levels));
    assert!(!should_generate_thought(21_428, 0, &levels));
    assert!(should_generate_thought(21_429, 0, &levels));
    assert!(interval_elapsed(2_000, 0, 2_000));
    assert!(!interval_elapsed(1_999, 0, 2_000));
}

#[test]
fn levels_smoothing() {
    let mut l = MindLevels::new();
    let q = quiet();
    update_comprehensive_mental_state(&mut l, &q.affect, &q.metacog, 2);
    assert_eq!(l.mental_activity_level, 368);
    assert_eq!(l.introspection_tendency, 300);
    assert_eq!(l.creativity_level, 475);
    assert_eq!(l.social_awareness, 410);
    update_comprehensive_mental_state(&mut l, &q.affect, &q.metacog, 1_000_000);
    assert_eq!(l.mental_activity_level, 1000);
}

#[test]
fn follow_ups_and_processes() {
    assert!(matches!(
        follow_up_task(&SpontaneousThought::SelfReflection("x".to_string())),
        Some(BackgroundTask::DeepReflection)
    ));
    assert!(matches!(
        follow_up_task(&SpontaneousThought::CreativeInsight("x".to_string())),
        Some(BackgroundTask::CreativeIncubation)
    ));
    assert!(follow_up_task(&SpontaneousThought::MemoryRecall("x".to_string())).is_none());
    match thought_process(&SpontaneousThought::CreativeInsight("idea".to_string()), 100, 750) {
        CognitiveProcess::PredictiveThinking { prediction, confidence } => {
            assert_eq!(prediction, "idea");
            assert_eq!(confidence, 750);
        }
        other => panic!("unexpected {:?}", other),
    }
}

#[test]
fn generated_thought_is_journaled_and_followed_up() {
    let mut i = quiet();
    i.metacog.self_awareness_level = 900;
    let mut j = ActivityJournal::new();
    let mut s = TaskScheduler::new();
    let a = generate_enhanced_spontaneous_thought(&i, 800, &mut j, &mut s, 1_000, 0, 0);
    assert!(matches!(a.thought, SpontaneousThought::SelfReflection(_)));
    assert_eq!(a.intensity, 800);
    assert_eq!(a.triggered_by.as_deref(), Some("high self-awareness"));
    assert_eq!(j.len(), 1);
    assert!(matches!(s.get_next_task(), Some(BackgroundTask::DeepReflection)));
    let b = generate_enhanced_spontaneous_thought(&i, 400, &mut j, &mut s, 2_000, 0, 0);
    assert_eq!(b.intensity, 400);
    assert_eq!(s.pending_count(), 0);
}

#[test]
fn activity_alarm_needs_intense_recent_thoughts() {
    let mut j = ActivityJournal::new();
    let mut s = TaskScheduler::new();
    let q = quiet();
    for k in 0..4 {
        generate_enhanced_spontaneous_thought(&q, 900, &mut j, &mut s, k, 0, 0);
    }
    assert!(!analyze_thought_patterns(&j, 10));
    generate_enhanced_spontaneous_thought(&q, 900, &mut j, &mut s, 5, 0, 0);
    assert!(analyze_thought_patterns(&j, 10));
    assert!(!analyze_thought_patterns(&j, 10 + 30 * 60_000));
}

#[test]
fn health_monitoring_schedules_regulation() {
    let mut t = ErrorTracker::new();
    let mut s = TaskScheduler::new();
    assert!(!monitor_system_health(&mut t, 950, &mut s));
    assert!(matches!(s.get_next_task(), Some(BackgroundTask::EmotionalRegulation)));
    for k in 0..7 {
        t.record_failure("x".to_string(), k);
    }
    assert!(monitor_system_health(&mut t, 100, &mut s));
    assert_eq!(t.error_count(), 0);
    assert!(matches!(s.get_next_task(), Some(BackgroundTask::ErrorRecovery(_))));
}

#[test]
fn failures_become_corrective_thoughts() {
    match failure_thought(FailureKind::RateLimit, "ignored") {
        SpontaneousThought::ErrorRecovery(t) => assert!(t.starts_with("Rate limiting")),
        other => panic!("unexpected {:?}", other),
    }
    match failure_thought(FailureKind::Other, "EmptyResponse") {
        SpontaneousThought::ErrorRecovery(t) => assert_eq!(
            t,
            "Unexpected error encountered: EmptyResponse. Implementing adaptive recovery strategies."
        ),
        other => panic!("unexpected {:?}", other),
    }
    let mut t = ErrorTracker::new();
    let mut j = ActivityJournal::new();
    let a = handle_error(&mut t, &mut j, FailureKind::Network, "NetworkError", 9);
    assert_eq!(a.intensity, 600);
    assert_eq!(t.error_count(), 1);
    assert_eq!(t.error_types()[0], "NetworkError");
    assert_eq!(j.len(), 1);
}

#[test]
fn consolidation_counts_relevant_thoughts() {
    let mut j = ActivityJournal::new();
    let mut s = TaskScheduler::new();
    let q = quiet();
    assert_eq!(consolidation_summary(&j, 0), "No significant thought patterns to consolidate");
    for k in 0..4 {
        generate_enhanced_spontaneous_thought(&q, 900, &mut j, &mut s, k, 0, 0);
    }
    assert_eq!(
        consolidation_summary(&j, 10),
        "Consolidated 4 high-relevance thoughts into memory patterns"
    );
}

#[test]
fn follow_up_decisions() {
    assert_eq!(follow_up_action(&SpontaneousThought::SelfReflection("a".to_string())), FollowUp::DeepenReflection);
    assert_eq!(follow_up_action(&SpontaneousThought::GoalReassessment("a".to_string())), FollowUp::Refocus);
    assert_eq!(follow_up_action(&SpontaneousThought::MemoryRecall("a".to_string())), FollowUp::Nothing);
}
