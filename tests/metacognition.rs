use cogno::metacognition::{CognitiveProcess, MetacognitiveMonitor, ReflectionTrigger};

#[test]
fn value_conflict_moves_state_and_fires_triggers() {
    let mut m = MetacognitiveMonitor::new();
    m.record_process(
        CognitiveProcess::ValueConflict { conflict: "c".to_string(), resolution: "r".to_string() },
        0,
    );
    let s = m.state();
    assert_eq!(s.cognitive_load, 700);
    assert_eq!(s.self_awareness_level, 350);
    assert_eq!(s.reasoning_confidence, 400);
    assert_eq!(s.introspection_depth, 400);
    assert_eq!(s.meta_reasoning_strength, 400);
    let t = m.triggers();
    assert_eq!(t[0].last_triggered, None);
    assert_eq!(t[1].last_triggered, Some(0));
    assert_eq!(t[2].last_triggered, Some(0));
    assert_eq!(m.reflection_queue().len(), 3);
    assert_eq!(m.reflection_queue()[0], "Process-triggered reflection: value_conflict");
    assert_eq!(m.history().len(), 1);
}

#[test]
fn state_stays_clamped() {
    let mut m = MetacognitiveMonitor::new();
    for i in 0..20 {
        m.record_process(
            CognitiveProcess::ValueConflict { conflict: "c".to_string(), resolution: "r".to_string() },
            i,
        );
    }
    let s = m.state();
    assert_eq!(s.cognitive_load, 1000);
    assert_eq!(s.reasoning_confidence, 0);
    assert!(m.reflection_queue().len() <= 10);
}

#[test]
fn self_reflection_averages_confidence() {
    let mut m = MetacognitiveMonitor::new();
    m.record_process(
        CognitiveProcess::SelfReflection { insight: "i".to_string(), confidence: 900 },
        0,
    );
    let s = m.state();
    assert_eq!(s.reasoning_confidence, 700);
    assert_eq!(s.self_awareness_level, 390);
    assert_eq!(s.cognitive_load, 350);
    assert_eq!(s.introspection_depth, 350);
    assert_eq!(s.meta_reasoning_strength, 431);
}

#[test]
fn decay_relaxes_state() {
    let mut m = MetacognitiveMonitor::new();
    m.decay_over_time();
    let s = m.state();
    assert_eq!(s.cognitive_load, 190);
    assert_eq!(s.attention_intensity, 490);
    assert_eq!(s.self_awareness_level, 297);
    assert_eq!(s.reasoning_confidence, 495);
    assert_eq!(s.introspection_depth, 298);
    assert_eq!(s.meta_reasoning_strength, 399);
}

#[test]
fn trigger_cooldown() {
    let mut t = ReflectionTrigger::new("t", 500, "d", 900, 10);
    assert!(t.should_trigger(500, 0));
    assert!(!t.should_trigger(499, 0));
    t.trigger(0);
    assert!(!t.should_trigger(900, 9 * 60_000));
    assert_eq!(t.cooldown_remaining_minutes(9 * 60_000), 1);
    assert!(t.should_trigger(900, 10 * 60_000));
    assert_eq!(t.cooldown_remaining_minutes(10 * 60_000), 0);
    t.trigger(-5);
    assert_eq!(t.last_triggered, Some(0));
}

#[test]
fn reflection_queue_drains() {
    let mut m = MetacognitiveMonitor::new();
    assert!(m.should_deep_reflect(0));
    m.record_process(
        CognitiveProcess::ErrorRecovery { error_type: "e".to_string(), strategy: "s".to_string() },
        0,
    );
    let q = m.process_reflection_queue(1);
    assert!(!q.is_empty());
    assert_eq!(m.reflection_queue().len(), 0);
}

#[test]
fn process_properties() {
    let p = CognitiveProcess::CreativeThinking { concept: "c".to_string(), originality: 800 };
    assert_eq!(p.cognitive_load_impact(), 100);
    assert_eq!(p.awareness_boost(), 24);
    assert!(p.triggers_reflection());
    let q = CognitiveProcess::MemoryRetrieval { query: "q".to_string(), success: true };
    assert_eq!(q.cognitive_load_impact(), 20);
    assert_eq!(q.awareness_boost(), 10);
    assert!(!q.triggers_reflection());
}

#[test]
fn self_narrative_of_initial_state() {
    let m = MetacognitiveMonitor::new();
    assert_eq!(
        m.generate_self_narrative(),
        "My self-awareness is still developing. I have some uncertainty about my reasoning. \
My mind feels very relaxed. My introspection is relatively surface-level. \
My ability to think about thinking is still emerging. \
This gives me a comprehensive sense of my current mental state."
    );
}

#[test]
fn trigger_status_lines() {
    let mut m = MetacognitiveMonitor::new();
    let lines = m.get_trigger_status(0);
    assert_eq!(lines.len(), 7);
    assert_eq!(lines[0], "high_cognitive_load: ready (cooldown: 0min)");
    m.record_process(
        CognitiveProcess::ValueConflict { conflict: "c".to_string(), resolution: "r".to_string() },
        0,
    );
    let lines = m.get_trigger_status(5 * 60_000);
    assert_eq!(lines[2], "value_conflict: cooling down (cooldown: 25min)");
}

#[test]
fn pattern_analysis_lines() {
    let mut m = MetacognitiveMonitor::new();
    assert!(m.analyze_patterns().is_empty());
    for i in 0..3 {
        m.record_process(
            CognitiveProcess::ValueConflict { conflict: "c".to_string(), resolution: "r".to_string() },
            i,
        );
    }
    let notes = m.analyze_patterns();
    assert_eq!(
        notes[0],
        "I'm experiencing high cognitive load (100.0%). I should simplify my thinking processes."
    );
    assert_eq!(
        notes[1],
        "My confidence in my reasoning is low (20.0%). I should seek more information or reflect deeper."
    );
    assert_eq!(
        notes[2],
        "Significant pattern detected in value_conflict: value_conflict: 0.12/hour, significance: 0.98, recent insights: 3"
    );
    assert_eq!(
        notes[3],
        "Recent trigger: Reflection triggered by high_cognitive_load: Cognitive load exceeds 80% - need to assess efficiency"
    );
    assert_eq!(
        notes[4],
        "Recent trigger: Reflection triggered by value_conflict: Value conflict detected - need ethical reflection"
    );
    assert!(notes.iter().any(|n| n == "I have 6 pending reflections to process"));
}

#[test]
fn pattern_summary_line() {
    let mut p = cogno::metacognition::CognitivePattern::new("self_reflection");
    p.add_occurrence(Some("x".to_string()), 0);
    assert_eq!(p.frequency, 41);
    assert_eq!(p.significance, 328);
    assert_eq!(p.get_summary(), "self_reflection: 0.04/hour, significance: 0.32, recent insights: 1");
}

#[test]
fn reflection_status_and_pattern_summaries() {
    let mut m = MetacognitiveMonitor::new();
    assert_eq!(
        m.get_reflection_status(0),
        "Ready triggers: [\"high_cognitive_load\", \"low_confidence\", \"value_conflict\", \
\"high_self_awareness\", \"error_pattern\", \"creative_breakthrough\", \"social_complexity\"], \
Queued reflections: 0, Should deep reflect: true"
    );
    assert!(m.get_pattern_summary().is_empty());
    m.record_process(
        CognitiveProcess::ValueConflict { conflict: "c".to_string(), resolution: "r".to_string() },
        0,
    );
    let status = m.get_reflection_status(60_000);
    assert!(status.starts_with("Ready triggers: [\"high_cognitive_load\", \"high_self_awareness\""));
    assert!(status.ends_with("Queued reflections: 3, Should deep reflect: true"));
    assert_eq!(
        m.get_pattern_summary(),
        vec!["value_conflict: 0.04/hour, significance: 0.32, recent insights: 1".to_string()]
    );
}
