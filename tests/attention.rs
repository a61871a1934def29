use cogno::attention::{AttentionState, AttentionSystem, AttentionTarget};

fn targets(a: &AttentionSystem) -> Vec<String> {
    a.get_background_attention().iter().map(|s| format!("{:?}", s.target)).collect()
}

#[test]
fn full_background_evicts_weakest_target() {
    let mut a = AttentionSystem::with_capacity(3);
    a.focus_on(AttentionTarget::Learning, 200_000, 200_000, 0);
    a.focus_on(AttentionTarget::MemoryRecall, 100_000, 100_000, 0);
    a.focus_on(AttentionTarget::SelfEmotion, 300_000, 300_000, 0);
    assert_eq!(a.get_background_attention().len(), 3);
    a.focus_on(AttentionTarget::ProblemSolving, 250_000, 250_000, 0);
    assert_eq!(targets(&a), vec!["Learning", "SelfEmotion", "ProblemSolving"]);
    assert!(a.get_primary_focus().is_none());
}

#[test]
fn weakest_newcomer_is_the_one_dropped() {
    let mut a = AttentionSystem::with_capacity(2);
    a.focus_on(AttentionTarget::Learning, 200_000, 0, 0);
    a.focus_on(AttentionTarget::SelfGoals, 300_000, 0, 0);
    a.focus_on(AttentionTarget::MemoryRecall, 100_000, 0, 0);
    assert_eq!(targets(&a), vec!["Learning", "SelfGoals"]);
}

#[test]
fn same_target_replaces_its_state() {
    let mut a = AttentionSystem::new();
    a.focus_on(AttentionTarget::ConversationTopic("rust".to_string()), 200_000, 0, 0);
    a.focus_on(AttentionTarget::ConversationTopic("rust".to_string()), 400_000, 0, 5);
    a.focus_on(AttentionTarget::ConversationTopic("go".to_string()), 100_000, 0, 5);
    let bg = a.get_background_attention();
    assert_eq!(bg.len(), 2);
    assert_eq!(bg[0].intensity, 400_000);
    assert_eq!(bg[0].last_updated, 5);
}

#[test]
fn strong_attention_becomes_primary_and_displaces_focus() {
    let mut a = AttentionSystem::new();
    a.focus_on(AttentionTarget::UserEmotion, 800_000, 900_000, 0);
    assert!(matches!(a.get_primary_focus().unwrap().target, AttentionTarget::UserEmotion));
    a.focus_on(AttentionTarget::ProblemSolving, 600_000, 0, 1);
    assert!(matches!(a.get_primary_focus().unwrap().target, AttentionTarget::ProblemSolving));
    assert_eq!(targets(&a), vec!["UserEmotion"]);
    assert_eq!(a.history().len(), 2);
}

#[test]
fn update_decays_and_drops_weak_targets() {
    let mut a = AttentionSystem::new();
    a.focus_on(AttentionTarget::UserEmotion, 800_000, 0, 0);
    a.focus_on(AttentionTarget::Learning, 50_000, 0, 0);
    a.focus_on(AttentionTarget::SelfEmotion, 400_000, 0, 0);
    a.update(60_000, 60_000);
    let p = a.get_primary_focus().unwrap();
    assert_eq!(p.intensity, 792_000);
    assert_eq!(p.duration_ms, 60_000);
    assert_eq!(p.stability, 520_000);
    assert_eq!(targets(&a), vec!["SelfEmotion"]);
    assert_eq!(a.get_background_attention()[0].intensity, 396_000);
    assert_eq!(a.get_background_attention()[0].stability, 500_000);
}

#[test]
fn weak_primary_is_lost() {
    let mut a = AttentionSystem::new();
    a.focus_on(AttentionTarget::UserEmotion, 600_000, 0, 0);
    a.update(6_000_000, 1);
    assert!(a.get_primary_focus().is_none());
}

#[test]
fn state_new_clamps() {
    let s = AttentionState::new(AttentionTarget::Learning, 2_000_000, -5, 7);
    assert_eq!(s.intensity, 1_000_000);
    assert_eq!(s.salience, 0);
    assert_eq!(s.stability, 500_000);
}

#[test]
fn salient_stimulus_breaks_focus() {
    let mut a = AttentionSystem::new();
    a.focus_on(AttentionTarget::Learning, 100_000, 0, 0);
    a.evaluate_attention_shift(
        vec![
            (AttentionTarget::SelfGoals, 500_000),
            (AttentionTarget::UserEmotion, 650_000),
            (AttentionTarget::ProblemSolving, 900_000),
        ],
        3,
    );
    assert!(matches!(a.get_primary_focus().unwrap().target, AttentionTarget::UserEmotion));
    a.evaluate_attention_shift(vec![(AttentionTarget::CreativeThinking, 900_000)], 4);
    assert!(matches!(a.get_primary_focus().unwrap().target, AttentionTarget::UserEmotion));
    a.evaluate_attention_shift(vec![(AttentionTarget::CreativeThinking, 1_000_000)], 5);
    assert!(matches!(a.get_primary_focus().unwrap().target, AttentionTarget::UserEmotion));
}

#[test]
fn attention_descriptions() {
    let mut a = AttentionSystem::new();
    assert_eq!(a.describe_attention_state(), "My attention feels scattered right now");
    a.focus_on(AttentionTarget::ConversationTopic("rust".to_string()), 900_000, 0, 0);
    assert_eq!(a.describe_attention_state(), "I'm deeply concentrated on our discussion about rust");
    a.focus_on(AttentionTarget::Learning, 700_000, 0, 0);
    assert_eq!(a.describe_attention_state(), "I'm focused on learning and understanding");
}

#[test]
fn modifiers_follow_focus_and_background() {
    let mut a = AttentionSystem::new();
    assert!(a.generate_attention_modifiers().is_empty());
    a.focus_on(AttentionTarget::ConversationTopic("music".to_string()), 900_000, 0, 0);
    a.focus_on(AttentionTarget::SocialDynamics, 400_000, 0, 0);
    a.focus_on(AttentionTarget::SelfEmotion, 200_000, 0, 0);
    assert_eq!(
        a.generate_attention_modifiers(),
        vec![
            "Keep focus on the topic of 'music'".to_string(),
            "Be aware of social context and relationships".to_string()
        ]
    );
}

#[test]
fn pattern_observations() {
    let mut a = AttentionSystem::new();
    assert_eq!(a.analyze_attention_patterns(), vec!["My attention feels unfocused right now".to_string()]);
    a.focus_on(AttentionTarget::Learning, 900_000, 0, 0);
    a.update(900_000, 900_000);
    assert_eq!(a.analyze_attention_patterns().len(), 1);
    a.update(900_000, 1_800_000);
    let notes = a.analyze_attention_patterns();
    assert_eq!(notes[0], "I've been deeply focused on learning and understanding for 30 minutes");
    assert_eq!(notes[1], "My attention feels very stable and concentrated");
    for k in 0..6 {
        a.focus_on(AttentionTarget::MemoryRecall, 100_000 + k, 0, 0);
    }
    let notes = a.analyze_attention_patterns();
    assert_eq!(notes.last().unwrap(), "I've shifted attention 2 times recently");
}

#[test]
fn suggestions_from_context() {
    let a = AttentionSystem::new();
    let s = a.suggest_attention_targets("I have a PROBLEM and I feel stuck");
    let names: Vec<String> = s.iter().map(|(t, v)| format!("{:?}={}", t, v)).collect();
    assert_eq!(names, vec!["ProblemSolving=800000", "UserEmotion=700000", "SelfEmotion=400000"]);
    let quiet = a.suggest_attention_targets("hello");
    assert_eq!(quiet.len(), 1);
}
