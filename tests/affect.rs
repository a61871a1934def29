use cogno::affect::{
    describe_arousal, describe_dominance, describe_novelty, describe_valence, synthesize_feeling,
    AffectiveConfig, AffectiveCore, AffectiveState,
};
use std::sync::{Arc, Mutex};

fn state(valence: i64, arousal: i64, dominance: i64, novelty: i64) -> AffectiveState {
    AffectiveState { valence, arousal, dominance, novelty }
}

fn in_range(s: &AffectiveState) -> bool {
    (-1000..=1000).contains(&s.valence)
        && (0..=1000).contains(&s.arousal)
        && (-1000..=1000).contains(&s.dominance)
        && (-1000..=1000).contains(&s.novelty)
}

#[test]
fn neutral_state() {
    assert_eq!(AffectiveState::new_neutral(), state(0, 300, 100, 0));
}

#[test]
fn apply_change_clamps_each_dimension() {
    let mut s = AffectiveState::new_neutral();
    s.apply_change(state(2000, -5000, 950, -1500));
    assert_eq!(s, state(1000, 0, 1000, -1000));
    s.apply_change(state(i64::MIN, i64::MAX, -1, 1));
    assert_eq!(s, state(-1000, 1000, 999, -999));
}

#[test]
fn decay_moves_toward_baseline() {
    let mut s = state(1000, 1000, -1000, 500);
    s.decay(AffectiveState::new_neutral(), 150);
    assert_eq!(s, state(850, 895, -835, 425));
    let mut t = state(1000, 1000, -1000, 500);
    t.decay(AffectiveState::new_neutral(), 5000);
    assert_eq!(t, AffectiveState::new_neutral());
    let mut u = state(1000, 1000, -1000, 500);
    u.decay(AffectiveState::new_neutral(), -7);
    assert_eq!(u, state(1000, 1000, -1000, 500));
}

#[test]
fn fields_stay_in_range_over_many_mutations() {
    let mut s = AffectiveState::new_neutral();
    let changes = [
        state(700, 700, 700, 700),
        state(-2500, 100, -900, 3000),
        state(400, -900, 2000, -2000),
        state(i64::MAX, i64::MIN, i64::MAX, i64::MIN),
    ];
    for (k, c) in changes.iter().enumerate() {
        s.apply_change(*c);
        assert!(in_range(&s));
        s.decay(state(-300, 800, 1000, -1000), (k as i64) * 300);
        assert!(in_range(&s));
    }
}

#[test]
fn process_emotion_scales_by_empathy() {
    let mut core = AffectiveCore::new(AffectiveConfig::default_config());
    core.process_emotion(state(600, 400, 200, 100), "Joy".to_string());
    assert_eq!(core.current_state(), state(300, 500, 200, 50));
    core.process_emotion(state(-1, -1, -1, -1), "tiny".to_string());
    assert_eq!(core.current_state(), state(300, 500, 200, 50));
    assert_eq!(core.history().len(), 2);
}

#[test]
fn history_keeps_last_ten() {
    let mut core = AffectiveCore::new(AffectiveConfig::default_config());
    for i in 0..12 {
        core.process_emotion(state(0, 0, 0, 0), format!("e{}", i));
    }
    assert_eq!(core.history().len(), 10);
    assert_eq!(core.history()[0], "e2");
    assert_eq!(core.history()[9], "e11");
}

#[test]
fn regulate_and_rebaseline() {
    let mut core = AffectiveCore::new(AffectiveConfig::default_config());
    core.process_emotion(state(600, 400, 200, 100), "Joy".to_string());
    core.regulate_emotion();
    assert_eq!(core.current_state(), state(255, 470, 185, 43));
    core.set_baseline(state(0, 0, 0, 0));
    assert_eq!(core.config().baseline_state, state(0, 0, 0, 0));
    assert_eq!(core.current_state(), state(255, 470, 185, 43));
}

#[test]
fn blocking_and_skipping_mutations_never_tear() {
    let commit_then_regulate = state(255, 470, 185, 43);
    let regulate_then_commit_or_skip = state(300, 500, 200, 50);

    // The maintenance attempt comes while the commit holds the lock: it skips.
    let core = Arc::new(Mutex::new(AffectiveCore::new(AffectiveConfig::default_config())));
    {
        let mut guard = core.lock().unwrap();
        let contender = Arc::clone(&core);
        assert!(contender.try_lock().is_err());
        guard.process_emotion(state(600, 400, 200, 100), "Joy".to_string());
    }
    assert_eq!(core.lock().unwrap().current_state(), regulate_then_commit_or_skip);

    // The maintenance attempt comes after the commit: both apply, in order.
    let core = Arc::new(Mutex::new(AffectiveCore::new(AffectiveConfig::default_config())));
    core.lock().unwrap().process_emotion(state(600, 400, 200, 100), "Joy".to_string());
    if let Ok(mut guard) = core.try_lock() {
        guard.regulate_emotion();
    }
    assert_eq!(core.lock().unwrap().current_state(), commit_then_regulate);

    // The maintenance attempt comes first: regulation at baseline changes
    // nothing, then the commit applies.
    let core = Arc::new(Mutex::new(AffectiveCore::new(AffectiveConfig::default_config())));
    if let Ok(mut guard) = core.try_lock() {
        guard.regulate_emotion();
    }
    core.lock().unwrap().process_emotion(state(600, 400, 200, 100), "Joy".to_string());
    assert_eq!(core.lock().unwrap().current_state(), regulate_then_commit_or_skip);
}

#[test]
fn affect_words() {
    assert_eq!(describe_valence(800), "very positive");
    assert_eq!(describe_valence(-400), "negative");
    assert_eq!(describe_arousal(300), "low energy");
    assert_eq!(describe_dominance(100), "neutral control");
    assert_eq!(describe_novelty(-800), "highly expected");
    assert_eq!(synthesize_feeling(600, 600, 0), "elated and energetic");
    assert_eq!(synthesize_feeling(-600, 700, 500), "indignant and assertive");
    assert_eq!(synthesize_feeling(-600, 100, -500), "dejected and powerless");
    assert_eq!(synthesize_feeling(0, 300, 100), "calmly neutral");
}
