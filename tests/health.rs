use cogno::health::ErrorTracker;
use cogno::scheduler::{BackgroundTask, TaskScheduler};

#[test]
fn escalation_enqueues_one_recovery_and_resets() {
    let mut t = ErrorTracker::new();
    let mut s = TaskScheduler::new();
    for i in 0..6 {
        t.record_failure("NetworkError".to_string(), i);
    }
    assert_eq!(t.error_count(), 6);
    assert!(t.check_health(&mut s));
    assert_eq!(t.error_count(), 0);
    assert_eq!(s.pending_count(), 1);
    assert!(!t.check_health(&mut s));
    assert_eq!(s.pending_count(), 1);
    match s.get_next_task() {
        Some(BackgroundTask::ErrorRecovery(text)) => assert_eq!(text, "High error count: 6"),
        other => panic!("unexpected task {:?}", other),
    }
}

#[test]
fn at_threshold_nothing_happens() {
    let mut t = ErrorTracker::new();
    let mut s = TaskScheduler::new();
    for i in 0..5 {
        t.record_failure("Timeout".to_string(), i);
    }
    assert!(!t.check_health(&mut s));
    assert_eq!(t.error_count(), 5);
    assert_eq!(s.pending_count(), 0);
}

#[test]
fn failure_history_keeps_twenty() {
    let mut t = ErrorTracker::new();
    for i in 0..25 {
        t.record_failure(format!("e{}", i), i);
    }
    assert_eq!(t.error_types().len(), 20);
    assert_eq!(t.error_types()[0], "e5");
    assert_eq!(t.last_error_time(), Some(24));
}
