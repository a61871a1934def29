use cogno::scheduler::{BackgroundTask, TaskScheduler};

#[test]
fn priorities_and_execution_times() {
    assert_eq!(BackgroundTask::ErrorRecovery("x".to_string()).priority(), 10);
    assert_eq!(BackgroundTask::EmotionalRegulation.priority(), 9);
    assert_eq!(BackgroundTask::SocialContextAnalysis.priority(), 2);
    assert_eq!(BackgroundTask::DeepReflection.execution_time(), 60);
    assert_eq!(BackgroundTask::AttentionUpdate.execution_time(), 1);
    assert_eq!(BackgroundTask::CreativeIncubation.execution_time(), 20);
}

#[test]
fn next_task_takes_highest_priority_first() {
    let mut s = TaskScheduler::new();
    s.schedule_task(BackgroundTask::SocialContextAnalysis);
    s.schedule_task(BackgroundTask::ErrorRecovery("boom".to_string()));
    s.schedule_task(BackgroundTask::DeepReflection);
    assert!(matches!(s.get_next_task(), Some(BackgroundTask::ErrorRecovery(ref m)) if m == "boom"));
    assert!(matches!(s.get_next_task(), Some(BackgroundTask::DeepReflection)));
    assert!(matches!(s.get_next_task(), Some(BackgroundTask::SocialContextAnalysis)));
    assert!(s.get_next_task().is_none());
}

#[test]
fn equal_priorities_keep_arrival_order() {
    let mut s = TaskScheduler::new();
    s.schedule_task(BackgroundTask::SpontaneousThought);
    s.schedule_task(BackgroundTask::CreativeIncubation);
    s.schedule_task(BackgroundTask::GoalReassessment);
    assert!(matches!(s.get_next_task(), Some(BackgroundTask::GoalReassessment)));
    assert!(matches!(s.get_next_task(), Some(BackgroundTask::SpontaneousThought)));
    assert!(matches!(s.get_next_task(), Some(BackgroundTask::CreativeIncubation)));
}

#[test]
fn running_never_exceeds_cap() {
    let mut s = TaskScheduler::new();
    for _ in 0..5 {
        s.schedule_task(BackgroundTask::AttentionUpdate);
    }
    let mut started = 0;
    while s.get_next_task().is_some() {
        started += 1;
        assert!(s.running_count() <= s.max_concurrent());
    }
    assert_eq!(started, 3);
    assert_eq!(s.pending_count(), 2);
    s.complete_task(&BackgroundTask::AttentionUpdate);
    assert_eq!(s.running_count(), 2);
    assert!(s.get_next_task().is_some());
    assert_eq!(s.running_count(), 3);
    assert_eq!(s.pending_count(), 1);
}

#[test]
fn complete_matches_by_kind_not_payload() {
    let mut s = TaskScheduler::new();
    s.schedule_task(BackgroundTask::ErrorRecovery("first".to_string()));
    s.get_next_task();
    s.complete_task(&BackgroundTask::ErrorRecovery("other text".to_string()));
    assert_eq!(s.running_count(), 0);
    assert_eq!(s.completed_count(), 1);
}

#[test]
fn complete_twice_is_noop_the_second_time() {
    let mut s = TaskScheduler::new();
    s.schedule_task(BackgroundTask::MemoryConsolidation);
    s.schedule_task(BackgroundTask::DeepReflection);
    s.get_next_task();
    s.get_next_task();
    s.complete_task(&BackgroundTask::MemoryConsolidation);
    assert_eq!(s.running_count(), 1);
    assert_eq!(s.completed_count(), 1);
    s.complete_task(&BackgroundTask::MemoryConsolidation);
    assert_eq!(s.running_count(), 1);
    assert_eq!(s.completed_count(), 1);
}

#[test]
fn complete_without_running_task_is_noop() {
    let mut s = TaskScheduler::new();
    s.complete_task(&BackgroundTask::SystemHealthCheck);
    assert_eq!(s.running_count(), 0);
    assert_eq!(s.completed_count(), 0);
}

#[test]
fn completed_buffer_keeps_fifty() {
    let mut s = TaskScheduler::new();
    for _ in 0..60 {
        s.schedule_task(BackgroundTask::AttentionUpdate);
        s.get_next_task();
        s.complete_task(&BackgroundTask::AttentionUpdate);
    }
    assert_eq!(s.completed_count(), 50);
    assert_eq!(s.running_count(), 0);
}

#[test]
fn zero_cap_never_starts_anything() {
    let mut s = TaskScheduler::with_capacity(0);
    s.schedule_task(BackgroundTask::DeepReflection);
    assert!(s.get_next_task().is_none());
    assert_eq!(s.pending_count(), 1);
}

#[test]
fn status_line_counts() {
    let mut s = TaskScheduler::new();
    assert_eq!(s.get_status(), "Tasks - Pending: 0, Running: 0, Completed: 0");
    s.schedule_task(BackgroundTask::DeepReflection);
    s.schedule_task(BackgroundTask::AttentionUpdate);
    s.get_next_task();
    s.complete_task(&BackgroundTask::DeepReflection);
    s.schedule_task(BackgroundTask::GoalReassessment);
    s.get_next_task();
    assert_eq!(s.get_status(), "Tasks - Pending: 1, Running: 1, Completed: 1");
}
