use cogno::journal::{ActivityJournal, MentalActivity, SpontaneousThought};

const MIN: i64 = 60_000;
const NOW: i64 = 1_700_000_000_000;

fn activity(text: &str, intensity: i64, timestamp: i64) -> MentalActivity {
    MentalActivity::new(
        SpontaneousThought::MemoryRecall(text.to_string()),
        intensity,
        timestamp,
        None,
    )
}

#[test]
fn recency_and_relevance_values() {
    let fresh = activity("a", 950, NOW);
    assert_eq!(fresh.recency_score_at(NOW), 1000);
    assert_eq!(fresh.relevance_score_at(NOW), 7 * 950 + 3000);
    let old = activity("b", 100, NOW - 29 * MIN);
    assert_eq!(old.recency_score_at(NOW), 34);
    assert_eq!(old.relevance_score_at(NOW), 802);
    assert_eq!(activity("c", 100, NOW - 30 * MIN).recency_score_at(NOW), 0);
    assert_eq!(activity("d", 100, NOW - 15 * MIN).recency_score_at(NOW), 500);
    assert_eq!(activity("e", 100, NOW + MIN).recency_score_at(NOW), 1000);
}

#[test]
fn intensity_is_clamped() {
    assert_eq!(activity("a", 5000, NOW).intensity, 1000);
    assert_eq!(activity("a", -3, NOW).intensity, 0);
}

#[test]
fn follow_up_needs_intensity_and_recency() {
    assert!(activity("a", 800, NOW).needs_follow_up_at(NOW));
    assert!(!activity("a", 700, NOW).needs_follow_up_at(NOW));
    assert!(!activity("a", 800, NOW - 15 * MIN).needs_follow_up_at(NOW));
    assert!(activity("a", 800, NOW - 14 * MIN).needs_follow_up_at(NOW));
}

#[test]
fn intense_recent_entry_survives_truncation() {
    let mut j = ActivityJournal::new();
    for i in 1..=101 {
        let a = if i == 50 {
            activity("entry 50", 950, NOW)
        } else {
            activity(&format!("entry {}", i), 100, NOW - 29 * MIN)
        };
        j.record(a, NOW);
    }
    assert_eq!(j.len(), 50);
    let kept = j.recent(50);
    assert!(kept
        .iter()
        .any(|a| matches!(&a.thought, SpontaneousThought::MemoryRecall(t) if t == "entry 50")));
}

#[test]
fn truncation_keeps_top_relevance() {
    let mut j = ActivityJournal::with_limits(4, 2);
    j.record(activity("low", 100, NOW), NOW);
    j.record(activity("high", 900, NOW), NOW);
    j.record(activity("mid", 500, NOW), NOW);
    j.record(activity("top", 1000, NOW), NOW);
    assert_eq!(j.len(), 4);
    j.record(activity("least", 0, NOW), NOW);
    assert_eq!(j.len(), 2);
    let top = j.most_relevant(2, NOW);
    assert!(matches!(&top[0].thought, SpontaneousThought::MemoryRecall(t) if t == "top"));
    assert!(matches!(&top[1].thought, SpontaneousThought::MemoryRecall(t) if t == "high"));
}

#[test]
fn truncation_prefers_salience_over_recency() {
    let mut j = ActivityJournal::with_limits(2, 1);
    j.record(activity("old intense", 1000, NOW - 40 * MIN), NOW);
    j.record(activity("new faint", 0, NOW), NOW);
    j.record(activity("newer faint", 100, NOW), NOW);
    let kept = j.recent(5);
    assert_eq!(kept.len(), 1);
    assert!(matches!(&kept[0].thought, SpontaneousThought::MemoryRecall(t) if t == "old intense"));
}

#[test]
fn recent_is_newest_first() {
    let mut j = ActivityJournal::new();
    j.record(activity("one", 100, NOW), NOW);
    j.record(activity("two", 100, NOW), NOW);
    j.record(activity("three", 100, NOW), NOW);
    let r = j.recent(2);
    assert_eq!(r.len(), 2);
    assert!(matches!(&r[0].thought, SpontaneousThought::MemoryRecall(t) if t == "three"));
    assert!(matches!(&r[1].thought, SpontaneousThought::MemoryRecall(t) if t == "two"));
    assert_eq!(j.recent(10).len(), 3);
    assert_eq!(j.recent(0).len(), 0);
}

#[test]
fn most_relevant_ties_keep_insertion_order() {
    let mut j = ActivityJournal::new();
    j.record(activity("first", 500, NOW), NOW);
    j.record(activity("second", 500, NOW), NOW);
    let r = j.most_relevant(1, NOW);
    assert_eq!(r.len(), 1);
    assert!(matches!(&r[0].thought, SpontaneousThought::MemoryRecall(t) if t == "first"));
}

#[test]
fn needing_follow_up_filters() {
    let mut j = ActivityJournal::new();
    j.record(activity("a", 900, NOW), NOW);
    j.record(activity("b", 200, NOW), NOW);
    j.record(activity("c", 750, NOW - 20 * MIN), NOW);
    let f = j.needing_follow_up(NOW);
    assert_eq!(f.len(), 1);
    assert!(matches!(&f[0].thought, SpontaneousThought::MemoryRecall(t) if t == "a"));
}

#[test]
fn empty_journal() {
    let j = ActivityJournal::new();
    assert_eq!(j.len(), 0);
    assert!(j.last().is_none());
    assert_eq!(j.most_relevant(3, NOW).len(), 0);
}

#[test]
fn capacity_boundary() {
    let mut j = ActivityJournal::new();
    for i in 0..100 {
        j.record(activity(&format!("e{}", i), 100, NOW), NOW);
    }
    assert_eq!(j.len(), 100);
    j.record(activity("one more", 100, NOW), NOW);
    assert_eq!(j.len(), 50);
}
