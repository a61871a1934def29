use cogno::affect::AffectiveState;
use cogno::goals::{GoalCategory, GoalStatus, GoalSystem};

fn energized() -> AffectiveState {
    AffectiveState { valence: 0, arousal: 1000, dominance: 0, novelty: 0 }
}

#[test]
fn third_goal_past_cap_abandons_lowest_priority() {
    let mut g = GoalSystem::with_limits(400, 2);
    let a = g.form_goal("learn A".to_string(), GoalCategory::Epistemic, 900, &energized(), 0);
    let b = g.form_goal("learn B".to_string(), GoalCategory::Epistemic, 500, &energized(), 0);
    let c = g.form_goal("learn C".to_string(), GoalCategory::Epistemic, 200, &energized(), 0);
    assert_eq!((a, b, c), (Some(0), Some(1), Some(2)));
    assert_eq!(g.active_count(), 2);
    assert_eq!(g.get_goal(0).unwrap().status, GoalStatus::Active);
    assert_eq!(g.get_goal(1).unwrap().status, GoalStatus::Active);
    assert_eq!(g.get_goal(2).unwrap().status, GoalStatus::Abandoned);
    assert_eq!(g.get_active_goals(), vec![0, 1]);
}

#[test]
fn low_priority_goal_is_demoted_for_a_stronger_one() {
    let mut g = GoalSystem::with_limits(400, 2);
    g.form_goal("weak".to_string(), GoalCategory::Epistemic, 200, &energized(), 0);
    g.form_goal("mid".to_string(), GoalCategory::Epistemic, 500, &energized(), 0);
    g.form_goal("strong".to_string(), GoalCategory::Epistemic, 900, &energized(), 0);
    assert_eq!(g.get_goal(0).unwrap().status, GoalStatus::Abandoned);
    assert_eq!(g.get_active_goals(), vec![1, 2]);
}

#[test]
fn motivation_below_threshold_forms_nothing() {
    let mut g = GoalSystem::new();
    let calm = AffectiveState { valence: 0, arousal: 300, dominance: 0, novelty: 0 };
    assert_eq!(GoalSystem::calculate_motivation(&calm, GoalCategory::Epistemic), 150);
    assert_eq!(g.form_goal("x".to_string(), GoalCategory::Epistemic, 900, &calm, 0), None);
    assert_eq!(g.active_count(), 0);
}

#[test]
fn motivation_formulas() {
    let s = AffectiveState { valence: 500, arousal: 400, dominance: -200, novelty: -600 };
    assert_eq!(GoalSystem::calculate_motivation(&s, GoalCategory::Epistemic), 500);
    assert_eq!(GoalSystem::calculate_motivation(&s, GoalCategory::Social), 620);
    assert_eq!(GoalSystem::calculate_motivation(&s, GoalCategory::SelfDevelopment), 80);
    assert_eq!(GoalSystem::calculate_motivation(&s, GoalCategory::Creative), 460);
    assert_eq!(GoalSystem::calculate_motivation(&s, GoalCategory::Altruistic), 290);
    assert_eq!(GoalSystem::calculate_motivation(&s, GoalCategory::Homeostatic), 440);
    let sad = AffectiveState { valence: -1000, arousal: 0, dominance: -1000, novelty: 0 };
    assert_eq!(GoalSystem::calculate_motivation(&sad, GoalCategory::Altruistic), 0);
}

#[test]
fn new_goal_fields_and_importance() {
    let mut g = GoalSystem::new();
    let id = g.form_goal("understand".to_string(), GoalCategory::Epistemic, 1500, &energized(), 42).unwrap();
    let goal = g.get_goal(id).unwrap();
    assert_eq!(goal.priority, 1000);
    assert_eq!(goal.urgency, 500);
    assert_eq!(goal.emotional_investment, 500);
    assert_eq!(goal.created_at, 42);
    assert_eq!(goal.strategies.len(), 3);
    assert_eq!(goal.strategies[0], "Ask clarifying questions");
    assert_eq!(goal.calculate_importance(42), 700);
    assert!(goal.should_act_on(42));
}

#[test]
fn deadline_raises_importance() {
    let mut g = GoalSystem::new();
    let id = g.form_goal("x".to_string(), GoalCategory::Epistemic, 0, &energized(), 0).unwrap();
    let mut goal = g.get_goal(id).unwrap().clone();
    assert_eq!(goal.calculate_importance(0), 300);
    assert!(!goal.should_act_on(0));
    goal.deadline = Some(30 * 60 * 1000);
    assert_eq!(goal.calculate_importance(0), 350);
    goal.deadline = Some(5 * 60 * 60 * 1000);
    assert_eq!(goal.calculate_importance(0), 330);
}

#[test]
fn focus_progress_and_completion() {
    let mut g = GoalSystem::new();
    g.form_goal("a".to_string(), GoalCategory::Epistemic, 300, &energized(), 0);
    g.form_goal("b".to_string(), GoalCategory::Epistemic, 800, &energized(), 0);
    assert_eq!(g.determine_focus(0), Some(1));
    assert_eq!(g.get_current_focus().unwrap().description, "b");
    g.update_goal_progress(1, 400, 10);
    assert_eq!(g.get_goal(1).unwrap().progress, 400);
    assert_eq!(g.current_focus_id(), Some(1));
    g.update_goal_progress(1, 700, 20);
    assert_eq!(g.get_goal(1).unwrap().progress, 1000);
    assert_eq!(g.get_goal(1).unwrap().status, GoalStatus::Completed);
    assert_eq!(g.current_focus_id(), None);
    assert_eq!(g.completed_count(), 1);
    g.update_goal_progress(1, 100, 30);
    assert_eq!(g.completed_count(), 1);
    assert_eq!(g.determine_focus(0), Some(0));
}

#[test]
fn desired_actions_follow_focus() {
    let mut g = GoalSystem::new();
    let none = g.generate_desired_actions();
    assert_eq!(
        none,
        vec![
            "Reflect on what I'd like to accomplish".to_string(),
            "Consider forming a new goal based on current interests".to_string()
        ]
    );
    g.form_goal("learn Rust".to_string(), GoalCategory::Epistemic, 800, &energized(), 0);
    g.determine_focus(0);
    let actions = g.generate_desired_actions();
    assert_eq!(actions.len(), 4);
    assert_eq!(actions[0], "Work on 'learn Rust' by: Ask clarifying questions");
    assert_eq!(actions[3], "Ask a thoughtful question about something I'm curious about");
}

#[test]
fn summary_line() {
    let mut g = GoalSystem::new();
    assert_eq!(g.generate_summary(), "Goals: 0 active, 0 completed. No current focus");
    g.form_goal("learn Rust".to_string(), GoalCategory::Epistemic, 800, &energized(), 0);
    g.determine_focus(0);
    assert_eq!(
        g.generate_summary(),
        "Goals: 1 active, 0 completed. Currently focused on: 'learn Rust'"
    );
}

#[test]
fn opportunities_from_prompt() {
    let o = cogno::goals::goal_opportunities("Please HELP me Learn to imagine");
    assert_eq!(o.len(), 3);
    assert_eq!(o[0].description, "Help the user with: Please HELP me Learn to imagine");
    assert_eq!(o[0].category, GoalCategory::Altruistic);
    assert_eq!(o[0].priority, 800);
    assert_eq!(o[1].category, GoalCategory::Epistemic);
    assert_eq!(o[2].category, GoalCategory::Creative);
    assert!(cogno::goals::goal_opportunities("nothing here").is_empty());
}
