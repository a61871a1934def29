//! What the appraisal collaborator is told about a situation; scalars in
//! thousandths.

use vstd::prelude::*;

verus! {

/// Whether a situation is about a consequence, an action or an object.
#[derive(Debug, Clone, Copy, PartialEq, Eq)]
pub enum EventType {
    Consequence,
    Action,
    Object,
}

/// Who is responsible for a situation.
#[derive(Debug, Clone)]
pub enum Agent {
    Unknown,
    Self_,
    Other(String),
}

/// How a situation bears on the agent's goals.
#[derive(Debug, Clone, Copy, PartialEq, Eq)]
pub enum GoalRelevance {
    Neutral,
    Beneficial,
    Harmful,
}

/// The context of a situation to appraise.
#[derive(Debug, Clone)]
pub struct AppraisalContext {
    pub event_type: EventType,
    pub agent: Agent,
    pub is_goal_relevant: GoalRelevance,
    pub is_praiseworthy: bool,
    pub probability: i64,
    pub certainty: i64,
    pub was_expected: bool,
    pub intensity: i64,
}

impl AppraisalContext {
    /// A consequence of unknown agency and neutral relevance, with every
    /// scalar at zero.
    pub fn neutral() -> (r: AppraisalContext)
        ensures
            r.event_type == EventType::Consequence,
            r.agent == Agent::Unknown,
            r.is_goal_relevant == GoalRelevance::Neutral,
            !r.is_praiseworthy,
            r.probability == 0,
            r.certainty == 0,
            !r.was_expected,
            r.intensity == 0,
    {
        AppraisalContext {
            event_type: EventType::Consequence,
            agent: Agent::Unknown,
            is_goal_relevant: GoalRelevance::Neutral,
            is_praiseworthy: false,
            probability: 0,
            certainty: 0,
            was_expected: false,
            intensity: 0,
        }
    }
}

/// A description of a situation with its context.
#[derive(Debug, Clone)]
pub struct AppraisalInput {
    pub description: String,
    pub context: AppraisalContext,
}

} // verus!
