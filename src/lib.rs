//! Coordination core of a continuously running agent: bounded state
//! containers, a relevance-ranked activity journal, a priority task
//! scheduler and an error tracker, with scalars in fixed point and times in
//! milliseconds since the Unix epoch.

pub mod affect;
pub mod appraisal;
pub mod attention;
pub mod clock;
pub mod collaborator;
pub mod goals;
pub mod health;
pub mod journal;
pub mod memory;
pub mod metacognition;
pub mod mind;
pub mod scheduler;
pub mod text;
