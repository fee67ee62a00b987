pub mod actor;
pub mod agent;

pub use actor::{ActorRuntime, AntDecision, AntUpdate, RuntimeCommand, RuntimeConfig, RuntimeStats};
pub use agent::{Ant, AntId, AntState, Candidate, Heuristic, Trail};
