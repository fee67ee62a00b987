pub mod aco;

pub use aco::{exploration_bucket, AcoStrategy};
pub mod scale;

pub use scale::{seeded_scale_world, ScaleProfile};
pub mod validation;

pub use validation::{seeded_validation_world, shift_obstacles, ValidationScenario};
pub mod step;

pub use step::{
    ant_census, apply_update, apply_updates, seed_world, spawn_ants, AntCensus, Arrival, ForageTally,
};
