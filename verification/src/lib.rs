//! EmpireAnts: an ant-colony foraging simulation whose discrete core (the
//! world grid, the actor runtime, the foraging transitions, the seeded
//! scenarios and the metric encoders) is verified with Verus.

pub mod world;
pub mod text;
pub mod observability;
pub mod render;
pub mod simulation;
pub mod ant;
pub mod web;
pub mod report;
