pub mod grid;

pub use grid::{Cell, Grid, GridModel, Position};
