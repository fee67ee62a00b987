use empireants::simulation::validation::food_progress;
use empireants::simulation::{
    seeded_validation_world, shift_obstacles, AcoStrategy, ValidationScenario,
};
use empireants::world::{Cell, Position};

#[test]
fn validation_matrix_has_twelve_cells() {
    assert_eq!(ValidationScenario::all().len() * AcoStrategy::all().len(), 12);
    let labels: Vec<&str> = ValidationScenario::all().iter().map(|s| s.label()).collect();
    assert_eq!(labels, vec!["open_field", "narrow_passages", "obstacle_shift"]);
    let strategies: Vec<&str> = AcoStrategy::all().iter().map(|s| s.label()).collect();
    assert_eq!(strategies, vec!["basic", "max_min", "as_rank", "ant_net"]);
}

#[test]
fn scenario_parameters_are_exact() {
    assert_eq!(ValidationScenario::OpenField.dimensions(), (96, 96));
    assert_eq!(ValidationScenario::NarrowPassages.dimensions(), (112, 96));
    assert_eq!(ValidationScenario::ObstacleShift.dimensions(), (128, 112));
    assert_eq!(ValidationScenario::NarrowPassages.ant_count(), 3_000);
    assert_eq!(ValidationScenario::ObstacleShift.default_steps(), 420);
    assert_eq!(ValidationScenario::OpenField.ants_for(Some(32)), 32);
    assert_eq!(ValidationScenario::OpenField.ants_for(Some(9_000)), 2_500);
    assert_eq!(ValidationScenario::ObstacleShift.ants_for(None), 3_500);
}

#[test]
fn open_field_has_two_food_rows_and_no_obstacles() {
    let grid = seeded_validation_world(ValidationScenario::OpenField, 96, 96);
    // North row y = 12, x in 3..11; south row y = 84, x in 85..93.
    assert_eq!(grid.get(Position { x: 3, y: 12 }), Some(Cell::Food(48)));
    assert_eq!(grid.get(Position { x: 10, y: 12 }), Some(Cell::Food(48)));
    assert_eq!(grid.get(Position { x: 11, y: 12 }), Some(Cell::Empty));
    assert_eq!(grid.get(Position { x: 85, y: 84 }), Some(Cell::Food(48)));
    assert_eq!(grid.get(Position { x: 92, y: 84 }), Some(Cell::Food(48)));
    assert_eq!(grid.get(Position { x: 93, y: 84 }), Some(Cell::Empty));
    assert_eq!(grid.count_food_cells(), 16);
    assert!(grid.cells().iter().all(|c| *c != Cell::Obstacle));
    assert_eq!(grid.nest(), Position { x: 48, y: 48 });
}

#[test]
fn narrow_passages_have_gapped_walls() {
    let grid = seeded_validation_world(ValidationScenario::NarrowPassages, 112, 96);
    assert_eq!(grid.get(Position { x: 37, y: 8 }), Some(Cell::Obstacle));
    assert_eq!(grid.get(Position { x: 37, y: 9 }), Some(Cell::Empty));
    assert_eq!(grid.get(Position { x: 37, y: 88 }), Some(Cell::Empty));
    assert_eq!(grid.get(Position { x: 74, y: 11 }), Some(Cell::Empty));
    assert_eq!(grid.get(Position { x: 74, y: 12 }), Some(Cell::Obstacle));
}

#[test]
fn obstacle_shift_moves_the_wall() {
    let (width, height) = ValidationScenario::ObstacleShift.dimensions();
    let mut grid = seeded_validation_world(ValidationScenario::ObstacleShift, width, height);
    assert_eq!(grid.get(Position { x: 9, y: 37 }), Some(Cell::Obstacle));
    assert_eq!(grid.get(Position { x: 10, y: 37 }), Some(Cell::Empty));
    assert_eq!(grid.get(Position { x: 9, y: 74 }), Some(Cell::Obstacle));
    assert_eq!(grid.get(Position { x: 13, y: 74 }), Some(Cell::Empty));
    shift_obstacles(width, height, &mut grid);
    assert_eq!(grid.get(Position { x: 9, y: 37 }), Some(Cell::Empty));
    assert_eq!(grid.get(Position { x: 9, y: 56 }), Some(Cell::Obstacle));
    assert_eq!(grid.get(Position { x: 14, y: 56 }), Some(Cell::Empty));
    assert_eq!(grid.get(Position { x: 9, y: 74 }), Some(Cell::Obstacle));
}

#[test]
fn food_progress_finds_discovery_and_convergence() {
    assert_eq!(food_progress(&[0, 0, 1, 2, 7, 8]), (3, 5));
    assert_eq!(food_progress(&[0, 6, 6]), (2, 2));
    assert_eq!(food_progress(&[0, 0, 0]), (3, 3));
    assert_eq!(food_progress(&[1, 2, 3, 4]), (1, 4));
    assert_eq!(food_progress(&[]), (0, 0));
}

#[test]
fn food_progress_stops_comparing_once_converged() {
    assert_eq!(food_progress(&[0, 5, u32::MAX, u32::MAX]), (2, 2));
    assert_eq!(food_progress(&[u32::MAX - 5, u32::MAX]), (1, 1));
}
