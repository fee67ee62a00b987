use empireants::simulation::{seeded_scale_world, ScaleProfile};
use empireants::world::{Cell, Position};

#[test]
fn parses_scale_profile_from_cli() {
    assert!(matches!(
        ScaleProfile::from_cli("10k"),
        Some(ScaleProfile::Ant10k)
    ));
    assert!(matches!(
        ScaleProfile::from_cli("100k"),
        Some(ScaleProfile::Ant100k)
    ));
    assert!(matches!(
        ScaleProfile::from_cli("1m"),
        Some(ScaleProfile::Ant1m)
    ));
    assert!(ScaleProfile::from_cli("unknown").is_none());
}

#[test]
fn profile_sizes_are_monotonic() {
    let p10 = ScaleProfile::Ant10k.ant_count();
    let p100 = ScaleProfile::Ant100k.ant_count();
    let p1m = ScaleProfile::Ant1m.ant_count();
    assert!(p10 < p100 && p100 < p1m);
}

#[test]
fn profile_labels_round_trip() {
    for profile in [ScaleProfile::Ant10k, ScaleProfile::Ant100k, ScaleProfile::Ant1m] {
        assert_eq!(ScaleProfile::from_cli(profile.label()), Some(profile));
    }
    assert!(ScaleProfile::from_cli("10K").is_none());
    assert!(ScaleProfile::from_cli("").is_none());
    assert!(ScaleProfile::from_cli("1m ").is_none());
}

#[test]
fn profile_parameters_are_exact() {
    assert_eq!(ScaleProfile::Ant10k.default_steps(), 500);
    assert_eq!(ScaleProfile::Ant100k.default_steps(), 250);
    assert_eq!(ScaleProfile::Ant1m.default_steps(), 120);
    assert_eq!(ScaleProfile::Ant10k.grid_size(), (192, 192));
    assert_eq!(ScaleProfile::Ant100k.grid_size(), (384, 384));
    assert_eq!(ScaleProfile::Ant1m.grid_size(), (768, 768));
    assert_eq!(ScaleProfile::Ant1m.ant_count(), 1_000_000);
}

#[test]
fn benchmark_steps_default_and_never_zero() {
    assert_eq!(ScaleProfile::Ant10k.steps_for(None), 500);
    assert_eq!(ScaleProfile::Ant100k.steps_for(Some(7)), 7);
    assert_eq!(ScaleProfile::Ant1m.steps_for(Some(0)), 1);
}

#[test]
fn scale_world_places_food_and_obstacle_bands() {
    let grid = seeded_scale_world(192, 192);
    assert_eq!(grid.nest(), Position { x: 96, y: 96 });
    assert_eq!(grid.get(Position { x: 96, y: 96 }), Some(Cell::Nest));
    // North-west food patch: x in 2..18, y in 24..36.
    assert_eq!(grid.get(Position { x: 2, y: 24 }), Some(Cell::Food(64)));
    assert_eq!(grid.get(Position { x: 17, y: 35 }), Some(Cell::Food(64)));
    assert_eq!(grid.get(Position { x: 18, y: 24 }), Some(Cell::Empty));
    // South-east food patch: x in 174..190, y in 156..168.
    assert_eq!(grid.get(Position { x: 174, y: 156 }), Some(Cell::Food(64)));
    assert_eq!(grid.get(Position { x: 189, y: 167 }), Some(Cell::Food(64)));
    assert_eq!(grid.get(Position { x: 190, y: 167 }), Some(Cell::Empty));
    // Vertical band at x = 64 for y in 32..160 with a gap every twelve rows.
    assert_eq!(grid.get(Position { x: 64, y: 33 }), Some(Cell::Obstacle));
    assert_eq!(grid.get(Position { x: 64, y: 36 }), Some(Cell::Empty));
    assert_eq!(grid.get(Position { x: 64, y: 160 }), Some(Cell::Empty));
    // Horizontal band at y = 128 for x in 38..153 with a gap every eleven columns.
    assert_eq!(grid.get(Position { x: 40, y: 128 }), Some(Cell::Obstacle));
    assert_eq!(grid.get(Position { x: 44, y: 128 }), Some(Cell::Empty));
    assert_eq!(grid.count_food_cells(), 16 * 12 * 2);
}
