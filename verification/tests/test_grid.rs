use empireants::world::{Cell, Grid, Position};

#[test]
fn new_grid_is_empty_with_nest_in_the_middle() {
    let grid = Grid::new(5, 4);
    assert_eq!(grid.width(), 5);
    assert_eq!(grid.height(), 4);
    assert_eq!(grid.nest(), Position { x: 2, y: 2 });
    assert_eq!(grid.cells().len(), 20);
    assert_eq!(grid.get(Position { x: 2, y: 2 }), Some(Cell::Nest));
    assert_eq!(grid.cells()[12], Cell::Nest);
    assert_eq!(grid.cells().iter().filter(|c| **c == Cell::Empty).count(), 19);
}

#[test]
fn get_outside_the_grid_is_none() {
    let grid = Grid::new(3, 3);
    assert_eq!(grid.get(Position { x: 3, y: 0 }), None);
    assert_eq!(grid.get(Position { x: 0, y: 3 }), None);
    assert!(!grid.is_within_bounds(Position { x: 3, y: 1 }));
    assert!(grid.is_within_bounds(Position { x: 2, y: 2 }));
}

#[test]
fn set_cell_reads_back_and_ignores_outside() {
    let mut grid = Grid::new(4, 4);
    grid.set_cell(1, 3, Cell::Obstacle);
    assert_eq!(grid.get(Position { x: 1, y: 3 }), Some(Cell::Obstacle));
    assert_eq!(grid.get(Position { x: 3, y: 1 }), Some(Cell::Empty));
    let before = grid.cells().to_vec();
    grid.set_cell(4, 0, Cell::Obstacle);
    grid.set_food(0, 9, 5);
    assert_eq!(grid.cells(), &before[..]);
}

#[test]
fn set_nest_moves_the_nest_cell() {
    let mut grid = Grid::new(6, 6);
    grid.set_nest(1, 4);
    assert_eq!(grid.nest(), Position { x: 1, y: 4 });
    assert_eq!(grid.get(Position { x: 1, y: 4 }), Some(Cell::Nest));
    assert_eq!(grid.get(Position { x: 3, y: 3 }), Some(Cell::Empty));
    grid.set_nest(10, 10);
    assert_eq!(grid.nest(), Position { x: 1, y: 4 });
}

#[test]
fn neighbors4_order_and_edges() {
    let grid = Grid::new(4, 3);
    assert_eq!(
        grid.neighbors4(Position { x: 1, y: 1 }),
        vec![
            Position { x: 0, y: 1 },
            Position { x: 2, y: 1 },
            Position { x: 1, y: 0 },
            Position { x: 1, y: 2 },
        ]
    );
    assert_eq!(
        grid.neighbors4(Position { x: 0, y: 0 }),
        vec![Position { x: 1, y: 0 }, Position { x: 0, y: 1 }]
    );
    assert_eq!(
        grid.neighbors4(Position { x: 3, y: 2 }),
        vec![Position { x: 2, y: 2 }, Position { x: 3, y: 1 }]
    );
}

#[test]
fn walkability_and_distance() {
    let mut grid = Grid::new(5, 5);
    grid.set_cell(0, 0, Cell::Obstacle);
    grid.set_food(1, 0, 3);
    assert!(!grid.is_walkable(Position { x: 0, y: 0 }));
    assert!(grid.is_walkable(Position { x: 1, y: 0 }));
    assert!(grid.is_walkable(Position { x: 2, y: 2 }));
    assert!(!grid.is_walkable(Position { x: 5, y: 0 }));
    assert_eq!(grid.distance_to_nest(Position { x: 0, y: 0 }), 4);
    assert_eq!(grid.distance_to_nest(Position { x: 4, y: 1 }), 3);
    assert_eq!(grid.distance_to_nest(Position { x: 9, y: 2 }), 7);
}

#[test]
fn harvest_takes_at_most_what_is_there() {
    let mut grid = Grid::new(5, 5);
    grid.set_food(1, 1, 3);
    assert_eq!(grid.count_food_cells(), 1);
    assert_eq!(grid.harvest_food(Position { x: 1, y: 1 }, 2), 2);
    assert_eq!(grid.get(Position { x: 1, y: 1 }), Some(Cell::Food(1)));
    assert_eq!(grid.harvest_food(Position { x: 1, y: 1 }, 2), 1);
    assert_eq!(grid.get(Position { x: 1, y: 1 }), Some(Cell::Empty));
    assert_eq!(grid.count_food_cells(), 0);
    assert_eq!(grid.harvest_food(Position { x: 1, y: 1 }, 2), 0);
    assert_eq!(grid.harvest_food(Position { x: 2, y: 2 }, 2), 0);
    assert_eq!(grid.get(Position { x: 2, y: 2 }), Some(Cell::Nest));
    assert_eq!(grid.harvest_food(Position { x: 7, y: 7 }, 2), 0);
}

#[test]
fn empty_food_cell_is_not_a_source_and_clears_on_harvest() {
    let mut grid = Grid::new(3, 3);
    grid.set_food(0, 0, 0);
    grid.set_food(2, 2, 4);
    assert_eq!(grid.count_food_cells(), 1);
    assert_eq!(grid.harvest_food(Position { x: 0, y: 0 }, 1), 0);
    assert_eq!(grid.get(Position { x: 0, y: 0 }), Some(Cell::Empty));
}

#[test]
fn a_step_changes_the_distance_to_the_nest_by_one() {
    let mut grid = Grid::new(9, 7);
    grid.set_nest(2, 5);
    for y in 0..7 {
        for x in 0..9 {
            let p = Position { x, y };
            let d = grid.distance_to_nest(p);
            for n in grid.neighbors4(p) {
                let dn = grid.distance_to_nest(n);
                assert!(dn + 1 == d || dn == d + 1);
                assert!(grid.is_within_bounds(n));
            }
        }
    }
}
