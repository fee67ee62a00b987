use empireants::ant::{ActorRuntime, Ant, AntDecision, AntState, AntUpdate, RuntimeConfig};
use empireants::render::build_frame_summary;
use empireants::simulation::{
    ant_census, apply_update, apply_updates, seed_world, spawn_ants, Arrival, ForageTally,
};
use empireants::world::{Cell, Grid, Position};

fn update(ant: &Ant, to: Position, exploratory: bool) -> AntUpdate<f32> {
    AntUpdate {
        ant_id: ant.id,
        from: ant.position,
        to,
        state: ant.state,
        carrying_food: ant.carrying_food,
        decision_score: 1.0,
        exploratory,
        recovered: false,
    }
}

#[test]
fn searching_ant_picks_up_food_and_delivers_it() {
    let mut grid = Grid::new(6, 6);
    grid.set_food(3, 2, 2);
    let mut ants = vec![Ant::new(0, Position { x: 3, y: 1 })];
    let mut tally = ForageTally { food_collected: 0, exploration_moves: 0 };

    let u = update(&ants[0], Position { x: 3, y: 2 }, true);
    assert_eq!(apply_update(&mut grid, &mut ants, &mut tally, &u, 1), Arrival::PickedUp(1));
    assert!(ants[0].carrying_food);
    assert_eq!(ants[0].state, AntState::Returning);
    assert_eq!(ants[0].position, Position { x: 3, y: 2 });
    assert_eq!(ants[0].last_position, Some(Position { x: 3, y: 1 }));
    assert_eq!(grid.get(Position { x: 3, y: 2 }), Some(Cell::Food(1)));
    assert_eq!(tally.exploration_moves, 1);

    let u = update(&ants[0], Position { x: 3, y: 3 }, false);
    assert_eq!(apply_update(&mut grid, &mut ants, &mut tally, &u, 1), Arrival::Delivered);
    assert!(!ants[0].carrying_food);
    assert_eq!(ants[0].state, AntState::Searching);
    assert_eq!(tally.food_collected, 1);
    assert_eq!(tally.exploration_moves, 1);
}

#[test]
fn restart_takes_the_runtime_state() {
    let mut grid = Grid::new(6, 6);
    let mut carrier = Ant::new(0, Position { x: 1, y: 1 });
    carrier.carrying_food = true;
    carrier.state = AntState::Returning;
    let mut ants = vec![carrier];
    let mut tally = ForageTally { food_collected: 5, exploration_moves: 2 };
    let restart = AntUpdate {
        ant_id: 0,
        from: Position { x: 1, y: 1 },
        to: grid.nest(),
        state: AntState::Searching,
        carrying_food: false,
        decision_score: 0.0f32,
        exploratory: true,
        recovered: true,
    };
    assert_eq!(apply_update(&mut grid, &mut ants, &mut tally, &restart, 1), Arrival::Restarted);
    assert_eq!(ants[0].position, Position { x: 3, y: 3 });
    assert_eq!(ants[0].last_position, Some(Position { x: 1, y: 1 }));
    assert!(!ants[0].carrying_food);
    assert_eq!(tally, ForageTally { food_collected: 5, exploration_moves: 2 });
}

#[test]
fn carrying_ant_away_from_nest_only_moves() {
    let mut grid = Grid::new(6, 6);
    grid.set_food(0, 0, 3);
    let mut carrier = Ant::new(0, Position { x: 1, y: 0 });
    carrier.carrying_food = true;
    let mut ants = vec![carrier];
    let mut tally = ForageTally { food_collected: 0, exploration_moves: 0 };
    let u = update(&ants[0], Position { x: 0, y: 0 }, false);
    assert_eq!(apply_update(&mut grid, &mut ants, &mut tally, &u, 1), Arrival::Moved);
    assert_eq!(grid.get(Position { x: 0, y: 0 }), Some(Cell::Food(3)));
}

#[test]
fn census_counts_loads_and_states() {
    let mut a = Ant::new(0, Position { x: 0, y: 0 });
    a.carrying_food = true;
    a.state = AntState::Returning;
    let b = Ant::new(1, Position { x: 0, y: 0 });
    let census = ant_census(&[a, b, b]);
    assert_eq!(census.carrying_ants, 1);
    assert_eq!(census.searching_ants, 2);
    assert_eq!(census.returning_ants, 1);
}

#[test]
fn demo_world_and_frame_summary() {
    let mut grid = Grid::new(24, 18);
    seed_world(&mut grid);
    assert_eq!(grid.nest(), Position { x: 12, y: 9 });
    assert_eq!(grid.get(Position { x: 3, y: 4 }), Some(Cell::Food(24)));
    assert_eq!(grid.get(Position { x: 19, y: 15 }), Some(Cell::Food(18)));
    assert_eq!(grid.get(Position { x: 14, y: 8 }), Some(Cell::Obstacle));
    assert_eq!(grid.get(Position { x: 16, y: 9 }), Some(Cell::Obstacle));
    assert_eq!(grid.count_food_cells(), 9);
    assert_eq!(
        build_frame_summary(&grid, 9),
        "frame_summary width=24 height=18 nest=(12, 9) food_cells=9 obstacles=13 active_sources=9"
    );
}

fn total_food(grid: &Grid) -> u64 {
    grid.cells()
        .iter()
        .map(|c| match c {
            Cell::Food(amount) => *amount as u64,
            _ => 0,
        })
        .sum()
}

#[test]
fn food_is_conserved_along_a_foraging_trip() {
    let mut grid = Grid::new(7, 7);
    grid.set_food(3, 1, 2);
    let mut ants = vec![Ant::new(0, Position { x: 3, y: 2 }), Ant::new(1, Position { x: 4, y: 1 })];
    let mut tally = ForageTally { food_collected: 0, exploration_moves: 0 };
    let colony_food = |grid: &Grid, ants: &Vec<Ant>, tally: &ForageTally| {
        total_food(grid) + ants.iter().filter(|a| a.carrying_food).count() as u64 + tally.food_collected as u64
    };
    let start = colony_food(&grid, &ants, &tally);
    assert_eq!(start, 2);
    let path: [(usize, Position); 5] = [
        (0, Position { x: 3, y: 1 }),
        (1, Position { x: 3, y: 1 }),
        (0, Position { x: 3, y: 2 }),
        (1, Position { x: 3, y: 2 }),
        (0, Position { x: 3, y: 3 }),
    ];
    for (id, to) in path {
        let u = update(&ants[id], to, false);
        apply_update(&mut grid, &mut ants, &mut tally, &u, 1);
        assert_eq!(colony_food(&grid, &ants, &tally), start);
    }
    assert_eq!(tally.food_collected, 1);
    assert!(ants[1].carrying_food);
    assert_eq!(grid.get(Position { x: 3, y: 1 }), Some(Cell::Empty));
}

#[test]
fn spawned_colony_starts_at_the_nest() {
    let ants = spawn_ants(3, Position { x: 5, y: 6 });
    assert_eq!(ants.len(), 3);
    for (i, ant) in ants.iter().enumerate() {
        assert_eq!(ant.id, i);
        assert_eq!(ant.position, Position { x: 5, y: 6 });
        assert!(!ant.carrying_food);
        assert_eq!(ant.state, AntState::Searching);
        assert_eq!(ant.last_position, None);
    }
    assert!(spawn_ants(0, Position { x: 0, y: 0 }).is_empty());
}

#[test]
fn ants_stay_on_the_grid_and_carry_only_when_returning() {
    let mut grid = Grid::new(7, 6);
    seed_world(&mut grid);
    grid.set_food(2, 3, 2);
    grid.set_food(4, 3, 1);
    let mut ants = spawn_ants(4, grid.nest());
    let mut runtime = ActorRuntime::new(RuntimeConfig { mailbox_capacity: 8, max_restarts_per_tick: 1 });
    let mut tally = ForageTally { food_collected: 0, exploration_moves: 0 };
    for tick in 0..20usize {
        let decisions: Vec<Option<AntDecision<f32>>> = ants
            .iter()
            .enumerate()
            .map(|(i, ant)| {
                if (tick + i) % 7 == 3 {
                    return None;
                }
                let candidates = ant.candidates(&grid);
                let next = if candidates.is_empty() {
                    ant.position
                } else {
                    candidates[(tick + i) % candidates.len()].position
                };
                Some(AntDecision { next, pheromone_score: 1.0f32, was_exploratory: false })
            })
            .collect();
        let updates = runtime.gather_updates(&ants, &grid, &decisions, 0.0);
        for update in &updates {
            apply_update(&mut grid, &mut ants, &mut tally, update, 1);
        }
        for ant in &ants {
            assert!(grid.is_within_bounds(ant.position));
            assert_eq!(ant.carrying_food, ant.state == AntState::Returning);
        }
    }
}

#[test]
fn applying_a_tick_counts_deliveries_and_exploratory_moves() {
    let mut grid = Grid::new(6, 6);
    grid.set_food(2, 1, 2);
    let mut carrier = Ant::new(1, Position { x: 3, y: 2 });
    carrier.carrying_food = true;
    carrier.state = AntState::Returning;
    let mut ants = vec![
        Ant::new(0, Position { x: 3, y: 1 }),
        carrier,
        Ant::new(2, Position { x: 1, y: 1 }),
    ];
    let mut tally = ForageTally { food_collected: 4, exploration_moves: 7 };

    let first = update(&ants[0], Position { x: 2, y: 1 }, true);
    let delivery = update(&ants[1], Position { x: 3, y: 3 }, false);
    let restart = AntUpdate {
        ant_id: 2,
        from: Position { x: 1, y: 1 },
        to: grid.nest(),
        state: AntState::Searching,
        carrying_food: false,
        decision_score: 0.0f32,
        exploratory: true,
        recovered: true,
    };
    let mut after_pick_up = ants[0];
    after_pick_up.position = Position { x: 2, y: 1 };
    after_pick_up.carrying_food = true;
    let second = update(&after_pick_up, Position { x: 2, y: 2 }, true);
    let updates = vec![first, delivery, restart, second];

    let arrivals = apply_updates(&mut grid, &mut ants, &mut tally, &updates, 1);
    assert_eq!(
        arrivals,
        vec![Arrival::PickedUp(1), Arrival::Delivered, Arrival::Restarted, Arrival::Moved]
    );
    assert_eq!(tally, ForageTally { food_collected: 5, exploration_moves: 9 });
    assert_eq!(grid.get(Position { x: 2, y: 1 }), Some(Cell::Food(1)));
    assert_eq!(ants[0].position, Position { x: 2, y: 2 });
    assert!(ants[0].carrying_food);
    assert_eq!(ants[0].state, AntState::Returning);
    assert!(!ants[1].carrying_food);
    assert_eq!(ants[1].state, AntState::Searching);
    assert_eq!(ants[2].position, Position { x: 3, y: 3 });
    assert_eq!(ants[2].last_position, Some(Position { x: 1, y: 1 }));
}

#[test]
fn applying_no_updates_changes_nothing() {
    let mut grid = Grid::new(5, 5);
    grid.set_food(1, 1, 3);
    let mut ants = spawn_ants(3, grid.nest());
    let mut tally = ForageTally { food_collected: 2, exploration_moves: 3 };
    let updates: Vec<AntUpdate<f32>> = Vec::new();
    let arrivals = apply_updates(&mut grid, &mut ants, &mut tally, &updates, 1);
    assert!(arrivals.is_empty());
    assert_eq!(tally, ForageTally { food_collected: 2, exploration_moves: 3 });
    assert_eq!(grid.get(Position { x: 1, y: 1 }), Some(Cell::Food(3)));
    assert_eq!(ants, spawn_ants(3, grid.nest()));
}
