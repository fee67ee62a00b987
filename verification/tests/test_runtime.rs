use empireants::ant::{ActorRuntime, Ant, AntDecision, AntState, RuntimeConfig, RuntimeStats};
use empireants::world::{Grid, Position};

fn stay(ant: &Ant) -> Option<AntDecision<f32>> {
    Some(AntDecision {
        next: ant.position,
        pheromone_score: 0.5,
        was_exploratory: false,
    })
}

#[test]
fn runtime_applies_backpressure_when_mailbox_is_full() {
    let mut runtime = ActorRuntime::new(RuntimeConfig {
        mailbox_capacity: 1,
        max_restarts_per_tick: 10,
    });
    let ants = vec![
        Ant::new(0, Position { x: 2, y: 2 }),
        Ant::new(1, Position { x: 3, y: 2 }),
    ];
    let grid = Grid::new(8, 8);
    let decisions: Vec<Option<AntDecision<f32>>> = ants.iter().map(stay).collect();

    let updates = runtime.gather_updates(&ants, &grid, &decisions, 0.0);
    let stats = runtime.stats();

    assert_eq!(updates.len(), 1);
    assert!(stats.dropped_messages_total >= 1);
    assert!(stats.supervision_events_total >= 1);
}

#[test]
fn runtime_passes_decisions_through_in_ant_order() {
    let mut runtime = ActorRuntime::new(RuntimeConfig::default());
    let ants = vec![
        Ant::new(0, Position { x: 2, y: 2 }),
        Ant::new(1, Position { x: 3, y: 2 }),
        Ant::new(2, Position { x: 4, y: 2 }),
    ];
    let grid = Grid::new(8, 8);
    let decisions = vec![
        Some(AntDecision { next: Position { x: 1, y: 2 }, pheromone_score: 1.0f32, was_exploratory: true }),
        Some(AntDecision { next: Position { x: 3, y: 3 }, pheromone_score: 2.0f32, was_exploratory: false }),
        Some(AntDecision { next: Position { x: 5, y: 2 }, pheromone_score: 3.0f32, was_exploratory: false }),
    ];
    let updates = runtime.gather_updates(&ants, &grid, &decisions, 0.0);
    assert_eq!(updates.len(), 3);
    assert_eq!(updates[0].to, Position { x: 1, y: 2 });
    assert!(updates[0].exploratory);
    assert_eq!(updates[1].from, Position { x: 3, y: 2 });
    assert_eq!(updates[2].decision_score, 3.0);
    assert!(updates.iter().all(|u| !u.recovered));
    let stats = runtime.stats();
    assert_eq!(stats.mailbox_len, 3);
    assert_eq!(stats.processed_messages_tick, 3);
    assert_eq!(stats.dropped_messages_tick, 0);
    assert_eq!(stats.supervision_events_total, 0);
}

#[test]
fn failed_decisions_restart_ants_at_the_nest() {
    let mut runtime = ActorRuntime::new(RuntimeConfig {
        mailbox_capacity: 16,
        max_restarts_per_tick: 1,
    });
    let mut carrier = Ant::new(1, Position { x: 6, y: 6 });
    carrier.carrying_food = true;
    carrier.state = AntState::Returning;
    let ants = vec![
        Ant::new(0, Position { x: 1, y: 1 }),
        carrier,
        Ant::new(2, Position { x: 2, y: 6 }),
    ];
    let grid = Grid::new(8, 8);
    let decisions = vec![
        None,
        None,
        Some(AntDecision { next: Position { x: 2, y: 5 }, pheromone_score: 0.25f32, was_exploratory: false }),
    ];
    let updates = runtime.gather_updates(&ants, &grid, &decisions, -1.0);
    // The decided ant first, then the single restart the budget allows.
    assert_eq!(updates.len(), 2);
    assert_eq!(updates[0].ant_id, 2);
    assert!(!updates[0].recovered);
    assert_eq!(updates[1].ant_id, 0);
    assert!(updates[1].recovered);
    assert_eq!(updates[1].to, grid.nest());
    assert_eq!(updates[1].state, AntState::Searching);
    assert!(!updates[1].carrying_food);
    assert_eq!(updates[1].decision_score, -1.0);
    let stats = runtime.stats();
    assert_eq!(stats.restarts_tick, 1);
    assert_eq!(stats.restarts_total, 1);
    // Two failed decisions plus one recovery refused by the budget.
    assert_eq!(stats.supervision_events_total, 3);
    assert_eq!(stats.mailbox_len, 5);
    assert_eq!(stats.processed_messages_tick, 5);
}

#[test]
fn dropped_recoveries_and_unknown_ids_are_supervised() {
    let mut runtime = ActorRuntime::new(RuntimeConfig {
        mailbox_capacity: 2,
        max_restarts_per_tick: 10,
    });
    let ants = vec![
        Ant::new(7, Position { x: 1, y: 1 }),
        Ant::new(1, Position { x: 2, y: 2 }),
    ];
    let grid = Grid::new(8, 8);
    let decisions: Vec<Option<AntDecision<f32>>> = vec![None, None];
    let updates = runtime.gather_updates(&ants, &grid, &decisions, 0.0);
    // Id 7 names no ant; ant 1 fails but the full mailbox drops its recovery.
    assert!(updates.is_empty());
    let stats = runtime.stats();
    assert_eq!(stats.dropped_messages_tick, 1);
    assert_eq!(stats.supervision_events_total, 3);
    assert_eq!(stats.mailbox_len, 2);
}

#[test]
fn tick_counters_reset_and_totals_accumulate() {
    let mut runtime = ActorRuntime::new(RuntimeConfig {
        mailbox_capacity: 1,
        max_restarts_per_tick: 10,
    });
    let ants = vec![
        Ant::new(0, Position { x: 2, y: 2 }),
        Ant::new(1, Position { x: 3, y: 2 }),
        Ant::new(2, Position { x: 4, y: 2 }),
    ];
    let grid = Grid::new(8, 8);
    let decisions: Vec<Option<AntDecision<f32>>> = ants.iter().map(stay).collect();
    runtime.gather_updates(&ants, &grid, &decisions, 0.0);
    runtime.gather_updates(&ants, &grid, &decisions, 0.0);
    let stats = runtime.stats();
    assert_eq!(stats.dropped_messages_tick, 2);
    assert_eq!(stats.dropped_messages_total, 4);
    assert_eq!(stats.supervision_events_total, 4);
    assert_eq!(stats.processed_messages_tick, 1);
}

#[test]
fn runtime_defaults() {
    let config = RuntimeConfig::default();
    assert_eq!(config.mailbox_capacity, 2_000_000);
    assert_eq!(config.max_restarts_per_tick, 10_000);
    let runtime = ActorRuntime::default();
    assert_eq!(runtime.stats(), RuntimeStats::default());
    assert_eq!(RuntimeStats::default().restarts_total, 0);
}
