use empireants::ant::{Ant, AntState};
use empireants::observability::SimulationReadout;
use empireants::report::{ant_snapshot_csv, metrics_csv, validation_csv, ValidationRow};
use empireants::simulation::{AcoStrategy, ValidationScenario};
use empireants::world::Position;

#[test]
fn validation_report_lines() {
    let rows = vec![
        ValidationRow {
            scenario: ValidationScenario::OpenField,
            strategy: AcoStrategy::AsRank,
            steps: 6,
            ants: 32,
            food_collected: 4,
            first_food_step: 2,
            convergence_step: 6,
            exploration_efficiency: format!("{:.6}", 0.5f64),
            throughput_food_per_second: format!("{:.6}", 100.0f64),
            runtime_stability_score: format!("{:.6}", 1.0f64),
        },
        ValidationRow {
            scenario: ValidationScenario::ObstacleShift,
            strategy: AcoStrategy::AntNet,
            steps: 1,
            ants: 16,
            food_collected: 0,
            first_food_step: 1,
            convergence_step: 1,
            exploration_efficiency: "0.000000".to_string(),
            throughput_food_per_second: "0.000000".to_string(),
            runtime_stability_score: "0.333333".to_string(),
        },
    ];
    let csv = validation_csv(&rows);
    let lines: Vec<&str> = csv.lines().collect();
    assert_eq!(lines.len(), 3);
    assert!(lines[0].starts_with("scenario,strategy,steps,"));
    assert_eq!(lines[1], "open_field,as_rank,6,32,4,2,6,0.500000,100.000000,1.000000");
    assert_eq!(lines[2], "obstacle_shift,ant_net,1,16,0,1,1,0.000000,0.000000,0.333333");
    assert_eq!(validation_csv(&[]).lines().count(), 1);
}

#[test]
fn ant_snapshot_lines() {
    let mut carrier = Ant::new(3, Position { x: 4, y: 5 });
    carrier.carrying_food = true;
    carrier.state = AntState::Returning;
    let ants = [Ant::new(0, Position { x: 1, y: 2 }), carrier];
    let energies = vec![format!("{}", 1.0f32), format!("{}", 0.75f32)];
    assert_eq!(
        ant_snapshot_csv(&ants, &energies),
        "id,x,y,state,carrying_food,energy\n0,1,2,searching,false,1\n3,4,5,returning,true,0.75\n"
    );
}

#[test]
fn metrics_snapshot_line() {
    let readout = SimulationReadout {
        steps: 200,
        ant_count: 256,
        food_collected: 17,
        exploration_moves: 3000,
        average_decision_score: format!("{:.5}", 0.125f32),
        active_food_sources: 8,
        last_step_micros: 90,
        average_step_micros: format!("{:.2}", 88.25f64),
        max_step_micros: 400,
        simulation_elapsed_seconds: format!("{}", 0.0176f64),
        runtime_mailbox_len: 256,
        runtime_dropped_messages_total: 0,
        runtime_restarts_total: 1,
        runtime_supervision_events_total: 2,
    };
    let csv = metrics_csv(&readout);
    let lines: Vec<&str> = csv.lines().collect();
    assert_eq!(lines.len(), 2);
    assert_eq!(lines[1], "200,256,17,3000,0.12500,8,90,88.25,400,0.0176,256,0,1,2");
    assert_eq!(lines[0].split(',').count(), lines[1].split(',').count());
}
