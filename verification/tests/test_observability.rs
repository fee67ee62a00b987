use empireants::observability::{
    encode_prometheus, encode_prometheus_with_metadata, ColonyReadout, ScrapeReadout,
    SimulationReadout,
};

fn readout(
    steps: u64,
    ant_count: u64,
    food_collected: u64,
    exploration_moves: u64,
    average_decision_score: f32,
    active_food_sources: u64,
    last_step_micros: u64,
    average_step_micros: f64,
    max_step_micros: u64,
    simulation_elapsed_seconds: f64,
) -> SimulationReadout {
    SimulationReadout {
        steps,
        food_collected,
        exploration_moves,
        average_decision_score: format!("{:.5}", average_decision_score),
        active_food_sources,
        ant_count,
        last_step_micros,
        average_step_micros: format!("{:.2}", average_step_micros),
        max_step_micros,
        simulation_elapsed_seconds: format!("{:.6}", simulation_elapsed_seconds),
        runtime_mailbox_len: 0,
        runtime_dropped_messages_total: 0,
        runtime_restarts_total: 0,
        runtime_supervision_events_total: 0,
    }
}

fn colony(
    carrying_ants: u64,
    searching_ants: u64,
    returning_ants: u64,
    average_energy: f32,
    max_food_pheromone: f32,
    max_home_pheromone: f32,
) -> ColonyReadout {
    ColonyReadout {
        carrying_ants,
        searching_ants,
        returning_ants,
        average_energy: format!("{:.5}", average_energy),
        max_food_pheromone: format!("{:.5}", max_food_pheromone),
        max_home_pheromone: format!("{:.5}", max_home_pheromone),
    }
}

#[test]
fn prometheus_encoder_exposes_expected_metrics() {
    let metrics = readout(120, 256, 42, 900, 0.75, 3, 812, 902.5, 1440, 0.108);
    let runtime = colony(12, 200, 56, 0.91, 1.8, 1.2);

    let output = encode_prometheus(&metrics, &runtime);

    assert!(output.contains("empireants_steps_total 120"));
    assert!(output.contains("empireants_food_collected_total 42"));
    assert!(output.contains("empireants_ants_carrying 12"));
    assert!(output.contains("empireants_average_energy 0.91000"));
    assert!(output.contains("empireants_step_latency_last_microseconds 812"));
}

#[test]
fn prometheus_encoder_supports_scrape_metadata() {
    let metrics = readout(10, 16, 3, 27, 0.44, 2, 100, 97.2, 160, 0.04);
    let runtime = colony(0, 0, 0, 0.0, 0.0, 0.0);
    let metadata = ScrapeReadout {
        uptime_seconds: format!("{:.6}", 15.2f64),
        scrape_count: 4,
    };

    let output = encode_prometheus_with_metadata(&metrics, &runtime, &metadata);
    assert!(output.contains("empireants_uptime_seconds 15.200000"));
    assert!(output.contains("empireants_metrics_scrapes_total 4"));
}

#[test]
fn prometheus_blocks_have_help_type_and_sample_lines() {
    let metrics = readout(7, 3, 1, 2, 0.5, 4, 10, 11.0, 12, 0.001);
    let runtime = colony(1, 2, 1, 0.9, 0.1, 0.2);
    let output = encode_prometheus(&metrics, &runtime);
    let lines: Vec<&str> = output.lines().collect();
    assert_eq!(lines.len(), 60);
    assert_eq!(lines[0], "# HELP empireants_steps_total Simulation steps executed.");
    assert_eq!(lines[1], "# TYPE empireants_steps_total counter");
    assert_eq!(lines[2], "empireants_steps_total 7");
    assert_eq!(lines[57], "# HELP empireants_runtime_supervision_events_total Total runtime supervision events.");
    assert_eq!(lines[59], "empireants_runtime_supervision_events_total 0");
    assert!(output.ends_with('\n'));
    assert!(output.contains("empireants_step_latency_avg_microseconds 11.00\n"));
    assert!(output.contains("empireants_simulation_elapsed_seconds 0.001000\n"));
}

#[test]
fn metadata_exposition_extends_plain_exposition() {
    let metrics = readout(1, 1, 0, 0, 0.0, 0, 0, 0.0, 0, 0.0);
    let runtime = colony(0, 1, 0, 1.0, 0.0, 0.0);
    let metadata = ScrapeReadout { uptime_seconds: "3.000000".to_string(), scrape_count: 1234567890123 };
    let plain = encode_prometheus(&metrics, &runtime);
    let full = encode_prometheus_with_metadata(&metrics, &runtime, &metadata);
    assert!(full.starts_with(&plain));
    assert!(full.ends_with("empireants_metrics_scrapes_total 1234567890123\n"));
}
