use vstd::prelude::*;
use vstd::string::*;

use crate::ant::agent::{Ant, AntState};
use crate::simulation::aco::AcoStrategy;
use crate::simulation::validation::ValidationScenario;
use crate::observability::SimulationReadout;
use crate::text::{decimal, push_decimal};

verus! {

/// One row of the validation report; the floating-point KPIs arrive rendered
/// with six decimals.
pub struct ValidationRow {
    pub scenario: ValidationScenario,
    pub strategy: AcoStrategy,
    pub steps: usize,
    pub ants: usize,
    pub food_collected: u32,
    pub first_food_step: usize,
    pub convergence_step: usize,
    pub exploration_efficiency: String,
    pub throughput_food_per_second: String,
    pub runtime_stability_score: String,
}

pub open spec fn validation_header() -> Seq<char> {
    "scenario,strategy,steps,ants,food_collected,first_food_step,convergence_step,exploration_efficiency,throughput_food_per_second,runtime_stability_score\n"@
}

/// `text` followed by the CSV line of one validation row.
pub open spec fn with_validation_line(text: Seq<char>, row: ValidationRow) -> Seq<char> {
    text + row.scenario.label_text() + ","@ + row.strategy.label_text() + ","@ + decimal(row.steps as nat)
        + ","@ + decimal(row.ants as nat) + ","@ + decimal(row.food_collected as nat) + ","@
        + decimal(row.first_food_step as nat) + ","@ + decimal(row.convergence_step as nat) + ","@
        + row.exploration_efficiency@ + ","@ + row.throughput_food_per_second@ + ","@
        + row.runtime_stability_score@ + "\n"@
}

/// The validation report: the header, then the line of each row in order.
pub open spec fn validation_text(rows: Seq<ValidationRow>) -> Seq<char>
    decreases rows.len(),
{
    if rows.len() == 0 {
        validation_header()
    } else {
        with_validation_line(validation_text(rows.drop_last()), rows.last())
    }
}

/// Renders the validation report: the header, then one line per row.
fn push_validation_line(csv: &mut String, row: &ValidationRow)
    ensures
        final(csv)@ == with_validation_line(old(csv)@, *row),
{
    csv.append(row.scenario.label());
    csv.append(",");
    csv.append(row.strategy.label());
    csv.append(",");
    push_decimal(csv, row.steps as u64);
    csv.append(",");
    push_decimal(csv, row.ants as u64);
    csv.append(",");
    push_decimal(csv, row.food_collected as u64);
    csv.append(",");
    push_decimal(csv, row.first_food_step as u64);
    csv.append(",");
    push_decimal(csv, row.convergence_step as u64);
    csv.append(",");
    csv.append(row.exploration_efficiency.as_str());
    csv.append(",");
    csv.append(row.throughput_food_per_second.as_str());
    csv.append(",");
    csv.append(row.runtime_stability_score.as_str());
    csv.append("\n");
}

pub fn validation_csv(rows: &[ValidationRow]) -> (csv: String)
    ensures
        csv@ == validation_text(rows@),
{
    let mut csv = String::new();
    csv.append(
        "scenario,strategy,steps,ants,food_collected,first_food_step,convergence_step,exploration_efficiency,throughput_food_per_second,runtime_stability_score\n",
    );
    let mut i: usize = 0;
    while i < rows.len()
        invariant
            i <= rows@.len(),
            csv@ == validation_text(rows@.take(i as int)),
        decreases rows@.len() - i,
    {
        push_validation_line(&mut csv, &rows[i]);
        proof {
            assert(rows@.take(i + 1).drop_last() =~= rows@.take(i as int));
        }
        i = i + 1;
    }
    proof {
        assert(rows@.take(i as int) =~= rows@);
    }
    csv
}

pub open spec fn state_text(state: AntState) -> Seq<char> {
    match state {
        AntState::Searching => "searching"@,
        AntState::Returning => "returning"@,
    }
}

pub open spec fn bool_text(b: bool) -> Seq<char> {
    if b {
        "true"@
    } else {
        "false"@
    }
}

pub open spec fn ant_header() -> Seq<char> {
    "id,x,y,state,carrying_food,energy\n"@
}

/// `text` followed by the CSV line of one ant with its rendered energy.
pub open spec fn with_ant_line(text: Seq<char>, ant: Ant, energy: Seq<char>) -> Seq<char> {
    text + decimal(ant.id as nat) + ","@ + decimal(ant.position.x as nat) + ","@ + decimal(
        ant.position.y as nat,
    ) + ","@ + state_text(ant.state) + ","@ + bool_text(ant.carrying_food) + ","@ + energy + "\n"@
}

/// The ant snapshot: the header, then the line of each ant with its
/// rendered energy.
pub open spec fn ant_text(ants: Seq<Ant>, energies: Seq<String>) -> Seq<char>
    decreases ants.len(),
{
    if ants.len() == 0 {
        ant_header()
    } else {
        with_ant_line(ant_text(ants.drop_last(), energies.drop_last()), ants.last(), energies.last()@)
    }
}

fn push_ant_line(csv: &mut String, ant: &Ant, energy: &str)
    ensures
        final(csv)@ == with_ant_line(old(csv)@, *ant, energy@),
{
    push_decimal(csv, ant.id as u64);
    csv.append(",");
    push_decimal(csv, ant.position.x as u64);
    csv.append(",");
    push_decimal(csv, ant.position.y as u64);
    csv.append(",");
    match ant.state {
        AntState::Searching => csv.append("searching"),
        AntState::Returning => csv.append("returning"),
    }
    csv.append(",");
    if ant.carrying_food {
        csv.append("true");
    } else {
        csv.append("false");
    }
    csv.append(",");
    csv.append(energy);
    csv.append("\n");
}

/// Renders the ant snapshot: the header, then one line per ant; `energies[i]`
/// is the rendered energy of `ants[i]`.
pub fn ant_snapshot_csv(ants: &[Ant], energies: &[String]) -> (csv: String)
    requires
        energies@.len() == ants@.len(),
    ensures
        csv@ == ant_text(ants@, energies@),
{
    let mut csv = String::new();
    csv.append("id,x,y,state,carrying_food,energy\n");
    let mut i: usize = 0;
    while i < ants.len()
        invariant
            energies@.len() == ants@.len(),
            i <= ants@.len(),
            csv@ == ant_text(ants@.take(i as int), energies@.take(i as int)),
        decreases ants@.len() - i,
    {
        push_ant_line(&mut csv, &ants[i], energies[i].as_str());
        proof {
            assert(ants@.take(i + 1).drop_last() =~= ants@.take(i as int));
            assert(energies@.take(i + 1).drop_last() =~= energies@.take(i as int));
        }
        i = i + 1;
    }
    proof {
        assert(ants@.take(i as int) =~= ants@);
        assert(energies@.take(i as int) =~= energies@);
    }
    csv
}

pub open spec fn metrics_header() -> Seq<char> {
    "steps,ant_count,food_collected,exploration_moves,average_decision_score,active_food_sources,last_step_micros,average_step_micros,max_step_micros,simulation_elapsed_seconds,runtime_mailbox_len,runtime_dropped_messages_total,runtime_restarts_total,runtime_supervision_events_total\n"@
}

/// The metrics snapshot: the header, then one line of values in the order of
/// the header.
pub open spec fn metrics_text(m: SimulationReadout) -> Seq<char> {
    metrics_header() + decimal(m.steps as nat) + ","@ + decimal(m.ant_count as nat) + ","@ + decimal(
        m.food_collected as nat,
    ) + ","@ + decimal(m.exploration_moves as nat) + ","@ + m.average_decision_score@ + ","@
        + decimal(m.active_food_sources as nat) + ","@ + decimal(m.last_step_micros as nat) + ","@
        + m.average_step_micros@ + ","@ + decimal(m.max_step_micros as nat) + ","@
        + m.simulation_elapsed_seconds@ + ","@ + decimal(m.runtime_mailbox_len as nat) + ","@
        + decimal(m.runtime_dropped_messages_total as nat) + ","@ + decimal(
        m.runtime_restarts_total as nat,
    ) + ","@ + decimal(m.runtime_supervision_events_total as nat) + "\n"@
}

/// Renders the metrics snapshot: the header and one line of values.
pub fn metrics_csv(metrics: &SimulationReadout) -> (csv: String)
    ensures
        csv@ == metrics_text(*metrics),
{
    let mut csv = String::new();
    csv.append(
        "steps,ant_count,food_collected,exploration_moves,average_decision_score,active_food_sources,last_step_micros,average_step_micros,max_step_micros,simulation_elapsed_seconds,runtime_mailbox_len,runtime_dropped_messages_total,runtime_restarts_total,runtime_supervision_events_total\n",
    );
    push_decimal(&mut csv, metrics.steps);
    csv.append(",");
    push_decimal(&mut csv, metrics.ant_count);
    csv.append(",");
    push_decimal(&mut csv, metrics.food_collected);
    csv.append(",");
    push_decimal(&mut csv, metrics.exploration_moves);
    csv.append(",");
    csv.append(metrics.average_decision_score.as_str());
    csv.append(",");
    push_decimal(&mut csv, metrics.active_food_sources);
    csv.append(",");
    push_decimal(&mut csv, metrics.last_step_micros);
    csv.append(",");
    csv.append(metrics.average_step_micros.as_str());
    csv.append(",");
    push_decimal(&mut csv, metrics.max_step_micros);
    csv.append(",");
    csv.append(metrics.simulation_elapsed_seconds.as_str());
    csv.append(",");
    push_decimal(&mut csv, metrics.runtime_mailbox_len);
    csv.append(",");
    push_decimal(&mut csv, metrics.runtime_dropped_messages_total);
    csv.append(",");
    push_decimal(&mut csv, metrics.runtime_restarts_total);
    csv.append(",");
    push_decimal(&mut csv, metrics.runtime_supervision_events_total);
    csv.append("\n");
    csv
}

} // verus!
