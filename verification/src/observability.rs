use vstd::prelude::*;
use vstd::string::*;

use crate::text::{decimal, push_decimal};

verus! {

/// Simulation counters and gauges as exported. Gauges that the simulation
/// measures in floating point arrive already rendered as text: for the
/// Prometheus exposition `average_decision_score` with five decimals,
/// `average_step_micros` with two and `simulation_elapsed_seconds` with six.
pub struct SimulationReadout {
    pub steps: u64,
    pub food_collected: u64,
    pub exploration_moves: u64,
    pub average_decision_score: String,
    pub active_food_sources: u64,
    pub ant_count: u64,
    pub last_step_micros: u64,
    pub average_step_micros: String,
    pub max_step_micros: u64,
    pub simulation_elapsed_seconds: String,
    pub runtime_mailbox_len: u64,
    pub runtime_dropped_messages_total: u64,
    pub runtime_restarts_total: u64,
    pub runtime_supervision_events_total: u64,
}

/// Colony-wide gauges as exported to Prometheus; the floating-point ones
/// arrive rendered with five decimals.
pub struct ColonyReadout {
    pub carrying_ants: u64,
    pub searching_ants: u64,
    pub returning_ants: u64,
    pub average_energy: String,
    pub max_food_pheromone: String,
    pub max_home_pheromone: String,
}

/// Scrape metadata of the live endpoint; the uptime arrives rendered with six
/// decimals.
pub struct ScrapeReadout {
    pub uptime_seconds: String,
    pub scrape_count: u64,
}

/// The `# HELP` and `# TYPE` lines of one metric.
pub open spec fn metric_header(name: Seq<char>, help: Seq<char>, kind: Seq<char>) -> Seq<char> {
    "# HELP "@ + name + " "@ + help + "\n"@ + "# TYPE "@ + name + " "@ + kind + "\n"@
}

/// The sample line of one metric.
pub open spec fn sample_line(name: Seq<char>, value: Seq<char>) -> Seq<char> {
    name + " "@ + value + "\n"@
}

/// The complete exposition of one metric: header lines, then its sample.
pub open spec fn metric_block(name: Seq<char>, help: Seq<char>, kind: Seq<char>, value: Seq<char>) -> Seq<
    char,
> {
    metric_header(name, help, kind) + sample_line(name, value)
}

/// The Prometheus text exposition of a simulation and its colony, one block
/// per metric in a fixed order.
pub open spec fn prometheus_text(m: SimulationReadout, r: ColonyReadout) -> Seq<char> {
    metric_block("empireants_steps_total"@, "Simulation steps executed."@, "counter"@, decimal(m.steps as nat))
        + metric_block("empireants_food_collected_total"@, "Food units returned to the nest."@, "counter"@, decimal(m.food_collected as nat))
        + metric_block("empireants_exploration_moves_total"@, "Exploratory moves performed by ants."@, "counter"@, decimal(m.exploration_moves as nat))
        + metric_block("empireants_average_decision_score"@, "Mean local decision score."@, "gauge"@, m.average_decision_score@)
        + metric_block("empireants_active_food_sources"@, "Active food source cells in the grid."@, "gauge"@, decimal(m.active_food_sources as nat))
        + metric_block("empireants_ants_total"@, "Total ants in the colony."@, "gauge"@, decimal(m.ant_count as nat))
        + metric_block("empireants_ants_carrying"@, "Number of ants carrying food."@, "gauge"@, decimal(r.carrying_ants as nat))
        + metric_block("empireants_ants_searching"@, "Number of ants searching for food."@, "gauge"@, decimal(r.searching_ants as nat))
        + metric_block("empireants_ants_returning"@, "Number of ants returning to nest."@, "gauge"@, decimal(r.returning_ants as nat))
        + metric_block("empireants_average_energy"@, "Mean normalized ant energy."@, "gauge"@, r.average_energy@)
        + metric_block("empireants_pheromone_food_max"@, "Maximum food pheromone intensity."@, "gauge"@, r.max_food_pheromone@)
        + metric_block("empireants_pheromone_home_max"@, "Maximum home pheromone intensity."@, "gauge"@, r.max_home_pheromone@)
        + metric_block("empireants_step_latency_last_microseconds"@, "Last simulation step latency."@, "gauge"@, decimal(m.last_step_micros as nat))
        + metric_block("empireants_step_latency_avg_microseconds"@, "Average simulation step latency."@, "gauge"@, m.average_step_micros@)
        + metric_block("empireants_step_latency_max_microseconds"@, "Max simulation step latency."@, "gauge"@, decimal(m.max_step_micros as nat))
        + metric_block("empireants_simulation_elapsed_seconds"@, "Wall time spent in simulation stepping."@, "counter"@, m.simulation_elapsed_seconds@)
        + metric_block("empireants_runtime_mailbox_depth"@, "Current actor runtime mailbox depth."@, "gauge"@, decimal(m.runtime_mailbox_len as nat))
        + metric_block("empireants_runtime_dropped_messages_total"@, "Total dropped runtime messages."@, "counter"@, decimal(m.runtime_dropped_messages_total as nat))
        + metric_block("empireants_runtime_restarts_total"@, "Total actor restarts performed by supervision."@, "counter"@, decimal(m.runtime_restarts_total as nat))
        + metric_block("empireants_runtime_supervision_events_total"@, "Total runtime supervision events."@, "counter"@, decimal(m.runtime_supervision_events_total as nat))
}

/// The exposition extended with the scrape metadata of the live endpoint.
pub open spec fn prometheus_text_with_metadata(
    m: SimulationReadout,
    r: ColonyReadout,
    s: ScrapeReadout,
) -> Seq<char> {
    prometheus_text(m, r) + metric_block(
        "empireants_uptime_seconds"@,
        "Uptime of observability endpoint process."@,
        "gauge"@,
        s.uptime_seconds@,
    ) + metric_block(
        "empireants_metrics_scrapes_total"@,
        "Number of successful /metrics scrapes."@,
        "counter"@,
        decimal(s.scrape_count as nat),
    )
}

fn push_header(out: &mut String, name: &str, help: &str, kind: &str)
    ensures
        final(out)@ == old(out)@ + metric_header(name@, help@, kind@),
{
    out.append("# HELP ");
    out.append(name);
    out.append(" ");
    out.append(help);
    out.append("\n");
    out.append("# TYPE ");
    out.append(name);
    out.append(" ");
    out.append(kind);
    out.append("\n");
    proof {
        assert(final(out)@ =~= old(out)@ + metric_header(name@, help@, kind@));
    }
}

fn push_count_metric(out: &mut String, name: &str, help: &str, kind: &str, value: u64)
    ensures
        final(out)@ == old(out)@ + metric_block(name@, help@, kind@, decimal(value as nat)),
{
    push_header(out, name, help, kind);
    let ghost with_header = out@;
    out.append(name);
    out.append(" ");
    push_decimal(out, value);
    out.append("\n");
    proof {
        assert(final(out)@ =~= with_header + sample_line(name@, decimal(value as nat)));
        assert(final(out)@ =~= old(out)@ + metric_block(name@, help@, kind@, decimal(value as nat)));
    }
}

pub(crate) fn push_text_metric(out: &mut String, name: &str, help: &str, kind: &str, value: &str)
    ensures
        final(out)@ == old(out)@ + metric_block(name@, help@, kind@, value@),
{
    push_header(out, name, help, kind);
    let ghost with_header = out@;
    out.append(name);
    out.append(" ");
    out.append(value);
    out.append("\n");
    proof {
        assert(final(out)@ =~= with_header + sample_line(name@, value@));
        assert(final(out)@ =~= old(out)@ + metric_block(name@, help@, kind@, value@));
    }
}

/// Renders the Prometheus text exposition of the simulation metrics and the
/// colony snapshot.
pub fn encode_prometheus(metrics: &SimulationReadout, colony: &ColonyReadout) -> (output: String)
    ensures
        output@ == prometheus_text(*metrics, *colony),
{
    let mut output = String::new();
    push_count_metric(
        &mut output,
        "empireants_steps_total",
        "Simulation steps executed.",
        "counter",
        metrics.steps,
    );
    push_count_metric(
        &mut output,
        "empireants_food_collected_total",
        "Food units returned to the nest.",
        "counter",
        metrics.food_collected,
    );
    push_count_metric(
        &mut output,
        "empireants_exploration_moves_total",
        "Exploratory moves performed by ants.",
        "counter",
        metrics.exploration_moves,
    );
    push_text_metric(
        &mut output,
        "empireants_average_decision_score",
        "Mean local decision score.",
        "gauge",
        metrics.average_decision_score.as_str(),
    );
    push_count_metric(
        &mut output,
        "empireants_active_food_sources",
        "Active food source cells in the grid.",
        "gauge",
        metrics.active_food_sources,
    );
    push_count_metric(
        &mut output,
        "empireants_ants_total",
        "Total ants in the colony.",
        "gauge",
        metrics.ant_count,
    );
    push_count_metric(
        &mut output,
        "empireants_ants_carrying",
        "Number of ants carrying food.",
        "gauge",
        colony.carrying_ants,
    );
    push_count_metric(
        &mut output,
        "empireants_ants_searching",
        "Number of ants searching for food.",
        "gauge",
        colony.searching_ants,
    );
    push_count_metric(
        &mut output,
        "empireants_ants_returning",
        "Number of ants returning to nest.",
        "gauge",
        colony.returning_ants,
    );
    push_text_metric(
        &mut output,
        "empireants_average_energy",
        "Mean normalized ant energy.",
        "gauge",
        colony.average_energy.as_str(),
    );
    push_text_metric(
        &mut output,
        "empireants_pheromone_food_max",
        "Maximum food pheromone intensity.",
        "gauge",
        colony.max_food_pheromone.as_str(),
    );
    push_text_metric(
        &mut output,
        "empireants_pheromone_home_max",
        "Maximum home pheromone intensity.",
        "gauge",
        colony.max_home_pheromone.as_str(),
    );
    push_count_metric(
        &mut output,
        "empireants_step_latency_last_microseconds",
        "Last simulation step latency.",
        "gauge",
        metrics.last_step_micros,
    );
    push_text_metric(
        &mut output,
        "empireants_step_latency_avg_microseconds",
        "Average simulation step latency.",
        "gauge",
        metrics.average_step_micros.as_str(),
    );
    push_count_metric(
        &mut output,
        "empireants_step_latency_max_microseconds",
        "Max simulation step latency.",
        "gauge",
        metrics.max_step_micros,
    );
    push_text_metric(
        &mut output,
        "empireants_simulation_elapsed_seconds",
        "Wall time spent in simulation stepping.",
        "counter",
        metrics.simulation_elapsed_seconds.as_str(),
    );
    push_count_metric(
        &mut output,
        "empireants_runtime_mailbox_depth",
        "Current actor runtime mailbox depth.",
        "gauge",
        metrics.runtime_mailbox_len,
    );
    push_count_metric(
        &mut output,
        "empireants_runtime_dropped_messages_total",
        "Total dropped runtime messages.",
        "counter",
        metrics.runtime_dropped_messages_total,
    );
    push_count_metric(
        &mut output,
        "empireants_runtime_restarts_total",
        "Total actor restarts performed by supervision.",
        "counter",
        metrics.runtime_restarts_total,
    );
    push_count_metric(
        &mut output,
        "empireants_runtime_supervision_events_total",
        "Total runtime supervision events.",
        "counter",
        metrics.runtime_supervision_events_total,
    );
    proof {
        assert(prometheus_text(*metrics, *colony) =~= Seq::<char>::empty() + prometheus_text(*metrics, *colony));
    }
    output
}

/// Renders the exposition followed by the uptime and scrape count of the
/// live endpoint.
pub fn encode_prometheus_with_metadata(
    metrics: &SimulationReadout,
    colony: &ColonyReadout,
    metadata: &ScrapeReadout,
) -> (output: String)
    ensures
        output@ == prometheus_text_with_metadata(*metrics, *colony, *metadata),
{
    let mut output = encode_prometheus(metrics, colony);
    push_text_metric(
        &mut output,
        "empireants_uptime_seconds",
        "Uptime of observability endpoint process.",
        "gauge",
        metadata.uptime_seconds.as_str(),
    );
    push_count_metric(
        &mut output,
        "empireants_metrics_scrapes_total",
        "Number of successful /metrics scrapes.",
        "counter",
        metadata.scrape_count,
    );
    output
}

/// The exposition with metadata extends the plain exposition: the plain
/// exposition is a prefix of it, so scrapers see the same metrics first.
pub proof fn lemma_metadata_extends_exposition(
    m: SimulationReadout,
    r: ColonyReadout,
    s: ScrapeReadout,
)
    ensures
        prometheus_text(m, r).len() <= prometheus_text_with_metadata(m, r, s).len(),
        prometheus_text_with_metadata(m, r, s).subrange(0, prometheus_text(m, r).len() as int)
            == prometheus_text(m, r),
{
    lemma_prefix_of_sum(
        prometheus_text(m, r),
        metric_block(
            "empireants_uptime_seconds"@,
            "Uptime of observability endpoint process."@,
            "gauge"@,
            s.uptime_seconds@,
        ),
        metric_block(
            "empireants_metrics_scrapes_total"@,
            "Number of successful /metrics scrapes."@,
            "counter"@,
            decimal(s.scrape_count as nat),
        ),
    );
}

/// Whether `text` holds, on a line of its own after at least one other line,
/// the sample `name value`.
pub open spec fn reports(text: Seq<char>, name: Seq<char>, value: Seq<char>) -> bool {
    exists|before: Seq<char>, after: Seq<char>|
        #![trigger before + sample_line(name, value) + after]
        before.len() > 0 && before.last() == '\n' && text == before + sample_line(name, value)
            + after
}

proof fn lemma_block_reports(name: Seq<char>, help: Seq<char>, kind: Seq<char>, value: Seq<char>)
    ensures
        reports(metric_block(name, help, kind, value), name, value),
{
    reveal_strlit("\n");
    let before = metric_header(name, help, kind);
    let after = Seq::<char>::empty();
    assert(before.last() == '\n');
    assert(metric_block(name, help, kind, value) =~= before + sample_line(name, value) + after);
}

proof fn lemma_reports_in_longer(
    text: Seq<char>,
    extra: Seq<char>,
    name: Seq<char>,
    value: Seq<char>,
)
    requires
        reports(text, name, value),
    ensures
        reports(text + extra, name, value),
        reports(extra + text, name, value),
{
    let (before, after) = choose|before: Seq<char>, after: Seq<char>|
        #![trigger before + sample_line(name, value) + after]
        before.len() > 0 && before.last() == '\n' && text == before + sample_line(name, value)
            + after;
    let line = sample_line(name, value);
    assert(text + extra =~= before + line + (after + extra));
    assert((extra + before).last() == before.last());
    assert(extra + text =~= (extra + before) + line + after);
}

proof fn lemma_reports_chain()
    ensures
        forall|n: Seq<char>, h: Seq<char>, k: Seq<char>, v: Seq<char>|
            #[trigger] reports(metric_block(n, h, k, v), n, v),
        forall|t: Seq<char>, x: Seq<char>, n: Seq<char>, v: Seq<char>|
            reports(t, n, v) ==> #[trigger] reports(t + x, n, v),
        forall|x: Seq<char>, t: Seq<char>, n: Seq<char>, v: Seq<char>|
            reports(t, n, v) ==> #[trigger] reports(x + t, n, v),
{
    assert forall|n: Seq<char>, h: Seq<char>, k: Seq<char>, v: Seq<char>|
        #[trigger] reports(metric_block(n, h, k, v), n, v) by {
        lemma_block_reports(n, h, k, v);
    }
    assert forall|t: Seq<char>, x: Seq<char>, n: Seq<char>, v: Seq<char>|
        reports(t, n, v) implies #[trigger] reports(t + x, n, v) by {
        lemma_reports_in_longer(t, x, n, v);
    }
    assert forall|x: Seq<char>, t: Seq<char>, n: Seq<char>, v: Seq<char>|
        reports(t, n, v) implies #[trigger] reports(x + t, n, v) by {
        lemma_reports_in_longer(t, x, n, v);
    }
}

/// Every metric of the exposition reports the value it is named after: the
/// text holds, on a line of its own, each metric's name followed by the
/// readout field that metric stands for.
#[verifier::rlimit(50)]
pub proof fn lemma_exposition_reports_each_field(m: SimulationReadout, r: ColonyReadout)
    ensures
        reports(prometheus_text(m, r), "empireants_steps_total"@, decimal(m.steps as nat)),
        reports(prometheus_text(m, r), "empireants_food_collected_total"@, decimal(m.food_collected as nat)),
        reports(prometheus_text(m, r), "empireants_exploration_moves_total"@, decimal(m.exploration_moves as nat)),
        reports(prometheus_text(m, r), "empireants_average_decision_score"@, m.average_decision_score@),
        reports(prometheus_text(m, r), "empireants_active_food_sources"@, decimal(m.active_food_sources as nat)),
        reports(prometheus_text(m, r), "empireants_ants_total"@, decimal(m.ant_count as nat)),
        reports(prometheus_text(m, r), "empireants_ants_carrying"@, decimal(r.carrying_ants as nat)),
        reports(prometheus_text(m, r), "empireants_ants_searching"@, decimal(r.searching_ants as nat)),
        reports(prometheus_text(m, r), "empireants_ants_returning"@, decimal(r.returning_ants as nat)),
        reports(prometheus_text(m, r), "empireants_average_energy"@, r.average_energy@),
        reports(prometheus_text(m, r), "empireants_pheromone_food_max"@, r.max_food_pheromone@),
        reports(prometheus_text(m, r), "empireants_pheromone_home_max"@, r.max_home_pheromone@),
        reports(prometheus_text(m, r), "empireants_step_latency_last_microseconds"@, decimal(m.last_step_micros as nat)),
        reports(prometheus_text(m, r), "empireants_step_latency_avg_microseconds"@, m.average_step_micros@),
        reports(prometheus_text(m, r), "empireants_step_latency_max_microseconds"@, decimal(m.max_step_micros as nat)),
        reports(prometheus_text(m, r), "empireants_simulation_elapsed_seconds"@, m.simulation_elapsed_seconds@),
        reports(prometheus_text(m, r), "empireants_runtime_mailbox_depth"@, decimal(m.runtime_mailbox_len as nat)),
        reports(prometheus_text(m, r), "empireants_runtime_dropped_messages_total"@, decimal(m.runtime_dropped_messages_total as nat)),
        reports(prometheus_text(m, r), "empireants_runtime_restarts_total"@, decimal(m.runtime_restarts_total as nat)),
        reports(prometheus_text(m, r), "empireants_runtime_supervision_events_total"@, decimal(m.runtime_supervision_events_total as nat)),
{
    lemma_reports_chain();
}

/// The exposition with metadata reports every metric of the plain exposition
/// and, in addition, the endpoint's uptime and scrape count.
#[verifier::rlimit(50)]
pub proof fn lemma_metadata_exposition_reports_each_field(
    m: SimulationReadout,
    r: ColonyReadout,
    s: ScrapeReadout,
)
    ensures
        reports(prometheus_text_with_metadata(m, r, s), "empireants_steps_total"@, decimal(m.steps as nat)),
        reports(prometheus_text_with_metadata(m, r, s), "empireants_food_collected_total"@, decimal(m.food_collected as nat)),
        reports(prometheus_text_with_metadata(m, r, s), "empireants_exploration_moves_total"@, decimal(m.exploration_moves as nat)),
        reports(prometheus_text_with_metadata(m, r, s), "empireants_average_decision_score"@, m.average_decision_score@),
        reports(prometheus_text_with_metadata(m, r, s), "empireants_active_food_sources"@, decimal(m.active_food_sources as nat)),
        reports(prometheus_text_with_metadata(m, r, s), "empireants_ants_total"@, decimal(m.ant_count as nat)),
        reports(prometheus_text_with_metadata(m, r, s), "empireants_ants_carrying"@, decimal(r.carrying_ants as nat)),
        reports(prometheus_text_with_metadata(m, r, s), "empireants_ants_searching"@, decimal(r.searching_ants as nat)),
        reports(prometheus_text_with_metadata(m, r, s), "empireants_ants_returning"@, decimal(r.returning_ants as nat)),
        reports(prometheus_text_with_metadata(m, r, s), "empireants_average_energy"@, r.average_energy@),
        reports(prometheus_text_with_metadata(m, r, s), "empireants_pheromone_food_max"@, r.max_food_pheromone@),
        reports(prometheus_text_with_metadata(m, r, s), "empireants_pheromone_home_max"@, r.max_home_pheromone@),
        reports(prometheus_text_with_metadata(m, r, s), "empireants_step_latency_last_microseconds"@, decimal(m.last_step_micros as nat)),
        reports(prometheus_text_with_metadata(m, r, s), "empireants_step_latency_avg_microseconds"@, m.average_step_micros@),
        reports(prometheus_text_with_metadata(m, r, s), "empireants_step_latency_max_microseconds"@, decimal(m.max_step_micros as nat)),
        reports(prometheus_text_with_metadata(m, r, s), "empireants_simulation_elapsed_seconds"@, m.simulation_elapsed_seconds@),
        reports(prometheus_text_with_metadata(m, r, s), "empireants_runtime_mailbox_depth"@, decimal(m.runtime_mailbox_len as nat)),
        reports(prometheus_text_with_metadata(m, r, s), "empireants_runtime_dropped_messages_total"@, decimal(m.runtime_dropped_messages_total as nat)),
        reports(prometheus_text_with_metadata(m, r, s), "empireants_runtime_restarts_total"@, decimal(m.runtime_restarts_total as nat)),
        reports(prometheus_text_with_metadata(m, r, s), "empireants_runtime_supervision_events_total"@, decimal(m.runtime_supervision_events_total as nat)),
        reports(prometheus_text_with_metadata(m, r, s), "empireants_uptime_seconds"@, s.uptime_seconds@),
        reports(prometheus_text_with_metadata(m, r, s), "empireants_metrics_scrapes_total"@, decimal(s.scrape_count as nat)),
{
    lemma_reports_chain();
    lemma_exposition_reports_each_field(m, r);
}

proof fn lemma_prefix_of_sum(a: Seq<char>, b: Seq<char>, c: Seq<char>)
    ensures
        (a + b + c).subrange(0, a.len() as int) == a,
{
    assert((a + b + c).subrange(0, a.len() as int) =~= a);
}

} // verus!
