use vstd::prelude::*;

use crate::ant::agent::{ids_are_indices, Ant, AntId, AntState};
use crate::world::{Grid, Position};

verus! {

/// Bounds of the actor runtime: how many commands the mailbox holds in one
/// tick, and how many failed ants may be restarted in one tick.
#[derive(Clone, Copy, Debug, PartialEq, Eq, Structural)]
pub struct RuntimeConfig {
    pub mailbox_capacity: usize,
    pub max_restarts_per_tick: usize,
}

impl Default for RuntimeConfig {
    fn default() -> (config: Self)
        ensures
            config == (RuntimeConfig { mailbox_capacity: 2_000_000, max_restarts_per_tick: 10_000 }),
    {
        RuntimeConfig { mailbox_capacity: 2_000_000, max_restarts_per_tick: 10_000 }
    }
}

/// Operational counters of the runtime; the `_tick` ones describe the last
/// tick, the `_total` ones every tick so far.
#[derive(Clone, Copy, Debug, PartialEq, Eq, Structural)]
pub struct RuntimeStats {
    pub mailbox_len: usize,
    pub dropped_messages_total: u64,
    pub dropped_messages_tick: u64,
    pub restarts_total: u64,
    pub restarts_tick: u64,
    pub supervision_events_total: u64,
    pub processed_messages_tick: u64,
}

impl RuntimeStats {
    pub open spec fn zero() -> RuntimeStats {
        RuntimeStats {
            mailbox_len: 0,
            dropped_messages_total: 0,
            dropped_messages_tick: 0,
            restarts_total: 0,
            restarts_tick: 0,
            supervision_events_total: 0,
            processed_messages_tick: 0,
        }
    }
}

impl Default for RuntimeStats {
    fn default() -> (stats: Self)
        ensures
            stats == RuntimeStats::zero(),
    {
        RuntimeStats {
            mailbox_len: 0,
            dropped_messages_total: 0,
            dropped_messages_tick: 0,
            restarts_total: 0,
            restarts_tick: 0,
            supervision_events_total: 0,
            processed_messages_tick: 0,
        }
    }
}

/// A message in the runtime's mailbox.
#[derive(Clone, Copy, Debug, PartialEq, Eq, Structural)]
pub enum RuntimeCommand {
    /// Ask the ant with this id for its next move.
    Decide { ant_id: AntId },
    /// Restart the ant with this id at the nest after a failed decision.
    Recover { ant_id: AntId },
}

/// An ant's decision: where it moves, the score of that move (whatever the
/// scoring measures it in) and whether the move was exploratory.
#[derive(Clone, Copy, Debug)]
pub struct AntDecision<S> {
    pub next: Position,
    pub pheromone_score: S,
    pub was_exploratory: bool,
}

/// One update produced by the runtime for the simulation to apply.
#[derive(Clone, Copy, Debug)]
pub struct AntUpdate<S> {
    pub ant_id: AntId,
    pub from: Position,
    pub to: Position,
    pub state: AntState,
    pub carrying_food: bool,
    pub decision_score: S,
    pub exploratory: bool,
    pub recovered: bool,
}

/// The update for an ant that decided normally.
pub open spec fn decided_update<S>(ant: Ant, d: AntDecision<S>) -> AntUpdate<S> {
    AntUpdate {
        ant_id: ant.id,
        from: ant.position,
        to: d.next,
        state: ant.state,
        carrying_food: ant.carrying_food,
        decision_score: d.pheromone_score,
        exploratory: d.was_exploratory,
        recovered: false,
    }
}

/// The update for a restarted ant: back to the nest, searching, empty-handed.
pub open spec fn recovered_update<S>(ant: Ant, nest: Position, score: S) -> AntUpdate<S> {
    AntUpdate {
        ant_id: ant.id,
        from: ant.position,
        to: nest,
        state: AntState::Searching,
        carrying_food: false,
        decision_score: score,
        exploratory: false,
        recovered: true,
    }
}

/// What processing the first `j` decide commands yields: the updates of ants
/// that decided, the ids queued for recovery, the supervision events raised
/// and the recovery commands dropped for lack of mailbox room.
pub struct DecidePhase<S> {
    pub updates: Seq<AntUpdate<S>>,
    pub recovers: Seq<AntId>,
    pub supervision: nat,
    pub dropped: nat,
}

/// Processing the decide commands of the first `j` ants, `queued` commands
/// being in the mailbox before any recovery command.
///
/// A command naming no ant is a supervision event. An ant whose decision
/// failed is a supervision event and gets a recovery command if the mailbox
/// has room; if it has none the command is dropped, another supervision event.
pub open spec fn decide_phase<S>(
    ants: Seq<Ant>,
    decisions: Seq<Option<AntDecision<S>>>,
    capacity: nat,
    queued: nat,
    j: nat,
) -> DecidePhase<S>
    decreases j,
{
    if j == 0 {
        DecidePhase { updates: Seq::empty(), recovers: Seq::empty(), supervision: 0, dropped: 0 }
    } else {
        let prev = decide_phase(ants, decisions, capacity, queued, (j - 1) as nat);
        let target = ants[j - 1].id;
        if target >= ants.len() {
            DecidePhase { supervision: prev.supervision + 1, ..prev }
        } else {
            match decisions[target as int] {
                Some(d) => DecidePhase {
                    updates: prev.updates.push(decided_update(ants[target as int], d)),
                    ..prev
                },
                None => if queued + prev.recovers.len() < capacity {
                    DecidePhase {
                        recovers: prev.recovers.push(ants[target as int].id),
                        supervision: prev.supervision + 1,
                        ..prev
                    }
                } else {
                    DecidePhase {
                        supervision: prev.supervision + 2,
                        dropped: prev.dropped + 1,
                        ..prev
                    }
                },
            }
        }
    }
}

/// What processing the first `j` recovery commands yields.
pub struct RecoverPhase<S> {
    pub updates: Seq<AntUpdate<S>>,
    pub restarts: nat,
    pub supervision: nat,
}

/// Processing the first `j` recovery commands: once the restart budget of the
/// tick is spent, or when the id names no ant, the command is a supervision
/// event; otherwise the ant is restarted at the nest.
pub open spec fn recover_phase<S>(
    ants: Seq<Ant>,
    nest: Position,
    max_restarts: nat,
    recovers: Seq<AntId>,
    score: S,
    j: nat,
) -> RecoverPhase<S>
    decreases j,
{
    if j == 0 {
        RecoverPhase { updates: Seq::empty(), restarts: 0, supervision: 0 }
    } else {
        let prev = recover_phase(ants, nest, max_restarts, recovers, score, (j - 1) as nat);
        let id = recovers[j - 1];
        if prev.restarts >= max_restarts || id >= ants.len() {
            RecoverPhase { supervision: prev.supervision + 1, ..prev }
        } else {
            RecoverPhase {
                updates: prev.updates.push(recovered_update(ants[id as int], nest, score)),
                restarts: prev.restarts + 1,
                ..prev
            }
        }
    }
}

/// The decide commands that fit in the mailbox.
pub open spec fn queued_decides(ants: Seq<Ant>, capacity: nat) -> nat {
    if ants.len() < capacity {
        ants.len()
    } else {
        capacity
    }
}

/// The complete outcome of one tick of the runtime.
pub struct TickOutcome<S> {
    pub decide: DecidePhase<S>,
    pub recover: RecoverPhase<S>,
    pub queued: nat,
}

pub open spec fn tick_outcome<S>(
    ants: Seq<Ant>,
    decisions: Seq<Option<AntDecision<S>>>,
    config: RuntimeConfig,
    nest: Position,
    score: S,
) -> TickOutcome<S> {
    let queued = queued_decides(ants, config.mailbox_capacity as nat);
    let decide = decide_phase(ants, decisions, config.mailbox_capacity as nat, queued, queued);
    let recover = recover_phase(
        ants,
        nest,
        config.max_restarts_per_tick as nat,
        decide.recovers,
        score,
        decide.recovers.len(),
    );
    TickOutcome { decide, recover, queued }
}

/// The updates of one tick: those of ants that decided, in ant order, then
/// those of restarted ants.
pub open spec fn tick_updates<S>(
    ants: Seq<Ant>,
    decisions: Seq<Option<AntDecision<S>>>,
    config: RuntimeConfig,
    nest: Position,
    score: S,
) -> Seq<AntUpdate<S>> {
    let t = tick_outcome(ants, decisions, config, nest, score);
    t.decide.updates + t.recover.updates
}

/// The counters after one tick, starting from `before`.
pub open spec fn tick_stats<S>(
    before: RuntimeStats,
    ants: Seq<Ant>,
    decisions: Seq<Option<AntDecision<S>>>,
    config: RuntimeConfig,
    nest: Position,
    score: S,
) -> RuntimeStats {
    let t = tick_outcome(ants, decisions, config, nest, score);
    let dropped = (ants.len() - t.queued) + t.decide.dropped;
    let handled = t.queued + t.decide.recovers.len();
    RuntimeStats {
        mailbox_len: handled as usize,
        dropped_messages_total: (before.dropped_messages_total + dropped) as u64,
        dropped_messages_tick: dropped as u64,
        restarts_total: (before.restarts_total + t.recover.restarts) as u64,
        restarts_tick: t.recover.restarts as u64,
        supervision_events_total: (before.supervision_events_total + (ants.len() - t.queued)
            + t.decide.supervision + t.recover.supervision) as u64,
        processed_messages_tick: handled as u64,
    }
}


/// Whether the `_total` counters can take one more tick from `before` within
/// their 64 bits: the dropped messages, restarts and supervision events that
/// the tick adds fit.
pub open spec fn tick_fits<S>(
    before: RuntimeStats,
    ants: Seq<Ant>,
    decisions: Seq<Option<AntDecision<S>>>,
    config: RuntimeConfig,
    nest: Position,
    score: S,
) -> bool {
    let t = tick_outcome(ants, decisions, config, nest, score);
    &&& before.dropped_messages_total + (ants.len() - t.queued) + t.decide.dropped <= u64::MAX
    &&& before.restarts_total + t.recover.restarts <= u64::MAX
    &&& before.supervision_events_total + (ants.len() - t.queued) + t.decide.supervision
        + t.recover.supervision <= u64::MAX
}

/// The decide commands queued for the first `m` ants.
pub open spec fn decide_commands(ants: Seq<Ant>, m: nat) -> Seq<RuntimeCommand> {
    Seq::new(m, |j: int| RuntimeCommand::Decide { ant_id: ants[j].id })
}

/// Each decide command yields at most one update or recovery and at most two
/// supervision events, and recoveries are only queued while there is room.
pub proof fn lemma_decide_phase_bounds<S>(
    ants: Seq<Ant>,
    decisions: Seq<Option<AntDecision<S>>>,
    capacity: nat,
    queued: nat,
    j: nat,
)
    requires
        queued <= capacity,
    ensures
        ({
            let d = decide_phase(ants, decisions, capacity, queued, j);
            &&& d.updates.len() + d.recovers.len() + d.dropped <= j
            &&& d.supervision + d.recovers.len() <= 2 * j
            &&& queued + d.recovers.len() <= capacity
        }),
    decreases j,
{
    if j > 0 {
        lemma_decide_phase_bounds(ants, decisions, capacity, queued, (j - 1) as nat);
    }
}

/// Each recovery command yields either a restart (with its update) or a
/// supervision event, and restarts never exceed the budget.
pub proof fn lemma_recover_phase_bounds<S>(
    ants: Seq<Ant>,
    nest: Position,
    max_restarts: nat,
    recovers: Seq<AntId>,
    score: S,
    j: nat,
)
    ensures
        ({
            let r = recover_phase(ants, nest, max_restarts, recovers, score, j);
            &&& r.updates.len() == r.restarts
            &&& r.restarts + r.supervision == j
            &&& r.restarts <= max_restarts
        }),
    decreases j,
{
    if j > 0 {
        lemma_recover_phase_bounds(ants, nest, max_restarts, recovers, score, (j - 1) as nat);
    }
}

/// Processing more decide commands never takes back a dropped message, a
/// supervision event or a queued recovery.
proof fn lemma_decide_phase_monotone<S>(
    ants: Seq<Ant>,
    decisions: Seq<Option<AntDecision<S>>>,
    capacity: nat,
    queued: nat,
    j: nat,
    k: nat,
)
    requires
        j <= k,
    ensures
        ({
            let a = decide_phase(ants, decisions, capacity, queued, j);
            let b = decide_phase(ants, decisions, capacity, queued, k);
            &&& a.dropped <= b.dropped
            &&& a.supervision <= b.supervision
            &&& a.recovers.len() <= b.recovers.len()
        }),
    decreases k,
{
    if j < k {
        lemma_decide_phase_monotone(ants, decisions, capacity, queued, j, (k - 1) as nat);
    }
}

/// Processing more recovery commands never takes back a restart or a
/// supervision event.
proof fn lemma_recover_phase_monotone<S>(
    ants: Seq<Ant>,
    nest: Position,
    max_restarts: nat,
    recovers: Seq<AntId>,
    score: S,
    j: nat,
    k: nat,
)
    requires
        j <= k,
    ensures
        ({
            let a = recover_phase(ants, nest, max_restarts, recovers, score, j);
            let b = recover_phase(ants, nest, max_restarts, recovers, score, k);
            &&& a.restarts <= b.restarts
            &&& a.supervision <= b.supervision
        }),
    decreases k,
{
    if j < k {
        lemma_recover_phase_monotone(ants, nest, max_restarts, recovers, score, j, (k - 1) as nat);
    }
}

/// A tick adds at most one dropped message and one restart per ant, and at
/// most two supervision events per ant: with that much room left in each
/// `_total` counter the tick fits.
pub proof fn lemma_headroom_fits<S>(
    before: RuntimeStats,
    ants: Seq<Ant>,
    decisions: Seq<Option<AntDecision<S>>>,
    config: RuntimeConfig,
    nest: Position,
    score: S,
)
    requires
        before.dropped_messages_total + ants.len() <= u64::MAX,
        before.restarts_total + ants.len() <= u64::MAX,
        before.supervision_events_total + 2 * ants.len() <= u64::MAX,
    ensures
        tick_fits(before, ants, decisions, config, nest, score),
{
    let t = tick_outcome(ants, decisions, config, nest, score);
    lemma_decide_phase_bounds(ants, decisions, config.mailbox_capacity as nat, t.queued, t.queued);
    lemma_recover_phase_bounds(
        ants,
        nest,
        config.max_restarts_per_tick as nat,
        t.decide.recovers,
        score,
        t.decide.recovers.len(),
    );
}

/// Backpressure: one tick never yields more updates than there are ants or
/// than the mailbox holds, never restarts more ants than the budget allows,
/// and never holds more commands than the mailbox capacity.
pub proof fn lemma_backpressure<S>(
    ants: Seq<Ant>,
    decisions: Seq<Option<AntDecision<S>>>,
    config: RuntimeConfig,
    nest: Position,
    score: S,
    before: RuntimeStats,
)
    ensures
        tick_updates(ants, decisions, config, nest, score).len() <= ants.len(),
        tick_updates(ants, decisions, config, nest, score).len() <= config.mailbox_capacity,
        tick_stats(before, ants, decisions, config, nest, score).mailbox_len
            <= config.mailbox_capacity,
        tick_outcome(ants, decisions, config, nest, score).recover.restarts
            <= config.max_restarts_per_tick,
{
    let t = tick_outcome(ants, decisions, config, nest, score);
    lemma_decide_phase_bounds(ants, decisions, config.mailbox_capacity as nat, t.queued, t.queued);
    lemma_recover_phase_bounds(
        ants,
        nest,
        config.max_restarts_per_tick as nat,
        t.decide.recovers,
        score,
        t.decide.recovers.len(),
    );
}

/// Every ant beyond the mailbox capacity is dropped and raises a supervision
/// event.
pub proof fn lemma_overflow_is_dropped<S>(
    ants: Seq<Ant>,
    decisions: Seq<Option<AntDecision<S>>>,
    config: RuntimeConfig,
    nest: Position,
    score: S,
    before: RuntimeStats,
)
    requires
        tick_fits(before, ants, decisions, config, nest, score),
    ensures
        ants.len() > config.mailbox_capacity ==> tick_stats(
            before,
            ants,
            decisions,
            config,
            nest,
            score,
        ).dropped_messages_tick >= ants.len() - config.mailbox_capacity,
        tick_stats(before, ants, decisions, config, nest, score).supervision_events_total
            >= before.supervision_events_total + tick_stats(
            before,
            ants,
            decisions,
            config,
            nest,
            score,
        ).dropped_messages_tick,
{
    let t = tick_outcome(ants, decisions, config, nest, score);
    lemma_decide_phase_bounds(ants, decisions, config.mailbox_capacity as nat, t.queued, t.queued);
    lemma_recover_phase_bounds(
        ants,
        nest,
        config.max_restarts_per_tick as nat,
        t.decide.recovers,
        score,
        t.decide.recovers.len(),
    );
    lemma_dropped_recoveries_supervised(ants, decisions, config.mailbox_capacity as nat, t.queued, t.queued);
}

/// The `_total` counters only grow from tick to tick, and each grows by the
/// matching `_tick` counter, whenever the tick fits in the counters (a tick
/// that does not fit overflows a `_total` counter).
pub proof fn lemma_totals_accumulate<S>(
    ants: Seq<Ant>,
    decisions: Seq<Option<AntDecision<S>>>,
    config: RuntimeConfig,
    nest: Position,
    score: S,
    before: RuntimeStats,
)
    requires
        tick_fits(before, ants, decisions, config, nest, score),
    ensures
        ({
            let after = tick_stats(before, ants, decisions, config, nest, score);
            &&& after.dropped_messages_total == before.dropped_messages_total
                + after.dropped_messages_tick
            &&& after.restarts_total == before.restarts_total + after.restarts_tick
            &&& after.supervision_events_total >= before.supervision_events_total
            &&& after.processed_messages_tick == after.mailbox_len
        }),
{
    let t = tick_outcome(ants, decisions, config, nest, score);
    lemma_decide_phase_bounds(ants, decisions, config.mailbox_capacity as nat, t.queued, t.queued);
    lemma_recover_phase_bounds(
        ants,
        nest,
        config.max_restarts_per_tick as nat,
        t.decide.recovers,
        score,
        t.decide.recovers.len(),
    );
}

proof fn lemma_all_decided_phase<S>(
    ants: Seq<Ant>,
    decisions: Seq<Option<AntDecision<S>>>,
    capacity: nat,
    queued: nat,
    j: nat,
)
    requires
        ids_are_indices(ants),
        j <= ants.len(),
        forall|i: int| 0 <= i < ants.len() ==> (#[trigger] decisions[i]) is Some,
    ensures
        ({
            let d = decide_phase(ants, decisions, capacity, queued, j);
            &&& d.updates == Seq::new(j, |i: int| decided_update(ants[i], decisions[i]->0))
            &&& d.recovers.len() == 0
            &&& d.supervision == 0
            &&& d.dropped == 0
        }),
    decreases j,
{
    if j > 0 {
        lemma_all_decided_phase(ants, decisions, capacity, queued, (j - 1) as nat);
        assert(ants[j - 1].id == j - 1);
        let d = decide_phase(ants, decisions, capacity, queued, j);
        assert(d.updates =~= Seq::new(j, |i: int| decided_update(ants[i], decisions[i]->0)));
    }
}

/// When the mailbox holds every ant and every decision succeeds, a tick of a
/// colony whose ids are its indices yields exactly one normal update per ant,
/// in ant order, with nothing dropped, restarted or supervised.
pub proof fn lemma_all_decided_tick<S>(
    ants: Seq<Ant>,
    decisions: Seq<Option<AntDecision<S>>>,
    config: RuntimeConfig,
    nest: Position,
    score: S,
    before: RuntimeStats,
)
    requires
        ids_are_indices(ants),
        ants.len() <= config.mailbox_capacity,
        forall|i: int| 0 <= i < ants.len() ==> (#[trigger] decisions[i]) is Some,
    ensures
        tick_updates(ants, decisions, config, nest, score) == Seq::new(
            ants.len(),
            |i: int| decided_update(ants[i], decisions[i]->0),
        ),
        tick_stats(before, ants, decisions, config, nest, score) == (RuntimeStats {
            mailbox_len: ants.len() as usize,
            dropped_messages_tick: 0,
            restarts_tick: 0,
            processed_messages_tick: ants.len() as u64,
            ..before
        }),
{
    let t = tick_outcome(ants, decisions, config, nest, score);
    lemma_all_decided_phase(ants, decisions, config.mailbox_capacity as nat, t.queued, t.queued);
    assert(tick_updates(ants, decisions, config, nest, score) =~= Seq::new(
        ants.len(),
        |i: int| decided_update(ants[i], decisions[i]->0),
    ));
}

/// Every dropped recovery command was counted twice as a supervision event.
proof fn lemma_dropped_recoveries_supervised<S>(
    ants: Seq<Ant>,
    decisions: Seq<Option<AntDecision<S>>>,
    capacity: nat,
    queued: nat,
    j: nat,
)
    ensures
        decide_phase(ants, decisions, capacity, queued, j).dropped * 2 <= decide_phase(
            ants,
            decisions,
            capacity,
            queued,
            j,
        ).supervision,
    decreases j,
{
    if j > 0 {
        lemma_dropped_recoveries_supervised(ants, decisions, capacity, queued, (j - 1) as nat);
    }
}

/// The mailbox-driven actor runtime: each tick it queues a decide command per
/// ant, drops commands beyond the mailbox capacity (backpressure), answers
/// failed decisions with supervised restarts at the nest within a per-tick
/// restart budget, and accounts for all of it in its counters.
pub struct ActorRuntime {
    config: RuntimeConfig,
    mailbox: Vec<RuntimeCommand>,
    stats: RuntimeStats,
}

impl Default for ActorRuntime {
    fn default() -> (runtime: Self)
        ensures
            runtime.spec_config() == (RuntimeConfig {
                mailbox_capacity: 2_000_000,
                max_restarts_per_tick: 10_000,
            }),
            runtime.spec_stats() == RuntimeStats::zero(),
    {
        Self::new(RuntimeConfig::default())
    }
}

impl ActorRuntime {
    pub closed spec fn spec_config(&self) -> RuntimeConfig {
        self.config
    }

    pub closed spec fn spec_stats(&self) -> RuntimeStats {
        self.stats
    }

    pub fn new(config: RuntimeConfig) -> (runtime: Self)
        ensures
            runtime.spec_config() == config,
            runtime.spec_stats() == RuntimeStats::zero(),
    {
        Self { config, mailbox: Vec::new(), stats: RuntimeStats::default() }
    }

    pub fn stats(&self) -> (stats: RuntimeStats)
        ensures
            stats == self.spec_stats(),
    {
        self.stats
    }

    /// Runs one tick of the runtime over `ants`. `decisions[i]` is the outcome
    /// of asking the ant at index `i` for its move, `None` when the decision
    /// failed; `recovery_score` is the score recorded for restarted ants.
    ///
    /// A decide command is queued for every ant while the mailbox has room,
    /// the others are dropped. The queue is then worked off in order: a
    /// command for a known ant with a decision yields its update; a failed
    /// decision queues a recovery command, which restarts the ant at the nest
    /// while the per-tick restart budget lasts.
    pub fn gather_updates<S: Copy>(
        &mut self,
        ants: &[Ant],
        grid: &Grid,
        decisions: &[Option<AntDecision<S>>],
        recovery_score: S,
    ) -> (updates: Vec<AntUpdate<S>>)
        requires
            decisions@.len() == ants@.len(),
            tick_fits(
                old(self).spec_stats(),
                ants@,
                decisions@,
                old(self).spec_config(),
                grid@.nest,
                recovery_score,
            ),
        ensures
            final(self).spec_config() == old(self).spec_config(),
            updates@ == tick_updates(
                ants@,
                decisions@,
                old(self).spec_config(),
                grid@.nest,
                recovery_score,
            ),
            final(self).spec_stats() == tick_stats(
                old(self).spec_stats(),
                ants@,
                decisions@,
                old(self).spec_config(),
                grid@.nest,
                recovery_score,
            ),
            final(self).spec_stats().dropped_messages_total == old(self).spec_stats().dropped_messages_total
                + final(self).spec_stats().dropped_messages_tick,
            final(self).spec_stats().restarts_total == old(self).spec_stats().restarts_total
                + final(self).spec_stats().restarts_tick,
            final(self).spec_stats().supervision_events_total >= old(self).spec_stats().supervision_events_total
                + final(self).spec_stats().dropped_messages_tick,
            final(self).spec_stats().restarts_tick <= old(self).spec_config().max_restarts_per_tick,
            final(self).spec_stats().mailbox_len <= old(self).spec_config().mailbox_capacity,
            updates@.len() <= ants@.len(),
            updates@.len() <= old(self).spec_config().mailbox_capacity,
    {
        let ghost base = self.stats;
        let ghost config = self.config;
        let ghost n = ants@.len();
        let ghost cap = config.mailbox_capacity as nat;
        let ghost queued = queued_decides(ants@, cap);
        let ghost full = decide_phase(ants@, decisions@, cap, queued, queued);
        let ghost max_r = config.max_restarts_per_tick as nat;
        let ghost rfull = recover_phase(
            ants@,
            grid@.nest,
            max_r,
            full.recovers,
            recovery_score,
            full.recovers.len(),
        );
        let nest = grid.nest();
        self.reset_tick_counters();
        self.mailbox.clear();

        let mut i: usize = 0;
        while i < ants.len()
            invariant
                self.config == config,
                cap == config.mailbox_capacity,
                n == ants@.len(),
                i <= n,
                queued == queued_decides(ants@, cap),
                base.dropped_messages_total + (n - queued) <= u64::MAX,
                base.supervision_events_total + (n - queued) <= u64::MAX,
                self.mailbox@ == decide_commands(ants@, queued_decides(ants@.take(i as int), cap)),
                self.stats == (RuntimeStats {
                    dropped_messages_tick: (i - queued_decides(ants@.take(i as int), cap)) as u64,
                    dropped_messages_total: (base.dropped_messages_total + (i - queued_decides(
                        ants@.take(i as int),
                        cap,
                    ))) as u64,
                    supervision_events_total: (base.supervision_events_total + (i
                        - queued_decides(ants@.take(i as int), cap))) as u64,
                    restarts_tick: 0,
                    processed_messages_tick: 0,
                    ..base
                }),
            decreases n - i,
        {
            self.try_enqueue(RuntimeCommand::Decide { ant_id: ants[i].id });
            proof {
                assert(self.mailbox@ =~= decide_commands(
                    ants@,
                    queued_decides(ants@.take(i + 1), cap),
                ));
            }
            i = i + 1;
        }
        proof {
            assert(ants@.take(i as int) =~= ants@);
            lemma_decide_phase_bounds(ants@, decisions@, cap, queued, queued);
            lemma_recover_phase_bounds(ants@, nest, max_r, full.recovers, recovery_score, full.recovers.len());
        }

        let mut updates: Vec<AntUpdate<S>> = Vec::new();
        let mut cursor: usize = 0;
        while cursor < self.mailbox.len()
            invariant
                self.config == config,
                cap == config.mailbox_capacity,
                max_r == config.max_restarts_per_tick,
                n == ants@.len(),
                decisions@.len() == n,
                nest == grid@.nest,
                queued == queued_decides(ants@, cap),
                queued <= cap,
                queued <= n,
                full == decide_phase(ants@, decisions@, cap, queued, queued),
                full.updates.len() + full.recovers.len() + full.dropped <= queued,
                full.supervision + full.recovers.len() <= 2 * queued,
                queued + full.recovers.len() <= cap,
                rfull == recover_phase(ants@, nest, max_r, full.recovers, recovery_score, full.recovers.len()),
                base.dropped_messages_total + (n - queued) + full.dropped <= u64::MAX,
                base.restarts_total + rfull.restarts <= u64::MAX,
                base.supervision_events_total + (n - queued) + full.supervision + rfull.supervision
                    <= u64::MAX,
                self.mailbox@.len() <= cap,
                forall|j: int| 0 <= j < queued ==> self.mailbox@[j] == (RuntimeCommand::Decide { ant_id: ants@[j].id }),
                cursor <= self.mailbox@.len(),
                cursor <= queued ==> {
                    let d = decide_phase(ants@, decisions@, cap, queued, cursor as nat);
                    &&& self.mailbox@.len() == queued + d.recovers.len()
                    &&& forall|r: int| 0 <= r < d.recovers.len() ==> self.mailbox@[queued + r] == (RuntimeCommand::Recover { ant_id: d.recovers[r] })
                    &&& d.updates.len() + d.recovers.len() + d.dropped <= cursor
                    &&& d.supervision + d.recovers.len() <= 2 * cursor
                    &&& updates@ == d.updates
                    &&& self.stats == (RuntimeStats {
                        dropped_messages_tick: ((n - queued) + d.dropped) as u64,
                        dropped_messages_total: (base.dropped_messages_total + (n - queued) + d.dropped) as u64,
                        supervision_events_total: (base.supervision_events_total + (n - queued) + d.supervision) as u64,
                        restarts_tick: 0,
                        processed_messages_tick: cursor as u64,
                        ..base
                    })
                },
                cursor > queued ==> {
                    let r = recover_phase(ants@, nest, max_r, full.recovers, recovery_score, (cursor - queued) as nat);
                    &&& self.mailbox@.len() == queued + full.recovers.len()
                    &&& forall|k: int| 0 <= k < full.recovers.len() ==> self.mailbox@[queued + k] == (RuntimeCommand::Recover { ant_id: full.recovers[k] })
                    &&& r.updates.len() == r.restarts
                    &&& r.restarts + r.supervision == cursor - queued
                    &&& updates@ == full.updates + r.updates
                    &&& self.stats == (RuntimeStats {
                        dropped_messages_tick: ((n - queued) + full.dropped) as u64,
                        dropped_messages_total: (base.dropped_messages_total + (n - queued) + full.dropped) as u64,
                        supervision_events_total: (base.supervision_events_total + (n - queued) + full.supervision + r.supervision) as u64,
                        restarts_tick: r.restarts as u64,
                        restarts_total: (base.restarts_total + r.restarts) as u64,
                        processed_messages_tick: cursor as u64,
                        ..base
                    })
                },
            decreases cap - cursor,
        {
            let command = self.mailbox[cursor];
            let ghost at = cursor as int;
            cursor = cursor + 1;
            self.stats.processed_messages_tick = self.stats.processed_messages_tick + 1;
            match command {
                RuntimeCommand::Decide { ant_id } => {
                    proof {
                        if at >= queued {
                            let k = at - queued;
                            assert(self.mailbox@[queued + k] == (RuntimeCommand::Recover { ant_id: full.recovers[k] }));
                        }
                    }
                    let ghost prev = decide_phase(ants@, decisions@, cap, queued, at as nat);
                    proof {
                        lemma_decide_phase_monotone(ants@, decisions@, cap, queued, cursor as nat, queued);
                    }
                    assert(ant_id == ants@[at].id);
                    if ant_id >= ants.len() {
                        self.register_supervision_event();
                    } else {
                        let ant = ants[ant_id];
                        match decisions[ant_id] {
                            Some(decision) => {
                                updates.push(AntUpdate {
                                    ant_id: ant.id,
                                    from: ant.position,
                                    to: decision.next,
                                    state: ant.state,
                                    carrying_food: ant.carrying_food,
                                    decision_score: decision.pheromone_score,
                                    exploratory: decision.was_exploratory,
                                    recovered: false,
                                });
                                proof {
                                    assert(updates@ =~= prev.updates.push(decided_update(ants@[ant_id as int], decision)));
                                }
                            },
                            None => {
                                self.register_supervision_event();
                                self.try_enqueue(RuntimeCommand::Recover { ant_id: ant.id });
                            },
                        }
                    }
                    proof {
                        let d = decide_phase(ants@, decisions@, cap, queued, cursor as nat);
                        assert forall|r: int| 0 <= r < d.recovers.len() implies self.mailbox@[queued + r] == (RuntimeCommand::Recover { ant_id: d.recovers[r] }) by {
                            if r < prev.recovers.len() {
                                assert(d.recovers[r] == prev.recovers[r]);
                            }
                        }
                        if cursor > queued {
                            assert(cursor == queued + 0);
                        }
                    }
                },
                RuntimeCommand::Recover { ant_id } => {
                    proof {
                        if at < queued {
                            assert(self.mailbox@[at] == (RuntimeCommand::Decide { ant_id: ants@[at].id }));
                        }
                    }
                    let ghost k = at - queued;
                    let ghost prev = recover_phase(ants@, nest, max_r, full.recovers, recovery_score, k as nat);
                    proof {
                        if at == queued {
                            assert(prev == recover_phase(ants@, nest, max_r, full.recovers, recovery_score, 0));
                        }
                        assert(self.mailbox@[queued + k] == (RuntimeCommand::Recover { ant_id: full.recovers[k] }));
                        assert(ant_id == full.recovers[k]);
                        lemma_recover_phase_monotone(
                            ants@,
                            nest,
                            max_r,
                            full.recovers,
                            recovery_score,
                            (k + 1) as nat,
                            full.recovers.len(),
                        );
                    }
                    if self.stats.restarts_tick >= self.config.max_restarts_per_tick as u64 {
                        self.register_supervision_event();
                    } else if ant_id >= ants.len() {
                        self.register_supervision_event();
                    } else {
                        let ant = ants[ant_id];
                        self.stats.restarts_tick = self.stats.restarts_tick + 1;
                        self.stats.restarts_total = self.stats.restarts_total + 1;
                        updates.push(AntUpdate {
                            ant_id: ant.id,
                            from: ant.position,
                            to: nest,
                            state: AntState::Searching,
                            carrying_food: false,
                            decision_score: recovery_score,
                            exploratory: false,
                            recovered: true,
                        });
                        proof {
                            assert(updates@ =~= full.updates + prev.updates.push(recovered_update(ants@[ant_id as int], nest, recovery_score)));
                        }
                    }
                },
            }
        }
        self.stats.mailbox_len = self.mailbox.len();
        proof {
            if cursor <= queued {
                assert(cursor == queued);
            }
            lemma_totals_accumulate(ants@, decisions@, config, nest, recovery_score, base);
            lemma_overflow_is_dropped(ants@, decisions@, config, nest, recovery_score, base);
            lemma_backpressure(ants@, decisions@, config, nest, recovery_score, base);
        }
        updates
    }

    fn try_enqueue(&mut self, command: RuntimeCommand)
        requires
            old(self).mailbox@.len() >= old(self).config.mailbox_capacity ==> {
                &&& old(self).stats.dropped_messages_tick < u64::MAX
                &&& old(self).stats.dropped_messages_total < u64::MAX
                &&& old(self).stats.supervision_events_total < u64::MAX
            },
        ensures
            final(self).config == old(self).config,
            old(self).mailbox@.len() >= old(self).config.mailbox_capacity ==> {
                &&& final(self).mailbox@ == old(self).mailbox@
                &&& final(self).stats == (RuntimeStats {
                    dropped_messages_tick: (old(self).stats.dropped_messages_tick + 1) as u64,
                    dropped_messages_total: (old(self).stats.dropped_messages_total + 1) as u64,
                    supervision_events_total: (old(self).stats.supervision_events_total + 1) as u64,
                    ..old(self).stats
                })
            },
            old(self).mailbox@.len() < old(self).config.mailbox_capacity ==> {
                &&& final(self).mailbox@ == old(self).mailbox@.push(command)
                &&& final(self).stats == old(self).stats
            },
    {
        if self.mailbox.len() >= self.config.mailbox_capacity {
            self.stats.dropped_messages_tick = self.stats.dropped_messages_tick + 1;
            self.stats.dropped_messages_total = self.stats.dropped_messages_total + 1;
            self.register_supervision_event();
            return;
        }
        self.mailbox.push(command);
    }

    fn register_supervision_event(&mut self)
        requires
            old(self).stats.supervision_events_total < u64::MAX,
        ensures
            final(self).config == old(self).config,
            final(self).mailbox == old(self).mailbox,
            final(self).stats == (RuntimeStats {
                supervision_events_total: (old(self).stats.supervision_events_total + 1) as u64,
                ..old(self).stats
            }),
    {
        self.stats.supervision_events_total = self.stats.supervision_events_total + 1;
    }

    fn reset_tick_counters(&mut self)
        ensures
            final(self).config == old(self).config,
            final(self).mailbox == old(self).mailbox,
            final(self).stats == (RuntimeStats {
                dropped_messages_tick: 0,
                restarts_tick: 0,
                processed_messages_tick: 0,
                ..old(self).stats
            }),
    {
        self.stats.dropped_messages_tick = 0;
        self.stats.restarts_tick = 0;
        self.stats.processed_messages_tick = 0;
    }
}


/// The update that an ant which decided `d` is owed: it leaves its cell for
/// the decided one, keeps its state and load, and carries the decision's
/// score and exploration flag.
proof fn lemma_decided_updates_follow_decisions<S>(
    ants: Seq<Ant>,
    decisions: Seq<Option<AntDecision<S>>>,
    capacity: nat,
    queued: nat,
    j: nat,
)
    requires
        decisions.len() == ants.len(),
        j <= ants.len(),
    ensures
        ({
            let d = decide_phase(ants, decisions, capacity, queued, j);
            forall|k: int|
                0 <= k < d.updates.len() ==> exists|i: int|
                    0 <= i < ants.len() && (#[trigger] decisions[i]) is Some && #[trigger] d.updates[k] == (
                    AntUpdate {
                        ant_id: ants[i].id,
                        from: ants[i].position,
                        to: decisions[i]->0.next,
                        state: ants[i].state,
                        carrying_food: ants[i].carrying_food,
                        decision_score: decisions[i]->0.pheromone_score,
                        exploratory: decisions[i]->0.was_exploratory,
                        recovered: false,
                    })
        }),
    decreases j,
{
    if j > 0 {
        lemma_decided_updates_follow_decisions(ants, decisions, capacity, queued, (j - 1) as nat);
        let prev = decide_phase(ants, decisions, capacity, queued, (j - 1) as nat);
        let d = decide_phase(ants, decisions, capacity, queued, j);
        let target = ants[j - 1].id;
        assert forall|k: int| 0 <= k < d.updates.len() implies exists|i: int|
            0 <= i < ants.len() && (#[trigger] decisions[i]) is Some && #[trigger] d.updates[k] == (
            AntUpdate {
                ant_id: ants[i].id,
                from: ants[i].position,
                to: decisions[i]->0.next,
                state: ants[i].state,
                carrying_food: ants[i].carrying_food,
                decision_score: decisions[i]->0.pheromone_score,
                exploratory: decisions[i]->0.was_exploratory,
                recovered: false,
            }) by {
            if k < prev.updates.len() {
                assert(d.updates[k] == prev.updates[k]);
            } else {
                let i = target as int;
                assert(decisions[i] is Some);
            }
        }
    }
}

/// Every restart the runtime issues sends one of the ants back to the nest,
/// searching and empty-handed, with the recovery score.
proof fn lemma_recovered_updates_restart<S>(
    ants: Seq<Ant>,
    nest: Position,
    max_restarts: nat,
    recovers: Seq<AntId>,
    score: S,
    j: nat,
)
    requires
        j <= recovers.len(),
    ensures
        ({
            let r = recover_phase(ants, nest, max_restarts, recovers, score, j);
            forall|k: int|
                0 <= k < r.updates.len() ==> exists|i: int|
                    0 <= i < ants.len() && #[trigger] r.updates[k] == (AntUpdate {
                        ant_id: (#[trigger] ants[i]).id,
                        from: ants[i].position,
                        to: nest,
                        state: AntState::Searching,
                        carrying_food: false,
                        decision_score: score,
                        exploratory: false,
                        recovered: true,
                    })
        }),
    decreases j,
{
    if j > 0 {
        lemma_recovered_updates_restart(ants, nest, max_restarts, recovers, score, (j - 1) as nat);
        let prev = recover_phase(ants, nest, max_restarts, recovers, score, (j - 1) as nat);
        let r = recover_phase(ants, nest, max_restarts, recovers, score, j);
        let id = recovers[j - 1];
        assert forall|k: int| 0 <= k < r.updates.len() implies exists|i: int|
            0 <= i < ants.len() && #[trigger] r.updates[k] == (AntUpdate {
                ant_id: (#[trigger] ants[i]).id,
                from: ants[i].position,
                to: nest,
                state: AntState::Searching,
                carrying_food: false,
                decision_score: score,
                exploratory: false,
                recovered: true,
            }) by {
            if k < prev.updates.len() {
                assert(r.updates[k] == prev.updates[k]);
            } else {
                let a = ants[id as int];
            }
        }
    }
}

/// What a tick hands out: every normal update belongs to an ant whose
/// decision succeeded and carries exactly that decision (the cell it moves
/// to, its score and whether it was exploratory) together with the ant's own
/// cell, state and load; every other update restarts an ant at the nest,
/// searching and empty-handed, with the recovery score and not exploratory.
pub proof fn lemma_tick_updates_follow_decisions<S>(
    ants: Seq<Ant>,
    decisions: Seq<Option<AntDecision<S>>>,
    config: RuntimeConfig,
    nest: Position,
    score: S,
)
    requires
        decisions.len() == ants.len(),
    ensures
        forall|k: int|
            0 <= k < tick_updates(ants, decisions, config, nest, score).len() ==> {
                let u = #[trigger] tick_updates(ants, decisions, config, nest, score)[k];
                &&& !u.recovered ==> exists|i: int|
                    0 <= i < ants.len() && (#[trigger] decisions[i]) is Some && u == (AntUpdate {
                        ant_id: ants[i].id,
                        from: ants[i].position,
                        to: decisions[i]->0.next,
                        state: ants[i].state,
                        carrying_food: ants[i].carrying_food,
                        decision_score: decisions[i]->0.pheromone_score,
                        exploratory: decisions[i]->0.was_exploratory,
                        recovered: false,
                    })
                &&& u.recovered ==> exists|i: int|
                    0 <= i < ants.len() && u == (AntUpdate {
                        ant_id: (#[trigger] ants[i]).id,
                        from: ants[i].position,
                        to: nest,
                        state: AntState::Searching,
                        carrying_food: false,
                        decision_score: score,
                        exploratory: false,
                        recovered: true,
                    })
            },
{
    let t = tick_outcome(ants, decisions, config, nest, score);
    lemma_decided_updates_follow_decisions(
        ants,
        decisions,
        config.mailbox_capacity as nat,
        t.queued,
        t.queued,
    );
    lemma_recovered_updates_restart(
        ants,
        nest,
        config.max_restarts_per_tick as nat,
        t.decide.recovers,
        score,
        t.decide.recovers.len(),
    );
    let all = tick_updates(ants, decisions, config, nest, score);
    assert forall|k: int| 0 <= k < all.len() implies {
        let u = #[trigger] all[k];
        &&& !u.recovered ==> exists|i: int|
            0 <= i < ants.len() && (#[trigger] decisions[i]) is Some && u == (AntUpdate {
                ant_id: ants[i].id,
                from: ants[i].position,
                to: decisions[i]->0.next,
                state: ants[i].state,
                carrying_food: ants[i].carrying_food,
                decision_score: decisions[i]->0.pheromone_score,
                exploratory: decisions[i]->0.was_exploratory,
                recovered: false,
            })
        &&& u.recovered ==> exists|i: int|
            0 <= i < ants.len() && u == (AntUpdate {
                ant_id: (#[trigger] ants[i]).id,
                from: ants[i].position,
                to: nest,
                state: AntState::Searching,
                carrying_food: false,
                decision_score: score,
                exploratory: false,
                recovered: true,
            })
    } by {
        if k < t.decide.updates.len() {
            assert(all[k] == t.decide.updates[k]);
        } else {
            assert(all[k] == t.recover.updates[k - t.decide.updates.len()]);
        }
    }
}


proof fn lemma_recovers_are_failed_ants<S>(
    ants: Seq<Ant>,
    decisions: Seq<Option<AntDecision<S>>>,
    capacity: nat,
    queued: nat,
    j: nat,
)
    requires
        ids_are_indices(ants),
        decisions.len() == ants.len(),
        j <= ants.len(),
    ensures
        ({
            let d = decide_phase(ants, decisions, capacity, queued, j);
            forall|r: int|
                0 <= r < d.recovers.len() ==> #[trigger] d.recovers[r] < ants.len()
                    && decisions[d.recovers[r] as int] is None
        }),
    decreases j,
{
    if j > 0 {
        lemma_recovers_are_failed_ants(ants, decisions, capacity, queued, (j - 1) as nat);
        let prev = decide_phase(ants, decisions, capacity, queued, (j - 1) as nat);
        let d = decide_phase(ants, decisions, capacity, queued, j);
        assert(ants[j - 1].id == j - 1);
        assert forall|r: int| 0 <= r < d.recovers.len() implies #[trigger] d.recovers[r]
            < ants.len() && decisions[d.recovers[r] as int] is None by {
            if r < prev.recovers.len() {
                assert(d.recovers[r] == prev.recovers[r]);
            } else {
                let target = ants[j - 1].id;
                assert(ants[target as int].id == target);
            }
        }
    }
}

proof fn lemma_restarts_name_recovers<S>(
    ants: Seq<Ant>,
    nest: Position,
    max_restarts: nat,
    recovers: Seq<AntId>,
    score: S,
    j: nat,
)
    requires
        ids_are_indices(ants),
        j <= recovers.len(),
    ensures
        ({
            let r = recover_phase(ants, nest, max_restarts, recovers, score, j);
            forall|k: int|
                0 <= k < r.updates.len() ==> exists|q: int|
                    0 <= q < recovers.len() && #[trigger] recovers[q] == (
                    #[trigger] r.updates[k]).ant_id
        }),
    decreases j,
{
    if j > 0 {
        lemma_restarts_name_recovers(ants, nest, max_restarts, recovers, score, (j - 1) as nat);
        let prev = recover_phase(ants, nest, max_restarts, recovers, score, (j - 1) as nat);
        let r = recover_phase(ants, nest, max_restarts, recovers, score, j);
        let id = recovers[j - 1];
        assert forall|k: int| 0 <= k < r.updates.len() implies exists|q: int|
            0 <= q < recovers.len() && #[trigger] recovers[q] == (#[trigger] r.updates[k]).ant_id by {
            if k < prev.updates.len() {
                assert(r.updates[k] == prev.updates[k]);
            } else {
                assert(ants[id as int].id == id);
                assert(recovers[j - 1] == r.updates[k].ant_id);
            }
        }
    }
}

/// In a colony whose ids are its indices, every update of a tick names an
/// ant of the colony, leaves from that ant's cell, and is a restart exactly
/// when that ant's decision failed.
pub proof fn lemma_tick_updates_name_their_ants<S>(
    ants: Seq<Ant>,
    decisions: Seq<Option<AntDecision<S>>>,
    config: RuntimeConfig,
    nest: Position,
    score: S,
)
    requires
        ids_are_indices(ants),
        decisions.len() == ants.len(),
    ensures
        forall|k: int|
            0 <= k < tick_updates(ants, decisions, config, nest, score).len() ==> {
                let u = #[trigger] tick_updates(ants, decisions, config, nest, score)[k];
                &&& u.ant_id < ants.len()
                &&& u.from == ants[u.ant_id as int].position
                &&& (u.recovered <==> decisions[u.ant_id as int] is None)
            },
{
    let t = tick_outcome(ants, decisions, config, nest, score);
    lemma_tick_updates_follow_decisions(ants, decisions, config, nest, score);
    lemma_decide_phase_bounds(ants, decisions, config.mailbox_capacity as nat, t.queued, t.queued);
    lemma_recovers_are_failed_ants(
        ants,
        decisions,
        config.mailbox_capacity as nat,
        t.queued,
        t.queued,
    );
    lemma_restarts_name_recovers(
        ants,
        nest,
        config.max_restarts_per_tick as nat,
        t.decide.recovers,
        score,
        t.decide.recovers.len(),
    );
    let all = tick_updates(ants, decisions, config, nest, score);
    assert forall|k: int| 0 <= k < all.len() implies {
        let u = #[trigger] all[k];
        &&& u.ant_id < ants.len()
        &&& u.from == ants[u.ant_id as int].position
        &&& (u.recovered <==> decisions[u.ant_id as int] is None)
    } by {
        let u = all[k];
        if !u.recovered {
            let i = choose|i: int|
                0 <= i < ants.len() && (#[trigger] decisions[i]) is Some && u == (AntUpdate {
                    ant_id: ants[i].id,
                    from: ants[i].position,
                    to: decisions[i]->0.next,
                    state: ants[i].state,
                    carrying_food: ants[i].carrying_food,
                    decision_score: decisions[i]->0.pheromone_score,
                    exploratory: decisions[i]->0.was_exploratory,
                    recovered: false,
                });
            assert(ants[i].id == i);
        } else {
            let i = choose|i: int|
                0 <= i < ants.len() && u == (AntUpdate {
                    ant_id: (#[trigger] ants[i]).id,
                    from: ants[i].position,
                    to: nest,
                    state: AntState::Searching,
                    carrying_food: false,
                    decision_score: score,
                    exploratory: false,
                    recovered: true,
                });
            assert(ants[i].id == i);
            if k < t.decide.updates.len() {
                assert(all[k] == t.decide.updates[k]);
                lemma_decided_updates_follow_decisions(
                    ants,
                    decisions,
                    config.mailbox_capacity as nat,
                    t.queued,
                    t.queued,
                );
                assert(!t.decide.updates[k].recovered);
            } else {
                let k2 = k - t.decide.updates.len();
                assert(all[k] == t.recover.updates[k2]);
                let q = choose|q: int|
                    0 <= q < t.decide.recovers.len() && #[trigger] t.decide.recovers[q]
                        == (#[trigger] t.recover.updates[k2]).ant_id;
                assert(t.decide.recovers[q] < ants.len() && decisions[t.decide.recovers[q] as int] is None);
            }
        }
    }
}

} // verus!
