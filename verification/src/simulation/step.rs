use vstd::prelude::*;

use crate::ant::actor::{
    decide_phase, decided_update, lemma_decide_phase_bounds, recover_phase, recovered_update,
    tick_outcome, tick_updates, AntDecision, AntUpdate, RuntimeConfig,
};
use crate::ant::agent::{ids_are_indices, Ant, AntId, AntState};
use crate::world::{Cell, Grid, GridModel, Position};

verus! {

/// What applying one runtime update did to its ant.
#[derive(Clone, Copy, Debug, PartialEq, Eq, Structural)]
pub enum Arrival {
    /// The ant was restarted at the nest by the runtime.
    Restarted,
    /// The ant brought its food to the nest.
    Delivered,
    /// The ant took the given units of food from the cell it reached.
    PickedUp(u32),
    /// The ant only moved.
    Moved,
}

/// Colony-wide totals kept while applying updates.
#[derive(Clone, Copy, Debug, PartialEq, Eq, Structural)]
pub struct ForageTally {
    /// Food units returned to the nest.
    pub food_collected: u32,
    /// Exploratory moves made by ants.
    pub exploration_moves: u64,
}

/// The totals after one update: an exploratory normal move is counted, and
/// so is a delivery.
pub open spec fn tally_after<S>(t: ForageTally, update: AntUpdate<S>, arrival: Arrival) -> ForageTally {
    ForageTally {
        food_collected: if arrival == Arrival::Delivered {
            (t.food_collected + 1) as u32
        } else {
            t.food_collected
        },
        exploration_moves: if !update.recovered && update.exploratory {
            (t.exploration_moves + 1) as u64
        } else {
            t.exploration_moves
        },
    }
}

/// The colony totals never decrease: food returned to the nest stays
/// counted, and so do exploratory moves.
pub proof fn lemma_tally_monotone<S>(t: ForageTally, update: AntUpdate<S>, arrival: Arrival)
    requires
        arrival == Arrival::Delivered ==> t.food_collected < u32::MAX,
        explores(update) ==> t.exploration_moves < u64::MAX,
    ensures
        tally_after(t, update, arrival).food_collected >= t.food_collected,
        tally_after(t, update, arrival).exploration_moves >= t.exploration_moves,
        tally_after(t, update, arrival).food_collected <= t.food_collected + 1,
{
}

/// The ant after a normal move (before any pick-up or delivery).
pub open spec fn moved_ant(ant: Ant, to: Position) -> Ant {
    Ant { position: to, last_position: Some(ant.position), ..ant }
}

/// The effect of applying `update` to the ant at index `update.ant_id`:
/// the new grid, the new ant and what happened.
///
/// A restarted ant takes the position, state and load the runtime chose for
/// it and remembers where it was. Otherwise the ant moves; an ant that was
/// carrying food and reaches the nest delivers it and searches again; an ant
/// that was not carrying food and reaches a food cell harvests up to
/// `harvest_amount` units and, if it got any, turns home with them.
pub open spec fn apply_effect<S>(
    g: GridModel,
    ant: Ant,
    update: AntUpdate<S>,
    harvest_amount: u32,
) -> (GridModel, Ant, Arrival) {
    if update.recovered {
        (
            g,
            Ant {
                position: update.to,
                last_position: Some(update.from),
                state: update.state,
                carrying_food: update.carrying_food,
                ..ant
            },
            Arrival::Restarted,
        )
    } else {
        let moved = moved_ant(ant, update.to);
        if update.carrying_food {
            if update.to == g.nest {
                (
                    g,
                    Ant { carrying_food: false, state: AntState::Searching, ..moved },
                    Arrival::Delivered,
                )
            } else {
                (g, moved, Arrival::Moved)
            }
        } else {
            match g.get(update.to) {
                Some(Cell::Food(_)) => {
                    let taken = g.harvest_amount(update.to, harvest_amount);
                    if taken > 0 {
                        (
                            g.harvest(update.to, harvest_amount),
                            Ant { carrying_food: true, state: AntState::Returning, ..moved },
                            Arrival::PickedUp(taken),
                        )
                    } else {
                        (g.harvest(update.to, harvest_amount), moved, Arrival::Moved)
                    }
                },
                _ => (g, moved, Arrival::Moved),
            }
        }
    }
}

/// What one update does to its ant, spelled out: after a normal move the ant
/// stands on the cell it moved to and remembers the cell it left, whatever it
/// then delivers or picks up; a delivery happens exactly when an ant carrying
/// food reaches the nest, empties its hands and searches again, and leaves
/// the grid alone; a pick-up takes some food, which the ant then carries home;
/// a restart puts the ant where the runtime said with the runtime's state and
/// load. The ant keeps its id in every case.
pub proof fn lemma_update_moves_the_ant<S>(
    g: GridModel,
    ant: Ant,
    update: AntUpdate<S>,
    harvest_amount: u32,
)
    ensures
        ({
            let (after_grid, after, arrival) = apply_effect(g, ant, update, harvest_amount);
            &&& after.id == ant.id
            &&& !update.recovered ==> {
                &&& after.position == update.to
                &&& after.last_position == Some(ant.position)
            }
            &&& update.recovered ==> {
                &&& arrival == Arrival::Restarted
                &&& after.position == update.to
                &&& after.last_position == Some(update.from)
                &&& after.state == update.state
                &&& after.carrying_food == update.carrying_food
                &&& after_grid == g
            }
            &&& (arrival == Arrival::Delivered <==> !update.recovered && update.carrying_food
                && update.to == g.nest)
            &&& arrival == Arrival::Delivered ==> {
                &&& !after.carrying_food
                &&& after.state == AntState::Searching
                &&& after_grid == g
            }
            &&& arrival is PickedUp ==> {
                &&& !update.recovered
                &&& !update.carrying_food
                &&& arrival->PickedUp_0 > 0
                &&& arrival->PickedUp_0 <= harvest_amount
                &&& after.carrying_food
                &&& after.state == AntState::Returning
            }
            &&& arrival == Arrival::Moved ==> {
                &&& after.carrying_food == ant.carrying_food
                &&& after.state == ant.state
            }
        }),
{
}

/// A pick-up takes from the cell the ant reached as much food as it holds,
/// up to the harvest amount, and the food on the grid drops by exactly what
/// was picked up; no other update changes the food on the grid.
pub proof fn lemma_pick_up_takes_from_the_cell<S>(
    g: GridModel,
    ant: Ant,
    update: AntUpdate<S>,
    harvest_amount: u32,
)
    requires
        g.wf(),
    ensures
        ({
            let (after_grid, after, arrival) = apply_effect(g, ant, update, harvest_amount);
            &&& after_grid.wf()
            &&& after_grid.nest == g.nest
            &&& arrival is PickedUp ==> match g.get(update.to) {
                Some(Cell::Food(available)) => arrival->PickedUp_0 == (if available < harvest_amount {
                    available
                } else {
                    harvest_amount
                }),
                _ => false,
            }
            &&& after_grid.total_food() + (if arrival is PickedUp {
                arrival->PickedUp_0 as int
            } else {
                0
            }) == g.total_food()
        }),
{
    crate::world::grid::lemma_harvest_conserves_food(g, update.to, harvest_amount);
}

/// Applies one runtime update to the grid, the ants and the totals, leaving
/// the floating-point bookkeeping (energy, pheromone deposits, scores) to the
/// caller, which the returned arrival tells what happened.
pub fn apply_update<S>(
    grid: &mut Grid,
    ants: &mut Vec<Ant>,
    tally: &mut ForageTally,
    update: &AntUpdate<S>,
    harvest_amount: u32,
) -> (arrival: Arrival)
    requires
        update.ant_id < old(ants)@.len(),
        delivers(*update, old(grid)@.nest) ==> old(tally).food_collected < u32::MAX,
        explores(*update) ==> old(tally).exploration_moves < u64::MAX,
    ensures
        final(ants)@.len() == old(ants)@.len(),
        ({
            let e = apply_effect(old(grid)@, old(ants)@[update.ant_id as int], *update, harvest_amount);
            &&& final(grid)@ == e.0
            &&& final(ants)@ == old(ants)@.update(update.ant_id as int, e.1)
            &&& arrival == e.2
            &&& *final(tally) == tally_after(*old(tally), *update, e.2)
        }),
{
    let index = update.ant_id;
    let mut ant = ants[index];
    let arrival = if update.recovered {
        ant.position = update.to;
        ant.last_position = Some(update.from);
        ant.state = update.state;
        ant.carrying_food = update.carrying_food;
        Arrival::Restarted
    } else {
        ant.move_to(update.to);
        if update.exploratory {
            tally.exploration_moves = tally.exploration_moves + 1;
        }
        if update.carrying_food {
            if update.to == grid.nest() {
                ant.carrying_food = false;
                ant.state = AntState::Searching;
                tally.food_collected = tally.food_collected + 1;
                Arrival::Delivered
            } else {
                Arrival::Moved
            }
        } else {
            match grid.get(update.to) {
                Some(Cell::Food(_)) => {
                    let harvested = grid.harvest_food(update.to, harvest_amount);
                    if harvested > 0 {
                        ant.carrying_food = true;
                        ant.state = AntState::Returning;
                        Arrival::PickedUp(harvested)
                    } else {
                        Arrival::Moved
                    }
                },
                _ => Arrival::Moved,
            }
        }
    };
    ants.set(index, ant);
    arrival
}

/// Whether `update` brings food to the nest at `nest`: a normal move of an
/// ant carrying food onto the nest.
pub open spec fn delivers<S>(update: AntUpdate<S>, nest: Position) -> bool {
    !update.recovered && update.carrying_food && update.to == nest
}

/// Whether `update` is an exploratory normal move.
pub open spec fn explores<S>(update: AntUpdate<S>) -> bool {
    !update.recovered && update.exploratory
}

/// How many of `updates` bring food to the nest at `nest`.
pub open spec fn delivery_count<S>(updates: Seq<AntUpdate<S>>, nest: Position) -> nat
    decreases updates.len(),
{
    if updates.len() == 0 {
        0
    } else {
        delivery_count(updates.drop_last(), nest) + if delivers(updates.last(), nest) {
            1nat
        } else {
            0nat
        }
    }
}

/// How many of `updates` are exploratory normal moves.
pub open spec fn exploration_count<S>(updates: Seq<AntUpdate<S>>) -> nat
    decreases updates.len(),
{
    if updates.len() == 0 {
        0
    } else {
        exploration_count(updates.drop_last()) + if explores(updates.last()) {
            1nat
        } else {
            0nat
        }
    }
}

proof fn lemma_counts_of_prefix<S>(updates: Seq<AntUpdate<S>>, nest: Position, i: int)
    requires
        0 <= i <= updates.len(),
    ensures
        delivery_count(updates.take(i), nest) <= delivery_count(updates, nest),
        exploration_count(updates.take(i)) <= exploration_count(updates),
    decreases updates.len() - i,
{
    if i < updates.len() {
        lemma_counts_of_prefix(updates, nest, i + 1);
        assert(updates.take(i + 1).drop_last() =~= updates.take(i));
    } else {
        assert(updates.take(i) =~= updates);
    }
}

/// Applying updates in order counts exactly the deliveries and the
/// exploratory moves among them, and leaves the nest where it is.
pub proof fn lemma_apply_all_tally<S>(
    grid: GridModel,
    ants: Seq<Ant>,
    tally: ForageTally,
    updates: Seq<AntUpdate<S>>,
    harvest_amount: u32,
)
    requires
        tally.food_collected + delivery_count(updates, grid.nest) <= u32::MAX,
    ensures
        ({
            let after = apply_all(grid, ants, tally, updates, harvest_amount);
            &&& after.grid.nest == grid.nest
            &&& after.tally.food_collected == tally.food_collected + delivery_count(
                updates,
                grid.nest,
            )
            &&& tally.exploration_moves + exploration_count(updates) <= u64::MAX
                ==> after.tally.exploration_moves == tally.exploration_moves + exploration_count(
                updates,
            )
        }),
    decreases updates.len(),
{
    if updates.len() > 0 {
        lemma_apply_all_tally(grid, ants, tally, updates.drop_last(), harvest_amount);
    }
}

/// Applies `updates` one after the other, as `apply_update` does each of
/// them, and returns what each did to its ant. The totals grow by exactly
/// the deliveries and the exploratory moves among the updates.
pub fn apply_updates<S>(
    grid: &mut Grid,
    ants: &mut Vec<Ant>,
    tally: &mut ForageTally,
    updates: &[AntUpdate<S>],
    harvest_amount: u32,
) -> (arrivals: Vec<Arrival>)
    requires
        updates_in_range(updates@, old(ants)@.len()),
        old(tally).food_collected + delivery_count(updates@, old(grid)@.nest) <= u32::MAX,
        old(tally).exploration_moves + exploration_count(updates@) <= u64::MAX,
    ensures
        ({
            let after = apply_all(old(grid)@, old(ants)@, *old(tally), updates@, harvest_amount);
            &&& final(grid)@ == after.grid
            &&& final(ants)@ == after.ants
            &&& *final(tally) == after.tally
            &&& arrivals@ == after.arrivals
        }),
        final(ants)@.len() == old(ants)@.len(),
        final(tally).food_collected == old(tally).food_collected + delivery_count(
            updates@,
            old(grid)@.nest,
        ),
        final(tally).exploration_moves == old(tally).exploration_moves + exploration_count(
            updates@,
        ),
{
    let ghost g0 = grid@;
    let ghost a0 = ants@;
    let ghost t0 = *tally;
    let mut arrivals: Vec<Arrival> = Vec::new();
    let mut i: usize = 0;
    proof {
        assert(updates@.take(0) =~= Seq::<AntUpdate<S>>::empty());
    }
    while i < updates.len()
        invariant
            i <= updates@.len(),
            updates_in_range(updates@, a0.len()),
            t0.food_collected + delivery_count(updates@, g0.nest) <= u32::MAX,
            t0.exploration_moves + exploration_count(updates@) <= u64::MAX,
            ants@.len() == a0.len(),
            grid@.nest == g0.nest,
            tally.food_collected == t0.food_collected + delivery_count(updates@.take(i as int), g0.nest),
            tally.exploration_moves == t0.exploration_moves + exploration_count(
                updates@.take(i as int),
            ),
            ({
                let state = apply_all(g0, a0, t0, updates@.take(i as int), harvest_amount);
                &&& grid@ == state.grid
                &&& ants@ == state.ants
                &&& *tally == state.tally
                &&& arrivals@ == state.arrivals
            }),
        decreases updates@.len() - i,
    {
        let ghost next = updates@.take(i + 1);
        proof {
            assert(next.drop_last() =~= updates@.take(i as int));
            assert(next.last() == updates@[i as int]);
            lemma_counts_of_prefix(updates@, g0.nest, i + 1);
            assert(updates@[i as int].ant_id < a0.len());
        }
        let arrival = apply_update(grid, ants, tally, &updates[i], harvest_amount);
        arrivals.push(arrival);
        i = i + 1;
        proof {
            lemma_counts_of_prefix(updates@, g0.nest, i as int);
            lemma_apply_all_tally(g0, a0, t0, next, harvest_amount);
        }
    }
    proof {
        assert(updates@.take(i as int) =~= updates@);
    }
    arrivals
}

/// The state reached by applying updates one after the other: grid, ants,
/// totals, and the arrival of each update.
pub struct ForageState {
    pub grid: GridModel,
    pub ants: Seq<Ant>,
    pub tally: ForageTally,
    pub arrivals: Seq<Arrival>,
}

/// Applying `updates` in order with `apply_update`, starting from `grid`,
/// `ants` and `tally`.
pub open spec fn apply_all<S>(
    grid: GridModel,
    ants: Seq<Ant>,
    tally: ForageTally,
    updates: Seq<AntUpdate<S>>,
    harvest_amount: u32,
) -> ForageState
    decreases updates.len(),
{
    if updates.len() == 0 {
        ForageState { grid, ants, tally, arrivals: Seq::empty() }
    } else {
        let before = apply_all(grid, ants, tally, updates.drop_last(), harvest_amount);
        let u = updates.last();
        let e = apply_effect(before.grid, before.ants[u.ant_id as int], u, harvest_amount);
        ForageState {
            grid: e.0,
            ants: before.ants.update(u.ant_id as int, e.1),
            tally: tally_after(before.tally, u, e.2),
            arrivals: before.arrivals.push(e.2),
        }
    }
}

/// Whether every update names an ant of the colony.
pub open spec fn updates_in_range<S>(updates: Seq<AntUpdate<S>>, ant_count: nat) -> bool {
    forall|i: int| 0 <= i < updates.len() ==> #[trigger] updates[i].ant_id < ant_count
}

/// Applying a prefix keeps the grid well formed, the colony size, and every
/// ant that no update of the prefix names; the totals grow by at most one
/// per update.
proof fn lemma_apply_all_frame<S>(
    grid: GridModel,
    ants: Seq<Ant>,
    tally: ForageTally,
    updates: Seq<AntUpdate<S>>,
    harvest_amount: u32,
)
    requires
        grid.wf(),
        updates_in_range(updates, ants.len()),
    ensures
        ({
            let after = apply_all(grid, ants, tally, updates, harvest_amount);
            &&& after.grid.wf()
            &&& after.ants.len() == ants.len()
            &&& after.arrivals.len() == updates.len()
            &&& after.tally.food_collected <= tally.food_collected + updates.len()
            &&& after.tally.exploration_moves <= tally.exploration_moves + updates.len()
            &&& forall|k: int|
                0 <= k < ants.len() && (forall|i: int|
                    0 <= i < updates.len() ==> updates[i].ant_id != k) ==> #[trigger] after.ants[k]
                    == ants[k]
        }),
    decreases updates.len(),
{
    if updates.len() > 0 {
        let prefix = updates.drop_last();
        assert forall|i: int| 0 <= i < prefix.len() implies #[trigger] prefix[i].ant_id < ants.len() by {
            assert(prefix[i] == updates[i]);
        }
        lemma_apply_all_frame(grid, ants, tally, prefix, harvest_amount);
        let before = apply_all(grid, ants, tally, prefix, harvest_amount);
        let u = updates.last();
        assert(updates[updates.len() - 1].ant_id < ants.len());
        crate::world::grid::lemma_harvest_conserves_food(before.grid, u.to, harvest_amount);
        let after = apply_all(grid, ants, tally, updates, harvest_amount);
        assert forall|k: int|
            0 <= k < ants.len() && (forall|i: int|
                0 <= i < updates.len() ==> updates[i].ant_id != k) implies #[trigger] after.ants[k]
            == ants[k] by {
            assert(updates[updates.len() - 1].ant_id != k);
            assert forall|i: int| 0 <= i < prefix.len() implies prefix[i].ant_id != k by {
                assert(prefix[i] == updates[i]);
            }
        }
    }
}

/// Food is conserved over a whole tick without restarts: with one unit
/// harvested at a time, when every update is a normal move of a distinct ant
/// whose recorded load is the ant's load at the start of the tick, the food
/// on the grid, the food carried and the food delivered add up to the same
/// total after the tick as before.
pub proof fn lemma_tick_conserves_food<S>(
    g: GridModel,
    ants: Seq<Ant>,
    tally: ForageTally,
    updates: Seq<AntUpdate<S>>,
)
    requires
        g.wf(),
        updates_in_range(updates, ants.len()),
        tally.food_collected + delivery_count(updates, g.nest) <= u32::MAX,
        forall|i: int| 0 <= i < updates.len() ==> !(#[trigger] updates[i]).recovered,
        forall|i: int|
            0 <= i < updates.len() ==> (#[trigger] updates[i]).carrying_food == ants[updates[i].ant_id as int].carrying_food,
        forall|i: int, j: int|
            0 <= i < updates.len() && 0 <= j < updates.len() && i != j ==> updates[i].ant_id
                != updates[j].ant_id,
    ensures
        ({
            let after = apply_all(g, ants, tally, updates, 1);
            after.grid.total_food() + carrying_count(after.ants) + after.tally.food_collected
                == g.total_food() + carrying_count(ants) + tally.food_collected
        }),
    decreases updates.len(),
{
    if updates.len() > 0 {
        let prefix = updates.drop_last();
        let u = updates.last();
        assert forall|i: int| 0 <= i < prefix.len() implies #[trigger] prefix[i].ant_id < ants.len() by {
            assert(prefix[i] == updates[i]);
        }
        assert forall|i: int| 0 <= i < prefix.len() implies !(#[trigger] prefix[i]).recovered by {
            assert(prefix[i] == updates[i]);
        }
        assert forall|i: int| 0 <= i < prefix.len() implies (#[trigger] prefix[i]).carrying_food
            == ants[prefix[i].ant_id as int].carrying_food by {
            assert(prefix[i] == updates[i]);
        }
        assert forall|i: int, j: int|
            0 <= i < prefix.len() && 0 <= j < prefix.len() && i != j implies prefix[i].ant_id
            != prefix[j].ant_id by {
            assert(prefix[i] == updates[i]);
            assert(prefix[j] == updates[j]);
        }
        lemma_tick_conserves_food(g, ants, tally, prefix);
        lemma_apply_all_frame(g, ants, tally, prefix, 1);
        let before = apply_all(g, ants, tally, prefix, 1);
        let last = updates.len() - 1;
        assert(updates[last] == u);
        assert(u.ant_id < ants.len());
        assert forall|i: int| 0 <= i < prefix.len() implies prefix[i].ant_id != u.ant_id by {
            assert(prefix[i] == updates[i]);
        }
        assert(before.ants[u.ant_id as int] == ants[u.ant_id as int]);
        lemma_apply_all_tally(g, ants, tally, prefix, 1);
        lemma_move_conserves_food(before.grid, before.ants, u, before.tally);
    }
}

/// A colony of `count` fresh ants at `nest`, the ant at index `i` having id `i`.
pub fn spawn_ants(count: usize, nest: Position) -> (ants: Vec<Ant>)
    ensures
        ants@.len() == count,
        ids_are_indices(ants@),
        forall|i: int|
            0 <= i < count ==> #[trigger] ants@[i] == (Ant {
                id: i as usize,
                position: nest,
                carrying_food: false,
                state: AntState::Searching,
                last_position: None,
            }),
{
    let mut ants: Vec<Ant> = Vec::with_capacity(count);
    let mut i: usize = 0;
    while i < count
        invariant
            i <= count,
            ants@.len() == i,
            forall|k: int|
                0 <= k < i ==> #[trigger] ants@[k] == (Ant {
                    id: k as usize,
                    position: nest,
                    carrying_food: false,
                    state: AntState::Searching,
                    last_position: None,
                }),
        decreases count - i,
    {
        ants.push(Ant::new(i, nest));
        i = i + 1;
    }
    ants
}

/// In a colony whose ids are its indices, the first `j` decide commands yield
/// normal-move updates of distinct ants, in increasing order, each recording
/// the ant's load.
proof fn lemma_decided_updates_shape<S>(
    ants: Seq<Ant>,
    decisions: Seq<Option<AntDecision<S>>>,
    capacity: nat,
    queued: nat,
    j: nat,
)
    requires
        ids_are_indices(ants),
        j <= ants.len(),
    ensures
        ({
            let u = decide_phase(ants, decisions, capacity, queued, j).updates;
            &&& forall|a: int| 0 <= a < u.len() ==> (#[trigger] u[a]).ant_id < j
            &&& forall|a: int| 0 <= a < u.len() ==> !(#[trigger] u[a]).recovered
            &&& forall|a: int|
                0 <= a < u.len() ==> (#[trigger] u[a]).carrying_food == ants[u[a].ant_id as int].carrying_food
            &&& forall|a: int, b: int| 0 <= a < b < u.len() ==> u[a].ant_id < u[b].ant_id
        }),
    decreases j,
{
    if j > 0 {
        lemma_decided_updates_shape(ants, decisions, capacity, queued, (j - 1) as nat);
        assert(ants[j - 1].id == j - 1);
    }
}

/// A tick without restarts conserves food from the runtime to the grid: in a
/// colony whose ids are its indices, applying in order the updates that the
/// runtime yields for one tick (with one unit harvested at a time) leaves the
/// food on the grid, the food carried and the food delivered adding up to
/// what they were, as long as no ant was restarted.
pub proof fn lemma_runtime_tick_conserves_food<S>(
    g: GridModel,
    ants: Seq<Ant>,
    decisions: Seq<Option<AntDecision<S>>>,
    config: RuntimeConfig,
    score: S,
    tally: ForageTally,
)
    requires
        g.wf(),
        ids_are_indices(ants),
        tally.food_collected + delivery_count(
            tick_updates(ants, decisions, config, g.nest, score),
            g.nest,
        ) <= u32::MAX,
        tick_outcome(ants, decisions, config, g.nest, score).recover.restarts == 0,
    ensures
        ({
            let updates = tick_updates(ants, decisions, config, g.nest, score);
            let after = apply_all(g, ants, tally, updates, 1);
            after.grid.total_food() + carrying_count(after.ants) + after.tally.food_collected
                == g.total_food() + carrying_count(ants) + tally.food_collected
        }),
{
    let t = tick_outcome(ants, decisions, config, g.nest, score);
    let cap = config.mailbox_capacity as nat;
    crate::ant::actor::lemma_recover_phase_bounds(
        ants,
        g.nest,
        config.max_restarts_per_tick as nat,
        t.decide.recovers,
        score,
        t.decide.recovers.len(),
    );
    lemma_decide_phase_bounds(ants, decisions, cap, t.queued, t.queued);
    lemma_decided_updates_shape(ants, decisions, cap, t.queued, t.queued);
    let updates = tick_updates(ants, decisions, config, g.nest, score);
    assert(updates =~= t.decide.updates);
    assert forall|a: int, b: int|
        0 <= a < updates.len() && 0 <= b < updates.len() && a != b implies updates[a].ant_id
        != updates[b].ant_id by {
        if a < b {
            assert(updates[a].ant_id < updates[b].ant_id);
        } else {
            assert(updates[b].ant_id < updates[a].ant_id);
        }
    }
    lemma_tick_conserves_food(g, ants, tally, updates);
}

/// Whether an ant stands inside the grid and carries food exactly when it is
/// returning to the nest.
pub open spec fn ant_in_order(g: GridModel, ant: Ant) -> bool {
    g.in_bounds(ant.position) && ant.carrying_food == (ant.state == AntState::Returning)
}

/// The colony invariant: every ant stands inside the grid and carries food
/// exactly when it is returning to the nest.
pub open spec fn colony_invariant(g: GridModel, ants: Seq<Ant>) -> bool {
    forall|i: int| 0 <= i < ants.len() ==> ant_in_order(g, #[trigger] ants[i])
}

/// Whether every ant's id names an ant of the colony.
pub open spec fn ids_in_range(ants: Seq<Ant>) -> bool {
    forall|i: int| 0 <= i < ants.len() ==> #[trigger] ants[i].id < ants.len()
}

/// Whether `p` is the position of one of the ant's candidate moves on `g`.
pub open spec fn is_candidate_cell(ant: Ant, g: GridModel, p: Position) -> bool {
    exists|k: int|
        0 <= k < ant.candidates_in(g).len() && (#[trigger] ant.candidates_in(g)[k]).position == p
}

/// Whether every decision moves its ant to one of its candidate cells or
/// keeps it where it is, as the ants' scoring does.
pub open spec fn decisions_follow_candidates<S>(
    g: GridModel,
    ants: Seq<Ant>,
    decisions: Seq<Option<AntDecision<S>>>,
) -> bool {
    forall|i: int|
        0 <= i < ants.len() && (#[trigger] decisions[i]) is Some ==> decisions[i]->0.next
            == ants[i].position || is_candidate_cell(ants[i], g, decisions[i]->0.next)
}

/// Candidate moves lead to walkable cells.
proof fn lemma_candidates_walkable(ant: Ant, g: GridModel, s: Seq<Position>)
    ensures
        forall|k: int|
            0 <= k < s.filter_map(ant.candidate_filter(g)).len() ==> g.is_walkable(
                (#[trigger] s.filter_map(ant.candidate_filter(g))[k]).position,
            ),
    decreases s.len(),
{
    if s.len() > 0 {
        lemma_candidates_walkable(ant, g, s.drop_last());
        let f = ant.candidate_filter(g);
        let rest = s.drop_last().filter_map(f);
        assert forall|k: int| 0 <= k < s.filter_map(f).len() implies g.is_walkable(
            (#[trigger] s.filter_map(f)[k]).position,
        ) by {
            if k < rest.len() {
                assert(s.filter_map(f)[k] == rest[k]);
            }
        }
    }
}

/// Whether applying `u` keeps the colony invariant: it names an ant, leads
/// inside the grid, and a restart records a consistent load and state.
pub open spec fn update_keeps_colony<S>(g: GridModel, n: nat, u: AntUpdate<S>) -> bool {
    &&& u.ant_id < n
    &&& g.in_bounds(u.to)
    &&& u.recovered ==> (u.carrying_food <==> u.state == AntState::Returning)
}

proof fn lemma_apply_all_keeps_colony<S>(
    g: GridModel,
    ants: Seq<Ant>,
    tally: ForageTally,
    updates: Seq<AntUpdate<S>>,
    harvest_amount: u32,
)
    requires
        g.wf(),
        colony_invariant(g, ants),
        forall|i: int| 0 <= i < updates.len() ==> update_keeps_colony(g, ants.len(), #[trigger] updates[i]),
    ensures
        ({
            let after = apply_all(g, ants, tally, updates, harvest_amount);
            &&& after.grid.wf()
            &&& after.grid.width == g.width
            &&& after.grid.height == g.height
            &&& after.ants.len() == ants.len()
            &&& colony_invariant(after.grid, after.ants)
        }),
    decreases updates.len(),
{
    if updates.len() > 0 {
        let prefix = updates.drop_last();
        assert forall|i: int| 0 <= i < prefix.len() implies update_keeps_colony(g, ants.len(), #[trigger] prefix[i]) by {
            assert(prefix[i] == updates[i]);
        }
        lemma_apply_all_keeps_colony(g, ants, tally, prefix, harvest_amount);
        let before = apply_all(g, ants, tally, prefix, harvest_amount);
        let u = updates.last();
        assert(update_keeps_colony(g, ants.len(), updates[updates.len() - 1]));
        crate::world::grid::lemma_harvest_conserves_food(before.grid, u.to, harvest_amount);
        let id = u.ant_id as int;
        let ant = before.ants[id];
        assert(ant_in_order(before.grid, ant));
        let e = apply_effect(before.grid, ant, u, harvest_amount);
        assert(e.0.width == g.width && e.0.height == g.height && e.0.wf());
        assert(ant_in_order(e.0, e.1));
        let after = apply_all(g, ants, tally, updates, harvest_amount);
        assert(after.ants == before.ants.update(id, e.1));
        assert(after.grid == e.0);
        assert forall|i: int| 0 <= i < after.ants.len() implies ant_in_order(after.grid, #[trigger] after.ants[i]) by {
            if i == id {
                assert(after.ants[i] == e.1);
            } else {
                assert(after.ants[i] == before.ants[i]);
                assert(ant_in_order(before.grid, before.ants[i]));
            }
        }
    }
}

proof fn lemma_decided_updates_keep_colony<S>(
    g: GridModel,
    ants: Seq<Ant>,
    decisions: Seq<Option<AntDecision<S>>>,
    capacity: nat,
    queued: nat,
    j: nat,
)
    requires
        g.wf(),
        colony_invariant(g, ants),
        ids_in_range(ants),
        decisions_follow_candidates(g, ants, decisions),
        j <= ants.len(),
    ensures
        ({
            let u = decide_phase(ants, decisions, capacity, queued, j).updates;
            forall|a: int| 0 <= a < u.len() ==> update_keeps_colony(g, ants.len(), #[trigger] u[a])
        }),
    decreases j,
{
    if j > 0 {
        lemma_decided_updates_keep_colony(g, ants, decisions, capacity, queued, (j - 1) as nat);
        let prev = decide_phase(ants, decisions, capacity, queued, (j - 1) as nat).updates;
        let cur = decide_phase(ants, decisions, capacity, queued, j).updates;
        let target = ants[j - 1].id as int;
        assert(target < ants.len());
        if cur.len() > prev.len() {
            let d = decisions[target]->0;
            assert(decisions[target] is Some);
            let ant = ants[target];
            assert(cur == prev.push(decided_update(ant, d)));
            assert(ant.id < ants.len());
            assert(g.in_bounds(d.next)) by {
                assert(g.in_bounds(ant.position));
                if d.next != ant.position {
                    assert(is_candidate_cell(ant, g, d.next));
                    let k = choose|k: int|
                        0 <= k < ant.candidates_in(g).len() && (#[trigger] ant.candidates_in(
                            g,
                        )[k]).position == d.next;
                    lemma_candidates_walkable(ant, g, g.neighbors4(ant.position));
                    assert(g.is_walkable(ant.candidates_in(g)[k].position));
                }
            }
        }
        assert forall|a: int| 0 <= a < cur.len() implies update_keeps_colony(g, ants.len(), #[trigger] cur[a]) by {
            if a < prev.len() {
                assert(cur[a] == prev[a]);
            }
        }
    }
}

/// Recovery updates restart known ants at the nest, searching and empty-handed.
proof fn lemma_recovered_updates_keep_colony<S>(
    g: GridModel,
    ants: Seq<Ant>,
    recovers: Seq<AntId>,
    max_restarts: nat,
    score: S,
    j: nat,
)
    requires
        g.wf(),
        ids_in_range(ants),
        j <= recovers.len(),
    ensures
        ({
            let u = recover_phase(ants, g.nest, max_restarts, recovers, score, j).updates;
            forall|a: int| 0 <= a < u.len() ==> update_keeps_colony(g, ants.len(), #[trigger] u[a])
        }),
    decreases j,
{
    if j > 0 {
        lemma_recovered_updates_keep_colony(g, ants, recovers, max_restarts, score, (j - 1) as nat);
        let prev = recover_phase(ants, g.nest, max_restarts, recovers, score, (j - 1) as nat).updates;
        let cur = recover_phase(ants, g.nest, max_restarts, recovers, score, j).updates;
        if cur.len() > prev.len() {
            let id = recovers[j - 1] as int;
            assert(cur == prev.push(recovered_update(ants[id], g.nest, score)));
            assert(ants[id].id < ants.len());
        }
        assert forall|a: int| 0 <= a < cur.len() implies update_keeps_colony(g, ants.len(), #[trigger] cur[a]) by {
            if a < prev.len() {
                assert(cur[a] == prev[a]);
            }
        }
    }
}

/// The colony invariant holds across a tick: when every ant stands in the
/// grid and carries food exactly when returning, and every decision moves its
/// ant to one of its candidate cells or keeps it in place, then after the
/// runtime's updates of the tick are applied in order every ant still stands
/// in the grid and still carries food exactly when returning.
pub proof fn lemma_tick_keeps_colony_invariant<S>(
    g: GridModel,
    ants: Seq<Ant>,
    decisions: Seq<Option<AntDecision<S>>>,
    config: RuntimeConfig,
    score: S,
    tally: ForageTally,
    harvest_amount: u32,
)
    requires
        g.wf(),
        colony_invariant(g, ants),
        ids_in_range(ants),
        decisions_follow_candidates(g, ants, decisions),
    ensures
        ({
            let updates = tick_updates(ants, decisions, config, g.nest, score);
            let after = apply_all(g, ants, tally, updates, harvest_amount);
            &&& after.grid.wf()
            &&& after.ants.len() == ants.len()
            &&& colony_invariant(after.grid, after.ants)
        }),
{
    let t = tick_outcome(ants, decisions, config, g.nest, score);
    let cap = config.mailbox_capacity as nat;
    lemma_decide_phase_bounds(ants, decisions, cap, t.queued, t.queued);
    lemma_decided_updates_keep_colony(g, ants, decisions, cap, t.queued, t.queued);
    lemma_recovered_updates_keep_colony(
        g,
        ants,
        t.decide.recovers,
        config.max_restarts_per_tick as nat,
        score,
        t.decide.recovers.len(),
    );
    let updates = tick_updates(ants, decisions, config, g.nest, score);
    assert forall|i: int| 0 <= i < updates.len() implies update_keeps_colony(g, ants.len(), #[trigger] updates[i]) by {
        if i < t.decide.updates.len() {
            assert(updates[i] == t.decide.updates[i]);
        } else {
            assert(updates[i] == t.recover.updates[i - t.decide.updates.len()]);
        }
    }
    lemma_apply_all_keeps_colony(g, ants, tally, updates, harvest_amount);
}

/// A freshly spawned colony satisfies the colony invariant.
pub proof fn lemma_fresh_colony_invariant(g: GridModel, ants: Seq<Ant>)
    requires
        g.wf(),
        forall|i: int|
            0 <= i < ants.len() ==> (#[trigger] ants[i]).position == g.nest && !ants[i].carrying_food
                && ants[i].state == AntState::Searching,
    ensures
        colony_invariant(g, ants),
{
}

/// Number of ants carrying food.
pub open spec fn carrying_count(ants: Seq<Ant>) -> nat
    decreases ants.len(),
{
    if ants.len() == 0 {
        0
    } else {
        carrying_count(ants.drop_last()) + (if ants.last().carrying_food {
            1nat
        } else {
            0nat
        })
    }
}

/// Number of ants in the given state.
pub open spec fn state_count(ants: Seq<Ant>, state: AntState) -> nat
    decreases ants.len(),
{
    if ants.len() == 0 {
        0
    } else {
        state_count(ants.drop_last(), state) + (if ants.last().state == state {
            1nat
        } else {
            0nat
        })
    }
}

/// Head counts of the colony by load and by state.
#[derive(Clone, Copy, Debug, PartialEq, Eq, Structural)]
pub struct AntCensus {
    pub carrying_ants: usize,
    pub searching_ants: usize,
    pub returning_ants: usize,
}

/// Counts the ants carrying food, searching and returning.
pub fn ant_census(ants: &[Ant]) -> (census: AntCensus)
    ensures
        census.carrying_ants == carrying_count(ants@),
        census.searching_ants == state_count(ants@, AntState::Searching),
        census.returning_ants == state_count(ants@, AntState::Returning),
{
    let mut carrying: usize = 0;
    let mut searching: usize = 0;
    let mut returning: usize = 0;
    let mut i: usize = 0;
    while i < ants.len()
        invariant
            i <= ants@.len(),
            carrying == carrying_count(ants@.take(i as int)),
            searching == state_count(ants@.take(i as int), AntState::Searching),
            returning == state_count(ants@.take(i as int), AntState::Returning),
            carrying <= i,
            searching + returning == i,
        decreases ants@.len() - i,
    {
        proof {
            assert(ants@.take(i + 1).drop_last() =~= ants@.take(i as int));
        }
        if ants[i].carrying_food {
            carrying = carrying + 1;
        }
        match ants[i].state {
            AntState::Searching => {
                searching = searching + 1;
            },
            AntState::Returning => {
                returning = returning + 1;
            },
        }
        i = i + 1;
    }
    proof {
        assert(ants@.take(i as int) =~= ants@);
    }
    AntCensus { carrying_ants: carrying, searching_ants: searching, returning_ants: returning }
}

/// Every ant is either searching or returning.
pub proof fn lemma_census_covers_colony(ants: Seq<Ant>)
    ensures
        state_count(ants, AntState::Searching) + state_count(ants, AntState::Returning) == ants.len(),
        carrying_count(ants) <= ants.len(),
    decreases ants.len(),
{
    if ants.len() > 0 {
        lemma_census_covers_colony(ants.drop_last());
    }
}

/// Replacing one ant changes the number of carrying ants by the difference
/// of the two ants' loads.
pub proof fn lemma_carrying_count_update(ants: Seq<Ant>, i: int, a: Ant)
    requires
        0 <= i < ants.len(),
    ensures
        carrying_count(ants.update(i, a)) + (if ants[i].carrying_food {
            1nat
        } else {
            0nat
        }) == carrying_count(ants) + (if a.carrying_food {
            1nat
        } else {
            0nat
        }),
    decreases ants.len(),
{
    let updated = ants.update(i, a);
    if i == ants.len() - 1 {
        assert(updated.drop_last() =~= ants.drop_last());
    } else {
        lemma_carrying_count_update(ants.drop_last(), i, a);
        assert(updated.drop_last() =~= ants.drop_last().update(i, a));
    }
}

/// Food is conserved by a move: with one unit harvested at a time, the food
/// on the grid, the food carried by ants and the food delivered to the nest
/// add up to the same total before and after applying an update of a normal
/// move whose load matches the ant's. (A restart drops the load of the
/// restarted ant, and harvesting several units at once lets an ant carry
/// them as one, so neither conserves food.)
pub proof fn lemma_move_conserves_food<S>(
    g: GridModel,
    ants: Seq<Ant>,
    update: AntUpdate<S>,
    tally: ForageTally,
)
    requires
        g.wf(),
        0 <= update.ant_id < ants.len(),
        delivers(update, g.nest) ==> tally.food_collected < u32::MAX,
        !update.recovered,
        update.carrying_food == ants[update.ant_id as int].carrying_food,
    ensures
        ({
            let e = apply_effect(g, ants[update.ant_id as int], update, 1);
            let after_ants = ants.update(update.ant_id as int, e.1);
            let after = tally_after(tally, update, e.2);
            e.0.total_food() + carrying_count(after_ants) + after.food_collected == g.total_food()
                + carrying_count(ants) + tally.food_collected
        }),
{
    let i = update.ant_id as int;
    let e = apply_effect(g, ants[i], update, 1);
    lemma_carrying_count_update(ants, i, e.1);
    crate::world::grid::lemma_harvest_conserves_food(g, update.to, 1);
}

/// The demonstration world: the nest in the middle, two food rows (24 units
/// per cell at row four, 18 units per cell in a column five cells from the
/// east edge), a horizontal wall at row eight and a vertical one at column
/// sixteen.
pub open spec fn demo_world(g: GridModel) -> GridModel {
    let east = if g.width >= 5 { (g.width - 5) as nat } else { 0 };
    g.set_nest(Position { x: (g.width / 2) as usize, y: (g.height / 2) as usize }).paint(
        |q: Position| 3 <= q.x < 8 && 4 <= q.y < 5,
        Cell::Food(24),
    ).paint(|q: Position| east <= q.x < east + 1 && 12 <= q.y < 16, Cell::Food(18)).paint(
        |q: Position| 10 <= q.x < 15 && 8 <= q.y < 9,
        Cell::Obstacle,
    ).paint(|q: Position| 16 <= q.x < 17 && 2 <= q.y < 10, Cell::Obstacle)
}

/// Seeds the demonstration world into `grid`.
pub fn seed_world(grid: &mut Grid)
    ensures
        final(grid)@ == demo_world(old(grid)@),
{
    proof {
        use_type_invariant(&*grid);
    }
    let cx = grid.width() / 2;
    let cy = grid.height() / 2;
    grid.set_nest(cx, cy);
    grid.paint_rect(3, 8, 4, 5, Cell::Food(24));
    let east = grid.width().saturating_sub(5);
    proof {
        use_type_invariant(&*grid);
        assert(grid@.width <= usize::MAX) by (nonlinear_arith)
            requires
                grid@.width * grid@.height <= usize::MAX,
                grid@.height > 2,
        ;
    }
    grid.paint_rect(east, east + 1, 12, 16, Cell::Food(18));
    grid.paint_rect(10, 15, 8, 9, Cell::Obstacle);
    grid.paint_rect(16, 17, 2, 10, Cell::Obstacle);
}

} // verus!
