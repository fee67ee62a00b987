use vstd::prelude::*;

use crate::world::{Cell, Grid, GridModel, Position};

verus! {

pub type AntId = usize;

/// What an ant is doing: looking for food or bringing it home.
#[derive(Clone, Copy, Debug, PartialEq, Eq, Structural)]
pub enum AntState {
    Searching,
    Returning,
}

/// The discrete state of one ant. Its energy, a floating-point quantity,
/// is kept by the simulation beside it.
#[derive(Clone, Copy, Debug, PartialEq, Eq, Structural)]
pub struct Ant {
    pub id: AntId,
    pub position: Position,
    pub carrying_food: bool,
    pub state: AntState,
    pub last_position: Option<Position>,
}

/// Whether every ant's id is its index in the colony, as in a spawned colony.
pub open spec fn ids_are_indices(ants: Seq<Ant>) -> bool {
    forall|i: int| 0 <= i < ants.len() ==> #[trigger] ants[i].id == i
}

/// The pheromone channel an ant follows.
#[derive(Clone, Copy, Debug, PartialEq, Eq, Structural)]
pub enum Trail {
    /// The food trail, followed while searching.
    Food,
    /// The home trail, followed while carrying food.
    Home,
}

/// The heuristic term of a candidate move.
#[derive(Clone, Copy, Debug, PartialEq, Eq, Structural)]
pub enum Heuristic {
    /// A food source seen by a searching ant (the strongest attraction).
    FoodSource,
    /// Attraction that decays with the given distance to the nest.
    NestDistance(usize),
}

/// Everything the scoring of one candidate move depends on apart from the
/// pheromone intensities and the policy.
#[derive(Clone, Copy, Debug, PartialEq, Eq, Structural)]
pub struct Candidate {
    pub position: Position,
    pub trail: Trail,
    pub heuristic: Heuristic,
    /// Moving back to the previous cell, which is penalised.
    pub revisit: bool,
}

impl Ant {
    /// The trail this ant follows.
    pub open spec fn trail_of(self) -> Trail {
        if self.carrying_food {
            Trail::Home
        } else {
            Trail::Food
        }
    }

    /// The heuristic of moving to `q`: a searching ant is drawn to food
    /// sources, otherwise the attraction follows the distance to the nest.
    pub open spec fn heuristic_of(self, g: GridModel, q: Position) -> Heuristic {
        if !self.carrying_food && (match g.get(q) {
            Some(Cell::Food(amount)) => amount > 0,
            _ => false,
        }) {
            Heuristic::FoodSource
        } else {
            Heuristic::NestDistance(g.distance_to_nest(q) as usize)
        }
    }

    pub open spec fn candidate_of(self, g: GridModel, q: Position) -> Candidate {
        Candidate {
            position: q,
            trail: self.trail_of(),
            heuristic: self.heuristic_of(g, q),
            revisit: self.last_position == Some(q),
        }
    }

    /// The moves an ant weighs: its walkable 4-neighbours, in the order west,
    /// east, north, south.
    /// The candidate made of a neighbour, if the ant may step there.
    pub open spec fn candidate_filter(self, g: GridModel) -> spec_fn(Position) -> Option<Candidate> {
        |q: Position| if g.is_walkable(q) { Some(self.candidate_of(g, q)) } else { None }
    }

    pub open spec fn candidates_in(self, g: GridModel) -> Seq<Candidate> {
        g.neighbors4(self.position).filter_map(self.candidate_filter(g))
    }

    /// What a candidate move of this ant must show, spelled out over the ant
    /// and the grid.
    pub open spec fn describes_move(self, g: GridModel, c: Candidate) -> bool {
        &&& g.is_walkable(c.position)
        &&& (c.revisit <==> self.last_position == Some(c.position))
        &&& c.trail == (if self.carrying_food { Trail::Home } else { Trail::Food })
        &&& (c.heuristic == Heuristic::FoodSource <==> !self.carrying_food && (match g.get(c.position) {
            Some(Cell::Food(amount)) => amount > 0,
            _ => false,
        }))
        &&& c.heuristic != Heuristic::FoodSource ==> c.heuristic == Heuristic::NestDistance(
            g.distance_to_nest(c.position) as usize,
        )
    }

    proof fn lemma_candidates_of_cells(self, g: GridModel, s: Seq<Position>)
        ensures
            forall|k: int|
                0 <= k < s.filter_map(self.candidate_filter(g)).len() ==> {
                    let c = #[trigger] s.filter_map(self.candidate_filter(g))[k];
                    &&& s.contains(c.position)
                    &&& self.describes_move(g, c)
                },
            forall|j: int|
                0 <= j < s.len() && g.is_walkable(#[trigger] s[j]) ==> exists|k: int|
                    0 <= k < s.filter_map(self.candidate_filter(g)).len()
                        && (#[trigger] s.filter_map(self.candidate_filter(g))[k]).position == s[j],
        decreases s.len(),
    {
        let f = self.candidate_filter(g);
        if s.len() > 0 {
            let rest = s.drop_last();
            self.lemma_candidates_of_cells(g, rest);
            let all = s.filter_map(f);
            let part = rest.filter_map(f);
            assert forall|k: int| 0 <= k < all.len() implies {
                let c = #[trigger] all[k];
                &&& s.contains(c.position)
                &&& self.describes_move(g, c)
            } by {
                if k < part.len() {
                    assert(all[k] == part[k]);
                    let c = part[k];
                    let j = choose|j: int| 0 <= j < rest.len() && rest[j] == c.position;
                    assert(s[j] == rest[j]);
                } else {
                    assert(s[s.len() - 1] == s.last());
                }
            }
            assert forall|j: int| 0 <= j < s.len() && g.is_walkable(#[trigger] s[j]) implies exists|k: int|
                0 <= k < all.len() && (#[trigger] all[k]).position == s[j] by {
                if j < rest.len() {
                    assert(rest[j] == s[j]);
                    let k = choose|k: int| 0 <= k < part.len() && (#[trigger] part[k]).position == rest[j];
                    assert(all[k] == part[k]);
                } else {
                    assert(all[all.len() - 1].position == s[j]);
                }
            }
        }
    }

    /// The candidate moves of an ant are exactly its walkable 4-neighbours:
    /// each candidate stands on a walkable neighbour, every walkable neighbour
    /// is a candidate, a candidate is a revisit exactly when it is the cell the
    /// ant came from, the trail follows the ant's load, and only a searching
    /// ant sees a food source, elsewhere the heuristic is the distance to the
    /// nest.
    pub proof fn lemma_candidates_are_walkable_neighbours(self, g: GridModel)
        ensures
            forall|k: int|
                0 <= k < self.candidates_in(g).len() ==> {
                    let c = #[trigger] self.candidates_in(g)[k];
                    &&& g.neighbors4(self.position).contains(c.position)
                    &&& self.describes_move(g, c)
                },
            forall|q: Position|
                g.neighbors4(self.position).contains(q) && g.is_walkable(q) ==> exists|k: int|
                    0 <= k < self.candidates_in(g).len() && (#[trigger] self.candidates_in(g)[k]).position
                        == q,
    {
        let s = g.neighbors4(self.position);
        self.lemma_candidates_of_cells(g, s);
        assert forall|q: Position| s.contains(q) && g.is_walkable(q) implies exists|k: int|
            0 <= k < self.candidates_in(g).len() && (#[trigger] self.candidates_in(g)[k]).position
                == q by {
            let j = choose|j: int| 0 <= j < s.len() && s[j] == q;
            assert(g.is_walkable(s[j]));
        }
    }

    /// A fresh ant at `position`: searching, empty-handed, with no previous cell.
    pub fn new(id: AntId, position: Position) -> (ant: Self)
        ensures
            ant == (Ant {
                id,
                position,
                carrying_food: false,
                state: AntState::Searching,
                last_position: None,
            }),
    {
        Ant { id, position, carrying_food: false, state: AntState::Searching, last_position: None }
    }

    /// Moves to `next`, remembering the cell it leaves.
    pub fn move_to(&mut self, next: Position)
        ensures
            *final(self) == (Ant {
                position: next,
                last_position: Some(old(self).position),
                ..*old(self)
            }),
    {
        self.last_position = Some(self.position);
        self.position = next;
    }

    /// The candidate moves of this ant on `grid`, with what their scores
    /// depend on.
    pub fn candidates(&self, grid: &Grid) -> (candidates: Vec<Candidate>)
        requires
                self.position.x < usize::MAX,
            self.position.y < usize::MAX,
        ensures
            candidates@ == self.candidates_in(grid@),
    {
        let ghost g = grid@;
        let ghost f = self.candidate_filter(g);
        proof {
            use_type_invariant(grid);
        }
        proof {
            assert(g.width <= usize::MAX && g.height <= usize::MAX) by (nonlinear_arith)
                requires
                    g.width * g.height <= usize::MAX,
                    g.width > 2,
                    g.height > 2,
            ;
        }
        let neighbors = grid.neighbors4(self.position);
        let mut candidates: Vec<Candidate> = Vec::with_capacity(4);
        let mut i: usize = 0;
        while i < neighbors.len()
            invariant
                        g == grid@,
                g.wf(),
                f == self.candidate_filter(g),
                neighbors@ == g.neighbors4(self.position),
                i <= neighbors@.len(),
                candidates@ == neighbors@.take(i as int).filter_map(f),
            decreases neighbors@.len() - i,
        {
            let q = neighbors[i];
            proof {
                assert(neighbors@.take(i + 1).drop_last() =~= neighbors@.take(i as int));
            }
            let ghost before = candidates@;
            let walkable = grid.is_walkable(q);
            if walkable {
                let trail = if self.carrying_food {
                    Trail::Home
                } else {
                    Trail::Food
                };
                let food_here = match grid.get(q) {
                    Some(Cell::Food(amount)) => amount > 0,
                    _ => false,
                };
                let heuristic = if !self.carrying_food && food_here {
                    Heuristic::FoodSource
                } else {
                    proof {
                        assert(grid@.distance_to_nest(q) <= usize::MAX) by (nonlinear_arith)
                            requires
                                grid@.in_bounds(q),
                                grid@.in_bounds(grid@.nest),
                                grid@.width * grid@.height <= usize::MAX,
                                grid@.width > 2,
                                grid@.height > 2,
                                grid@.distance_to_nest(q) <= grid@.width + grid@.height,
                        ;
                    }
                    Heuristic::NestDistance(grid.distance_to_nest(q))
                };
                let revisit = match self.last_position {
                    Some(last) => last == q,
                    None => false,
                };
                let candidate = Candidate { position: q, trail, heuristic, revisit };
                proof {
                    assert(candidate == self.candidate_of(g, q));
                }
                candidates.push(candidate);
            }
            proof {
                let s = neighbors@.take(i + 1);
                assert(s.last() == q);
                assert(s.drop_last() =~= neighbors@.take(i as int));
                if walkable {
                    assert(f(q) == Some(self.candidate_of(g, q)));
                    assert(candidates@ =~= before + seq![self.candidate_of(g, q)]);
                } else {
                    assert(f(q) == None::<Candidate>);
                    assert(candidates@ == before);
                }
                assert(s.filter_map(f) == (match f(s.last()) {
                    Option::Some(c) => s.drop_last().filter_map(f) + seq![c],
                    Option::None => s.drop_last().filter_map(f),
                }));
                assert(candidates@ =~= neighbors@.take(i + 1).filter_map(f));
            }
            i = i + 1;
        }
        proof {
            assert(neighbors@.take(i as int) =~= neighbors@);
        }
        candidates
    }
}

} // verus!
