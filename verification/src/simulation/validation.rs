use vstd::prelude::*;

use crate::world::{Cell, Grid, GridModel, Position};

verus! {

/// The environments of the scientific validation matrix.
#[derive(Clone, Copy, Debug, PartialEq, Eq, Structural)]
pub enum ValidationScenario {
    OpenField,
    NarrowPassages,
    ObstacleShift,
}

impl ValidationScenario {
    pub open spec fn label_text(self) -> Seq<char> {
        match self {
            ValidationScenario::OpenField => "open_field"@,
            ValidationScenario::NarrowPassages => "narrow_passages"@,
            ValidationScenario::ObstacleShift => "obstacle_shift"@,
        }
    }

    pub open spec fn spec_dimensions(self) -> (usize, usize) {
        match self {
            ValidationScenario::OpenField => (96, 96),
            ValidationScenario::NarrowPassages => (112, 96),
            ValidationScenario::ObstacleShift => (128, 112),
        }
    }

    pub open spec fn spec_ant_count(self) -> usize {
        match self {
            ValidationScenario::OpenField => 2_500,
            ValidationScenario::NarrowPassages => 3_000,
            ValidationScenario::ObstacleShift => 3_500,
        }
    }

    pub open spec fn spec_default_steps(self) -> usize {
        match self {
            ValidationScenario::OpenField => 300,
            ValidationScenario::NarrowPassages => 360,
            ValidationScenario::ObstacleShift => 420,
        }
    }

    /// Every scenario, in the order of the validation matrix.
    pub fn all() -> (scenarios: [Self; 3])
        ensures
            scenarios@ == seq![
                ValidationScenario::OpenField,
                ValidationScenario::NarrowPassages,
                ValidationScenario::ObstacleShift,
            ],
    {
        let scenarios = [Self::OpenField, Self::NarrowPassages, Self::ObstacleShift];
        proof {
            assert(scenarios@ =~= seq![
                ValidationScenario::OpenField,
                ValidationScenario::NarrowPassages,
                ValidationScenario::ObstacleShift,
            ]);
        }
        scenarios
    }

    /// The scenario's name in reports.
    pub fn label(self) -> (label: &'static str)
        ensures
            label@ == self.label_text(),
    {
        match self {
            Self::OpenField => "open_field",
            Self::NarrowPassages => "narrow_passages",
            Self::ObstacleShift => "obstacle_shift",
        }
    }

    /// Grid width and height of the scenario.
    pub fn dimensions(self) -> (size: (usize, usize))
        ensures
            size == self.spec_dimensions(),
    {
        match self {
            Self::OpenField => (96, 96),
            Self::NarrowPassages => (112, 96),
            Self::ObstacleShift => (128, 112),
        }
    }

    /// Colony size of the scenario.
    pub fn ant_count(self) -> (count: usize)
        ensures
            count == self.spec_ant_count(),
    {
        match self {
            Self::OpenField => 2_500,
            Self::NarrowPassages => 3_000,
            Self::ObstacleShift => 3_500,
        }
    }

    /// Steps of a full-length run of the scenario.
    pub fn default_steps(self) -> (steps: usize)
        ensures
            steps == self.spec_default_steps(),
    {
        match self {
            Self::OpenField => 300,
            Self::NarrowPassages => 360,
            Self::ObstacleShift => 420,
        }
    }

    /// Colony size of a run: the scenario's, lowered to `ant_cap` if one is given.
    pub fn ants_for(self, ant_cap: Option<usize>) -> (ants: usize)
        ensures
            ants == (match ant_cap {
                Some(cap) => if cap < self.spec_ant_count() {
                    cap
                } else {
                    self.spec_ant_count()
                },
                None => self.spec_ant_count(),
            }),
    {
        let count = self.ant_count();
        match ant_cap {
            Some(cap) => if cap < count {
                cap
            } else {
                count
            },
            None => count,
        }
    }
}

/// The validation world of a scenario: the nest in the middle, a row of food
/// (48 units per cell) near the north-west and one near the south-east, and
/// the scenario's obstacles: none in the open field, two walls with regular
/// gaps at a third and two thirds of the width in the narrow passages, two
/// gapped walls at a third and two thirds of the height in the obstacle shift.
pub open spec fn validation_world(scenario: ValidationScenario, width: nat, height: nat) -> GridModel {
    let north_row = 3 + height / 10;
    let south_row = height - (3 + height / 10);
    let base = GridModel::fresh(width, height).set_nest(
        Position { x: (width / 2) as usize, y: (height / 2) as usize },
    ).paint(
        |q: Position| 3 <= q.x < 3 + width / 12 && north_row <= q.y < north_row + 1,
        Cell::Food(48),
    ).paint(
        |q: Position| width - (width / 12 + 3) <= q.x < width - 3 && south_row <= q.y < south_row + 1,
        Cell::Food(48),
    );
    match scenario {
        ValidationScenario::OpenField => base,
        ValidationScenario::NarrowPassages => base.paint(
            |q: Position| q.x == width / 3 && 8 <= q.y < height - 8 && q.y % 9 != 0,
            Cell::Obstacle,
        ).paint(
            |q: Position| q.x == width * 2 / 3 && 8 <= q.y < height - 8 && q.y % 11 != 0,
            Cell::Obstacle,
        ),
        ValidationScenario::ObstacleShift => base.paint(
            |q: Position| q.y == height / 3 && 8 <= q.x < width - 8 && q.x % 10 != 0,
            Cell::Obstacle,
        ).paint(
            |q: Position| q.y == height * 2 / 3 && 8 <= q.x < width - 8 && q.x % 13 != 0,
            Cell::Obstacle,
        ),
    }
}

/// Builds the validation world of `scenario` on a `width` x `height` grid.
/// The dimensions must leave room for the margins the world subtracts.
pub fn seeded_validation_world(scenario: ValidationScenario, width: usize, height: usize) -> (grid: Grid)
    requires
        width > 2,
        height > 2,
        width * height <= usize::MAX,
        width >= width / 12 + 3,
        height >= 3 + height / 10,
        scenario == ValidationScenario::NarrowPassages ==> height >= 8 && width * 2 <= usize::MAX,
        scenario == ValidationScenario::ObstacleShift ==> width >= 8 && height * 2 <= usize::MAX,
    ensures
        grid@ == validation_world(scenario, width as nat, height as nat),
{
    let mut grid = Grid::new(width, height);
    grid.set_nest(width / 2, height / 2);
    let north_row = 3 + height / 10;
    grid.paint_rect(3, 3 + width / 12, north_row, north_row + 1, Cell::Food(48));
    let south_row = height - (3 + height / 10);
    grid.paint_rect(width - (width / 12 + 3), width - 3, south_row, south_row + 1, Cell::Food(48));

    match scenario {
        ValidationScenario::OpenField => {},
        ValidationScenario::NarrowPassages => {
            grid.paint_column_with_gaps(width / 3, 8, height - 8, 9, Cell::Obstacle);
            grid.paint_column_with_gaps(width * 2 / 3, 8, height - 8, 11, Cell::Obstacle);
        },
        ValidationScenario::ObstacleShift => {
            grid.paint_row_with_gaps(height / 3, 8, width - 8, 10, Cell::Obstacle);
            grid.paint_row_with_gaps(height * 2 / 3, 8, width - 8, 13, Cell::Obstacle);
        },
    }
    grid
}

/// The obstacle shift applied half-way through the obstacle-shift scenario:
/// the wall at a third of the height is cleared and a new wall, with a gap
/// every seven columns, rises at half the height.
pub open spec fn shifted_obstacles(g: GridModel, width: nat, height: nat) -> GridModel {
    g.paint(|q: Position| q.y == height / 3 && 8 <= q.x < width - 8, Cell::Empty).paint(
        |q: Position| q.y == height / 2 && 8 <= q.x < width - 8 && q.x % 7 != 0,
        Cell::Obstacle,
    )
}

/// Moves the obstacle-shift wall of a `width` x `height` scenario world.
/// The width must leave room for the eight-cell margins.
pub fn shift_obstacles(width: usize, height: usize, grid: &mut Grid)
    requires
        width >= 8,
    ensures
        final(grid)@ == shifted_obstacles(old(grid)@, width as nat, height as nat),
{
    proof {
        use_type_invariant(&*grid);
    }
    grid.paint_rect(8, width - 8, height / 3, height / 3 + 1, Cell::Empty);
    proof {
        crate::world::grid::lemma_paint_ext(
            old(grid)@,
            |q: Position| 8 <= q.x < width - 8 && height / 3 <= q.y < height / 3 + 1,
            |q: Position| q.y == height / 3 && 8 <= q.x < width - 8,
            Cell::Empty,
        );
    }
    grid.paint_row_with_gaps(height / 2, 8, width - 8, 7, Cell::Obstacle);
}

/// Food delivered before tick `i` (zero before the first tick).
pub open spec fn food_before(food: Seq<u32>, i: int) -> int {
    if i == 0 {
        0
    } else {
        food[i - 1] as int
    }
}

/// Whether deliveries jumped by at least five at tick `i`.
pub open spec fn converges_at(food: Seq<u32>, i: int) -> bool {
    food[i] >= food_before(food, i) + 5
}

/// The first tick (1-based) from index `i` on after which food had been
/// delivered, or the run length if there is none.
pub open spec fn first_food_from(food: Seq<u32>, i: nat) -> nat
    decreases food.len() - i,
{
    if i >= food.len() {
        food.len()
    } else if food[i as int] > 0 {
        i + 1
    } else {
        first_food_from(food, i + 1)
    }
}

/// The first tick (1-based) from index `i` on at which deliveries jumped by
/// at least five units, or the run length if there is none.
pub open spec fn convergence_from(food: Seq<u32>, i: nat) -> nat
    decreases food.len() - i,
{
    if i >= food.len() {
        food.len()
    } else if converges_at(food, i as int) {
        i + 1
    } else {
        convergence_from(food, i + 1)
    }
}

/// The tick at which food was first delivered, or the run length if none was.
pub open spec fn first_food_step_of(food: Seq<u32>) -> nat {
    first_food_from(food, 0)
}

/// The tick of the first jump of at least five delivered units, or the run
/// length if there was none.
pub open spec fn convergence_step_of(food: Seq<u32>) -> nat {
    convergence_from(food, 0)
}

/// Discovery and convergence ticks of a run, from the food collected after
/// each of its ticks: `(first_food_step, convergence_step)`.
pub fn food_progress(food_by_step: &[u32]) -> (steps: (usize, usize))
    requires
        forall|i: int|
            0 <= i < food_by_step@.len() && i < convergence_step_of(food_by_step@)
                ==> food_before(food_by_step@, i) + 5 <= u32::MAX,
    ensures
        steps.0 == first_food_step_of(food_by_step@),
        steps.1 == convergence_step_of(food_by_step@),
{
    let ghost food = food_by_step@;
    let n = food_by_step.len();
    let mut first_food_step: Option<usize> = None;
    let mut convergence_step: Option<usize> = None;
    let mut prev_food: u32 = 0;
    let mut i: usize = 0;
    while i < n
        invariant
            n == food.len(),
            food == food_by_step@,
            forall|k: int|
                0 <= k < food.len() && k < convergence_step_of(food) ==> food_before(food, k) + 5
                    <= u32::MAX,
            i <= n,
            prev_food == food_before(food, i as int),
            match first_food_step {
                Some(s) => s == first_food_from(food, 0),
                None => first_food_from(food, 0) == first_food_from(food, i as nat),
            },
            match convergence_step {
                Some(s) => s == convergence_from(food, 0),
                None => convergence_from(food, 0) == convergence_from(food, i as nat),
            },
        decreases n - i,
    {
        let step = i + 1;
        let current_food = food_by_step[i];
        if first_food_step.is_none() && current_food > 0 {
            first_food_step = Some(step);
        }
        proof {
            if convergence_step.is_none() {
                lemma_convergence_from_past(food, i as nat);
            }
        }
        if convergence_step.is_none() && current_food >= prev_food + 5 {
            convergence_step = Some(step);
        }
        prev_food = current_food;
        i = i + 1;
    }
    let first = match first_food_step {
        Some(s) => s,
        None => n,
    };
    let convergence = match convergence_step {
        Some(s) => s,
        None => n,
    };
    (first, convergence)
}

proof fn lemma_convergence_from_characterised(food: Seq<u32>, i: nat)
    requires
        i <= food.len(),
    ensures
        ({
            let c = convergence_from(food, i);
            &&& i <= c <= food.len()
            &&& i < food.len() ==> c >= i + 1
            &&& c < food.len() ==> food[c - 1] >= (if c == 1 { 0 } else { food[c - 2] as int }) + 5
            &&& forall|t: int|
                i <= t < c - 1 ==> #[trigger] food[t] < (if t == 0 { 0 } else { food[t - 1] as int })
                    + 5
        }),
    decreases food.len() - i,
{
    if i < food.len() && !converges_at(food, i as int) {
        lemma_convergence_from_characterised(food, i + 1);
    }
}

proof fn lemma_first_food_from_characterised(food: Seq<u32>, i: nat)
    requires
        i <= food.len(),
    ensures
        ({
            let f = first_food_from(food, i);
            &&& i <= f <= food.len()
            &&& i < food.len() ==> f >= i + 1
            &&& f < food.len() ==> food[f - 1] > 0
            &&& forall|t: int| i <= t < f - 1 ==> #[trigger] food[t] == 0
        }),
    decreases food.len() - i,
{
    if i < food.len() && food[i as int] == 0 {
        lemma_first_food_from_characterised(food, i + 1);
    }
}

/// What the two ticks of a run mean, from the food totals after each tick:
/// food was first delivered at the discovery tick and never before it (when
/// it falls within the run), and convergence is the first tick whose total
/// exceeds the previous tick's (zero before the first tick) by at least five
/// units; no earlier tick does. A run without such a tick reports its
/// length for either.
pub proof fn lemma_progress_ticks_characterised(food: Seq<u32>)
    ensures
        ({
            let f = first_food_step_of(food);
            &&& f <= food.len()
            &&& food.len() > 0 ==> f >= 1
            &&& f < food.len() ==> food[f - 1] > 0
            &&& forall|t: int| 0 <= t < f - 1 ==> #[trigger] food[t] == 0
        }),
        ({
            let c = convergence_step_of(food);
            &&& c <= food.len()
            &&& food.len() > 0 ==> c >= 1
            &&& c < food.len() ==> food[c - 1] >= (if c == 1 { 0 } else { food[c - 2] as int }) + 5
            &&& forall|t: int|
                0 <= t < c - 1 ==> #[trigger] food[t] < (if t == 0 { 0 } else { food[t - 1] as int })
                    + 5
        }),
{
    lemma_first_food_from_characterised(food, 0);
    lemma_convergence_from_characterised(food, 0);
}

proof fn lemma_convergence_from_past(food: Seq<u32>, i: nat)
    requires
        i < food.len(),
    ensures
        convergence_from(food, i) > i,
    decreases food.len() - i,
{
    if !converges_at(food, i as int) {
        if i + 1 < food.len() {
            lemma_convergence_from_past(food, i + 1);
        } else {
            assert(convergence_from(food, i + 1) == food.len());
        }
    }
}

proof fn lemma_convergence_from_lower_bound(food: Seq<u32>, i: nat)
    ensures
        convergence_from(food, i) >= i || i > food.len(),
    decreases food.len() - i,
{
    if i < food.len() && !converges_at(food, i as int) {
        lemma_convergence_from_lower_bound(food, i + 1);
    }
}

proof fn lemma_discovery_precedes_convergence_from(food: Seq<u32>, i: nat)
    ensures
        first_food_from(food, i) <= convergence_from(food, i),
    decreases food.len() - i,
{
    if i < food.len() {
        if converges_at(food, i as int) {
        } else if food[i as int] > 0 {
            lemma_convergence_from_lower_bound(food, i + 1);
        } else {
            lemma_discovery_precedes_convergence_from(food, i + 1);
        }
    }
}

/// Food is always found no later than deliveries converge: a jump of five
/// delivered units means that some food was delivered by then.
pub proof fn lemma_discovery_precedes_convergence(food: Seq<u32>)
    ensures
        first_food_step_of(food) <= convergence_step_of(food),
{
    lemma_discovery_precedes_convergence_from(food, 0);
}

} // verus!
