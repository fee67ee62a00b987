use vstd::prelude::*;

verus! {

/// Content of one grid cell.
#[derive(Clone, Copy, Debug, PartialEq, Eq, Structural)]
pub enum Cell {
    Empty,
    Obstacle,
    Nest,
    Food(u32),
}

/// A cell coordinate; `x` grows to the east, `y` to the south.
#[derive(Clone, Copy, Debug, PartialEq, Eq, Hash, Structural)]
pub struct Position {
    pub x: usize,
    pub y: usize,
}

/// The Manhattan distance between two positions.
pub open spec fn manhattan(a: Position, b: Position) -> nat {
    let dx: int = if a.x >= b.x { a.x - b.x } else { b.x - a.x };
    let dy: int = if a.y >= b.y { a.y - b.y } else { b.y - a.y };
    (dx + dy) as nat
}

/// Food units held by a cell (zero for every non-food cell).
pub open spec fn food_units(c: Cell) -> nat {
    match c {
        Cell::Food(amount) => amount as nat,
        _ => 0,
    }
}

/// Whether a cell is an active food source (a food cell with a positive amount).
pub open spec fn is_food_source(c: Cell) -> bool {
    match c {
        Cell::Food(amount) => amount > 0,
        _ => false,
    }
}

/// Number of active food sources in a sequence of cells.
pub open spec fn food_source_count(cells: Seq<Cell>) -> nat
    decreases cells.len(),
{
    if cells.len() == 0 {
        0
    } else {
        food_source_count(cells.drop_last()) + (if is_food_source(cells.last()) {
            1nat
        } else {
            0nat
        })
    }
}

/// Number of obstacle cells in a sequence of cells.
pub open spec fn obstacle_count(cells: Seq<Cell>) -> nat
    decreases cells.len(),
{
    if cells.len() == 0 {
        0
    } else {
        obstacle_count(cells.drop_last()) + (if cells.last() == Cell::Obstacle {
            1nat
        } else {
            0nat
        })
    }
}

/// Total food units stored in a sequence of cells.
pub open spec fn total_food(cells: Seq<Cell>) -> nat
    decreases cells.len(),
{
    if cells.len() == 0 {
        0
    } else {
        total_food(cells.drop_last()) + food_units(cells.last())
    }
}

/// The mathematical model of a grid: its dimensions, its cells in row-major
/// order and the recorded nest position.
#[verifier::ext_equal]
pub struct GridModel {
    pub width: nat,
    pub height: nat,
    pub cells: Seq<Cell>,
    pub nest: Position,
}

impl GridModel {
    pub open spec fn in_bounds(self, p: Position) -> bool {
        p.x < self.width && p.y < self.height
    }

    /// Row-major index of a position.
    pub open spec fn index_of(self, p: Position) -> int {
        p.y * self.width + p.x
    }

    /// The position stored at a row-major index.
    pub open spec fn position_of(self, i: int) -> Position {
        Position { x: (i % (self.width as int)) as usize, y: (i / (self.width as int)) as usize }
    }

    pub open spec fn cell(self, p: Position) -> Cell {
        self.cells[self.index_of(p)]
    }

    /// What `Grid::get` returns: the cell inside the grid, nothing outside.
    pub open spec fn get(self, p: Position) -> Option<Cell> {
        if self.in_bounds(p) {
            Some(self.cell(p))
        } else {
            None
        }
    }

    pub open spec fn wf(self) -> bool {
        &&& self.width > 2
        &&& self.height > 2
        &&& self.cells.len() == self.width * self.height
        &&& self.width * self.height <= usize::MAX
        &&& self.in_bounds(self.nest)
    }

    /// A freshly created grid: everything empty but the nest in the middle.
    pub open spec fn fresh(width: nat, height: nat) -> GridModel {
        let nest = Position { x: (width / 2) as usize, y: (height / 2) as usize };
        let nest_index = (height / 2) * width + width / 2;
        GridModel {
            width,
            height,
            cells: Seq::new(width * height, |i: int| if i == nest_index { Cell::Nest } else { Cell::Empty }),
            nest,
        }
    }

    /// Writing one cell: positions outside the grid are ignored.
    pub open spec fn set_cell(self, p: Position, c: Cell) -> GridModel {
        if self.in_bounds(p) {
            GridModel {
                width: self.width,
                height: self.height,
                cells: self.cells.update(self.index_of(p), c),
                nest: self.nest,
            }
        } else {
            self
        }
    }

    /// Moving the nest: the old nest cell is cleared, the new one marked.
    pub open spec fn set_nest(self, p: Position) -> GridModel {
        if self.in_bounds(p) {
            let cleared = self.set_cell(self.nest, Cell::Empty).set_cell(p, Cell::Nest);
            GridModel { width: cleared.width, height: cleared.height, cells: cleared.cells, nest: p }
        } else {
            self
        }
    }

    /// Writing `c` into every in-bounds cell whose position satisfies `region`.
    pub open spec fn paint(self, region: spec_fn(Position) -> bool, c: Cell) -> GridModel {
        GridModel {
            width: self.width,
            height: self.height,
            cells: Seq::new(
                self.cells.len(),
                |i: int| if region(self.position_of(i)) { c } else { self.cells[i] },
            ),
            nest: self.nest,
        }
    }

    /// Food taken from `p` when at most `amount` units are asked for.
    pub open spec fn harvest_amount(self, p: Position, amount: u32) -> u32 {
        match self.get(p) {
            Some(Cell::Food(available)) => if available < amount {
                available
            } else {
                amount
            },
            _ => 0,
        }
    }

    /// The grid after harvesting at most `amount` units at `p`; a cell left
    /// with no food becomes empty.
    pub open spec fn harvest(self, p: Position, amount: u32) -> GridModel {
        match self.get(p) {
            Some(Cell::Food(available)) => {
                let remaining = (available - self.harvest_amount(p, amount)) as u32;
                self.set_cell(p, if remaining == 0 { Cell::Empty } else { Cell::Food(remaining) })
            },
            _ => self,
        }
    }

    /// The western neighbour, if the grid has one.
    pub open spec fn west_of(self, p: Position) -> Seq<Position> {
        if p.x > 0 {
            seq![Position { x: (p.x - 1) as usize, y: p.y }]
        } else {
            Seq::<Position>::empty()
        }
    }

    /// The eastern neighbour, if the grid has one.
    pub open spec fn east_of(self, p: Position) -> Seq<Position> {
        if p.x + 1 < self.width {
            seq![Position { x: (p.x + 1) as usize, y: p.y }]
        } else {
            Seq::<Position>::empty()
        }
    }

    /// The northern neighbour, if the grid has one.
    pub open spec fn north_of(self, p: Position) -> Seq<Position> {
        if p.y > 0 {
            seq![Position { x: p.x, y: (p.y - 1) as usize }]
        } else {
            Seq::<Position>::empty()
        }
    }

    /// The southern neighbour, if the grid has one.
    pub open spec fn south_of(self, p: Position) -> Seq<Position> {
        if p.y + 1 < self.height {
            seq![Position { x: p.x, y: (p.y + 1) as usize }]
        } else {
            Seq::<Position>::empty()
        }
    }

    /// The 4-neighbourhood inside the grid, in the order west, east, north, south.
    pub open spec fn neighbors4(self, p: Position) -> Seq<Position> {
        self.west_of(p) + self.east_of(p) + self.north_of(p) + self.south_of(p)
    }

    /// A position an ant may stand on: inside the grid and not an obstacle.
    pub open spec fn is_walkable(self, p: Position) -> bool {
        self.in_bounds(p) && self.cell(p) != Cell::Obstacle
    }

    pub open spec fn distance_to_nest(self, p: Position) -> nat {
        manhattan(p, self.nest)
    }

    pub open spec fn food_source_count(self) -> nat {
        food_source_count(self.cells)
    }

    pub open spec fn total_food(self) -> nat {
        total_food(self.cells)
    }
}

/// Row-major indices of in-bounds positions stay below `width * height`.
pub proof fn lemma_index_bounds(x: int, y: int, width: int, height: int)
    requires
        0 <= x < width,
        0 <= y < height,
    ensures
        0 <= y * width + x < width * height,
        y * width + x + 1 <= width * height,
{
    assert(y * width + x < width * height) by (nonlinear_arith)
        requires
            0 <= x < width,
            0 <= y < height,
    ;
    assert(0 <= y * width) by (nonlinear_arith)
        requires
            0 <= y,
            0 <= width,
    ;
}

/// Row-major indexing is a bijection between in-bounds positions and indices.
pub proof fn lemma_position_index(g: GridModel, p: Position)
    requires
        g.in_bounds(p),
    ensures
        g.position_of(g.index_of(p)) == p,
        0 <= g.index_of(p) < g.width * g.height,
{
    lemma_index_bounds(p.x as int, p.y as int, g.width as int, g.height as int);
    vstd::arithmetic::div_mod::lemma_fundamental_div_mod_converse(
        g.index_of(p),
        g.width as int,
        p.y as int,
        p.x as int,
    );
}

/// Distinct in-bounds positions have distinct indices.
pub proof fn lemma_index_injective(g: GridModel, p: Position, q: Position)
    requires
        g.in_bounds(p),
        g.in_bounds(q),
        p != q,
    ensures
        g.index_of(p) != g.index_of(q),
{
    lemma_position_index(g, p);
    lemma_position_index(g, q);
}


/// Every index of a well-formed grid names an in-bounds position.
pub proof fn lemma_position_of_in_bounds(g: GridModel, i: int)
    requires
        g.wf(),
        0 <= i < g.cells.len(),
    ensures
        g.in_bounds(g.position_of(i)),
        g.index_of(g.position_of(i)) == i,
{
    let w = g.width as int;
    vstd::arithmetic::div_mod::lemma_fundamental_div_mod(i, w);
    vstd::arithmetic::div_mod::lemma_mod_bound(i, w);
    vstd::arithmetic::div_mod::lemma_div_pos_is_pos(i, w);
    assert(i / w < g.height) by {
        vstd::arithmetic::div_mod::lemma_div_is_ordered(i, w * (g.height as int) - 1, w);
        assert(w * (g.height as int) - 1 == ((g.height as int) - 1) * w + (w - 1)) by (nonlinear_arith);
        vstd::arithmetic::div_mod::lemma_fundamental_div_mod_converse(
            w * (g.height as int) - 1,
            w,
            (g.height as int) - 1,
            w - 1,
        );
    }
    assert(g.width <= usize::MAX && g.height <= usize::MAX) by (nonlinear_arith)
        requires
            g.width * g.height <= usize::MAX,
            g.width > 2,
            g.height > 2,
    ;
    assert(g.index_of(g.position_of(i)) == (i / w) * w + i % w) by (nonlinear_arith)
        requires
            0 <= i / w,
            0 <= i % w,
            g.position_of(i).x == i % w,
            g.position_of(i).y == i / w,
            w == g.width,
    ;
    assert((i / w) * w == w * (i / w)) by (nonlinear_arith);
}

/// Reading a painted grid: in-bounds positions of the region hold the paint,
/// every other position reads as before, and the nest record is untouched.
pub proof fn lemma_paint_cell(g: GridModel, r: spec_fn(Position) -> bool, c: Cell, p: Position)
    requires
        g.wf(),
    ensures
        g.paint(r, c).wf(),
        g.paint(r, c).nest == g.nest,
        g.in_bounds(p) && r(p) ==> g.paint(r, c).get(p) == Some(c),
        !(g.in_bounds(p) && r(p)) ==> g.paint(r, c).get(p) == g.get(p),
{
    if g.in_bounds(p) {
        lemma_position_index(g, p);
    }
}

/// Painting depends only on which in-bounds positions the region holds.
pub proof fn lemma_paint_ext(
    g: GridModel,
    r1: spec_fn(Position) -> bool,
    r2: spec_fn(Position) -> bool,
    c: Cell,
)
    requires
        g.wf(),
        forall|q: Position| g.in_bounds(q) ==> r1(q) == r2(q),
    ensures
        g.paint(r1, c) == g.paint(r2, c),
{
    assert forall|i: int| 0 <= i < g.cells.len() implies r1(g.position_of(i)) == r2(g.position_of(i)) by {
        lemma_position_of_in_bounds(g, i);
    }
    assert(g.paint(r1, c).cells =~= g.paint(r2, c).cells);
}

/// Painting a region without in-bounds positions changes nothing.
pub proof fn lemma_paint_nothing(g: GridModel, r: spec_fn(Position) -> bool, c: Cell)
    requires
        g.wf(),
        forall|q: Position| g.in_bounds(q) ==> !r(q),
    ensures
        g.paint(r, c) == g,
{
    assert forall|i: int| 0 <= i < g.cells.len() implies !r(g.position_of(i)) by {
        lemma_position_of_in_bounds(g, i);
    }
    assert(g.paint(r, c).cells =~= g.cells);
}

/// Writing `c` once more after painting `c` paints the enlarged region.
pub proof fn lemma_paint_then_set(g: GridModel, r: spec_fn(Position) -> bool, c: Cell, p: Position)
    requires
        g.wf(),
    ensures
        g.paint(r, c).set_cell(p, c) == g.paint(|q: Position| r(q) || q == p, c),
        g.paint(r, c).wf(),
{
    let lhs = g.paint(r, c).set_cell(p, c);
    let rhs = g.paint(|q: Position| r(q) || q == p, c);
    assert forall|i: int| 0 <= i < g.cells.len() implies lhs.cells[i] == rhs.cells[i] by {
        lemma_position_of_in_bounds(g, i);
        if g.in_bounds(p) {
            lemma_position_index(g, p);
            if g.position_of(i) != p {
                lemma_index_injective(g, g.position_of(i), p);
            }
        }
    }
    if g.in_bounds(p) {
        lemma_position_index(g, p);
    }
    assert(lhs.cells =~= rhs.cells);
}


/// Updating one cell changes the food total by the difference of the two cells.
pub proof fn lemma_total_food_update(cells: Seq<Cell>, i: int, c: Cell)
    requires
        0 <= i < cells.len(),
    ensures
        total_food(cells.update(i, c)) + food_units(cells[i]) == total_food(cells) + food_units(c),
    decreases cells.len(),
{
    let updated = cells.update(i, c);
    if i == cells.len() - 1 {
        assert(updated.drop_last() =~= cells.drop_last());
    } else {
        lemma_total_food_update(cells.drop_last(), i, c);
        assert(updated.drop_last() =~= cells.drop_last().update(i, c));
    }
}

/// Read after write: a written cell reads back what was written, and every
/// other position reads as before.
pub proof fn lemma_get_after_set(g: GridModel, p: Position, c: Cell, q: Position)
    requires
        g.wf(),
    ensures
        g.set_cell(p, c).wf(),
        g.in_bounds(p) ==> g.set_cell(p, c).get(p) == Some(c),
        q != p ==> g.set_cell(p, c).get(q) == g.get(q),
        g.set_cell(p, c).nest == g.nest,
{
    if g.in_bounds(p) {
        lemma_position_index(g, p);
        if q != p && g.in_bounds(q) {
            lemma_index_injective(g, p, q);
            lemma_position_index(g, q);
        }
    }
}

/// Moving the nest to an in-bounds position records it there, marks its cell
/// as the nest, clears the former nest cell and leaves every other cell alone.
pub proof fn lemma_set_nest_moves_nest(g: GridModel, p: Position, q: Position)
    requires
        g.wf(),
        g.in_bounds(p),
    ensures
        g.set_nest(p).wf(),
        g.set_nest(p).nest == p,
        g.set_nest(p).get(p) == Some(Cell::Nest),
        g.nest != p ==> g.set_nest(p).get(g.nest) == Some(Cell::Empty),
        q != p && q != g.nest ==> g.set_nest(p).get(q) == g.get(q),
{
    let cleared = g.set_cell(g.nest, Cell::Empty);
    lemma_get_after_set(g, g.nest, Cell::Empty, q);
    lemma_get_after_set(g, g.nest, Cell::Empty, p);
    lemma_get_after_set(cleared, p, Cell::Nest, q);
    lemma_get_after_set(cleared, p, Cell::Nest, g.nest);
}

/// Harvesting conserves food: what is taken plus what stays on the grid is
/// what was there, and never more than was asked for is taken.
pub proof fn lemma_harvest_conserves_food(g: GridModel, p: Position, amount: u32)
    requires
        g.wf(),
    ensures
        g.harvest(p, amount).wf(),
        g.harvest(p, amount).total_food() + g.harvest_amount(p, amount) == g.total_food(),
        g.harvest_amount(p, amount) <= amount,
        g.harvest(p, amount).nest == g.nest,
{
    match g.get(p) {
        Some(Cell::Food(available)) => {
            lemma_position_index(g, p);
            let remaining = (available - g.harvest_amount(p, amount)) as u32;
            let c = if remaining == 0 { Cell::Empty } else { Cell::Food(remaining) };
            lemma_total_food_update(g.cells, g.index_of(p), c);
        },
        _ => {},
    }
}

/// Where each entry of the 4-neighbourhood comes from.
proof fn lemma_neighbor_at(g: GridModel, p: Position, i: int)
    requires
        0 <= i < g.neighbors4(p).len(),
    ensures
        ({
            let n = g.neighbors4(p);
            let cw = g.west_of(p).len() as int;
            let ce = g.east_of(p).len() as int;
            let cn = g.north_of(p).len() as int;
            ||| (cw == 1 && i == 0 && n[i] == g.west_of(p)[0])
            ||| (ce == 1 && i == cw && n[i] == g.east_of(p)[0])
            ||| (cn == 1 && i == cw + ce && n[i] == g.north_of(p)[0])
            ||| (g.south_of(p).len() == 1 && i == cw + ce + cn && n[i] == g.south_of(p)[0])
        }),
{
    let west = g.west_of(p);
    let east = g.east_of(p);
    let north = g.north_of(p);
    let south = g.south_of(p);
    let a = west + east;
    let b = a + north;
    let n = b + south;
    assert(n == g.neighbors4(p));
    if i < b.len() {
        assert(n[i] == b[i]);
        if i < a.len() {
            assert(b[i] == a[i]);
            if i < west.len() {
                assert(a[i] == west[i]);
            } else {
                assert(a[i] == east[i - west.len()]);
            }
        } else {
            assert(b[i] == north[i - a.len()]);
        }
    } else {
        assert(n[i] == south[i - b.len()]);
    }
}

/// The 4-neighbourhood of an in-bounds position is exactly the set of
/// in-bounds positions at Manhattan distance one, listed once each.
pub proof fn lemma_neighbors4_exact(g: GridModel, p: Position, q: Position)
    requires
        g.wf(),
        g.in_bounds(p),
    ensures
        forall|i: int|
            0 <= i < g.neighbors4(p).len() ==> g.in_bounds(#[trigger] g.neighbors4(p)[i])
                && manhattan(p, g.neighbors4(p)[i]) == 1,
        g.neighbors4(p).no_duplicates(),
        g.neighbors4(p).contains(q) <==> (g.in_bounds(q) && manhattan(p, q) == 1),
{
    let n = g.neighbors4(p);
    assert(g.width <= usize::MAX && g.height <= usize::MAX) by (nonlinear_arith)
        requires
            g.width * g.height <= usize::MAX,
            g.width > 2,
            g.height > 2,
    ;
    assert forall|i: int| 0 <= i < n.len() implies g.in_bounds(#[trigger] n[i]) && manhattan(p, n[i])
        == 1 by {
        lemma_neighbor_at(g, p, i);
    }
    assert forall|i: int, j: int| 0 <= i < n.len() && 0 <= j < n.len() && i != j implies n[i]
        != n[j] by {
        lemma_neighbor_at(g, p, i);
        lemma_neighbor_at(g, p, j);
    }
    let cw: int = if p.x > 0 { 1 } else { 0 };
    let ce: int = if p.x + 1 < g.width { 1 } else { 0 };
    let cn: int = if p.y > 0 { 1 } else { 0 };
    let cs: int = if p.y + 1 < g.height { 1 } else { 0 };
    assert(n.len() == cw + ce + cn + cs);
    if g.in_bounds(q) && manhattan(p, q) == 1 {
        let k: int = if q.x < p.x {
            0
        } else if q.x > p.x {
            cw
        } else if q.y < p.y {
            cw + ce
        } else {
            cw + ce + cn
        };
        lemma_neighbor_at(g, p, k);
        assert(n[k] == q);
    }
}

/// One step to a neighbour changes the distance to the nest by exactly one.
pub proof fn lemma_neighbor_distance_to_nest(g: GridModel, p: Position, n: Position)
    requires
        manhattan(p, n) == 1,
    ensures
        g.distance_to_nest(n) == g.distance_to_nest(p) + 1 || g.distance_to_nest(n) + 1
            == g.distance_to_nest(p),
{
}

/// The grid world: a `width` x `height` board of cells with one recorded nest.
#[derive(Debug)]
pub struct Grid {
    width: usize,
    height: usize,
    cells: Vec<Cell>,
    nest: Position,
}

impl View for Grid {
    type V = GridModel;

    closed spec fn view(&self) -> GridModel {
        GridModel {
            width: self.width as nat,
            height: self.height as nat,
            cells: self.cells@,
            nest: self.nest,
        }
    }
}

impl Clone for Grid {
    /// A copy of the grid, cell for cell.
    fn clone(&self) -> (copy: Self)
        ensures
            copy@ == self@,
    {
        let mut cells: Vec<Cell> = Vec::with_capacity(self.cells.len());
        let mut i: usize = 0;
        while i < self.cells.len()
            invariant
                i <= self.cells@.len(),
                cells@ == self.cells@.take(i as int),
            decreases self.cells@.len() - i,
        {
            cells.push(self.cells[i]);
            i = i + 1;
        }
        proof {
            use_type_invariant(self);
            assert(cells@ =~= self.cells@);
        }
        Grid { width: self.width, height: self.height, cells, nest: self.nest }
    }
}

impl Grid {
    /// Every grid keeps its model well formed: dimensions above two, one cell
    /// per position, and the nest inside.
    #[verifier::type_invariant]
    pub open spec fn wf(&self) -> bool {
        self@.wf()
    }

    /// Creates an empty grid with the nest in the middle.
    /// Grids of 2x2 or smaller are refused (constructing one is a caller error).
    pub fn new(width: usize, height: usize) -> (grid: Self)
        requires
            width > 2,
            height > 2,
            width * height <= usize::MAX,
        ensures
            grid@ == GridModel::fresh(width as nat, height as nat),
    {
        let nest = Position { x: width / 2, y: height / 2 };
        proof {
            lemma_index_bounds((width / 2) as int, (height / 2) as int, width as int, height as int);
        }
        let count = width * height;
        let nest_index = nest.y * width + nest.x;
        let mut cells: Vec<Cell> = Vec::with_capacity(count);
        let mut i: usize = 0;
        while i < count
            invariant
                i <= count,
                count == width * height,
                nest_index == (height / 2) * width + width / 2,
                cells@.len() == i,
                forall|j: int|
                    0 <= j < i ==> #[trigger] cells@[j] == (if j == nest_index {
                        Cell::Nest
                    } else {
                        Cell::Empty
                    }),
            decreases count - i,
        {
            if i == nest_index {
                cells.push(Cell::Nest);
            } else {
                cells.push(Cell::Empty);
            }
            i = i + 1;
        }
        let grid = Grid { width, height, cells, nest };
        proof {
            assert(grid@.cells =~= GridModel::fresh(width as nat, height as nat).cells);
        }
        grid
    }

    pub fn width(&self) -> (w: usize)
        ensures
            w == self@.width,
    {
        self.width
    }

    pub fn height(&self) -> (h: usize)
        ensures
            h == self@.height,
    {
        self.height
    }

    pub fn nest(&self) -> (p: Position)
        ensures
            p == self@.nest,
    {
        self.nest
    }

    pub fn is_within_bounds(&self, position: Position) -> (b: bool)
        ensures
            b == self@.in_bounds(position),
    {
        position.x < self.width && position.y < self.height
    }

    fn index(&self, position: Position) -> (i: usize)
        requires
            self@.in_bounds(position),
        ensures
            i == self@.index_of(position),
            i < self.cells@.len(),
    {
        proof {
            use_type_invariant(self);
        }
        proof {
            lemma_index_bounds(position.x as int, position.y as int, self.width as int, self.height as int);
            assert(self.cells@.len() == self.cells.len());
            assert(position.y * self.width <= position.y * self.width + position.x);
        }
        position.y * self.width + position.x
    }

    /// The cell at `position`, or `None` outside the grid.
    pub fn get(&self, position: Position) -> (c: Option<Cell>)
        ensures
            c == self@.get(position),
    {
        proof {
            use_type_invariant(self);
        }
        if self.is_within_bounds(position) {
            Some(self.cells[self.index(position)])
        } else {
            None
        }
    }

    /// Overwrites the cell at `(x, y)`; positions outside the grid are ignored.
    pub fn set_cell(&mut self, x: usize, y: usize, cell: Cell)
        ensures
            final(self)@ == old(self)@.set_cell(Position { x, y }, cell),
    {
        proof {
            use_type_invariant(&*self);
        }
        let position = Position { x, y };
        if self.is_within_bounds(position) {
            let index = self.index(position);
            self.cells[index] = cell;
        }
    }

    /// Moves the nest to `(x, y)`: the old nest cell becomes empty and the new
    /// one becomes the nest. Positions outside the grid are ignored.
    pub fn set_nest(&mut self, x: usize, y: usize)
        ensures
            final(self)@ == old(self)@.set_nest(Position { x, y }),
    {
        proof {
            use_type_invariant(&*self);
        }
        let position = Position { x, y };
        if !self.is_within_bounds(position) {
            return;
        }
        let old_index = self.index(self.nest);
        self.cells[old_index] = Cell::Empty;
        self.nest = position;
        let new_index = self.index(position);
        self.cells[new_index] = Cell::Nest;
    }

    /// Puts a food source of `amount` units at `(x, y)` (ignored outside the grid).
    pub fn set_food(&mut self, x: usize, y: usize, amount: u32)
        ensures
            final(self)@ == old(self)@.set_cell(Position { x, y }, Cell::Food(amount)),
    {
        self.set_cell(x, y, Cell::Food(amount));
    }

    /// The in-bounds 4-neighbours of `position`, in the order west, east,
    /// north, south.
    pub fn neighbors4(&self, position: Position) -> (neighbors: Vec<Position>)
        requires
            position.x < usize::MAX,
            position.y < usize::MAX,
        ensures
            neighbors@ == self@.neighbors4(position),
    {
        let mut neighbors: Vec<Position> = Vec::with_capacity(4);
        if position.x > 0 {
            neighbors.push(Position { x: position.x - 1, y: position.y });
        }
        let ghost after_west = neighbors@;
        if position.x + 1 < self.width {
            neighbors.push(Position { x: position.x + 1, y: position.y });
        }
        let ghost after_east = neighbors@;
        if position.y > 0 {
            neighbors.push(Position { x: position.x, y: position.y - 1 });
        }
        let ghost after_north = neighbors@;
        if position.y + 1 < self.height {
            neighbors.push(Position { x: position.x, y: position.y + 1 });
        }
        proof {
            let g = self@;
            let west = g.west_of(position);
            let east = g.east_of(position);
            let north = g.north_of(position);
            let south = g.south_of(position);
            assert(after_west =~= west);
            assert(after_east =~= west + east);
            assert(after_north =~= west + east + north);
            assert(neighbors@ =~= west + east + north + south);
        }
        neighbors
    }

    /// Whether an ant may stand on `position`: inside the grid and not an obstacle.
    pub fn is_walkable(&self, position: Position) -> (b: bool)
        ensures
            b == self@.is_walkable(position),
    {
        proof {
            use_type_invariant(self);
        }
        match self.get(position) {
            Some(Cell::Obstacle) | None => false,
            _ => true,
        }
    }

    /// The Manhattan distance from `position` to the nest.
    pub fn distance_to_nest(&self, position: Position) -> (d: usize)
        requires
            self@.distance_to_nest(position) <= usize::MAX,
        ensures
            d == self@.distance_to_nest(position),
    {
        let dx = if position.x >= self.nest.x {
            position.x - self.nest.x
        } else {
            self.nest.x - position.x
        };
        let dy = if position.y >= self.nest.y {
            position.y - self.nest.y
        } else {
            self.nest.y - position.y
        };
        dx + dy
    }

    /// Takes at most `amount` food units from the cell at `position` and
    /// returns how many were taken; a cell left without food becomes empty.
    /// Anything but a food cell yields nothing and is left as it is.
    pub fn harvest_food(&mut self, position: Position, amount: u32) -> (harvested: u32)
        ensures
            harvested == old(self)@.harvest_amount(position, amount),
            final(self)@ == old(self)@.harvest(position, amount),
    {
        proof {
            use_type_invariant(&*self);
        }
        let available = match self.get(position) {
            Some(Cell::Food(available)) => available,
            _ => {
                return 0;
            },
        };
        let harvested = if available < amount {
            available
        } else {
            amount
        };
        let remaining = available - harvested;
        self.set_cell(
            position.x,
            position.y,
            if remaining == 0 {
                Cell::Empty
            } else {
                Cell::Food(remaining)
            },
        );
        harvested
    }

    /// The number of active food sources (food cells holding a positive amount).
    pub fn count_food_cells(&self) -> (count: usize)
        ensures
            count == self@.food_source_count(),
    {
        let mut count: usize = 0;
        let mut i: usize = 0;
        while i < self.cells.len()
            invariant
                i <= self.cells@.len(),
                count == food_source_count(self.cells@.take(i as int)),
                count <= i,
            decreases self.cells@.len() - i,
        {
            proof {
                assert(self.cells@.take(i + 1).drop_last() =~= self.cells@.take(i as int));
            }
            match self.cells[i] {
                Cell::Food(amount) => {
                    if amount > 0 {
                        count = count + 1;
                    }
                },
                _ => {},
            }
            i = i + 1;
        }
        proof {
            assert(self.cells@.take(i as int) =~= self.cells@);
        }
        count
    }

    /// All cells in row-major order.
    pub fn cells(&self) -> (cells: &[Cell])
        ensures
            cells@ == self@.cells,
    {
        self.cells.as_slice()
    }

    /// Writes `cell` at every in-bounds `(x, y)` with `x0 <= x < x1` and
    /// `y0 <= y < y1`, row by row.
    pub(crate) fn paint_rect(&mut self, x0: usize, x1: usize, y0: usize, y1: usize, cell: Cell)
        ensures
            final(self)@ == old(self)@.paint(
                |q: Position| x0 <= q.x < x1 && y0 <= q.y < y1,
                cell,
            ),
    {
        proof {
            use_type_invariant(&*self);
        }
        let ghost g0 = self@;
        proof {
            lemma_paint_nothing(g0, |q: Position| x0 <= q.x < x1 && y0 <= q.y < y0, cell);
        }
        let mut y = y0;
        while y < y1
            invariant
                g0.wf(),
                    y0 <= y,
                y <= y1 || y == y0,
                self@ == g0.paint(|q: Position| x0 <= q.x < x1 && y0 <= q.y < y, cell),
            decreases y1 - y,
        {
            let mut x = x0;
            proof {
                lemma_paint_ext(
                    g0,
                    |q: Position| x0 <= q.x < x1 && y0 <= q.y < y,
                    |q: Position| x0 <= q.x < x1 && (y0 <= q.y < y || (q.y == y && q.x < x)),
                    cell,
                );
            }
            while x < x1
                invariant
                    g0.wf(),
                            y0 <= y < y1,
                    x0 <= x,
                    self@ == g0.paint(
                        |q: Position| x0 <= q.x < x1 && (y0 <= q.y < y || (q.y == y && q.x < x)),
                        cell,
                    ),
                decreases x1 - x,
            {
                let ghost region = |q: Position|
                    x0 <= q.x < x1 && (y0 <= q.y < y || (q.y == y && q.x < x));
                self.set_cell(x, y, cell);
                proof {
                    lemma_paint_then_set(g0, region, cell, Position { x, y });
                    lemma_paint_ext(
                        g0,
                        |q: Position| region(q) || q == Position { x, y },
                        |q: Position| x0 <= q.x < x1 && (y0 <= q.y < y || (q.y == y && q.x < x + 1)),
                        cell,
                    );
                }
                x = x + 1;
            }
            proof {
                lemma_paint_ext(
                    g0,
                    |q: Position| x0 <= q.x < x1 && (y0 <= q.y < y || (q.y == y && q.x < x)),
                    |q: Position| x0 <= q.x < x1 && y0 <= q.y < y + 1,
                    cell,
                );
            }
            y = y + 1;
        }
        proof {
            lemma_paint_ext(
                g0,
                |q: Position| x0 <= q.x < x1 && y0 <= q.y < y,
                |q: Position| x0 <= q.x < x1 && y0 <= q.y < y1,
                cell,
            );
        }
    }

    /// Writes `cell` at every in-bounds `(x, row)` with `x0 <= x < x1`, except
    /// where `x` is a multiple of `gap_every`.
    pub(crate) fn paint_row_with_gaps(
        &mut self,
        row: usize,
        x0: usize,
        x1: usize,
        gap_every: usize,
        cell: Cell,
    )
        requires
            gap_every > 0,
        ensures
            final(self)@ == old(self)@.paint(
                |q: Position| q.y == row && x0 <= q.x < x1 && q.x % gap_every != 0,
                cell,
            ),
    {
        proof {
            use_type_invariant(&*self);
        }
        let ghost g0 = self@;
        proof {
            lemma_paint_nothing(g0, |q: Position| q.y == row && x0 <= q.x < x0 && q.x % gap_every != 0, cell);
        }
        let mut x = x0;
        while x < x1
            invariant
                g0.wf(),
                    gap_every > 0,
                x0 <= x,
                x <= x1 || x == x0,
                self@ == g0.paint(|q: Position| q.y == row && x0 <= q.x < x && q.x % gap_every != 0, cell),
            decreases x1 - x,
        {
            let ghost region = |q: Position| q.y == row && x0 <= q.x < x && q.x % gap_every != 0;
            if x % gap_every != 0 {
                self.set_cell(x, row, cell);
                proof {
                    lemma_paint_then_set(g0, region, cell, Position { x, y: row });
                }
            }
            proof {
                lemma_paint_ext(
                    g0,
                    |q: Position| region(q) || (x % gap_every != 0 && q == Position { x, y: row }),
                    |q: Position| q.y == row && x0 <= q.x < x + 1 && q.x % gap_every != 0,
                    cell,
                );
                if x % gap_every == 0 {
                    lemma_paint_ext(
                        g0,
                        region,
                        |q: Position| region(q) || (x % gap_every != 0 && q == Position { x, y: row }),
                        cell,
                    );
                } else {
                    lemma_paint_ext(
                        g0,
                        |q: Position| region(q) || q == Position { x, y: row },
                        |q: Position| region(q) || (x % gap_every != 0 && q == Position { x, y: row }),
                        cell,
                    );
                }
            }
            x = x + 1;
        }
        proof {
            lemma_paint_ext(
                g0,
                |q: Position| q.y == row && x0 <= q.x < x && q.x % gap_every != 0,
                |q: Position| q.y == row && x0 <= q.x < x1 && q.x % gap_every != 0,
                cell,
            );
        }
    }

    /// Writes `cell` at every in-bounds `(column, y)` with `y0 <= y < y1`,
    /// except where `y` is a multiple of `gap_every`.
    pub(crate) fn paint_column_with_gaps(
        &mut self,
        column: usize,
        y0: usize,
        y1: usize,
        gap_every: usize,
        cell: Cell,
    )
        requires
            gap_every > 0,
        ensures
            final(self)@ == old(self)@.paint(
                |q: Position| q.x == column && y0 <= q.y < y1 && q.y % gap_every != 0,
                cell,
            ),
    {
        proof {
            use_type_invariant(&*self);
        }
        let ghost g0 = self@;
        proof {
            lemma_paint_nothing(g0, |q: Position| q.x == column && y0 <= q.y < y0 && q.y % gap_every != 0, cell);
        }
        let mut y = y0;
        while y < y1
            invariant
                g0.wf(),
                    gap_every > 0,
                y0 <= y,
                y <= y1 || y == y0,
                self@ == g0.paint(|q: Position| q.x == column && y0 <= q.y < y && q.y % gap_every != 0, cell),
            decreases y1 - y,
        {
            let ghost region = |q: Position| q.x == column && y0 <= q.y < y && q.y % gap_every != 0;
            if y % gap_every != 0 {
                self.set_cell(column, y, cell);
                proof {
                    lemma_paint_then_set(g0, region, cell, Position { x: column, y });
                }
            }
            proof {
                lemma_paint_ext(
                    g0,
                    |q: Position| region(q) || (y % gap_every != 0 && q == Position { x: column, y }),
                    |q: Position| q.x == column && y0 <= q.y < y + 1 && q.y % gap_every != 0,
                    cell,
                );
                if y % gap_every == 0 {
                    lemma_paint_ext(
                        g0,
                        region,
                        |q: Position| region(q) || (y % gap_every != 0 && q == Position { x: column, y }),
                        cell,
                    );
                } else {
                    lemma_paint_ext(
                        g0,
                        |q: Position| region(q) || q == Position { x: column, y },
                        |q: Position| region(q) || (y % gap_every != 0 && q == Position { x: column, y }),
                        cell,
                    );
                }
            }
            y = y + 1;
        }
        proof {
            lemma_paint_ext(
                g0,
                |q: Position| q.x == column && y0 <= q.y < y && q.y % gap_every != 0,
                |q: Position| q.x == column && y0 <= q.y < y1 && q.y % gap_every != 0,
                cell,
            );
        }
    }
}

} // verus!
