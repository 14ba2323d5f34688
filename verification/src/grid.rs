//! The mathematical model of a generation: a rectangular arrangement of
//! cells whose opposite edges are glued together into a torus.

use vstd::arithmetic::div_mod::{lemma_fundamental_div_mod, lemma_fundamental_div_mod_converse};
use vstd::prelude::*;

verus! {

/// One generation of the automaton, as a mathematical value.
///
/// `cells` lists the cells row by row; `true` is alive.
pub struct Grid {
    pub width: nat,
    pub height: nat,
    pub cells: Seq<bool>,
}

/// What a cell contributes to the live-neighbour count of an adjacent cell.
pub open spec fn population(alive: bool) -> nat {
    if alive {
        1
    } else {
        0
    }
}

/// The transition rule: a live cell survives with two or three live
/// neighbours, a dead cell is born with exactly three.
pub open spec fn next_state(alive: bool, live_neighbors: nat) -> bool {
    if alive {
        live_neighbors == 2 || live_neighbors == 3
    } else {
        live_neighbors == 3
    }
}

/// The initial pattern: the cell at row-major position `i` starts alive
/// exactly if `i` is a multiple of 2 or of 7.
pub open spec fn seed_alive(i: int) -> bool {
    i % 2 == 0 || i % 7 == 0
}

/// The coordinate before `i` on a ring of `n` positions.
pub open spec fn ring_prev(i: int, n: int) -> int {
    if i == 0 {
        n - 1
    } else {
        i - 1
    }
}

/// The coordinate after `i` on a ring of `n` positions.
pub open spec fn ring_next(i: int, n: int) -> int {
    if i == n - 1 {
        0
    } else {
        i + 1
    }
}

/// Whether `(row, col)` occurs in `coords`.
pub open spec fn listed(coords: Seq<(u16, u16)>, row: int, col: int) -> bool {
    exists|k: int| 0 <= k < coords.len() && (#[trigger] coords[k]).0 == row && coords[k].1 == col
}

impl Grid {
    /// A grid has at least one row and one column, and one state for every
    /// cell.
    pub open spec fn wf(self) -> bool {
        &&& self.width > 0
        &&& self.height > 0
        &&& self.cells.len() == self.width * self.height
    }

    /// Whether `(row, col)` names a cell of the grid.
    pub open spec fn in_bounds(self, row: int, col: int) -> bool {
        0 <= row < self.height && 0 <= col < self.width
    }

    /// Row-major position of the cell `(row, col)` in `cells`.
    pub open spec fn index(self, row: int, col: int) -> int {
        row * self.width + col
    }

    /// State of the cell at `(row, col)`, for coordinates within bounds.
    pub open spec fn alive(self, row: int, col: int) -> bool {
        self.cells[self.index(row, col)]
    }

    /// State of the cell that `(row, col)` lands on when coordinates past an
    /// edge continue from the opposite edge.
    pub open spec fn alive_on_torus(self, row: int, col: int) -> bool {
        self.alive(row % (self.height as int), col % (self.width as int))
    }

    /// Number of live cells among the eight positions around `(row, col)`
    /// on the torus. A position is counted each time it is reached, so on a
    /// grid narrower or shorter than three cells a cell may count more than
    /// once, and may count itself.
    pub open spec fn live_neighbors(self, row: int, col: int) -> nat {
        population(self.alive_on_torus(row - 1, col - 1))
            + population(self.alive_on_torus(row - 1, col))
            + population(self.alive_on_torus(row - 1, col + 1))
            + population(self.alive_on_torus(row, col - 1))
            + population(self.alive_on_torus(row, col + 1))
            + population(self.alive_on_torus(row + 1, col - 1))
            + population(self.alive_on_torus(row + 1, col))
            + population(self.alive_on_torus(row + 1, col + 1))
    }

    /// State of the cell at row-major position `i` one generation later.
    pub open spec fn next_cell(self, i: int) -> bool {
        next_state(
            self.cells[i],
            self.live_neighbors(i / (self.width as int), i % (self.width as int)),
        )
    }

    /// The next generation: every cell follows the transition rule at once,
    /// each looking only at this generation.
    pub open spec fn step(self) -> Grid {
        Grid {
            width: self.width,
            height: self.height,
            cells: Seq::new(self.cells.len(), |i: int| self.next_cell(i)),
        }
    }

    /// The generation reached after `n` steps.
    pub open spec fn steps(self, n: nat) -> Grid
        decreases n,
    {
        if n == 0 {
            self
        } else {
            self.step().steps((n - 1) as nat)
        }
    }

    /// The grid of the given dimensions that holds the initial pattern.
    pub open spec fn seeded(width: nat, height: nat) -> Grid {
        Grid { width, height, cells: Seq::new(width * height, |i: int| seed_alive(i)) }
    }

    /// The grid of the given dimensions in which every cell is dead.
    pub open spec fn dead(width: nat, height: nat) -> Grid {
        Grid { width, height, cells: Seq::new(width * height, |i: int| false) }
    }

    /// This grid with the cell at `(row, col)` set to `alive`.
    pub open spec fn with_cell(self, row: int, col: int, alive: bool) -> Grid {
        Grid {
            width: self.width,
            height: self.height,
            cells: self.cells.update(self.index(row, col), alive),
        }
    }

    /// This grid with every cell listed in `coords` alive and every other
    /// cell as it was.
    pub open spec fn with_alive(self, coords: Seq<(u16, u16)>) -> Grid {
        Grid {
            width: self.width,
            height: self.height,
            cells: Seq::new(
                self.cells.len(),
                |i: int|
                    self.cells[i] || listed(
                        coords,
                        i / (self.width as int),
                        i % (self.width as int),
                    ),
            ),
        }
    }

    /// Coordinates within bounds have a position within `cells`, and the
    /// position determines the coordinates.
    pub proof fn lemma_index(self, row: int, col: int)
        requires
            self.wf(),
            self.in_bounds(row, col),
        ensures
            0 <= self.index(row, col) < self.cells.len(),
            self.index(row, col) / (self.width as int) == row,
            self.index(row, col) % (self.width as int) == col,
    {
        let w = self.width as int;
        let h = self.height as int;
        assert(row * w + w <= h * w) by (nonlinear_arith)
            requires
                0 <= row < h,
                0 < w,
        ;
        assert(0 <= row * w) by (nonlinear_arith)
            requires
                0 <= row,
                0 < w,
        ;
        assert(h * w == w * h) by (nonlinear_arith);
        lemma_fundamental_div_mod_converse(row * w + col, w, row, col);
    }

    /// Every position within `cells` belongs to exactly one cell within
    /// bounds: the one at row `i / width` and column `i % width`.
    pub proof fn lemma_coordinates(self, i: int)
        requires
            self.wf(),
            0 <= i < self.cells.len(),
        ensures
            self.in_bounds(i / (self.width as int), i % (self.width as int)),
            self.index(i / (self.width as int), i % (self.width as int)) == i,
    {
        let w = self.width as int;
        let h = self.height as int;
        lemma_fundamental_div_mod(i, w);
        assert(0 <= i % w < w);
        assert(w * (i / w) == (i / w) * w) by (nonlinear_arith);
        assert(0 <= i / w < h) by (nonlinear_arith)
            requires
                0 <= i < w * h,
                0 < w,
                i == (i / w) * w + i % w,
                0 <= i % w < w,
        ;
    }

    /// On the torus, the row above the first is the last and the row below
    /// the last is the first, and likewise for columns: a cell's eight
    /// neighbours are the cells one ring step away in each direction.
    pub proof fn lemma_live_neighbors_wrap(self, row: int, col: int)
        requires
            self.wf(),
            self.in_bounds(row, col),
        ensures
            self.live_neighbors(row, col) == ({
                let north = ring_prev(row, self.height as int);
                let south = ring_next(row, self.height as int);
                let west = ring_prev(col, self.width as int);
                let east = ring_next(col, self.width as int);
                population(self.alive(north, west)) + population(self.alive(north, col))
                    + population(self.alive(north, east)) + population(self.alive(row, west))
                    + population(self.alive(row, east)) + population(self.alive(south, west))
                    + population(self.alive(south, col)) + population(self.alive(south, east))
            }),
            self.in_bounds(ring_prev(row, self.height as int), ring_prev(col, self.width as int)),
            self.in_bounds(ring_next(row, self.height as int), ring_next(col, self.width as int)),
            self.live_neighbors(row, col) <= 8,
    {
        lemma_ring(row, self.height as int);
        lemma_ring(col, self.width as int);
    }

    /// A step keeps the dimensions, and the state of each cell of the next
    /// generation is the transition rule applied to the cell's state and its
    /// number of live neighbours in this generation.
    pub proof fn lemma_step(self)
        requires
            self.wf(),
        ensures
            self.step().wf(),
            self.step().width == self.width,
            self.step().height == self.height,
            forall|row: int, col: int|
                self.in_bounds(row, col) ==> #[trigger] self.step().alive(row, col) == next_state(
                    self.alive(row, col),
                    self.live_neighbors(row, col),
                ),
    {
        assert forall|row: int, col: int| self.in_bounds(row, col) implies #[trigger] self.step().alive(
            row,
            col,
        ) == next_state(self.alive(row, col), self.live_neighbors(row, col)) by {
            self.lemma_index(row, col);
        }
    }

    /// Setting a cell changes the state at its coordinates and at no
    /// others, and keeps the dimensions.
    pub proof fn lemma_with_cell(self, row: int, col: int, alive: bool)
        requires
            self.wf(),
            self.in_bounds(row, col),
        ensures
            self.with_cell(row, col, alive).wf(),
            self.with_cell(row, col, alive).alive(row, col) == alive,
            forall|r: int, c: int|
                self.in_bounds(r, c) && (r != row || c != col) ==> #[trigger] self.with_cell(
                    row,
                    col,
                    alive,
                ).alive(r, c) == self.alive(r, c),
    {
        self.lemma_index(row, col);
        assert forall|r: int, c: int|
            self.in_bounds(r, c) && (r != row || c != col) implies #[trigger] self.with_cell(
            row,
            col,
            alive,
        ).alive(r, c) == self.alive(r, c) by {
            self.lemma_index(r, c);
        }
    }

    /// Bringing a list of cells to life leaves alive exactly the cells that
    /// were alive or are listed, and keeps the dimensions.
    pub proof fn lemma_with_alive(self, coords: Seq<(u16, u16)>)
        requires
            self.wf(),
        ensures
            self.with_alive(coords).wf(),
            forall|row: int, col: int|
                self.in_bounds(row, col) ==> #[trigger] self.with_alive(coords).alive(row, col)
                    == (self.alive(row, col) || listed(coords, row, col)),
    {
        assert forall|row: int, col: int| self.in_bounds(row, col) implies #[trigger] self.with_alive(
            coords,
        ).alive(row, col) == (self.alive(row, col) || listed(coords, row, col)) by {
            self.lemma_index(row, col);
        }
    }

    /// Every cell of the dead grid is dead.
    pub proof fn lemma_dead(width: nat, height: nat)
        requires
            width > 0,
            height > 0,
        ensures
            Grid::dead(width, height).wf(),
            forall|row: int, col: int|
                Grid::dead(width, height).in_bounds(row, col) ==> !#[trigger] Grid::dead(
                    width,
                    height,
                ).alive(row, col),
    {
        let g = Grid::dead(width, height);
        assert forall|row: int, col: int| g.in_bounds(row, col) implies !#[trigger] g.alive(
            row,
            col,
        ) by {
            g.lemma_index(row, col);
        }
    }

    /// The cell at `(row, col)` of the seeded grid is alive exactly if its
    /// row-major position is a multiple of 2 or of 7.
    pub proof fn lemma_seeded(width: nat, height: nat)
        requires
            width > 0,
            height > 0,
        ensures
            Grid::seeded(width, height).wf(),
            forall|row: int, col: int|
                Grid::seeded(width, height).in_bounds(row, col) ==> #[trigger] Grid::seeded(
                    width,
                    height,
                ).alive(row, col) == seed_alive(row * width + col),
    {
        let g = Grid::seeded(width, height);
        assert forall|row: int, col: int| g.in_bounds(row, col) implies #[trigger] g.alive(
            row,
            col,
        ) == seed_alive(row * width + col) by {
            g.lemma_index(row, col);
        }
    }

    /// The upper left cell has its northern neighbours in the last row and
    /// its western neighbours in the last column: on a grid of at least two
    /// rows and two columns, the eight cells counted for `(0, 0)` are the
    /// ones named here.
    pub proof fn lemma_origin_neighbors(self)
        requires
            self.wf(),
            self.width >= 2,
            self.height >= 2,
        ensures
            self.live_neighbors(0, 0) == population(
                self.alive(self.height - 1, self.width - 1),
            ) + population(self.alive(self.height - 1, 0)) + population(
                self.alive(self.height - 1, 1),
            ) + population(self.alive(0, self.width - 1)) + population(self.alive(0, 1))
                + population(self.alive(1, self.width - 1)) + population(self.alive(1, 0))
                + population(self.alive(1, 1)),
    {
        self.lemma_live_neighbors_wrap(0, 0);
    }

    /// Every generation that follows a grid is a grid of the same
    /// dimensions.
    pub proof fn lemma_steps_wf(self, n: nat)
        requires
            self.wf(),
        ensures
            self.steps(n).wf(),
            self.steps(n).width == self.width,
            self.steps(n).height == self.height,
        decreases n,
    {
        if n > 0 {
            self.lemma_step();
            self.step().lemma_steps_wf((n - 1) as nat);
        }
    }

    /// One more step after `n` steps is `n + 1` steps.
    pub proof fn lemma_steps_next(self, n: nat)
        ensures
            self.steps(n + 1) == self.steps(n).step(),
        decreases n,
    {
        assert(self.steps(n + 1) == self.step().steps(n)) by {
            assert(((n + 1) - 1) as nat == n);
        }
        if n > 0 {
            self.step().lemma_steps_next((n - 1) as nat);
            assert(((n - 1) as nat + 1) as nat == n);
        }
    }
}

/// The transition rule as a table: a live cell with fewer than two live
/// neighbours dies, one with two or three lives on, one with more than
/// three dies; a dead cell with exactly three is born; and the state
/// together with the count decides alone, so every other dead cell stays
/// dead.
pub proof fn lemma_rule_table(alive: bool, live_neighbors: nat)
    ensures
        alive && live_neighbors < 2 ==> !next_state(alive, live_neighbors),
        alive && (live_neighbors == 2 || live_neighbors == 3) ==> next_state(alive, live_neighbors),
        alive && live_neighbors > 3 ==> !next_state(alive, live_neighbors),
        !alive && live_neighbors == 3 ==> next_state(alive, live_neighbors),
        !alive && live_neighbors != 3 ==> !next_state(alive, live_neighbors),
{
}

/// Grids of the same dimensions whose cells agree at all coordinates are
/// the same grid.
pub proof fn lemma_same_cells(a: Grid, b: Grid)
    requires
        a.wf(),
        b.wf(),
        a.width == b.width,
        a.height == b.height,
        forall|row: int, col: int|
            a.in_bounds(row, col) ==> #[trigger] a.alive(row, col) == b.alive(row, col),
    ensures
        a == b,
{
    assert forall|i: int| 0 <= i < a.cells.len() implies a.cells[i] == b.cells[i] by {
        a.lemma_coordinates(i);
        let w = a.width as int;
        assert(a.alive(i / w, i % w) == b.alive(i / w, i % w));
    }
    assert(a.cells =~= b.cells);
}

/// One step back or forth on a ring of `n` positions is subtraction or
/// addition of one modulo `n`.
pub proof fn lemma_ring(i: int, n: int)
    requires
        0 <= i < n,
    ensures
        (i - 1) % n == ring_prev(i, n),
        i % n == i,
        (i + 1) % n == ring_next(i, n),
        0 <= ring_prev(i, n) < n,
        0 <= ring_next(i, n) < n,
{
    lemma_fundamental_div_mod_converse(i, n, 0, i);
    if i == 0 {
        lemma_fundamental_div_mod_converse(i - 1, n, -1, n - 1);
    } else {
        lemma_fundamental_div_mod_converse(i - 1, n, 0, i - 1);
    }
    if i == n - 1 {
        lemma_fundamental_div_mod_converse(i + 1, n, 1, 0);
    } else {
        lemma_fundamental_div_mod_converse(i + 1, n, 0, i + 1);
    }
}

} // verus!
