//! The simulation engine: a universe owns two cell buffers of equal size,
//! reads one generation from one of them while it writes the next into the
//! other, and then exchanges their roles.

use crate::grid::{listed, seed_alive, Grid};
use vstd::prelude::*;

verus! {

/// Why a universe of the requested dimensions cannot exist.
#[derive(Debug, Clone, Copy, PartialEq, Eq, Structural)]
pub enum ConfigError {
    /// The requested width is zero.
    ZeroWidth,
    /// The requested width is positive and the requested height is zero.
    ZeroHeight,
}

/// A toroidal universe of cells, each alive or dead.
///
/// The buffer that `cells` exposes holds one `bool` per cell, row by row.
pub struct Universe {
    width: u16,
    height: u16,
    /// `true`: `cells1` holds the current generation; `false`: `cells2`.
    switch: bool,
    cells1: Vec<bool>,
    cells2: Vec<bool>,
}

impl View for Universe {
    type V = Grid;

    /// The current generation.
    closed spec fn view(&self) -> Grid {
        Grid {
            width: self.width as nat,
            height: self.height as nat,
            cells: if self.switch {
                self.cells1@
            } else {
                self.cells2@
            },
        }
    }
}

impl Universe {
    #[verifier::type_invariant]
    spec fn inv(&self) -> bool {
        &&& self.width > 0
        &&& self.height > 0
        &&& self.cells1@.len() == self.width * self.height
        &&& self.cells2@.len() == self.width * self.height
    }

    /// Builds the universe of the given dimensions, which must be positive,
    /// with the initial pattern in both buffers.
    fn seeded(width: u16, height: u16) -> (u: Universe)
        requires
            width > 0,
            height > 0,
        ensures
            u@ == Grid::seeded(width as nat, height as nat),
            u@.wf(),
    {
        assert(width * height <= 0xffff * 0xffff) by (nonlinear_arith)
            requires
                width <= 0xffff,
                height <= 0xffff,
        ;
        let size: usize = (width as usize) * (height as usize);
        let mut cells1: Vec<bool> = Vec::new();
        let mut cells2: Vec<bool> = Vec::new();
        let mut i: usize = 0;
        while i < size
            invariant
                i <= size,
                cells1@.len() == i,
                cells2@.len() == i,
                forall|k: int| 0 <= k < i ==> cells1@[k] == seed_alive(k),
                forall|k: int| 0 <= k < i ==> cells2@[k] == seed_alive(k),
            decreases size - i,
        {
            let alive = i % 2 == 0 || i % 7 == 0;
            cells1.push(alive);
            cells2.push(alive);
            i += 1;
        }
        let u = Universe { width, height, switch: true, cells1, cells2 };
        assert(u@.cells =~= Grid::seeded(width as nat, height as nat).cells);
        u
    }

    /// Creates a universe of `width` by `height` cells that holds the
    /// initial pattern. A dimension of zero is rejected.
    pub fn new(width: u16, height: u16) -> (r: Result<Universe, ConfigError>)
        ensures
            match r {
                Ok(u) => width > 0 && height > 0 && u@.wf() && u@ == Grid::seeded(
                    width as nat,
                    height as nat,
                ),
                Err(ConfigError::ZeroWidth) => width == 0,
                Err(ConfigError::ZeroHeight) => width > 0 && height == 0,
            },
    {
        if width == 0 {
            Err(ConfigError::ZeroWidth)
        } else if height == 0 {
            Err(ConfigError::ZeroHeight)
        } else {
            Ok(Universe::seeded(width, height))
        }
    }

    /// Number of columns.
    pub fn width(&self) -> (w: u16)
        ensures
            w == self@.width,
            self@.wf(),
    {
        proof {
            use_type_invariant(self);
        }
        self.width
    }

    /// Number of rows.
    pub fn height(&self) -> (h: u16)
        ensures
            h == self@.height,
            self@.wf(),
    {
        proof {
            use_type_invariant(self);
        }
        self.height
    }

    /// Position of the cell `(row, col)` in the buffer that `cells` exposes.
    pub fn get_index(&self, row: u16, col: u16) -> (idx: usize)
        requires
            self@.in_bounds(row as int, col as int),
        ensures
            idx == self@.index(row as int, col as int),
            idx < self@.cells.len(),
    {
        proof {
            use_type_invariant(self);
            self@.lemma_index(row as int, col as int);
            assert(self@.cells.len() <= 0xffff * 0xffff) by (nonlinear_arith)
                requires
                    self@.cells.len() == self@.width * self@.height,
                    self@.width <= 0xffff,
                    self@.height <= 0xffff,
            ;
            assert(0 <= row * self.width) by (nonlinear_arith);
        }
        (row as usize) * (self.width as usize) + (col as usize)
    }

    /// The current generation as a buffer of one `bool` per cell, row by
    /// row; `true` is alive.
    pub fn cells(&self) -> (buffer: &[bool])
        ensures
            buffer@ == self@.cells,
            self@.wf(),
    {
        proof {
            use_type_invariant(self);
        }
        if self.switch {
            self.cells1.as_slice()
        } else {
            self.cells2.as_slice()
        }
    }

    /// Number of live cells among the eight neighbours of `(row, col)` on
    /// the torus, in the current generation.
    pub fn live_neighbor_count(&self, row: u16, col: u16) -> (count: u8)
        requires
            self@.in_bounds(row as int, col as int),
        ensures
            count == self@.live_neighbors(row as int, col as int),
            count <= 8,
    {
        proof {
            use_type_invariant(self);
            self@.lemma_live_neighbors_wrap(row as int, col as int);
        }
        let north: u16 = if row == 0 {
            self.height - 1
        } else {
            row - 1
        };
        let south: u16 = if row == self.height - 1 {
            0
        } else {
            row + 1
        };
        let east: u16 = if col == self.width - 1 {
            0
        } else {
            col + 1
        };
        let west: u16 = if col == 0 {
            self.width - 1
        } else {
            col - 1
        };

        let cells: &Vec<bool> = if self.switch {
            &self.cells1
        } else {
            &self.cells2
        };

        let mut count: u8 = 0;

        let n = self.get_index(north, col);
        if cells[n] {
            count += 1;
        }
        let ne = self.get_index(north, east);
        if cells[ne] {
            count += 1;
        }
        let nw = self.get_index(north, west);
        if cells[nw] {
            count += 1;
        }
        let s = self.get_index(south, col);
        if cells[s] {
            count += 1;
        }
        let se = self.get_index(south, east);
        if cells[se] {
            count += 1;
        }
        let sw = self.get_index(south, west);
        if cells[sw] {
            count += 1;
        }
        let e = self.get_index(row, east);
        if cells[e] {
            count += 1;
        }
        let w = self.get_index(row, west);
        if cells[w] {
            count += 1;
        }
        count
    }

    /// Advances the universe by one generation.
    ///
    /// Every cell of the next generation is computed from the current one,
    /// which stays untouched until all of them are written.
    pub fn tick(&mut self)
        ensures
            final(self)@ == old(self)@.step(),
            final(self)@.wf(),
    {
        proof {
            use_type_invariant(&*self);
            old(self)@.lemma_step();
        }
        let ghost before = self@;
        let mut row: u16 = 0;
        while row < self.height
            invariant
                self.inv(),
                self@ == before,
                before.wf(),
                row <= self.height,
                forall|i: int|
                    0 <= i < row * self.width ==> self.scratch()[i] == before.next_cell(i),
            decreases self.height - row,
        {
            let mut col: u16 = 0;
            while col < self.width
                invariant
                    self.inv(),
                    self@ == before,
                    before.wf(),
                    row < self.height,
                    col <= self.width,
                    forall|i: int|
                        0 <= i < row * self.width + col ==> self.scratch()[i] == before.next_cell(
                            i,
                        ),
                decreases self.width - col,
            {
                let idx = self.get_index(row, col);
                proof {
                    before.lemma_index(row as int, col as int);
                }

                let cell_now = if self.switch {
                    self.cells1[idx]
                } else {
                    self.cells2[idx]
                };
                let live_neighbors = self.live_neighbor_count(row, col);

                let cell_next = if cell_now && live_neighbors < 2 {
                    // A live cell with fewer than two live neighbours dies.
                    false
                } else if cell_now && (live_neighbors == 2 || live_neighbors == 3) {
                    // A live cell with two or three live neighbours lives on.
                    true
                } else if cell_now && live_neighbors > 3 {
                    // A live cell with more than three live neighbours dies.
                    false
                } else if !cell_now && live_neighbors == 3 {
                    // A dead cell with exactly three live neighbours is born.
                    true
                } else {
                    // Every other cell stays as it is.
                    cell_now
                };

                if !self.switch {
                    self.cells1[idx] = cell_next;
                } else {
                    self.cells2[idx] = cell_next;
                }
                col += 1;
            }
            assert(row * self.width + self.width == (row + 1) * self.width) by (nonlinear_arith);
            row += 1;
        }
        assert(self.height * self.width == self.width * self.height) by (nonlinear_arith);
        assert(self.scratch() =~= before.step().cells);

        self.switch = !self.switch;
    }

    /// Sets the state of the cell at `(row, col)` in the current generation.
    pub fn set_cell(&mut self, row: u16, col: u16, val: bool)
        requires
            old(self)@.in_bounds(row as int, col as int),
        ensures
            final(self)@ == old(self)@.with_cell(row as int, col as int, val),
            final(self)@.wf(),
    {
        proof {
            use_type_invariant(&*self);
        }
        let idx = self.get_index(row, col);
        if self.switch {
            self.cells1[idx] = val;
        } else {
            self.cells2[idx] = val;
        }
    }

    /// Brings every cell listed in `cells`, as `(row, col)`, to life in the
    /// current generation, and leaves every other cell as it is.
    pub fn set_cells(&mut self, cells: &[(u16, u16)])
        requires
            forall|k: int|
                0 <= k < cells@.len() ==> old(self)@.in_bounds(
                    (#[trigger] cells@[k]).0 as int,
                    cells@[k].1 as int,
                ),
        ensures
            final(self)@ == old(self)@.with_alive(cells@),
            final(self)@.wf(),
    {
        proof {
            use_type_invariant(&*self);
        }
        let ghost before = self@;
        let mut k: usize = 0;
        assert(self@.cells =~= before.with_alive(cells@.take(0)).cells);
        while k < cells.len()
            invariant
                k <= cells@.len(),
                before.wf(),
                forall|j: int|
                    0 <= j < cells@.len() ==> before.in_bounds(
                        (#[trigger] cells@[j]).0 as int,
                        cells@[j].1 as int,
                    ),
                self@ == before.with_alive(cells@.take(k as int)),
            decreases cells@.len() - k,
        {
            let (row, col) = cells[k];
            self.set_cell(row, col, true);
            proof {
                let later = before.with_alive(cells@.take(k + 1));
                assert forall|i: int| 0 <= i < before.cells.len() implies self@.cells[i]
                    == later.cells[i] by {
                    let w = before.width as int;
                    before.lemma_index(row as int, col as int);
                    before.lemma_coordinates(i);
                    lemma_listed_next(cells@, k as int, i / w, i % w);
                }
                assert(self@.cells =~= later.cells);
            }
            k += 1;
        }
        assert(cells@.take(k as int) =~= cells@);
    }

    /// Changes the number of columns and leaves every cell dead. A width of
    /// zero is rejected and changes nothing.
    pub fn set_width(&mut self, width: u16) -> (r: Result<(), ConfigError>)
        ensures
            match r {
                Ok(_) => width > 0 && final(self)@.wf() && final(self)@ == Grid::dead(
                    width as nat,
                    old(self)@.height,
                ),
                Err(ConfigError::ZeroWidth) => width == 0 && final(self)@ == old(self)@,
                Err(ConfigError::ZeroHeight) => false,
            },
    {
        proof {
            use_type_invariant(&*self);
        }
        if width == 0 {
            return Err(ConfigError::ZeroWidth);
        }
        let height = self.height;
        *self = Universe::cleared(width, height, self.switch);
        Ok(())
    }

    /// Changes the number of rows and leaves every cell dead. A height of
    /// zero is rejected and changes nothing.
    pub fn set_height(&mut self, height: u16) -> (r: Result<(), ConfigError>)
        ensures
            match r {
                Ok(_) => height > 0 && final(self)@.wf() && final(self)@ == Grid::dead(
                    old(self)@.width,
                    height as nat,
                ),
                Err(ConfigError::ZeroWidth) => false,
                Err(ConfigError::ZeroHeight) => height == 0 && final(self)@ == old(self)@,
            },
    {
        proof {
            use_type_invariant(&*self);
        }
        if height == 0 {
            return Err(ConfigError::ZeroHeight);
        }
        let width = self.width;
        *self = Universe::cleared(width, height, self.switch);
        Ok(())
    }

    /// Builds the universe of the given dimensions, which must be positive,
    /// with every cell dead in both buffers.
    fn cleared(width: u16, height: u16, switch: bool) -> (u: Universe)
        requires
            width > 0,
            height > 0,
        ensures
            u@ == Grid::dead(width as nat, height as nat),
            u@.wf(),
    {
        assert(width * height <= 0xffff * 0xffff) by (nonlinear_arith)
            requires
                width <= 0xffff,
                height <= 0xffff,
        ;
        let size: usize = (width as usize) * (height as usize);
        let cells1: Vec<bool> = vec![false; size];
        let cells2: Vec<bool> = vec![false; size];
        let u = Universe { width, height, switch, cells1, cells2 };
        assert(u@.cells =~= Grid::dead(width as nat, height as nat).cells);
        u
    }

    /// The buffer that does not hold the current generation.
    spec fn scratch(&self) -> Seq<bool> {
        if self.switch {
            self.cells2@
        } else {
            self.cells1@
        }
    }
}

impl Default for Universe {
    /// The universe of 128 by 128 cells that holds the initial pattern.
    fn default() -> (u: Universe)
        ensures
            u@ == Grid::seeded(128, 128),
            u@.wf(),
    {
        Universe::seeded(128, 128)
    }
}

/// The engine is deterministic: two universes that were created with the
/// same dimensions show the same cells, and after the same number of ticks
/// they show the same cells again, namely the generation that many steps
/// after the initial pattern.
pub proof fn lemma_deterministic(a: Universe, b: Universe, width: u16, height: u16, n: nat)
    requires
        a@ == Grid::seeded(width as nat, height as nat),
        b@ == Grid::seeded(width as nat, height as nat),
    ensures
        a@.cells == b@.cells,
        a@.steps(n) == b@.steps(n),
        a@.steps(n) == Grid::seeded(width as nat, height as nat).steps(n),
{
}

/// Listing one more coordinate pair adds that pair to what is listed and
/// nothing else.
proof fn lemma_listed_next(coords: Seq<(u16, u16)>, k: int, row: int, col: int)
    requires
        0 <= k < coords.len(),
    ensures
        listed(coords.take(k + 1), row, col) == (listed(coords.take(k), row, col) || (coords[k].0
            == row && coords[k].1 == col)),
{
    let shorter = coords.take(k);
    let longer = coords.take(k + 1);
    if listed(shorter, row, col) {
        let j = choose|j: int|
            0 <= j < shorter.len() && (#[trigger] shorter[j]).0 == row && shorter[j].1 == col;
        assert(longer[j] == shorter[j]);
    }
    if coords[k].0 == row && coords[k].1 == col {
        assert(longer[k] == coords[k]);
    }
    if listed(longer, row, col) {
        let j = choose|j: int|
            0 <= j < longer.len() && (#[trigger] longer[j]).0 == row && longer[j].1 == col;
        if j < k {
            assert(shorter[j] == longer[j]);
        }
    }
}

} // verus!
