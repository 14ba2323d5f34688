//! Two classic patterns and what the transition rule does to them on a
//! torus: the block, which never changes, and the blinker, which turns by a
//! quarter with every generation.

use crate::grid::{lemma_same_cells, next_state, population, ring_next, ring_prev, Grid};
use vstd::prelude::*;

verus! {

/// A pattern says of every cell whether it is alive.
pub type Pattern = spec_fn(int, int) -> bool;

/// The live cells of the grid are exactly the cells of the pattern.
pub open spec fn shows(g: Grid, pattern: Pattern) -> bool {
    &&& g.wf()
    &&& forall|row: int, col: int|
        g.in_bounds(row, col) ==> #[trigger] g.alive(row, col) == pattern(row, col)
}

/// Number of cells of the pattern among the eight neighbours of
/// `(row, col)` on a torus of `height` rows and `width` columns.
pub open spec fn neighbors_in(pattern: Pattern, height: int, width: int, row: int, col: int) -> nat {
    let north = ring_prev(row, height);
    let south = ring_next(row, height);
    let west = ring_prev(col, width);
    let east = ring_next(col, width);
    population(pattern(north, west)) + population(pattern(north, col)) + population(
        pattern(north, east),
    ) + population(pattern(row, west)) + population(pattern(row, east)) + population(
        pattern(south, west),
    ) + population(pattern(south, col)) + population(pattern(south, east))
}

/// What the transition rule makes of the cell `(row, col)` of the pattern
/// on a torus of `height` rows and `width` columns.
pub open spec fn next_in(pattern: Pattern, height: int, width: int, row: int, col: int) -> bool {
    next_state(pattern(row, col), neighbors_in(pattern, height, width, row, col))
}

/// The two-by-two block whose upper left cell is `(top, left)`. The block
/// may reach across an edge of the torus.
pub open spec fn block(height: int, width: int, top: int, left: int) -> Pattern {
    |row: int, col: int|
        (row == top || row == ring_next(top, height)) && (col == left || col == ring_next(
            left,
            width,
        ))
}

/// The row of three cells centred on `(mid_row, mid_col)`.
pub open spec fn horizontal_blinker(width: int, mid_row: int, mid_col: int) -> Pattern {
    |row: int, col: int|
        row == mid_row && (col == ring_prev(mid_col, width) || col == mid_col || col == ring_next(
            mid_col,
            width,
        ))
}

/// The column of three cells centred on `(mid_row, mid_col)`.
pub open spec fn vertical_blinker(height: int, mid_row: int, mid_col: int) -> Pattern {
    |row: int, col: int|
        col == mid_col && (row == ring_prev(mid_row, height) || row == mid_row || row == ring_next(
            mid_row,
            height,
        ))
}

/// The grid holds the block with upper left cell `(top, left)` and nothing
/// else.
pub open spec fn is_block(g: Grid, top: int, left: int) -> bool {
    g.in_bounds(top, left) && shows(g, block(g.height as int, g.width as int, top, left))
}

/// The grid holds the horizontal blinker centred on `(mid_row, mid_col)`
/// and nothing else.
pub open spec fn is_horizontal_blinker(g: Grid, mid_row: int, mid_col: int) -> bool {
    g.in_bounds(mid_row, mid_col) && shows(g, horizontal_blinker(g.width as int, mid_row, mid_col))
}

/// The grid holds the vertical blinker centred on `(mid_row, mid_col)` and
/// nothing else.
pub open spec fn is_vertical_blinker(g: Grid, mid_row: int, mid_col: int) -> bool {
    g.in_bounds(mid_row, mid_col) && shows(g, vertical_blinker(g.height as int, mid_row, mid_col))
}

/// On a grid that shows a pattern, a cell has as many live neighbours as
/// the pattern has cells around it.
pub proof fn lemma_neighbors_of_pattern(g: Grid, pattern: Pattern, row: int, col: int)
    requires
        shows(g, pattern),
        g.in_bounds(row, col),
    ensures
        g.alive(row, col) == pattern(row, col),
        g.live_neighbors(row, col) == neighbors_in(
            pattern,
            g.height as int,
            g.width as int,
            row,
            col,
        ),
{
    let north = ring_prev(row, g.height as int);
    let south = ring_next(row, g.height as int);
    let west = ring_prev(col, g.width as int);
    let east = ring_next(col, g.width as int);
    assert(g.alive(north, west) == pattern(north, west));
    assert(g.alive(north, col) == pattern(north, col));
    assert(g.alive(north, east) == pattern(north, east));
    assert(g.alive(row, west) == pattern(row, west));
    assert(g.alive(row, east) == pattern(row, east));
    assert(g.alive(south, west) == pattern(south, west));
    assert(g.alive(south, col) == pattern(south, col));
    assert(g.alive(south, east) == pattern(south, east));
    g.lemma_live_neighbors_wrap(row, col);
}

/// A step takes a grid that shows one pattern to a grid that shows
/// another, if the transition rule takes every cell of the first pattern to
/// its state in the second.
pub proof fn lemma_step_of_pattern(g: Grid, before: Pattern, after: Pattern)
    requires
        shows(g, before),
        forall|row: int, col: int|
            g.in_bounds(row, col) ==> #[trigger] after(row, col) == next_in(
                before,
                g.height as int,
                g.width as int,
                row,
                col,
            ),
    ensures
        shows(g.step(), after),
{
    g.lemma_step();
    assert forall|row: int, col: int| g.in_bounds(row, col) implies #[trigger] g.step().alive(
        row,
        col,
    ) == after(row, col) by {
        lemma_neighbors_of_pattern(g, before, row, col);
        assert(after(row, col) == next_in(before, g.height as int, g.width as int, row, col));
    }
}

/// On a torus of at least three rows and three columns, the transition
/// rule keeps every cell of a block alive and every cell outside it dead.
proof fn lemma_block_rule(height: int, width: int, top: int, left: int, row: int, col: int)
    requires
        height >= 3,
        width >= 3,
        0 <= top < height,
        0 <= left < width,
        0 <= row < height,
        0 <= col < width,
    ensures
        next_in(block(height, width, top, left), height, width, row, col) == block(
            height,
            width,
            top,
            left,
        )(row, col),
{
}

/// On a torus of at least four rows and four columns, the transition rule
/// takes a row of three cells to the column of three cells with the same
/// centre.
proof fn lemma_horizontal_blinker_rule(
    height: int,
    width: int,
    mid_row: int,
    mid_col: int,
    row: int,
    col: int,
)
    requires
        height >= 4,
        width >= 4,
        0 <= mid_row < height,
        0 <= mid_col < width,
        0 <= row < height,
        0 <= col < width,
    ensures
        next_in(horizontal_blinker(width, mid_row, mid_col), height, width, row, col)
            == vertical_blinker(height, mid_row, mid_col)(row, col),
{
}

/// On a torus of at least four rows and four columns, the transition rule
/// takes a column of three cells to the row of three cells with the same
/// centre.
proof fn lemma_vertical_blinker_rule(
    height: int,
    width: int,
    mid_row: int,
    mid_col: int,
    row: int,
    col: int,
)
    requires
        height >= 4,
        width >= 4,
        0 <= mid_row < height,
        0 <= mid_col < width,
        0 <= row < height,
        0 <= col < width,
    ensures
        next_in(vertical_blinker(height, mid_row, mid_col), height, width, row, col)
            == horizontal_blinker(width, mid_row, mid_col)(row, col),
{
}

/// A block is a still life: on a grid of at least three rows and three
/// columns that holds a block and nothing else, wherever the block lies, a
/// step changes nothing.
pub proof fn lemma_block_is_still_life(g: Grid, top: int, left: int)
    requires
        is_block(g, top, left),
        g.width >= 3,
        g.height >= 3,
    ensures
        g.step() == g,
{
    let h = g.height as int;
    let w = g.width as int;
    let pattern = block(h, w, top, left);
    assert forall|row: int, col: int| g.in_bounds(row, col) implies #[trigger] pattern(row, col)
        == next_in(pattern, h, w, row, col) by {
        lemma_block_rule(h, w, top, left, row, col);
    }
    lemma_step_of_pattern(g, pattern, pattern);
    g.lemma_step();
    lemma_same_cells(g.step(), g);
}

/// On a grid of at least four rows and four columns that holds a horizontal
/// blinker and nothing else, one step leaves the vertical blinker with the
/// same centre and nothing else.
pub proof fn lemma_horizontal_blinker_turns(g: Grid, mid_row: int, mid_col: int)
    requires
        is_horizontal_blinker(g, mid_row, mid_col),
        g.width >= 4,
        g.height >= 4,
    ensures
        is_vertical_blinker(g.step(), mid_row, mid_col),
{
    let h = g.height as int;
    let w = g.width as int;
    let before = horizontal_blinker(w, mid_row, mid_col);
    let after = vertical_blinker(h, mid_row, mid_col);
    assert forall|row: int, col: int| g.in_bounds(row, col) implies #[trigger] after(row, col)
        == next_in(before, h, w, row, col) by {
        lemma_horizontal_blinker_rule(h, w, mid_row, mid_col, row, col);
    }
    lemma_step_of_pattern(g, before, after);
    g.lemma_step();
}

/// On a grid of at least four rows and four columns that holds a vertical
/// blinker and nothing else, one step leaves the horizontal blinker with
/// the same centre and nothing else.
pub proof fn lemma_vertical_blinker_turns(g: Grid, mid_row: int, mid_col: int)
    requires
        is_vertical_blinker(g, mid_row, mid_col),
        g.width >= 4,
        g.height >= 4,
    ensures
        is_horizontal_blinker(g.step(), mid_row, mid_col),
{
    let h = g.height as int;
    let w = g.width as int;
    let before = vertical_blinker(h, mid_row, mid_col);
    let after = horizontal_blinker(w, mid_row, mid_col);
    assert forall|row: int, col: int| g.in_bounds(row, col) implies #[trigger] after(row, col)
        == next_in(before, h, w, row, col) by {
        lemma_vertical_blinker_rule(h, w, mid_row, mid_col, row, col);
    }
    lemma_step_of_pattern(g, before, after);
    g.lemma_step();
}

/// A blinker oscillates with period two: on a grid of at least four rows
/// and four columns that holds a blinker and nothing else, in either
/// orientation, two steps lead back to the same grid.
pub proof fn lemma_blinker_has_period_two(g: Grid, mid_row: int, mid_col: int)
    requires
        is_horizontal_blinker(g, mid_row, mid_col) || is_vertical_blinker(g, mid_row, mid_col),
        g.width >= 4,
        g.height >= 4,
    ensures
        g.steps(2) == g,
{
    let once = g.step();
    let twice = once.step();
    g.lemma_step();
    once.lemma_step();
    if is_horizontal_blinker(g, mid_row, mid_col) {
        lemma_horizontal_blinker_turns(g, mid_row, mid_col);
        lemma_vertical_blinker_turns(once, mid_row, mid_col);
    } else {
        lemma_vertical_blinker_turns(g, mid_row, mid_col);
        lemma_horizontal_blinker_turns(once, mid_row, mid_col);
    }
    lemma_same_cells(twice, g);
    assert(g.steps(2) == twice) by {
        reveal_with_fuel(Grid::steps, 3);
    }
}

} // verus!
