//! What holds of every grid and every generation.

use vstd::prelude::*;
use crate::cell::Cell;
use crate::grid::{lemma_coordinate, Grid};
use crate::universe::Universe;

verus! {

/// The coordinate one step forward of `x` on a ring of `m` places.
pub open spec fn forward(x: int, m: int) -> int {
    if x + 1 == m {
        0
    } else {
        x + 1
    }
}

/// The coordinate one step back of `x` on a ring of `m` places.
pub open spec fn back(x: int, m: int) -> int {
    if x == 0 {
        m - 1
    } else {
        x - 1
    }
}

/// A coordinate moved by an offset of at most one grid length wraps around to
/// a coordinate of the grid: it stays, or comes back in from the other edge.
proof fn lemma_wrap(x: int, delta: int, m: int)
    requires
        m > 0,
        0 <= x < m,
        0 <= delta <= m,
    ensures
        0 <= (x + delta) % m < m,
        (x + delta) % m == if x + delta < m {
            x + delta
        } else {
            x + delta - m
        },
{
    if x + delta < m {
        vstd::arithmetic::div_mod::lemma_small_mod((x + delta) as nat, m as nat);
    } else {
        vstd::arithmetic::div_mod::lemma_fundamental_div_mod_converse(x + delta, m, 1, x + delta - m);
    }
}

/// The three offsets by which neighbours are counted lead one step back, to
/// the same place, and one step forward on the ring.
pub proof fn lemma_offsets(x: int, m: int)
    requires
        0 <= x < m,
    ensures
        (x + (m - 1)) % m == back(x, m),
        (x + 0) % m == x,
        (x + 1) % m == forward(x, m),
        0 <= back(x, m) < m,
        0 <= forward(x, m) < m,
{
    lemma_wrap(x, m - 1, m);
    lemma_wrap(x, 0, m);
    lemma_wrap(x, 1, m);
}

/// A step keeps the dimensions of a grid, and with them the number of its
/// cells: one per coordinate.
pub proof fn step_keeps_shape(g: Grid)
    requires
        g.wf(),
    ensures
        g.step().wf(),
        g.step().width == g.width,
        g.step().height == g.height,
        g.step().cells.len() == g.width * g.height,
{
}

/// Every generation of a grid has the grid's dimensions and one cell per
/// coordinate.
pub proof fn every_generation_keeps_shape(g: Grid, n: nat)
    requires
        g.wf(),
    ensures
        g.after(n).wf(),
        g.after(n).width == g.width,
        g.after(n).height == g.height,
        g.after(n).cells.len() == g.width * g.height,
    decreases n,
{
    if n > 0 {
        step_keeps_shape(g);
        every_generation_keeps_shape(g.step(), (n - 1) as nat);
    }
}

/// One more step after `n` steps gives the generation after `n + 1` steps:
/// a universe that has ticked `n + 1` times holds `after(n + 1)` of what it
/// started with.
pub proof fn step_after(g: Grid, n: nat)
    ensures
        g.after(n).step() == g.after(n + 1),
    decreases n,
{
    assert(g.after(n + 1) == g.step().after(n));
    if n > 0 {
        step_after(g.step(), (n - 1) as nat);
    } else {
        assert(g.step().after(0) == g.step());
    }
}

/// Two universes made with the same dimensions start in the same generation
/// and are in the same generation after the same number of steps.
pub proof fn same_dimensions_same_generations(
    first: Universe,
    second: Universe,
    width: u32,
    height: u32,
    n: nat,
)
    requires
        first@ == Grid::seeded(width as nat, height as nat),
        second@ == Grid::seeded(width as nat, height as nat),
    ensures
        first@ == second@,
        first@.after(n) == second@.after(n),
{
}

/// In every generation, every cell has between zero and eight live
/// neighbours.
pub proof fn live_neighbors_bounded(g: Grid, n: nat, row: int, column: int)
    ensures
        0 <= g.after(n).live_neighbors(row, column) <= 8,
{
}

/// The rule, row by row: each pair of a state and a count falls under
/// exactly one row, which gives its next state.
pub proof fn rule_table(cell: Cell, n: int)
    ensures
        cell == Cell::Alive && n < 2 ==> cell.rule(n) == Cell::Dead,
        cell == Cell::Alive && (n == 2 || n == 3) ==> cell.rule(n) == Cell::Alive,
        cell == Cell::Alive && n > 3 ==> cell.rule(n) == Cell::Dead,
        cell == Cell::Dead && n == 3 ==> cell.rule(n) == Cell::Alive,
        cell == Cell::Dead && n != 3 ==> cell.rule(n) == Cell::Dead,
        (cell == Cell::Alive && n < 2) || (cell == Cell::Alive && (n == 2 || n == 3)) || (cell
            == Cell::Alive && n > 3) || (cell == Cell::Dead && n == 3) || (cell == Cell::Dead && n
            != 3),
{
}

/// The only live cell of `g` is the one at `(row, column)`.
pub open spec fn single_live_cell(g: Grid, row: int, column: int) -> bool {
    forall|r: int, c: int|
        g.contains(r, c) ==> ((#[trigger] g.at(r, c)) == Cell::Alive <==> r == row && c == column)
}

/// The grid wraps around its edges: where the only live cell is the one at
/// `(0, 0)`, the cells in the last row and the last column that touch it
/// across the edges count it as a neighbour, once where the grid is at least
/// three cells wide and high.
pub proof fn torus_wraparound(g: Grid)
    requires
        g.wf(),
        g.width >= 2,
        g.height >= 2,
        single_live_cell(g, 0, 0),
    ensures
        g.live_neighbors(g.height - 1, g.width - 1) >= 1,
        g.live_neighbors(g.height - 1, 0) >= 1,
        g.live_neighbors(0, g.width - 1) >= 1,
        g.width >= 3 && g.height >= 3 ==> {
            &&& g.live_neighbors(g.height - 1, g.width - 1) == 1
            &&& g.live_neighbors(g.height - 1, 0) == 1
            &&& g.live_neighbors(0, g.width - 1) == 1
        },
{
    let w = g.width as int;
    let h = g.height as int;
    lemma_offsets(h - 1, h);
    lemma_offsets(0, h);
    lemma_offsets(w - 1, w);
    lemma_offsets(0, w);
}

/// The live cells of `g` are the four of the block of two by two cells whose
/// first cell is `(row, column)`; the block may reach across an edge.
pub open spec fn is_block(g: Grid, row: int, column: int) -> bool {
    forall|r: int, c: int|
        g.contains(r, c) ==> ((#[trigger] g.at(r, c)) == Cell::Alive <==> (r == row || r == forward(
            row,
            g.height as int,
        )) && (c == column || c == forward(column, g.width as int)))
}

/// In a grid that holds a block and nothing else, every cell keeps its state.
proof fn lemma_block_cell(g: Grid, row: int, column: int, r: int, c: int)
    requires
        g.wf(),
        g.width >= 4,
        g.height >= 4,
        g.contains(row, column),
        is_block(g, row, column),
        g.contains(r, c),
    ensures
        g.at(r, c).rule(g.live_neighbors(r, c)) == g.at(r, c),
{
    let w = g.width as int;
    let h = g.height as int;
    lemma_offsets(r, h);
    lemma_offsets(c, w);
}

/// A block of two by two live cells, alone on a grid of at least four by four
/// cells, is still: the grid is the same after any number of steps.
pub proof fn block_is_still(g: Grid, row: int, column: int, n: nat)
    requires
        g.wf(),
        g.width >= 4,
        g.height >= 4,
        g.contains(row, column),
        is_block(g, row, column),
    ensures
        g.after(n) == g,
    decreases n,
{
    if n > 0 {
        assert forall|i: int| 0 <= i < g.cells.len() implies g.next_cell(i) == g.cells[i] by {
            lemma_coordinate(g, i);
            lemma_block_cell(g, row, column, i / (g.width as int), i % (g.width as int));
        }
        assert(g.step().cells =~= g.cells);
        block_is_still(g, row, column, (n - 1) as nat);
    }
}

} // verus!
