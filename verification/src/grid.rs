//! The mathematical model of the grid: dimensions and a row-major sequence
//! of cells, with neighbour counting on the torus and the step function.

use vstd::prelude::*;
use crate::cell::Cell;

verus! {

/// A generation of the automaton, as a mathematical value.
pub struct Grid {
    pub width: nat,
    pub height: nat,
    pub cells: Seq<Cell>,
}

impl Grid {
    /// Both dimensions are positive and there is one cell per coordinate.
    pub open spec fn wf(self) -> bool {
        &&& self.width > 0
        &&& self.height > 0
        &&& self.cells.len() == self.width * self.height
    }

    /// Whether `(row, column)` is a coordinate of this grid.
    pub open spec fn contains(self, row: int, column: int) -> bool {
        0 <= row < self.height && 0 <= column < self.width
    }

    /// The row-major position of `(row, column)` in `cells`.
    pub open spec fn index(self, row: int, column: int) -> int {
        row * self.width + column
    }

    /// The cell at `(row, column)`.
    pub open spec fn at(self, row: int, column: int) -> Cell {
        self.cells[self.index(row, column)]
    }

    /// What the cell reached from `(row, column)` by the offset
    /// `(delta_row, delta_col)` adds to the count: its weight, after wrapping
    /// both coordinates around the edges. The offset `(0, 0)` is the cell
    /// itself and adds nothing.
    pub open spec fn neighbor(self, row: int, column: int, delta_row: int, delta_col: int) -> int {
        if delta_row == 0 && delta_col == 0 {
            0
        } else {
            self.at((row + delta_row) % (self.height as int), (column + delta_col) % (self.width as int)).weight()
        }
    }

    /// The part of the count that comes from the row at offset `delta_row`:
    /// one column back, the same column, one column forward.
    pub open spec fn neighbors_in_row(self, row: int, column: int, delta_row: int) -> int {
        self.neighbor(row, column, delta_row, self.width - 1)
            + self.neighbor(row, column, delta_row, 0)
            + self.neighbor(row, column, delta_row, 1)
    }

    /// The number of live cells around `(row, column)`: one row back, the same
    /// row, one row forward, where "back" is written as the offset that wraps
    /// around to it.
    pub open spec fn live_neighbors(self, row: int, column: int) -> int {
        self.neighbors_in_row(row, column, self.height - 1)
            + self.neighbors_in_row(row, column, 0)
            + self.neighbors_in_row(row, column, 1)
    }

    /// The state in the next generation of the cell at position `i`.
    pub open spec fn next_cell(self, i: int) -> Cell {
        self.cells[i].rule(self.live_neighbors(i / (self.width as int), i % (self.width as int)))
    }

    /// The next generation: every cell follows the rule, with its neighbours
    /// counted in this generation.
    pub open spec fn step(self) -> Grid {
        Grid {
            width: self.width,
            height: self.height,
            cells: Seq::new(self.cells.len(), |i: int| self.next_cell(i)),
        }
    }

    /// The generation reached after `n` steps.
    pub open spec fn after(self, n: nat) -> Grid
        decreases n,
    {
        if n == 0 {
            self
        } else {
            self.step().after((n - 1) as nat)
        }
    }

    /// The initial state of the cell at position `i`: alive where `i` is a
    /// multiple of 2 or of 7.
    pub open spec fn seed(i: int) -> Cell {
        if i % 2 == 0 || i % 7 == 0 {
            Cell::Alive
        } else {
            Cell::Dead
        }
    }

    /// The initial generation of a grid of the given dimensions.
    pub open spec fn seeded(width: nat, height: nat) -> Grid {
        Grid { width, height, cells: Seq::new(width * height, |i: int| Self::seed(i)) }
    }

    /// The text of one row: a glyph per cell, then a line break.
    pub open spec fn line(self, row: int) -> Seq<char> {
        Seq::new(self.width, |column: int| self.at(row, column).glyph()).push('\n')
    }

    /// The text of the first `rows` rows.
    pub open spec fn lines(self, rows: nat) -> Seq<char>
        decreases rows,
    {
        if rows == 0 {
            Seq::empty()
        } else {
            self.lines((rows - 1) as nat) + self.line(rows - 1)
        }
    }

    /// The text of the whole grid, row by row.
    pub open spec fn render(self) -> Seq<char> {
        self.lines(self.height)
    }
}

/// The position of a coordinate of the grid lies within `cells`, and the
/// coordinate is found again from it by division.
pub proof fn lemma_index(g: Grid, row: int, column: int)
    requires
        g.wf(),
        g.contains(row, column),
    ensures
        0 <= g.index(row, column) < g.cells.len(),
        g.index(row, column) / (g.width as int) == row,
        g.index(row, column) % (g.width as int) == column,
{
    let w = g.width as int;
    let h = g.height as int;
    assert(0 <= row * w && row * w + w <= h * w) by (nonlinear_arith)
        requires
            0 <= row < h,
            w > 0,
    ;
    vstd::arithmetic::div_mod::lemma_fundamental_div_mod_converse(row * w + column, w, row, column);
}

/// Every position within `cells` is the position of a coordinate of the grid.
pub proof fn lemma_coordinate(g: Grid, i: int)
    requires
        g.wf(),
        0 <= i < g.cells.len(),
    ensures
        g.contains(i / (g.width as int), i % (g.width as int)),
        g.index(i / (g.width as int), i % (g.width as int)) == i,
{
    let w = g.width as int;
    let h = g.height as int;
    vstd::arithmetic::div_mod::lemma_fundamental_div_mod(i, w);
    vstd::arithmetic::div_mod::lemma_mod_bound(i, w);
    assert(0 <= i / w < h) by (nonlinear_arith)
        requires
            0 <= i < w * h,
            w > 0,
    ;
    assert(w * (i / w) == (i / w) * w) by (nonlinear_arith);
}

} // verus!
