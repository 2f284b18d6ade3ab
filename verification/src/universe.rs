//! The executable automaton: a grid that owns its cells and advances one
//! generation at a time.

use vstd::prelude::*;
use vstd::string::*;
use crate::cell::Cell;
use vstd::arithmetic::div_mod::lemma_mod_bound;
use crate::grid::{lemma_index, Grid};

verus! {

/// Why a universe could not be constructed.
#[derive(Clone, Copy, Debug, PartialEq, Eq, Structural)]
pub enum ConfigError {
    /// The width or the height is zero.
    ZeroDimension,
    /// There are more cells than a vector can hold.
    TooLarge,
    /// The cells handed over are not one per coordinate.
    LengthMismatch,
}

/// A grid of fixed dimensions on a torus, holding the current generation.
#[derive(Debug)]
pub struct Universe {
    width: u32,
    height: u32,
    cells: Vec<Cell>,
}

impl View for Universe {
    type V = Grid;

    closed spec fn view(&self) -> Grid {
        Grid { width: self.width as nat, height: self.height as nat, cells: self.cells@ }
    }
}

impl Universe {
    /// Both dimensions are positive and there is one cell per coordinate.
    #[verifier::type_invariant]
    closed spec fn well_formed(&self) -> bool {
        self@.wf()
    }

    /// The universe of 64 by 64 cells in its initial generation.
    pub fn new() -> (universe: Universe)
        ensures
            universe@ == Grid::seeded(64, 64),
            universe@.wf(),
    {
        let cells = Self::seeded_cells(4096);
        Universe { width: 64, height: 64, cells }
    }

    /// A universe of the given dimensions in its initial generation, where
    /// both dimensions are positive and a vector can hold the cells.
    pub fn with_size(width: u32, height: u32) -> (result: Result<Universe, ConfigError>)
        ensures
            width == 0 || height == 0 ==> result == Err::<Universe, ConfigError>(
                ConfigError::ZeroDimension,
            ),
            width > 0 && height > 0 && width * height > isize::MAX ==> result == Err::<
                Universe,
                ConfigError,
            >(ConfigError::TooLarge),
            width > 0 && height > 0 && width * height <= isize::MAX ==> result is Ok
                && result->Ok_0@ == Grid::seeded(width as nat, height as nat)
                && result->Ok_0@.wf(),
    {
        if width == 0 || height == 0 {
            return Err(ConfigError::ZeroDimension);
        }
        assert(width * height <= u64::MAX) by (nonlinear_arith)
            requires
                width <= u32::MAX,
                height <= u32::MAX,
        ;
        let total: u64 = width as u64 * height as u64;
        if total > isize::MAX as u64 {
            return Err(ConfigError::TooLarge);
        }
        let cells = Self::seeded_cells(total as usize);
        Ok(Universe { width, height, cells })
    }

    /// A universe of the given dimensions whose current generation is
    /// `cells`, in row-major order, where both dimensions are positive and
    /// there is one cell per coordinate.
    pub fn from_cells(width: u32, height: u32, cells: Vec<Cell>) -> (result: Result<
        Universe,
        ConfigError,
    >)
        ensures
            width == 0 || height == 0 ==> result == Err::<Universe, ConfigError>(
                ConfigError::ZeroDimension,
            ),
            width > 0 && height > 0 && cells@.len() != width * height ==> result == Err::<
                Universe,
                ConfigError,
            >(ConfigError::LengthMismatch),
            width > 0 && height > 0 && cells@.len() == width * height ==> result is Ok
                && result->Ok_0@ == (Grid {
                width: width as nat,
                height: height as nat,
                cells: cells@,
            }) && result->Ok_0@.wf(),
    {
        if width == 0 || height == 0 {
            return Err(ConfigError::ZeroDimension);
        }
        assert(width * height <= u64::MAX) by (nonlinear_arith)
            requires
                width <= u32::MAX,
                height <= u32::MAX,
        ;
        let total: u64 = width as u64 * height as u64;
        if cells.len() as u64 != total {
            return Err(ConfigError::LengthMismatch);
        }
        Ok(Universe { width, height, cells })
    }

    /// The first `total` cells of the initial generation.
    fn seeded_cells(total: usize) -> (cells: Vec<Cell>)
        ensures
            cells@ == Seq::new(total as nat, |i: int| Grid::seed(i)),
    {
        let mut cells: Vec<Cell> = Vec::new();
        let mut i: usize = 0;
        while i < total
            invariant
                i <= total,
                cells@ == Seq::new(i as nat, |k: int| Grid::seed(k)),
            decreases total - i,
        {
            let cell = if i % 2 == 0 || i % 7 == 0 {
                Cell::Alive
            } else {
                Cell::Dead
            };
            cells.push(cell);
            i += 1;
            assert(cells@ =~= Seq::new(i as nat, |k: int| Grid::seed(k)));
        }
        cells
    }

    /// The width of the grid, in cells.
    pub fn width(&self) -> (width: u32)
        ensures
            width == self@.width,
            self@.wf(),
    {
        proof {
            use_type_invariant(self);
        }
        self.width
    }

    /// The height of the grid, in cells.
    pub fn height(&self) -> (height: u32)
        ensures
            height == self@.height,
            self@.wf(),
    {
        proof {
            use_type_invariant(self);
        }
        self.height
    }

    /// The cells of the current generation, in row-major order.
    pub fn cells(&self) -> (cells: &[Cell])
        ensures
            cells@ == self@.cells,
            cells@.len() == self@.width * self@.height,
    {
        proof {
            use_type_invariant(self);
        }
        self.cells.as_slice()
    }

    /// The text of the current generation: one line per row, one glyph per
    /// cell.
    pub fn render(&self) -> (text: String)
        ensures
            text@ == self@.render(),
    {
        proof {
            use_type_invariant(self);
        }
        let ghost grid = self@;
        let mut text = String::new();
        let mut row: u32 = 0;
        while row < self.height
            invariant
                self@ == grid,
                grid.wf(),
                row <= self.height,
                text@ == grid.lines(row as nat),
            decreases self.height - row,
        {
            let ghost start = text@;
            let mut col: u32 = 0;
            while col < self.width
                invariant
                    self@ == grid,
                    grid.wf(),
                    row < self.height,
                    col <= self.width,
                    text@ == start + Seq::new(
                        col as nat,
                        |column: int| grid.at(row as int, column).glyph(),
                    ),
                decreases self.width - col,
            {
                let idx = self.get_index(row, col);
                let ghost line = text@;
                if self.cells[idx].is_alive() {
                    text.append("\u{25FC}");
                } else {
                    text.append("\u{25FB}");
                }
                proof {
                    reveal_strlit("\u{25FC}");
                    reveal_strlit("\u{25FB}");
                    assert(text@ =~= line.push(grid.at(row as int, col as int).glyph()));
                    assert(text@ =~= start + Seq::new(
                        (col + 1) as nat,
                        |column: int| grid.at(row as int, column).glyph(),
                    ));
                }
                col += 1;
            }
            text.append("\n");
            proof {
                reveal_strlit("\n");
                assert(text@ =~= start + grid.line(row as int));
            }
            row += 1;
        }
        text
    }

    /// The position in `cells` of the coordinate `(row, column)`.
    pub fn get_index(&self, row: u32, column: u32) -> (index: usize)
        requires
            self@.contains(row as int, column as int),
        ensures
            index == self@.index(row as int, column as int),
            index < self@.cells.len(),
    {
        proof {
            use_type_invariant(self);
            lemma_index(self@, row as int, column as int);
            assert(0 <= row * self.width) by (nonlinear_arith);
            assert(self.cells.len() <= usize::MAX);
        }
        row as usize * self.width as usize + column as usize
    }

    /// What one offset adds to the live-neighbour count of `(row, column)`.
    fn neighbor(&self, row: u32, column: u32, delta_row: u32, delta_col: u32) -> (count: u8)
        ensures
            count == self@.neighbor(row as int, column as int, delta_row as int, delta_col as int),
            count <= 1,
    {
        if delta_row == 0 && delta_col == 0 {
            return 0;
        }
        proof {
            use_type_invariant(self);
            lemma_mod_bound(row + delta_row, self.height as int);
            lemma_mod_bound(column + delta_col, self.width as int);
        }
        let neighbor_row = ((row as u64 + delta_row as u64) % (self.height as u64)) as u32;
        let neighbor_col = ((column as u64 + delta_col as u64) % (self.width as u64)) as u32;
        let idx = self.get_index(neighbor_row, neighbor_col);
        if self.cells[idx].is_alive() {
            1
        } else {
            0
        }
    }

    /// What the row at offset `delta_row` adds to the live-neighbour count of
    /// `(row, column)`.
    fn neighbors_in_row(&self, row: u32, column: u32, delta_row: u32) -> (count: u8)
        ensures
            count == self@.neighbors_in_row(row as int, column as int, delta_row as int),
            count <= 3,
            delta_row == 0 ==> count <= 2,
    {
        proof {
            use_type_invariant(self);
        }
        let back = self.neighbor(row, column, delta_row, self.width - 1);
        let same = self.neighbor(row, column, delta_row, 0);
        let forward = self.neighbor(row, column, delta_row, 1);
        back + same + forward
    }

    /// The number of live cells among the eight neighbours of `(row, column)`
    /// on the torus. A coordinate beyond the grid wraps around like any
    /// other.
    pub fn live_neighbor_count(&self, row: u32, column: u32) -> (count: u8)
        ensures
            count == self@.live_neighbors(row as int, column as int),
            count <= 8,
    {
        proof {
            use_type_invariant(self);
        }
        let back = self.neighbors_in_row(row, column, self.height - 1);
        let same = self.neighbors_in_row(row, column, 0);
        let forward = self.neighbors_in_row(row, column, 1);
        back + same + forward
    }

    /// Advances the universe by one generation.
    pub fn tick(&mut self)
        ensures
            final(self)@ == old(self)@.step(),
            final(self)@.wf(),
    {
        proof {
            use_type_invariant(&*self);
        }
        let mut next = self.cells.clone();
        let ghost before = self@;
        let mut row: u32 = 0;
        while row < self.height
            invariant
                self@ == before,
                before.wf(),
                row <= self.height,
                next@.len() == before.cells.len(),
                forall|i: int| 0 <= i < row * self.width ==> next@[i] == before.next_cell(i),
            decreases self.height - row,
        {
            let mut col: u32 = 0;
            while col < self.width
                invariant
                    self@ == before,
                    before.wf(),
                    row < self.height,
                    col <= self.width,
                    next@.len() == before.cells.len(),
                    forall|i: int| 0 <= i < row * self.width + col ==> next@[i] == before.next_cell(i),
                decreases self.width - col,
            {
                let idx = self.get_index(row, col);
                let cell = self.cells[idx];
                let live_neighbors = self.live_neighbor_count(row, col);
                let next_cell = cell.next_state(live_neighbors);
                proof {
                    lemma_index(before, row as int, col as int);
                }
                next.set(idx, next_cell);
                col += 1;
            }
            proof {
                assert(row * self.width + self.width == (row + 1) * self.width) by (nonlinear_arith);
            }
            row += 1;
        }
        proof {
            assert(row * self.width == before.cells.len()) by (nonlinear_arith)
                requires
                    row == self.height,
                    before.cells.len() == self.width * self.height,
            ;
            assert(next@ =~= before.step().cells);
        }
        self.cells = next;
    }
}

} // verus!
