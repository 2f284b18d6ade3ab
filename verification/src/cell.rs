//! A single cell and the local transition rule.

use vstd::prelude::*;

verus! {

/// The state of one cell of the grid.
#[derive(Clone, Copy, Debug, PartialEq, Eq, Structural)]
pub enum Cell {
    Dead,
    Alive,
}

impl Cell {
    /// How much this cell adds to the live-neighbour count of an adjacent cell.
    pub open spec fn weight(self) -> int {
        match self {
            Cell::Dead => 0,
            Cell::Alive => 1,
        }
    }

    /// The transition rule: the state in the next generation of a cell that
    /// now has `live_neighbors` live cells around it.
    ///
    /// A live cell survives with two or three live neighbours; a dead cell
    /// comes alive with exactly three. Every other cell is dead in the next
    /// generation.
    pub open spec fn rule(self, live_neighbors: int) -> Cell {
        match self {
            Cell::Alive => if live_neighbors == 2 || live_neighbors == 3 {
                Cell::Alive
            } else {
                Cell::Dead
            },
            Cell::Dead => if live_neighbors == 3 {
                Cell::Alive
            } else {
                Cell::Dead
            },
        }
    }

    /// The character that stands for the cell in the text of a grid.
    pub open spec fn glyph(self) -> char {
        match self {
            Cell::Dead => '\u{25FB}',
            Cell::Alive => '\u{25FC}',
        }
    }

    /// Whether the cell is alive.
    pub fn is_alive(self) -> (alive: bool)
        ensures
            alive == (self == Cell::Alive),
            alive == (self.weight() == 1),
    {
        match self {
            Cell::Alive => true,
            Cell::Dead => false,
        }
    }

    /// Applies the transition rule to one cell.
    pub fn next_state(self, live_neighbors: u8) -> (next: Cell)
        ensures
            next == self.rule(live_neighbors as int),
    {
        match self {
            Cell::Alive => {
                if live_neighbors < 2 {
                    Cell::Dead
                } else if live_neighbors <= 3 {
                    Cell::Alive
                } else {
                    Cell::Dead
                }
            },
            Cell::Dead => {
                if live_neighbors == 3 {
                    Cell::Alive
                } else {
                    Cell::Dead
                }
            },
        }
    }
}

} // verus!
