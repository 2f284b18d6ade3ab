//! Conway's Game of Life on a fixed-size toroidal grid.
//!
//! The grid is modelled mathematically by [`grid::Grid`]; the executable
//! [`universe::Universe`] is specified against that model.

use vstd::prelude::*;
use vstd::string::*;

pub mod cell;
pub mod grid;
pub mod laws;
pub mod universe;

pub use crate::cell::Cell;
pub use crate::grid::Grid;
pub use crate::universe::{ConfigError, Universe};

verus! {

/// The text of the greeting for `name`.
pub open spec fn greeting(name: Seq<char>) -> Seq<char> {
    "Hello, "@ + name + "!"@
}

/// Builds the greeting shown to the visitor called `name`.
pub fn greet(name: &str) -> (message: String)
    ensures
        message@ == greeting(name@),
{
    let mut message = String::from_str("Hello, ");
    message.append(name);
    message.append("!");
    message
}

/// The sum of `left` and `right`.
pub fn add(left: usize, right: usize) -> (sum: usize)
    requires
        left + right <= usize::MAX,
    ensures
        sum == left + right,
{
    left + right
}

} // verus!
