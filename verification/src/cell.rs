//! The two cell states and the error taxonomy shared by both engines.

use vstd::prelude::*;

verus! {

/// A single grid cell: exactly two states exist.
#[derive(Clone, Copy, Debug, PartialEq, Eq, Structural)]
pub enum Cell {
    Dead,
    Alive,
}

/// What can go wrong at the engine's boundary.
///
/// `ConfigurationError`: zero or oversized dimensions at construction or
/// resize.  `IndexError`: a coordinate outside `[0, width) x [0, height)`
/// handed to a direct cell edit.  The transition itself is total: `tick`
/// cannot fail on a well-formed grid.
#[derive(Clone, Copy, Debug, PartialEq, Eq, Structural)]
pub enum GridError {
    ConfigurationError,
    IndexError,
}

/// The abstract value of a cell: `true` means alive.
pub open spec fn cell_alive(c: Cell) -> bool {
    c is Alive
}

/// The executable counterpart of `cell_alive`.
pub fn cell_is_alive(c: Cell) -> (r: bool)
    ensures
        r == cell_alive(c),
{
    match c {
        Cell::Alive => true,
        Cell::Dead => false,
    }
}

} // verus!
