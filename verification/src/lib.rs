//! Conway's Game of Life on a fixed-size toroidal grid.
//!
//! Two interchangeable engines share one transition contract: a wide
//! representation (`Universe`, one `Cell` per grid cell) and a packed
//! representation (`BitUniverse`, one bit per cell).  Both advance a
//! generation with `tick`, whose result is pinned to the spec-level
//! transition function `rules::step`, so the two representations are
//! provably equivalent.

pub mod bit_universe;
pub mod bitset;
pub mod cell;
pub mod greet;
pub mod laws;
pub mod rules;
pub mod universe;

pub use bit_universe::BitUniverse;
pub use greet::greeting;
pub use cell::Cell;
pub use cell::GridError;
pub use universe::Universe;
