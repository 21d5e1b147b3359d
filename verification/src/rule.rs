//! The transition rule for a single cell.

use vstd::prelude::*;

verus! {

/// Which birth conditions a board applies. Survival is the same under both.
#[derive(Clone, Copy, Debug, PartialEq, Eq, Structural)]
pub enum Variant {
    /// A dead cell is born with exactly three live neighbours.
    Standard,
    /// A dead cell is born with exactly three or exactly seven live neighbours.
    Drylife,
}

/// The decision table: a live cell survives with two or three live
/// neighbours; a dead cell is born with exactly three, and under
/// [`Variant::Drylife`] also with exactly seven. Every other cell is dead.
pub open spec fn rule(alive: bool, neighbors: int, variant: Variant) -> bool {
    if alive {
        neighbors == 2 || neighbors == 3
    } else {
        neighbors == 3 || (neighbors == 7 && variant == Variant::Drylife)
    }
}

/// The next state of a cell, given its state, the number of its live
/// neighbours and the board's variant.
pub fn next_state(alive: bool, neighbors: u32, variant: Variant) -> (next: bool)
    ensures
        next == rule(alive, neighbors as int, variant),
{
    match (alive, neighbors, variant) {
        (true, 2, _) | (true, 3, _) => true,
        (false, 3, _) => true,
        (false, 7, Variant::Drylife) => true,
        _ => false,
    }
}

} // verus!
