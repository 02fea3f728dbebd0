use vstd::prelude::*;

verus! {

/// One grid position's binary state.
#[derive(Clone, Copy, Debug, PartialEq, Eq, Structural)]
pub enum Cell {
    Dead,
    Alive,
}

/// The increment a cell contributes to a neighbor count: 1 if it is
/// alive, 0 if it is dead.
pub open spec fn live_count(c: Cell) -> nat {
    if c is Alive {
        1
    } else {
        0
    }
}

/// The opposite state.
pub open spec fn flipped(c: Cell) -> Cell {
    match c {
        Cell::Dead => Cell::Alive,
        Cell::Alive => Cell::Dead,
    }
}

impl Cell {
    /// Flips the cell between `Dead` and `Alive`.
    pub(crate) fn toggle(&mut self)
        ensures
            *final(self) == flipped(*old(self)),
    {
        *self = match *self {
            Cell::Dead => Cell::Alive,
            Cell::Alive => Cell::Dead,
        };
    }
}

} // verus!
