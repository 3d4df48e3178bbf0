use vstd::prelude::*;

verus! {

/// The state of one cell: `Dead` or `Alive`. A new cell is `Dead`.
#[derive(Debug, Clone, Copy, PartialEq, Eq, Structural)]
pub enum Cell {
    Dead,
    Alive,
}

impl Cell {
    /// The cell that `alive` describes.
    pub open spec fn of_bool(alive: bool) -> Cell {
        if alive {
            Cell::Alive
        } else {
            Cell::Dead
        }
    }

    /// One for a live cell, zero for a dead one.
    pub open spec fn weight(self) -> nat {
        if self == Cell::Alive {
            1
        } else {
            0
        }
    }

    /// Turns a dead cell alive and a live cell dead.
    pub fn toggle(&mut self)
        ensures
            *final(self) != *old(self),
    {
        *self = match *self {
            Cell::Dead => Cell::Alive,
            Cell::Alive => Cell::Dead,
        };
    }

    /// Whether the cell is alive.
    pub fn is_alive(&self) -> (r: bool)
        ensures
            r == (*self == Cell::Alive),
    {
        match self {
            Cell::Alive => true,
            Cell::Dead => false,
        }
    }
}

impl Default for Cell {
    fn default() -> (r: Cell)
        ensures
            r == Cell::Dead,
    {
        Cell::Dead
    }
}

impl From<bool> for Cell {
    fn from(alive: bool) -> (r: Cell) {
        if alive {
            Cell::Alive
        } else {
            Cell::Dead
        }
    }
}

impl vstd::std_specs::convert::FromSpecImpl<bool> for Cell {
    open spec fn obeys_from_spec() -> bool {
        true
    }

    open spec fn from_spec(alive: bool) -> Cell {
        Cell::of_bool(alive)
    }
}

} // verus!
