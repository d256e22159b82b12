use vstd::prelude::*;

verus! {

/// The state of one position of the grid.
#[derive(Clone, Copy, Debug, PartialEq, Eq, Structural)]
pub enum Cell {
    Dead,
    Alive,
}

/// How much a cell adds to its neighbours' live count: 0 when dead, 1 when alive.
pub open spec fn count_of(c: Cell) -> nat {
    match c {
        Cell::Dead => 0,
        Cell::Alive => 1,
    }
}

/// The other state.
pub open spec fn flipped(c: Cell) -> Cell {
    match c {
        Cell::Dead => Cell::Alive,
        Cell::Alive => Cell::Dead,
    }
}

/// The state a cell takes in the next generation, given its state and the
/// number of its live neighbours.
pub open spec fn next_state(c: Cell, live: nat) -> Cell {
    match c {
        Cell::Alive => if live == 2 || live == 3 {
            Cell::Alive
        } else {
            Cell::Dead
        },
        Cell::Dead => if live == 3 {
            Cell::Alive
        } else {
            Cell::Dead
        },
    }
}

/// The character that stands for a dead cell in the text rendering.
pub open spec fn dead_glyph() -> char {
    '\u{25fb}'
}

/// The character that stands for a live cell in the text rendering.
pub open spec fn alive_glyph() -> char {
    '\u{25fc}'
}

/// The character that stands for a cell in the text rendering.
pub open spec fn glyph(c: Cell) -> char {
    match c {
        Cell::Dead => dead_glyph(),
        Cell::Alive => alive_glyph(),
    }
}

impl Cell {
    /// The cell's numeric encoding: 0 for `Dead`, 1 for `Alive`.
    pub fn as_count(self) -> (r: u8)
        ensures
            r as nat == count_of(self),
    {
        match self {
            Cell::Dead => 0,
            Cell::Alive => 1,
        }
    }

    /// The cell in the other state.
    pub fn flip(self) -> (r: Cell)
        ensures
            r == flipped(self),
    {
        match self {
            Cell::Dead => Cell::Alive,
            Cell::Alive => Cell::Dead,
        }
    }

    /// Applies the rules of Life: a live cell stays alive with two or three
    /// live neighbours and dies otherwise; a dead cell comes alive with
    /// exactly three.
    pub fn next(self, live_neighbors: u8) -> (r: Cell)
        ensures
            r == next_state(self, live_neighbors as nat),
    {
        match (self, live_neighbors) {
            (Cell::Alive, x) if x < 2 => Cell::Dead,
            (Cell::Alive, 2) | (Cell::Alive, 3) => Cell::Alive,
            (Cell::Alive, x) if x > 3 => Cell::Dead,
            (Cell::Dead, 3) => Cell::Alive,
            (otherwise, _) => otherwise,
        }
    }
}

} // verus!
