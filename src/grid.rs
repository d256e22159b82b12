use vstd::prelude::*;
use crate::cell::{count_of, flipped, glyph, dead_glyph, next_state, Cell};

verus! {

/// The mathematical picture of a universe: its dimensions and its cells in
/// row-major order.
pub struct Grid {
    pub width: nat,
    pub height: nat,
    pub cells: Seq<Cell>,
}

/// The cell that the seed pattern puts at a linear index.
pub open spec fn seed_cell(i: int) -> Cell {
    if i % 2 == 0 || i % 7 == 0 {
        Cell::Alive
    } else {
        Cell::Dead
    }
}

/// `n` lines of `width` dead glyphs, each closed by a line break.
pub open spec fn blank_text(width: nat, n: nat) -> Seq<char>
    decreases n,
{
    if n == 0 {
        Seq::empty()
    } else {
        blank_text(width, (n - 1) as nat) + Seq::new(width, |c: int| dead_glyph()).push('\n')
    }
}

impl Grid {
    /// Positive dimensions, a cell count that a `u32` can hold, and exactly
    /// one cell for each position.
    pub open spec fn wf(self) -> bool {
        &&& 0 < self.width
        &&& 0 < self.height
        &&& self.width * self.height <= u32::MAX
        &&& self.cells.len() == self.width * self.height
    }

    /// The linear index of the position at `row`, `col`.
    pub open spec fn index_of(self, row: int, col: int) -> int {
        row * self.width + col
    }

    pub open spec fn at(self, row: int, col: int) -> Cell {
        self.cells[self.index_of(row, col)]
    }

    /// What the neighbour at offset `dr`, `dc` adds to the count of the cell
    /// at `row`, `col`; offsets wrap around the edges, and the offset 0, 0 is
    /// the cell itself, which adds nothing.
    pub open spec fn contribution(self, row: int, col: int, dr: int, dc: int) -> nat {
        if dr == 0 && dc == 0 {
            0
        } else {
            count_of(self.at((row + dr) % (self.height as int), (col + dc) % (self.width as int)))
        }
    }

    /// The contributions of the three column offsets `width - 1`, 0 and 1
    /// for the row offset `dr`.
    pub open spec fn row_contribution(self, row: int, col: int, dr: int) -> nat {
        self.contribution(row, col, dr, self.width - 1) + self.contribution(row, col, dr, 0)
            + self.contribution(row, col, dr, 1)
    }

    /// The number of live cells among the eight around `row`, `col`, with the
    /// row offsets `height - 1`, 0 and 1 taken modulo the height.
    pub open spec fn live_neighbors(self, row: int, col: int) -> nat {
        self.row_contribution(row, col, self.height - 1) + self.row_contribution(row, col, 0)
            + self.row_contribution(row, col, 1)
    }

    /// The next generation: every cell follows the rules from the counts of
    /// the current one.
    pub open spec fn ticked(self) -> Grid {
        Grid {
            cells: Seq::new(
                self.cells.len(),
                |i: int|
                    next_state(
                        self.cells[i],
                        self.live_neighbors(i / (self.width as int), i % (self.width as int)),
                    ),
            ),
            ..self
        }
    }

    /// The grid after `k` generations.
    pub open spec fn generations(self, k: nat) -> Grid
        decreases k,
    {
        if k == 0 {
            self
        } else {
            self.generations((k - 1) as nat).ticked()
        }
    }

    /// The grid with the cell at `row`, `col` in its other state.
    pub open spec fn toggled(self, row: int, col: int) -> Grid {
        Grid {
            cells: self.cells.update(self.index_of(row, col), flipped(self.at(row, col))),
            ..self
        }
    }

    /// The grid with every cell dead.
    pub open spec fn cleared(self) -> Grid {
        Grid { cells: Seq::new(self.width * self.height, |i: int| Cell::Dead), ..self }
    }

    /// The text of one row: a glyph for each cell, then a line break.
    pub open spec fn row_text(self, row: int) -> Seq<char> {
        Seq::new(self.width, |c: int| glyph(self.at(row, c))).push('\n')
    }

    /// The text of the first `n` rows.
    pub open spec fn rows_text(self, n: nat) -> Seq<char>
        decreases n,
    {
        if n == 0 {
            Seq::empty()
        } else {
            self.rows_text((n - 1) as nat) + self.row_text(n - 1)
        }
    }

    /// The text rendering: every row, top to bottom.
    pub open spec fn text(self) -> Seq<char> {
        self.rows_text(self.height)
    }
}

} // verus!
