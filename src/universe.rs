use vstd::prelude::*;
use crate::cell::{glyph, Cell};
use crate::grid::{seed_cell, Grid};

verus! {

/// The width and height of the universe that `new` makes.
pub const SIDE: u32 = 64;

/// A universe for Conway's Game of Life, whose edges wrap around: a dense,
/// row-major grid of cells.
pub struct Universe {
    width: u32,
    height: u32,
    cells: Vec<Cell>,
}

impl View for Universe {
    type V = Grid;

    closed spec fn view(&self) -> Grid {
        Grid { width: self.width as nat, height: self.height as nat, cells: self.cells@ }
    }
}

impl Universe {
    /// The universe's dimensions are positive, their product fits in a `u32`,
    /// and it holds exactly one cell per position.
    pub open spec fn wf(&self) -> bool {
        self@.wf()
    }

    /// Turns a row and a column into the linear index of the cell.
    fn get_index(&self, row: u32, column: u32) -> (r: usize)
        requires
            self.wf(),
            row < self@.height,
            column < self@.width,
        ensures
            r == self@.index_of(row as int, column as int),
            r < self@.cells.len(),
    {
        let w = self.width;
        let h = self.height;
        assert(row * w + column < w * h) by (nonlinear_arith)
            requires
                row < h,
                column < w,
        ;
        (row * self.width + column) as usize
    }

    /// What the neighbour at offset `delta_row`, `delta_col` adds to the count
    /// of the cell at `row`, `column`.
    fn neighbor_contribution(&self, row: u32, column: u32, delta_row: u32, delta_col: u32) -> (r: u8)
        requires
            self.wf(),
            row < self@.height,
            column < self@.width,
            delta_row < self@.height || delta_row == 1,
            delta_col < self@.width || delta_col == 1,
        ensures
            r as nat == self@.contribution(row as int, column as int, delta_row as int, delta_col as int),
    {
        if delta_row == 0 && delta_col == 0 {
            return 0;
        }
        let neighbor_row = ((row as u64 + delta_row as u64) % (self.height as u64)) as u32;
        let neighbor_col = ((column as u64 + delta_col as u64) % (self.width as u64)) as u32;
        let idx = self.get_index(neighbor_row, neighbor_col);
        self.cells[idx].as_count()
    }

    /// The neighbours in the row at offset `delta_row`: the column offsets
    /// `width - 1`, 0 and 1.
    fn row_neighbor_count(&self, row: u32, column: u32, delta_row: u32) -> (r: u8)
        requires
            self.wf(),
            row < self@.height,
            column < self@.width,
            delta_row < self@.height || delta_row == 1,
        ensures
            r as nat == self@.row_contribution(row as int, column as int, delta_row as int),
            r <= 3,
    {
        let a = self.neighbor_contribution(row, column, delta_row, self.width - 1);
        let b = self.neighbor_contribution(row, column, delta_row, 0);
        let c = self.neighbor_contribution(row, column, delta_row, 1);
        a + b + c
    }

    /// The number of live cells among the eight around `row`, `column`, edges
    /// wrapping around.
    pub fn live_neighbor_count(&self, row: u32, column: u32) -> (r: u8)
        requires
            self.wf(),
            row < self@.height,
            column < self@.width,
        ensures
            r as nat == self@.live_neighbors(row as int, column as int),
    {
        let top = self.row_neighbor_count(row, column, self.height - 1);
        let middle = self.row_neighbor_count(row, column, 0);
        let bottom = self.row_neighbor_count(row, column, 1);
        top + middle + bottom
    }

    /// The cells, row after row, as one read-only sequence.
    pub fn cells(&self) -> (r: &[Cell])
        ensures
            r@ == self@.cells,
    {
        self.cells.as_slice()
    }

    /// Sets every cell to `Dead`.
    pub fn clear(&mut self)
        requires
            old(self).wf(),
        ensures
            final(self).wf(),
            final(self)@ == old(self)@.cleared(),
    {
        let n = self.width() as usize * self.height() as usize;
        let mut cells: Vec<Cell> = Vec::new();
        let mut i: usize = 0;
        while i < n
            invariant
                i <= n,
                n == self@.width * self@.height,
                cells@ == Seq::new(i as nat, |j: int| Cell::Dead),
            decreases n - i,
        {
            cells.push(Cell::Dead);
            i = i + 1;
            assert(cells@ =~= Seq::new(i as nat, |j: int| Cell::Dead));
        }
        self.cells = cells;
    }

    /// The number of rows.
    pub fn height(&self) -> (r: u32)
        ensures
            r == self@.height,
    {
        self.height
    }

    /// A universe of 64 by 64 cells with the seed pattern: the cell at linear
    /// index `i` is alive when `i` is a multiple of 2 or of 7.
    pub fn new() -> (r: Universe)
        ensures
            r.wf(),
            r@.width == SIDE,
            r@.height == SIDE,
            r@.cells == Seq::new((SIDE * SIDE) as nat, |i: int| seed_cell(i)),
    {
        let width = SIDE;
        let height = SIDE;
        let n = width * height;
        let mut cells: Vec<Cell> = Vec::new();
        let mut i: u32 = 0;
        while i < n
            invariant
                i <= n,
                n == SIDE * SIDE,
                cells@ == Seq::new(i as nat, |j: int| seed_cell(j)),
            decreases n - i,
        {
            let cell = if i % 2 == 0 || i % 7 == 0 {
                Cell::Alive
            } else {
                Cell::Dead
            };
            cells.push(cell);
            i = i + 1;
            assert(cells@ =~= Seq::new(i as nat, |j: int| seed_cell(j)));
        }
        Universe { width, height, cells }
    }

    /// A universe of the given dimensions with every cell dead.
    pub fn with_size(width: u32, height: u32) -> (r: Universe)
        requires
            0 < width,
            0 < height,
            width * height <= u32::MAX,
        ensures
            r.wf(),
            r@.width == width,
            r@.height == height,
            r@.cells == Seq::new((width * height) as nat, |i: int| Cell::Dead),
    {
        let n = width * height;
        let mut cells: Vec<Cell> = Vec::new();
        let mut i: u32 = 0;
        while i < n
            invariant
                i <= n,
                cells@ == Seq::new(i as nat, |j: int| Cell::Dead),
            decreases n - i,
        {
            cells.push(Cell::Dead);
            i = i + 1;
            assert(cells@ =~= Seq::new(i as nat, |j: int| Cell::Dead));
        }
        Universe { width, height, cells }
    }

    /// The text rendering: one line per row, top to bottom, with a glyph per
    /// cell from left to right (`\u{25fb}` dead, `\u{25fc}` alive), each line
    /// closed by a line break.
    pub fn render(&self) -> (r: String)
        requires
            self.wf(),
        ensures
            r@ == self@.text(),
    {
        let mut text = String::new();
        let mut row: u32 = 0;
        while row < self.height
            invariant
                self.wf(),
                row <= self@.height,
                text@ == self@.rows_text(row as nat),
            decreases self@.height - row,
        {
            let ghost before = text@;
            let mut col: u32 = 0;
            while col < self.width
                invariant
                    self.wf(),
                    row < self@.height,
                    col <= self@.width,
                    before == self@.rows_text(row as nat),
                    text@ == before + Seq::new(col as nat, |c: int| glyph(self@.at(row as int, c))),
                decreases self@.width - col,
            {
                let cell = self.cells[self.get_index(row, col)];
                if cell == Cell::Dead {
                    proof {
                        reveal_strlit("\u{25fb}");
                    }
                    text.append("\u{25fb}");
                } else {
                    proof {
                        reveal_strlit("\u{25fc}");
                    }
                    text.append("\u{25fc}");
                }
                col = col + 1;
                assert(text@ =~= before + Seq::new(col as nat, |c: int| glyph(self@.at(row as int, c))));
            }
            proof {
                reveal_strlit("\n");
            }
            text.append("\n");
            row = row + 1;
            assert(text@ =~= self@.rows_text(row as nat));
        }
        text
    }

    /// Advances the universe by one generation. Every next state is computed
    /// from the current generation before any cell changes.
    pub fn tick(&mut self)
        requires
            old(self).wf(),
        ensures
            final(self).wf(),
            final(self)@ == old(self)@.ticked(),
    {
        let n = self.width as usize * self.height as usize;
        let ghost w = self@.width as int;
        let mut next: Vec<Cell> = Vec::new();
        let mut i: usize = 0;
        while i < n
            invariant
                self.wf(),
                i <= n,
                n == self@.cells.len(),
                w == self@.width,
                next@.len() == i,
                forall|j: int| 0 <= j < i ==> #[trigger] next@[j] == self@.ticked().cells[j],
            decreases n - i,
        {
            let row = (i / self.width as usize) as u32;
            let col = (i % self.width as usize) as u32;
            assert(row < self@.height && col < self@.width) by (nonlinear_arith)
                requires
                    row == (i as int) / w,
                    col == (i as int) % w,
                    i < w * self@.height,
                    w == self@.width,
                    0 < w,
            ;
            let cell = self.cells[i];
            let live_neighbors = self.live_neighbor_count(row, col);
            next.push(cell.next(live_neighbors));
            i = i + 1;
        }
        assert(next@ =~= self@.ticked().cells);
        self.cells = next;
    }

    /// Flips the cell at `row`, `column` between `Dead` and `Alive`.
    pub fn toggle(&mut self, row: u32, column: u32)
        requires
            old(self).wf(),
            row < old(self)@.height,
            column < old(self)@.width,
        ensures
            final(self).wf(),
            final(self)@ == old(self)@.toggled(row as int, column as int),
    {
        let cell_idx = self.get_index(row, column);
        let flipped = self.cells[cell_idx].flip();
        self.cells.set(cell_idx, flipped);
    }

    /// The number of columns.
    pub fn width(&self) -> (r: u32)
        ensures
            r == self@.width,
    {
        self.width
    }
}

} // verus!
