use vstd::prelude::*;
use crate::cell::{dead_glyph, flipped, Cell};
use crate::grid::{blank_text, Grid};

verus! {

/// One mutating call on a universe.
pub enum Step {
    Tick,
    Toggle { row: nat, col: nat },
    Clear,
}

/// The grid after one step.
pub open spec fn after_step(g: Grid, s: Step) -> Grid {
    match s {
        Step::Tick => g.ticked(),
        Step::Toggle { row, col } => g.toggled(row as int, col as int),
        Step::Clear => g.cleared(),
    }
}

/// The grid after the steps, in order.
pub open spec fn after_steps(g: Grid, steps: Seq<Step>) -> Grid
    decreases steps.len(),
{
    if steps.len() == 0 {
        g
    } else {
        after_step(after_steps(g, steps.drop_last()), steps.last())
    }
}

/// A step that a universe of these dimensions accepts: a toggle names a
/// position inside it.
pub open spec fn step_fits(width: nat, height: nat, s: Step) -> bool {
    match s {
        Step::Toggle { row, col } => row < height && col < width,
        _ => true,
    }
}

/// One step keeps the dimensions, and with them one valid cell per position.
pub proof fn lemma_step_keeps_wf(g: Grid, s: Step)
    requires
        g.wf(),
        step_fits(g.width, g.height, s),
    ensures
        after_step(g, s).wf(),
        after_step(g, s).width == g.width,
        after_step(g, s).height == g.height,
{
    if let Step::Toggle { row, col } = s {
        assert(0 <= g.index_of(row as int, col as int) < g.cells.len()) by (nonlinear_arith)
            requires
                row < g.height,
                col < g.width,
                g.cells.len() == g.width * g.height,
        ;
    }
}

/// Whatever sequence of ticks, toggles and clears is applied, the width and
/// height stay as they were and the cell sequence keeps exactly
/// `width * height` cells.
pub proof fn lemma_steps_keep_wf(g: Grid, steps: Seq<Step>)
    requires
        g.wf(),
        forall|k: int| 0 <= k < steps.len() ==> step_fits(g.width, g.height, #[trigger] steps[k]),
    ensures
        after_steps(g, steps).wf(),
        after_steps(g, steps).width == g.width,
        after_steps(g, steps).height == g.height,
        after_steps(g, steps).cells.len() == g.width * g.height,
    decreases steps.len(),
{
    if steps.len() > 0 {
        let prefix = steps.drop_last();
        assert forall|k: int| 0 <= k < prefix.len() implies step_fits(
            g.width,
            g.height,
            #[trigger] prefix[k],
        ) by {
            assert(prefix[k] == steps[k]);
        }
        lemma_steps_keep_wf(g, prefix);
        assert(step_fits(g.width, g.height, steps[steps.len() - 1]));
        lemma_step_keeps_wf(after_steps(g, prefix), steps.last());
    }
}

/// Toggling the same cell twice gives back the grid as it was: the cell
/// regains its state and no other cell changed.
pub proof fn lemma_toggle_twice(g: Grid, row: int, col: int)
    requires
        g.wf(),
        0 <= row < g.height,
        0 <= col < g.width,
    ensures
        g.toggled(row, col).toggled(row, col) == g,
{
    let i = g.index_of(row, col);
    assert(0 <= i < g.cells.len()) by (nonlinear_arith)
        requires
            i == row * g.width + col,
            0 <= row < g.height,
            0 <= col < g.width,
            g.cells.len() == g.width * g.height,
    ;
    assert(flipped(flipped(g.cells[i])) == g.cells[i]);
    assert(g.toggled(row, col).toggled(row, col).cells =~= g.cells);
}

/// After a clear, the rendering is `height` lines of `width` dead glyphs.
pub proof fn lemma_cleared_text(g: Grid)
    requires
        g.wf(),
    ensures
        g.cleared().text() == blank_text(g.width, g.height),
{
    lemma_cleared_rows(g, g.height);
}

proof fn lemma_cleared_rows(g: Grid, n: nat)
    requires
        g.wf(),
        n <= g.height,
    ensures
        g.cleared().rows_text(n) == blank_text(g.width, n),
    decreases n,
{
    if n > 0 {
        lemma_cleared_rows(g, (n - 1) as nat);
        let c = g.cleared();
        let r = n - 1;
        assert forall|k: int| 0 <= k < g.width implies c.at(r, k) == Cell::Dead by {
            assert(0 <= r * g.width + k < g.width * g.height) by (nonlinear_arith)
                requires
                    0 <= r < g.height,
                    0 <= k < g.width,
            ;
        }
        assert(c.row_text(r) =~= Seq::new(g.width, |k: int| dead_glyph()).push('\n'));
    }
}

} // verus!
