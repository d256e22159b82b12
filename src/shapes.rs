use vstd::prelude::*;
use vstd::arithmetic::div_mod::{
    lemma_fundamental_div_mod, lemma_fundamental_div_mod_converse, lemma_mod_bound,
    lemma_mod_multiples_vanish,
};
use crate::cell::{count_of, next_state, Cell};
use crate::grid::Grid;

verus! {

/// Whether `x` lies in the run of `len` positions that starts at `start` on a
/// ring of `n` positions (the run may wrap past `n - 1` to 0).
pub open spec fn in_span(x: int, start: int, len: int, n: int) -> bool {
    (x - start) % n < len
}

/// 1 for true, 0 for false.
pub open spec fn ind(b: bool) -> nat {
    if b {
        1
    } else {
        0
    }
}

/// How many of the three positions reached from `x` by the offsets `n - 1`,
/// 0 and 1 on a ring of `n` lie in the span.
pub open spec fn span_hits(x: int, start: int, len: int, n: int) -> nat {
    ind(in_span((x + (n - 1)) % n, start, len, n)) + ind(in_span((x + 0) % n, start, len, n))
        + ind(in_span((x + 1) % n, start, len, n))
}

/// The state of the cell at `r`, `c` in a rectangle of `row_len` by
/// `col_len` live cells at `row_start`, `col_start` on a grid of `height` by
/// `width`, wrapping around the edges.
pub open spec fn rect_cell(
    height: int,
    width: int,
    row_start: int,
    row_len: int,
    col_start: int,
    col_len: int,
    r: int,
    c: int,
) -> Cell {
    if in_span(r, row_start, row_len, height) && in_span(c, col_start, col_len, width) {
        Cell::Alive
    } else {
        Cell::Dead
    }
}

/// The grid whose live cells are exactly those of the rectangle.
pub open spec fn is_rect(g: Grid, row_start: int, row_len: int, col_start: int, col_len: int) -> bool {
    &&& g.wf()
    &&& forall|r: int, c: int|
        0 <= r < g.height && 0 <= c < g.width ==> #[trigger] g.at(r, c) == rect_cell(
            g.height as int,
            g.width as int,
            row_start,
            row_len,
            col_start,
            col_len,
            r,
            c,
        )
}

/// The state that the cell at `r`, `c` of the rectangle takes in the next
/// generation.
pub open spec fn rect_next(
    height: int,
    width: int,
    row_start: int,
    row_len: int,
    col_start: int,
    col_len: int,
    r: int,
    c: int,
) -> Cell {
    next_state(
        rect_cell(height, width, row_start, row_len, col_start, col_len, r, c),
        (span_hits(r, row_start, row_len, height) * span_hits(c, col_start, col_len, width) - ind(
            in_span(r, row_start, row_len, height) && in_span(c, col_start, col_len, width),
        )) as nat,
    )
}

/// Reducing before subtracting does not change the remainder.
proof fn lemma_mod_then_sub(y: int, s: int, n: int)
    requires
        0 < n,
    ensures
        ((y % n) - s) % n == (y - s) % n,
{
    lemma_fundamental_div_mod(y, n);
    lemma_mod_multiples_vanish(y / n, (y % n) - s, n);
}

/// One step back and one step forward on a ring, in terms of the remainder.
proof fn lemma_mod_neighbors(a: int, n: int)
    requires
        0 < n,
    ensures
        (a - 1) % n == if a % n == 0 {
            n - 1
        } else {
            a % n - 1
        },
        (a + 1) % n == if a % n == n - 1 {
            0
        } else {
            a % n + 1
        },
        0 <= a % n < n,
{
    let q = a / n;
    let t = a % n;
    lemma_fundamental_div_mod(a, n);
    lemma_mod_bound(a, n);
    assert(n * q == q * n) by (nonlinear_arith);
    if t == 0 {
        assert((q - 1) * n == q * n - n) by (nonlinear_arith);
        lemma_fundamental_div_mod_converse(a - 1, n, q - 1, n - 1);
    } else {
        lemma_fundamental_div_mod_converse(a - 1, n, q, t - 1);
    }
    if t == n - 1 {
        assert((q + 1) * n == q * n + n) by (nonlinear_arith);
        lemma_fundamental_div_mod_converse(a + 1, n, q + 1, 0);
    } else {
        lemma_fundamental_div_mod_converse(a + 1, n, q, t + 1);
    }
}

/// Which of the three positions around `x` lie in the span, in terms of the
/// offset `t` of `x` from the span's start.
proof fn lemma_span_hits(x: int, start: int, len: int, n: int)
    requires
        0 < n,
        0 <= x < n,
    ensures
        ({
            let t = (x - start) % n;
            &&& 0 <= t < n
            &&& in_span((x + (n - 1)) % n, start, len, n) == ((if t == 0 {
                n - 1
            } else {
                t - 1
            }) < len)
            &&& in_span((x + 0) % n, start, len, n) == (t < len)
            &&& in_span((x + 1) % n, start, len, n) == ((if t == n - 1 {
                0
            } else {
                t + 1
            }) < len)
        }),
{
    lemma_mod_then_sub(x + (n - 1), start, n);
    lemma_mod_then_sub(x + 0, start, n);
    lemma_mod_then_sub(x + 1, start, n);
    lemma_mod_multiples_vanish(1, x - start - 1, n);
    assert(n * 1 + (x - start - 1) == x + (n - 1) - start);
    lemma_mod_neighbors(x - start, n);
}

/// In a rectangle pattern, the live neighbours of a cell are the product of
/// the row and column hits, less the cell itself.
proof fn lemma_rect_neighbors(g: Grid, r0: int, rl: int, c0: int, cl: int, r: int, c: int)
    requires
        is_rect(g, r0, rl, c0, cl),
        2 <= g.height,
        2 <= g.width,
        0 <= r < g.height,
        0 <= c < g.width,
    ensures
        g.live_neighbors(r, c) == span_hits(r, r0, rl, g.height as int) * span_hits(
            c,
            c0,
            cl,
            g.width as int,
        ) - ind(in_span(r, r0, rl, g.height as int) && in_span(c, c0, cl, g.width as int)),
{
    let h = g.height as int;
    let w = g.width as int;
    let rs = seq![(r + (h - 1)) % h, (r + 0) % h, (r + 1) % h];
    let cs = seq![(c + (w - 1)) % w, (c + 0) % w, (c + 1) % w];
    lemma_mod_bound(r + (h - 1), h);
    lemma_mod_bound(r + 0, h);
    lemma_mod_bound(r + 1, h);
    lemma_mod_bound(c + (w - 1), w);
    lemma_mod_bound(c + 0, w);
    lemma_mod_bound(c + 1, w);
    lemma_fundamental_div_mod_converse(r + 0, h, 0, r);
    lemma_fundamental_div_mod_converse(c + 0, w, 0, c);
    let a0 = ind(in_span(rs[0], r0, rl, h));
    let a1 = ind(in_span(rs[1], r0, rl, h));
    let a2 = ind(in_span(rs[2], r0, rl, h));
    let b0 = ind(in_span(cs[0], c0, cl, w));
    let b1 = ind(in_span(cs[1], c0, cl, w));
    let b2 = ind(in_span(cs[2], c0, cl, w));
    assert forall|i: int, j: int| 0 <= i < 3 && 0 <= j < 3 implies count_of(g.at(rs[i], cs[j]))
        == ind(in_span(rs[i], r0, rl, h)) * ind(in_span(cs[j], c0, cl, w)) by {
        assert(0 <= rs[i] < h && 0 <= cs[j] < w);
    }
    assert(count_of(g.at(rs[0], cs[0])) == a0 * b0);
    assert(count_of(g.at(rs[0], cs[1])) == a0 * b1);
    assert(count_of(g.at(rs[0], cs[2])) == a0 * b2);
    assert(count_of(g.at(rs[1], cs[0])) == a1 * b0);
    assert(count_of(g.at(rs[1], cs[2])) == a1 * b2);
    assert(count_of(g.at(rs[2], cs[0])) == a2 * b0);
    assert(count_of(g.at(rs[2], cs[1])) == a2 * b1);
    assert(count_of(g.at(rs[2], cs[2])) == a2 * b2);
    assert(ind(in_span(r, r0, rl, h) && in_span(c, c0, cl, w)) == a1 * b1);
    assert(a0 * b0 + a0 * b1 + a0 * b2 + a1 * b0 + a1 * b2 + a2 * b0 + a2 * b1 + a2 * b2
        == (a0 + a1 + a2) * (b0 + b1 + b2) - a1 * b1) by (nonlinear_arith);
}


/// The position at row `r`, column `c` is the linear index `r * w + c`.
proof fn lemma_index_in_range(i: int, r: int, c: int, w: int, h: int)
    requires
        0 < w,
        0 <= r < h,
        0 <= c < w,
        i == r * w + c,
    ensures
        0 <= i < w * h,
        i / w == r,
        i % w == c,
{
    assert(0 <= r * w + c < w * h) by (nonlinear_arith)
        requires
            0 <= r < h,
            0 <= c < w,
    ;
    assert(r * w == w * r) by (nonlinear_arith);
    lemma_fundamental_div_mod_converse(i, w, r, c);
}

/// A rectangle pattern moves to the rectangle whose cells are the next states
/// of its own.
proof fn lemma_rect_ticked(
    g: Grid,
    r0: int,
    rl: int,
    c0: int,
    cl: int,
    nr0: int,
    nrl: int,
    nc0: int,
    ncl: int,
)
    requires
        is_rect(g, r0, rl, c0, cl),
        2 <= g.height,
        2 <= g.width,
        forall|r: int, c: int|
            0 <= r < g.height && 0 <= c < g.width ==> #[trigger] rect_next(
                g.height as int,
                g.width as int,
                r0,
                rl,
                c0,
                cl,
                r,
                c,
            ) == rect_cell(g.height as int, g.width as int, nr0, nrl, nc0, ncl, r, c),
    ensures
        is_rect(g.ticked(), nr0, nrl, nc0, ncl),
{
    let t = g.ticked();
    let h = g.height as int;
    let w = g.width as int;
    assert forall|r: int, c: int| 0 <= r < t.height && 0 <= c < t.width implies #[trigger] t.at(r, c)
        == rect_cell(h, w, nr0, nrl, nc0, ncl, r, c) by {
        let i = r * w + c;
        lemma_index_in_range(i, r, c, w, h);
        lemma_rect_neighbors(g, r0, rl, c0, cl, r, c);
        assert(rect_next(h, w, r0, rl, c0, cl, r, c) == rect_cell(h, w, nr0, nrl, nc0, ncl, r, c));
        assert(g.at(r, c) == rect_cell(h, w, r0, rl, c0, cl, r, c));
    }
}

/// Two grids of the same dimensions holding the same rectangle are equal.
proof fn lemma_rect_unique(g1: Grid, g2: Grid, r0: int, rl: int, c0: int, cl: int)
    requires
        is_rect(g1, r0, rl, c0, cl),
        is_rect(g2, r0, rl, c0, cl),
        g1.width == g2.width,
        g1.height == g2.height,
    ensures
        g1 == g2,
{
    let w = g1.width as int;
    let h = g1.height as int;
    assert forall|i: int| 0 <= i < g1.cells.len() implies g1.cells[i] == g2.cells[i] by {
        let r = i / w;
        let c = i % w;
        lemma_fundamental_div_mod(i, w);
        lemma_mod_bound(i, w);
        assert(w * r == r * w) by (nonlinear_arith);
        assert(0 <= r < h) by (nonlinear_arith)
            requires
                0 <= i < w * h,
                i == w * r + c,
                0 <= c < w,
        ;
        assert(g1.at(r, c) == g2.at(r, c));
    }
    assert(g1.cells =~= g2.cells);
}

/// A 2 by 2 block of live cells on an otherwise dead grid of at least 4 by 4
/// is a still life: the next generation is the same grid. The block may lie
/// across an edge.
pub proof fn lemma_block_is_still(g: Grid, row: int, col: int)
    requires
        is_rect(g, row, 2, col, 2),
        4 <= g.height,
        4 <= g.width,
    ensures
        g.ticked() == g,
{
    let h = g.height as int;
    let w = g.width as int;
    assert forall|r: int, c: int| 0 <= r < h && 0 <= c < w implies #[trigger] rect_next(
        h,
        w,
        row,
        2,
        col,
        2,
        r,
        c,
    ) == rect_cell(h, w, row, 2, col, 2, r, c) by {
        lemma_span_hits(r, row, 2, h);
        lemma_span_hits(c, col, 2, w);
        let hr = span_hits(r, row, 2, h);
        let hc = span_hits(c, col, 2, w);
        if hr == 0 {
        } else if hr == 1 {
        } else {
            assert(hr == 2);
        }
    }
    lemma_rect_ticked(g, row, 2, col, 2, row, 2, col, 2);
    lemma_rect_unique(g.ticked(), g, row, 2, col, 2);
}


/// The block stays as it is however many generations pass.
pub proof fn lemma_block_stays(g: Grid, row: int, col: int, k: nat)
    requires
        is_rect(g, row, 2, col, 2),
        4 <= g.height,
        4 <= g.width,
    ensures
        g.generations(k) == g,
    decreases k,
{
    if k > 0 {
        lemma_block_stays(g, row, col, (k - 1) as nat);
        lemma_block_is_still(g, row, col);
    }
}

/// A horizontal line of three live cells centred on `row`, `col` turns into
/// the vertical line of three centred on the same cell.
proof fn lemma_horizontal_to_vertical(g: Grid, row: int, col: int)
    requires
        is_rect(g, row, 1, col - 1, 3),
        5 <= g.height,
        5 <= g.width,
    ensures
        is_rect(g.ticked(), row - 1, 3, col, 1),
{
    let h = g.height as int;
    let w = g.width as int;
    assert forall|r: int, c: int| 0 <= r < h && 0 <= c < w implies #[trigger] rect_next(
        h,
        w,
        row,
        1,
        col - 1,
        3,
        r,
        c,
    ) == rect_cell(h, w, row - 1, 3, col, 1, r, c) by {
        lemma_span_hits(r, row, 1, h);
        lemma_span_hits(c, col - 1, 3, w);
        lemma_mod_neighbors(r - row, h);
        lemma_mod_neighbors(c - col + 1, w);
        let hr = span_hits(r, row, 1, h);
        let hc = span_hits(c, col - 1, 3, w);
        if hr == 0 {
        } else {
            assert(hr == 1);
        }
    }
    lemma_rect_ticked(g, row, 1, col - 1, 3, row - 1, 3, col, 1);
}

/// A vertical line of three live cells centred on `row`, `col` turns into
/// the horizontal line of three centred on the same cell.
proof fn lemma_vertical_to_horizontal(g: Grid, row: int, col: int)
    requires
        is_rect(g, row - 1, 3, col, 1),
        5 <= g.height,
        5 <= g.width,
    ensures
        is_rect(g.ticked(), row, 1, col - 1, 3),
{
    let h = g.height as int;
    let w = g.width as int;
    assert forall|r: int, c: int| 0 <= r < h && 0 <= c < w implies #[trigger] rect_next(
        h,
        w,
        row - 1,
        3,
        col,
        1,
        r,
        c,
    ) == rect_cell(h, w, row, 1, col - 1, 3, r, c) by {
        lemma_span_hits(r, row - 1, 3, h);
        lemma_span_hits(c, col, 1, w);
        lemma_mod_neighbors(r - row + 1, h);
        lemma_mod_neighbors(c - col, w);
        let hr = span_hits(r, row - 1, 3, h);
        let hc = span_hits(c, col, 1, w);
        if hc == 0 {
        } else {
            assert(hc == 1);
        }
    }
    lemma_rect_ticked(g, row - 1, 3, col, 1, row, 1, col - 1, 3);
}

/// The blinker oscillates with period 2: on a grid of at least 5 by 5 with
/// only the cells `row`, `col - 1`, `col`, `col + 1` alive (positions taken
/// around the edges), one generation gives the vertical line `row - 1`,
/// `row`, `row + 1` in column `col`, and a second one gives the grid back.
pub proof fn lemma_blinker(g: Grid, row: int, col: int)
    requires
        is_rect(g, row, 1, col - 1, 3),
        5 <= g.height,
        5 <= g.width,
    ensures
        is_rect(g.ticked(), row - 1, 3, col, 1),
        g.ticked().ticked() == g,
{
    lemma_horizontal_to_vertical(g, row, col);
    lemma_vertical_to_horizontal(g.ticked(), row, col);
    lemma_rect_unique(g.ticked().ticked(), g, row, 1, col - 1, 3);
}


/// The edges wrap: on a grid of at least 3 by 3 whose only live cell is the
/// top-left one, the bottom-right cell has exactly one live neighbour.
pub proof fn lemma_corner_wraps(g: Grid)
    requires
        is_rect(g, 0, 1, 0, 1),
        3 <= g.height,
        3 <= g.width,
    ensures
        g.live_neighbors(g.height - 1, g.width - 1) == 1,
{
    let h = g.height as int;
    let w = g.width as int;
    lemma_rect_neighbors(g, 0, 1, 0, 1, h - 1, w - 1);
    lemma_span_hits(h - 1, 0, 1, h);
    lemma_span_hits(w - 1, 0, 1, w);
    lemma_fundamental_div_mod_converse(h - 1, h, 0, h - 1);
    lemma_fundamental_div_mod_converse(w - 1, w, 0, w - 1);
}

} // verus!
