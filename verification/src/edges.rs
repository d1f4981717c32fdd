//! The edge grower: the second pipeline stage.
//!
//! Every shape cell of the resolved buffer — filled or border — claims its
//! four axis-aligned neighbors: a neighbor that is empty becomes border, so
//! that every generated shape renders with a one-pixel outline.  All claims
//! are judged against the resolved buffer, so the pass is independent of the
//! scan order and a grown border never seeds further growth.

use vstd::prelude::*;

use vstd::arithmetic::div_mod::lemma_fundamental_div_mod_converse;

verus! {

/// The row-major buffer position of the cell at column `x`, row `y`.
pub open spec fn grid_index(w: int, x: int, y: int) -> int {
    x + y * w
}

/// Whether a resolved cell is part of a shape: filled or border, not empty.
pub open spec fn shape_cell(v: i8) -> bool {
    v != 0
}

/// Whether one of the in-bounds axis-aligned neighbors of `(x, y)` is a
/// shape cell.
pub open spec fn has_shape_neighbor(m: Seq<i8>, w: int, h: int, x: int, y: int) -> bool {
    ||| (x > 0 && shape_cell(m[grid_index(w, x - 1, y)]))
    ||| (x + 1 < w && shape_cell(m[grid_index(w, x + 1, y)]))
    ||| (y > 0 && shape_cell(m[grid_index(w, x, y - 1)]))
    ||| (y + 1 < h && shape_cell(m[grid_index(w, x, y + 1)]))
}

/// What the cell at `(x, y)` becomes: an empty cell beside a shape becomes
/// border, every other cell keeps its value.
pub open spec fn grown_cell(m: Seq<i8>, w: int, h: int, x: int, y: int) -> i8 {
    if m[grid_index(w, x, y)] == 0i8 && has_shape_neighbor(m, w, h, x, y) {
        -1i8
    } else {
        m[grid_index(w, x, y)]
    }
}

/// The buffer after edge growth.
pub open spec fn grow_spec(m: Seq<i8>, w: int, h: int) -> Seq<i8>
    recommends
        w > 0,
        m.len() == w * h,
{
    Seq::new(m.len(), |i: int| grown_cell(m, w, h, i % w, i / w))
}

/// A grid position is inside the buffer, and position and coordinates
/// determine one another.
pub proof fn lemma_grid_index_bounds(w: int, h: int, x: int, y: int)
    requires
        w > 0,
        0 <= x < w,
        0 <= y < h,
    ensures
        0 <= grid_index(w, x, y) < w * h,
        grid_index(w, x, y) % w == x,
        grid_index(w, x, y) / w == y,
{
    assert(0 <= x + y * w && x + y * w < w * h) by (nonlinear_arith)
        requires
            w > 0,
            0 <= x < w,
            0 <= y < h,
    ;
    lemma_fundamental_div_mod_converse(x + y * w, w, y, x);
}

/// Edge monotonicity: after growth, an empty cell with a filled or border
/// neighbor in the resolved buffer is border, an empty cell with no such
/// neighbor is still empty, and every filled or border cell is untouched.
pub proof fn lemma_edge_monotonicity(m: Seq<i8>, w: int, h: int, x: int, y: int)
    requires
        w > 0,
        m.len() == w * h,
        0 <= x < w,
        0 <= y < h,
    ensures
        m[grid_index(w, x, y)] == 0 && has_shape_neighbor(m, w, h, x, y) ==> grow_spec(m, w, h)[
            grid_index(w, x, y)] == -1,
        m[grid_index(w, x, y)] == 0 && !has_shape_neighbor(m, w, h, x, y) ==> grow_spec(m, w, h)[
            grid_index(w, x, y)] == 0,
        shape_cell(m[grid_index(w, x, y)]) ==> grow_spec(m, w, h)[grid_index(w, x, y)] == m[
            grid_index(w, x, y)],
{
    lemma_grid_index_bounds(w, h, x, y);
}

/// Grow a one-cell border around every shape of the resolved buffer.
pub fn grow_edges(mask: &Vec<i8>, width: usize, height: usize) -> (out: Vec<i8>)
    requires
        width > 0,
        mask@.len() == width * height,
    ensures
        out@ == grow_spec(mask@, width as int, height as int),
        out@.len() == mask@.len(),
{
    let ghost w = width as int;
    let ghost h = height as int;
    let n = mask.len();
    let mut out: Vec<i8> = Vec::new();
    for y in 0..height
        invariant
            n == mask@.len(),
            mask@.len() == w * h,
            w == width as int,
            h == height as int,
            width > 0,
            out@.len() == y * width,
            forall|i: int|
                0 <= i < out@.len() ==> out@[i] == #[trigger] grow_spec(mask@, w, h)[i],
    {
        proof {
            lemma_grid_index_bounds(w, h, 0, y as int);
        }
        for x in 0..width
            invariant
                n == mask@.len(),
                mask@.len() == w * h,
                w == width as int,
                h == height as int,
                width > 0,
                y < height,
                out@.len() == y * width + x,
                forall|i: int|
                    0 <= i < out@.len() ==> out@[i] == #[trigger] grow_spec(mask@, w, h)[i],
        {
            proof {
                lemma_grid_index_bounds(w, h, x as int, y as int);
            }
            let i = y * width + x;
            let v = mask[i];
            let mut grown = v;
            if v == 0 {
                let mut near = false;
                if x > 0 && mask[i - 1] != 0 {
                    near = true;
                }
                if x + 1 < width {
                    proof {
                        lemma_grid_index_bounds(w, h, x as int + 1, y as int);
                    }
                    if mask[i + 1] != 0 {
                        near = true;
                    }
                }
                if y > 0 {
                    proof {
                        lemma_grid_index_bounds(w, h, x as int, y as int - 1);
                        assert((y as int - 1) * w == y as int * w - w) by (nonlinear_arith);
                    }
                    if mask[i - width] != 0 {
                        near = true;
                    }
                }
                if y + 1 < height {
                    proof {
                        lemma_grid_index_bounds(w, h, x as int, y as int + 1);
                        assert((y as int + 1) * w == y as int * w + w) by (nonlinear_arith);
                    }
                    if mask[i + width] != 0 {
                        near = true;
                    }
                }
                if near {
                    grown = -1;
                }
                assert(near == has_shape_neighbor(mask@, w, h, x as int, y as int));
            }
            assert(grown == grown_cell(mask@, w, h, x as int, y as int));
            out.push(grown);
        }
        proof {
            assert((y as int + 1) * w == y as int * w + w) by (nonlinear_arith);
        }
    }
    proof {
        assert(h * w == w * h) by (nonlinear_arith);
    }
    assert(out@ =~= grow_spec(mask@, w, h));
    out
}

} // verus!
