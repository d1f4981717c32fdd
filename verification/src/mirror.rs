//! The mirror expander: the last pipeline stage.
//!
//! The colored buffer is reflected across the X axis, the Y axis, or both,
//! so that the final image is bilaterally symmetric across each mirrored
//! axis.  Every output pixel is a direct copy of exactly one source pixel;
//! nothing is blended at the seams.

use vstd::prelude::*;

use crate::edges::{grid_index, lemma_grid_index_bounds};
use vstd::arithmetic::div_mod::lemma_fundamental_div_mod;

verus! {

/// The output width: doubled when the X axis is mirrored.
pub open spec fn out_width(w: int, mx: bool) -> int {
    if mx {
        2 * w
    } else {
        w
    }
}

/// The output height: doubled when the Y axis is mirrored.
pub open spec fn out_height(h: int, my: bool) -> int {
    if my {
        2 * h
    } else {
        h
    }
}

/// The source coordinate an output coordinate reads from: the upper half of
/// a mirrored axis reflects back onto the source range.
pub open spec fn fold_coord(n: int, doubled: bool, i: int) -> int {
    if doubled && i >= n {
        2 * n - 1 - i
    } else {
        i
    }
}

/// The mirrored buffer: every output pixel is the source pixel at the
/// folded coordinates.
pub open spec fn mirror_spec(src: Seq<u32>, w: int, h: int, mx: bool, my: bool) -> Seq<u32>
    recommends
        w > 0,
        src.len() == w * h,
{
    let ow = out_width(w, mx);
    Seq::new(
        (ow * out_height(h, my)) as nat,
        |i: int| src[grid_index(w, fold_coord(w, mx, i % ow), fold_coord(h, my, i / ow))],
    )
}

/// A buffer position of a `wid` by `hh` grid has in-range coordinates.
pub proof fn lemma_grid_coords(wid: int, hh: int, i: int)
    requires
        wid > 0,
        0 <= i < wid * hh,
    ensures
        0 <= i % wid < wid,
        0 <= i / wid < hh,
{
    lemma_fundamental_div_mod(i, wid);
    assert(0 <= i / wid && i / wid < hh) by (nonlinear_arith)
        requires
            wid > 0,
            0 <= i < wid * hh,
    ;
}

/// Mirror symmetry: across a mirrored axis the output pixel at `(x, y)`
/// equals the one at the reflected position, for every output position.
pub proof fn lemma_mirror_symmetry(src: Seq<u32>, w: int, h: int, mx: bool, my: bool, x: int, y: int)
    requires
        w > 0,
        src.len() == w * h,
        0 <= x < out_width(w, mx),
        0 <= y < out_height(h, my),
    ensures
        mx ==> mirror_spec(src, w, h, mx, my)[grid_index(out_width(w, mx), x, y)] == mirror_spec(
            src,
            w,
            h,
            mx,
            my,
        )[grid_index(out_width(w, mx), out_width(w, mx) - 1 - x, y)],
        my ==> mirror_spec(src, w, h, mx, my)[grid_index(out_width(w, mx), x, y)] == mirror_spec(
            src,
            w,
            h,
            mx,
            my,
        )[grid_index(out_width(w, mx), x, out_height(h, my) - 1 - y)],
{
    let ow = out_width(w, mx);
    let oh = out_height(h, my);
    lemma_grid_index_bounds(ow, oh, x, y);
    if mx {
        lemma_grid_index_bounds(ow, oh, ow - 1 - x, y);
    }
    if my {
        lemma_grid_index_bounds(ow, oh, x, oh - 1 - y);
    }
}

/// Every property that holds of each source pixel holds of each mirrored
/// pixel: the output is made of source pixels only.
pub proof fn lemma_mirror_preserves(
    src: Seq<u32>,
    w: int,
    h: int,
    mx: bool,
    my: bool,
    p: spec_fn(u32) -> bool,
)
    requires
        w > 0,
        h >= 0,
        src.len() == w * h,
        forall|j: int| 0 <= j < src.len() ==> p(#[trigger] src[j]),
    ensures
        forall|i: int|
            0 <= i < mirror_spec(src, w, h, mx, my).len() ==> p(
                #[trigger] mirror_spec(src, w, h, mx, my)[i],
            ),
{
    let out = mirror_spec(src, w, h, mx, my);
    let ow = out_width(w, mx);
    let oh = out_height(h, my);
    assert(ow * oh >= 0) by (nonlinear_arith)
        requires
            ow >= 0,
            oh >= 0,
    ;
    assert forall|i: int| 0 <= i < out.len() implies p(out[i]) by {
        lemma_grid_coords(ow, oh, i);
        let fx = fold_coord(w, mx, i % ow);
        let fy = fold_coord(h, my, i / ow);
        lemma_grid_index_bounds(w, h, fx, fy);
    }
}

/// Reflect the colored buffer across the mirrored axes.
pub fn mirror_buffer(
    src: &Vec<u32>,
    width: usize,
    height: usize,
    mirror_x: bool,
    mirror_y: bool,
) -> (out: Vec<u32>)
    requires
        width > 0,
        src@.len() == width * height,
        2 * width <= usize::MAX,
        4 * (width * height) <= usize::MAX,
    ensures
        out@ == mirror_spec(src@, width as int, height as int, mirror_x, mirror_y),
        out@.len() == out_width(width as int, mirror_x) * out_height(height as int, mirror_y),
{
    let ghost w = width as int;
    let ghost h = height as int;
    let n = src.len();
    proof {
        assert(2 * (height as int) <= usize::MAX && (2 * width) * height <= usize::MAX && width
            * (2 * height) <= usize::MAX && (2 * width) * (2 * height) <= usize::MAX)
            by (nonlinear_arith)
            requires
                4 * (width as int * height as int) <= usize::MAX,
                width > 0,
                height >= 0,
        ;
    }
    let ow = if mirror_x {
        width * 2
    } else {
        width
    };
    let oh = if mirror_y {
        height * 2
    } else {
        height
    };
    let ghost owi = ow as int;
    let ghost ohi = oh as int;
    let mut out: Vec<u32> = Vec::new();
    for y in 0..oh
        invariant
            w == width as int,
            h == height as int,
            width > 0,
            src@.len() == w * h,
            n == src@.len(),
            owi == ow as int,
            ohi == oh as int,
            owi == out_width(w, mirror_x),
            ohi == out_height(h, mirror_y),
            out@.len() == y * ow,
            forall|i: int|
                0 <= i < out@.len() ==> out@[i] == #[trigger] mirror_spec(
                    src@,
                    w,
                    h,
                    mirror_x,
                    mirror_y,
                )[i],
    {
        for x in 0..ow
            invariant
                w == width as int,
                h == height as int,
                width > 0,
                src@.len() == w * h,
                n == src@.len(),
                owi == ow as int,
                ohi == oh as int,
                owi == out_width(w, mirror_x),
                ohi == out_height(h, mirror_y),
                y < oh,
                out@.len() == y * ow + x,
                forall|i: int|
                    0 <= i < out@.len() ==> out@[i] == #[trigger] mirror_spec(
                        src@,
                        w,
                        h,
                        mirror_x,
                        mirror_y,
                    )[i],
        {
            proof {
                lemma_grid_index_bounds(owi, ohi, x as int, y as int);
            }
            let sx = if mirror_x && x >= width {
                ow - 1 - x
            } else {
                x
            };
            let sy = if mirror_y && y >= height {
                oh - 1 - y
            } else {
                y
            };
            assert(sx as int == fold_coord(w, mirror_x, x as int));
            assert(sy as int == fold_coord(h, mirror_y, y as int));
            proof {
                lemma_grid_index_bounds(w, h, sx as int, sy as int);
            }
            let value = src[sx + sy * width];
            assert(value == mirror_spec(src@, w, h, mirror_x, mirror_y)[y as int * owi
                + x as int]);
            out.push(value);
        }
        proof {
            assert((y as int + 1) * owi == y as int * owi + owi) by (nonlinear_arith);
        }
    }
    proof {
        assert(ohi * owi == owi * ohi) by (nonlinear_arith);
    }
    assert(out@ =~= mirror_spec(src@, w, h, mirror_x, mirror_y));
    out
}

} // verus!
