//! The mask resolver: the first pipeline stage.
//!
//! Resolution eliminates the two ambiguous cell kinds so that every cell of
//! the working buffer is one of border (`-1`), empty (`0`) or filled (`1`).
//! The buffer is walked once in row-major order and every ambiguous cell
//! consumes exactly one draw from the random source:
//!
//! - `Body1` (`1`) becomes filled on the upper half of the draw range and
//!   empty on the lower half, each with probability one half;
//! - `Body2` (`2`) becomes filled on the upper half (the midpoint draw
//!   counts as filled, fixing the sign of zero) and border on the lower
//!   half, each with probability one half.
//!
//! `Solid` (`-1`) and `Empty` (`0`) pass through unchanged and draw nothing.

use vstd::prelude::*;

use crate::rng::{coin_of, pcg_advance, pcg_output, Pcg32};

verus! {

/// Whether a cell code is ambiguous and therefore consumes one draw.
pub open spec fn consumes_draw(v: i8) -> bool {
    v == 1 || v == 2
}

/// What an ambiguous cell resolves to under a raw draw; other cells pass
/// through.
pub open spec fn resolved_cell(v: i8, draw: u32) -> i8 {
    if v == 1 {
        if coin_of(draw) {
            1i8
        } else {
            0i8
        }
    } else if v == 2 {
        if coin_of(draw) {
            1i8
        } else {
            -1i8
        }
    } else {
        v
    }
}

/// The buffer and random source after the first `i` cells of `orig` have
/// been resolved in order.
pub open spec fn resolve_upto(orig: Seq<i8>, rng0: Pcg32, i: nat) -> (Seq<i8>, Pcg32)
    decreases i,
{
    if i == 0 {
        (orig, rng0)
    } else {
        let prev = resolve_upto(orig, rng0, (i - 1) as nat);
        if i - 1 < orig.len() && consumes_draw(orig[i - 1]) {
            (
                prev.0.update(i - 1, resolved_cell(orig[i - 1], pcg_output(prev.1.state))),
                Pcg32 { state: pcg_advance(prev.1.state) },
            )
        } else {
            (prev.0, prev.1)
        }
    }
}

/// The fully resolved buffer, with the random source as it stands after the
/// pass.
pub open spec fn resolve_spec(orig: Seq<i8>, rng0: Pcg32) -> (Seq<i8>, Pcg32) {
    resolve_upto(orig, rng0, orig.len())
}

/// Resolving the first `i` cells keeps the length and leaves the cells from
/// `i` on unchanged.
pub proof fn lemma_resolve_upto_frame(orig: Seq<i8>, rng0: Pcg32, i: nat)
    ensures
        resolve_upto(orig, rng0, i).0.len() == orig.len(),
        forall|j: int| i <= j < orig.len() ==> resolve_upto(orig, rng0, i).0[j] == orig[j],
    decreases i,
{
    if i > 0 {
        lemma_resolve_upto_frame(orig, rng0, (i - 1) as nat);
    }
}

/// Resolution completeness: once a cell has been visited it is border,
/// empty or filled — never an ambiguous code — and unambiguous cells are
/// exactly what they were.
pub proof fn lemma_resolution_completeness(orig: Seq<i8>, rng0: Pcg32, i: nat)
    requires
        forall|j: int| 0 <= j < orig.len() ==> -1 <= #[trigger] orig[j] <= 2,
    ensures
        forall|j: int| 0 <= j < i && j < orig.len() ==> -1 <= #[trigger] resolve_upto(
            orig,
            rng0,
            i,
        ).0[j] <= 1,
        forall|j: int|
            0 <= j < orig.len() && !consumes_draw(orig[j]) ==> #[trigger] resolve_upto(
                orig,
                rng0,
                i,
            ).0[j] == orig[j],
    decreases i,
{
    lemma_resolve_upto_frame(orig, rng0, i);
    if i > 0 {
        lemma_resolution_completeness(orig, rng0, (i - 1) as nat);
        lemma_resolve_upto_frame(orig, rng0, (i - 1) as nat);
    }
}

/// Resolve every cell of `mask` in row-major order, drawing from `rng` for
/// each ambiguous cell.
pub fn resolve_mask(mask: &mut Vec<i8>, rng: &mut Pcg32)
    requires
        forall|j: int| 0 <= j < old(mask)@.len() ==> -1 <= #[trigger] old(mask)@[j] <= 2,
    ensures
        final (mask)@ == resolve_spec(old(mask)@, *old(rng)).0,
        *final (rng) == resolve_spec(old(mask)@, *old(rng)).1,
        final (mask)@.len() == old(mask)@.len(),
        forall|j: int| 0 <= j < final (mask)@.len() ==> -1 <= #[trigger] final (mask)@[j] <= 1,
        forall|j: int|
            0 <= j < old(mask)@.len() && !consumes_draw(#[trigger] old(mask)@[j])
                ==> final (mask)@[j] == old(mask)@[j],
{
    let ghost orig = mask@;
    let ghost rng0 = *rng;
    let n = mask.len();
    for i in 0..n
        invariant
            n == orig.len(),
            mask@ == resolve_upto(orig, rng0, i as nat).0,
            *rng == resolve_upto(orig, rng0, i as nat).1,
            mask@.len() == n,
            forall|j: int| 0 <= j < orig.len() ==> -1 <= #[trigger] orig[j] <= 2,
    {
        proof {
            lemma_resolve_upto_frame(orig, rng0, i as nat);
        }
        let v = mask[i];
        if v == 1 {
            let filled = rng.coin();
            mask.set(i, if filled { 1 } else { 0 });
        } else if v == 2 {
            let filled = rng.coin();
            mask.set(i, if filled { 1 } else { -1 });
        }
    }
    proof {
        lemma_resolution_completeness(orig, rng0, orig.len());
    }
}

} // verus!
