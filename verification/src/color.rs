//! The colorizer: the third pipeline stage.
//!
//! Two interchangeable strategies turn the grown ternary buffer into packed
//! pixels.  The two-tone strategy maps border cells to zero and everything
//! else to opaque white.  The gradient strategy drifts a hue along one grid
//! axis in randomly long patches, shades each line with a ramp that is
//! darkest at the two ends of the axis, adds per-pixel brightness jitter,
//! converts the resulting hue, saturation and lightness to RGB, and darkens
//! the channels of border pixels.
//!
//! All intensities are per-mille fractions (`0..=1000`), so the whole stage
//! is exact integer arithmetic.

use vstd::prelude::*;

use crate::edges::{grid_index, lemma_grid_index_bounds};
use crate::options::Options;
use crate::rng::{coin_of, pcg_advance, pcg_output, signed_unit_of, unit_of, Pcg32};

verus! {

/// The sentinel of a pixel the gradient strategy left unset: opaque white.
pub const UNSET_PIXEL: u32 = 0xffff_ffff;

/// The two-tone image of one cell: border becomes `0`, everything else
/// opaque white.
pub open spec fn onebit_pixel(v: i8) -> u32 {
    if v == -1 {
        0u32
    } else {
        0xffff_ffffu32
    }
}

/// The two-tone image of a whole buffer.
pub open spec fn onebit_spec(m: Seq<i8>) -> Seq<u32> {
    Seq::new(m.len(), |i: int| onebit_pixel(m[i]))
}

/// Color the buffer with the two-tone strategy.
pub fn onebit_output(mask: &Vec<i8>) -> (out: Vec<u32>)
    ensures
        out@ == onebit_spec(mask@),
        out@.len() == mask@.len(),
        forall|i: int| 0 <= i < mask@.len() ==> out@[i] == onebit_pixel(#[trigger] mask@[i]),
{
    let n = mask.len();
    let mut out: Vec<u32> = Vec::new();
    for i in 0..n
        invariant
            n == mask@.len(),
            out@.len() == i,
            forall|j: int| 0 <= j < i ==> out@[j] == onebit_pixel(#[trigger] mask@[j]),
    {
        if mask[i] == -1 {
            out.push(0);
        } else {
            out.push(0xffff_ffff);
        }
    }
    assert(out@ =~= onebit_spec(mask@));
    out
}

/// The distance between two integers.
pub open spec fn dist(a: int, b: int) -> int {
    if a >= b {
        a - b
    } else {
        b - a
    }
}

/// The per-mille chroma of a saturation and lightness pair.
pub open spec fn chroma_of(s: int, l: int) -> int {
    (1000 - dist(2 * l, 1000)) * s / 1000
}

/// A hue fraction mapped onto the six sectors of the hue wheel:
/// `0..=5999`, with the full turn wrapping to zero.
pub open spec fn hue_point(h: int) -> int {
    (h % 1000) * 6
}

/// The chroma-scaled channel pattern of a hue, before lightness is added:
/// the classic piecewise HSL shape.
pub open spec fn hsl_base(h: int, s: int, l: int) -> (int, int, int) {
    let c = chroma_of(s, l);
    let h6 = hue_point(h);
    let x = c * (1000 - dist(h6 % 2000, 1000)) / 1000;
    if h6 < 1000 {
        (c, x, 0int)
    } else if h6 < 2000 {
        (x, c, 0int)
    } else if h6 < 3000 {
        (0int, c, x)
    } else if h6 < 4000 {
        (0int, x, c)
    } else if h6 < 5000 {
        (x, 0int, c)
    } else {
        (c, 0int, x)
    }
}

/// A per-mille level scaled to a byte.
pub open spec fn byte_of(v: int) -> int {
    v * 255 / 1000
}

/// The RGB bytes of a per-mille hue fraction, saturation and lightness.
pub open spec fn hsl_rgb(h: int, s: int, l: int) -> (int, int, int) {
    let base = hsl_base(h, s, l);
    let m = l - chroma_of(s, l) / 2;
    (byte_of(base.0 + m), byte_of(base.1 + m), byte_of(base.2 + m))
}

/// Chroma stays within the lightness budget: the lightness offset is never
/// negative and no channel level can leave the per-mille range.
pub proof fn lemma_chroma_bounds(s: int, l: int)
    requires
        0 <= s <= 1000,
        0 <= l <= 1000,
    ensures
        0 <= chroma_of(s, l) <= 1000,
        chroma_of(s, l) / 2 <= l,
        l + chroma_of(s, l) - chroma_of(s, l) / 2 <= 1000,
{
    let a = 1000 - dist(2 * l, 1000);
    assert(0 <= a <= 1000);
    assert(0 <= a * s / 1000 <= a) by (nonlinear_arith)
        requires
            0 <= a <= 1000,
            0 <= s <= 1000,
    ;
    let c = chroma_of(s, l);
    assert(c <= a);
    if l <= 500 {
        assert(a == 2 * l);
    } else {
        assert(a == 2000 - 2 * l);
    }
}

/// Every RGB channel of the conversion is a byte.
pub proof fn lemma_hsl_rgb_bounds(h: int, s: int, l: int)
    requires
        0 <= s <= 1000,
        0 <= l <= 1000,
    ensures
        0 <= hsl_rgb(h, s, l).0 <= 255,
        0 <= hsl_rgb(h, s, l).1 <= 255,
        0 <= hsl_rgb(h, s, l).2 <= 255,
{
    lemma_chroma_bounds(s, l);
    let c = chroma_of(s, l);
    let h6 = hue_point(h);
    let t = 1000 - dist(h6 % 2000, 1000);
    assert(0 <= h % 1000 < 1000);
    assert(0 <= h6 % 2000 < 2000);
    assert(0 <= t <= 1000);
    let x = c * t / 1000;
    assert(0 <= x <= c) by (nonlinear_arith)
        requires
            0 <= c <= 1000,
            0 <= t <= 1000,
            x == c * t / 1000,
    ;
    let m = l - c / 2;
    let base = hsl_base(h, s, l);
    assert(0 <= base.0 + m <= 1000);
    assert(0 <= base.1 + m <= 1000);
    assert(0 <= base.2 + m <= 1000);
    lemma_byte_of_bounds(base.0 + m);
    lemma_byte_of_bounds(base.1 + m);
    lemma_byte_of_bounds(base.2 + m);
}

/// A per-mille level scales to a byte.
pub proof fn lemma_byte_of_bounds(v: int)
    requires
        0 <= v <= 1000,
    ensures
        0 <= byte_of(v) <= 255,
{
    assert(0 <= v * 255 / 1000 <= 255) by (nonlinear_arith)
        requires
            0 <= v <= 1000,
    ;
}

/// Convert a per-mille hue fraction, saturation and lightness to RGB bytes.
pub fn hsl_to_rgb(h: u16, s: u16, l: u16) -> (rgb: (u8, u8, u8))
    requires
        h <= 1000,
        s <= 1000,
        l <= 1000,
    ensures
        rgb.0 == hsl_rgb(h as int, s as int, l as int).0,
        rgb.1 == hsl_rgb(h as int, s as int, l as int).1,
        rgb.2 == hsl_rgb(h as int, s as int, l as int).2,
{
    proof {
        lemma_chroma_bounds(s as int, l as int);
        lemma_hsl_rgb_bounds(h as int, s as int, l as int);
    }
    let h6: u32 = ((h % 1000) as u32) * 6;
    let l2: u32 = 2 * (l as u32);
    let dl: u32 = if l2 >= 1000 {
        l2 - 1000
    } else {
        1000 - l2
    };
    let c: u32 = (1000 - dl) * (s as u32) / 1000;
    let f2: u32 = h6 % 2000;
    let td: u32 = if f2 >= 1000 {
        f2 - 1000
    } else {
        1000 - f2
    };
    let x: u32 = c * (1000 - td) / 1000;
    assert(c == chroma_of(s as int, l as int));
    assert(x == c as int * (1000 - dist(h6 as int % 2000, 1000)) / 1000);
    let m: u32 = (l as u32) - c / 2;
    let (r0, g0, b0): (u32, u32, u32) = if h6 < 1000 {
        (c, x, 0)
    } else if h6 < 2000 {
        (x, c, 0)
    } else if h6 < 3000 {
        (0, c, x)
    } else if h6 < 4000 {
        (0, x, c)
    } else if h6 < 5000 {
        (x, 0, c)
    } else {
        (c, 0, x)
    };
    let r = ((r0 + m) * 255 / 1000) as u8;
    let g = ((g0 + m) * 255 / 1000) as u8;
    let b = ((b0 + m) * 255 / 1000) as u8;
    (r, g, b)
}

/// The darkened level of a border-pixel channel: the channel scaled by the
/// per-mille edge brightness, rounded down.
pub open spec fn darken(c: int, eb: int) -> int {
    c * eb / 1000
}

/// Edge darkening: scaling a channel by the per-mille edge brightness never
/// exceeds that fraction of the channel, nor the channel itself.
pub proof fn lemma_edge_darkening(c: int, eb: int)
    requires
        0 <= c,
        0 <= eb <= 1000,
    ensures
        1000 * darken(c, eb) <= eb * c,
        0 <= darken(c, eb) <= c,
{
    assert(1000 * (c * eb / 1000) <= eb * c && 0 <= c * eb / 1000 <= c) by (nonlinear_arith)
        requires
            0 <= c,
            0 <= eb <= 1000,
    ;
}

/// Darken one channel of a border pixel.
pub fn darken_channel(c: u8, eb: u16) -> (d: u8)
    requires
        eb <= 1000,
    ensures
        d == darken(c as int, eb as int),
        d <= c,
{
    proof {
        lemma_edge_darkening(c as int, eb as int);
    }
    ((c as u32) * (eb as u32) / 1000) as u8
}

/// A packed `0x00RRGGBB` pixel.
pub open spec fn pack_rgb(r: int, g: int, b: int) -> u32 {
    (r * 0x10000 + g * 0x100 + b) as u32
}

/// Pack RGB bytes into one `0x00RRGGBB` pixel.
pub fn pack_pixel(r: u8, g: u8, b: u8) -> (p: u32)
    ensures
        p == pack_rgb(r as int, g as int, b as int),
{
    (r as u32) * 0x10000 + (g as u32) * 0x100 + (b as u32)
}


/// The colorizer state threaded along the gradient axis: the pixels written
/// so far, the position of the random source, and the hue of the current
/// patch.
pub struct GradientState {
    /// The output buffer.
    pub pixels: Seq<u32>,
    /// The random source.
    pub rng: Pcg32,
    /// The per-mille hue fraction of the current patch.
    pub hue: u16,
}

/// The buffer position of the pixel at gradient-axis position `u` and
/// cross-axis position `v`: with a vertical gradient `u` walks rows, else
/// columns.
pub open spec fn pixel_index(w: int, vertical: bool, u: int, v: int) -> int {
    if vertical {
        grid_index(w, v, u)
    } else {
        grid_index(w, u, v)
    }
}

/// The per-mille brightness ramp along the gradient axis: zero at the two
/// ends of the axis and full in the middle (a symmetric fixed-point stand-in
/// for the half-sine arch).
pub open spec fn half_ramp(u: int, n: int) -> int {
    let x = u * 1000 / n;
    4 * x * (1000 - x) / 1000
}

/// The ramp stays a per-mille fraction.
pub proof fn lemma_half_ramp_bounds(u: int, n: int)
    requires
        0 <= u < n,
    ensures
        0 <= u * 1000 / n <= 1000,
        0 <= half_ramp(u, n) <= 1000,
{
    let x = u * 1000 / n;
    assert(0 <= x <= 1000) by (nonlinear_arith)
        requires
            0 <= u < n,
            x == u * 1000 / n,
    ;
    assert(0 <= 4 * x * (1000 - x) / 1000 <= 1000) by (nonlinear_arith)
        requires
            0 <= x <= 1000,
    ;
}

/// The draw threshold above which a slice starts a fresh hue patch.
pub open spec fn hue_threshold(cv: int) -> int {
    3 * (1000 - cv)
}

/// The colored pixel of one non-empty cell: the RGB image of the current
/// hue, saturation and lightness, darkened on border cells.
pub open spec fn gradient_pixel(val: i8, hue: int, sat: int, l: int, eb: int) -> u32 {
    let rgb = hsl_rgb(hue, sat, l);
    if val == -1 {
        pack_rgb(darken(rgb.0, eb), darken(rgb.1, eb), darken(rgb.2, eb))
    } else {
        pack_rgb(rgb.0, rgb.1, rgb.2)
    }
}

/// One cell of a slice: an empty cell is skipped, every other cell
/// consumes one brightness draw and is written at its buffer position (a
/// position outside the buffer writes nothing; the pipeline never reaches
/// one).
pub open spec fn gradient_cell_step(
    m: Seq<i8>,
    opts: Options,
    sat: int,
    base: int,
    idx: int,
    st: GradientState,
) -> GradientState {
    if m[idx] == 0 {
        st
    } else {
        let draw = unit_of(pcg_output(st.rng.state));
        let rng2 = Pcg32 { state: pcg_advance(st.rng.state) };
        let l = base + draw * opts.brightness_noise / 1000;
        let px = gradient_pixel(m[idx], st.hue as int, sat, l, opts.edge_brightness as int);
        GradientState {
            pixels: if 0 <= idx < st.pixels.len() {
                st.pixels.update(idx, px)
            } else {
                st.pixels
            },
            rng: rng2,
            hue: st.hue,
        }
    }
}

/// The state after the first `v` cells of slice `u` have been colored.
pub open spec fn gradient_slice(
    m: Seq<i8>,
    w: int,
    opts: Options,
    vertical: bool,
    sat: int,
    base: int,
    u: int,
    st: GradientState,
    v: nat,
) -> GradientState
    decreases v,
{
    if v == 0 {
        st
    } else {
        gradient_cell_step(
            m,
            opts,
            sat,
            base,
            pixel_index(w, vertical, u, v - 1),
            gradient_slice(m, w, opts, vertical, sat, base, u, st, (v - 1) as nat),
        )
    }
}

/// The state after the first `u` slices of the pass: each slice draws three
/// signed samples, starts a fresh hue patch when their sum strays far from
/// zero, and colors its cells over the brightness ramp.
pub open spec fn gradient_pass(
    m: Seq<i8>,
    w: int,
    h: int,
    opts: Options,
    vertical: bool,
    sat: int,
    st: GradientState,
    u: nat,
) -> GradientState
    decreases u,
{
    if u == 0 {
        st
    } else {
        let prev = gradient_pass(m, w, h, opts, vertical, sat, st, (u - 1) as nat);
        let s1 = signed_unit_of(pcg_output(prev.rng.state));
        let r1 = Pcg32 { state: pcg_advance(prev.rng.state) };
        let s2 = signed_unit_of(pcg_output(r1.state));
        let r2 = Pcg32 { state: pcg_advance(r1.state) };
        let s3 = signed_unit_of(pcg_output(r2.state));
        let r3 = Pcg32 { state: pcg_advance(r2.state) };
        let fresh = dist(s1 + s2 + s3, 0) > hue_threshold(opts.color_variations as int);
        let hue2 = if fresh {
            unit_of(pcg_output(r3.state))
        } else {
            prev.hue
        };
        let r4 = if fresh {
            Pcg32 { state: pcg_advance(r3.state) }
        } else {
            r3
        };
        let un = if vertical {
            h
        } else {
            w
        };
        let vn = if vertical {
            w
        } else {
            h
        };
        let base = half_ramp(u - 1, un) * (1000 - opts.brightness_noise) / 1000;
        gradient_slice(
            m,
            w,
            opts,
            vertical,
            sat,
            base,
            u - 1,
            GradientState { pixels: prev.pixels, rng: r4, hue: hue2 },
            vn as nat,
        )
    }
}

/// The gradient strategy as a whole: one coin chooses the gradient axis,
/// one draw scales the saturation bound, one draw seeds the hue, and the
/// pass colors every slice; pixels of empty cells keep the unset sentinel.
pub open spec fn color_spec(m: Seq<i8>, w: int, h: int, opts: Options, rng0: Pcg32) -> (
    Seq<u32>,
    Pcg32,
) {
    let vertical = coin_of(pcg_output(rng0.state));
    let r1 = Pcg32 { state: pcg_advance(rng0.state) };
    let sat = unit_of(pcg_output(r1.state)) * opts.saturation / 1000;
    let r2 = Pcg32 { state: pcg_advance(r1.state) };
    let hue0 = unit_of(pcg_output(r2.state));
    let r3 = Pcg32 { state: pcg_advance(r2.state) };
    let init = GradientState {
        pixels: Seq::new((w * h) as nat, |i: int| UNSET_PIXEL),
        rng: r3,
        hue: hue0,
    };
    let fin = gradient_pass(
        m,
        w,
        h,
        opts,
        vertical,
        sat,
        init,
        (if vertical {
            h
        } else {
            w
        }) as nat,
    );
    (fin.pixels, fin.rng)
}

/// Coloring a slice never changes the buffer length.
pub proof fn lemma_gradient_slice_len(
    m: Seq<i8>,
    w: int,
    opts: Options,
    vertical: bool,
    sat: int,
    base: int,
    u: int,
    st: GradientState,
    v: nat,
)
    ensures
        gradient_slice(m, w, opts, vertical, sat, base, u, st, v).pixels.len()
            == st.pixels.len(),
    decreases v,
{
    if v > 0 {
        lemma_gradient_slice_len(m, w, opts, vertical, sat, base, u, st, (v - 1) as nat);
    }
}

/// The pass never changes the buffer length.
pub proof fn lemma_gradient_pass_len(
    m: Seq<i8>,
    w: int,
    h: int,
    opts: Options,
    vertical: bool,
    sat: int,
    st: GradientState,
    u: nat,
)
    ensures
        gradient_pass(m, w, h, opts, vertical, sat, st, u).pixels.len() == st.pixels.len(),
    decreases u,
{
    if u > 0 {
        lemma_gradient_pass_len(m, w, h, opts, vertical, sat, st, (u - 1) as nat);
        let prev = gradient_pass(m, w, h, opts, vertical, sat, st, (u - 1) as nat);
        let vn = if vertical {
            w
        } else {
            h
        };
        assert(gradient_pass(m, w, h, opts, vertical, sat, st, u).pixels.len()
            == prev.pixels.len()) by {
            lemma_gradient_slice_len_any(m, w, opts, vertical, sat, u as int - 1, prev, vn as nat);
        }
    }
}

/// Helper of [`lemma_gradient_pass_len`]: length preservation for whatever
/// slice-start state the pass reaches.
proof fn lemma_gradient_slice_len_any(
    m: Seq<i8>,
    w: int,
    opts: Options,
    vertical: bool,
    sat: int,
    u: int,
    prev: GradientState,
    vn: nat,
)
    ensures
        forall|st: GradientState, base: int|
            #[trigger] gradient_slice(m, w, opts, vertical, sat, base, u, st, vn).pixels.len()
                == st.pixels.len(),
{
    assert forall|st: GradientState, base: int|
        #[trigger] gradient_slice(m, w, opts, vertical, sat, base, u, st, vn).pixels.len()
            == st.pixels.len() by {
        lemma_gradient_slice_len(m, w, opts, vertical, sat, base, u, st, vn);
    }
}


} // verus!

verus! {

/// Per-mille products of per-mille factors stay per-mille: the scaled value
/// is bounded by either factor.
pub proof fn lemma_permille_scale(a: int, b: int)
    requires
        0 <= a <= 1000,
        0 <= b <= 1000,
    ensures
        0 <= a * b / 1000 <= 1000,
        a * b / 1000 <= a,
        a * b / 1000 <= b,
{
    assert(0 <= a * b / 1000 <= 1000 && a * b / 1000 <= a && a * b / 1000 <= b)
        by (nonlinear_arith)
        requires
            0 <= a <= 1000,
            0 <= b <= 1000,
    ;
}

/// The brightness ramp level at axis position `u` of an axis of length `n`.
pub fn half_ramp_level(u: usize, n: usize) -> (r: u16)
    requires
        u < n,
    ensures
        r == half_ramp(u as int, n as int),
        r <= 1000,
{
    proof {
        lemma_half_ramp_bounds(u as int, n as int);
    }
    let x: u32 = ((u as u128) * 1000 / (n as u128)) as u32;
    let r: u32 = 4 * x * (1000 - x) / 1000;
    r as u16
}

/// Color the buffer with the gradient strategy, drawing from `rng`.
pub fn color_output(
    mask: &Vec<i8>,
    width: usize,
    height: usize,
    opts: &Options,
    rng: &mut Pcg32,
) -> (out: Vec<u32>)
    requires
        opts.wf(),
        width > 0,
        mask@.len() == width * height,
    ensures
        out@ == color_spec(mask@, width as int, height as int, *opts, *old(rng)).0,
        *final (rng) == color_spec(mask@, width as int, height as int, *opts, *old(rng)).1,
        out@.len() == mask@.len(),
{
    let ghost w = width as int;
    let ghost h = height as int;
    let ghost rng0 = *rng;
    let n = mask.len();
    let mut out: Vec<u32> = Vec::new();
    for i in 0..n
        invariant
            out@.len() == i,
            forall|j: int| 0 <= j < i ==> out@[j] == UNSET_PIXEL,
    {
        out.push(UNSET_PIXEL);
    }
    assert(out@ =~= Seq::new((w * h) as nat, |i: int| UNSET_PIXEL));
    let vertical = rng.coin();
    let sat_draw = rng.unit();
    proof {
        lemma_permille_scale(sat_draw as int, opts.saturation as int);
    }
    let sat: u16 = ((sat_draw as u32) * (opts.saturation as u32) / 1000) as u16;
    let hue0 = rng.unit();
    let mut hue: u16 = hue0;
    let un = if vertical {
        height
    } else {
        width
    };
    let vn = if vertical {
        width
    } else {
        height
    };
    let ghost init = GradientState { pixels: out@, rng: *rng, hue: hue0 };
    for u in 0..un
        invariant
            n == mask@.len(),
            mask@.len() == w * h,
            w == width as int,
            h == height as int,
            width > 0,
            opts.wf(),
            sat <= 1000,
            hue <= 1000,
            un == (if vertical {
                height
            } else {
                width
            }),
            vn == (if vertical {
                width
            } else {
                height
            }),
            out@.len() == n,
            (GradientState { pixels: out@, rng: *rng, hue: hue }) == gradient_pass(
                mask@,
                w,
                h,
                *opts,
                vertical,
                sat as int,
                init,
                u as nat,
            ),
    {
        let ghost prevst = gradient_pass(mask@, w, h, *opts, vertical, sat as int, init, u as nat);
        let s1 = rng.signed_unit();
        let s2 = rng.signed_unit();
        let s3 = rng.signed_unit();
        let sum: i32 = s1 as i32 + s2 as i32 + s3 as i32;
        let asum: i32 = if sum >= 0 {
            sum
        } else {
            -sum
        };
        let thr: i32 = 3 * (1000 - opts.color_variations as i32);
        if asum > thr {
            hue = rng.unit();
        }
        let ramp = half_ramp_level(u, un);
        proof {
            lemma_permille_scale(ramp as int, 1000 - opts.brightness_noise as int);
        }
        let base: u16 = ((ramp as u32) * ((1000 - opts.brightness_noise) as u32) / 1000) as u16;
        let ghost start = GradientState { pixels: out@, rng: *rng, hue: hue };
        assert(asum == dist(s1 + s2 + s3, 0));
        assert(thr == hue_threshold(opts.color_variations as int));
        for v in 0..vn
            invariant
                n == mask@.len(),
                mask@.len() == w * h,
                w == width as int,
                h == height as int,
                width > 0,
                opts.wf(),
                sat <= 1000,
                hue <= 1000,
                base <= 1000 - opts.brightness_noise,
                u < un,
                un == (if vertical {
                    height
                } else {
                    width
                }),
                vn == (if vertical {
                    width
                } else {
                    height
                }),
                out@.len() == n,
                hue == start.hue,
                (GradientState { pixels: out@, rng: *rng, hue: hue }) == gradient_slice(
                    mask@,
                    w,
                    *opts,
                    vertical,
                    sat as int,
                    base as int,
                    u as int,
                    start,
                    v as nat,
                ),
        {
            proof {
                if vertical {
                    lemma_grid_index_bounds(w, h, v as int, u as int);
                } else {
                    lemma_grid_index_bounds(w, h, u as int, v as int);
                }
            }
            let index = if vertical {
                v + u * width
            } else {
                u + v * width
            };
            assert(index as int == pixel_index(w, vertical, u as int, v as int));
            assert(index < n);
            let val = mask[index];
            if val != 0 {
                let draw = rng.unit();
                proof {
                    lemma_permille_scale(draw as int, opts.brightness_noise as int);
                }
                let jitter: u16 = ((draw as u32) * (opts.brightness_noise as u32) / 1000) as u16;
                let l: u16 = base + jitter;
                let rgb = hsl_to_rgb(hue, sat, l);
                let px = if val == -1 {
                    let dr = darken_channel(rgb.0, opts.edge_brightness);
                    let dg = darken_channel(rgb.1, opts.edge_brightness);
                    let db = darken_channel(rgb.2, opts.edge_brightness);
                    pack_pixel(dr, dg, db)
                } else {
                    pack_pixel(rgb.0, rgb.1, rgb.2)
                };
                assert(px == gradient_pixel(
                    mask@[index as int],
                    hue as int,
                    sat as int,
                    base + draw * opts.brightness_noise / 1000,
                    opts.edge_brightness as int,
                ));
                out.set(index, px);
            }
        }
        proof {
            assert(gradient_pass(mask@, w, h, *opts, vertical, sat as int, init, (u + 1) as nat)
                == gradient_slice(
                mask@,
                w,
                *opts,
                vertical,
                sat as int,
                base as int,
                u as int,
                start,
                vn as nat,
            ));
        }
    }
    out
}

/// The gradient strategy colors a buffer of exactly the grid size.
pub proof fn lemma_color_spec_len(m: Seq<i8>, w: int, h: int, opts: Options, rng: Pcg32)
    requires
        w * h >= 0,
    ensures
        color_spec(m, w, h, opts, rng).0.len() == w * h,
{
    let vertical = coin_of(pcg_output(rng.state));
    let r1 = Pcg32 { state: pcg_advance(rng.state) };
    let sat = unit_of(pcg_output(r1.state)) * opts.saturation / 1000;
    let r2 = Pcg32 { state: pcg_advance(r1.state) };
    let hue0 = unit_of(pcg_output(r2.state));
    let r3 = Pcg32 { state: pcg_advance(r2.state) };
    let init = GradientState {
        pixels: Seq::new((w * h) as nat, |i: int| UNSET_PIXEL),
        rng: r3,
        hue: hue0,
    };
    lemma_gradient_pass_len(
        m,
        w,
        h,
        opts,
        vertical,
        sat,
        init,
        (if vertical {
            h
        } else {
            w
        }) as nat,
    );
}


/// Edge darkening of a colored pixel: a border cell packs exactly the
/// darkened channels of the fill color that the same hue, saturation and
/// lightness draw would give, and each darkened channel stays below the
/// edge-brightness fraction of the undarkened one.
pub proof fn lemma_border_pixel_darkening(hue: int, sat: int, l: int, eb: int)
    requires
        0 <= sat <= 1000,
        0 <= l <= 1000,
        0 <= eb <= 1000,
    ensures
        gradient_pixel(-1i8, hue, sat, l, eb) == pack_rgb(
            darken(hsl_rgb(hue, sat, l).0, eb),
            darken(hsl_rgb(hue, sat, l).1, eb),
            darken(hsl_rgb(hue, sat, l).2, eb),
        ),
        gradient_pixel(1i8, hue, sat, l, eb) == pack_rgb(
            hsl_rgb(hue, sat, l).0,
            hsl_rgb(hue, sat, l).1,
            hsl_rgb(hue, sat, l).2,
        ),
        1000 * darken(hsl_rgb(hue, sat, l).0, eb) <= eb * hsl_rgb(hue, sat, l).0,
        1000 * darken(hsl_rgb(hue, sat, l).1, eb) <= eb * hsl_rgb(hue, sat, l).1,
        1000 * darken(hsl_rgb(hue, sat, l).2, eb) <= eb * hsl_rgb(hue, sat, l).2,
        darken(hsl_rgb(hue, sat, l).0, eb) <= hsl_rgb(hue, sat, l).0,
        darken(hsl_rgb(hue, sat, l).1, eb) <= hsl_rgb(hue, sat, l).1,
        darken(hsl_rgb(hue, sat, l).2, eb) <= hsl_rgb(hue, sat, l).2,
{
    let fill = hsl_rgb(hue, sat, l);
    lemma_hsl_rgb_bounds(hue, sat, l);
    lemma_edge_darkening(fill.0, eb);
    lemma_edge_darkening(fill.1, eb);
    lemma_edge_darkening(fill.2, eb);
}


/// A slice never writes the pixel of an empty cell.
pub proof fn lemma_gradient_slice_empty(
    m: Seq<i8>,
    w: int,
    opts: Options,
    vertical: bool,
    sat: int,
    base: int,
    u: int,
    st: GradientState,
    v: nat,
    i: int,
)
    requires
        0 <= i < st.pixels.len(),
        m[i] == 0,
    ensures
        gradient_slice(m, w, opts, vertical, sat, base, u, st, v).pixels[i] == st.pixels[i],
    decreases v,
{
    if v > 0 {
        lemma_gradient_slice_empty(m, w, opts, vertical, sat, base, u, st, (v - 1) as nat, i);
        lemma_gradient_slice_len(m, w, opts, vertical, sat, base, u, st, (v - 1) as nat);
    }
}

/// The pass never writes the pixel of an empty cell.
pub proof fn lemma_gradient_pass_empty(
    m: Seq<i8>,
    w: int,
    h: int,
    opts: Options,
    vertical: bool,
    sat: int,
    st: GradientState,
    u: nat,
    i: int,
)
    requires
        0 <= i < st.pixels.len(),
        m[i] == 0,
    ensures
        gradient_pass(m, w, h, opts, vertical, sat, st, u).pixels[i] == st.pixels[i],
    decreases u,
{
    if u > 0 {
        lemma_gradient_pass_empty(m, w, h, opts, vertical, sat, st, (u - 1) as nat, i);
        lemma_gradient_pass_len(m, w, h, opts, vertical, sat, st, (u - 1) as nat);
        let prev = gradient_pass(m, w, h, opts, vertical, sat, st, (u - 1) as nat);
        let s1 = signed_unit_of(pcg_output(prev.rng.state));
        let r1 = Pcg32 { state: pcg_advance(prev.rng.state) };
        let s2 = signed_unit_of(pcg_output(r1.state));
        let r2 = Pcg32 { state: pcg_advance(r1.state) };
        let s3 = signed_unit_of(pcg_output(r2.state));
        let r3 = Pcg32 { state: pcg_advance(r2.state) };
        let fresh = dist(s1 + s2 + s3, 0) > hue_threshold(opts.color_variations as int);
        let hue2 = if fresh {
            unit_of(pcg_output(r3.state))
        } else {
            prev.hue
        };
        let r4 = if fresh {
            Pcg32 { state: pcg_advance(r3.state) }
        } else {
            r3
        };
        let un = if vertical {
            h
        } else {
            w
        };
        let vn = if vertical {
            w
        } else {
            h
        };
        let base = half_ramp(u - 1, un) * (1000 - opts.brightness_noise) / 1000;
        lemma_gradient_slice_empty(
            m,
            w,
            opts,
            vertical,
            sat,
            base,
            u - 1,
            GradientState { pixels: prev.pixels, rng: r4, hue: hue2 },
            vn as nat,
            i,
        );
    }
}

/// The gradient strategy leaves the pixel of every empty cell at the unset
/// sentinel: opaque white.
pub proof fn lemma_color_spec_empty_cells(
    m: Seq<i8>,
    w: int,
    h: int,
    opts: Options,
    rng: Pcg32,
    i: int,
)
    requires
        0 <= i < w * h,
        m[i] == 0,
    ensures
        color_spec(m, w, h, opts, rng).0[i] == UNSET_PIXEL,
{
    let vertical = coin_of(pcg_output(rng.state));
    let r1 = Pcg32 { state: pcg_advance(rng.state) };
    let sat = unit_of(pcg_output(r1.state)) * opts.saturation / 1000;
    let r2 = Pcg32 { state: pcg_advance(r1.state) };
    let hue0 = unit_of(pcg_output(r2.state));
    let r3 = Pcg32 { state: pcg_advance(r2.state) };
    let init = GradientState {
        pixels: Seq::new((w * h) as nat, |j: int| UNSET_PIXEL),
        rng: r3,
        hue: hue0,
    };
    lemma_gradient_pass_empty(
        m,
        w,
        h,
        opts,
        vertical,
        sat,
        init,
        (if vertical {
            h
        } else {
            w
        }) as nat,
        i,
    );
}

} // verus!
