//! The sprite generator: the whole pipeline as one pure function.
//!
//! `gen_sprite` resolves the ambiguous cells of the mask with a random
//! source seeded from the options, grows a one-cell border around the
//! resolved shapes, colors the buffer with the selected strategy, and
//! mirrors the result.  The output is pinned down exactly: it equals
//! [`gen_sprite_spec`] of the inputs, so identical masks and options always
//! produce identical pixels.

use vstd::prelude::*;

use crate::color::{
    color_output, color_spec, lemma_color_spec_len, onebit_output, onebit_pixel, onebit_spec,
};
use crate::edges::{grid_index, grow_edges, grow_spec};
use crate::mask::{mask_value_i8, MaskValue};
use crate::mirror::{
    lemma_mirror_preserves, lemma_mirror_symmetry, mirror_buffer, mirror_spec, out_height,
    out_width,
};
use crate::options::Options;
use crate::resolve::{lemma_resolve_upto_frame, resolve_mask, resolve_spec};
use crate::rng::{pcg_seed_state, Pcg32};
use vstd::arithmetic::div_mod::lemma_fundamental_div_mod;

verus! {

/// Why a generation call was rejected.
#[derive(Debug, Clone, Copy, PartialEq, Eq, Structural)]
pub enum GenError {
    /// The mask is empty or the mask width is zero.
    InvalidDimensions,
}

/// A generated image: its pixels in row-major order, its dimensions, and
/// whether the mask length was not a multiple of the width, so that the
/// trailing cells were dropped.
#[derive(Debug, Clone)]
pub struct SpriteBuffer {
    /// The packed pixels, `width * height` of them in row-major order.
    pub pixels: Vec<u32>,
    /// The width of the image: the mask width, doubled when mirrored.
    pub width: usize,
    /// The height of the image: the mask height, doubled when mirrored.
    pub height: usize,
    /// Whether trailing mask cells beyond the last full row were dropped.
    pub truncated: bool,
}

/// The signed cell codes of a mask.
pub open spec fn mask_codes(mask: Seq<MaskValue>) -> Seq<i8> {
    mask.map(|i: int, m: MaskValue| mask_value_i8(m))
}

/// The colored buffer of the selected strategy.
pub open spec fn colored_spec(grown: Seq<i8>, w: int, h: int, opts: Options, rng: Pcg32) -> Seq<
    u32,
> {
    if opts.colored {
        color_spec(grown, w, h, opts, rng).0
    } else {
        onebit_spec(grown)
    }
}

/// The pixels that `gen_sprite` returns: the mask truncated to whole rows,
/// resolved, grown, colored and mirrored, with every draw taken in order
/// from the source seeded with the options seed.
pub open spec fn gen_sprite_spec(mask: Seq<MaskValue>, w: int, opts: Options) -> Seq<u32>
    recommends
        w > 0,
{
    let h = mask.len() as int / w;
    let codes = mask_codes(mask).subrange(0, w * h);
    let rng0 = Pcg32 { state: pcg_seed_state(opts.seed) };
    let resolved = resolve_spec(codes, rng0).0;
    let rng1 = resolve_spec(codes, rng0).1;
    let grown = grow_spec(resolved, w, h);
    let colored = colored_spec(grown, w, h, opts, rng1);
    mirror_spec(colored, w, h, opts.mirror_x, opts.mirror_y)
}

/// Generate a sprite from a mask of `mask_width` columns.
///
/// The mask height is its length divided by the width; trailing cells
/// beyond the last whole row are dropped and reported through the
/// `truncated` flag.  An empty mask or a zero width is rejected.  The
/// returned pixels are a function of the mask and the options alone:
/// repeated calls with equal arguments return equal buffers.
pub fn gen_sprite(mask: &Vec<MaskValue>, mask_width: usize, options: Options) -> (out: Result<
    SpriteBuffer,
    GenError,
>)
    requires
        options.wf(),
        mask@.len() <= usize::MAX as int / 4,
        mask_width <= usize::MAX as int / 2,
    ensures
        out is Err <==> (mask_width == 0 || mask@.len() == 0),
        out matches Err(e) ==> e == GenError::InvalidDimensions,
        out matches Ok(buf) ==> {
            &&& buf.pixels@ == gen_sprite_spec(mask@, mask_width as int, options)
            &&& buf.width == out_width(mask_width as int, options.mirror_x)
            &&& buf.height == out_height(
                mask@.len() as int / mask_width as int,
                options.mirror_y,
            )
            &&& buf.pixels@.len() == buf.width * buf.height
            &&& buf.truncated == (mask@.len() as int % mask_width as int != 0)
            &&& (!options.colored ==> forall|i: int|
                0 <= i < buf.pixels@.len() ==> buf.pixels@[i] == 0 || #[trigger] buf.pixels@[i]
                    == 0xffff_ffffu32)
        },
{
    let n = mask.len();
    if mask_width == 0 || n == 0 {
        return Err(GenError::InvalidDimensions);
    }
    let ghost w = mask_width as int;
    let height = n / mask_width;
    let ghost h = height as int;
    let truncated = n % mask_width != 0;
    proof {
        lemma_fundamental_div_mod(n as int, w);
    }
    let core = mask_width * height;
    let mut codes: Vec<i8> = Vec::new();
    for i in 0..core
        invariant
            core <= mask@.len(),
            codes@.len() == i,
            forall|j: int| 0 <= j < i ==> codes@[j] == #[trigger] mask_codes(mask@)[j],
    {
        codes.push(mask[i].i8());
    }
    assert(codes@ =~= mask_codes(mask@).subrange(0, core as int));
    let ghost codes0 = codes@;
    assert forall|j: int| 0 <= j < codes0.len() implies -1 <= #[trigger] codes0[j] <= 2 by {
        assert(codes0[j] == mask_value_i8(mask@[j]));
    }
    let mut rng = Pcg32::new(options.seed);
    let ghost rng0 = rng;
    resolve_mask(&mut codes, &mut rng);
    let grown = grow_edges(&codes, mask_width, height);
    let colored = if options.colored {
        color_output(&grown, mask_width, height, &options, &mut rng)
    } else {
        onebit_output(&grown)
    };
    proof {
        assert(4 * (mask_width as int * height as int) <= usize::MAX);
    }
    let pixels = mirror_buffer(&colored, mask_width, height, options.mirror_x, options.mirror_y);
    let out_w = if options.mirror_x {
        mask_width * 2
    } else {
        mask_width
    };
    let out_h = if options.mirror_y {
        height * 2
    } else {
        height
    };
    proof {
        assert(pixels@ == gen_sprite_spec(mask@, w, options));
        if !options.colored {
            assert forall|j: int| 0 <= j < colored@.len() implies (|px: u32|
                px == 0 || px == 0xffff_ffffu32)(#[trigger] colored@[j]) by {
                assert(colored@[j] == onebit_pixel(grown@[j]));
            }
            lemma_mirror_preserves(
                colored@,
                w,
                h,
                options.mirror_x,
                options.mirror_y,
                |px: u32| px == 0 || px == 0xffff_ffffu32,
            );
        }
    }
    Ok(SpriteBuffer { pixels, width: out_w, height: out_h, truncated })
}


/// Mirror symmetry of the generated image: across each mirrored axis the
/// output pixel at `(x, y)` equals the pixel at the reflected position.
pub proof fn lemma_gen_sprite_mirror_symmetry(
    mask: Seq<MaskValue>,
    w: int,
    opts: Options,
    x: int,
    y: int,
)
    requires
        w > 0,
        0 <= x < out_width(w, opts.mirror_x),
        0 <= y < out_height(mask.len() as int / w, opts.mirror_y),
    ensures
        opts.mirror_x ==> gen_sprite_spec(mask, w, opts)[grid_index(
            out_width(w, opts.mirror_x),
            x,
            y,
        )] == gen_sprite_spec(mask, w, opts)[grid_index(
            out_width(w, opts.mirror_x),
            out_width(w, opts.mirror_x) - 1 - x,
            y,
        )],
        opts.mirror_y ==> gen_sprite_spec(mask, w, opts)[grid_index(
            out_width(w, opts.mirror_x),
            x,
            y,
        )] == gen_sprite_spec(mask, w, opts)[grid_index(
            out_width(w, opts.mirror_x),
            x,
            out_height(mask.len() as int / w, opts.mirror_y) - 1 - y,
        )],
{
    let h = mask.len() as int / w;
    lemma_fundamental_div_mod(mask.len() as int, w);
    let codes = mask_codes(mask).subrange(0, w * h);
    let rng0 = Pcg32 { state: pcg_seed_state(opts.seed) };
    let resolved = resolve_spec(codes, rng0).0;
    let rng1 = resolve_spec(codes, rng0).1;
    lemma_resolve_upto_frame(codes, rng0, codes.len());
    let grown = grow_spec(resolved, w, h);
    let colored = colored_spec(grown, w, h, opts, rng1);
    if opts.colored {
        lemma_color_spec_len(grown, w, h, opts, rng1);
    }
    assert(colored.len() == w * h);
    lemma_mirror_symmetry(colored, w, h, opts.mirror_x, opts.mirror_y, x, y);
}

} // verus!
