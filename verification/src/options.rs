//! Generation options.

use vstd::prelude::*;

verus! {

/// The per-mille value that stands for the fraction one.
pub const UNIT: u16 = 1000;

/// The options of [`crate::gen_sprite`](crate::generate::gen_sprite).
///
/// The four intensity fields are per-mille fractions: `0` stands for `0.0`
/// and [`UNIT`] (`1000`) for `1.0`.
#[derive(Debug, Clone, Copy, PartialEq, Eq, Structural)]
pub struct Options {
    /// `true` if the result buffer should be mirrored along the X axis.
    pub mirror_x: bool,
    /// `true` if the result buffer should be mirrored along the Y axis.
    pub mirror_y: bool,
    /// `true` for the HSL-gradient colorizer, `false` for the two-tone
    /// colorizer.  The intensity fields below only apply when this is `true`.
    pub colored: bool,
    /// Per-mille factor that darkens the color of border pixels.
    pub edge_brightness: u16,
    /// Per-mille probability threshold of a hue change along the gradient
    /// axis.
    pub color_variations: u16,
    /// Per-mille amplitude of the additive per-pixel brightness jitter.
    pub brightness_noise: u16,
    /// Per-mille upper bound of the color saturation.
    pub saturation: u16,
    /// Seed of the deterministic random source.
    pub seed: u64,
}

impl Options {
    /// Whether every intensity field is a fraction between zero and one.
    pub open spec fn wf(self) -> bool {
        &&& self.edge_brightness <= UNIT
        &&& self.color_variations <= UNIT
        &&& self.brightness_noise <= UNIT
        &&& self.saturation <= UNIT
    }
}

impl Default for Options {
    /// Colored generation without mirroring: edge brightness `0.3`, color
    /// variations `0.2`, brightness noise `0.3`, saturation `0.5`, seed `0`.
    fn default() -> (opts: Options)
        ensures
            opts.wf(),
            !opts.mirror_x,
            !opts.mirror_y,
            opts.colored,
            opts.edge_brightness == 300,
            opts.color_variations == 200,
            opts.brightness_noise == 300,
            opts.saturation == 500,
            opts.seed == 0,
    {
        Options {
            mirror_x: false,
            mirror_y: false,
            colored: true,
            edge_brightness: 300,
            color_variations: 200,
            brightness_noise: 300,
            saturation: 500,
            seed: 0,
        }
    }
}

} // verus!
