//! Procedural generation of symmetric pixel-art sprites.
//!
//! A small hand-authored template (the mask) says which cells of a sprite are
//! always border, always empty, or ambiguous.  The generator resolves the
//! ambiguous cells with a seeded random source, grows a one-cell border around
//! the filled shapes, colors the result either as a two-tone bitmap or with an
//! HSL gradient, and finally mirrors the buffer to enforce symmetry.
//!
//! The whole pipeline is a pure function of `(mask, options)`: the same mask
//! and options (including the seed) always produce the same pixel buffer.

pub mod color;
pub mod edges;
pub mod generate;
pub mod input;
pub mod mask;
pub mod mirror;
pub mod options;
pub mod resolve;
pub mod rng;

pub use generate::{gen_sprite, GenError, SpriteBuffer};
pub use mask::MaskValue;
pub use options::Options;
