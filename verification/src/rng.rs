//! A seeded deterministic random source.
//!
//! The generator pipeline depends only on a seedable source of uniform
//! samples, so that the same seed always reproduces the same sprite.  This
//! module provides one as a permuted congruential generator (64-bit state,
//! 32-bit output): the state advances by a linear congruential step and each
//! output permutes the pre-step state with an xorshift and a rotation.
//!
//! Every operation is specified exactly, so everything drawn from the source
//! is a function of the seed alone.

use vstd::prelude::*;

verus! {

/// Multiplier of the linear congruential state step.
pub const PCG_MULTIPLIER: u64 = 0x5851_f42d_4c95_7f2d;

/// Odd increment of the linear congruential state step.
pub const PCG_INCREMENT: u64 = 0x1405_7b7e_f767_814f;

/// A permuted congruential random number generator.
#[derive(Debug, Clone, Copy, PartialEq, Eq, Structural)]
pub struct Pcg32 {
    /// Current state; advanced by [`pcg_advance`] on every draw.
    pub state: u64,
}

/// The state that follows `state` after one draw.
pub open spec fn pcg_advance(state: u64) -> u64 {
    state.wrapping_mul(PCG_MULTIPLIER).wrapping_add(PCG_INCREMENT)
}

/// The 32-bit output permutation of a state: xorshift, then a rotation by the
/// top five state bits.
pub open spec fn pcg_output(state: u64) -> u32 {
    let xorshifted = (((state >> 18) ^ state) >> 27) as u32;
    let rot = (state >> 59) as u32;
    (xorshifted >> rot) | (xorshifted << (((32u32 - rot) as u32) & 31))
}

/// The state a seed starts from: the seed is folded into the increment and
/// stepped once, so that nearby seeds do not share output prefixes.
pub open spec fn pcg_seed_state(seed: u64) -> u64 {
    pcg_advance(seed.wrapping_add(PCG_INCREMENT))
}

impl Pcg32 {
    /// A generator deterministically seeded with `seed`.
    pub fn new(seed: u64) -> (rng: Pcg32)
        ensures
            rng.state == pcg_seed_state(seed),
    {
        Pcg32 { state: seed.wrapping_add(PCG_INCREMENT).wrapping_mul(PCG_MULTIPLIER).wrapping_add(PCG_INCREMENT) }
    }

    /// One uniform 32-bit draw; the state advances by one step.
    pub fn next_u32(&mut self) -> (r: u32)
        ensures
            r == pcg_output(old(self).state),
            final(self).state == pcg_advance(old(self).state),
    {
        let state = self.state;
        let xorshifted = (((state >> 18) ^ state) >> 27) as u32;
        let rot = (state >> 59) as u32;
        assert(rot < 32) by (bit_vector)
            requires
                rot == (state >> 59) as u32,
        ;
        assert(((32u32 - rot) as u32) & 31 < 32) by (bit_vector)
            requires
                rot < 32,
        ;
        let r = (xorshifted >> rot) | (xorshifted << ((32 - rot) & 31));
        self.state = state.wrapping_mul(PCG_MULTIPLIER).wrapping_add(PCG_INCREMENT);
        r
    }

    /// A draw mapped onto `0..=1000`: a uniform per-mille fraction of one.
    pub fn unit(&mut self) -> (p: u16)
        ensures
            p == unit_of(pcg_output(old(self).state)),
            p <= 1000,
            final(self).state == pcg_advance(old(self).state),
    {
        let r = self.next_u32();
        (r % 1001) as u16
    }

    /// A draw mapped onto `-1000..=1000`: a uniform per-mille fraction of the
    /// closed interval from minus one to one.
    pub fn signed_unit(&mut self) -> (s: i16)
        ensures
            s == signed_unit_of(pcg_output(old(self).state)),
            -1000 <= s <= 1000,
            final(self).state == pcg_advance(old(self).state),
    {
        let r = self.next_u32();
        ((r % 2001) as i16) - 1000
    }

    /// A fair coin: whether the draw fell in the upper half of the 32-bit
    /// range.
    pub fn coin(&mut self) -> (b: bool)
        ensures
            b == coin_of(pcg_output(old(self).state)),
            final(self).state == pcg_advance(old(self).state),
    {
        let r = self.next_u32();
        r >= 0x8000_0000
    }
}

/// How a raw draw is folded onto `0..=1000`.
pub open spec fn unit_of(r: u32) -> u16 {
    (r % 1001) as u16
}

/// How a raw draw is folded onto `-1000..=1000`.
pub open spec fn signed_unit_of(r: u32) -> i16 {
    ((r % 2001) - 1000) as i16
}

/// How a raw draw decides a fair coin: the upper half of the 32-bit range is
/// `true`, the lower half `false`, each holding exactly half of the values.
pub open spec fn coin_of(r: u32) -> bool {
    r >= 0x8000_0000
}

} // verus!
