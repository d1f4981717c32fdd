//! The cell alphabet of a sprite template.

use vstd::prelude::*;

verus! {

/// One cell of a sprite template, before generation.
///
/// A mask is an ordered buffer of these values together with a width; the
/// height is the buffer length divided by the width.
#[derive(Debug, Default, Clone, Copy, PartialEq, Eq, Structural)]
pub enum MaskValue {
    /// This cell always becomes a border pixel.
    Solid,
    /// This cell always stays empty.
    #[default]
    Empty,
    /// Ambiguous: resolves to empty or to a filled body pixel, each with
    /// probability one half.
    Body1,
    /// Ambiguous: resolves to a border or to a filled body pixel, each with
    /// probability one half.
    Body2,
}

/// The signed encoding of a mask cell: `Solid` is `-1`, `Empty` is `0`,
/// `Body1` is `1` and `Body2` is `2`.
pub open spec fn mask_value_i8(m: MaskValue) -> i8 {
    match m {
        MaskValue::Solid => -1i8,
        MaskValue::Empty => 0i8,
        MaskValue::Body1 => 1i8,
        MaskValue::Body2 => 2i8,
    }
}

impl MaskValue {
    /// The signed encoding of this cell.
    pub fn i8(&self) -> (v: i8)
        ensures
            v == mask_value_i8(*self),
    {
        match self {
            MaskValue::Solid => -1,
            MaskValue::Empty => 0,
            MaskValue::Body1 => 1,
            MaskValue::Body2 => 2,
        }
    }

    /// The cell a signed encoding stands for; every value outside the
    /// alphabet is read as `Empty`.
    pub fn from_i8(v: i8) -> (m: MaskValue)
        ensures
            m == mask_value_from_i8(v),
    {
        if v == -1 {
            MaskValue::Solid
        } else if v == 1 {
            MaskValue::Body1
        } else if v == 2 {
            MaskValue::Body2
        } else {
            MaskValue::Empty
        }
    }
}

/// The decoding used by [`MaskValue::from_i8`].
pub open spec fn mask_value_from_i8(v: i8) -> MaskValue {
    if v == -1 {
        MaskValue::Solid
    } else if v == 1 {
        MaskValue::Body1
    } else if v == 2 {
        MaskValue::Body2
    } else {
        MaskValue::Empty
    }
}

/// Decoding inverts the signed encoding on the whole cell alphabet.
pub proof fn lemma_mask_value_round_trip(m: MaskValue)
    ensures
        mask_value_from_i8(mask_value_i8(m)) == m,
{
}


impl From<i8> for MaskValue {
    fn from(from: i8) -> (m: MaskValue) {
        MaskValue::from_i8(from)
    }
}

impl vstd::std_specs::convert::FromSpecImpl<i8> for MaskValue {
    open spec fn obeys_from_spec() -> bool {
        true
    }

    open spec fn from_spec(v: i8) -> MaskValue {
        mask_value_from_i8(v)
    }
}

impl From<MaskValue> for i8 {
    fn from(from: MaskValue) -> (v: i8) {
        from.i8()
    }
}

impl vstd::std_specs::convert::FromSpecImpl<MaskValue> for i8 {
    open spec fn obeys_from_spec() -> bool {
        true
    }

    open spec fn from_spec(m: MaskValue) -> i8 {
        mask_value_i8(m)
    }
}

} // verus!
