//! Affine maps of the plane.

use vstd::prelude::*;

use crate::types::Number;

verus! {

/// The affine map that sends `(x, y)` to `(a x + b y + c, d x + e y + f)`.
#[derive(Clone, Copy, Debug, PartialEq, Eq, Structural)]
pub struct AffineTransformation {
    pub a: Number,
    pub b: Number,
    pub c: Number,
    pub d: Number,
    pub e: Number,
    pub f: Number,
}

impl AffineTransformation {
    /// The identity map, written with ones on the diagonal and positive
    /// zeros elsewhere.
    pub open spec fn spec_identity() -> AffineTransformation {
        AffineTransformation {
            a: Number::spec_one(),
            b: Number::spec_zero(),
            c: Number::spec_zero(),
            d: Number::spec_zero(),
            e: Number::spec_one(),
            f: Number::spec_zero(),
        }
    }

    /// The identity map.
    pub fn identity() -> (map: AffineTransformation)
        ensures
            map == AffineTransformation::spec_identity(),
    {
        AffineTransformation {
            a: Number::one(),
            b: Number::zero(),
            c: Number::zero(),
            d: Number::zero(),
            e: Number::one(),
            f: Number::zero(),
        }
    }

    /// Whether the map is the identity as `identity` writes it.
    pub fn is_identity(&self) -> (same: bool)
        ensures
            same == (*self == AffineTransformation::spec_identity()),
    {
        self.a.to_bits() == 0x3F80_0000 && self.b.to_bits() == 0 && self.c.to_bits() == 0
            && self.d.to_bits() == 0 && self.e.to_bits() == 0x3F80_0000 && self.f.to_bits() == 0
    }
}

} // verus!
