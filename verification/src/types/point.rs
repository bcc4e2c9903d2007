//! Numbers and points.

use vstd::prelude::*;

verus! {

/// An IEEE-754 single-precision value, held by its bit pattern. Two numbers
/// are equal when their bit patterns are.
#[derive(Clone, Copy, Debug, PartialEq, Eq, Structural)]
pub struct Number {
    pub bits: u32,
}

impl Number {
    /// The number with the given bit pattern.
    pub fn from_bits(bits: u32) -> (number: Number)
        ensures
            number.bits == bits,
    {
        Number { bits }
    }

    /// The bit pattern of the number.
    pub fn to_bits(&self) -> (bits: u32)
        ensures
            bits == self.bits,
    {
        self.bits
    }

    /// Positive zero, whose bit pattern is all zeros.
    pub open spec fn spec_zero() -> Number {
        Number { bits: 0 }
    }

    /// One: sign 0, biased exponent 127, fraction 0.
    pub open spec fn spec_one() -> Number {
        Number { bits: 0x3F80_0000 }
    }

    /// Positive zero.
    pub fn zero() -> (number: Number)
        ensures
            number == Number::spec_zero(),
    {
        Number { bits: 0 }
    }

    /// One.
    pub fn one() -> (number: Number)
        ensures
            number == Number::spec_one(),
    {
        Number { bits: 0x3F80_0000 }
    }
}

/// A point of the plane.
#[derive(Clone, Copy, Debug, PartialEq, Eq, Structural)]
pub struct Point {
    pub x: Number,
    pub y: Number,
}

impl Point {
    /// The point with the given coordinates.
    pub fn new(x: Number, y: Number) -> (point: Point)
        ensures
            point.x == x,
            point.y == y,
    {
        Point { x, y }
    }
}

} // verus!
