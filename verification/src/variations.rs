//! The catalogue of variations.

use vstd::prelude::*;

use crate::types::Applicable;
use crate::types::Number;
use crate::types::Point;

verus! {

/// The identity variation: every point is its own image.
#[derive(Clone, Copy, Debug, PartialEq, Eq, Structural)]
pub struct Linear;

impl Applicable for Linear {
    /// Returns `point` unchanged.
    fn apply(&self, point: &Point) -> (image: Point)
        ensures
            image == *point,
    {
        *point
    }
}

/// The parameters `a`, `b`, `c`, `d` of a De Jong attractor, which sends
/// `(x, y)` to `(sin(a y) - cos(b x), sin(c x) - cos(d y))`.
#[derive(Clone, Copy, Debug, PartialEq, Eq, Structural)]
pub struct DeJong(pub Number, pub Number, pub Number, pub Number);

/// A variation of the catalogue.
#[derive(Clone, Copy, Debug, PartialEq, Eq, Structural)]
pub enum Variation {
    Linear(Linear),
    DeJong(DeJong),
}

} // verus!
