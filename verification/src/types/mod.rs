//! The data model: numbers, points, particles, the system, transforms.

use vstd::prelude::*;

pub mod affine_transformation;
pub mod particle;
pub mod point;
pub mod system;
pub mod transform;

pub use self::affine_transformation::AffineTransformation;
pub use self::particle::Particle;
pub use self::point::Number;
pub use self::point::Point;
pub use self::system::System;
pub use self::transform::Transform;

verus! {

/// A map from points to points.
pub trait Applicable {
    /// Maps `point` to its image.
    fn apply(&self, point: &Point) -> Point;
}

} // verus!
