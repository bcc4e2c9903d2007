//! Particles: the state that a worker advances step by step.

use vstd::prelude::*;

use crate::types::Applicable;
use crate::types::Number;
use crate::types::Point;
use crate::wire::encode;
use crate::wire::spec_encode;
use crate::wire::Record;

verus! {

/// A particle: where it is on its orbit, the color it has gathered, and the
/// lifetime it was seeded with.
#[derive(Clone, Copy, Debug, PartialEq, Eq, Structural)]
pub struct Particle {
    pub point: Point,
    pub color: Number,
    pub ttl: i32,
}

impl Particle {
    /// What a client sees of the particle: its point and its color.
    pub open spec fn spec_exported(&self) -> Record {
        Record { point: self.point, color: self.color }
    }

    /// The bytes that stand for the particle on the wire.
    pub open spec fn spec_bytes(&self) -> Seq<u8> {
        spec_encode(self.spec_exported())
    }

    /// What a client sees of the particle: its point and its color.
    pub fn exported(&self) -> (record: Record)
        ensures
            record == self.spec_exported(),
    {
        Record { point: self.point, color: self.color }
    }

    /// The bytes that stand for the particle on the wire: its record,
    /// encoded.
    pub fn bytes(&self) -> (bytes: Vec<u8>)
        ensures
            bytes@ == self.spec_bytes(),
    {
        let record = self.exported();
        encode(&record)
    }

    /// The particle as `transform` shows it: the image of its point, with
    /// its color and lifetime. The particle itself stays as it is.
    pub fn projected<T: Applicable>(&self, transform: &T) -> (image: Particle)
        ensures
            call_ensures(T::apply, (transform, &self.point), image.point),
            image.color == self.color,
            image.ttl == self.ttl,
    {
        let point = transform.apply(&self.point);
        Particle { point, color: self.color, ttl: self.ttl }
    }
}

} // verus!
