//! The system: what every particle of one run has in common.

use vstd::prelude::*;

use crate::types::Applicable;
use crate::types::Number;
use crate::types::Particle;
use crate::types::Point;

verus! {

/// The configuration of a run: the lifetime that every particle is seeded
/// with.
#[derive(Clone, Copy, Debug, PartialEq, Eq, Structural)]
pub struct System {
    pub ttl: i32,
}

impl System {
    /// A new particle at `seed`, with color zero and the system's lifetime.
    pub open spec fn spec_make_particle(&self, seed: Point) -> Particle {
        Particle { point: seed, color: Number::spec_zero(), ttl: self.ttl }
    }

    /// A new particle at `seed`, with color zero and the system's lifetime.
    pub fn make_particle(&self, seed: Point) -> (particle: Particle)
        ensures
            particle == self.spec_make_particle(seed),
    {
        Particle { point: seed, color: Number::zero(), ttl: self.ttl }
    }

    /// A population: one new particle at each of `seeds`, in their order.
    pub fn make_particles(&self, seeds: &[Point]) -> (particles: Vec<Particle>)
        ensures
            particles@ == seeds@.map_values(|seed: Point| self.spec_make_particle(seed)),
    {
        let mut particles: Vec<Particle> = Vec::with_capacity(seeds.len());
        let mut made: usize = 0;
        while made < seeds.len()
            invariant
                made <= seeds.len(),
                particles@ == seeds@.take(made as int).map_values(
                    |seed: Point| self.spec_make_particle(seed),
                ),
            decreases seeds.len() - made,
        {
            particles.push(self.make_particle(seeds[made]));
            made = made + 1;
            assert(particles@ =~= seeds@.take(made as int).map_values(
                |seed: Point| self.spec_make_particle(seed),
            ));
        }
        assert(seeds@.take(made as int) =~= seeds@);
        particles
    }

    /// One step of a particle's orbit, in place: its point becomes the image
    /// of its point under `transform`, its color becomes `color`, the blend
    /// of its color with the transform's as the caller computed it. The
    /// lifetime is neither read nor changed.
    pub fn animate_particle_mut<T: Applicable>(
        &self,
        particle: &mut Particle,
        transform: &T,
        color: Number,
    )
        ensures
            call_ensures(T::apply, (transform, &old(particle).point), final(particle).point),
            final(particle).color == color,
            final(particle).ttl == old(particle).ttl,
    {
        let point = transform.apply(&particle.point);
        particle.point = point;
        particle.color = color;
    }
}

} // verus!
