//! A worker's schedule: the order in which it advances and emits the
//! particles of its chunk.

use vstd::arithmetic::div_mod::lemma_fundamental_div_mod_converse;
use vstd::prelude::*;

use crate::partition::Chunk;

verus! {

/// The particles that a worker on `chunk` emits over `iterations`
/// iterations, in order: the whole chunk from its first particle to its
/// last, once per iteration.
pub open spec fn spec_emissions(chunk: Chunk, iterations: nat) -> Seq<usize> {
    Seq::new(
        chunk.spec_len() * iterations,
        |position: int| (chunk.start + position % (chunk.spec_len() as int)) as usize,
    )
}

/// Emission `offset` of iteration `iteration` is the particle `offset` places
/// into the chunk: the iterations follow one another, and within each the
/// particles come in the chunk's order.
pub proof fn lemma_emission_order(chunk: Chunk, iterations: nat, iteration: nat, offset: nat)
    requires
        iteration < iterations,
        offset < chunk.spec_len(),
    ensures
        iteration * chunk.spec_len() + offset < spec_emissions(chunk, iterations).len(),
        spec_emissions(chunk, iterations)[(iteration * chunk.spec_len() + offset) as int]
            == chunk.start + offset,
        chunk.spec_contains(
            spec_emissions(chunk, iterations)[(iteration * chunk.spec_len() + offset) as int]
                as nat,
        ),
{
    let len = chunk.spec_len() as int;
    let position = iteration * len + offset;
    lemma_fundamental_div_mod_converse(position, len, iteration as int, offset as int);
    assert(position < len * iterations) by (nonlinear_arith)
        requires
            position == iteration * len + offset,
            0 <= offset < len,
            0 <= iteration < iterations,
    ;
}

/// Every emission is a particle of the chunk: the one as many places into
/// the chunk as the emission is into its iteration.
pub proof fn lemma_emission_in_chunk(chunk: Chunk, iterations: nat, position: nat)
    requires
        position < spec_emissions(chunk, iterations).len(),
    ensures
        chunk.spec_len() > 0,
        position / chunk.spec_len() < iterations,
        position % chunk.spec_len() < chunk.spec_len(),
        spec_emissions(chunk, iterations)[position as int] == chunk.start + position
            % chunk.spec_len(),
        chunk.spec_contains(spec_emissions(chunk, iterations)[position as int] as nat),
{
    let len = chunk.spec_len() as int;
    let at = position as int;
    assert(len > 0 && at / len < iterations && 0 <= at % len < len) by (nonlinear_arith)
        requires
            0 <= at < len * iterations,
            len >= 0,
    ;
}

/// A worker's place in its schedule.
#[derive(Debug)]
pub struct Worker {
    chunk: Chunk,
    iterations: usize,
    iteration: usize,
    offset: usize,
}

impl Worker {
    #[verifier::type_invariant]
    spec fn in_schedule(&self) -> bool {
        &&& self.iteration <= self.iterations
        &&& self.iteration < self.iterations && self.chunk.spec_len() > 0 ==> self.offset
            < self.chunk.spec_len()
        &&& self.iteration == self.iterations || self.chunk.spec_len() == 0 ==> self.offset == 0
    }

    /// The worker's chunk.
    pub closed spec fn spec_chunk(&self) -> Chunk {
        self.chunk
    }

    /// The number of iterations that the worker runs.
    pub closed spec fn spec_iterations(&self) -> nat {
        self.iterations as nat
    }

    /// The number of particles that the worker has emitted so far.
    pub closed spec fn spec_emitted(&self) -> nat {
        (self.iteration * self.chunk.spec_len() + self.offset) as nat
    }

    /// The number of particles that the worker emits in all.
    pub open spec fn spec_total(&self) -> nat {
        self.spec_chunk().spec_len() * self.spec_iterations()
    }

    /// A worker at the start of its schedule.
    pub fn new(chunk: Chunk, iterations: usize) -> (worker: Worker)
        ensures
            worker.spec_chunk() == chunk,
            worker.spec_iterations() == iterations,
            worker.spec_emitted() == 0,
    {
        assert(0 * chunk.spec_len() + 0 == 0);
        Worker { chunk, iterations, iteration: 0, offset: 0 }
    }

    /// The next particle to advance and emit, or `None` once the worker has
    /// emitted every particle of its chunk in every iteration; it then owes
    /// its completion signal.
    pub fn next(&mut self) -> (particle: Option<usize>)
        ensures
            final(self).spec_chunk() == old(self).spec_chunk(),
            final(self).spec_iterations() == old(self).spec_iterations(),
            old(self).spec_emitted() <= old(self).spec_total(),
            old(self).spec_emitted() < old(self).spec_total() ==> {
                &&& particle == Some(
                    spec_emissions(old(self).spec_chunk(), old(self).spec_iterations())[old(
                        self,
                    ).spec_emitted() as int],
                )
                &&& final(self).spec_emitted() == old(self).spec_emitted() + 1
            },
            old(self).spec_emitted() == old(self).spec_total() ==> {
                &&& particle is None
                &&& final(self).spec_emitted() == old(self).spec_emitted()
            },
    {
        proof {
            use_type_invariant(&*self);
        }
        let len = self.chunk.len();
        let ghost emitted = self.spec_emitted() as int;
        let ghost count = len as int;
        let ghost rounds = self.iterations as int;
        let ghost round = self.iteration as int;
        let ghost place = self.offset as int;
        if self.iteration >= self.iterations || len == 0 {
            proof {
                assert(emitted == count * rounds) by (nonlinear_arith)
                    requires
                        emitted == round * count + place,
                        place == 0,
                        round == rounds || count == 0,
                ;
            }
            return None;
        }
        proof {
            lemma_emission_order(
                self.chunk,
                self.iterations as nat,
                self.iteration as nat,
                self.offset as nat,
            );
            assert((round + 1) * count == round * count + count) by (nonlinear_arith);
        }
        let particle = self.chunk.start + self.offset;
        if self.offset + 1 == len {
            self.offset = 0;
            self.iteration = self.iteration + 1;
        } else {
            self.offset = self.offset + 1;
        }
        Some(particle)
    }
}

} // verus!
