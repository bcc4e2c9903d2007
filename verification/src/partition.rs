//! Contiguous chunks of a particle population, one per worker.
//!
//! The chunk size is the population divided by the number of workers,
//! rounded up; chunk `k` starts at `k` chunk sizes and the last chunk ends
//! with the population. The solver does not work out quotients of given
//! numbers by itself: where a proof needs the chunks of, say, ten particles
//! over four workers, it states the size first
//! (`assert(spec_chunk_size(10, 4) == 3)`), and the count and the bounds
//! follow.

use vstd::prelude::*;

verus! {

/// The number of workers a requested parallelism degree stands for: a degree
/// of zero is served by one worker.
pub open spec fn spec_worker_limit(workers: nat) -> nat {
    if workers == 0 {
        1
    } else {
        workers
    }
}

/// The chunk size for `particles` particles over `workers` workers: the
/// quotient `particles / workers`, rounded up.
pub open spec fn spec_chunk_size(particles: nat, workers: nat) -> nat {
    let limit = spec_worker_limit(workers);
    ((particles + limit - 1) / (limit as int)) as nat
}

/// Chunks of the chunk size, as many as there are workers, hold every
/// particle. The size is at least one where there are particles, and never
/// more than there are particles.
pub proof fn lemma_chunk_size_suffices(particles: nat, workers: nat)
    ensures
        spec_chunk_size(particles, workers) * spec_worker_limit(workers) >= particles,
        particles > 0 ==> 1 <= spec_chunk_size(particles, workers) <= particles,
        particles == 0 ==> spec_chunk_size(particles, workers) == 0,
{
    let limit = spec_worker_limit(workers) as int;
    let n = particles as int;
    let c = (n + limit - 1) / limit;
    assert(c * limit >= n && c >= 0 && (n > 0 ==> 1 <= c <= n) && (n == 0 ==> c == 0))
        by (nonlinear_arith)
        requires
            limit >= 1,
            n >= 0,
            c == (n + limit - 1) / limit,
    ;
}

/// No smaller size lets as many chunks as there are workers hold every
/// particle: the chunk size is the quotient rounded up.
pub proof fn lemma_chunk_size_is_least(particles: nat, workers: nat, size: nat)
    requires
        size * spec_worker_limit(workers) >= particles,
    ensures
        size >= spec_chunk_size(particles, workers),
{
    let limit = spec_worker_limit(workers) as int;
    let n = particles as int;
    let c = (n + limit - 1) / limit;
    assert(size >= c) by (nonlinear_arith)
        requires
            size * limit >= n,
            c == (n + limit - 1) / limit,
            limit >= 1,
            n >= 0,
    ;
}

/// The chunk size for `particles` particles over `workers` workers.
pub fn chunk_size(particles: usize, workers: usize) -> (size: usize)
    ensures
        size == spec_chunk_size(particles as nat, workers as nat),
{
    if workers == 0 {
        assert(spec_worker_limit(0) == 1);
        assert((particles + 1 - 1) / 1 == particles);
        particles
    } else {
        let quotient: usize = particles / workers;
        let rest: usize = particles % workers;
        proof {
            let n = particles as int;
            let t = workers as int;
            assert((n + t - 1) / t == if n % t == 0 {
                n / t
            } else {
                n / t + 1
            }) by (nonlinear_arith)
                requires
                    n >= 0,
                    t >= 1,
            ;
            assert(n / t <= n) by (nonlinear_arith)
                requires
                    n >= 0,
                    t >= 1,
            ;
            if n % t != 0 {
                assert(n / t < n) by (nonlinear_arith)
                    requires
                        n >= 0,
                        t >= 1,
                        n % t != 0,
                ;
            }
        }
        if rest == 0 {
            quotient
        } else {
            quotient + 1
        }
    }
}

/// A contiguous run of particle indices, `start` included and `end` not.
#[derive(Clone, Copy, Debug, PartialEq, Eq, Structural)]
pub struct Chunk {
    pub start: usize,
    pub end: usize,
}

impl Chunk {
    /// The number of particles in the chunk.
    pub open spec fn spec_len(&self) -> nat {
        if self.start <= self.end {
            (self.end - self.start) as nat
        } else {
            0
        }
    }

    /// Whether the particle `index` belongs to the chunk.
    pub open spec fn spec_contains(&self, index: nat) -> bool {
        self.start <= index < self.end
    }

    /// The number of particles in the chunk.
    pub fn len(&self) -> (len: usize)
        ensures
            len == self.spec_len(),
    {
        if self.start <= self.end {
            self.end - self.start
        } else {
            0
        }
    }

    /// Whether the particle `index` belongs to the chunk.
    pub fn contains(&self, index: usize) -> (found: bool)
        ensures
            found == self.spec_contains(index as nat),
    {
        self.start <= index && index < self.end
    }
}

/// The number of chunks: as many chunks of the chunk size as it takes to
/// hold every particle.
pub open spec fn spec_chunk_count(particles: nat, workers: nat) -> nat {
    let size = spec_chunk_size(particles, workers);
    if size == 0 {
        0
    } else {
        ((particles + size - 1) / (size as int)) as nat
    }
}

/// The first particle of chunk `k`.
pub open spec fn spec_chunk_start(particles: nat, workers: nat, k: nat) -> nat {
    k * spec_chunk_size(particles, workers)
}

/// The end of chunk `k`: a full chunk size after its start, or the end of the
/// population where that comes first.
pub open spec fn spec_chunk_end(particles: nat, workers: nat, k: nat) -> nat {
    let full = (k + 1) * spec_chunk_size(particles, workers);
    if full <= particles {
        full
    } else {
        particles
    }
}

/// The number of particles in chunk `k`.
pub open spec fn spec_chunk_len(particles: nat, workers: nat, k: nat) -> nat {
    (spec_chunk_end(particles, workers, k) - spec_chunk_start(particles, workers, k)) as nat
}

/// Whether `chunks` is the partition of `particles` particles over `workers`
/// workers.
pub open spec fn is_partition(chunks: Seq<Chunk>, particles: nat, workers: nat) -> bool {
    &&& chunks.len() == spec_chunk_count(particles, workers)
    &&& forall|k: int|
        0 <= k < chunks.len() ==> {
            &&& (#[trigger] chunks[k]).start == spec_chunk_start(particles, workers, k as nat)
            &&& chunks[k].end == spec_chunk_end(particles, workers, k as nat)
        }
}

/// With chunks of `size` particles, chunk `k` exists exactly when it starts
/// inside the population.
proof fn lemma_count_bounds(particles: nat, size: nat, k: nat)
    requires
        size >= 1,
    ensures
        k * size < particles <==> k < (particles + size - 1) / (size as int),
{
    let n = particles as int;
    let c = size as int;
    let q = (n + c - 1) / c;
    assert((k * c < n) <==> (k < q)) by (nonlinear_arith)
        requires
            c >= 1,
            n >= 0,
            k >= 0,
            q == (n + c - 1) / c,
    ;
}

/// The chunks tile the population: none is empty, the first starts at
/// particle 0, each next one starts where the one before it ends, the last
/// ends with the population, and there are no more chunks than workers.
pub proof fn lemma_partition_tiles(particles: nat, workers: nat)
    ensures
        spec_chunk_count(particles, workers) <= spec_worker_limit(workers),
        particles > 0 ==> spec_chunk_count(particles, workers) >= 1,
        particles == 0 ==> spec_chunk_count(particles, workers) == 0,
        forall|k: nat|
            k < spec_chunk_count(particles, workers) ==> #[trigger] spec_chunk_start(
                particles,
                workers,
                k,
            ) < spec_chunk_end(particles, workers, k) <= particles,
        forall|k: nat|
            k + 1 < spec_chunk_count(particles, workers) ==> #[trigger] spec_chunk_end(
                particles,
                workers,
                k,
            ) == spec_chunk_start(particles, workers, k + 1),
        spec_chunk_start(particles, workers, 0) == 0,
        spec_chunk_count(particles, workers) > 0 ==> spec_chunk_end(
            particles,
            workers,
            (spec_chunk_count(particles, workers) - 1) as nat,
        ) == particles,
{
    let size = spec_chunk_size(particles, workers);
    let count = spec_chunk_count(particles, workers);
    let limit = spec_worker_limit(workers);
    lemma_chunk_size_suffices(particles, workers);
    if size >= 1 {
        lemma_count_bounds(particles, size, limit);
        lemma_count_bounds(particles, size, 0);
        assert(0 * size == 0);
        assert(limit * size == size * limit) by (nonlinear_arith);
        assert forall|k: nat| k < count implies #[trigger] spec_chunk_start(particles, workers, k)
            < spec_chunk_end(particles, workers, k) <= particles by {
            lemma_count_bounds(particles, size, k);
            assert((k + 1) * size == k * size + size) by (nonlinear_arith);
        }
        assert forall|k: nat| k + 1 < count implies #[trigger] spec_chunk_end(
            particles,
            workers,
            k,
        ) == spec_chunk_start(particles, workers, k + 1) by {
            lemma_count_bounds(particles, size, k + 1);
        }
        let last = (count - 1) as nat;
        lemma_count_bounds(particles, size, last + 1);
    }
}

/// Every particle lies in exactly one chunk: the chunk whose number is the
/// particle's index divided by the chunk size holds it, and no other does.
pub proof fn lemma_partition_covers_once(particles: nat, workers: nat, index: nat)
    requires
        index < particles,
    ensures
        index / spec_chunk_size(particles, workers) < spec_chunk_count(particles, workers),
        forall|k: nat|
            k < spec_chunk_count(particles, workers) ==> ((#[trigger] spec_chunk_start(
                particles,
                workers,
                k,
            ) <= index < spec_chunk_end(particles, workers, k)) <==> k == index
                / spec_chunk_size(particles, workers)),
{
    let size = spec_chunk_size(particles, workers);
    let count = spec_chunk_count(particles, workers);
    lemma_chunk_size_suffices(particles, workers);
    let owner = index / size;
    assert(owner * size <= index < (owner + 1) * size && owner >= 0) by (nonlinear_arith)
        requires
            size >= 1,
            index >= 0,
            owner == index / size,
    ;
    lemma_count_bounds(particles, size, owner);
    assert forall|k: nat| k < count implies ((#[trigger] spec_chunk_start(particles, workers, k)
        <= index < spec_chunk_end(particles, workers, k)) <==> k == owner) by {
        if k < owner {
            assert((k + 1) * size <= owner * size) by (nonlinear_arith)
                requires
                    k + 1 <= owner,
                    size >= 1,
            ;
        } else if k > owner {
            assert(k * size >= (owner + 1) * size) by (nonlinear_arith)
                requires
                    k >= owner + 1,
                    size >= 1,
            ;
        }
    }
}

/// Every particle lies in exactly one chunk of the partition.
pub proof fn lemma_chunks_cover_once(
    chunks: Seq<Chunk>,
    particles: nat,
    workers: nat,
    index: nat,
)
    requires
        is_partition(chunks, particles, workers),
        index < particles,
    ensures
        0 <= index / spec_chunk_size(particles, workers) < chunks.len(),
        forall|k: int|
            0 <= k < chunks.len() ==> ((#[trigger] chunks[k]).spec_contains(index) <==> k == index
                / spec_chunk_size(particles, workers)),
{
    lemma_partition_covers_once(particles, workers, index);
    lemma_chunk_size_suffices(particles, workers);
    let owner = index / spec_chunk_size(particles, workers);
    assert forall|k: int| 0 <= k < chunks.len() implies ((#[trigger] chunks[k]).spec_contains(
        index,
    ) <==> k == owner) by {
        let start = spec_chunk_start(particles, workers, k as nat);
        assert(start <= index < spec_chunk_end(particles, workers, k as nat) <==> k as nat
            == owner);
    }
}

/// Every chunk but the last holds a full chunk size of particles; the last
/// holds at least one and at most a chunk size.
pub proof fn lemma_chunk_lens(particles: nat, workers: nat, k: nat)
    requires
        k < spec_chunk_count(particles, workers),
    ensures
        k + 1 < spec_chunk_count(particles, workers) ==> spec_chunk_len(particles, workers, k)
            == spec_chunk_size(particles, workers),
        1 <= spec_chunk_len(particles, workers, k) <= spec_chunk_size(particles, workers),
{
    let size = spec_chunk_size(particles, workers);
    lemma_partition_tiles(particles, workers);
    assert((k + 1) * size == k * size + size) by (nonlinear_arith);
    if k + 1 < spec_chunk_count(particles, workers) {
        lemma_count_bounds(particles, size, k + 1);
    }
}

/// The number of particles in the first `k` chunks.
pub open spec fn spec_len_sum(particles: nat, workers: nat, k: nat) -> nat
    decreases k,
{
    if k == 0 {
        0
    } else {
        spec_len_sum(particles, workers, (k - 1) as nat) + spec_chunk_len(
            particles,
            workers,
            (k - 1) as nat,
        )
    }
}

/// The first `k` chunks hold the particles before the start of chunk `k`,
/// and all the chunks together hold the whole population.
pub proof fn lemma_len_sum(particles: nat, workers: nat, k: nat)
    requires
        k <= spec_chunk_count(particles, workers),
    ensures
        k < spec_chunk_count(particles, workers) ==> spec_len_sum(particles, workers, k)
            == spec_chunk_start(particles, workers, k),
        k == spec_chunk_count(particles, workers) ==> spec_len_sum(particles, workers, k)
            == particles,
    decreases k,
{
    lemma_partition_tiles(particles, workers);
    if k > 0 {
        lemma_len_sum(particles, workers, (k - 1) as nat);
        assert(spec_chunk_start(particles, workers, (k - 1) as nat) < spec_chunk_end(
            particles,
            workers,
            (k - 1) as nat,
        ));
        if k < spec_chunk_count(particles, workers) {
            assert(spec_chunk_end(particles, workers, (k - 1) as nat) == spec_chunk_start(
                particles,
                workers,
                ((k - 1) as nat) + 1,
            ));
        }
    }
}

/// Whether the sizes of any two chunks differ by at most one particle.
pub open spec fn spec_balanced(particles: nat, workers: nat) -> bool {
    forall|j: nat, k: nat|
        j < spec_chunk_count(particles, workers) && k < spec_chunk_count(particles, workers)
            ==> #[trigger] spec_chunk_len(particles, workers, j) <= #[trigger] spec_chunk_len(
            particles,
            workers,
            k,
        ) + 1
}

/// The chunk sizes differ by at most one exactly when the last chunk is at
/// most one particle short of the chunk size.
pub proof fn lemma_balanced(particles: nat, workers: nat)
    ensures
        spec_balanced(particles, workers) <==> (particles == 0 || spec_chunk_len(
            particles,
            workers,
            (spec_chunk_count(particles, workers) - 1) as nat,
        ) + 1 >= spec_chunk_size(particles, workers)),
{
    let count = spec_chunk_count(particles, workers);
    let size = spec_chunk_size(particles, workers);
    lemma_partition_tiles(particles, workers);
    if particles > 0 {
        let last = (count - 1) as nat;
        if spec_chunk_len(particles, workers, last) + 1 >= size {
            assert forall|j: nat, k: nat| j < count && k < count implies #[trigger] spec_chunk_len(
                particles,
                workers,
                j,
            ) <= #[trigger] spec_chunk_len(particles, workers, k) + 1 by {
                lemma_chunk_lens(particles, workers, j);
                lemma_chunk_lens(particles, workers, k);
            }
        } else {
            lemma_chunk_lens(particles, workers, last);
            if spec_balanced(particles, workers) {
                assert(count >= 2) by {
                    if count == 1 {
                        lemma_chunk_size_suffices(particles, workers);
                        assert(spec_chunk_start(particles, workers, 0) == 0);
                    }
                }
                lemma_chunk_lens(particles, workers, 0);
                assert(spec_chunk_len(particles, workers, 0) <= spec_chunk_len(
                    particles,
                    workers,
                    last,
                ) + 1);
            }
        }
    }
}

/// The partition of `particles` particles over `workers` workers: contiguous
/// chunks of the chunk size, in order, the last one possibly shorter.
pub fn partition(particles: usize, workers: usize) -> (chunks: Vec<Chunk>)
    ensures
        is_partition(chunks@, particles as nat, workers as nat),
{
    let size = chunk_size(particles, workers);
    let mut chunks: Vec<Chunk> = Vec::new();
    let mut start: usize = 0;
    proof {
        lemma_chunk_size_suffices(particles as nat, workers as nat);
        lemma_partition_tiles(particles as nat, workers as nat);
        assert(0 * size == 0);
    }
    while start < particles
        invariant
            size == spec_chunk_size(particles as nat, workers as nat),
            particles > 0 ==> size >= 1,
            start <= particles,
            chunks.len() <= spec_chunk_count(particles as nat, workers as nat),
            start < particles ==> start == chunks.len() * size,
            start == particles ==> chunks.len() == spec_chunk_count(
                particles as nat,
                workers as nat,
            ),
            forall|k: int|
                0 <= k < chunks.len() ==> {
                    &&& (#[trigger] chunks[k]).start == spec_chunk_start(
                        particles as nat,
                        workers as nat,
                        k as nat,
                    )
                    &&& chunks[k].end == spec_chunk_end(
                        particles as nat,
                        workers as nat,
                        k as nat,
                    )
                },
        decreases particles - start,
    {
        let ghost k = chunks.len() as nat;
        let end: usize = if particles - start > size {
            start + size
        } else {
            particles
        };
        proof {
            assert((k + 1) * size == k * size + size) by (nonlinear_arith);
            lemma_count_bounds(particles as nat, size as nat, k);
            lemma_count_bounds(particles as nat, size as nat, k + 1);
        }
        chunks.push(Chunk { start, end });
        start = end;
    }
    chunks
}

} // verus!
