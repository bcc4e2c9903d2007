//! One connection from end to end: the population is partitioned, each chunk
//! gets a worker, and the aggregator merges what the workers send.

use vstd::prelude::*;

use crate::aggregator::lemma_payload_len;
use crate::aggregator::spec_consumed;
use crate::aggregator::spec_payload;
use crate::aggregator::spec_records;
use crate::aggregator::Message;
use crate::interleaving::is_interleaving;
use crate::interleaving::is_worker_stream;
use crate::interleaving::lemma_aggregator_reads_interleaving;
use crate::interleaving::spec_total_records;
use crate::partition::is_partition;
use crate::partition::lemma_chunks_cover_once;
use crate::partition::lemma_len_sum;
use crate::partition::lemma_partition_tiles;
use crate::partition::partition;
use crate::partition::spec_chunk_count;
use crate::partition::spec_chunk_len;
use crate::partition::spec_chunk_size;
use crate::partition::spec_len_sum;
use crate::partition::Chunk;
use crate::wire::RECORD_LEN;
use crate::worker::lemma_emission_in_chunk;
use crate::worker::lemma_emission_order;
use crate::worker::spec_emissions;

verus! {

/// Calls `num_cpus::get`: the number of logical processors that this process
/// may use, as the operating system reports it. Nothing is claimed of the
/// number.
#[verifier::external_body]
fn logical_cpus() -> (cpus: usize) {
    num_cpus::get()
}

/// The partition of `particles` particles over as many workers as this
/// machine has logical processors.
pub fn host_partition(particles: usize) -> (chunks: Vec<Chunk>)
    ensures
        exists|workers: nat| #[trigger] is_partition(chunks@, particles as nat, workers),
{
    let workers = logical_cpus();
    let chunks = partition(particles, workers);
    assert(is_partition(chunks@, particles as nat, workers as nat));
    chunks
}

/// Whether `streams` are what the workers on `chunks` send over `iterations`
/// iterations: one stream per chunk, with one record for each emission of
/// the chunk's worker, and the completion signal after them.
pub open spec fn is_connection(
    streams: Seq<Seq<Message>>,
    chunks: Seq<Chunk>,
    iterations: nat,
) -> bool {
    &&& streams.len() == chunks.len()
    &&& forall|k: int|
        0 <= k < streams.len() ==> {
            &&& is_worker_stream(#[trigger] streams[k])
            &&& spec_records(streams[k]).len() == spec_emissions(chunks[k], iterations).len()
        }
}

/// The first `k` workers of a connection send as many records as their
/// chunks hold particles, times the number of iterations.
proof fn lemma_records_of_first(
    streams: Seq<Seq<Message>>,
    chunks: Seq<Chunk>,
    particles: nat,
    workers: nat,
    iterations: nat,
    k: nat,
)
    requires
        is_partition(chunks, particles, workers),
        is_connection(streams, chunks, iterations),
        k <= streams.len(),
    ensures
        spec_total_records(streams.take(k as int)) == spec_len_sum(particles, workers, k)
            * iterations,
    decreases k,
{
    if k > 0 {
        let before = (k - 1) as nat;
        lemma_records_of_first(streams, chunks, particles, workers, iterations, before);
        lemma_partition_tiles(particles, workers);
        assert(streams.take(k as int).drop_last() =~= streams.take(before as int));
        assert(streams.take(k as int).last() == streams[before as int]);
        let chunk = chunks[before as int];
        assert(spec_chunk_len(particles, workers, before) == chunk.spec_len()) by {
            assert(spec_chunk_count(particles, workers) == chunks.len());
        }
        let sum = spec_len_sum(particles, workers, before) as int;
        let len = chunk.spec_len() as int;
        assert((sum + len) * iterations == sum * iterations + len * iterations)
            by (nonlinear_arith);
    } else {
        assert(0 * iterations == 0);
    }
}

/// In every iteration every particle is emitted once: by the worker on the
/// chunk that holds it, as many places into the iteration as the particle is
/// into the chunk, and nowhere else.
pub proof fn lemma_every_particle_every_iteration(
    chunks: Seq<Chunk>,
    particles: nat,
    workers: nat,
    iterations: nat,
    index: nat,
    iteration: nat,
)
    requires
        is_partition(chunks, particles, workers),
        index < particles,
        iteration < iterations,
    ensures
        0 <= index / spec_chunk_size(particles, workers) < chunks.len(),
        ({
            let chunk = chunks[(index / spec_chunk_size(particles, workers)) as int];
            let position = iteration * chunk.spec_len() + index - chunk.start;
            &&& chunk.spec_contains(index)
            &&& 0 <= position < spec_emissions(chunk, iterations).len()
            &&& spec_emissions(chunk, iterations)[position] == index
        }),
        forall|k: int, position: int|
            0 <= k < chunks.len() && 0 <= position < spec_emissions(chunks[k], iterations).len()
                ==> (#[trigger] spec_emissions(chunks[k], iterations)[position] == index <==> k
                == index / spec_chunk_size(particles, workers) && position % (
            chunks[k].spec_len() as int) == index - chunks[k].start),
{
    lemma_chunks_cover_once(chunks, particles, workers, index);
    let owner = (index / spec_chunk_size(particles, workers)) as int;
    let chunk = chunks[owner];
    assert(chunk.spec_contains(index));
    lemma_emission_order(chunk, iterations, iteration, (index - chunk.start) as nat);
    assert forall|k: int, position: int|
        0 <= k < chunks.len() && 0 <= position < spec_emissions(
            chunks[k],
            iterations,
        ).len() implies (#[trigger] spec_emissions(chunks[k], iterations)[position] == index <==> k
        == owner && position % (chunks[k].spec_len() as int) == index - chunks[k].start) by {
        lemma_emission_in_chunk(chunks[k], iterations, position as nat);
        assert(chunks[k].spec_contains(index) <==> k == owner);
    }
}

/// A connection yields one record for each particle and iteration, whatever
/// the number of workers and however their messages interleave: the
/// aggregator reads every message, and what it writes is as many records
/// as there are particles, times the number of iterations, each of the
/// same width.
pub proof fn lemma_connection_yields_every_record(
    messages: Seq<Message>,
    owner: Seq<int>,
    streams: Seq<Seq<Message>>,
    chunks: Seq<Chunk>,
    particles: nat,
    workers: nat,
    iterations: nat,
)
    requires
        is_partition(chunks, particles, workers),
        is_connection(streams, chunks, iterations),
        is_interleaving(messages, owner, streams),
    ensures
        spec_consumed(streams.len(), messages) == messages.len(),
        spec_records(messages).len() == particles * iterations,
        spec_payload(spec_records(messages)).len() == RECORD_LEN * (particles * iterations),
{
    lemma_aggregator_reads_interleaving(messages, owner, streams);
    lemma_records_of_first(streams, chunks, particles, workers, iterations, streams.len());
    assert(streams.take(streams.len() as int) =~= streams);
    lemma_len_sum(particles, workers, streams.len());
    lemma_payload_len(spec_records(messages));
}

} // verus!
