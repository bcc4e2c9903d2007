//! What the aggregator receives when several workers send at once: an
//! interleaving of their streams.

use vstd::multiset::lemma_multiset_empty_len;
use vstd::multiset::Multiset;
use vstd::prelude::*;
use vstd::seq_lib::to_multiset_build;

use crate::aggregator::lemma_consumed;
use crate::aggregator::lemma_consumed_all;
use crate::aggregator::lemma_counts;
use crate::aggregator::spec_consumed;
use crate::aggregator::spec_finished_count;
use crate::aggregator::spec_records;
use crate::aggregator::Message;
use crate::types::Particle;

verus! {

/// Whether `stream` is what one worker sends: records, then one completion
/// signal.
pub open spec fn is_worker_stream(stream: Seq<Message>) -> bool {
    &&& stream.len() > 0
    &&& stream.last() is Finished
    &&& forall|i: int| 0 <= i < stream.len() - 1 ==> #[trigger] stream[i] is Generated
}

/// The messages that worker `worker` sent, in order, where `owner` names the
/// sender of each of `messages`.
pub open spec fn spec_stream_of(messages: Seq<Message>, owner: Seq<int>, worker: int) -> Seq<
    Message,
>
    decreases messages.len(),
{
    if messages.len() == 0 || owner.len() != messages.len() {
        Seq::empty()
    } else if owner.last() == worker {
        spec_stream_of(messages.drop_last(), owner.drop_last(), worker).push(messages.last())
    } else {
        spec_stream_of(messages.drop_last(), owner.drop_last(), worker)
    }
}

/// The streams of workers `0` to `workers - 1`, where `owner` names the
/// sender of each of `messages`.
pub open spec fn spec_streams_of(messages: Seq<Message>, owner: Seq<int>, workers: nat) -> Seq<
    Seq<Message>,
> {
    Seq::new(workers, |worker: int| spec_stream_of(messages, owner, worker))
}

/// Whether `messages` interleaves `streams`: `owner` names a sender for each
/// message, and the messages of each sender, in the order in which they
/// stand in `messages`, are that sender's stream.
pub open spec fn is_interleaving(
    messages: Seq<Message>,
    owner: Seq<int>,
    streams: Seq<Seq<Message>>,
) -> bool {
    &&& owner.len() == messages.len()
    &&& forall|i: int| 0 <= i < owner.len() ==> 0 <= #[trigger] owner[i] < streams.len()
    &&& spec_streams_of(messages, owner, streams.len()) == streams
}

/// The number of completion signals in all of `streams`.
pub open spec fn spec_total_finished(streams: Seq<Seq<Message>>) -> nat
    decreases streams.len(),
{
    if streams.len() == 0 {
        0
    } else {
        spec_total_finished(streams.drop_last()) + spec_finished_count(streams.last())
    }
}

/// The number of records in all of `streams`.
pub open spec fn spec_total_records(streams: Seq<Seq<Message>>) -> nat
    decreases streams.len(),
{
    if streams.len() == 0 {
        0
    } else {
        spec_total_records(streams.drop_last()) + spec_records(streams.last()).len()
    }
}

/// The records of all of `streams`, each as often as the streams hold it.
pub open spec fn spec_all_records(streams: Seq<Seq<Message>>) -> Multiset<Particle>
    decreases streams.len(),
{
    if streams.len() == 0 {
        Multiset::empty()
    } else {
        spec_all_records(streams.drop_last()).add(spec_records(streams.last()).to_multiset())
    }
}

/// No records make the empty multiset.
proof fn lemma_no_records(records: Seq<Particle>)
    requires
        records.len() == 0,
    ensures
        records.to_multiset() == Multiset::<Particle>::empty(),
{
    records.to_multiset_ensures();
    lemma_multiset_empty_len(records.to_multiset());
}

/// The completion signals of `message`: one or none.
spec fn signal_of(message: Message) -> nat {
    if message is Finished {
        1
    } else {
        0
    }
}

/// The records of `message`: one or none.
spec fn records_of(message: Message) -> Multiset<Particle> {
    match message {
        Message::Generated(particle) => Multiset::empty().insert(particle),
        Message::Finished => Multiset::empty(),
    }
}

/// One more message adds its signal and its record to those of the messages
/// before it.
proof fn lemma_push(stream: Seq<Message>, message: Message)
    ensures
        spec_finished_count(stream.push(message)) == spec_finished_count(stream) + signal_of(
            message,
        ),
        spec_records(stream.push(message)).len() == spec_records(stream).len() + 1 - signal_of(
            message,
        ),
        spec_records(stream.push(message)).to_multiset() == spec_records(
            stream,
        ).to_multiset().add(records_of(message)),
{
    broadcast use vstd::multiset::group_multiset_axioms;

    assert(stream.push(message).drop_last() =~= stream);
    match message {
        Message::Generated(particle) => {
            to_multiset_build(spec_records(stream), particle);
            assert(spec_records(stream.push(message)).to_multiset() =~= spec_records(
                stream,
            ).to_multiset().add(records_of(message)));
        },
        Message::Finished => {
            assert(spec_records(stream.push(message)).to_multiset() =~= spec_records(
                stream,
            ).to_multiset().add(records_of(message)));
        },
    }
}

/// One more message in one of the streams adds its signal and its record to
/// the totals.
proof fn lemma_totals_push(streams: Seq<Seq<Message>>, worker: int, message: Message)
    requires
        0 <= worker < streams.len(),
    ensures
        spec_total_finished(streams.update(worker, streams[worker].push(message)))
            == spec_total_finished(streams) + signal_of(message),
        spec_total_records(streams.update(worker, streams[worker].push(message)))
            == spec_total_records(streams) + 1 - signal_of(message),
        spec_all_records(streams.update(worker, streams[worker].push(message)))
            == spec_all_records(streams).add(records_of(message)),
    decreases streams.len(),
{
    broadcast use vstd::multiset::group_multiset_axioms;

    let longer = streams.update(worker, streams[worker].push(message));
    if worker == streams.len() - 1 {
        assert(longer.drop_last() =~= streams.drop_last());
        lemma_push(streams[worker], message);
    } else {
        lemma_totals_push(streams.drop_last(), worker, message);
        assert(longer.drop_last() =~= streams.drop_last().update(
            worker,
            streams.drop_last()[worker].push(message),
        ));
    }
    assert(spec_all_records(longer) =~= spec_all_records(streams).add(records_of(message)));
}

/// Streams without messages hold no signal and no record.
proof fn lemma_totals_empty(streams: Seq<Seq<Message>>)
    requires
        forall|worker: int| 0 <= worker < streams.len() ==> (#[trigger] streams[worker]).len() == 0,
    ensures
        spec_total_finished(streams) == 0,
        spec_total_records(streams) == 0,
        spec_all_records(streams) == Multiset::<Particle>::empty(),
    decreases streams.len(),
{
    broadcast use vstd::multiset::group_multiset_axioms;

    if streams.len() > 0 {
        lemma_totals_empty(streams.drop_last());
        assert(streams.last().len() == 0);
        lemma_no_records(spec_records(streams.last()));
        assert(spec_all_records(streams) =~= Multiset::<Particle>::empty());
    }
}

/// However the senders are named, the senders' streams hold between them
/// the signals and the records of the messages: none is lost and none is
/// added.
pub proof fn lemma_streams_keep_messages(messages: Seq<Message>, owner: Seq<int>, workers: nat)
    requires
        owner.len() == messages.len(),
        forall|i: int| 0 <= i < owner.len() ==> 0 <= #[trigger] owner[i] < workers,
    ensures
        spec_total_finished(spec_streams_of(messages, owner, workers)) == spec_finished_count(
            messages,
        ),
        spec_total_records(spec_streams_of(messages, owner, workers)) == spec_records(
            messages,
        ).len(),
        spec_all_records(spec_streams_of(messages, owner, workers)) == spec_records(
            messages,
        ).to_multiset(),
    decreases messages.len(),
{
    broadcast use vstd::multiset::group_multiset_axioms;

    let streams = spec_streams_of(messages, owner, workers);
    if messages.len() == 0 {
        lemma_totals_empty(streams);
        lemma_no_records(spec_records(messages));
    } else {
        let before = messages.drop_last();
        let owner_before = owner.drop_last();
        let sender = owner.last();
        let earlier = spec_streams_of(before, owner_before, workers);
        lemma_streams_keep_messages(before, owner_before, workers);
        assert(streams =~~= earlier.update(sender, earlier[sender].push(messages.last())));
        lemma_totals_push(earlier, sender, messages.last());
        assert(before.push(messages.last()) =~= messages);
        lemma_push(before, messages.last());
    }
}

/// A worker's stream holds one completion signal.
pub proof fn lemma_worker_stream_finishes_once(stream: Seq<Message>)
    requires
        is_worker_stream(stream),
    ensures
        spec_finished_count(stream) == 1,
        spec_records(stream).len() == stream.len() - 1,
{
    lemma_no_signal(stream.drop_last());
    lemma_counts(stream);
}

/// Records alone hold no completion signal.
proof fn lemma_no_signal(stream: Seq<Message>)
    requires
        forall|i: int| 0 <= i < stream.len() ==> #[trigger] stream[i] is Generated,
    ensures
        spec_finished_count(stream) == 0,
    decreases stream.len(),
{
    if stream.len() > 0 {
        lemma_no_signal(stream.drop_last());
    }
}

/// Workers' streams hold as many completion signals as there are workers.
pub proof fn lemma_worker_streams_finish(streams: Seq<Seq<Message>>)
    requires
        forall|worker: int|
            0 <= worker < streams.len() ==> is_worker_stream(#[trigger] streams[worker]),
    ensures
        spec_total_finished(streams) == streams.len(),
        spec_total_records(streams) + streams.len() == spec_total_len(streams),
    decreases streams.len(),
{
    if streams.len() > 0 {
        lemma_worker_streams_finish(streams.drop_last());
        lemma_worker_stream_finishes_once(streams.last());
    }
}

/// The number of messages in all of `streams`.
pub open spec fn spec_total_len(streams: Seq<Seq<Message>>) -> nat
    decreases streams.len(),
{
    if streams.len() == 0 {
        0
    } else {
        spec_total_len(streams.drop_last()) + streams.last().len()
    }
}

/// The aggregator is right about any interleaving of its workers' streams:
/// it reads every message and stops with the last, having seen one
/// completion signal per worker; the records that it saw are those that the
/// workers sent, each as often as it was sent; and with no workers there is
/// nothing to read.
pub proof fn lemma_aggregator_reads_interleaving(
    messages: Seq<Message>,
    owner: Seq<int>,
    streams: Seq<Seq<Message>>,
)
    requires
        is_interleaving(messages, owner, streams),
        forall|worker: int|
            0 <= worker < streams.len() ==> is_worker_stream(#[trigger] streams[worker]),
    ensures
        spec_consumed(streams.len(), messages) == messages.len(),
        spec_finished_count(messages) == streams.len(),
        spec_records(messages).len() == spec_total_records(streams),
        spec_records(messages).to_multiset() == spec_all_records(streams),
        streams.len() == 0 ==> messages.len() == 0,
        forall|shorter: int|
            0 <= shorter < messages.len() ==> spec_finished_count(
                #[trigger] messages.take(shorter),
            ) < streams.len(),
{
    let workers = streams.len();
    lemma_streams_keep_messages(messages, owner, workers);
    lemma_worker_streams_finish(streams);
    if messages.len() > 0 {
        let sender = owner.last();
        assert(0 <= sender < workers);
        let stream = spec_stream_of(messages, owner, sender);
        assert(stream == spec_streams_of(messages, owner, workers)[sender]);
        assert(is_worker_stream(streams[sender]));
        assert(stream.last() == messages.last());
        assert(messages.last() is Finished);
        lemma_consumed_all(workers, messages);
    }
    lemma_consumed(workers, messages);
}

} // verus!
