//! The aggregator: the single consumer that turns the workers' messages into
//! one byte stream, in the order in which it receives them.

use vstd::prelude::*;

use crate::types::Particle;
use crate::wire::lemma_decode_encode;
use crate::wire::RECORD_LEN;

verus! {

/// What a worker sends: a record that it has generated, or the signal that
/// it has generated its last.
#[derive(Clone, Copy, Debug, PartialEq, Eq, Structural)]
pub enum Message {
    Generated(Particle),
    Finished,
}

/// The number of completion signals among `messages`.
pub open spec fn spec_finished_count(messages: Seq<Message>) -> nat
    decreases messages.len(),
{
    if messages.len() == 0 {
        0
    } else if messages.last() is Finished {
        spec_finished_count(messages.drop_last()) + 1
    } else {
        spec_finished_count(messages.drop_last())
    }
}

/// The particles that `messages` carry, in order.
pub open spec fn spec_records(messages: Seq<Message>) -> Seq<Particle>
    decreases messages.len(),
{
    if messages.len() == 0 {
        Seq::empty()
    } else {
        match messages.last() {
            Message::Generated(particle) => spec_records(messages.drop_last()).push(particle),
            Message::Finished => spec_records(messages.drop_last()),
        }
    }
}

/// The bytes of `particles`, one record after the other.
pub open spec fn spec_payload(particles: Seq<Particle>) -> Seq<u8>
    decreases particles.len(),
{
    if particles.len() == 0 {
        Seq::empty()
    } else {
        spec_payload(particles.drop_last()) + particles.last().spec_bytes()
    }
}

/// How many of `messages` an aggregator reads that still waits for `pending`
/// completion signals: it reads a message when it has read every message
/// before it and those held fewer than `pending` signals.
pub open spec fn spec_consumed(pending: nat, messages: Seq<Message>) -> nat
    decreases messages.len(),
{
    if messages.len() == 0 {
        0
    } else if spec_consumed(pending, messages.drop_last()) == messages.len() - 1
        && spec_finished_count(messages.drop_last()) < pending {
        messages.len()
    } else {
        spec_consumed(pending, messages.drop_last())
    }
}

/// The payload of `particles` holds one record's worth of bytes for each.
pub proof fn lemma_payload_len(particles: Seq<Particle>)
    ensures
        spec_payload(particles).len() == RECORD_LEN * particles.len(),
    decreases particles.len(),
{
    if particles.len() > 0 {
        lemma_payload_len(particles.drop_last());
        lemma_decode_encode(particles.last().spec_exported());
    }
}

/// A message is a record or a completion signal: the two counts add up to
/// the number of messages.
pub proof fn lemma_counts(messages: Seq<Message>)
    ensures
        spec_records(messages).len() + spec_finished_count(messages) == messages.len(),
    decreases messages.len(),
{
    if messages.len() > 0 {
        lemma_counts(messages.drop_last());
    }
}

/// A longer prefix holds at least as many completion signals.
pub proof fn lemma_finished_count_grows(messages: Seq<Message>, shorter: int, longer: int)
    requires
        0 <= shorter <= longer <= messages.len(),
    ensures
        spec_finished_count(messages.take(shorter)) <= spec_finished_count(messages.take(longer)),
    decreases longer - shorter,
{
    if shorter < longer {
        lemma_finished_count_grows(messages, shorter, longer - 1);
        assert(messages.take(longer).drop_last() =~= messages.take(longer - 1));
    }
}

/// What the aggregator reads is a prefix that it needed: the prefix holds no
/// more completion signals than the aggregator waited for, every shorter
/// prefix holds fewer, and where messages are left over the prefix holds
/// them all.
pub proof fn lemma_consumed(pending: nat, messages: Seq<Message>)
    ensures
        spec_consumed(pending, messages) <= messages.len(),
        spec_finished_count(messages.take(spec_consumed(pending, messages) as int)) <= pending,
        spec_consumed(pending, messages) < messages.len() ==> spec_finished_count(
            messages.take(spec_consumed(pending, messages) as int),
        ) == pending,
        forall|shorter: int|
            0 <= shorter < spec_consumed(pending, messages) ==> spec_finished_count(
                #[trigger] messages.take(shorter),
            ) < pending,
    decreases messages.len(),
{
    let consumed = spec_consumed(pending, messages);
    if messages.len() == 0 {
        assert(messages.take(0) =~= messages);
    } else {
        let before = messages.drop_last();
        lemma_consumed(pending, before);
        let earlier = spec_consumed(pending, before);
        assert(before.take(earlier as int) =~= messages.take(earlier as int));
        assert(before.take(before.len() as int) =~= before);
        assert(messages.take(messages.len() as int) =~= messages);
        assert forall|shorter: int| 0 <= shorter < consumed implies spec_finished_count(
            #[trigger] messages.take(shorter),
        ) < pending by {
            if shorter < earlier {
                assert(before.take(shorter) =~= messages.take(shorter));
            } else {
                assert(messages.take(shorter) =~= before);
            }
        }
    }
}

/// Once the aggregator has read a prefix with all the completion signals it
/// waited for, it reads no further, whatever follows.
pub proof fn lemma_consumed_stops(pending: nat, messages: Seq<Message>, read: int)
    requires
        0 <= read <= messages.len(),
        spec_consumed(pending, messages.take(read)) == read,
        spec_finished_count(messages.take(read)) >= pending,
    ensures
        spec_consumed(pending, messages) == read,
    decreases messages.len(),
{
    if read == messages.len() {
        assert(messages.take(read) =~= messages);
    } else {
        let before = messages.drop_last();
        assert(before.take(read) =~= messages.take(read));
        lemma_consumed_stops(pending, before, read);
        if read == before.len() {
            assert(before.take(read) =~= before);
        }
    }
}

/// While the messages before the last hold fewer completion signals than the
/// aggregator waits for, it reads them all.
pub proof fn lemma_consumed_all(pending: nat, messages: Seq<Message>)
    requires
        messages.len() > 0 ==> spec_finished_count(messages.drop_last()) < pending,
    ensures
        spec_consumed(pending, messages) == messages.len(),
    decreases messages.len(),
{
    if messages.len() > 0 {
        let before = messages.drop_last();
        if before.len() > 0 {
            assert(before.take(before.len() - 1) =~= before.drop_last());
            assert(before.take(before.len() as int) =~= before);
            lemma_finished_count_grows(before, before.len() - 1, before.len() as int);
        }
        lemma_consumed_all(pending, before);
    }
}

/// The aggregator's state: how many workers there are, and how many of them
/// have finished. It is done when all have.
#[derive(Debug)]
pub struct Aggregator {
    workers: usize,
    finished: usize,
}

impl Aggregator {
    #[verifier::type_invariant]
    spec fn bounded(&self) -> bool {
        self.finished <= self.workers
    }

    /// The number of workers.
    pub closed spec fn spec_workers(&self) -> nat {
        self.workers as nat
    }

    /// The number of workers that have finished.
    pub closed spec fn spec_finished(&self) -> nat {
        self.finished as nat
    }

    /// The number of completion signals that the aggregator still waits for.
    pub open spec fn spec_pending(&self) -> nat {
        (self.spec_workers() - self.spec_finished()) as nat
    }

    /// Whether every worker has finished.
    pub open spec fn spec_is_done(&self) -> bool {
        self.spec_finished() >= self.spec_workers()
    }

    /// An aggregator for `workers` workers, none of which has finished. With
    /// no workers it is done from the start.
    pub fn new(workers: usize) -> (aggregator: Aggregator)
        ensures
            aggregator.spec_workers() == workers,
            aggregator.spec_finished() == 0,
    {
        Aggregator { workers, finished: 0 }
    }

    /// The number of workers.
    pub fn workers(&self) -> (workers: usize)
        ensures
            workers == self.spec_workers(),
    {
        self.workers
    }

    /// The number of workers that have finished, never more than there are.
    pub fn finished(&self) -> (finished: usize)
        ensures
            finished == self.spec_finished(),
            finished <= self.spec_workers(),
    {
        proof {
            use_type_invariant(self);
        }
        self.finished
    }

    /// Whether every worker has finished.
    pub fn is_done(&self) -> (done: bool)
        ensures
            done == self.spec_is_done(),
    {
        self.finished >= self.workers
    }

    /// Takes one message. While workers are still running, a record yields
    /// its bytes, to be written at once, and a completion signal counts one
    /// more worker as finished. An aggregator that is done leaves the message
    /// aside.
    pub fn receive(&mut self, message: &Message) -> (output: Option<Vec<u8>>)
        ensures
            final(self).spec_workers() == old(self).spec_workers(),
            final(self).spec_finished() <= final(self).spec_workers(),
            old(self).spec_is_done() ==> output is None && final(self).spec_finished() == old(
                self,
            ).spec_finished(),
            !old(self).spec_is_done() ==> match *message {
                Message::Generated(particle) => {
                    &&& output matches Some(bytes)
                    &&& bytes@ == particle.spec_bytes()
                    &&& final(self).spec_finished() == old(self).spec_finished()
                },
                Message::Finished => {
                    &&& output is None
                    &&& final(self).spec_finished() == old(self).spec_finished() + 1
                },
            },
    {
        proof {
            use_type_invariant(&*self);
        }
        if self.finished >= self.workers {
            return None;
        }
        match message {
            Message::Generated(particle) => Some(particle.bytes()),
            Message::Finished => {
                self.finished = self.finished + 1;
                None
            },
        }
    }

    /// Takes `messages` in order until every worker has finished or the
    /// messages run out, and appends the bytes of each record that it takes
    /// to `sink`. Returns how many messages it took.
    pub fn drain(&mut self, messages: &[Message], sink: &mut Vec<u8>) -> (consumed: usize)
        ensures
            consumed == spec_consumed(old(self).spec_pending(), messages@),
            final(sink)@ == old(sink)@ + spec_payload(
                spec_records(messages@.take(consumed as int)),
            ),
            final(self).spec_workers() == old(self).spec_workers(),
            final(self).spec_finished() == old(self).spec_finished() + spec_finished_count(
                messages@.take(consumed as int),
            ),
            final(self).spec_finished() <= final(self).spec_workers(),
    {
        let ghost pending = self.spec_pending();
        let mut read: usize = 0;
        proof {
            use_type_invariant(&*self);
            assert(messages@.take(0) =~= Seq::<Message>::empty());
            assert(sink@ =~= old(sink)@ + spec_payload(spec_records(messages@.take(0))));
        }
        while read < messages.len() && !self.is_done()
            invariant
                read <= messages.len(),
                self.spec_workers() == old(self).spec_workers(),
                self.spec_finished() <= self.spec_workers(),
                pending == old(self).spec_pending(),
                old(self).spec_finished() <= old(self).spec_workers(),
                spec_consumed(pending, messages@.take(read as int)) == read,
                self.spec_finished() == old(self).spec_finished() + spec_finished_count(
                    messages@.take(read as int),
                ),
                sink@ == old(sink)@ + spec_payload(spec_records(messages@.take(read as int))),
            decreases messages.len() - read,
        {
            let ghost before = messages@.take(read as int);
            let ghost after = messages@.take(read + 1);
            proof {
                assert(after.drop_last() =~= before);
                assert(after.last() == messages@[read as int]);
            }
            match self.receive(&messages[read]) {
                Some(bytes) => {
                    sink.extend_from_slice(bytes.as_slice());
                    proof {
                        let particle = messages@[read as int]->Generated_0;
                        let records = spec_records(before);
                        assert(spec_records(after) == records.push(particle));
                        assert(records.push(particle).drop_last() =~= records);
                        assert(sink@ =~= old(sink)@ + spec_payload(spec_records(after)));
                    }
                },
                None => {},
            }
            read = read + 1;
        }
        proof {
            if read == messages.len() {
                assert(messages@.take(read as int) =~= messages@);
            } else {
                lemma_consumed_stops(pending, messages@, read as int);
            }
        }
        read
    }
}

} // verus!
