//! What holds of every queue over a run of reads.
//!
//! A queue's view lists its events in the order pushed, since `push_read` and
//! `push_read_error` append to it. The laws here follow such a view through one
//! read or through several, each read with a buffer of its own size.

use crate::outcome::Outcome;
use crate::queue::{read_step, ReadStep};
use vstd::prelude::*;

verus! {

/// The queue after one read for each of `capacities`, in turn.
pub open spec fn after_reads(queue: Seq<Outcome>, capacities: Seq<nat>) -> Seq<Outcome>
    decreases capacities.len(),
{
    if capacities.len() == 0 {
        queue
    } else {
        read_step(after_reads(queue, capacities.drop_last()), capacities.last()).queue
    }
}

/// Read number `index` of such a run, counted from 0.
pub open spec fn nth_read(queue: Seq<Outcome>, capacities: Seq<nat>, index: int) -> ReadStep
    recommends
        0 <= index < capacities.len(),
{
    read_step(after_reads(queue, capacities.take(index)), capacities[index])
}

/// The bytes that the reads of such a run hand over, one read after the other.
pub open spec fn bytes_read(queue: Seq<Outcome>, capacities: Seq<nat>) -> Seq<u8>
    decreases capacities.len(),
{
    if capacities.len() == 0 {
        Seq::empty()
    } else {
        bytes_read(queue, capacities.drop_last()) + nth_read(
            queue,
            capacities,
            capacities.len() - 1,
        ).bytes
    }
}

/// The sum of `capacities`.
pub open spec fn total(capacities: Seq<nat>) -> nat
    decreases capacities.len(),
{
    if capacities.len() == 0 {
        0
    } else {
        total(capacities.drop_last()) + capacities.last()
    }
}

/// Whether one read with room for `capacity` bytes takes the whole of `outcome`.
pub open spec fn fits(outcome: Outcome, capacity: nat) -> bool {
    match outcome {
        Outcome::Bytes(data) => data.len() <= capacity,
        Outcome::Failure(_) => true,
    }
}

/// Whether `step` hands over exactly `outcome`: all the bytes of a chunk and no
/// failure, or the failure and no bytes.
pub open spec fn delivers(step: ReadStep, outcome: Outcome) -> bool {
    match outcome {
        Outcome::Bytes(data) => step.bytes == data && step.failure is None,
        Outcome::Failure(error) => step.bytes.len() == 0 && step.failure == Some(error),
    }
}

/// The bytes of the chunks of `queue`, in order, as far as its first failure.
pub open spec fn stream(queue: Seq<Outcome>) -> Seq<u8>
    decreases queue.len(),
{
    if queue.len() == 0 {
        Seq::empty()
    } else {
        match queue[0] {
            Outcome::Bytes(data) => data + stream(queue.skip(1)),
            Outcome::Failure(_) => Seq::empty(),
        }
    }
}

/// Whether `step` is a read of 0 bytes that reports no failure.
pub open spec fn reads_nothing(step: ReadStep) -> bool {
    step.bytes.len() == 0 && step.result() == Ok::<usize, std::io::Error>(0)
}

/// No read hands over more bytes than its buffer has room for, a read that
/// reports a failure hands over none, and no read makes the queue longer.
pub proof fn lemma_read_within_capacity(queue: Seq<Outcome>, capacity: nat)
    ensures
        read_step(queue, capacity).bytes.len() <= capacity,
        read_step(queue, capacity).failure is Some ==> read_step(queue, capacity).bytes.len() == 0,
        read_step(queue, capacity).queue.len() <= queue.len(),
{
}

/// A read leaves the buffer as long as it was, and changes none of its bytes
/// behind those that it hands over.
pub proof fn lemma_read_keeps_rest_of_buffer(queue: Seq<Outcome>, buffer: Seq<u8>)
    ensures
        read_step(queue, buffer.len()).fill(buffer).len() == buffer.len(),
        read_step(queue, buffer.len()).fill(buffer).take(
            read_step(queue, buffer.len()).bytes.len() as int,
        ) == read_step(queue, buffer.len()).bytes,
        read_step(queue, buffer.len()).fill(buffer).skip(
            read_step(queue, buffer.len()).bytes.len() as int,
        ) == buffer.skip(read_step(queue, buffer.len()).bytes.len() as int),
{
}

/// First in, first out: while every event fits the buffer of the read that
/// reaches it, read number `index` hands over exactly event number `index`,
/// chunk or failure, and leaves the events behind it.
pub proof fn lemma_reads_follow_push_order(queue: Seq<Outcome>, capacities: Seq<nat>, index: int)
    requires
        0 <= index < queue.len(),
        index < capacities.len(),
        forall|i: int| 0 <= i <= index ==> fits(#[trigger] queue[i], capacities[i]),
    ensures
        after_reads(queue, capacities.take(index)) == queue.skip(index),
        delivers(nth_read(queue, capacities, index), queue[index]),
        nth_read(queue, capacities, index).queue == queue.skip(index + 1),
    decreases index,
{
    if index > 0 {
        lemma_reads_follow_push_order(queue, capacities, index - 1);
        assert(capacities.take(index).drop_last() == capacities.take(index - 1));
        assert(capacities.take(index).last() == capacities[index - 1]);
    }
    assert(queue.skip(index)[0] == queue[index]);
    assert(queue.skip(index).skip(1) == queue.skip(index + 1));
}

/// Once the queue is empty, every read returns 0 bytes and no failure and
/// leaves the queue empty, however many reads follow.
pub proof fn lemma_empty_queue_reads_nothing(queue: Seq<Outcome>, capacities: Seq<nat>)
    requires
        queue.len() == 0,
    ensures
        after_reads(queue, capacities) == queue,
        bytes_read(queue, capacities).len() == 0,
        forall|i: int|
            0 <= i < capacities.len() ==> reads_nothing(#[trigger] nth_read(queue, capacities, i))
                && nth_read(queue, capacities, i).queue == queue,
    decreases capacities.len(),
{
    if capacities.len() > 0 {
        lemma_empty_queue_reads_nothing(queue, capacities.drop_last());
        assert forall|i: int| 0 <= i < capacities.len() implies reads_nothing(
            #[trigger] nth_read(queue, capacities, i),
        ) && nth_read(queue, capacities, i).queue == queue by {
            lemma_empty_queue_reads_nothing(queue, capacities.take(i));
        }
        assert(capacities.take(capacities.len() - 1) == capacities.drop_last());
    }
}

/// The sum of the first `count` capacities is no more than the sum of all but
/// the last.
proof fn lemma_total_of_prefix(capacities: Seq<nat>, count: int)
    requires
        0 <= count < capacities.len(),
    ensures
        total(capacities.take(count)) <= total(capacities.drop_last()),
    decreases capacities.len(),
{
    if count == capacities.len() - 1 {
        assert(capacities.take(count) == capacities.drop_last());
    } else {
        let earlier = capacities.drop_last();
        lemma_total_of_prefix(earlier, count);
        assert(earlier.take(count) == capacities.take(count));
    }
}

/// While the reads so far have not reached the end of the chunk at the front,
/// they have handed over its first `total(capacities)` bytes, in order, and the
/// rest of the chunk is at the front, ahead of the events that were behind it.
pub proof fn lemma_short_reads_walk_chunk(queue: Seq<Outcome>, data: Seq<u8>, capacities: Seq<nat>)
    requires
        queue.len() > 0,
        queue[0] == Outcome::Bytes(data),
        total(capacities) < data.len(),
    ensures
        bytes_read(queue, capacities) == data.take(total(capacities) as int),
        after_reads(queue, capacities) == seq![
            Outcome::Bytes(data.skip(total(capacities) as int)),
        ] + queue.skip(1),
    decreases capacities.len(),
{
    if capacities.len() == 0 {
        assert(data.skip(0) == data);
        assert(seq![queue[0]] + queue.skip(1) == queue);
    } else {
        let earlier = capacities.drop_last();
        let done = total(earlier) as int;
        let room = capacities.last() as int;
        lemma_short_reads_walk_chunk(queue, data, earlier);
        let front = seq![Outcome::Bytes(data.skip(done))] + queue.skip(1);
        assert(capacities.take(capacities.len() - 1) == earlier);
        assert(front[0] == Outcome::Bytes(data.skip(done)));
        assert(front.skip(1) == queue.skip(1));
        assert(data.skip(done).skip(room) == data.skip(done + room));
        assert(data.take(done) + data.skip(done).take(room) == data.take(done + room));
    }
}

/// Short reads split a chunk and lose nothing. When the chunk at the front is
/// read with buffers of which the last is the first to reach its end, every
/// read hands over no more than its buffer has room for and reports no
/// failure; the bytes handed over are, one read after the other, the chunk;
/// and the events behind the chunk are left as they were.
pub proof fn lemma_short_reads_give_whole_chunk(
    queue: Seq<Outcome>,
    data: Seq<u8>,
    capacities: Seq<nat>,
)
    requires
        queue.len() > 0,
        queue[0] == Outcome::Bytes(data),
        capacities.len() > 0,
        total(capacities.drop_last()) < data.len() <= total(capacities),
    ensures
        bytes_read(queue, capacities) == data,
        after_reads(queue, capacities) == queue.skip(1),
        forall|i: int|
            0 <= i < capacities.len() ==> (#[trigger] nth_read(queue, capacities, i)).bytes.len()
                <= capacities[i] && nth_read(queue, capacities, i).failure is None,
{
    let earlier = capacities.drop_last();
    let done = total(earlier) as int;
    lemma_short_reads_walk_chunk(queue, data, earlier);
    let front = seq![Outcome::Bytes(data.skip(done))] + queue.skip(1);
    assert(capacities.take(capacities.len() - 1) == earlier);
    assert(front[0] == Outcome::Bytes(data.skip(done)));
    assert(front.skip(1) == queue.skip(1));
    assert(data.take(done) + data.skip(done) == data);
    assert forall|i: int| 0 <= i < capacities.len() implies (#[trigger] nth_read(
        queue,
        capacities,
        i,
    )).bytes.len() <= capacities[i] && nth_read(queue, capacities, i).failure is None by {
        lemma_total_of_prefix(capacities, i);
        lemma_short_reads_walk_chunk(queue, data, capacities.take(i));
        let before = total(capacities.take(i)) as int;
        let at = seq![Outcome::Bytes(data.skip(before))] + queue.skip(1);
        assert(at[0] == Outcome::Bytes(data.skip(before)));
    }
}

/// A read that reports no failure hands over bytes from the start of the
/// stream and leaves the rest of the stream in the queue, whatever the size of
/// its buffer.
pub proof fn lemma_read_takes_start_of_stream(queue: Seq<Outcome>, capacity: nat)
    requires
        read_step(queue, capacity).failure is None,
    ensures
        stream(queue) == read_step(queue, capacity).bytes + stream(
            read_step(queue, capacity).queue,
        ),
{
    if queue.len() > 0 {
        let data = queue[0]->Bytes_0;
        if data.len() > capacity {
            let rest = seq![Outcome::Bytes(data.skip(capacity as int))] + queue.skip(1);
            assert(rest[0] == Outcome::Bytes(data.skip(capacity as int)));
            assert(rest.skip(1) == queue.skip(1));
            assert(data.take(capacity as int) + data.skip(capacity as int) == data);
            assert(data + stream(queue.skip(1)) == data.take(capacity as int) + (data.skip(
                capacity as int,
            ) + stream(queue.skip(1))));
        }
    }
}

/// Reads neither lose nor reorder bytes across chunks: over a run of reads
/// that report no failure, with buffers of any sizes, the bytes handed over
/// and then the stream left in the queue are the stream that was there at the
/// start.
pub proof fn lemma_reads_take_stream_in_order(queue: Seq<Outcome>, capacities: Seq<nat>)
    requires
        forall|i: int|
            0 <= i < capacities.len() ==> (#[trigger] nth_read(queue, capacities, i)).failure
                is None,
    ensures
        stream(queue) == bytes_read(queue, capacities) + stream(after_reads(queue, capacities)),
    decreases capacities.len(),
{
    if capacities.len() > 0 {
        let earlier = capacities.drop_last();
        let last = capacities.len() - 1;
        assert(capacities.take(last) == earlier);
        assert forall|i: int| 0 <= i < earlier.len() implies (#[trigger] nth_read(
            queue,
            earlier,
            i,
        )).failure is None by {
            assert(earlier.take(i) == capacities.take(i));
            assert(nth_read(queue, capacities, i).failure is None);
        }
        lemma_reads_take_stream_in_order(queue, earlier);
        assert(nth_read(queue, capacities, last).failure is None);
        lemma_read_takes_start_of_stream(after_reads(queue, earlier), capacities.last());
        let step = nth_read(queue, capacities, last);
        assert(bytes_read(queue, earlier) + (step.bytes + stream(step.queue)) == (bytes_read(
            queue,
            earlier,
        ) + step.bytes) + stream(step.queue));
    }
}

/// A failure is reported once: the read that finds it at the front returns it,
/// hands over no bytes and removes it, so that the next read finds what was
/// queued behind it.
pub proof fn lemma_failure_reported_once(queue: Seq<Outcome>, error: std::io::Error, capacity: nat)
    requires
        queue.len() > 0,
        queue[0] == Outcome::Failure(error),
    ensures
        read_step(queue, capacity).result() == Err::<usize, std::io::Error>(error),
        read_step(queue, capacity).bytes.len() == 0,
        read_step(queue, capacity).queue == queue.skip(1),
{
}

/// A chunk of no bytes reads as 0 bytes and no failure, which is what a read of
/// an empty queue returns, and the chunk is removed.
pub proof fn lemma_empty_chunk_reads_as_nothing(queue: Seq<Outcome>, capacity: nat)
    requires
        queue.len() > 0,
        queue[0] == Outcome::Bytes(Seq::empty()),
    ensures
        reads_nothing(read_step(queue, capacity)),
        reads_nothing(read_step(Seq::empty(), capacity)),
        read_step(queue, capacity).queue == queue.skip(1),
{
}

} // verus!
