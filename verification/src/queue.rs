//! The queue of pending read events and the read that drains it.

use crate::outcome::{Outcome, PendingOutcome};
use std::collections::VecDeque;
use vstd::prelude::*;

verus! {

/// What one read does: the queue it leaves, the bytes it hands over and the
/// failure it reports, if any.
pub struct ReadStep {
    pub queue: Seq<Outcome>,
    pub bytes: Seq<u8>,
    pub failure: Option<std::io::Error>,
}

impl ReadStep {
    /// The value the read returns: the failure, or the number of bytes handed over.
    pub open spec fn result(self) -> Result<usize, std::io::Error> {
        match self.failure {
            Some(error) => Err(error),
            None => Ok(self.bytes.len() as usize),
        }
    }

    /// The caller's buffer after the read: the bytes handed over, then what the
    /// buffer held behind them.
    pub open spec fn fill(self, buffer: Seq<u8>) -> Seq<u8> {
        self.bytes + buffer.skip(self.bytes.len() as int)
    }
}

/// One read with room for `capacity` bytes on `queue`.
///
/// An empty queue stays as it is and gives no bytes. A failure at the front
/// leaves the queue and is reported. A chunk at the front leaves the queue; as
/// much of it as fits is handed over, and what does not fit goes back to the
/// front as a chunk of its own.
pub open spec fn read_step(queue: Seq<Outcome>, capacity: nat) -> ReadStep {
    if queue.len() == 0 {
        ReadStep { queue, bytes: Seq::empty(), failure: None }
    } else {
        match queue[0] {
            Outcome::Failure(error) => ReadStep {
                queue: queue.skip(1),
                bytes: Seq::empty(),
                failure: Some(error),
            },
            Outcome::Bytes(data) => if data.len() <= capacity {
                ReadStep { queue: queue.skip(1), bytes: data, failure: None }
            } else {
                ReadStep {
                    queue: seq![Outcome::Bytes(data.skip(capacity as int))] + queue.skip(1),
                    bytes: data.take(capacity as int),
                    failure: None,
                }
            },
        }
    }
}

/// Pending read events, oldest first.
pub struct ReadQueue {
    items: VecDeque<PendingOutcome>,
}

impl View for ReadQueue {
    type V = Seq<Outcome>;

    closed spec fn view(&self) -> Seq<Outcome> {
        self.items@.map_values(|item: PendingOutcome| item@)
    }
}

/// Overwrites the first `count` bytes of `buffer` with the first `count` bytes
/// of `data`.
fn copy_prefix(buffer: &mut [u8], data: &Vec<u8>, count: usize)
    requires
        count <= data@.len(),
        count <= old(buffer)@.len(),
    ensures
        final(buffer)@ == data@.take(count as int) + old(buffer)@.skip(count as int),
{
    let mut i: usize = 0;
    while i < count
        invariant
            i <= count,
            count <= data@.len(),
            count <= buffer@.len(),
            buffer@.len() == old(buffer)@.len(),
            buffer@ == data@.take(i as int) + old(buffer)@.skip(i as int),
        decreases count - i,
    {
        buffer[i] = data[i];
        i += 1;
    }
}

impl ReadQueue {
    /// An empty queue.
    pub fn new() -> (queue: ReadQueue)
        ensures
            queue@ == Seq::<Outcome>::empty(),
    {
        ReadQueue { items: VecDeque::new() }
    }

    /// Appends a chunk holding a copy of `bytes`, which may be empty.
    pub fn push_read(&mut self, bytes: &[u8])
        ensures
            final(self)@ == old(self)@.push(Outcome::Bytes(bytes@)),
    {
        let data = vstd::slice::slice_to_vec(bytes);
        self.items.push_back(PendingOutcome::Bytes(data));
    }

    /// Appends a failure.
    pub fn push_read_error(&mut self, error: std::io::Error)
        ensures
            final(self)@ == old(self)@.push(Outcome::Failure(error)),
    {
        self.items.push_back(PendingOutcome::Failure(error));
    }

    /// Reads into `buffer` what the front of the queue holds.
    ///
    /// Returns the number of bytes written to the start of `buffer`, which is 0
    /// when the queue is empty, or the failure at the front. The rest of
    /// `buffer` keeps what it held.
    pub fn read(&mut self, buffer: &mut [u8]) -> (result: Result<usize, std::io::Error>)
        ensures
            final(self)@ == read_step(old(self)@, old(buffer)@.len()).queue,
            final(buffer)@ == read_step(old(self)@, old(buffer)@.len()).fill(old(buffer)@),
            result == read_step(old(self)@, old(buffer)@.len()).result(),
    {
        match self.items.pop_front() {
            None => Ok(0),
            Some(PendingOutcome::Failure(error)) => Err(error),
            Some(PendingOutcome::Bytes(mut data)) => {
                let count = usize::min(data.len(), buffer.len());
                copy_prefix(buffer, &data, count);
                if count < data.len() {
                    let rest = data.split_off(count);
                    self.items.push_front(PendingOutcome::Bytes(rest));
                }
                Ok(count)
            },
        }
    }
}

} // verus!
