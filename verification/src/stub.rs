//! Handles that share one queue.
//!
//! An [`IOStub`] is a counted pointer to a cell that holds a [`ReadQueue`].
//! Each of its methods takes the queue out of the cell, calls the queue's
//! method of the same name and puts the queue back. Any handle may have
//! changed the queue since this one last saw it, and a handle's value does not
//! change when the queue does, so a handle's contracts cannot speak of what the
//! queue holds: they say what holds whatever it holds. What a read or a push
//! does to a given queue is stated, exactly, on [`ReadQueue`].

use crate::outcome::Outcome;
use crate::queue::{read_step, ReadQueue};
use std::cell::RefCell;
use std::rc::Rc;
use vstd::prelude::*;

verus! {

/// `std::cell::RefCell`, the cell through which the handles of one queue reach
/// it. Nothing is stated of what a cell holds: every handle may change it.
#[verifier::external_type_specification]
#[verifier::external_body]
#[verifier::reject_recursive_types(T)]
pub struct ExRefCell<T: ?Sized>(RefCell<T>);

/// `RefCell::new` returns a cell that holds `value`. Of the cell nothing is
/// stated.
pub assume_specification<T>[ RefCell::<T>::new ](value: T) -> RefCell<T>;

/// `Rc::clone` returns another pointer to the same allocation, here to the same
/// cell: the two pointers are equal.
#[verifier::external_body]
fn share(cell: &Rc<RefCell<ReadQueue>>) -> (shared: Rc<RefCell<ReadQueue>>)
    ensures
        shared == *cell,
{
    Rc::clone(cell)
}

/// `RefCell::replace` puts `queue` into the cell and returns what the cell
/// held. Nothing is stated of what comes back: any handle may have left it
/// there. `replace` panics only while the cell is borrowed, and a handle's cell
/// never is: it is private, it is reached through this function alone, and
/// `replace` holds no borrow once it has returned.
#[verifier::external_body]
fn exchange(cell: &Rc<RefCell<ReadQueue>>, queue: ReadQueue) -> (held: ReadQueue) {
    cell.replace(queue)
}

/// A handle on a queue of pending read events. Handles are equal when they are
/// handles on the same queue; the queue lives as long as one of them does.
pub struct IOStub {
    reads: Rc<RefCell<ReadQueue>>,
}

impl IOStub {
    /// A handle on a new, empty queue.
    pub fn new() -> (stub: IOStub) {
        IOStub { reads: Rc::new(RefCell::new(ReadQueue::new())) }
    }

    /// Another handle on the same queue. The queue is not copied.
    pub fn clone(&self) -> (stub: IOStub)
        ensures
            stub == *self,
    {
        IOStub { reads: share(&self.reads) }
    }

    /// Appends a failure to the shared queue, as [`ReadQueue::push_read_error`]
    /// does. The handle stays on the same queue.
    pub fn push_read_error(&mut self, e: std::io::Error)
        ensures
            *final(self) == *old(self),
    {
        let mut queue = exchange(&self.reads, ReadQueue::new());
        queue.push_read_error(e);
        let _ = exchange(&self.reads, queue);
    }

    /// Appends a chunk holding a copy of `bytes` to the shared queue, as
    /// [`ReadQueue::push_read`] does. The handle stays on the same queue.
    pub fn push_read(&mut self, bytes: &[u8])
        ensures
            *final(self) == *old(self),
    {
        let mut queue = exchange(&self.reads, ReadQueue::new());
        queue.push_read(bytes);
        let _ = exchange(&self.reads, queue);
    }
}

impl std::io::Read for IOStub {
    /// Reads from the shared queue, as [`ReadQueue::read`] does: `buf` and the
    /// value returned are those of one read on some queue, the one that the
    /// handles held at the call. The handle stays on the same queue.
    fn read(&mut self, buf: &mut [u8]) -> (result: std::io::Result<usize>)
        ensures
            *final(self) == *old(self),
            exists|queue: Seq<Outcome>|
                final(buf)@ == (#[trigger] read_step(queue, old(buf)@.len())).fill(old(buf)@)
                    && result == read_step(queue, old(buf)@.len()).result(),
    {
        let mut queue = exchange(&self.reads, ReadQueue::new());
        let result = queue.read(buf);
        let _ = exchange(&self.reads, queue);
        result
    }
}

} // verus!
