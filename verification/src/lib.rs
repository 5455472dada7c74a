//! A queue-backed stand-in for a byte stream.
//!
//! A test loads a queue with read events, each a chunk of bytes or a failure,
//! and the code under test drains it through the usual read-into-buffer call,
//! with no file, socket or pipe behind it.
//!
//! - [`ReadQueue`] is the queue, with the exact contract of each push and read.
//! - [`IOStub`] is a handle on a queue that can be cloned, so that the test
//!   keeps one handle to push events while the reader owns another. It
//!   implements `std::io::Read`.
//! - [`laws`] states what holds of every queue over a run of reads: events come
//!   out in the order pushed, short reads split a chunk and lose nothing, a
//!   failure is reported once, an empty queue reads as 0 bytes for good.

pub mod laws;
pub mod outcome;
pub mod queue;
pub mod stub;

pub use outcome::{Outcome, PendingOutcome};
pub use queue::{read_step, ReadQueue, ReadStep};
pub use stub::IOStub;
