//! The events a queue holds.

use vstd::prelude::*;

verus! {

/// `std::io::Error`, the failure a queued event carries. The queue never looks
/// inside one: it is taken in, kept and handed back as the same value.
#[verifier::external_type_specification]
#[verifier::external_body]
pub struct ExIoError(std::io::Error);

/// One queued read event as a mathematical value: the bytes of a chunk, or the
/// failure to report.
pub enum Outcome {
    Bytes(Seq<u8>),
    Failure(std::io::Error),
}

/// One queued read event.
pub enum PendingOutcome {
    /// A chunk of bytes, read in order and possibly over several reads.
    Bytes(Vec<u8>),
    /// A failure, reported by the read that reaches it.
    Failure(std::io::Error),
}

impl View for PendingOutcome {
    type V = Outcome;

    open spec fn view(&self) -> Outcome {
        match self {
            PendingOutcome::Bytes(data) => Outcome::Bytes(data@),
            PendingOutcome::Failure(error) => Outcome::Failure(*error),
        }
    }
}

} // verus!
