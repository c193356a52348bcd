//! The lifecycle that every stage of a processing pipeline offers to the
//! loop that drives it, and the commit request that stages hand back.
use vstd::prelude::*;

use crate::offsets::PartitionOffsets;
use crate::types::{Message, PartitionKey};

verus! {

/// A snapshot of the offset to commit for each partition: everything before
/// that offset has been consumed.
pub struct CommitRequest {
    pub positions: PartitionOffsets,
}

impl View for CommitRequest {
    type V = Map<PartitionKey, u64>;

    open spec fn view(&self) -> Map<PartitionKey, u64> {
        self.positions@
    }
}

impl PartialEq for CommitRequest {
    fn eq(&self, other: &CommitRequest) -> (r: bool) {
        self.positions == other.positions
    }
}

impl vstd::std_specs::cmp::PartialEqSpecImpl for CommitRequest {
    open spec fn obeys_eq_spec() -> bool {
        true
    }

    open spec fn eq_spec(&self, other: &CommitRequest) -> bool {
        self@ == other@
    }
}

/// Backpressure: the stage cannot take the message now; the caller polls and
/// submits it again later.
#[derive(Debug)]
pub struct MessageRejected {}

/// What a pipeline stage offers to the loop that drives it. Times count
/// milliseconds since the Unix epoch and are read by the caller.
pub trait ProcessingStrategy<T> {
    /// Does the work that is due at `now`, without blocking.
    fn poll(&mut self, now: u64) -> Option<CommitRequest>;

    /// Hands one message to the stage.
    fn submit(&mut self, message: Message<T>) -> Result<(), MessageRejected>
        requires
            message.offset < u64::MAX,
    ;

    /// No further messages will be submitted.
    fn close(&mut self);

    /// Stops at once, dropping what has not been handed on.
    fn terminate(&mut self);

    /// Hands on everything still held; `timeout` bounds how long the caller
    /// is willing to wait.
    fn join(&mut self, now: u64, timeout: Option<u64>) -> Option<CommitRequest>;
}

} // verus!
