//! A stage that gathers the latest committable offset of each partition and
//! hands them on as one commit request when its commit frequency has passed,
//! or at once when joined.
use vstd::prelude::*;

use crate::offsets::PartitionOffsets;
use crate::strategy::{CommitRequest, MessageRejected, ProcessingStrategy};
use crate::types::{pair_keys, Message, PartitionKey};

verus! {

/// `m` with each pair of `pairs` stored in turn, a later pair replacing an
/// earlier one for the same partition.
pub open spec fn overwrite_all(
    m: Map<PartitionKey, u64>,
    pairs: Seq<(PartitionKey, u64)>,
) -> Map<PartitionKey, u64>
    decreases pairs.len(),
{
    if pairs.len() == 0 {
        m
    } else {
        overwrite_all(m, pairs.drop_last()).insert(pairs.last().0, pairs.last().1)
    }
}

/// The state of a commit stage: the pending offset of each partition, when it
/// last committed and how often it commits (both in milliseconds).
pub struct CommitState {
    pub pending: Map<PartitionKey, u64>,
    pub last_commit_time: u64,
    pub commit_frequency: u64,
}

/// Whether more than `frequency` has passed between `last` and `now`. Where
/// `last + frequency` does not fit in a `u64` this never holds.
pub open spec fn timer_due(last: u64, frequency: u64, now: u64) -> bool {
    now > last + frequency
}

/// Whether committing at `now` hands on a request.
pub open spec fn flushes(s: CommitState, now: u64, force: bool) -> bool {
    (force || timer_due(s.last_commit_time, s.commit_frequency, now)) && s.pending
        != Map::<PartitionKey, u64>::empty()
}

/// The state after committing at `now`.
pub open spec fn after_commit(s: CommitState, now: u64, force: bool) -> CommitState {
    if flushes(s, now, force) {
        CommitState { pending: Map::empty(), last_commit_time: now, ..s }
    } else {
        s
    }
}

/// What committing at `now` hands on.
pub open spec fn commit_output(s: CommitState, now: u64, force: bool) -> Option<
    Map<PartitionKey, u64>,
> {
    if flushes(s, now, force) {
        Some(s.pending)
    } else {
        None
    }
}

/// The state after a message with committable pairs `pairs` was submitted.
pub open spec fn after_submit(s: CommitState, pairs: Seq<(PartitionKey, u64)>) -> CommitState {
    CommitState { pending: overwrite_all(s.pending, pairs), ..s }
}

/// The view of an optional commit request.
pub open spec fn request_view(r: Option<CommitRequest>) -> Option<Map<PartitionKey, u64>> {
    match r {
        Some(c) => Some(c@),
        None => None,
    }
}

/// The commit stage.
pub struct CommitOffsets {
    partitions: PartitionOffsets,
    last_commit_time: u64,
    commit_frequency: u64,
}

impl View for CommitOffsets {
    type V = CommitState;

    closed spec fn view(&self) -> CommitState {
        CommitState {
            pending: self.partitions@,
            last_commit_time: self.last_commit_time,
            commit_frequency: self.commit_frequency,
        }
    }
}

/// A stage that commits every `commit_frequency` milliseconds, created at
/// time `now`.
pub fn new(commit_frequency: u64, now: u64) -> (r: CommitOffsets)
    ensures
        r@ == (CommitState {
            pending: Map::empty(),
            last_commit_time: now,
            commit_frequency,
        }),
{
    CommitOffsets { partitions: PartitionOffsets::new(), last_commit_time: now, commit_frequency }
}

impl CommitOffsets {
    /// Hands on the pending offsets at time `now` if the commit frequency has
    /// passed since the last commit, or if `force` holds, and if any are
    /// pending; then the pending offsets are cleared and `now` becomes the time
    /// of the last commit. Otherwise nothing changes.
    fn commit(&mut self, now: u64, force: bool) -> (r: Option<CommitRequest>)
        ensures
            final(self)@ == after_commit(old(self)@, now, force),
            request_view(r) == commit_output(old(self)@, now, force),
    {
        let due = match self.last_commit_time.checked_add(self.commit_frequency) {
            Some(deadline) => now > deadline,
            None => false,
        };
        if due || force {
            if !self.partitions.is_empty() {
                let positions = self.partitions.take();
                self.last_commit_time = now;
                Some(CommitRequest { positions })
            } else {
                None
            }
        } else {
            None
        }
    }

    /// Hands on the pending offsets if the commit frequency has passed.
    pub fn poll(&mut self, now: u64) -> (r: Option<CommitRequest>)
        ensures
            final(self)@ == after_commit(old(self)@, now, false),
            request_view(r) == commit_output(old(self)@, now, false),
    {
        self.commit(now, false)
    }

    /// Records the committable offsets of `message`, each replacing the
    /// pending offset of its partition. Never rejects.
    pub fn submit<T>(&mut self, message: Message<T>) -> (r: Result<(), MessageRejected>)
        requires
            message.offset < u64::MAX,
        ensures
            r is Ok,
            final(self)@ == after_submit(old(self)@, message.committable_spec()),
    {
        let pairs = message.committable();
        let ghost keys = pair_keys(pairs@);
        let mut i: usize = 0;
        while i < pairs.len()
            invariant
                i <= pairs@.len(),
                keys == pair_keys(pairs@),
                keys == message.committable_spec(),
                self@ == after_submit(old(self)@, keys.take(i as int)),
            decreases pairs@.len() - i,
        {
            let (partition, offset) = (pairs[i].0.clone(), pairs[i].1);
            self.partitions.insert(partition, offset);
            proof {
                assert(keys.take(i + 1).drop_last() =~= keys.take(i as int));
            }
            i = i + 1;
        }
        proof {
            assert(keys.take(i as int) =~= keys);
        }
        Ok(())
    }

    /// Nothing to release.
    pub fn close(&mut self)
        ensures
            final(self)@ == old(self)@,
    {
    }

    /// Nothing to release: pending offsets are dropped with the stage.
    pub fn terminate(&mut self)
        ensures
            final(self)@ == old(self)@,
    {
    }

    /// Hands on the pending offsets whatever the time. The stage never
    /// blocks, so the timeout plays no part.
    pub fn join(&mut self, now: u64, _timeout: Option<u64>) -> (r: Option<CommitRequest>)
        ensures
            final(self)@ == after_commit(old(self)@, now, true),
            request_view(r) == commit_output(old(self)@, now, true),
    {
        self.commit(now, true)
    }
}

impl<T> ProcessingStrategy<T> for CommitOffsets {
    fn poll(&mut self, now: u64) -> Option<CommitRequest> {
        CommitOffsets::poll(self, now)
    }

    fn submit(&mut self, message: Message<T>) -> Result<(), MessageRejected> {
        CommitOffsets::submit(self, message)
    }

    fn close(&mut self) {
        CommitOffsets::close(self)
    }

    fn terminate(&mut self) {
        CommitOffsets::terminate(self)
    }

    fn join(&mut self, now: u64, _timeout: Option<u64>) -> Option<CommitRequest> {
        CommitOffsets::join(self, now, _timeout)
    }
}

} // verus!
