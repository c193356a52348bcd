//! Properties of the commit stage, stated over its model and proved.
use vstd::prelude::*;

use crate::commit_offsets::{
    after_commit, after_submit, commit_output, overwrite_all, timer_due, CommitState,
};
use crate::types::PartitionKey;

verus! {

/// The partitions named by `pairs`.
pub open spec fn pair_partitions(pairs: Seq<(PartitionKey, u64)>) -> Set<PartitionKey>
    decreases pairs.len(),
{
    if pairs.len() == 0 {
        Set::empty()
    } else {
        pair_partitions(pairs.drop_last()).insert(pairs.last().0)
    }
}

/// The state after submitting, in turn, messages whose committable pairs are
/// the items of `batches`.
pub open spec fn submit_all(s: CommitState, batches: Seq<Seq<(PartitionKey, u64)>>) -> CommitState
    decreases batches.len(),
{
    if batches.len() == 0 {
        s
    } else {
        after_submit(submit_all(s, batches.drop_last()), batches.last())
    }
}

/// The partitions named by any of `batches`.
pub open spec fn submitted_partitions(batches: Seq<Seq<(PartitionKey, u64)>>) -> Set<
    PartitionKey,
>
    decreases batches.len(),
{
    if batches.len() == 0 {
        Set::empty()
    } else {
        submitted_partitions(batches.drop_last()).union(pair_partitions(batches.last()))
    }
}

/// Storing `pairs` adds exactly their partitions to the map's keys.
pub proof fn lemma_overwrite_keys(m: Map<PartitionKey, u64>, pairs: Seq<(PartitionKey, u64)>)
    ensures
        overwrite_all(m, pairs).dom() == m.dom().union(pair_partitions(pairs)),
    decreases pairs.len(),
{
    if pairs.len() > 0 {
        lemma_overwrite_keys(m, pairs.drop_last());
    }
    assert(overwrite_all(m, pairs).dom() =~= m.dom().union(pair_partitions(pairs)));
}

/// Submitting leaves the commit times alone and adds exactly the submitted
/// partitions to the pending ones.
pub proof fn lemma_submit_all_keys(s: CommitState, batches: Seq<Seq<(PartitionKey, u64)>>)
    ensures
        submit_all(s, batches).last_commit_time == s.last_commit_time,
        submit_all(s, batches).commit_frequency == s.commit_frequency,
        submit_all(s, batches).pending.dom() == s.pending.dom().union(
            submitted_partitions(batches),
        ),
    decreases batches.len(),
{
    if batches.len() > 0 {
        lemma_submit_all_keys(s, batches.drop_last());
        lemma_overwrite_keys(submit_all(s, batches.drop_last()).pending, batches.last());
    }
    assert(submit_all(s, batches).pending.dom() =~= s.pending.dom().union(
        submitted_partitions(batches),
    ));
}

/// Before the commit frequency has passed since the last commit, polling hands
/// nothing on and changes nothing, whatever was submitted meanwhile.
pub proof fn lemma_quiet_before_due(
    s: CommitState,
    batches: Seq<Seq<(PartitionKey, u64)>>,
    now: u64,
)
    requires
        !timer_due(s.last_commit_time, s.commit_frequency, now),
    ensures
        commit_output(submit_all(s, batches), now, false) is None,
        after_commit(submit_all(s, batches), now, false) == submit_all(s, batches),
{
    lemma_submit_all_keys(s, batches);
}

/// A due commit with offsets pending hands on exactly the pending offsets and
/// empties them, so that a poll right after it hands nothing on.
pub proof fn lemma_flush_then_quiet(s: CommitState, now: u64, force: bool, later: u64)
    requires
        force || timer_due(s.last_commit_time, s.commit_frequency, now),
        s.pending != Map::<PartitionKey, u64>::empty(),
    ensures
        commit_output(s, now, force) == Some(s.pending),
        after_commit(s, now, force).pending == Map::<PartitionKey, u64>::empty(),
        after_commit(s, now, force).last_commit_time == now,
        commit_output(after_commit(s, now, force), later, false) is None,
{
}

/// Joining commits whatever the time: it hands on the pending offsets, or
/// nothing where none are pending, and leaves none pending.
pub proof fn lemma_join_flushes(s: CommitState, now: u64)
    ensures
        commit_output(s, now, true) == (if s.pending == Map::<PartitionKey, u64>::empty() {
            None
        } else {
            Some(s.pending)
        }),
        after_commit(s, now, true).pending == Map::<PartitionKey, u64>::empty(),
{
}

/// Of the pairs stored for one partition, the last one stays.
pub proof fn lemma_latest_offset_wins(
    m: Map<PartitionKey, u64>,
    pairs: Seq<(PartitionKey, u64)>,
    i: int,
)
    requires
        0 <= i < pairs.len(),
        forall|j: int| i < j < pairs.len() ==> pairs[j].0 != pairs[i].0,
    ensures
        overwrite_all(m, pairs).contains_key(pairs[i].0),
        overwrite_all(m, pairs)[pairs[i].0] == pairs[i].1,
    decreases pairs.len(),
{
    if i < pairs.len() - 1 {
        let shorter = pairs.drop_last();
        assert forall|j: int| i < j < shorter.len() implies shorter[j].0 != shorter[i].0 by {
            assert(shorter[j] == pairs[j]);
        }
        lemma_latest_offset_wins(m, shorter, i);
    }
}

/// Where two messages are submitted before a commit, the offset that the later
/// one gives a partition is the one that the commit hands on.
pub proof fn lemma_later_submission_wins(
    s: CommitState,
    first: Seq<(PartitionKey, u64)>,
    second: Seq<(PartitionKey, u64)>,
    i: int,
    now: u64,
)
    requires
        0 <= i < second.len(),
        forall|j: int| i < j < second.len() ==> second[j].0 != second[i].0,
    ensures
        commit_output(after_submit(after_submit(s, first), second), now, true) matches Some(m)
            && m.contains_key(second[i].0) && m[second[i].0] == second[i].1,
{
    let t = after_submit(after_submit(s, first), second);
    lemma_latest_offset_wins(after_submit(s, first).pending, second, i);
    assert(t.pending.contains_key(second[i].0));
}

/// Starting from no pending offsets, the pending partitions are exactly those
/// submitted since, so there are never more of them than distinct partitions
/// submitted.
pub proof fn lemma_pending_within_submitted(
    s: CommitState,
    batches: Seq<Seq<(PartitionKey, u64)>>,
)
    requires
        s.pending == Map::<PartitionKey, u64>::empty(),
    ensures
        submit_all(s, batches).pending.dom() == submitted_partitions(batches),
        submit_all(s, batches).pending.len() <= submitted_partitions(batches).len(),
{
    lemma_submit_all_keys(s, batches);
    assert(s.pending.dom().union(submitted_partitions(batches)) =~= submitted_partitions(batches));
}

} // verus!
