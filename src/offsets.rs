//! A finite map from partitions to offsets.
use vstd::prelude::*;

use crate::types::{Partition, PartitionKey};

verus! {

/// Offsets by partition: each partition appears at most once, and the order
/// in which partitions were added carries no meaning.
pub struct PartitionOffsets {
    entries: Vec<(Partition, u64)>,
    contents: Ghost<Map<PartitionKey, u64>>,
}

/// The partition of the entry at `i`.
pub closed spec fn key_at(entries: Seq<(Partition, u64)>, i: int) -> PartitionKey {
    entries[i].0@
}

/// Entries with pairwise distinct partitions that list exactly the map `m`.
pub closed spec fn lists(entries: Seq<(Partition, u64)>, m: Map<PartitionKey, u64>) -> bool {
    &&& forall|i: int, j: int|
        0 <= i < j < entries.len() ==> #[trigger] key_at(entries, i) != #[trigger] key_at(entries, j)
    &&& forall|i: int|
        0 <= i < entries.len() ==> m.contains_key(#[trigger] key_at(entries, i)) && m[key_at(entries, i)]
            == entries[i].1
    &&& forall|k: PartitionKey|
        #[trigger] m.contains_key(k) ==> exists|i: int| 0 <= i < entries.len() && key_at(entries, i) == k
}

impl PartitionOffsets {
    #[verifier::type_invariant]
    closed spec fn inv(self) -> bool {
        lists(self.entries@, self.contents@)
    }
}

impl View for PartitionOffsets {
    type V = Map<PartitionKey, u64>;

    closed spec fn view(&self) -> Map<PartitionKey, u64> {
        self.contents@
    }
}

impl PartitionOffsets {
    /// An empty map.
    pub fn new() -> (r: PartitionOffsets)
        ensures
            r@ == Map::<PartitionKey, u64>::empty(),
    {
        PartitionOffsets { entries: Vec::new(), contents: Ghost(Map::empty()) }
    }

    /// The index of the entry for `p`, if there is one.
    fn find(&self, p: &Partition) -> (r: Option<usize>)
        ensures
            match r {
                Some(i) => i < self.entries@.len() && key_at(self.entries@, i as int) == p@,
                None => forall|i: int|
                    0 <= i < self.entries@.len() ==> key_at(self.entries@, i) != p@,
            },
    {
        let mut i: usize = 0;
        while i < self.entries.len()
            invariant
                i <= self.entries@.len(),
                forall|j: int| 0 <= j < i ==> key_at(self.entries@, j) != p@,
            decreases self.entries@.len() - i,
        {
            if self.entries[i].0 == *p {
                return Some(i);
            }
            i = i + 1;
        }
        None
    }

    /// The offset stored for `p`.
    pub fn get(&self, p: &Partition) -> (r: Option<u64>)
        ensures
            r == (if self@.contains_key(p@) { Some(self@[p@]) } else { None::<u64> }),
    {
        proof {
            use_type_invariant(self);
        }
        match self.find(p) {
            Some(i) => {
                proof {
                    assert(key_at(self.entries@, i as int) == p@);
                }
                Some(self.entries[i].1)
            },
            None => {
                proof {
                    if self@.contains_key(p@) {
                        let j = choose|j: int|
                            0 <= j < self.entries@.len() && key_at(self.entries@, j) == p@;
                        assert(key_at(self.entries@, j) != p@);
                    }
                }
                None
            },
        }
    }

    /// Whether no partition has an offset.
    pub fn is_empty(&self) -> (r: bool)
        ensures
            r == (self@ == Map::<PartitionKey, u64>::empty()),
    {
        proof {
            use_type_invariant(self);
        }
        if self.entries.len() == 0 {
            proof {
                assert forall|k: PartitionKey| !#[trigger] self@.contains_key(k) by {
                    if self@.contains_key(k) {
                        let j = choose|j: int|
                            0 <= j < self.entries@.len() && key_at(self.entries@, j) == k;
                    }
                }
                assert(self@ =~= Map::<PartitionKey, u64>::empty());
            }
            true
        } else {
            proof {
                assert(self@.contains_key(key_at(self.entries@, 0)));
            }
            false
        }
    }

    /// Stores `offset` for `p`, replacing the offset it had.
    pub fn insert(&mut self, p: Partition, offset: u64)
        ensures
            final(self)@ == old(self)@.insert(p@, offset),
    {
        proof {
            use_type_invariant(&*self);
        }
        let found = self.find(&p);
        let mut taken = PartitionOffsets::new();
        std::mem::swap(self, &mut taken);
        proof {
            use_type_invariant(&taken);
        }
        let PartitionOffsets { mut entries, contents } = taken;
        let ghost old_entries = entries@;
        let ghost m = contents@.insert(p@, offset);
        match found {
            Some(i) => {
                entries.set(i, (p, offset));
                proof {
                    assert(forall|j: int|
                        0 <= j < entries@.len() ==> key_at(entries@, j) == key_at(old_entries, j));
                    assert forall|k: PartitionKey| #[trigger] m.contains_key(k) implies exists|j: int|
                        0 <= j < entries@.len() && key_at(entries@, j) == k by {
                        if k == p@ {
                            assert(key_at(entries@, i as int) == k);
                        } else {
                            assert(contents@.contains_key(k));
                            let j = choose|j: int|
                                0 <= j < old_entries.len() && key_at(old_entries, j) == k;
                            assert(key_at(entries@, j) == k);
                        }
                    }
                    assert forall|j: int| 0 <= j < entries@.len() implies m.contains_key(
                        #[trigger] key_at(entries@, j),
                    ) && m[key_at(entries@, j)] == entries@[j].1 by {
                        if j != i {
                            assert(key_at(old_entries, j) != key_at(old_entries, i as int));
                        }
                    }
                    assert forall|a: int, b: int| 0 <= a < b < entries@.len() implies #[trigger] key_at(
                        entries@,
                        a,
                    ) != #[trigger] key_at(entries@, b) by {
                        assert(key_at(old_entries, a) != key_at(old_entries, b));
                    }
                }
            },
            None => {
                entries.push((p, offset));
                proof {
                    let n = old_entries.len() as int;
                    assert(forall|j: int|
                        0 <= j < n ==> key_at(entries@, j) == key_at(old_entries, j));
                    assert(key_at(entries@, n) == p@);
                    assert forall|k: PartitionKey| #[trigger] m.contains_key(k) implies exists|j: int|
                        0 <= j < entries@.len() && key_at(entries@, j) == k by {
                        if k == p@ {
                            assert(key_at(entries@, n) == k);
                        } else {
                            assert(contents@.contains_key(k));
                            let j = choose|j: int|
                                0 <= j < old_entries.len() && key_at(old_entries, j) == k;
                            assert(key_at(entries@, j) == k);
                        }
                    }
                    assert forall|j: int| 0 <= j < entries@.len() implies m.contains_key(
                        #[trigger] key_at(entries@, j),
                    ) && m[key_at(entries@, j)] == entries@[j].1 by {
                        if j < n {
                            assert(key_at(old_entries, j) != p@);
                        }
                    }
                    assert forall|a: int, b: int| 0 <= a < b < entries@.len() implies #[trigger] key_at(
                        entries@,
                        a,
                    ) != #[trigger] key_at(entries@, b) by {
                        if b < n {
                            assert(key_at(old_entries, a) != key_at(old_entries, b));
                        } else {
                            assert(key_at(old_entries, a) != p@);
                        }
                    }
                }
            },
        }
        *self = PartitionOffsets { entries, contents: Ghost(m) };
    }

    /// Hands over every entry and leaves the map empty.
    pub fn take(&mut self) -> (r: PartitionOffsets)
        ensures
            r@ == old(self)@,
            final(self)@ == Map::<PartitionKey, u64>::empty(),
    {
        let mut taken = PartitionOffsets::new();
        std::mem::swap(self, &mut taken);
        taken
    }
}

impl PartitionOffsets {
    /// Whether every entry of `self` is also an entry of `other`.
    pub fn is_submap_of(&self, other: &PartitionOffsets) -> (r: bool)
        ensures
            r == self@.submap_of(other@),
    {
        proof {
            use_type_invariant(self);
        }
        let mut i: usize = 0;
        while i < self.entries.len()
            invariant
                i <= self.entries@.len(),
                lists(self.entries@, self@),
                forall|j: int|
                    0 <= j < i ==> other@.contains_key(#[trigger] key_at(self.entries@, j))
                        && other@[key_at(self.entries@, j)] == self.entries@[j].1,
            decreases self.entries@.len() - i,
        {
            let agrees = match other.get(&self.entries[i].0) {
                Some(v) => v == self.entries[i].1,
                None => false,
            };
            if !agrees {
                proof {
                    assert(self@.contains_key(key_at(self.entries@, i as int)));
                }
                return false;
            }
            i = i + 1;
        }
        proof {
            assert forall|k: PartitionKey| #[trigger] self@.contains_key(k) implies other@.contains_key(
                k,
            ) && other@[k] == self@[k] by {
                let j = choose|j: int| 0 <= j < self.entries@.len() && key_at(self.entries@, j) == k;
                assert(other@.contains_key(key_at(self.entries@, j)));
            }
        }
        true
    }
}

impl PartialEq for PartitionOffsets {
    fn eq(&self, other: &PartitionOffsets) -> (r: bool) {
        let r = self.is_submap_of(other) && other.is_submap_of(self);
        proof {
            if r {
                assert forall|k: PartitionKey| #[trigger] self@.contains_key(k) == other@.contains_key(
                    k,
                ) by {
                    if self@.contains_key(k) {
                        assert(other@.contains_key(k));
                    }
                    if other@.contains_key(k) {
                        assert(self@.contains_key(k));
                    }
                }
                assert(self@ =~= other@);
            }
        }
        r
    }
}

impl vstd::std_specs::cmp::PartialEqSpecImpl for PartitionOffsets {
    open spec fn obeys_eq_spec() -> bool {
        true
    }

    open spec fn eq_spec(&self, other: &PartitionOffsets) -> bool {
        self@ == other@
    }
}

impl Default for PartitionOffsets {
    fn default() -> (r: PartitionOffsets)
        ensures
            r@ == Map::<PartitionKey, u64>::empty(),
    {
        PartitionOffsets::new()
    }
}

} // verus!
