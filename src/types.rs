//! Identifiers of stream positions and the message envelope.
use vstd::prelude::*;

verus! {

/// A named logical stream.
#[derive(Debug)]
pub struct Topic {
    pub name: String,
}

impl View for Topic {
    type V = Seq<char>;

    open spec fn view(&self) -> Seq<char> {
        self.name@
    }
}

impl PartialEq for Topic {
    fn eq(&self, other: &Topic) -> (r: bool) {
        self.name == other.name
    }
}

impl vstd::std_specs::cmp::PartialEqSpecImpl for Topic {
    open spec fn obeys_eq_spec() -> bool {
        true
    }

    open spec fn eq_spec(&self, other: &Topic) -> bool {
        self@ == other@
    }
}

impl Clone for Topic {
    fn clone(&self) -> (r: Topic)
        ensures
            r@ == self@,
    {
        Topic { name: self.name.clone() }
    }
}

/// What identifies a partition in contracts: the topic's name and the index.
pub type PartitionKey = (Seq<char>, u16);

/// One ordered sub-stream of a topic.
#[derive(Debug)]
pub struct Partition {
    pub topic: Topic,
    pub index: u16,
}

impl View for Partition {
    type V = PartitionKey;

    open spec fn view(&self) -> PartitionKey {
        (self.topic@, self.index)
    }
}

impl PartialEq for Partition {
    fn eq(&self, other: &Partition) -> (r: bool) {
        self.index == other.index && self.topic == other.topic
    }
}

impl vstd::std_specs::cmp::PartialEqSpecImpl for Partition {
    open spec fn obeys_eq_spec() -> bool {
        true
    }

    open spec fn eq_spec(&self, other: &Partition) -> bool {
        self@ == other@
    }
}

impl Clone for Partition {
    fn clone(&self) -> (r: Partition)
        ensures
            r@ == self@,
    {
        Partition { topic: self.topic.clone(), index: self.index }
    }
}

/// The partitions and offsets of a list of pairs.
pub open spec fn pair_keys(pairs: Seq<(Partition, u64)>) -> Seq<(PartitionKey, u64)> {
    pairs.map_values(|e: (Partition, u64)| (e.0@, e.1))
}

/// A unit of work read at `offset` of `partition`. The timestamp counts
/// milliseconds since the Unix epoch; the payload is never looked at.
#[derive(Debug)]
pub struct Message<T> {
    pub partition: Partition,
    pub offset: u64,
    pub payload: T,
    pub timestamp: u64,
}

impl<T> Message<T> {
    /// The positions that become safe to commit once this message is
    /// processed: the next offset of its own partition.
    pub open spec fn committable_spec(&self) -> Seq<(PartitionKey, u64)> {
        seq![(self.partition@, (self.offset + 1) as u64)]
    }

    /// The (partition, offset) pairs that this message allows to commit.
    pub fn committable(&self) -> (r: Vec<(Partition, u64)>)
        requires
            self.offset < u64::MAX,
        ensures
            pair_keys(r@) == self.committable_spec(),
    {
        let r = vec![(self.partition.clone(), self.offset + 1)];
        proof {
            assert(pair_keys(r@) =~= self.committable_spec());
        }
        r
    }
}

} // verus!
