use rust_arroyo::commit_offsets::{self, CommitOffsets};
use rust_arroyo::offsets::PartitionOffsets;
use rust_arroyo::strategy::{CommitRequest, ProcessingStrategy};
use rust_arroyo::types::{Message, Partition, Topic};

const START: u64 = 1_700_000_000_000;

fn partition(name: &str, index: u16) -> Partition {
    Partition {
        topic: Topic {
            name: name.to_string(),
        },
        index,
    }
}

fn message(partition: &Partition, offset: u64) -> Message<Option<Vec<u8>>> {
    Message {
        partition: partition.clone(),
        offset,
        payload: None,
        timestamp: START,
    }
}

fn request(entries: &[(&Partition, u64)]) -> CommitRequest {
    let mut req = CommitRequest {
        positions: Default::default(),
    };
    for (p, offset) in entries {
        req.positions.insert((*p).clone(), *offset);
    }
    req
}

#[test]
fn test_noop() {
    let partition1 = Partition {
        topic: Topic {
            name: "noop-commit".to_string(),
        },
        index: 0,
    };
    let partition2 = Partition {
        topic: Topic {
            name: "noop-commit".to_string(),
        },
        index: 1,
    };
    let timestamp = START;
    let m1 = Message {
        partition: partition1.clone(),
        offset: 1000,
        payload: (),
        timestamp,
    };
    let m2 = Message {
        partition: partition2.clone(),
        offset: 2000,
        payload: (),
        timestamp,
    };

    let mut noop = commit_offsets::new(1000, START);

    let mut commit_req1 = CommitRequest {
        positions: Default::default(),
    };
    commit_req1.positions.insert(partition1, 1001);
    noop.submit(m1).expect("Failed to submit");
    assert!(noop.poll(START) == None);

    let later = START + 2000;
    assert!(noop.poll(later) == Some(commit_req1));

    let mut commit_req2 = CommitRequest {
        positions: Default::default(),
    };
    commit_req2.positions.insert(partition2, 2001);
    noop.submit(m2).expect("Failed to submit");
    assert!(noop.poll(later) == None);
    assert!(noop.join(later, Some(5000)) == Some(commit_req2))
}

#[test]
fn committable_is_next_offset() {
    let p = partition("t", 3);
    let pairs = message(&p, 41).committable();
    assert_eq!(pairs.len(), 1);
    assert!(pairs[0].0 == p);
    assert_eq!(pairs[0].1, 42);
}

#[test]
fn poll_waits_for_frequency_across_partitions() {
    let p0 = partition("t", 0);
    let p1 = partition("t", 1);
    let p2 = partition("u", 0);
    let mut stage = commit_offsets::new(1000, START);
    stage.submit(message(&p0, 10)).unwrap();
    assert!(stage.poll(START + 10) == None);
    stage.submit(message(&p1, 20)).unwrap();
    stage.submit(message(&p2, 30)).unwrap();
    assert!(stage.poll(START + 500) == None);
    // exactly at the boundary is not yet due
    assert!(stage.poll(START + 1000) == None);
    let req = stage.poll(START + 1001);
    assert!(req == Some(request(&[(&p0, 11), (&p1, 21), (&p2, 31)])));
}

#[test]
fn flush_empties_pending_and_restarts_timer() {
    let p0 = partition("t", 0);
    let mut stage = commit_offsets::new(1000, START);
    stage.submit(message(&p0, 5)).unwrap();
    assert!(stage.poll(START + 1500) == Some(request(&[(&p0, 6)])));
    assert!(stage.poll(START + 1500) == None);
    assert!(stage.poll(START + 100_000) == None);
    stage.submit(message(&p0, 7)).unwrap();
    // the timer restarted at the flush
    assert!(stage.poll(START + 2400) == None);
    assert!(stage.poll(START + 2501) == Some(request(&[(&p0, 8)])));
}

#[test]
fn join_flushes_regardless_of_time() {
    let p0 = partition("t", 0);
    let mut stage = commit_offsets::new(60_000, START);
    assert!(stage.join(START, None) == None);
    stage.submit(message(&p0, 99)).unwrap();
    assert!(stage.join(START, Some(1)) == Some(request(&[(&p0, 100)])));
    assert!(stage.join(START, None) == None);
}

#[test]
fn last_write_wins() {
    let p0 = partition("t", 0);
    let p1 = partition("t", 1);
    let mut stage = commit_offsets::new(1000, START);
    stage.submit(message(&p0, 1)).unwrap();
    stage.submit(message(&p1, 50)).unwrap();
    stage.submit(message(&p0, 7)).unwrap();
    let req = stage.join(START, None).unwrap();
    assert_eq!(req.positions.get(&p0), Some(8));
    assert_eq!(req.positions.get(&p1), Some(51));
    assert!(req == request(&[(&p1, 51), (&p0, 8)]));
    assert!(req != request(&[(&p1, 51), (&p0, 2)]));
}

#[test]
fn pending_holds_one_entry_per_partition() {
    let p0 = partition("t", 0);
    let p1 = partition("t", 1);
    let mut stage = commit_offsets::new(1000, START);
    for offset in 0..20u64 {
        stage.submit(message(&p0, offset)).unwrap();
        stage.submit(message(&p1, offset + 100)).unwrap();
    }
    let req = stage.join(START, None).unwrap();
    assert!(req == request(&[(&p0, 20), (&p1, 120)]));
    assert!(req != request(&[(&p0, 20)]));
    assert_eq!(req.positions.get(&partition("t", 2)), None);
}

#[test]
fn zero_frequency_flushes_once_time_passes() {
    let p0 = partition("t", 0);
    let mut stage = commit_offsets::new(0, START);
    stage.submit(message(&p0, 3)).unwrap();
    assert!(stage.poll(START) == None);
    assert!(stage.poll(START + 1) == Some(request(&[(&p0, 4)])));
}

#[test]
fn huge_frequency_never_flushes_on_timer() {
    let p0 = partition("t", 0);
    let mut stage = commit_offsets::new(u64::MAX, START);
    stage.submit(message(&p0, 3)).unwrap();
    assert!(stage.poll(u64::MAX) == None);
    assert!(stage.join(u64::MAX, None) == Some(request(&[(&p0, 4)])));
}

#[test]
fn clock_going_back_does_not_flush() {
    let p0 = partition("t", 0);
    let mut stage = commit_offsets::new(1000, START);
    stage.submit(message(&p0, 3)).unwrap();
    assert!(stage.poll(START - 5000) == None);
    assert!(stage.poll(0) == None);
}

#[test]
fn close_then_join_drains() {
    let p0 = partition("t", 0);
    let mut stage = commit_offsets::new(1000, START);
    stage.submit(message(&p0, 3)).unwrap();
    stage.close();
    assert!(stage.join(START, None) == Some(request(&[(&p0, 4)])));
}

#[test]
fn terminate_keeps_nothing_flushed() {
    let p0 = partition("t", 0);
    let mut stage = commit_offsets::new(1000, START);
    stage.submit(message(&p0, 3)).unwrap();
    stage.terminate();
    assert!(stage.poll(START) == None);
}

fn drive(stage: &mut dyn ProcessingStrategy<()>, p: &Partition) -> Option<CommitRequest> {
    stage
        .submit(Message {
            partition: p.clone(),
            offset: 1001,
            payload: (),
            timestamp: START,
        })
        .unwrap();
    assert!(stage.poll(START) == None);
    stage.close();
    stage.join(START, None)
}

#[test]
fn works_through_the_stage_interface() {
    let p1 = partition("noop-commit", 1);
    let mut stage: CommitOffsets = commit_offsets::new(1000, START);
    assert!(drive(&mut stage, &p1) == Some(request(&[(&p1, 1002)])));
}

#[test]
fn partition_equality_is_structural() {
    assert!(partition("a", 1) == partition("a", 1));
    assert!(partition("a", 1) != partition("a", 2));
    assert!(partition("a", 1) != partition("b", 1));
}

#[test]
fn offsets_map_replaces_and_ignores_order() {
    let a = partition("t", 0);
    let b = partition("t", 1);
    let mut m = PartitionOffsets::new();
    assert!(m.is_empty());
    m.insert(a.clone(), 1);
    m.insert(b.clone(), 2);
    m.insert(a.clone(), 3);
    assert!(!m.is_empty());
    assert_eq!(m.get(&a), Some(3));
    assert_eq!(m.get(&b), Some(2));
    let mut n = PartitionOffsets::new();
    n.insert(b.clone(), 2);
    n.insert(a.clone(), 3);
    assert!(m == n);
    assert!(m.is_submap_of(&n));
    let taken = m.take();
    assert!(m.is_empty());
    assert!(taken == n);
}
