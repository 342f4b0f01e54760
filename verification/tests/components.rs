use parallel_writer::dest::DestinationQueue;
use parallel_writer::merge::merge;
use parallel_writer::shard::Shard;
use parallel_writer::shard_set::ShardSet;
use parallel_writer::writer::ParallelMessageWriter;

#[test]
fn shard_appends_and_drains_in_order() {
    let mut s: Shard<u64> = Shard::new();
    assert!(s.is_empty());
    s.append(1);
    s.append_many(vec![2, 3]);
    assert_eq!(s.len(), 3);
    let out = s.drain();
    assert_eq!(out, vec![1, 2, 3]);
    assert!(s.is_empty());
}

#[test]
fn drained_shard_drains_empty_again() {
    let mut s: Shard<u64> = Shard::new();
    s.append(7);
    let first = s.drain();
    assert_eq!(first, vec![7]);
    let second = s.drain();
    assert!(second.is_empty());
    assert_eq!(s.len(), 0);
}

#[test]
fn default_shard_is_empty() {
    let s: Shard<u64> = Shard::default();
    assert!(s.is_empty());
}

#[test]
fn shard_set_registers_workers_lazily() {
    let mut set: ShardSet<u64> = ShardSet::new();
    assert_eq!(set.shard_count(), 0);
    assert!(!set.is_registered(5));
    set.append_for(5, 50);
    assert!(set.is_registered(5));
    assert_eq!(set.shard_count(), 1);
    set.append_for(5, 51);
    assert_eq!(set.shard_count(), 1);
    set.append_many_for(6, vec![60]);
    assert_eq!(set.shard_count(), 2);
    let out = set.drain_all();
    assert_eq!(out, vec![50, 51, 60]);
    assert_eq!(set.shard_count(), 2);
    let again = set.drain_all();
    assert!(again.is_empty());
}

#[test]
fn reset_forgets_registrations_and_contents() {
    let mut set: ShardSet<u64> = ShardSet::default();
    set.append_for(1, 10);
    set.append_for(2, 20);
    assert_eq!(set.shard_count(), 2);
    set.reset();
    assert_eq!(set.shard_count(), 0);
    assert!(!set.is_registered(1));
    let out = set.drain_all();
    assert!(out.is_empty());
}

#[test]
fn empty_batch_still_registers_a_shard() {
    let mut set: ShardSet<u64> = ShardSet::new();
    set.append_many_for(9, vec![]);
    assert!(set.is_registered(9));
    let out = set.drain_all();
    assert!(out.is_empty());
}

#[test]
fn destination_queue_preserves_append_order() {
    let mut q: DestinationQueue<u64> = DestinationQueue::new();
    q.append_batch(vec![3, 1]);
    q.append_batch(vec![2]);
    assert_eq!(q.len(), 3);
    assert_eq!(*q.item_at(0), 3);
    assert_eq!(*q.item_at(1), 1);
    assert_eq!(*q.item_at(2), 2);
    q.clear();
    assert_eq!(q.len(), 0);
}

#[test]
fn writer_counts_workers_once_each() {
    let mut w: ParallelMessageWriter<u64> = ParallelMessageWriter::new();
    assert_eq!(w.worker_count(), 0);
    w.write(1, 10);
    w.write(1, 11);
    w.write(2, 20);
    assert_eq!(w.worker_count(), 2);
}

#[test]
fn write_default_uses_the_canonical_default() {
    let mut w: ParallelMessageWriter<bool> = ParallelMessageWriter::new();
    let mut q: DestinationQueue<bool> = DestinationQueue::new();
    w.write_default(1);
    w.write(1, true);
    merge(&mut w, &mut q);
    assert_eq!(q.len(), 2);
    assert_eq!(*q.item_at(0), false);
    assert_eq!(*q.item_at(1), true);
}
