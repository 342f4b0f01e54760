use parallel_writer::dest::DestinationQueue;
use parallel_writer::merge::merge;
use parallel_writer::writer::ParallelMessageWriter;

fn drain_to_vec(q: &DestinationQueue<u64>) -> Vec<u64> {
    let mut out = Vec::new();
    let mut i = 0;
    while i < q.len() {
        out.push(*q.item_at(i));
        i += 1;
    }
    out
}

#[test]
fn single_worker_writes_in_order() {
    let mut w: ParallelMessageWriter<u64> = ParallelMessageWriter::new();
    let mut q: DestinationQueue<u64> = DestinationQueue::new();
    w.write(7, 1);
    w.write(7, 2);
    w.write(7, 3);
    merge(&mut w, &mut q);
    assert_eq!(drain_to_vec(&q), vec![1, 2, 3]);
}

#[test]
fn two_workers_merge_grouped_by_registration_order() {
    let mut w: ParallelMessageWriter<u64> = ParallelMessageWriter::new();
    let mut q: DestinationQueue<u64> = DestinationQueue::new();
    // Writes interleave across the two workers; the merge still groups each
    // worker's items contiguously, in registration order.
    w.write(1, 1);
    w.write(2, 10);
    w.write(1, 2);
    w.write(2, 20);
    merge(&mut w, &mut q);
    assert_eq!(drain_to_vec(&q), vec![1, 2, 10, 20]);
}

#[test]
fn write_default_three_times_yields_three_zeroes() {
    let mut w: ParallelMessageWriter<u64> = ParallelMessageWriter::new();
    let mut q: DestinationQueue<u64> = DestinationQueue::new();
    w.write_default(3);
    w.write_default(3);
    w.write_default(3);
    merge(&mut w, &mut q);
    assert_eq!(drain_to_vec(&q), vec![0, 0, 0]);
}

#[test]
fn batch_then_single_write_stays_contiguous() {
    let mut w: ParallelMessageWriter<u64> = ParallelMessageWriter::new();
    let mut q: DestinationQueue<u64> = DestinationQueue::new();
    w.write_batch(4, vec![101, 102, 103]);
    w.write(4, 104);
    merge(&mut w, &mut q);
    assert_eq!(drain_to_vec(&q), vec![101, 102, 103, 104]);
}

#[test]
fn empty_cycle_merges_nothing() {
    let mut w: ParallelMessageWriter<u64> = ParallelMessageWriter::new();
    let mut q: DestinationQueue<u64> = DestinationQueue::new();
    q.append_batch(vec![5]);
    merge(&mut w, &mut q);
    assert_eq!(drain_to_vec(&q), vec![5]);
    assert_eq!(q.len(), 1);
}

#[test]
fn merge_appends_after_existing_items() {
    let mut w: ParallelMessageWriter<u64> = ParallelMessageWriter::new();
    let mut q: DestinationQueue<u64> = DestinationQueue::new();
    q.append_batch(vec![1, 2]);
    w.write(9, 3);
    merge(&mut w, &mut q);
    assert_eq!(drain_to_vec(&q), vec![1, 2, 3]);
}

#[test]
fn no_items_lost_or_duplicated_across_workers() {
    let mut w: ParallelMessageWriter<u64> = ParallelMessageWriter::new();
    let mut q: DestinationQueue<u64> = DestinationQueue::new();
    w.write(1, 5);
    w.write_batch(2, vec![8, 5]);
    w.write(3, 13);
    w.write(1, 8);
    merge(&mut w, &mut q);
    let mut got = drain_to_vec(&q);
    got.sort();
    assert_eq!(got, vec![5, 5, 8, 8, 13]);
}

#[test]
fn per_worker_order_survives_interleaving() {
    let mut w: ParallelMessageWriter<u64> = ParallelMessageWriter::new();
    let mut q: DestinationQueue<u64> = DestinationQueue::new();
    // Worker 11 issues 1, 2, 3 with other workers' writes in between.
    w.write(11, 1);
    w.write(12, 100);
    w.write(11, 2);
    w.write_batch(13, vec![200, 201]);
    w.write(11, 3);
    merge(&mut w, &mut q);
    let got = drain_to_vec(&q);
    let mine: Vec<u64> = got.iter().copied().filter(|v| *v < 100).collect();
    assert_eq!(mine, vec![1, 2, 3]);
}

#[test]
fn second_merge_without_writes_adds_nothing() {
    let mut w: ParallelMessageWriter<u64> = ParallelMessageWriter::new();
    let mut q: DestinationQueue<u64> = DestinationQueue::new();
    w.write(1, 42);
    merge(&mut w, &mut q);
    assert_eq!(q.len(), 1);
    merge(&mut w, &mut q);
    assert_eq!(q.len(), 1);
    assert_eq!(drain_to_vec(&q), vec![42]);
}

#[test]
fn same_writes_same_registration_order_merge_identically() {
    let mut q1: DestinationQueue<u64> = DestinationQueue::new();
    let mut q2: DestinationQueue<u64> = DestinationQueue::new();
    for q in [&mut q1, &mut q2] {
        let mut w: ParallelMessageWriter<u64> = ParallelMessageWriter::new();
        w.write(1, 1);
        w.write(2, 10);
        w.write(1, 2);
        w.write(2, 20);
        merge(&mut w, q);
    }
    assert_eq!(drain_to_vec(&q1), drain_to_vec(&q2));
}

#[test]
fn registration_order_decides_cross_worker_interleave() {
    // The same logical writes, issued so that the workers register in the
    // opposite order, legitimately merge to a different cross-worker order.
    let mut w1: ParallelMessageWriter<u64> = ParallelMessageWriter::new();
    let mut q1: DestinationQueue<u64> = DestinationQueue::new();
    w1.write(1, 1);
    w1.write(1, 2);
    w1.write(2, 10);
    w1.write(2, 20);
    merge(&mut w1, &mut q1);

    let mut w2: ParallelMessageWriter<u64> = ParallelMessageWriter::new();
    let mut q2: DestinationQueue<u64> = DestinationQueue::new();
    w2.write(2, 10);
    w2.write(2, 20);
    w2.write(1, 1);
    w2.write(1, 2);
    merge(&mut w2, &mut q2);

    assert_eq!(drain_to_vec(&q1), vec![1, 2, 10, 20]);
    assert_eq!(drain_to_vec(&q2), vec![10, 20, 1, 2]);
}
