//! The guarantees the sharded buffer gives, stated and proved once, over the
//! same spec-level vocabulary the executable contracts use.

use vstd::prelude::*;
use vstd::multiset::Multiset;
use vstd::seq_lib::{lemma_flatten_concat, lemma_multiset_commutative};
use crate::shard_set::{buf_of, bufs_after_write, ids_after_write};

verus! {

/// The union of every shard's items, with multiplicity: what one merge hands
/// to the destination queue, counted without regard to order.
pub open spec fn multiset_sum<E>(bufs: Seq<Seq<E>>) -> Multiset<E>
    decreases bufs.len(),
{
    if bufs.len() == 0 {
        Multiset::empty()
    } else {
        bufs.first().to_multiset().add(multiset_sum(bufs.drop_first()))
    }
}

/// No loss: the merged output contains exactly the union of every shard's
/// buffered items, with no duplication and no omission — as multisets, the
/// flattened merge order equals the sum of the per-shard contents.
pub proof fn lemma_merge_preserves_items<E>(bufs: Seq<Seq<E>>)
    ensures
        bufs.flatten().to_multiset() == multiset_sum(bufs),
    decreases bufs.len(),
{
    if bufs.len() == 0 {
        assert(bufs.flatten().to_multiset() =~= Multiset::<E>::empty()) by {
            broadcast use vstd::seq_lib::group_to_multiset_ensures;
            broadcast use vstd::multiset::lemma_multiset_empty_len;

            assert(bufs.flatten().len() == 0);
        }
    } else {
        lemma_merge_preserves_items(bufs.drop_first());
        lemma_multiset_commutative(bufs.first(), bufs.drop_first().flatten());
    }
}

/// Where shard `i`'s items stand in the merged output: after the flattened
/// contents of every earlier shard.
pub open spec fn flat_offset<E>(bufs: Seq<Seq<E>>, i: int) -> int {
    bufs.take(i).flatten().len() as int
}

/// Per-worker order preserved into the merge: shard `i`'s items appear in the
/// merged output contiguously, unsplit, in their buffered order, at the
/// offset following every earlier shard's contribution.
pub proof fn lemma_merge_keeps_shard_contiguous<E>(bufs: Seq<Seq<E>>, i: int)
    requires
        0 <= i < bufs.len(),
    ensures
        0 <= flat_offset(bufs, i),
        flat_offset(bufs, i) + bufs[i].len() <= bufs.flatten().len(),
        bufs.flatten().subrange(flat_offset(bufs, i), flat_offset(bufs, i) + bufs[i].len() as int)
            == bufs[i],
{
    let front = bufs.take(i);
    let back = bufs.skip(i + 1);
    assert(bufs =~= front + seq![bufs[i]] + back);
    lemma_flatten_concat(front + seq![bufs[i]], back);
    lemma_flatten_concat(front, seq![bufs[i]]);
    seq![bufs[i]].lemma_flatten_one_element();
    assert(bufs.flatten() =~= front.flatten() + bufs[i] + back.flatten());
    assert(bufs.flatten().subrange(flat_offset(bufs, i), flat_offset(bufs, i) + bufs[i].len() as int)
        =~= bufs[i]);
}

/// One scoped write keeps the shard set well formed: worker identities stay
/// distinct, and there is still one shard per registered worker.
pub proof fn lemma_write_preserves_wf<E>(ids: Seq<u64>, bufs: Seq<Seq<E>>, worker: u64, items: Seq<E>)
    requires
        ids.no_duplicates(),
        ids.len() == bufs.len(),
    ensures
        ids_after_write(ids, worker).no_duplicates(),
        ids_after_write(ids, worker).len() == bufs_after_write(ids, bufs, worker, items).len(),
{
    if !ids.contains(worker) {
        assert forall|i: int, j: int|
            0 <= i < ids.push(worker).len() && 0 <= j < ids.push(worker).len() && i != j implies ids.push(
            worker,
        )[i] != ids.push(worker)[j] by {
            if i < ids.len() && j < ids.len() {
                assert(ids[i] != ids[j]);
            }
        }
    }
}

/// A worker's own view of one scoped write: its buffer grows by exactly the
/// written items, at its end, in their issue order.
pub proof fn lemma_write_extends_own_buffer<E>(
    ids: Seq<u64>,
    bufs: Seq<Seq<E>>,
    worker: u64,
    items: Seq<E>,
)
    requires
        ids.no_duplicates(),
        ids.len() == bufs.len(),
    ensures
        buf_of(ids_after_write(ids, worker), bufs_after_write(ids, bufs, worker, items), worker)
            == buf_of(ids, bufs, worker) + items,
{
    if ids.contains(worker) {
        let i = ids.index_of(worker);
        assert(0 <= i < ids.len() && ids[i] == worker);
    } else {
        let ids2 = ids.push(worker);
        assert(ids2[ids.len() as int] == worker);
        assert(ids2.contains(worker));
        let j = ids2.index_of(worker);
        assert(0 <= j < ids2.len() && ids2[j] == worker);
        assert(j == ids.len()) by {
            if j < ids.len() {
                assert(ids[j] == worker);
                assert(ids.contains(worker));
            }
        }
        assert(Seq::<E>::empty() + items =~= items);
    }
}

/// Shard isolation: one scoped write by `worker` leaves every other worker's
/// buffer exactly as it was — concurrent writers never corrupt or interleave
/// each other's shards.
pub proof fn lemma_write_preserves_other_buffers<E>(
    ids: Seq<u64>,
    bufs: Seq<Seq<E>>,
    worker: u64,
    items: Seq<E>,
    other: u64,
)
    requires
        ids.no_duplicates(),
        ids.len() == bufs.len(),
        other != worker,
    ensures
        buf_of(ids_after_write(ids, worker), bufs_after_write(ids, bufs, worker, items), other)
            == buf_of(ids, bufs, other),
{
    if ids.contains(worker) {
        let i = ids.index_of(worker);
        assert(0 <= i < ids.len() && ids[i] == worker);
        if ids.contains(other) {
            let k = ids.index_of(other);
            assert(0 <= k < ids.len() && ids[k] == other);
            assert(k != i);
        }
    } else {
        let ids2 = ids.push(worker);
        if ids.contains(other) {
            let k = ids.index_of(other);
            assert(0 <= k < ids.len() && ids[k] == other);
            assert(ids2[k] == other);
            assert(ids2.contains(other));
            let k2 = ids2.index_of(other);
            assert(0 <= k2 < ids2.len() && ids2[k2] == other);
            assert(k2 != ids.len());
            assert(ids[k2] == other);
            assert(k2 == k);
        } else {
            assert forall|j: int| 0 <= j < ids2.len() implies !(ids2[j] == other && j < ids.len())
                by {}
            assert(!ids2.contains(other)) by {
                if ids2.contains(other) {
                    let j = choose|j: int| 0 <= j < ids2.len() && ids2[j] == other;
                    assert(j == ids.len() ==> ids2[j] == worker);
                    assert(j < ids.len() ==> ids.contains(other));
                }
            }
        }
    }
}

/// One write issued to the shard set: the issuing worker and the batch of
/// items it appended (a single write is a batch of one).
pub struct WriteRecord<E> {
    /// The identity of the worker that issued the write.
    pub worker: u64,
    /// The items the write appended, in issue order.
    pub items: Seq<E>,
}

/// The registration order after a whole write phase, applied write by write
/// in the order the shard set observed them.
pub open spec fn ids_after_writes<E>(ids: Seq<u64>, writes: Seq<WriteRecord<E>>) -> Seq<u64>
    decreases writes.len(),
{
    if writes.len() == 0 {
        ids
    } else {
        ids_after_writes(ids_after_write(ids, writes.first().worker), writes.drop_first())
    }
}

/// The shard contents after a whole write phase, applied write by write in
/// the order the shard set observed them.
pub open spec fn bufs_after_writes<E>(
    ids: Seq<u64>,
    bufs: Seq<Seq<E>>,
    writes: Seq<WriteRecord<E>>,
) -> Seq<Seq<E>>
    decreases writes.len(),
{
    if writes.len() == 0 {
        bufs
    } else {
        bufs_after_writes(
            ids_after_write(ids, writes.first().worker),
            bufs_after_write(ids, bufs, writes.first().worker, writes.first().items),
            writes.drop_first(),
        )
    }
}

/// What one worker issued during a write phase, in issue order, with every
/// other worker's writes left out.
pub open spec fn issued_by<E>(writes: Seq<WriteRecord<E>>, worker: u64) -> Seq<E>
    decreases writes.len(),
{
    if writes.len() == 0 {
        Seq::empty()
    } else {
        (if writes.first().worker == worker {
            writes.first().items
        } else {
            Seq::empty()
        }) + issued_by(writes.drop_first(), worker)
    }
}

/// Per-worker order, for a whole write phase: however the workers' writes
/// interleave, each worker's buffer ends up holding exactly what it had
/// before plus what that worker issued, in issue order — other workers'
/// writes neither reorder nor disturb it.
pub proof fn lemma_per_worker_order<E>(
    ids: Seq<u64>,
    bufs: Seq<Seq<E>>,
    writes: Seq<WriteRecord<E>>,
    worker: u64,
)
    requires
        ids.no_duplicates(),
        ids.len() == bufs.len(),
    ensures
        buf_of(ids_after_writes(ids, writes), bufs_after_writes(ids, bufs, writes), worker)
            == buf_of(ids, bufs, worker) + issued_by(writes, worker),
    decreases writes.len(),
{
    if writes.len() == 0 {
        assert(buf_of(ids, bufs, worker) + Seq::<E>::empty() =~= buf_of(ids, bufs, worker));
    } else {
        let w0 = writes.first().worker;
        let it0 = writes.first().items;
        let ids1 = ids_after_write(ids, w0);
        let bufs1 = bufs_after_write(ids, bufs, w0, it0);
        lemma_write_preserves_wf(ids, bufs, w0, it0);
        lemma_per_worker_order(ids1, bufs1, writes.drop_first(), worker);
        if w0 == worker {
            lemma_write_extends_own_buffer(ids, bufs, worker, it0);
            assert((buf_of(ids, bufs, worker) + it0) + issued_by(writes.drop_first(), worker)
                =~= buf_of(ids, bufs, worker) + (it0 + issued_by(writes.drop_first(), worker)));
        } else {
            lemma_write_preserves_other_buffers(ids, bufs, w0, it0, worker);
            assert(Seq::<E>::empty() + issued_by(writes.drop_first(), worker) =~= issued_by(
                writes.drop_first(),
                worker,
            ));
        }
    }
}

/// A whole write phase keeps the shard set well formed.
pub proof fn lemma_writes_preserve_wf<E>(
    ids: Seq<u64>,
    bufs: Seq<Seq<E>>,
    writes: Seq<WriteRecord<E>>,
)
    requires
        ids.no_duplicates(),
        ids.len() == bufs.len(),
    ensures
        ids_after_writes(ids, writes).no_duplicates(),
        ids_after_writes(ids, writes).len() == bufs_after_writes(ids, bufs, writes).len(),
    decreases writes.len(),
{
    if writes.len() > 0 {
        let w0 = writes.first().worker;
        let it0 = writes.first().items;
        lemma_write_preserves_wf(ids, bufs, w0, it0);
        lemma_writes_preserve_wf(
            ids_after_write(ids, w0),
            bufs_after_write(ids, bufs, w0, it0),
            writes.drop_first(),
        );
    }
}

/// Per-worker order, end to end: starting a cycle from a fresh shard set,
/// after any write phase in which worker `worker` wrote at all, the merged
/// output holds exactly what that worker issued, contiguously, unsplit, in
/// issue order — wherever the other workers' writes fell.
pub proof fn lemma_cycle_per_worker_order<E>(writes: Seq<WriteRecord<E>>, worker: u64)
    requires
        ids_after_writes::<E>(Seq::empty(), writes).contains(worker),
    ensures
        ({
            let ids = ids_after_writes::<E>(Seq::empty(), writes);
            let bufs = bufs_after_writes(Seq::empty(), Seq::<Seq<E>>::empty(), writes);
            let i = ids.index_of(worker);
            &&& 0 <= i < bufs.len()
            &&& bufs[i] == issued_by(writes, worker)
            &&& bufs.flatten().subrange(
                flat_offset(bufs, i),
                flat_offset(bufs, i) + bufs[i].len() as int,
            ) == issued_by(writes, worker)
        }),
{
    let ids = ids_after_writes::<E>(Seq::empty(), writes);
    let bufs = bufs_after_writes(Seq::empty(), Seq::<Seq<E>>::empty(), writes);
    lemma_writes_preserve_wf(Seq::empty(), Seq::<Seq<E>>::empty(), writes);
    lemma_per_worker_order(Seq::empty(), Seq::<Seq<E>>::empty(), writes, worker);
    assert(Seq::<E>::empty() + issued_by(writes, worker) =~= issued_by(writes, worker));
    let i = ids.index_of(worker);
    assert(0 <= i < ids.len() && ids[i] == worker);
    lemma_merge_keeps_shard_contiguous(bufs, i);
}

/// Everything a write phase issued, across all workers, with multiplicity.
pub open spec fn issued_all<E>(writes: Seq<WriteRecord<E>>) -> Multiset<E>
    decreases writes.len(),
{
    if writes.len() == 0 {
        Multiset::empty()
    } else {
        writes.first().items.to_multiset().add(issued_all(writes.drop_first()))
    }
}

/// One scoped write adds exactly the written items to the union of the shard
/// contents: nothing is dropped, nothing duplicated.
pub proof fn lemma_write_adds_items<E>(
    ids: Seq<u64>,
    bufs: Seq<Seq<E>>,
    worker: u64,
    items: Seq<E>,
)
    requires
        ids.no_duplicates(),
        ids.len() == bufs.len(),
    ensures
        multiset_sum(bufs_after_write(ids, bufs, worker, items)) == multiset_sum(bufs).add(
            items.to_multiset(),
        ),
{
    if ids.contains(worker) {
        let i = ids.index_of(worker);
        assert(0 <= i < ids.len() && ids[i] == worker);
        lemma_sum_of_update(bufs, i, items);
    } else {
        lemma_sum_of_push(bufs, items);
    }
}

/// Appending a fresh shard adds exactly its contents to the union.
proof fn lemma_sum_of_push<E>(bufs: Seq<Seq<E>>, items: Seq<E>)
    ensures
        multiset_sum(bufs.push(items)) == multiset_sum(bufs).add(items.to_multiset()),
    decreases bufs.len(),
{
    broadcast use vstd::multiset::group_multiset_axioms;

    if bufs.len() == 0 {
        assert(bufs.push(items).first() == items);
        assert(multiset_sum(bufs.push(items).drop_first()) == Multiset::<E>::empty());
        assert(bufs.push(items).drop_first() =~= Seq::<Seq<E>>::empty());
        assert(multiset_sum(bufs).add(items.to_multiset()) =~= items.to_multiset().add(
            Multiset::empty(),
        ));
    } else {
        assert(bufs.push(items).drop_first() =~= bufs.drop_first().push(items));
        lemma_sum_of_push(bufs.drop_first(), items);
        assert(multiset_sum(bufs.push(items)) =~= multiset_sum(bufs).add(items.to_multiset()));
    }
}

/// Extending one shard in place adds exactly the appended items to the union.
proof fn lemma_sum_of_update<E>(bufs: Seq<Seq<E>>, i: int, items: Seq<E>)
    requires
        0 <= i < bufs.len(),
    ensures
        multiset_sum(bufs.update(i, bufs[i] + items)) == multiset_sum(bufs).add(
            items.to_multiset(),
        ),
    decreases bufs.len(),
{
    broadcast use vstd::multiset::group_multiset_axioms;

    let upd = bufs.update(i, bufs[i] + items);
    if i == 0 {
        assert(upd.first() == bufs.first() + items);
        assert(upd.drop_first() =~= bufs.drop_first());
        lemma_multiset_commutative(bufs.first(), items);
        assert(multiset_sum(upd) =~= multiset_sum(bufs).add(items.to_multiset()));
    } else {
        assert(upd.first() == bufs.first());
        assert(upd.drop_first() =~= bufs.drop_first().update(i - 1, bufs.drop_first()[i - 1]
            + items));
        lemma_sum_of_update(bufs.drop_first(), i - 1, items);
        assert(multiset_sum(upd) =~= multiset_sum(bufs).add(items.to_multiset()));
    }
}

/// No loss, across a whole write phase: the union of the shard contents after
/// the phase is the union before it plus everything any worker wrote, however
/// the workers' writes interleaved.
pub proof fn lemma_writes_add_all_items<E>(
    ids: Seq<u64>,
    bufs: Seq<Seq<E>>,
    writes: Seq<WriteRecord<E>>,
)
    requires
        ids.no_duplicates(),
        ids.len() == bufs.len(),
    ensures
        multiset_sum(bufs_after_writes(ids, bufs, writes)) == multiset_sum(bufs).add(
            issued_all(writes),
        ),
    decreases writes.len(),
{
    broadcast use vstd::multiset::group_multiset_axioms;

    if writes.len() == 0 {
        assert(multiset_sum(bufs).add(Multiset::<E>::empty()) =~= multiset_sum(bufs));
    } else {
        let w0 = writes.first().worker;
        let it0 = writes.first().items;
        lemma_write_preserves_wf(ids, bufs, w0, it0);
        lemma_write_adds_items(ids, bufs, w0, it0);
        lemma_writes_add_all_items(
            ids_after_write(ids, w0),
            bufs_after_write(ids, bufs, w0, it0),
            writes.drop_first(),
        );
        assert(multiset_sum(bufs).add(it0.to_multiset()).add(issued_all(writes.drop_first()))
            =~= multiset_sum(bufs).add(issued_all(writes)));
    }
}

/// No loss, end to end: starting a cycle from a fresh shard set, one merge
/// after any write phase hands the destination queue exactly the union of
/// everything the workers wrote — no duplication, no omission.
pub proof fn lemma_cycle_no_loss<E>(writes: Seq<WriteRecord<E>>)
    ensures
        bufs_after_writes(Seq::empty(), Seq::<Seq<E>>::empty(), writes).flatten().to_multiset()
            == issued_all(writes),
{
    broadcast use vstd::multiset::group_multiset_axioms;

    let bufs = bufs_after_writes(Seq::empty(), Seq::<Seq<E>>::empty(), writes);
    lemma_writes_add_all_items(Seq::empty(), Seq::<Seq<E>>::empty(), writes);
    lemma_merge_preserves_items(bufs);
    assert(Multiset::<E>::empty().add(issued_all(writes)) =~= issued_all(writes));
}

/// Idempotent drain: shards that were already drained contribute nothing, so
/// a second merge without intervening writes appends an empty sequence.
pub proof fn lemma_drained_shards_add_nothing<E>(bufs: Seq<Seq<E>>)
    requires
        forall|i: int| 0 <= i < bufs.len() ==> bufs[i] == Seq::<E>::empty(),
    ensures
        bufs.flatten() == Seq::<E>::empty(),
    decreases bufs.len(),
{
    if bufs.len() > 0 {
        lemma_drained_shards_add_nothing(bufs.drop_first());
        assert(bufs.flatten() =~= Seq::<E>::empty());
    }
}

/// Deterministic merge: the merged output is a function of the shard
/// registration order and the per-shard contents alone, so re-running a merge
/// over pointwise-equal shard contents yields an identical output. (Across
/// runs, registration order itself follows runtime scheduling, which is why
/// cross-worker interleaving stays unspecified.)
pub proof fn lemma_merge_deterministic<E>(bufs1: Seq<Seq<E>>, bufs2: Seq<Seq<E>>)
    requires
        bufs1.len() == bufs2.len(),
        forall|i: int| 0 <= i < bufs1.len() ==> bufs1[i] == bufs2[i],
    ensures
        bufs1.flatten() == bufs2.flatten(),
{
    assert(bufs1 =~= bufs2);
}

} // verus!
