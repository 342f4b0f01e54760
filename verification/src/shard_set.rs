//! An indexed collection of shards, one per worker.

use vstd::prelude::*;
use crate::shard::Shard;

verus! {

/// What a worker sees in its own shard: the registered worker's buffer, or
/// the empty sequence for a worker that has not written yet.
pub open spec fn buf_of<E>(ids: Seq<u64>, bufs: Seq<Seq<E>>, worker: u64) -> Seq<E> {
    if ids.contains(worker) {
        bufs[ids.index_of(worker)]
    } else {
        Seq::empty()
    }
}

/// The registration order after one scoped access by `worker`: a worker seen
/// for the first time is registered at the end; a known worker changes
/// nothing.
pub open spec fn ids_after_write(ids: Seq<u64>, worker: u64) -> Seq<u64> {
    if ids.contains(worker) {
        ids
    } else {
        ids.push(worker)
    }
}

/// The shard contents after `worker` appends `items` in one scoped access:
/// only that worker's buffer grows, at its end; every other buffer is
/// untouched.
pub open spec fn bufs_after_write<E>(
    ids: Seq<u64>,
    bufs: Seq<Seq<E>>,
    worker: u64,
    items: Seq<E>,
) -> Seq<Seq<E>> {
    if ids.contains(worker) {
        bufs.update(ids.index_of(worker), bufs[ids.index_of(worker)] + items)
    } else {
        bufs.push(items)
    }
}

/// Routes each worker to its own shard, with exclusion only at the
/// granularity of "pick my shard". Shards are registered lazily, in the
/// order the workers are first seen; that order is what the merge step
/// later drains in.
///
/// Worker identity is an opaque, comparable value supplied by the caller
/// (for example a stable thread index); the set never invents one.
pub struct ShardSet<E> {
    workers: Vec<u64>,
    shards: Vec<Shard<E>>,
}

impl<E> ShardSet<E> {
    /// The worker identities, in registration order.
    pub closed spec fn ids(self) -> Seq<u64> {
        self.workers@
    }

    /// The buffered items of every shard, in registration order.
    pub closed spec fn bufs(self) -> Seq<Seq<E>> {
        self.shards@.map_values(|s: Shard<E>| s@)
    }

    /// Well-formedness: one shard per worker, and each worker registered at
    /// most once, so distinct workers never observe each other's shard.
    pub open spec fn wf(self) -> bool {
        &&& self.ids().no_duplicates()
        &&& self.ids().len() == self.bufs().len()
    }

    /// Creates an empty set with no registered shards.
    pub fn new() -> (s: Self)
        ensures
            s.wf(),
            s.ids() == Seq::<u64>::empty(),
            s.bufs() == Seq::<Seq<E>>::empty(),
    {
        let s = ShardSet { workers: Vec::new(), shards: Vec::new() };
        proof {
            assert(s.bufs() =~= Seq::<Seq<E>>::empty());
        }
        s
    }

    /// The number of registered shards.
    pub fn shard_count(&self) -> (n: usize)
        ensures
            n == self.ids().len(),
    {
        self.workers.len()
    }

    /// Looks a worker up in the registration order.
    fn position_of(&self, worker: u64) -> (r: Option<usize>)
        ensures
            match r {
                Some(i) => self.ids().contains(worker) && i < self.ids().len()
                    && self.ids()[i as int] == worker,
                None => !self.ids().contains(worker),
            },
    {
        let mut i: usize = 0;
        while i < self.workers.len()
            invariant
                i <= self.ids().len(),
                forall|j: int| 0 <= j < i ==> self.ids()[j] != worker,
            decreases self.ids().len() - i,
        {
            if self.workers[i] == worker {
                return Some(i);
            }
            i += 1;
        }
        None
    }

    /// Whether `worker` has already registered a shard this cycle.
    pub fn is_registered(&self, worker: u64) -> (r: bool)
        ensures
            r == self.ids().contains(worker),
    {
        self.position_of(worker).is_some()
    }

    /// Resolves `worker` to the index of its shard, registering a fresh empty
    /// shard at the end of the order the first time this worker is seen.
    fn resolve(&mut self, worker: u64) -> (i: usize)
        requires
            old(self).wf(),
        ensures
            final(self).wf(),
            final(self).ids() == ids_after_write(old(self).ids(), worker),
            i < final(self).ids().len(),
            final(self).ids()[i as int] == worker,
            old(self).ids().contains(worker) ==> *final(self) == *old(self),
            !old(self).ids().contains(worker) ==> final(self).bufs() == old(
                self,
            ).bufs().push(Seq::<E>::empty()),
    {
        match self.position_of(worker) {
            Some(i) => i,
            None => {
                let i = self.workers.len();
                self.workers.push(worker);
                self.shards.push(Shard::new());
                proof {
                    assert(final(self).bufs() =~= old(self).bufs().push(Seq::<E>::empty()));
                }
                i
            },
        }
    }

    /// Appends `item` at the end of `worker`'s own shard, registering the
    /// shard first if this worker has not been seen yet this cycle. No other
    /// shard is touched.
    pub fn append_for(&mut self, worker: u64, item: E)
        requires
            old(self).wf(),
        ensures
            final(self).wf(),
            final(self).ids() == ids_after_write(old(self).ids(), worker),
            final(self).bufs() == bufs_after_write(
                old(self).ids(),
                old(self).bufs(),
                worker,
                seq![item],
            ),
    {
        let ghost pre = *old(self);
        let i = self.resolve(worker);
        let ghost mid = *self;
        let mut s = self.shards.remove(i);
        s.append(item);
        self.shards.insert(i, s);
        proof {
            assert(self.ids() =~= mid.ids());
            assert(self.bufs() =~= mid.bufs().update(i as int, mid.bufs()[i as int].push(item)));
            if pre.ids().contains(worker) {
                assert(pre.ids().index_of(worker) == i as int) by {
                    let j = pre.ids().index_of(worker);
                    assert(pre.ids()[j] == worker);
                    assert(pre.ids()[i as int] == worker);
                }
                assert(mid.bufs()[i as int].push(item) =~= pre.bufs()[i as int] + seq![item]);
                assert(self.bufs() =~= bufs_after_write(pre.ids(), pre.bufs(), worker, seq![item]));
            } else {
                assert(i as int == pre.ids().len());
                assert(mid.bufs()[i as int] =~= Seq::<E>::empty());
                assert(mid.bufs()[i as int].push(item) =~= seq![item]);
                assert(self.bufs() =~= pre.bufs().push(seq![item]));
            }
        }
    }

    /// Appends every item of `items`, in order, at the end of `worker`'s own
    /// shard, in one scoped access: the batch is contiguous and never
    /// interleaved with any other write. No other shard is touched.
    pub fn append_many_for(&mut self, worker: u64, items: Vec<E>)
        requires
            old(self).wf(),
        ensures
            final(self).wf(),
            final(self).ids() == ids_after_write(old(self).ids(), worker),
            final(self).bufs() == bufs_after_write(
                old(self).ids(),
                old(self).bufs(),
                worker,
                items@,
            ),
    {
        let ghost pre = *old(self);
        let i = self.resolve(worker);
        let ghost mid = *self;
        let mut s = self.shards.remove(i);
        s.append_many(items);
        self.shards.insert(i, s);
        proof {
            assert(self.ids() =~= mid.ids());
            assert(self.bufs() =~= mid.bufs().update(i as int, mid.bufs()[i as int] + items@));
            if pre.ids().contains(worker) {
                assert(pre.ids().index_of(worker) == i as int) by {
                    let j = pre.ids().index_of(worker);
                    assert(pre.ids()[j] == worker);
                    assert(pre.ids()[i as int] == worker);
                }
                assert(self.bufs() =~= bufs_after_write(pre.ids(), pre.bufs(), worker, items@));
            } else {
                assert(i as int == pre.ids().len());
                assert(mid.bufs()[i as int] + items@ =~= items@);
                assert(self.bufs() =~= pre.bufs().push(items@));
            }
        }
    }

    /// Forgets every shard and every registration: the set is as freshly
    /// created, ready for reuse in a new scope. Anything still buffered is
    /// dropped unmerged.
    pub fn reset(&mut self)
        ensures
            final(self).wf(),
            final(self).ids() == Seq::<u64>::empty(),
            final(self).bufs() == Seq::<Seq<E>>::empty(),
    {
        self.workers.clear();
        self.shards.clear();
        proof {
            assert(self.bufs() =~= Seq::<Seq<E>>::empty());
        }
    }

    /// Drains every shard, in registration order, and returns the drained
    /// items as one sequence: each shard's items stay contiguous and in their
    /// per-worker order. Every shard is empty afterward, but stays
    /// registered, so a second drain without intervening writes returns
    /// nothing.
    pub fn drain_all(&mut self) -> (out: Vec<E>)
        requires
            old(self).wf(),
        ensures
            final(self).wf(),
            final(self).ids() == old(self).ids(),
            final(self).bufs().len() == old(self).bufs().len(),
            forall|i: int|
                0 <= i < final(self).bufs().len() ==> final(self).bufs()[i] == Seq::<E>::empty(),
            out@ == old(self).bufs().flatten(),
    {
        let ghost pre = *old(self);
        let mut out: Vec<E> = Vec::new();
        let mut k: usize = 0;
        proof {
            assert(pre.bufs().take(0) =~= Seq::<Seq<E>>::empty());
        }
        while k < self.shards.len()
            invariant
                pre.wf(),
                self.wf(),
                k <= self.bufs().len(),
                self.ids() == pre.ids(),
                self.bufs().len() == pre.bufs().len(),
                forall|i: int| 0 <= i < k ==> self.bufs()[i] == Seq::<E>::empty(),
                forall|i: int| k <= i < self.bufs().len() ==> self.bufs()[i] == pre.bufs()[i],
                out@ == pre.bufs().take(k as int).flatten(),
            decreases self.bufs().len() - k,
        {
            let ghost loop_pre = *self;
            let mut s = self.shards.remove(k);
            let mut drained = s.drain();
            out.append(&mut drained);
            self.shards.insert(k, s);
            proof {
                assert(self.ids() =~= loop_pre.ids());
                assert(self.bufs() =~= loop_pre.bufs().update(k as int, Seq::<E>::empty()));
                assert(pre.bufs().take(k as int).push(pre.bufs()[k as int]) =~= pre.bufs().take(
                    k as int + 1,
                ));
                pre.bufs().take(k as int).lemma_flatten_push(pre.bufs()[k as int]);
            }
            k += 1;
        }
        proof {
            assert(pre.bufs().take(pre.bufs().len() as int) =~= pre.bufs());
        }
        out
    }
}

/// A shard set starts out with no registered shards, like [`ShardSet::new`].
impl<E> Default for ShardSet<E> {
    fn default() -> (s: Self)
        ensures
            s.wf(),
            s.ids() == Seq::<u64>::empty(),
            s.bufs() == Seq::<Seq<E>>::empty(),
    {
        ShardSet::new()
    }
}

} // verus!
