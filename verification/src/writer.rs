//! The handle workers append through.

use vstd::prelude::*;
use crate::message::HasDefault;
use crate::shard_set::{ShardSet, buf_of, bufs_after_write, ids_after_write};

verus! {

/// The write handle workers use during the write phase of a cycle. `write`,
/// `write_batch` and `write_default` are the only verbs it offers: workers
/// never touch a foreign shard or the destination queue. Each call names the
/// calling worker's identity, an opaque comparable value that the
/// orchestrating runtime keeps distinct for concurrently running workers.
///
/// Within one worker, writes reach the merge step in issue order. Across
/// workers, relative order depends on registration order, which depends on
/// runtime scheduling: callers must not rely on cross-worker ordering.
pub struct ParallelMessageWriter<E> {
    shard_set: ShardSet<E>,
}

impl<E> ParallelMessageWriter<E> {
    /// The worker identities that have written this cycle, in registration
    /// order.
    pub closed spec fn ids(self) -> Seq<u64> {
        self.shard_set.ids()
    }

    /// The buffered items of every worker's shard, in registration order.
    pub closed spec fn bufs(self) -> Seq<Seq<E>> {
        self.shard_set.bufs()
    }

    /// What `worker` has written so far this cycle, in issue order.
    pub open spec fn contribution(self, worker: u64) -> Seq<E> {
        buf_of(self.ids(), self.bufs(), worker)
    }

    /// Well-formedness: one shard per registered worker.
    pub closed spec fn wf(self) -> bool {
        self.shard_set.wf()
    }

    /// Creates a writer for a fresh cycle, with no shards registered and
    /// nothing buffered.
    pub fn new() -> (w: Self)
        ensures
            w.wf(),
            w.ids() == Seq::<u64>::empty(),
            w.bufs() == Seq::<Seq<E>>::empty(),
    {
        ParallelMessageWriter { shard_set: ShardSet::new() }
    }

    /// The number of workers that have registered a shard this cycle.
    pub fn worker_count(&self) -> (n: usize)
        ensures
            n == self.ids().len(),
    {
        self.shard_set.shard_count()
    }

    /// Writes one `message`: appends it at the end of the calling `worker`'s
    /// own shard, and touches nothing else. Infallible and non-blocking; no
    /// identifier is produced, because identifiers are assigned only at merge
    /// time against the destination queue's own order.
    pub fn write(&mut self, worker: u64, message: E)
        requires
            old(self).wf(),
        ensures
            final(self).wf(),
            final(self).ids() == ids_after_write(old(self).ids(), worker),
            final(self).bufs() == bufs_after_write(
                old(self).ids(),
                old(self).bufs(),
                worker,
                seq![message],
            ),
    {
        self.shard_set.append_for(worker, message);
    }

    /// Writes a batch of `messages` in one scoped access: they land at the
    /// end of the calling `worker`'s own shard, in order, contiguous, never
    /// interleaved with any other write. More efficient than writing each
    /// message individually.
    pub fn write_batch(&mut self, worker: u64, messages: Vec<E>)
        requires
            old(self).wf(),
        ensures
            final(self).wf(),
            final(self).ids() == ids_after_write(old(self).ids(), worker),
            final(self).bufs() == bufs_after_write(
                old(self).ids(),
                old(self).bufs(),
                worker,
                messages@,
            ),
    {
        self.shard_set.append_many_for(worker, messages);
    }

    /// Writes the canonical default value of the item type; useful when the
    /// item is an empty marker. Equivalent to `write` of that value.
    pub fn write_default(&mut self, worker: u64) where E: HasDefault
        requires
            old(self).wf(),
        ensures
            final(self).wf(),
            final(self).ids() == ids_after_write(old(self).ids(), worker),
            final(self).bufs() == bufs_after_write(
                old(self).ids(),
                old(self).bufs(),
                worker,
                seq![E::default_spec()],
            ),
    {
        let message = E::default_value();
        self.shard_set.append_for(worker, message);
    }

    /// Drains every shard, in registration order, into one sequence; the
    /// merge step's path to the buffered items.
    pub(crate) fn drain_all(&mut self) -> (out: Vec<E>)
        requires
            old(self).wf(),
        ensures
            final(self).wf(),
            final(self).ids() == old(self).ids(),
            final(self).bufs().len() == old(self).bufs().len(),
            forall|i: int|
                0 <= i < final(self).bufs().len() ==> final(self).bufs()[i] == Seq::<E>::empty(),
            out@ == old(self).bufs().flatten(),
    {
        self.shard_set.drain_all()
    }
}

} // verus!
