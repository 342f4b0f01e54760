//! The once-per-cycle merge from the shards into the destination queue.

use vstd::prelude::*;
use crate::dest::DestinationQueue;
use crate::writer::ParallelMessageWriter;

verus! {

/// The merge step: the sole authorized path from buffered per-worker state to
/// the shared destination queue. The caller must invoke it only after every
/// worker write for the current cycle has completed (an external barrier this
/// component cannot enforce).
///
/// Every shard is drained, in registration order, and the drained items are
/// appended to `dest` in one batch: the queue grows by exactly the flattened
/// shard contents, grouped contiguously by registration order and ordered
/// within each group by per-worker issue order. Afterward every shard is
/// empty but stays registered, so merging again without intervening writes
/// appends nothing.
pub fn merge<E>(writer: &mut ParallelMessageWriter<E>, dest: &mut DestinationQueue<E>)
    requires
        old(writer).wf(),
    ensures
        final(writer).wf(),
        final(writer).ids() == old(writer).ids(),
        final(writer).bufs().len() == old(writer).bufs().len(),
        forall|i: int|
            0 <= i < final(writer).bufs().len() ==> final(writer).bufs()[i] == Seq::<E>::empty(),
        final(dest)@ == old(dest)@ + old(writer).bufs().flatten(),
{
    let batch = writer.drain_all();
    dest.append_batch(batch);
}

} // verus!
