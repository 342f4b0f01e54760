//! The ordered queue that merged items land in.

use vstd::prelude::*;

verus! {

/// An ordered queue of merged items, read by downstream consumers. The merge
/// step is its only writer; all it asks of the queue is a batch append that
/// preserves submission order, which is exactly what [`DestinationQueue::append_batch`]
/// guarantees. Retention of merged items is the owner's concern, via
/// [`DestinationQueue::clear`].
///
/// Its view is the sequence of items, oldest first.
pub struct DestinationQueue<E> {
    items: Vec<E>,
}

impl<E> View for DestinationQueue<E> {
    type V = Seq<E>;

    closed spec fn view(&self) -> Seq<E> {
        self.items@
    }
}

impl<E> DestinationQueue<E> {
    /// Creates an empty queue.
    pub fn new() -> (q: Self)
        ensures
            q@ == Seq::<E>::empty(),
    {
        DestinationQueue { items: Vec::new() }
    }

    /// The number of items in the queue.
    pub fn len(&self) -> (n: usize)
        ensures
            n == self@.len(),
    {
        self.items.len()
    }

    /// Appends every item of `batch` at the end of the queue, preserving the
    /// order in which they were submitted.
    pub fn append_batch(&mut self, batch: Vec<E>)
        ensures
            final(self)@ == old(self)@ + batch@,
    {
        let mut incoming = batch;
        self.items.append(&mut incoming);
    }

    /// The item at position `i`, counted from the oldest.
    pub fn item_at(&self, i: usize) -> (r: &E)
        requires
            i < self@.len(),
        ensures
            *r == self@[i as int],
    {
        &self.items[i]
    }

    /// Discards every item.
    pub fn clear(&mut self)
        ensures
            final(self)@ == Seq::<E>::empty(),
    {
        self.items.clear();
    }
}

} // verus!
