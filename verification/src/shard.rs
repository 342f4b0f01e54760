//! A single worker-local buffer.

use vstd::prelude::*;

verus! {

/// A worker-local, unsynchronized buffer: it accumulates the items appended
/// by exactly one worker during one write phase, and is emptied by the merge
/// step at the end of the cycle.
///
/// Its view is the sequence of buffered items, oldest first.
pub struct Shard<E> {
    items: Vec<E>,
}

impl<E> View for Shard<E> {
    type V = Seq<E>;

    closed spec fn view(&self) -> Seq<E> {
        self.items@
    }
}

impl<E> Shard<E> {
    /// Creates an empty shard.
    pub fn new() -> (s: Self)
        ensures
            s@ == Seq::<E>::empty(),
    {
        Shard { items: Vec::new() }
    }

    /// The number of buffered items.
    pub fn len(&self) -> (n: usize)
        ensures
            n == self@.len(),
    {
        self.items.len()
    }

    /// Whether the shard holds no items.
    pub fn is_empty(&self) -> (r: bool)
        ensures
            r <==> self@.len() == 0,
    {
        self.items.len() == 0
    }

    /// Appends one item at the end of this shard's sequence.
    pub fn append(&mut self, item: E)
        ensures
            final(self)@ == old(self)@.push(item),
    {
        self.items.push(item);
    }

    /// Appends every item of `items`, preserving their relative order.
    /// Equivalent to repeated [`Shard::append`].
    pub fn append_many(&mut self, items: Vec<E>)
        ensures
            final(self)@ == old(self)@ + items@,
    {
        let mut incoming = items;
        self.items.append(&mut incoming);
    }

    /// Removes and returns all buffered items, preserving their order; the
    /// shard is empty afterward, so a second drain yields an empty sequence.
    pub fn drain(&mut self) -> (out: Vec<E>)
        ensures
            out@ == old(self)@,
            final(self)@ == Seq::<E>::empty(),
    {
        let mut out: Vec<E> = Vec::new();
        core::mem::swap(&mut out, &mut self.items);
        out
    }
}

/// A shard starts out empty, like [`Shard::new`].
impl<E> Default for Shard<E> {
    fn default() -> (s: Self)
        ensures
            s@ == Seq::<E>::empty(),
    {
        Shard::new()
    }
}

} // verus!
