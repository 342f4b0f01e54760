//! A sharded write buffer for collecting items produced by many parallel
//! workers, followed by a single deterministic merge into one ordered
//! destination queue.
//!
//! Each worker appends to its own [`shard::Shard`] through a
//! [`writer::ParallelMessageWriter`], so concurrent writers never contend.
//! Once all writers for a cycle have finished, [`merge::merge`] drains every
//! shard, in registration order, into a [`dest::DestinationQueue`].
//!
//! The guarantees this buys — no loss, per-worker order, shard isolation,
//! idempotent drain, deterministic merge — are stated and proved once, in
//! [`laws`].

pub mod dest;
pub mod laws;
pub mod merge;
pub mod message;
pub mod shard;
pub mod shard_set;
pub mod writer;
