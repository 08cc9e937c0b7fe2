//! Reconciliation of the responses that a distributed-hash-table lookup collects
//! for one GET of a record: per-query accumulation of versions, quorum
//! arithmetic, split detection, timeout salvage and the self-verifying fast path.
pub mod quorum;
pub mod record;
pub mod accumulator;
pub mod engine;
pub mod laws;
