//! Commit batching for a streaming consumer: a pipeline stage that turns
//! per-partition acknowledgements into periodic, coalesced commit requests.
pub mod commit_offsets;
pub mod laws;
pub mod offsets;
pub mod strategy;
pub mod types;
