//! Core of a resumable change-data-capture pipeline over an ordered block log.
//!
//! The library holds the verified logic of the pipeline: the resume-safety
//! rules for the checkpointed log reader, the bounded work queue that gives
//! the producer backpressure, the pure entity extractor, the batched
//! enrichment pairing, and the idempotent, checkpoint-carrying commit
//! protocol of the retry-safe sink. All I/O (the log store, the value store,
//! the remote enrichment service) lives outside and hands the library plain
//! values.

pub mod commit;
pub mod cursor;
pub mod digits;
pub mod driver;
pub mod enrich;
pub mod extract;
pub mod queue;
pub mod resume;
pub mod store;
pub mod strings;
