//! An in-process job queue with a verified core.
//!
//! The library accepts user-defined job descriptors, tracks each job's
//! lifecycle (status, progression, result, expiration) in a store, and
//! drives a queue-level state machine (`Idle`, `Running`, `Stopping`).
//! Everything that decides — admission, lifecycle legality, progression
//! clamping, result fetching, expiration — lives here and is verified;
//! an embedding program supplies the threads, the channel, and the
//! worker pool that carry those decisions out.

pub mod error;
pub mod job;
pub mod job_queue;
pub mod memory_backend;
pub mod records;
