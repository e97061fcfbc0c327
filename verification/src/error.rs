//! Error taxonomy of the job queue.
//!
//! Every fallible operation of the library returns one of these values;
//! no operation panics. Errors raised inside the dispatcher or a worker
//! are reported through a [`crate::job_queue::Notification`] instead of
//! being returned to the caller.

use vstd::prelude::*;

verus! {

/// The kinds of failure the queue, the store, and the channel plumbing
/// can report.
#[derive(Debug, Clone, PartialEq, Eq)]
pub enum Error {
    /// `start` was called while the queue is already running.
    AlreadyRunning,
    /// `stop` or `join` was called before `start`.
    NotStarted,
    /// `join` was called while the queue is still running.
    NotStopping,
    /// `start` or `stop` was called after the queue began stopping.
    Stopped,
    /// `join` found no dispatcher handle to wait on.
    MissingJoinHandle,
    /// The worker pool was configured with zero workers.
    InvalidThreadPoolSize,
    /// The sending half of the message channel could not be acquired.
    CannotAccessSender(String),
    /// The receiving half of the message channel could not be acquired.
    CannotAccessReceiver(String),
    /// A message could not be delivered to the dispatcher.
    SendFailed,
    /// The worker-pool runtime could not be acquired.
    CannotAccessRuntime(String),
    /// The dispatcher thread could not be joined.
    CannotJoinThread,
    /// No record with the given id is in the store.
    UnknownJob,
    /// A record with the given id is already in the store.
    AlreadyExists,
    /// The job has not finished successfully, so it has no result yet.
    NotFinished,
    /// The record is `Ready` or `Running` and cannot be removed.
    Busy,
    /// The requested status change violates the lifecycle order.
    IllegalTransition,
    /// The private data blob could not be encoded.
    PrivateDataEncode,
    /// The private data blob could not be decoded.
    PrivateDataDecode,
    /// An error raised by a user routine.
    Custom(String),
}

} // verus!
