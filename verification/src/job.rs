//! Job descriptors and the job-level lifecycle.
//!
//! A [`Job`] carries an opaque 128-bit identifier, a user-chosen routine
//! value, an optional opaque private-data blob, and an [`ExpirePolicy`].
//! The status of a stored job moves along the order
//! `Pending -> Ready -> Running -> Finished(_)`; the only shortcut is
//! `Pending -> Finished(Error)` for jobs that fail at admission time.
//! All instants and durations are in milliseconds.

use vstd::prelude::*;

verus! {

/// Opaque 128-bit identifier of a job, generated at construction.
#[derive(Clone, Copy, PartialEq, Eq, Structural, Debug)]
pub struct JobId(pub u128);

/// How a finished routine ended.
#[derive(Clone, Copy, PartialEq, Eq, Structural, Debug)]
pub enum ResultStatus {
    /// The routine returned a payload.
    Success,
    /// The routine returned an error.
    Error,
}

/// Lifecycle status of a stored job.
#[derive(Clone, Copy, PartialEq, Eq, Structural, Debug)]
pub enum Status {
    /// Admitted to the store, not yet handed to the pool.
    Pending,
    /// Handed to the worker pool.
    Ready,
    /// Its routine is executing.
    Running,
    /// Its routine has ended.
    Finished(ResultStatus),
}

/// The transitions the lifecycle order allows.
pub open spec fn legal_transition(from: Status, to: Status) -> bool {
    match (from, to) {
        (Status::Pending, Status::Ready) => true,
        (Status::Ready, Status::Running) => true,
        (Status::Running, Status::Finished(_)) => true,
        (Status::Pending, Status::Finished(r)) => r == ResultStatus::Error,
        _ => false,
    }
}

/// Position of a status along the lifecycle order.
pub open spec fn status_rank(s: Status) -> int {
    match s {
        Status::Pending => 0,
        Status::Ready => 1,
        Status::Running => 2,
        Status::Finished(_) => 3,
    }
}

/// Decides [`legal_transition`] in executable code.
pub fn transition_allowed(from: Status, to: Status) -> (r: bool)
    ensures
        r == legal_transition(from, to),
{
    match (from, to) {
        (Status::Pending, Status::Ready) => true,
        (Status::Ready, Status::Running) => true,
        (Status::Running, Status::Finished(_)) => true,
        (Status::Pending, Status::Finished(ResultStatus::Error)) => true,
        _ => false,
    }
}

/// A sequence of statuses in which each step is a legal transition.
pub open spec fn status_chain(h: Seq<Status>) -> bool {
    forall|i: int| 0 <= i < h.len() - 1 ==> legal_transition(#[trigger] h[i], h[i + 1])
}

/// Law: the lifecycle never moves backwards. Along any chain of legal
/// transitions the rank strictly grows, so no status is ever observed
/// twice and none is observed after a later one.
pub proof fn lemma_status_history_monotone(h: Seq<Status>, i: int, j: int)
    requires
        status_chain(h),
        0 <= i < j < h.len(),
    ensures
        status_rank(h[i]) < status_rank(h[j]),
    decreases j - i,
{
    if j == i + 1 {
        assert(legal_transition(h[i], h[i + 1]));
    } else {
        lemma_status_history_monotone(h, i, j - 1);
        assert(legal_transition(h[j - 1], h[j - 1 + 1]));
    }
}

proof fn lemma_rank_at(h: Seq<Status>, i: int)
    requires
        status_chain(h),
        h.len() > 0,
        h[0] is Pending,
        forall|k: int| 0 <= k < h.len() - 1 ==> !(#[trigger] h[k] is Pending && h[k + 1] is Finished),
        0 <= i < h.len(),
    ensures
        status_rank(h[i]) == i,
    decreases i,
{
    if i > 0 {
        lemma_rank_at(h, i - 1);
        assert(legal_transition(h[i - 1], h[i - 1 + 1]));
        assert(!(h[i - 1] is Pending && h[i - 1 + 1] is Finished));
    }
}

/// Law: a status history that starts at `Pending` and never takes the
/// admission-failure shortcut `Pending -> Finished(Error)` is a prefix of
/// `Pending, Ready, Running, Finished(_)`.
pub proof fn lemma_status_history_prefix(h: Seq<Status>)
    requires
        h.len() > 0,
        h[0] is Pending,
        status_chain(h),
        forall|i: int| 0 <= i < h.len() - 1 ==> !(#[trigger] h[i] is Pending && h[i + 1] is Finished),
    ensures
        h.len() <= 4,
        forall|i: int| 0 <= i < h.len() ==> status_rank(#[trigger] h[i]) == i,
        h.len() >= 2 ==> h[1] is Ready,
        h.len() >= 3 ==> h[2] is Running,
        h.len() >= 4 ==> h[3] is Finished,
{
    assert forall|i: int| 0 <= i < h.len() implies status_rank(#[trigger] h[i]) == i by {
        lemma_rank_at(h, i);
    }
    if h.len() > 4 {
        assert(status_rank(h[4]) == 4);
        assert(false);
    }
}

/// Step counter of a job: `step` out of `steps` done.
#[derive(Clone, Copy, PartialEq, Eq, Structural, Debug)]
pub struct Progression {
    /// Steps already done.
    pub step: u64,
    /// Total number of steps.
    pub steps: u64,
}

/// When a stored record is purged, beyond explicit removal.
#[derive(Clone, Copy, PartialEq, Eq, Structural, Debug)]
pub enum ExpirePolicy {
    /// The record stays until removed explicitly.
    Never,
    /// The record is purged the given number of milliseconds after the
    /// first successful result fetch.
    OnResultFetch(u64),
    /// The record is purged the given number of milliseconds after it
    /// entered the store, whether or not the job completed.
    Timeout(u64),
}

/// The instant `d` milliseconds after `t`, saturating at the largest
/// representable instant.
pub open spec fn deadline(t: u64, d: u64) -> u64 {
    if t + d <= u64::MAX {
        (t + d) as u64
    } else {
        u64::MAX
    }
}

/// Computes [`deadline`] in executable code.
pub fn deadline_at(t: u64, d: u64) -> (r: u64)
    ensures
        r == deadline(t, d),
{
    if u64::MAX - d >= t {
        t + d
    } else {
        u64::MAX
    }
}

/// A job descriptor: what the caller hands to `enqueue`.
pub struct Job<R> {
    /// Identifier, fixed at construction.
    pub id: JobId,
    /// The user-defined routine value a worker will interpret.
    pub routine: R,
    /// Optional opaque blob the routine may read; the library never
    /// inspects it.
    pub private_data: Option<Vec<u8>>,
    /// When the stored record is purged.
    pub expire_policy: ExpirePolicy,
}

/// Draws a fresh random identifier.
///
/// Relies on `uuid::Uuid::new_v4`, which returns a random (version 4)
/// UUID; nothing is promised of the value.
#[verifier::external_body]
fn fresh_job_id() -> JobId {
    JobId(uuid::Uuid::new_v4().as_u128())
}

impl<R> Job<R> {
    /// Builds a descriptor with a fresh random id, no private data, and
    /// no expiration.
    pub fn new(routine: R) -> (r: Job<R>)
        ensures
            r.routine == routine,
            r.private_data is None,
            r.expire_policy is Never,
    {
        Job {
            id: fresh_job_id(),
            routine,
            private_data: None,
            expire_policy: ExpirePolicy::Never,
        }
    }

    /// Builds a descriptor with a fresh random id and the given
    /// expiration policy.
    pub fn new_with_expire(routine: R, expire_policy: ExpirePolicy) -> (r: Job<R>)
        ensures
            r.routine == routine,
            r.private_data is None,
            r.expire_policy == expire_policy,
    {
        Job { id: fresh_job_id(), routine, private_data: None, expire_policy }
    }

    /// Attaches an opaque private-data blob to the descriptor.
    pub fn set_private_data(&mut self, bytes: Vec<u8>)
        ensures
            final(self).private_data == Some(bytes),
            final(self).id == old(self).id,
            final(self).routine == old(self).routine,
            final(self).expire_policy == old(self).expire_policy,
    {
        self.private_data = Some(bytes);
    }

    /// The identifier of the job.
    pub fn id(&self) -> (r: JobId)
        ensures
            r == self.id,
    {
        self.id
    }

    /// The routine value of the job.
    pub fn routine(&self) -> (r: &R)
        ensures
            r == self.routine,
    {
        &self.routine
    }
}

} // verus!
