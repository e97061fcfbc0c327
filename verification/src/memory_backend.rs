//! The in-memory job store.
//!
//! A [`MemoryBackend`] owns the job records. Every operation is specified
//! against the map abstraction `self@` (id to [`RecordModel`]): admission
//! inserts a `Pending` record, status changes follow
//! [`crate::job::legal_transition`], progression updates clamp `step` to
//! `steps`, fetching a result stamps the fetch instant and arms the
//! `OnResultFetch` deadline, and the sweep drops exactly the records
//! whose deadline has passed.
//!
//! In the running queue the store sits behind one mutual-exclusion
//! region; the embedding program takes the lock around each call, so
//! every contract here describes one atomic step of the store.

use vstd::prelude::*;

use crate::error::Error;
use crate::job::{
    deadline, deadline_at, legal_transition, transition_allowed, ExpirePolicy, Job, JobId,
    Progression, ResultStatus, Status,
};
use crate::records::{
    blob_view, lemma_rec_map_contains, lemma_rec_map_index, lemma_rec_map_push,
    lemma_rec_map_remove, lemma_rec_map_update, rec_map, record_wf, unique_ids, JobRecord,
    RecordModel,
};

verus! {

/// The smaller of two counters.
pub open spec fn min_u64(a: u64, b: u64) -> u64 {
    if a <= b {
        a
    } else {
        b
    }
}

/// The record a freshly admitted job gets: status `Pending`, progression
/// `(0, 0)`, no result, and a deadline only under a `Timeout` policy.
pub open spec fn pending_record<R>(job: Job<R>, now: u64) -> RecordModel<R> {
    RecordModel {
        routine: job.routine,
        private_data: blob_view(job.private_data),
        expire_policy: job.expire_policy,
        status: Status::Pending,
        progression: Progression { step: 0, steps: 0 },
        result: Seq::empty(),
        created_at: now,
        expires_at: match job.expire_policy {
            ExpirePolicy::Timeout(d) => Some(deadline(now, d)),
            _ => None,
        },
        fetched_at: None,
    }
}

/// Store contents after admitting `job` at `now`: unchanged when the id
/// is already taken.
pub open spec fn schedule_model<R>(
    m: Map<u128, RecordModel<R>>,
    job: Job<R>,
    now: u64,
) -> Map<u128, RecordModel<R>> {
    if m.contains_key(job.id.0) {
        m
    } else {
        m.insert(job.id.0, pending_record(job, now))
    }
}

/// Store contents after a status change: unchanged unless the id is
/// present and the change is legal.
pub open spec fn set_status_model<R>(
    m: Map<u128, RecordModel<R>>,
    id: u128,
    s: Status,
) -> Map<u128, RecordModel<R>> {
    if m.contains_key(id) && legal_transition(m[id].status, s) {
        m.insert(id, RecordModel { status: s, ..m[id] })
    } else {
        m
    }
}

/// Store contents after `set_step`: the step is clamped to the record's
/// step count.
pub open spec fn set_step_model<R>(
    m: Map<u128, RecordModel<R>>,
    id: u128,
    n: u64,
) -> Map<u128, RecordModel<R>> {
    if m.contains_key(id) {
        m.insert(
            id,
            RecordModel {
                progression: Progression {
                    step: min_u64(n, m[id].progression.steps),
                    steps: m[id].progression.steps,
                },
                ..m[id]
            },
        )
    } else {
        m
    }
}

/// Store contents after `set_steps`: the step count becomes `n` and the
/// current step is clamped to it.
pub open spec fn set_steps_model<R>(
    m: Map<u128, RecordModel<R>>,
    id: u128,
    n: u64,
) -> Map<u128, RecordModel<R>> {
    if m.contains_key(id) {
        m.insert(
            id,
            RecordModel {
                progression: Progression { step: min_u64(m[id].progression.step, n), steps: n },
                ..m[id]
            },
        )
    } else {
        m
    }
}

/// Store contents after a worker reports its outcome: on success the
/// payload is stored and the status becomes `Finished(Success)`; on
/// failure no payload is stored and the status becomes
/// `Finished(Error)`. Unchanged unless the record is `Running`.
pub open spec fn finish_model<R>(
    m: Map<u128, RecordModel<R>>,
    id: u128,
    rs: ResultStatus,
    bytes: Seq<u8>,
) -> Map<u128, RecordModel<R>> {
    if m.contains_key(id) && legal_transition(m[id].status, Status::Finished(rs)) {
        m.insert(
            id,
            RecordModel {
                status: Status::Finished(rs),
                result: if rs is Success {
                    bytes
                } else {
                    Seq::empty()
                },
                ..m[id]
            },
        )
    } else {
        m
    }
}

/// Store contents after a successful result fetch at `now`: the first
/// fetch stamps the fetch instant and, under `OnResultFetch(d)`, arms
/// the deadline `now + d`; later fetches change nothing.
pub open spec fn fetch_model<R>(
    m: Map<u128, RecordModel<R>>,
    id: u128,
    now: u64,
) -> Map<u128, RecordModel<R>> {
    if m.contains_key(id) && m[id].status == Status::Finished(ResultStatus::Success)
        && m[id].fetched_at is None {
        m.insert(
            id,
            RecordModel {
                fetched_at: Some(now),
                expires_at: match m[id].expire_policy {
                    ExpirePolicy::OnResultFetch(d) => Some(deadline(now, d)),
                    _ => m[id].expires_at,
                },
                ..m[id]
            },
        )
    } else {
        m
    }
}

/// Store contents after `remove`: the record leaves only when it is
/// neither `Ready` nor `Running`.
pub open spec fn remove_model<R>(
    m: Map<u128, RecordModel<R>>,
    id: u128,
) -> Map<u128, RecordModel<R>> {
    if m.contains_key(id) && !(m[id].status is Ready) && !(m[id].status is Running) {
        m.remove(id)
    } else {
        m
    }
}

/// Whether a record's deadline has passed at `now`.
pub open spec fn expired<R>(rec: RecordModel<R>, now: u64) -> bool {
    match rec.expires_at {
        Some(e) => e <= now,
        None => false,
    }
}

/// Store contents after a sweep at `now`: exactly the unexpired records
/// stay.
pub open spec fn sweep_model<R>(
    m: Map<u128, RecordModel<R>>,
    now: u64,
) -> Map<u128, RecordModel<R>> {
    Map::<u128, RecordModel<R>>::new(
        |k: u128| m.contains_key(k) && !expired(m[k], now),
        |k: u128| m[k],
    )
}

/// The default store: a sequence of records with pairwise distinct ids,
/// abstracted as a map from id to record model.
pub struct MemoryBackend<R> {
    records: Vec<JobRecord<R>>,
}

impl<R> View for MemoryBackend<R> {
    type V = Map<u128, RecordModel<R>>;

    closed spec fn view(&self) -> Map<u128, RecordModel<R>> {
        rec_map(self.records@)
    }
}

impl<R> MemoryBackend<R> {
    /// The store's structural invariant: ids are pairwise distinct and
    /// every record is internally consistent.
    pub closed spec fn wf(self) -> bool {
        &&& unique_ids(self.records@)
        &&& forall|i: int|
            0 <= i < self.records@.len() ==> record_wf((#[trigger] self.records@[i])@)
    }

    /// Law: in a well-formed store every record is internally
    /// consistent; in particular `step <= steps` everywhere.
    pub proof fn lemma_wf_all_records(&self)
        requires
            self.wf(),
        ensures
            forall|k: u128| #[trigger] self@.contains_key(k) ==> record_wf(self@[k]),
    {
        assert forall|k: u128| #[trigger] self@.contains_key(k) implies record_wf(self@[k]) by {
            lemma_rec_map_contains(self.records@, k);
            let i = choose|i: int|
                0 <= i < self.records@.len() && (#[trigger] self.records@[i]).job.id.0 == k;
            lemma_rec_map_index(self.records@, i);
        }
    }

    /// An empty store.
    pub fn new() -> (r: Self)
        ensures
            r.wf(),
            r@ == Map::<u128, RecordModel<R>>::empty(),
    {
        let r = MemoryBackend { records: Vec::new() };
        proof {
            assert(r@ =~= Map::<u128, RecordModel<R>>::empty());
        }
        r
    }

    /// Index of the record carrying `id`, if any.
    fn find_index(&self, id: JobId) -> (r: Option<usize>)
        ensures
            match r {
                Some(i) => i < self.records@.len() && self.records@[i as int].job.id.0 == id.0,
                None => !self@.contains_key(id.0),
            },
    {
        proof {
            lemma_rec_map_contains(self.records@, id.0);
        }
        let n = self.records.len();
        let mut i: usize = 0;
        while i < n
            invariant
                i <= n,
                n == self.records@.len(),
                forall|j: int| 0 <= j < i ==> (#[trigger] self.records@[j]).job.id.0 != id.0,
            decreases n - i,
        {
            if self.records[i].job.id.0 == id.0 {
                return Some(i);
            }
            i += 1;
        }
        None
    }

    /// Admits a job at instant `now` with status `Pending`; rejects an
    /// id the store already knows.
    pub fn schedule(&mut self, job: Job<R>, now: u64) -> (r: Result<(), Error>)
        requires
            old(self).wf(),
        ensures
            final(self).wf(),
            final(self)@ == schedule_model(old(self)@, job, now),
            r is Ok <==> !old(self)@.contains_key(job.id.0),
            r is Err ==> r == Err::<(), Error>(Error::AlreadyExists),
    {
        match self.find_index(job.id) {
            Some(i) => {
                proof {
                    lemma_rec_map_index(self.records@, i as int);
                }
                Err(Error::AlreadyExists)
            },
            None => {
                let expires_at = match job.expire_policy {
                    ExpirePolicy::Timeout(d) => Some(deadline_at(now, d)),
                    _ => None,
                };
                let rec = JobRecord {
                    job,
                    status: Status::Pending,
                    progression: Progression { step: 0, steps: 0 },
                    result: Vec::new(),
                    created_at: now,
                    expires_at,
                    fetched_at: None,
                };
                proof {
                    lemma_rec_map_push(self.records@, rec);
                }
                let ghost pre = self.records@;
                self.records.push(rec);
                proof {
                    assert(unique_ids(self.records@)) by {
                        lemma_rec_map_contains(pre, rec.job.id.0);
                        assert(forall|j: int| 0 <= j < pre.len() ==> #[trigger] pre[j] == self.records@[j]);
                    }
                    assert(rec@ =~= pending_record(rec.job, now));
                }
                Ok(())
            },
        }
    }

    /// The status of the record carrying `id`.
    pub fn status(&self, id: JobId) -> (r: Result<Status, Error>)
        requires
            self.wf(),
        ensures
            match r {
                Ok(s) => self@.contains_key(id.0) && s == self@[id.0].status,
                Err(e) => !self@.contains_key(id.0) && e == Error::UnknownJob,
            },
    {
        match self.find_index(id) {
            Some(i) => {
                proof {
                    lemma_rec_map_index(self.records@, i as int);
                }
                Ok(self.records[i].status)
            },
            None => Err(Error::UnknownJob),
        }
    }

    /// The progression of the record carrying `id`; its step never
    /// exceeds its step count.
    pub fn progression(&self, id: JobId) -> (r: Result<Progression, Error>)
        requires
            self.wf(),
        ensures
            match r {
                Ok(p) => self@.contains_key(id.0) && p == self@[id.0].progression && p.step
                    <= p.steps,
                Err(e) => !self@.contains_key(id.0) && e == Error::UnknownJob,
            },
    {
        match self.find_index(id) {
            Some(i) => {
                proof {
                    lemma_rec_map_index(self.records@, i as int);
                }
                Ok(self.records[i].progression)
            },
            None => Err(Error::UnknownJob),
        }
    }

    /// The routine value of the record carrying `id`.
    pub fn routine(&self, id: JobId) -> (r: Result<&R, Error>)
        requires
            self.wf(),
        ensures
            match r {
                Ok(rt) => self@.contains_key(id.0) && rt == self@[id.0].routine,
                Err(e) => !self@.contains_key(id.0) && e == Error::UnknownJob,
            },
    {
        match self.find_index(id) {
            Some(i) => {
                proof {
                    lemma_rec_map_index(self.records@, i as int);
                }
                Ok(&self.records[i].job.routine)
            },
            None => Err(Error::UnknownJob),
        }
    }

    /// The private-data blob of the record carrying `id`, if the job
    /// carries one.
    pub fn private_data(&self, id: JobId) -> (r: Result<Option<&Vec<u8>>, Error>)
        requires
            self.wf(),
        ensures
            match r {
                Ok(b) => self@.contains_key(id.0) && blob_opt_view(b) == self@[id.0].private_data,
                Err(e) => !self@.contains_key(id.0) && e == Error::UnknownJob,
            },
    {
        match self.find_index(id) {
            Some(i) => {
                proof {
                    lemma_rec_map_index(self.records@, i as int);
                }
                match &self.records[i].job.private_data {
                    Some(v) => Ok(Some(v)),
                    None => Ok(None),
                }
            },
            None => Err(Error::UnknownJob),
        }
    }

    /// A snapshot of the ids of all stored records, without duplicates.
    pub fn jobs(&self) -> (r: Vec<JobId>)
        requires
            self.wf(),
        ensures
            forall|k: u128|
                #[trigger] self@.contains_key(k) <==> exists|i: int|
                    0 <= i < r@.len() && (#[trigger] r@[i]).0 == k,
            forall|i: int, j: int| 0 <= i < j < r@.len() ==> r@[i].0 != r@[j].0,
    {
        let n = self.records.len();
        let mut out: Vec<JobId> = Vec::new();
        let mut i: usize = 0;
        while i < n
            invariant
                i <= n,
                n == self.records@.len(),
                out@.len() == i,
                forall|j: int| 0 <= j < i ==> (#[trigger] out@[j]) == self.records@[j].job.id,
            decreases n - i,
        {
            out.push(self.records[i].job.id);
            i += 1;
        }
        proof {
            assert forall|k: u128| #[trigger] self@.contains_key(k) implies exists|i: int|
                0 <= i < out@.len() && (#[trigger] out@[i]).0 == k by {
                lemma_rec_map_contains(self.records@, k);
                let i = choose|i: int|
                    0 <= i < self.records@.len() && (#[trigger] self.records@[i]).job.id.0 == k;
                assert(out@[i].0 == k);
            }
            assert forall|k: u128|
                (exists|i: int| 0 <= i < out@.len() && (#[trigger] out@[i]).0 == k) implies self@.contains_key(
                k,
            ) by {
                lemma_rec_map_contains(self.records@, k);
                let i = choose|i: int| 0 <= i < out@.len() && (#[trigger] out@[i]).0 == k;
                assert(self.records@[i].job.id.0 == k);
            }
        }
        out
    }
}

/// Law: an id the store already knows is never admitted again; the
/// second admission leaves the store unchanged, so at any time at most
/// one record carries a given id.
pub proof fn lemma_readmission_rejected<R>(m: Map<u128, RecordModel<R>>, job: Job<R>, now: u64)
    requires
        m.contains_key(job.id.0),
    ensures
        schedule_model(m, job, now) == m,
{
}

/// Law: a `Pending` or `Finished` record is removed exactly once: after
/// it leaves, its id is unknown, and removing it again changes nothing.
pub proof fn lemma_remove_exactly_once<R>(m: Map<u128, RecordModel<R>>, id: u128)
    requires
        m.contains_key(id),
        !(m[id].status is Ready),
        !(m[id].status is Running),
    ensures
        !remove_model(m, id).contains_key(id),
        remove_model(remove_model(m, id), id) == remove_model(m, id),
{
}

/// Law: setting the same step twice leaves the store exactly as setting
/// it once does.
pub proof fn lemma_set_step_idempotent<R>(m: Map<u128, RecordModel<R>>, id: u128, n: u64)
    ensures
        set_step_model(set_step_model(m, id, n), id, n) == set_step_model(m, id, n),
{
    if m.contains_key(id) {
        assert(set_step_model(set_step_model(m, id, n), id, n) =~= set_step_model(m, id, n));
    }
}

/// Law: after the result of a job under `OnResultFetch(d)` is fetched at
/// `t`, any sweep at or past `t + d` has removed the record, so a later
/// query does not find the id.
pub proof fn lemma_expire_after_fetch<R>(
    m: Map<u128, RecordModel<R>>,
    id: u128,
    d: u64,
    t: u64,
    now: u64,
)
    requires
        m.contains_key(id),
        m[id].expire_policy == ExpirePolicy::OnResultFetch(d),
        m[id].status == Status::Finished(ResultStatus::Success),
        m[id].fetched_at is None,
        deadline(t, d) <= now,
    ensures
        !sweep_model(fetch_model(m, id, t), now).contains_key(id),
{
}

/// Law: no store operation moves a record's status backwards. Whatever
/// operation runs, a record that stays in the store keeps its status or
/// takes one legal transition, so the sequence of statuses any caller
/// observes for a job is a chain of legal transitions.
pub proof fn lemma_status_moves_are_legal<R>(
    m: Map<u128, RecordModel<R>>,
    k: u128,
    id: u128,
    s: Status,
    rs: ResultStatus,
    bytes: Seq<u8>,
    n: u64,
    now: u64,
    job: Job<R>,
)
    requires
        m.contains_key(k),
    ensures
        ({
            let m2 = schedule_model(m, job, now);
            m2.contains_key(k) && m2[k].status == m[k].status
        }),
        ({
            let m2 = set_status_model(m, id, s);
            m2.contains_key(k) && (m2[k].status == m[k].status || legal_transition(
                m[k].status,
                m2[k].status,
            ))
        }),
        set_step_model(m, id, n)[k].status == m[k].status,
        set_steps_model(m, id, n)[k].status == m[k].status,
        ({
            let m2 = finish_model(m, id, rs, bytes);
            m2.contains_key(k) && (m2[k].status == m[k].status || legal_transition(
                m[k].status,
                m2[k].status,
            ))
        }),
        fetch_model(m, id, now)[k].status == m[k].status,
        remove_model(m, id).contains_key(k) ==> remove_model(m, id)[k].status == m[k].status,
        sweep_model(m, now).contains_key(k) ==> sweep_model(m, now)[k].status == m[k].status,
{
}

/// Law: admission stores the descriptor as enqueued; looking the job up
/// right after yields a routine equal to the one it carried.
pub proof fn lemma_routine_preserved<R>(m: Map<u128, RecordModel<R>>, job: Job<R>, now: u64)
    requires
        !m.contains_key(job.id.0),
    ensures
        schedule_model(m, job, now).contains_key(job.id.0),
        schedule_model(m, job, now)[job.id.0].routine == job.routine,
{
}

/// The contents of an optional borrowed byte blob.
pub open spec fn blob_opt_view(b: Option<&Vec<u8>>) -> Option<Seq<u8>> {
    match b {
        Some(v) => Some(v@),
        None => None,
    }
}

/// A fresh copy of a byte vector.
fn copy_bytes(src: &Vec<u8>) -> (r: Vec<u8>)
    ensures
        r@ == src@,
{
    let n = src.len();
    let mut out: Vec<u8> = Vec::new();
    let mut i: usize = 0;
    while i < n
        invariant
            i <= n,
            n == src@.len(),
            out@.len() == i,
            forall|j: int| 0 <= j < i ==> out@[j] == src@[j],
        decreases n - i,
    {
        out.push(src[i]);
        i += 1;
    }
    proof {
        assert(out@ =~= src@);
    }
    out
}

impl<R> MemoryBackend<R> {
    /// Moves the record carrying `id` to status `s`; rejects an unknown
    /// id and a change the lifecycle order forbids.
    pub fn set_status(&mut self, id: JobId, s: Status) -> (r: Result<(), Error>)
        requires
            old(self).wf(),
        ensures
            final(self).wf(),
            final(self)@ == set_status_model(old(self)@, id.0, s),
            !old(self)@.contains_key(id.0) ==> r == Err::<(), Error>(Error::UnknownJob),
            old(self)@.contains_key(id.0) && !legal_transition(old(self)@[id.0].status, s) ==> r
                == Err::<(), Error>(Error::IllegalTransition),
            old(self)@.contains_key(id.0) && legal_transition(old(self)@[id.0].status, s) ==> r
                is Ok,
    {
        match self.find_index(id) {
            None => Err(Error::UnknownJob),
            Some(i) => {
                proof {
                    lemma_rec_map_index(self.records@, i as int);
                }
                let cur = self.records[i].status;
                if !transition_allowed(cur, s) {
                    Err(Error::IllegalTransition)
                } else {
                    let ghost pre = self.records@;
                    let rec = &mut self.records[i];
                    rec.status = s;
                    proof {
                        lemma_rec_map_update(pre, i as int, self.records@[i as int]);
                        assert(self.records@[i as int]@ =~= RecordModel {
                            status: s,
                            ..old(self)@[id.0]
                        });
                        assert(final(self)@ =~= set_status_model(old(self)@, id.0, s));
                        assert forall|p: int, q: int|
                            0 <= p < q < self.records@.len() implies (
                        #[trigger] self.records@[p]).job.id.0 != (
                        #[trigger] self.records@[q]).job.id.0 by {
                            assert(pre[p].job.id.0 != pre[q].job.id.0);
                        }
                    }
                    Ok(())
                }
            },
        }
    }

    /// Sets the current step of the record carrying `id`, clamped to its
    /// step count, and returns the new progression.
    pub fn set_step(&mut self, id: JobId, n: u64) -> (r: Result<Progression, Error>)
        requires
            old(self).wf(),
        ensures
            final(self).wf(),
            final(self)@ == set_step_model(old(self)@, id.0, n),
            match r {
                Ok(p) => old(self)@.contains_key(id.0) && p == final(self)@[id.0].progression,
                Err(e) => !old(self)@.contains_key(id.0) && e == Error::UnknownJob,
            },
    {
        match self.find_index(id) {
            None => Err(Error::UnknownJob),
            Some(i) => {
                proof {
                    lemma_rec_map_index(self.records@, i as int);
                }
                let steps = self.records[i].progression.steps;
                let clamped = if n <= steps {
                    n
                } else {
                    steps
                };
                let ghost pre = self.records@;
                let rec = &mut self.records[i];
                rec.progression.step = clamped;
                proof {
                    lemma_rec_map_update(pre, i as int, self.records@[i as int]);
                    assert(self.records@[i as int]@ =~= RecordModel {
                        progression: Progression {
                            step: min_u64(n, old(self)@[id.0].progression.steps),
                            steps: old(self)@[id.0].progression.steps,
                        },
                        ..old(self)@[id.0]
                    });
                    assert(final(self)@ =~= set_step_model(old(self)@, id.0, n));
                    assert forall|p: int, q: int|
                        0 <= p < q < self.records@.len() implies (
                    #[trigger] self.records@[p]).job.id.0 != (
                    #[trigger] self.records@[q]).job.id.0 by {
                        assert(pre[p].job.id.0 != pre[q].job.id.0);
                    }
                }
                Ok(self.records[i].progression)
            },
        }
    }

    /// Sets the step count of the record carrying `id`, clamping its
    /// current step to the new count, and returns the new progression.
    pub fn set_steps(&mut self, id: JobId, n: u64) -> (r: Result<Progression, Error>)
        requires
            old(self).wf(),
        ensures
            final(self).wf(),
            final(self)@ == set_steps_model(old(self)@, id.0, n),
            match r {
                Ok(p) => old(self)@.contains_key(id.0) && p == final(self)@[id.0].progression,
                Err(e) => !old(self)@.contains_key(id.0) && e == Error::UnknownJob,
            },
    {
        match self.find_index(id) {
            None => Err(Error::UnknownJob),
            Some(i) => {
                proof {
                    lemma_rec_map_index(self.records@, i as int);
                }
                let step = self.records[i].progression.step;
                let clamped = if step <= n {
                    step
                } else {
                    n
                };
                let ghost pre = self.records@;
                let rec = &mut self.records[i];
                rec.progression = Progression { step: clamped, steps: n };
                proof {
                    lemma_rec_map_update(pre, i as int, self.records@[i as int]);
                    assert(self.records@[i as int]@ =~= RecordModel {
                        progression: Progression {
                            step: min_u64(old(self)@[id.0].progression.step, n),
                            steps: n,
                        },
                        ..old(self)@[id.0]
                    });
                    assert(final(self)@ =~= set_steps_model(old(self)@, id.0, n));
                    assert forall|p: int, q: int|
                        0 <= p < q < self.records@.len() implies (
                    #[trigger] self.records@[p]).job.id.0 != (
                    #[trigger] self.records@[q]).job.id.0 by {
                        assert(pre[p].job.id.0 != pre[q].job.id.0);
                    }
                }
                Ok(self.records[i].progression)
            },
        }
    }

    /// Records a worker's outcome: the payload and `Finished(Success)`,
    /// or no payload and `Finished(Error)`.
    pub fn finish(&mut self, id: JobId, rs: ResultStatus, bytes: Vec<u8>) -> (r: Result<
        (),
        Error,
    >)
        requires
            old(self).wf(),
        ensures
            final(self).wf(),
            final(self)@ == finish_model(old(self)@, id.0, rs, bytes@),
            !old(self)@.contains_key(id.0) ==> r == Err::<(), Error>(Error::UnknownJob),
            old(self)@.contains_key(id.0) && !legal_transition(
                old(self)@[id.0].status,
                Status::Finished(rs),
            ) ==> r == Err::<(), Error>(Error::IllegalTransition),
            old(self)@.contains_key(id.0) && legal_transition(
                old(self)@[id.0].status,
                Status::Finished(rs),
            ) ==> r is Ok,
    {
        match self.find_index(id) {
            None => Err(Error::UnknownJob),
            Some(i) => {
                proof {
                    lemma_rec_map_index(self.records@, i as int);
                }
                let cur = self.records[i].status;
                if !transition_allowed(cur, Status::Finished(rs)) {
                    Err(Error::IllegalTransition)
                } else {
                    let payload = match rs {
                        ResultStatus::Success => bytes,
                        ResultStatus::Error => Vec::new(),
                    };
                    let ghost pre = self.records@;
                    let rec = &mut self.records[i];
                    rec.status = Status::Finished(rs);
                    rec.result = payload;
                    proof {
                        lemma_rec_map_update(pre, i as int, self.records@[i as int]);
                        assert(self.records@[i as int]@ =~= RecordModel {
                            status: Status::Finished(rs),
                            result: if rs is Success {
                                bytes@
                            } else {
                                Seq::empty()
                            },
                            ..old(self)@[id.0]
                        });
                        assert(final(self)@ =~= finish_model(old(self)@, id.0, rs, bytes@));
                        assert forall|p: int, q: int|
                            0 <= p < q < self.records@.len() implies (
                        #[trigger] self.records@[p]).job.id.0 != (
                        #[trigger] self.records@[q]).job.id.0 by {
                            assert(pre[p].job.id.0 != pre[q].job.id.0);
                        }
                    }
                    Ok(())
                }
            },
        }
    }

    /// Returns a copy of the result payload of a successfully finished
    /// job. The first successful fetch stamps the fetch instant and,
    /// under `OnResultFetch`, arms the record's removal deadline.
    pub fn result(&mut self, id: JobId, now: u64) -> (r: Result<Vec<u8>, Error>)
        requires
            old(self).wf(),
        ensures
            final(self).wf(),
            final(self)@ == fetch_model(old(self)@, id.0, now),
            !old(self)@.contains_key(id.0) ==> r == Err::<Vec<u8>, Error>(Error::UnknownJob),
            old(self)@.contains_key(id.0) && old(self)@[id.0].status != Status::Finished(
                ResultStatus::Success,
            ) ==> r == Err::<Vec<u8>, Error>(Error::NotFinished),
            old(self)@.contains_key(id.0) && old(self)@[id.0].status == Status::Finished(
                ResultStatus::Success,
            ) ==> (r matches Ok(b) && b@ == old(self)@[id.0].result),
    {
        match self.find_index(id) {
            None => Err(Error::UnknownJob),
            Some(i) => {
                proof {
                    lemma_rec_map_index(self.records@, i as int);
                }
                match self.records[i].status {
                    Status::Finished(ResultStatus::Success) => {
                        let bytes = copy_bytes(&self.records[i].result);
                        let already_fetched = match self.records[i].fetched_at {
                            Some(_) => true,
                            None => false,
                        };
                        if !already_fetched {
                            let new_deadline = match self.records[i].job.expire_policy {
                                ExpirePolicy::OnResultFetch(d) => Some(deadline_at(now, d)),
                                _ => self.records[i].expires_at,
                            };
                            let ghost pre = self.records@;
                            let rec = &mut self.records[i];
                            rec.fetched_at = Some(now);
                            rec.expires_at = new_deadline;
                            proof {
                                lemma_rec_map_update(pre, i as int, self.records@[i as int]);
                                assert(self.records@[i as int]@ =~= RecordModel {
                                    fetched_at: Some(now),
                                    expires_at: match old(self)@[id.0].expire_policy {
                                        ExpirePolicy::OnResultFetch(d) => Some(deadline(now, d)),
                                        _ => old(self)@[id.0].expires_at,
                                    },
                                    ..old(self)@[id.0]
                                });
                                assert(final(self)@ =~= fetch_model(old(self)@, id.0, now));
                                assert forall|p: int, q: int|
                                    0 <= p < q < self.records@.len() implies (
                                #[trigger] self.records@[p]).job.id.0 != (
                                #[trigger] self.records@[q]).job.id.0 by {
                                    assert(pre[p].job.id.0 != pre[q].job.id.0);
                                }
                            }
                        } else {
                            proof {
                                assert(final(self)@ =~= fetch_model(old(self)@, id.0, now));
                            }
                        }
                        Ok(bytes)
                    },
                    _ => {
                        proof {
                            assert(final(self)@ =~= fetch_model(old(self)@, id.0, now));
                        }
                        Err(Error::NotFinished)
                    },
                }
            },
        }
    }

    /// Removes the record carrying `id`; a `Ready` or `Running` record
    /// stays and the call reports `Busy`.
    pub fn remove(&mut self, id: JobId) -> (r: Result<(), Error>)
        requires
            old(self).wf(),
        ensures
            final(self).wf(),
            final(self)@ == remove_model(old(self)@, id.0),
            !old(self)@.contains_key(id.0) ==> r == Err::<(), Error>(Error::UnknownJob),
            old(self)@.contains_key(id.0) && (old(self)@[id.0].status is Ready || old(
                self,
            )@[id.0].status is Running) ==> r == Err::<(), Error>(Error::Busy),
            old(self)@.contains_key(id.0) && !(old(self)@[id.0].status is Ready) && !(old(
                self,
            )@[id.0].status is Running) ==> r is Ok && !final(self)@.contains_key(id.0),
    {
        match self.find_index(id) {
            None => Err(Error::UnknownJob),
            Some(i) => {
                proof {
                    lemma_rec_map_index(self.records@, i as int);
                }
                match self.records[i].status {
                    Status::Ready | Status::Running => Err(Error::Busy),
                    _ => {
                        let ghost pre = self.records@;
                        proof {
                            lemma_rec_map_remove(pre, i as int);
                        }
                        self.records.remove(i);
                        proof {
                            pre.remove_ensures(i as int);
                            assert forall|p: int, q: int|
                                0 <= p < q < self.records@.len() implies (
                            #[trigger] self.records@[p]).job.id.0 != (
                            #[trigger] self.records@[q]).job.id.0 by {
                                let pp: int = if p < i {
                                    p
                                } else {
                                    p + 1
                                };
                                let qq: int = if q < i {
                                    q
                                } else {
                                    q + 1
                                };
                                assert(self.records@[p] == pre[pp]);
                                assert(self.records@[q] == pre[qq]);
                                assert(pre[pp].job.id.0 != pre[qq].job.id.0);
                            }
                            assert forall|p: int|
                                0 <= p < self.records@.len() implies record_wf(
                                (#[trigger] self.records@[p])@,
                            ) by {
                                let pp: int = if p < i {
                                    p
                                } else {
                                    p + 1
                                };
                                assert(self.records@[p] == pre[pp]);
                            }
                        }
                        Ok(())
                    },
                }
            },
        }
    }

    /// Removes every record whose deadline has passed at `now`.
    pub fn sweep(&mut self, now: u64)
        requires
            old(self).wf(),
        ensures
            final(self).wf(),
            final(self)@ == sweep_model(old(self)@, now),
    {
        let ghost pre = self.records@;
        let mut kept: Vec<JobRecord<R>> = Vec::new();
        let ghost mut i: int = 0;
        while self.records.len() > 0
            invariant
                unique_ids(pre),
                0 <= i <= pre.len(),
                self.records@ =~= pre.subrange(i, pre.len() as int),
                forall|j: int|
                    0 <= j < kept@.len() ==> exists|p: int|
                        0 <= p < i && #[trigger] kept@[j] == pre[p],
                unique_ids(kept@),
                rec_map(kept@) =~= sweep_model(rec_map(pre.subrange(0, i)), now),
            decreases self.records@.len(),
    {
            let ghost prefix = pre.subrange(0, i);
            let rec = self.records.remove(0);
            proof {
                assert(rec == pre[i]);
                assert(self.records@ =~= pre.subrange(i + 1, pre.len() as int));
                assert(pre.subrange(0, i + 1) =~= prefix.push(rec));
                lemma_rec_map_push(prefix, rec);
                lemma_rec_map_contains(prefix, rec.job.id.0);
                if exists|p: int| 0 <= p < prefix.len() && (#[trigger] prefix[p]).job.id.0
                    == rec.job.id.0 {
                    let p = choose|p: int|
                        0 <= p < prefix.len() && (#[trigger] prefix[p]).job.id.0 == rec.job.id.0;
                    assert(pre[p].job.id.0 == pre[i].job.id.0);
                    assert(false);
                }
            }
            let keep = match rec.expires_at {
                Some(e) => now < e,
                None => true,
            };
            if keep {
                proof {
                    lemma_rec_map_push(kept@, rec);
                    lemma_rec_map_contains(kept@, rec.job.id.0);
                    assert forall|j: int|
                        0 <= j < kept@.len() implies (#[trigger] kept@[j]).job.id.0
                        != rec.job.id.0 by {
                        let p = choose|p: int| 0 <= p < i && #[trigger] kept@[j] == pre[p];
                        assert(pre[p].job.id.0 != pre[i].job.id.0);
                    }
                    assert(rec_map(kept@).insert(rec.job.id.0, rec@) =~= sweep_model(
                        rec_map(pre.subrange(0, i + 1)),
                        now,
                    ));
                }
                kept.push(rec);
            } else {
                proof {
                    assert(rec_map(kept@) =~= sweep_model(rec_map(pre.subrange(0, i + 1)), now));
                }
            }
            proof {
                i = i + 1;
            }
        }
        proof {
            assert(pre.subrange(0, pre.len() as int) =~= pre);
        }
        self.records = kept;
        proof {
            assert forall|p: int|
                0 <= p < self.records@.len() implies record_wf((#[trigger] self.records@[p])@) by {
                let q = choose|q: int|
                    0 <= q < pre.len() && #[trigger] self.records@[p] == pre[q];
            }
        }
    }
}

} // verus!
