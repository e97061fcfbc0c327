//! Stored job records and their mathematical model.
//!
//! The store keeps a sequence of [`JobRecord`]s with pairwise distinct
//! ids. Its contracts speak of the abstraction [`rec_map`]: a map from
//! the 128-bit id to the [`RecordModel`] of the record, which is what
//! makes "at most one record per id" hold by construction.

use vstd::prelude::*;

use crate::job::{deadline, ExpirePolicy, Job, Progression, ResultStatus, Status};

verus! {

/// Mathematical image of one stored record.
#[verifier::ext_equal]
pub struct RecordModel<R> {
    /// The routine value of the job.
    pub routine: R,
    /// The opaque private-data blob, if any.
    pub private_data: Option<Seq<u8>>,
    /// The expiration policy of the job.
    pub expire_policy: ExpirePolicy,
    /// Lifecycle status.
    pub status: Status,
    /// Step counter.
    pub progression: Progression,
    /// Result payload; empty until the job finished successfully.
    pub result: Seq<u8>,
    /// When the record entered the store.
    pub created_at: u64,
    /// When the record is due to be purged, if ever.
    pub expires_at: Option<u64>,
    /// When the result was first fetched, if it was.
    pub fetched_at: Option<u64>,
}

/// A record as the store owns it: descriptor plus lifecycle state.
pub struct JobRecord<R> {
    /// The descriptor handed to `enqueue`.
    pub job: Job<R>,
    /// Lifecycle status.
    pub status: Status,
    /// Step counter.
    pub progression: Progression,
    /// Result payload; empty until the job finished successfully.
    pub result: Vec<u8>,
    /// When the record entered the store.
    pub created_at: u64,
    /// When the record is due to be purged, if ever.
    pub expires_at: Option<u64>,
    /// When the result was first fetched, if it was.
    pub fetched_at: Option<u64>,
}

/// The contents of an optional byte blob.
pub open spec fn blob_view(b: Option<Vec<u8>>) -> Option<Seq<u8>> {
    match b {
        Some(v) => Some(v@),
        None => None,
    }
}

impl<R> JobRecord<R> {
    /// The mathematical image of the record.
    pub open spec fn view(self) -> RecordModel<R> {
        RecordModel {
            routine: self.job.routine,
            private_data: blob_view(self.job.private_data),
            expire_policy: self.job.expire_policy,
            status: self.status,
            progression: self.progression,
            result: self.result@,
            created_at: self.created_at,
            expires_at: self.expires_at,
            fetched_at: self.fetched_at,
        }
    }
}

/// Internal consistency of one record.
pub open spec fn record_wf<R>(m: RecordModel<R>) -> bool {
    &&& m.progression.step <= m.progression.steps
    &&& !(m.status == Status::Finished(ResultStatus::Success)) ==> m.result.len() == 0
    &&& (m.expire_policy is Never ==> m.expires_at is None)
    &&& (m.expire_policy matches ExpirePolicy::Timeout(d) ==> m.expires_at == Some(
        deadline(m.created_at, d),
    ))
    &&& (m.expire_policy matches ExpirePolicy::OnResultFetch(d) ==> (match m.fetched_at {
        None => m.expires_at is None,
        Some(t) => m.expires_at == Some(deadline(t, d)),
    }))
    &&& (m.fetched_at is Some ==> m.status == Status::Finished(ResultStatus::Success))
}

/// No two records of the sequence share an id.
pub open spec fn unique_ids<R>(s: Seq<JobRecord<R>>) -> bool {
    forall|i: int, j: int|
        0 <= i < j < s.len() ==> (#[trigger] s[i]).job.id.0 != (#[trigger] s[j]).job.id.0
}

/// The map abstraction of a record sequence: id to record model.
pub open spec fn rec_map<R>(s: Seq<JobRecord<R>>) -> Map<u128, RecordModel<R>>
    decreases s.len(),
{
    if s.len() == 0 {
        Map::empty()
    } else {
        rec_map(s.drop_last()).insert(s.last().job.id.0, s.last()@)
    }
}

/// The abstraction holds an id exactly when some record carries it.
pub proof fn lemma_rec_map_contains<R>(s: Seq<JobRecord<R>>, k: u128)
    ensures
        rec_map(s).contains_key(k) <==> exists|i: int|
            0 <= i < s.len() && (#[trigger] s[i]).job.id.0 == k,
    decreases s.len(),
{
    if s.len() > 0 {
        let dl = s.drop_last();
        lemma_rec_map_contains(dl, k);
        assert(forall|i: int| 0 <= i < dl.len() ==> #[trigger] dl[i] == s[i]);
        if s.last().job.id.0 == k {
            assert(s[s.len() - 1].job.id.0 == k);
        } else {
            if rec_map(s).contains_key(k) {
                let i = choose|i: int| 0 <= i < dl.len() && (#[trigger] dl[i]).job.id.0 == k;
                assert(s[i].job.id.0 == k);
            }
            if exists|i: int| 0 <= i < s.len() && (#[trigger] s[i]).job.id.0 == k {
                let i = choose|i: int| 0 <= i < s.len() && (#[trigger] s[i]).job.id.0 == k;
                assert(i < s.len() - 1);
                assert(dl[i].job.id.0 == k);
            }
        }
    }
}

/// Under distinct ids, looking a record's own id up yields its model.
pub proof fn lemma_rec_map_index<R>(s: Seq<JobRecord<R>>, i: int)
    requires
        unique_ids(s),
        0 <= i < s.len(),
    ensures
        rec_map(s).contains_key(s[i].job.id.0),
        rec_map(s)[s[i].job.id.0] == s[i]@,
    decreases s.len(),
{
    let dl = s.drop_last();
    if i == s.len() - 1 {
    } else {
        assert(unique_ids(dl)) by {
            assert(forall|p: int| 0 <= p < dl.len() ==> #[trigger] dl[p] == s[p]);
        }
        lemma_rec_map_index(dl, i);
        assert(dl[i] == s[i]);
        assert(s[i].job.id.0 != s.last().job.id.0);
    }
}

/// Appending a record with a fresh id inserts its model.
pub proof fn lemma_rec_map_push<R>(s: Seq<JobRecord<R>>, r: JobRecord<R>)
    ensures
        rec_map(s.push(r)) == rec_map(s).insert(r.job.id.0, r@),
{
    assert(s.push(r).drop_last() =~= s);
    assert(s.push(r).last() == r);
}

/// Overwriting a record in place, keeping its id, updates its model.
pub proof fn lemma_rec_map_update<R>(s: Seq<JobRecord<R>>, i: int, r: JobRecord<R>)
    requires
        unique_ids(s),
        0 <= i < s.len(),
        r.job.id.0 == s[i].job.id.0,
    ensures
        rec_map(s.update(i, r)) == rec_map(s).insert(r.job.id.0, r@),
    decreases s.len(),
{
    let k = r.job.id.0;
    let su = s.update(i, r);
    let dl = s.drop_last();
    if i == s.len() - 1 {
        assert(su.drop_last() =~= dl);
        assert(su.last() == r);
        assert(rec_map(su) == rec_map(dl).insert(k, r@));
        assert(rec_map(dl).insert(k, s.last()@).insert(k, r@) =~= rec_map(dl).insert(k, r@));
    } else {
        assert(unique_ids(dl)) by {
            assert(forall|p: int| 0 <= p < dl.len() ==> #[trigger] dl[p] == s[p]);
        }
        assert(su.drop_last() =~= dl.update(i, r));
        assert(su.last() == s.last());
        lemma_rec_map_update(dl, i, r);
        let lk = s.last().job.id.0;
        assert(lk != k);
        assert(rec_map(su) == rec_map(dl).insert(k, r@).insert(lk, s.last()@));
        assert(rec_map(dl).insert(k, r@).insert(lk, s.last()@) =~= rec_map(dl).insert(
            lk,
            s.last()@,
        ).insert(k, r@));
    }
}

/// Removing a record removes exactly its id from the abstraction.
pub proof fn lemma_rec_map_remove<R>(s: Seq<JobRecord<R>>, i: int)
    requires
        unique_ids(s),
        0 <= i < s.len(),
    ensures
        rec_map(s.remove(i)) == rec_map(s).remove(s[i].job.id.0),
    decreases s.len(),
{
    let k = s[i].job.id.0;
    let sr = s.remove(i);
    let dl = s.drop_last();
    s.remove_ensures(i);
    assert(unique_ids(dl)) by {
        assert(forall|p: int| 0 <= p < dl.len() ==> #[trigger] dl[p] == s[p]);
    }
    if i == s.len() - 1 {
        assert(sr =~= dl);
        assert(!rec_map(dl).contains_key(k)) by {
            lemma_rec_map_contains(dl, k);
            if exists|p: int| 0 <= p < dl.len() && (#[trigger] dl[p]).job.id.0 == k {
                let p = choose|p: int| 0 <= p < dl.len() && (#[trigger] dl[p]).job.id.0 == k;
                assert(s[p].job.id.0 == s[i].job.id.0);
                assert(false);
            }
        }
        assert(rec_map(dl).insert(k, s.last()@).remove(k) =~= rec_map(dl));
    } else {
        assert(sr.drop_last() =~= dl.remove(i)) by {
            dl.remove_ensures(i);
        }
        assert(sr.last() == s.last()) by {
            assert(sr[s.len() - 2] == s[s.len() - 1]);
        }
        lemma_rec_map_remove(dl, i);
        assert(dl[i] == s[i]);
        let lk = s.last().job.id.0;
        assert(lk != k);
        assert(rec_map(sr) == rec_map(dl).remove(k).insert(lk, s.last()@));
        assert(rec_map(dl).remove(k).insert(lk, s.last()@) =~= rec_map(dl).insert(
            lk,
            s.last()@,
        ).remove(k));
    }
}

} // verus!
