//! The store gateway: the two relations (`job` rows and their `job_metadata`
//! rows) and the transactional operations the engine and the admin interface
//! need. The two relations are held index-aligned — row `i` of one belongs
//! to row `i` of the other — and job ids are unique; `wf` states exactly
//! that, every constructor establishes it and every operation preserves it.
//!
//! Each operation's contract describes the whole transaction: either the
//! post-state carries every one of the operation's writes, or the store is
//! unchanged. No intermediate state exists.

use vstd::prelude::*;

verus! {

use crate::domain::{ClaimedJob, JobEntity, JobMetadataEntity, JobMetadataStatus};
use crate::error::TempusError;

/// A row is eligible for dispatch when it is still scheduled, its time has
/// arrived and its attempts have not reached the bound.
pub open spec fn eligible(job: JobEntity, md: JobMetadataEntity, now: i64, max_retries: i32) -> bool {
    &&& md.status is Scheduled
    &&& job.time <= now
    &&& job.retries < max_retries
}

/// No two rows share a job id.
pub open spec fn unique_ids(jobs: Seq<JobEntity>) -> bool {
    forall|a: int, b: int|
        #![trigger jobs[a].id, jobs[b].id]
        0 <= a < jobs.len() && 0 <= b < jobs.len() && a != b ==> jobs[a].id != jobs[b].id
}

/// Whether some row carries the given job id.
pub open spec fn has_id(jobs: Seq<JobEntity>, id: u128) -> bool {
    exists|i: int| 0 <= i < jobs.len() && #[trigger] jobs[i].id == id
}

/// The index of the row carrying the given job id; meaningful under
/// `has_id`, and unique under `unique_ids`.
pub open spec fn idx_of(jobs: Seq<JobEntity>, id: u128) -> int {
    choose|i: int| 0 <= i < jobs.len() && #[trigger] jobs[i].id == id
}

pub proof fn lemma_idx_of_unique(jobs: Seq<JobEntity>, id: u128, i: int)
    requires
        unique_ids(jobs),
        0 <= i < jobs.len(),
        jobs[i].id == id,
    ensures
        has_id(jobs, id),
        idx_of(jobs, id) == i,
{
    assert(has_id(jobs, id));
    let j = idx_of(jobs, id);
    if j != i {
        assert(jobs[i].id != jobs[j].id);
    }
}

/// The metadata row after a claim: status `Processing`, all else kept.
pub open spec fn processing_md(m: JobMetadataEntity) -> JobMetadataEntity {
    JobMetadataEntity { job_id: m.job_id, status: JobMetadataStatus::Processing, failure: m.failure, processed_at: m.processed_at }
}

/// The metadata row after `mark_completed`: status `Completed` and the
/// processing stamp set, all else kept.
pub open spec fn completed_md(m: JobMetadataEntity, now: i64) -> JobMetadataEntity {
    JobMetadataEntity { job_id: m.job_id, status: JobMetadataStatus::Completed, failure: m.failure, processed_at: Some(now) }
}

/// The metadata row after `mark_failed`: status `Failed`, the terminal
/// error recorded, and the processing stamp set.
pub open spec fn failed_md(job_id: u128, failure_msg: String, now: i64) -> JobMetadataEntity {
    JobMetadataEntity { job_id: job_id, status: JobMetadataStatus::Failed, failure: Some(failure_msg), processed_at: Some(now) }
}

/// The metadata row of a freshly inserted or rescheduled job: `Scheduled`,
/// with no failure and no processing stamp.
pub open spec fn scheduled_md(job_id: u128) -> JobMetadataEntity {
    JobMetadataEntity { job_id: job_id, status: JobMetadataStatus::Scheduled, failure: None, processed_at: None }
}

/// The job row after `reschedule_for_retry`: a new time and a new attempt
/// count, all else kept.
pub open spec fn retried_job(j: JobEntity, new_time: i64, new_retries: i32) -> JobEntity {
    JobEntity { id: j.id, time: new_time, retries: new_retries, target: j.target, job_type: j.job_type, payload: j.payload }
}

/// The job row after `reschedule_unprocessed`: a new time, all else kept.
pub open spec fn moved_job(j: JobEntity, new_time: i64) -> JobEntity {
    JobEntity { id: j.id, time: new_time, retries: j.retries, target: j.target, job_type: j.job_type, payload: j.payload }
}

/// How many of the first `n` rows are eligible for dispatch.
pub open spec fn count_eligible_upto(
    jobs: Seq<JobEntity>,
    md: Seq<JobMetadataEntity>,
    now: i64,
    max_retries: i32,
    n: int,
) -> nat
    decreases n,
{
    if n <= 0 {
        0
    } else {
        count_eligible_upto(jobs, md, now, max_retries, n - 1) + (if 0 <= n - 1 < jobs.len() && n
            - 1 < md.len() && eligible(jobs[n - 1], md[n - 1], now, max_retries) {
            1nat
        } else {
            0nat
        })
    }
}

/// How many rows are eligible for dispatch.
pub open spec fn num_eligible(
    jobs: Seq<JobEntity>,
    md: Seq<JobMetadataEntity>,
    now: i64,
    max_retries: i32,
) -> nat {
    count_eligible_upto(jobs, md, now, max_retries, jobs.len() as int)
}

/// Rewriting one row changes the eligible count by the difference of the old
/// and new row's eligibility.
pub proof fn lemma_count_point_update(
    jobs: Seq<JobEntity>,
    md: Seq<JobMetadataEntity>,
    j2: JobEntity,
    m2: JobMetadataEntity,
    i: int,
    n: int,
    now: i64,
    max_retries: i32,
)
    requires
        jobs.len() == md.len(),
        0 <= i < jobs.len(),
        n <= jobs.len(),
    ensures
        count_eligible_upto(jobs.update(i, j2), md.update(i, m2), now, max_retries, n)
            == count_eligible_upto(jobs, md, now, max_retries, n) + (if i < n && eligible(
            j2,
            m2,
            now,
            max_retries,
        ) {
            1int
        } else {
            0int
        }) - (if i < n && eligible(jobs[i], md[i], now, max_retries) {
            1int
        } else {
            0int
        }),
    decreases n,
{
    if n > 0 {
        lemma_count_point_update(jobs, md, j2, m2, i, n - 1, now, max_retries);
    }
}

/// The eligible count of a prefix is zero exactly when no row of the prefix
/// is eligible.
pub proof fn lemma_count_zero(
    jobs: Seq<JobEntity>,
    md: Seq<JobMetadataEntity>,
    now: i64,
    max_retries: i32,
    n: int,
)
    requires
        jobs.len() == md.len(),
        n <= jobs.len(),
    ensures
        (count_eligible_upto(jobs, md, now, max_retries, n) == 0) <==> (forall|j: int|
            0 <= j < n ==> !eligible(#[trigger] jobs[j], md[j], now, max_retries)),
    decreases n,
{
    if n > 0 {
        lemma_count_zero(jobs, md, now, max_retries, n - 1);
    }
}

/// Whether the batch holds an entry with the given job id.
pub open spec fn claimed_contains_id(claimed: Seq<ClaimedJob>, id: u128) -> bool {
    exists|k: int| 0 <= k < claimed.len() && (#[trigger] claimed[k]).job.id == id
}

/// Appending an entry to a batch adds exactly that entry's id.
pub proof fn lemma_contains_push(claimed: Seq<ClaimedJob>, c: ClaimedJob, id: u128)
    ensures
        claimed_contains_id(claimed.push(c), id) <==> (claimed_contains_id(claimed, id) || c.job.id
            == id),
{
    if claimed_contains_id(claimed, id) {
        let k = choose|k: int| 0 <= k < claimed.len() && (#[trigger] claimed[k]).job.id == id;
        assert(claimed.push(c)[k].job.id == id);
    }
    if c.job.id == id {
        assert(claimed.push(c)[claimed.len() as int].job.id == id);
    }
    if claimed_contains_id(claimed.push(c), id) {
        let k = choose|k: int|
            0 <= k < claimed.push(c).len() && (#[trigger] claimed.push(c)[k]).job.id == id;
        if k < claimed.len() {
            assert(claimed[k].job.id == id);
        }
    }
}

/// One batch entry is sound: it copies a row that was eligible before the
/// claim, and that row is now `Processing`.
pub open spec fn claim_entry_ok(
    pre_jobs: Seq<JobEntity>,
    pre_md: Seq<JobMetadataEntity>,
    post_md: Seq<JobMetadataEntity>,
    c: ClaimedJob,
    now: i64,
    max_retries: i32,
) -> bool {
    let i = idx_of(pre_jobs, c.job.id);
    &&& has_id(pre_jobs, c.job.id)
    &&& c.job == pre_jobs[i]
    &&& c.metadata == pre_md[i]
    &&& eligible(pre_jobs[i], pre_md[i], now, max_retries)
    &&& post_md[i] == processing_md(pre_md[i])
}

/// The whole contract of `claim_batch`, relating the store before the claim,
/// the store after it, and the returned batch: the batch holds the earliest
/// `min(limit, eligible)` eligible rows, each flipped to `Processing`; every
/// other row is untouched; the batch is sorted by scheduled time and no row
/// left eligible is earlier than a claimed one.
pub open spec fn claim_post(
    pre_jobs: Seq<JobEntity>,
    pre_md: Seq<JobMetadataEntity>,
    post_jobs: Seq<JobEntity>,
    post_md: Seq<JobMetadataEntity>,
    claimed: Seq<ClaimedJob>,
    now: i64,
    limit: int,
    max_retries: i32,
) -> bool {
    let total = num_eligible(pre_jobs, pre_md, now, max_retries) as int;
    &&& post_jobs == pre_jobs
    &&& post_md.len() == pre_md.len()
    &&& claimed.len() == (if limit <= total {
        limit
    } else {
        total
    })
    &&& num_eligible(post_jobs, post_md, now, max_retries) + claimed.len() == total
    &&& forall|k: int|
        0 <= k < claimed.len() ==> claim_entry_ok(
            pre_jobs,
            pre_md,
            post_md,
            #[trigger] claimed[k],
            now,
            max_retries,
        )
    &&& forall|k1: int, k2: int|
        #![trigger claimed[k1].job.id, claimed[k2].job.id]
        0 <= k1 < claimed.len() && 0 <= k2 < claimed.len() && k1 != k2 ==> claimed[k1].job.id
            != claimed[k2].job.id
    &&& forall|i: int|
        0 <= i < pre_md.len() && !claimed_contains_id(claimed, pre_jobs[i].id) ==> (
        #[trigger] post_md[i]) == pre_md[i]
    &&& forall|k1: int, k2: int|
        #![trigger claimed[k1].job.time, claimed[k2].job.time]
        0 <= k1 <= k2 < claimed.len() ==> claimed[k1].job.time <= claimed[k2].job.time
    &&& forall|k: int, j: int|
        #![trigger claimed[k].job.time, post_md[j]]
        0 <= k < claimed.len() && 0 <= j < post_jobs.len() && eligible(
            post_jobs[j],
            post_md[j],
            now,
            max_retries,
        ) ==> claimed[k].job.time <= post_jobs[j].time
}

/// Every attempt count in the store is within the bound.
pub open spec fn retries_bounded(jobs: Seq<JobEntity>, max_retries: i32) -> bool {
    forall|i: int| 0 <= i < jobs.len() ==> (#[trigger] jobs[i]).retries <= max_retries
}

/// The metadata relation after `mark_completed` succeeds on `id`.
pub open spec fn mark_completed_result(
    jobs: Seq<JobEntity>,
    md: Seq<JobMetadataEntity>,
    id: u128,
    now: i64,
) -> Seq<JobMetadataEntity> {
    md.update(idx_of(jobs, id), completed_md(md[idx_of(jobs, id)], now))
}

pub struct JobStore {
    jobs: Vec<JobEntity>,
    metadata: Vec<JobMetadataEntity>,
}

impl JobStore {
    /// The sequence of job rows, in row order.
    pub closed spec fn jobs_view(&self) -> Seq<JobEntity> {
        self.jobs@
    }

    /// The sequence of metadata rows, aligned with `jobs_view`.
    pub closed spec fn metadata_view(&self) -> Seq<JobMetadataEntity> {
        self.metadata@
    }

    /// Well-formedness: the two relations are index-aligned and 1:1, job ids
    /// are unique, and attempt counts are non-negative.
    pub open spec fn wf(&self) -> bool {
        &&& self.jobs_view().len() == self.metadata_view().len()
        &&& forall|i: int|
            0 <= i < self.jobs_view().len() ==> (#[trigger] self.metadata_view()[i]).job_id
                == self.jobs_view()[i].id
        &&& unique_ids(self.jobs_view())
        &&& forall|i: int|
            0 <= i < self.jobs_view().len() ==> 0 <= (#[trigger] self.jobs_view()[i]).retries
    }

    /// Row `i` is in range and eligible for dispatch.
    pub open spec fn eligible_at(&self, i: int, now: i64, max_retries: i32) -> bool {
        &&& 0 <= i < self.jobs_view().len()
        &&& eligible(self.jobs_view()[i], self.metadata_view()[i], now, max_retries)
    }

    /// An empty store.
    pub fn new() -> (r: JobStore)
        ensures
            r.wf(),
            r.jobs_view().len() == 0,
            r.metadata_view().len() == 0,
    {
        JobStore { jobs: Vec::new(), metadata: Vec::new() }
    }

    pub fn num_jobs(&self) -> (r: usize)
        ensures
            r == self.jobs_view().len(),
    {
        self.jobs.len()
    }

    pub fn job_at(&self, i: usize) -> (r: &JobEntity)
        requires
            i < self.jobs_view().len(),
        ensures
            *r == self.jobs_view()[i as int],
    {
        &self.jobs[i]
    }

    pub fn metadata_at(&self, i: usize) -> (r: &JobMetadataEntity)
        requires
            i < self.metadata_view().len(),
        ensures
            *r == self.metadata_view()[i as int],
    {
        &self.metadata[i]
    }

    /// The index of the row with the given id, if any.
    fn find_index(&self, job_id: u128) -> (r: Option<usize>)
        requires
            self.wf(),
        ensures
            match r {
                Some(i) => {
                    &&& i < self.jobs_view().len()
                    &&& self.jobs_view()[i as int].id == job_id
                    &&& has_id(self.jobs_view(), job_id)
                    &&& idx_of(self.jobs_view(), job_id) == i
                },
                None => !has_id(self.jobs_view(), job_id),
            },
    {
        let n = self.jobs.len();
        let mut i: usize = 0;
        while i < n
            invariant
                n == self.jobs_view().len(),
                i <= n,
                self.wf(),
                forall|k: int| 0 <= k < i ==> (#[trigger] self.jobs_view()[k].id) != job_id,
            decreases n - i,
        {
            if self.jobs[i].id == job_id {
                proof {
                    lemma_idx_of_unique(self.jobs@, job_id, i as int);
                }
                return Some(i);
            }
            i = i + 1;
        }
        None
    }

    /// The eligible row with the earliest scheduled time, if any.
    fn find_next_eligible(&self, now: i64, max_retries: i32) -> (r: Option<usize>)
        requires
            self.wf(),
        ensures
            match r {
                Some(i) => self.eligible_at(i as int, now, max_retries) && forall|j: int|
                    self.eligible_at(j, now, max_retries) ==> self.jobs_view()[i as int].time
                        <= self.jobs_view()[j].time,
                None => forall|j: int| !self.eligible_at(j, now, max_retries),
            },
    {
        let n = self.jobs.len();
        let mut best: Option<usize> = None;
        let mut i: usize = 0;
        while i < n
            invariant
                n == self.jobs_view().len(),
                i <= n,
                self.wf(),
                match best {
                    Some(b) => self.eligible_at(b as int, now, max_retries) && forall|j: int|
                        0 <= j < i && self.eligible_at(j, now, max_retries)
                            ==> self.jobs_view()[b as int].time <= self.jobs_view()[j].time,
                    None => forall|j: int| 0 <= j < i ==> !self.eligible_at(j, now, max_retries),
                },
            decreases n - i,
        {
            let scheduled = match self.metadata[i].status {
                JobMetadataStatus::Scheduled => true,
                _ => false,
            };
            if scheduled && self.jobs[i].time <= now && self.jobs[i].retries < max_retries {
                best = match best {
                    None => Some(i),
                    Some(b) => if self.jobs[i].time < self.jobs[b].time {
                        Some(i)
                    } else {
                        Some(b)
                    },
                };
            }
            i = i + 1;
        }
        best
    }

    /// The claim transaction: select up to `limit` eligible rows, earliest
    /// scheduled time first, flip exactly those to `Processing`, and return
    /// a copy of each selected job with the metadata it had when selected.
    pub fn claim_batch(&mut self, now: i64, limit: usize, max_retries: i32) -> (r: Vec<ClaimedJob>)
        requires
            old(self).wf(),
        ensures
            final(self).wf(),
            claim_post(
                old(self).jobs_view(),
                old(self).metadata_view(),
                final(self).jobs_view(),
                final(self).metadata_view(),
                r@,
                now,
                limit as int,
                max_retries,
            ),
    {
        let ghost pre_jobs = self.jobs@;
        let ghost pre_md = self.metadata@;
        let ghost total = num_eligible(pre_jobs, pre_md, now, max_retries);
        let mut claimed: Vec<ClaimedJob> = Vec::new();
        let mut done = false;
        while !done && claimed.len() < limit
            invariant
                self.wf(),
                self.jobs_view() == pre_jobs,
                self.metadata_view().len() == pre_md.len(),
                unique_ids(pre_jobs),
                total == num_eligible(pre_jobs, pre_md, now, max_retries),
                claimed@.len() <= limit,
                num_eligible(self.jobs_view(), self.metadata_view(), now, max_retries)
                    + claimed@.len() == total,
                forall|k: int|
                    0 <= k < claimed@.len() ==> claim_entry_ok(
                        pre_jobs,
                        pre_md,
                        self.metadata_view(),
                        #[trigger] claimed@[k],
                        now,
                        max_retries,
                    ),
                forall|k1: int, k2: int|
                    #![trigger claimed@[k1].job.id, claimed@[k2].job.id]
                    0 <= k1 < claimed@.len() && 0 <= k2 < claimed@.len() && k1 != k2
                        ==> claimed@[k1].job.id != claimed@[k2].job.id,
                forall|i: int|
                    0 <= i < pre_md.len() && !claimed_contains_id(claimed@, pre_jobs[i].id) ==> (
                    #[trigger] self.metadata_view()[i]) == pre_md[i],
                forall|k1: int, k2: int|
                    #![trigger claimed@[k1].job.time, claimed@[k2].job.time]
                    0 <= k1 <= k2 < claimed@.len() ==> claimed@[k1].job.time
                        <= claimed@[k2].job.time,
                forall|k: int, j: int|
                    #![trigger claimed@[k].job.time, self.metadata_view()[j]]
                    0 <= k < claimed@.len() && self.eligible_at(j, now, max_retries)
                        ==> claimed@[k].job.time <= self.jobs_view()[j].time,
                done ==> num_eligible(self.jobs_view(), self.metadata_view(), now, max_retries)
                    == 0,
            decreases limit - claimed.len() + (if done {
                0int
            } else {
                1int
            }),
        {
            match self.find_next_eligible(now, max_retries) {
                None => {
                    proof {
                        assert forall|j: int|
                            0 <= j < self.jobs_view().len() implies !eligible(
                            self.jobs_view()[j],
                            self.metadata_view()[j],
                            now,
                            max_retries,
                        ) by {
                            assert(!self.eligible_at(j, now, max_retries));
                        }
                        lemma_count_zero(
                            self.jobs_view(),
                            self.metadata_view(),
                            now,
                            max_retries,
                            self.jobs_view().len() as int,
                        );
                    }
                    done = true;
                },
                Some(i) => {
                    let ghost cur_md = self.metadata@;
                    proof {
                        lemma_idx_of_unique(pre_jobs, pre_jobs[i as int].id, i as int);
                        // the selected row is still `Scheduled`, so it cannot be in the batch yet
                        if claimed_contains_id(claimed@, pre_jobs[i as int].id) {
                            let k = choose|k: int|
                                0 <= k < claimed@.len() && (#[trigger] claimed@[k]).job.id
                                    == pre_jobs[i as int].id;
                            assert(claim_entry_ok(
                                pre_jobs,
                                pre_md,
                                self.metadata_view(),
                                claimed@[k],
                                now,
                                max_retries,
                            ));
                            assert(false);
                        }
                        // therefore the row still carries its pre-claim metadata
                        assert(cur_md[i as int] == pre_md[i as int]);
                    }
                    let job_copy = self.jobs[i].duplicate();
                    let md_copy = self.metadata[i].duplicate();
                    let m = &self.metadata[i];
                    let updated = JobMetadataEntity {
                        job_id: m.job_id,
                        status: JobMetadataStatus::Processing,
                        failure: match &m.failure {
                            Some(msg) => Some(msg.clone()),
                            None => None,
                        },
                        processed_at: m.processed_at,
                    };
                    self.metadata[i] = updated;
                    proof {
                        assert(pre_jobs.update(i as int, pre_jobs[i as int]) =~= pre_jobs);
                        lemma_count_point_update(
                            pre_jobs,
                            cur_md,
                            pre_jobs[i as int],
                            processing_md(pre_md[i as int]),
                            i as int,
                            pre_jobs.len() as int,
                            now,
                            max_retries,
                        );
                    }
                    let ghost prev_claimed = claimed@;
                    claimed.push(ClaimedJob { job: job_copy, metadata: md_copy });
                    proof {
                        assert forall|id: u128|
                            claimed_contains_id(claimed@, id) == (claimed_contains_id(
                                prev_claimed,
                                id,
                            ) || pre_jobs[i as int].id == id) by {
                            lemma_contains_push(
                                prev_claimed,
                                claimed@[claimed@.len() - 1],
                                id,
                            );
                        }
                    }
                },
            }
        }
        proof {
            if !done {
                assert(claimed@.len() == limit);
            }
        }
        claimed
    }

    /// Insert a job together with its fresh `Scheduled` metadata row, in one
    /// transaction. Fails — leaving the store unchanged — exactly when a row
    /// with the same id already exists.
    pub fn insert(&mut self, job: JobEntity) -> (r: Result<(), TempusError>)
        requires
            old(self).wf(),
            0 <= job.retries,
        ensures
            final(self).wf(),
            r is Ok <==> !has_id(old(self).jobs_view(), job.id),
            r is Ok ==> final(self).jobs_view() == old(self).jobs_view().push(job)
                && final(self).metadata_view() == old(self).metadata_view().push(scheduled_md(job.id)),
            r is Err ==> final(self).jobs_view() == old(self).jobs_view()
                && final(self).metadata_view() == old(self).metadata_view()
                && (r matches Err(TempusError::Database(m)) && m@ == "a job row with this id already exists"@),
    {
        match self.find_index(job.id) {
            Some(_) => Err(TempusError::Database("a job row with this id already exists".to_owned())),
            None => {
                let md = JobMetadataEntity {
                    job_id: job.id,
                    status: JobMetadataStatus::Scheduled,
                    failure: None,
                    processed_at: None,
                };
                self.jobs.push(job);
                self.metadata.push(md);
                Ok(())
            },
        }
    }

    /// Set the job's metadata row to `Completed` with the processing stamp,
    /// keeping every other field and row. Fails — leaving the store
    /// unchanged — exactly when no row carries the id.
    pub fn mark_completed(&mut self, job_id: u128, now: i64) -> (r: Result<(), TempusError>)
        requires
            old(self).wf(),
        ensures
            final(self).wf(),
            final(self).jobs_view() == old(self).jobs_view(),
            r is Ok <==> has_id(old(self).jobs_view(), job_id),
            r is Ok ==> final(self).metadata_view() == mark_completed_result(
                old(self).jobs_view(),
                old(self).metadata_view(),
                job_id,
                now,
            ),
            r is Err ==> final(self).metadata_view() == old(self).metadata_view()
                && (r matches Err(TempusError::Database(m)) && m@ == "no job row with the given id"@),
    {
        match self.find_index(job_id) {
            None => Err(TempusError::Database("no job row with the given id".to_owned())),
            Some(i) => {
                let m = &self.metadata[i];
                let updated = JobMetadataEntity {
                    job_id: m.job_id,
                    status: JobMetadataStatus::Completed,
                    failure: match &m.failure {
                        Some(msg) => Some(msg.clone()),
                        None => None,
                    },
                    processed_at: Some(now),
                };
                self.metadata[i] = updated;
                Ok(())
            },
        }
    }

    /// Set the job's metadata row to `Failed`, record the terminal error and
    /// the processing stamp, keeping every other field and row. Fails —
    /// leaving the store unchanged — exactly when no row carries the id.
    pub fn mark_failed(&mut self, job_id: u128, failure_msg: String, now: i64) -> (r: Result<
        (),
        TempusError,
    >)
        requires
            old(self).wf(),
        ensures
            final(self).wf(),
            final(self).jobs_view() == old(self).jobs_view(),
            r is Ok <==> has_id(old(self).jobs_view(), job_id),
            r is Ok ==> final(self).metadata_view() == old(self).metadata_view().update(
                idx_of(old(self).jobs_view(), job_id),
                failed_md(job_id, failure_msg, now),
            ),
            r is Err ==> final(self).metadata_view() == old(self).metadata_view()
                && (r matches Err(TempusError::Database(m)) && m@ == "no job row with the given id"@),
    {
        match self.find_index(job_id) {
            None => Err(TempusError::Database("no job row with the given id".to_owned())),
            Some(i) => {
                let updated = JobMetadataEntity {
                    job_id: job_id,
                    status: JobMetadataStatus::Failed,
                    failure: Some(failure_msg),
                    processed_at: Some(now),
                };
                self.metadata[i] = updated;
                Ok(())
            },
        }
    }

    /// One transaction over both relations: the job row gets the new time and
    /// the new attempt count, and its metadata row goes back to `Scheduled`
    /// with failure and processing stamp cleared. Both writes happen, or —
    /// exactly when no row carries the id — neither does.
    pub fn reschedule_for_retry(&mut self, job_id: u128, new_time: i64, new_retries: i32) -> (r:
        Result<(), TempusError>)
        requires
            old(self).wf(),
            0 <= new_retries,
        ensures
            final(self).wf(),
            r is Ok <==> has_id(old(self).jobs_view(), job_id),
            r is Ok ==> final(self).jobs_view() == old(self).jobs_view().update(
                idx_of(old(self).jobs_view(), job_id),
                retried_job(
                    old(self).jobs_view()[idx_of(old(self).jobs_view(), job_id)],
                    new_time,
                    new_retries,
                ),
            ) && final(self).metadata_view() == old(self).metadata_view().update(
                idx_of(old(self).jobs_view(), job_id),
                scheduled_md(job_id),
            ),
            r is Err ==> final(self).jobs_view() == old(self).jobs_view()
                && final(self).metadata_view() == old(self).metadata_view()
                && (r matches Err(TempusError::Database(m)) && m@ == "no job row with the given id"@),
    {
        match self.find_index(job_id) {
            None => Err(TempusError::Database("no job row with the given id".to_owned())),
            Some(i) => {
                let j = &self.jobs[i];
                let updated_job = JobEntity {
                    id: j.id,
                    time: new_time,
                    retries: new_retries,
                    target: j.target.clone(),
                    job_type: j.job_type,
                    payload: j.payload.clone(),
                };
                let updated_md = JobMetadataEntity {
                    job_id: job_id,
                    status: JobMetadataStatus::Scheduled,
                    failure: None,
                    processed_at: None,
                };
                self.jobs[i] = updated_job;
                self.metadata[i] = updated_md;
                proof {
                    assert(unique_ids(self.jobs@)) by {
                        assert(forall|a: int|
                            0 <= a < self.jobs@.len() ==> (#[trigger] self.jobs@[a].id)
                                == old(self).jobs@[a].id);
                    }
                }
                Ok(())
            },
        }
    }

    /// Delete the job row — the metadata row goes with it, as the cascade
    /// does — only if its current status is `Scheduled`. Returns whether a
    /// row was removed; on `false` the store is unchanged.
    pub fn cancel_unprocessed(&mut self, job_id: u128) -> (r: bool)
        requires
            old(self).wf(),
        ensures
            final(self).wf(),
            r == (has_id(old(self).jobs_view(), job_id) && old(self).metadata_view()[idx_of(
                old(self).jobs_view(),
                job_id,
            )].status is Scheduled),
            r ==> final(self).jobs_view() == old(self).jobs_view().remove(
                idx_of(old(self).jobs_view(), job_id),
            ) && final(self).metadata_view() == old(self).metadata_view().remove(
                idx_of(old(self).jobs_view(), job_id),
            ),
            !r ==> final(self).jobs_view() == old(self).jobs_view() && final(self).metadata_view() == old(
                self,
            ).metadata_view(),
    {
        match self.find_index(job_id) {
            None => false,
            Some(i) => {
                let scheduled = match self.metadata[i].status {
                    JobMetadataStatus::Scheduled => true,
                    _ => false,
                };
                if scheduled {
                    self.jobs.remove(i);
                    self.metadata.remove(i);
                    proof {
                        assert(forall|a: int|
                            0 <= a < self.jobs@.len() ==> #[trigger] self.jobs@[a] == if a < i as int {
                                old(self).jobs@[a]
                            } else {
                                old(self).jobs@[a + 1]
                            });
                    }
                    true
                } else {
                    false
                }
            },
        }
    }

    /// Move the job's scheduled time only if its current status is
    /// `Scheduled`. Returns whether a row was updated; on `false` the store
    /// is unchanged.
    pub fn reschedule_unprocessed(&mut self, job_id: u128, new_time: i64) -> (r: bool)
        requires
            old(self).wf(),
        ensures
            final(self).wf(),
            final(self).metadata_view() == old(self).metadata_view(),
            r == (has_id(old(self).jobs_view(), job_id) && old(self).metadata_view()[idx_of(
                old(self).jobs_view(),
                job_id,
            )].status is Scheduled),
            r ==> final(self).jobs_view() == old(self).jobs_view().update(
                idx_of(old(self).jobs_view(), job_id),
                moved_job(old(self).jobs_view()[idx_of(old(self).jobs_view(), job_id)], new_time),
            ),
            !r ==> final(self).jobs_view() == old(self).jobs_view(),
    {
        match self.find_index(job_id) {
            None => false,
            Some(i) => {
                let scheduled = match self.metadata[i].status {
                    JobMetadataStatus::Scheduled => true,
                    _ => false,
                };
                if scheduled {
                    let j = &self.jobs[i];
                    let updated_job = JobEntity {
                        id: j.id,
                        time: new_time,
                        retries: j.retries,
                        target: j.target.clone(),
                        job_type: j.job_type,
                        payload: j.payload.clone(),
                    };
                    self.jobs[i] = updated_job;
                    proof {
                        assert(forall|a: int|
                            0 <= a < self.jobs@.len() ==> (#[trigger] self.jobs@[a].id)
                                == old(self).jobs@[a].id);
                    }
                    true
                } else {
                    false
                }
            },
        }
    }
}

/// Every job has exactly one metadata row: for each job row there is a
/// metadata row carrying its id, and no two metadata rows carry the same id.
pub proof fn lemma_metadata_rows_unique(s: JobStore)
    requires
        s.wf(),
    ensures
        forall|i: int|
            0 <= i < s.jobs_view().len() ==> exists|j: int|
                0 <= j < s.metadata_view().len() && (#[trigger] s.metadata_view()[j]).job_id == (
                #[trigger] s.jobs_view()[i]).id,
        forall|i: int, j1: int, j2: int|
            #![trigger s.jobs_view()[i], s.metadata_view()[j1], s.metadata_view()[j2]]
            0 <= i < s.jobs_view().len() && 0 <= j1 < s.metadata_view().len() && 0 <= j2
                < s.metadata_view().len() && s.metadata_view()[j1].job_id == s.jobs_view()[i].id
                && s.metadata_view()[j2].job_id == s.jobs_view()[i].id ==> j1 == j2,
{
    assert forall|i: int| 0 <= i < s.jobs_view().len() implies exists|j: int|
        0 <= j < s.metadata_view().len() && (#[trigger] s.metadata_view()[j]).job_id == (
        #[trigger] s.jobs_view()[i]).id by {
        assert(s.metadata_view()[i].job_id == s.jobs_view()[i].id);
    }
}

/// The jobs handed out by the first `m` of a row of claim rounds.
pub open spec fn sum_claimed_upto(batches: Seq<Seq<ClaimedJob>>, m: int) -> nat
    decreases m,
{
    if m <= 0 {
        0
    } else {
        sum_claimed_upto(batches, m - 1) + (if m - 1 < batches.len() {
            batches[m - 1].len()
        } else {
            0
        })
    }
}

/// A row of claim rounds against one store, each seeing the metadata the
/// previous round left behind; the job rows never change during a claim.
pub open spec fn chained_claims(
    jobs: Seq<JobEntity>,
    mds: Seq<Seq<JobMetadataEntity>>,
    batches: Seq<Seq<ClaimedJob>>,
    now: i64,
    limit: int,
    max_retries: i32,
) -> bool {
    &&& mds.len() == batches.len() + 1
    &&& forall|k: int|
        0 <= k < batches.len() ==> claim_post(
            jobs,
            mds[k],
            jobs,
            mds[k + 1],
            #[trigger] batches[k],
            now,
            limit,
            max_retries,
        )
}

/// Any number of claim rounds, one after the other, hand out pairwise
/// disjoint sets of jobs whose union has size `min(rounds * limit,
/// eligible)`, and leave every handed-out job `Processing`. This is the
/// linearized form of concurrent claimants against one store: row locking
/// orders their transactions, and each sees the store the previous one left
/// behind.
pub proof fn lemma_concurrent_claims_disjoint(
    jobs: Seq<JobEntity>,
    mds: Seq<Seq<JobMetadataEntity>>,
    batches: Seq<Seq<ClaimedJob>>,
    now: i64,
    limit: int,
    max_retries: i32,
)
    requires
        unique_ids(jobs),
        mds.len() > 0,
        mds[0].len() == jobs.len(),
        0 <= limit,
        chained_claims(jobs, mds, batches, now, limit, max_retries),
    ensures
        forall|k1: int, k2: int, j1: int, j2: int|
            #![trigger batches[k1][j1].job.id, batches[k2][j2].job.id]
            0 <= k1 < k2 < batches.len() && 0 <= j1 < batches[k1].len() && 0 <= j2
                < batches[k2].len() ==> batches[k1][j1].job.id != batches[k2][j2].job.id,
        sum_claimed_upto(batches, batches.len() as int) == (if batches.len() * limit
            <= num_eligible(jobs, mds[0], now, max_retries) {
            batches.len() * limit
        } else {
            num_eligible(jobs, mds[0], now, max_retries) as int
        }),
{
    lemma_claim_rounds(jobs, mds, batches, now, limit, max_retries, batches.len() as int);
}

/// The induction behind `lemma_concurrent_claims_disjoint`: after `m`
/// rounds, the handed-out jobs are disjoint, they number `min(m * limit,
/// eligible)`, their rows read `Processing`, and exactly the rest of the
/// eligible pool remains.
proof fn lemma_claim_rounds(
    jobs: Seq<JobEntity>,
    mds: Seq<Seq<JobMetadataEntity>>,
    batches: Seq<Seq<ClaimedJob>>,
    now: i64,
    limit: int,
    max_retries: i32,
    m: int,
)
    requires
        unique_ids(jobs),
        mds.len() == batches.len() + 1,
        mds[0].len() == jobs.len(),
        0 <= limit,
        0 <= m <= batches.len(),
        chained_claims(jobs, mds, batches, now, limit, max_retries),
    ensures
        mds[m].len() == jobs.len(),
        forall|k1: int, k2: int, j1: int, j2: int|
            #![trigger batches[k1][j1].job.id, batches[k2][j2].job.id]
            0 <= k1 < k2 < m && 0 <= j1 < batches[k1].len() && 0 <= j2 < batches[k2].len()
                ==> batches[k1][j1].job.id != batches[k2][j2].job.id,
        forall|k: int, j: int|
            #![trigger batches[k][j]]
            0 <= k < m && 0 <= j < batches[k].len() ==> {
                let i = idx_of(jobs, batches[k][j].job.id);
                &&& 0 <= i < mds[m].len()
                &&& mds[m][i].status is Processing
            },
        num_eligible(jobs, mds[m], now, max_retries) + sum_claimed_upto(batches, m)
            == num_eligible(jobs, mds[0], now, max_retries),
        sum_claimed_upto(batches, m) == (if m * limit <= num_eligible(
            jobs,
            mds[0],
            now,
            max_retries,
        ) {
            m * limit
        } else {
            num_eligible(jobs, mds[0], now, max_retries) as int
        }),
    decreases m,
{
    if m > 0 {
        lemma_claim_rounds(jobs, mds, batches, now, limit, max_retries, m - 1);
        let prev = mds[m - 1];
        let cur = mds[m];
        let b = batches[m - 1];
        assert(claim_post(jobs, prev, jobs, cur, b, now, limit, max_retries));
        let e0 = num_eligible(jobs, mds[0], now, max_retries) as int;
        // the new round takes only rows still `Scheduled`, so it is disjoint
        // from every earlier round, whose rows read `Processing`
        assert forall|k: int, j1: int, j2: int|
            0 <= k < m - 1 && 0 <= j1 < batches[k].len() && 0 <= j2 < b.len() implies batches[k][j1].job.id
            != b[j2].job.id by {
            assert(claim_entry_ok(jobs, prev, cur, b[j2], now, max_retries));
            if batches[k][j1].job.id == b[j2].job.id {
                let i = idx_of(jobs, b[j2].job.id);
                assert(prev[i].status is Processing);
                assert(prev[i].status is Scheduled);
            }
        }
        // every earlier row keeps reading `Processing`: it is not in the new
        // batch, so the round leaves it untouched
        assert forall|k: int, j: int|
            #![trigger batches[k][j]]
            0 <= k < m && 0 <= j < batches[k].len() implies {
            let i = idx_of(jobs, batches[k][j].job.id);
            &&& 0 <= i < cur.len()
            &&& cur[i].status is Processing
        } by {
            assert(claim_post(
                jobs,
                mds[k],
                jobs,
                mds[k + 1],
                batches[k],
                now,
                limit,
                max_retries,
            ));
            assert(claim_entry_ok(jobs, mds[k], mds[k + 1], batches[k][j], now, max_retries));
            assert(has_id(jobs, batches[k][j].job.id));
            let i = idx_of(jobs, batches[k][j].job.id);
            if k < m - 1 {
                assert(prev[i].status is Processing);
                if claimed_contains_id(b, batches[k][j].job.id) {
                    let j2 = choose|j2: int|
                        0 <= j2 < b.len() && (#[trigger] b[j2]).job.id == batches[k][j].job.id;
                    assert(batches[k][j].job.id != b[j2].job.id);
                }
                assert(cur[i] == prev[i]);
            } else {
                assert(claim_entry_ok(jobs, prev, cur, b[j], now, max_retries));
            }
        }
        // the counts chain: this round took min(limit, what was left)
        assert(m * limit == (m - 1) * limit + limit) by (nonlinear_arith);
        assert(sum_claimed_upto(batches, m) == sum_claimed_upto(batches, m - 1) + b.len());
        let e_prev = num_eligible(jobs, prev, now, max_retries) as int;
        assert(b.len() == if limit <= e_prev {
            limit
        } else {
            e_prev
        });
        assert(num_eligible(jobs, cur, now, max_retries) + b.len() == e_prev);
        assert(sum_claimed_upto(batches, m) == if m * limit <= e0 {
            m * limit
        } else {
            e0
        });
    }
}

/// The retry reschedule is atomic: in the state it leaves behind, any row
/// whose attempt count changed is a row whose metadata went back to
/// `Scheduled` in the same transaction. No state with the count bumped but
/// the metadata still `Processing` exists.
pub proof fn lemma_reschedule_atomic(
    jobs0: Seq<JobEntity>,
    md0: Seq<JobMetadataEntity>,
    jobs1: Seq<JobEntity>,
    md1: Seq<JobMetadataEntity>,
    id: u128,
    new_time: i64,
    new_retries: i32,
)
    requires
        jobs0.len() == md0.len(),
        has_id(jobs0, id),
        jobs1 == jobs0.update(idx_of(jobs0, id), retried_job(jobs0[idx_of(jobs0, id)], new_time, new_retries)),
        md1 == md0.update(idx_of(jobs0, id), scheduled_md(id)),
    ensures
        forall|j: int|
            #![trigger jobs1[j].retries]
            0 <= j < jobs1.len() && jobs1[j].retries != jobs0[j].retries ==> md1[j].status
                is Scheduled,
{
}

/// Marking a job completed twice at the same instant leaves the same store
/// as marking it once: the write is idempotent by primary key.
pub proof fn lemma_mark_completed_idempotent(
    jobs: Seq<JobEntity>,
    md: Seq<JobMetadataEntity>,
    id: u128,
    now: i64,
)
    requires
        jobs.len() == md.len(),
        has_id(jobs, id),
    ensures
        mark_completed_result(jobs, mark_completed_result(jobs, md, id, now), id, now)
            == mark_completed_result(jobs, md, id, now),
{
    let i = idx_of(jobs, id);
    let once = mark_completed_result(jobs, md, id, now);
    assert(completed_md(once[i], now) == once[i]);
    assert(mark_completed_result(jobs, once, id, now) =~= once);
}

} // verus!
