//! The dispatch engine: the per-job decision a worker carries out after an
//! attempt, and the tick that claims a batch and brings every claimed job to
//! its next state.
//!
//! The engine decides; the transports act. A worker performs the HTTP POST
//! or the Kafka publish outside the library and reports an `ExecOutcome`;
//! the engine turns it into the job's next state — completed, rescheduled
//! with backoff, or permanently failed — and writes it, together with the
//! matching observations on the metrics sink.

use vstd::prelude::*;

verus! {

use crate::config::AppConfig;
use crate::domain::{ClaimedJob, JobEntity, JobMetadataEntity};
use crate::error::TempusError;
use crate::executor::ExecOutcome;
use crate::metrics::{
    MetricsSink, bumped_u64, increment_http_requests, increment_jobs_processed,
    increment_kafka_messages,
};
use crate::retry::{backoff, backoff_fits, should_retry, spec_backoff, spec_should_retry};
use crate::store::{
    JobStore, completed_md, failed_md, has_id, idx_of, retried_job, retries_bounded, scheduled_md,
};

/// The next state of a job after one attempt.
#[derive(Debug)]
pub enum Resolution {
    /// The attempt delivered: the job is done.
    Complete,
    /// The attempt failed and attempts remain: the job goes back to
    /// `Scheduled` at a backed-off time with its count bumped.
    Retry { new_time: i64, new_retries: i32 },
    /// The attempt failed and no attempts remain: the job fails for good.
    Fail { message: String },
}

/// The worker's decision, as a function of the job, the outcome, and the
/// retry policy. A delivery — whatever its HTTP status code — completes the
/// job. A failure retries while `retries < retry_attempts`, rescheduling to
/// the job's own time plus `base_delay_minutes * 2^(retries + 1)` minutes;
/// otherwise it is permanent.
pub open spec fn spec_resolution(
    job: JobEntity,
    outcome: ExecOutcome,
    retry_attempts: i32,
    base_delay_minutes: u32,
) -> Resolution {
    match outcome {
        ExecOutcome::HttpDelivered { status_code } => Resolution::Complete,
        ExecOutcome::KafkaDelivered => Resolution::Complete,
        ExecOutcome::Failed { message } => {
            if spec_should_retry(job.retries as int, retry_attempts as int) {
                Resolution::Retry {
                    new_time: spec_backoff(
                        job.time,
                        (job.retries + 1) as nat,
                        base_delay_minutes,
                    ) as i64,
                    new_retries: (job.retries + 1) as i32,
                }
            } else {
                Resolution::Fail { message }
            }
        },
    }
}

/// Decide a job's next state from the outcome of one attempt.
pub fn resolve(job: &JobEntity, outcome: ExecOutcome, retry_attempts: i32, base_delay_minutes: u32) -> (r:
    Resolution)
    requires
        0 <= job.retries,
        spec_should_retry(job.retries as int, retry_attempts as int) ==> backoff_fits(
            job.time,
            job.retries + 1,
            base_delay_minutes,
        ),
    ensures
        r == spec_resolution(*job, outcome, retry_attempts, base_delay_minutes),
{
    match outcome {
        ExecOutcome::HttpDelivered { status_code: _ } => Resolution::Complete,
        ExecOutcome::KafkaDelivered => Resolution::Complete,
        ExecOutcome::Failed { message } => {
            if should_retry(job.retries, retry_attempts) {
                let new_retries = job.retries + 1;
                let new_time = backoff(job.time, new_retries, base_delay_minutes);
                Resolution::Retry { new_time, new_retries }
            } else {
                Resolution::Fail { message }
            }
        },
    }
}

/// The store after one settled job: the row of `job.id` moves to the state
/// the resolution prescribes; every other row is kept.
pub open spec fn apply_settle(
    jobs: Seq<JobEntity>,
    md: Seq<JobMetadataEntity>,
    job: JobEntity,
    outcome: ExecOutcome,
    now: i64,
    retry_attempts: i32,
    base_delay_minutes: u32,
) -> (Seq<JobEntity>, Seq<JobMetadataEntity>) {
    let i = idx_of(jobs, job.id);
    match spec_resolution(job, outcome, retry_attempts, base_delay_minutes) {
        Resolution::Complete => (jobs, md.update(i, completed_md(md[i], now))),
        Resolution::Retry { new_time, new_retries } => (
            jobs.update(i, retried_job(jobs[i], new_time, new_retries)),
            md.update(i, scheduled_md(job.id)),
        ),
        Resolution::Fail { message } => (jobs, md.update(i, failed_md(job.id, message, now))),
    }
}

/// The store after a whole batch is settled, first entry first: each entry
/// is settled against the store the previous entries left behind.
pub open spec fn apply_settles(
    jobs: Seq<JobEntity>,
    md: Seq<JobMetadataEntity>,
    batch: Seq<ClaimedJob>,
    outcomes: Seq<ExecOutcome>,
    now: i64,
    retry_attempts: i32,
    base_delay_minutes: u32,
) -> (Seq<JobEntity>, Seq<JobMetadataEntity>)
    decreases batch.len(),
{
    if batch.len() == 0 || outcomes.len() == 0 {
        (jobs, md)
    } else {
        let s = apply_settle(jobs, md, batch[0].job, outcomes[0], now, retry_attempts, base_delay_minutes);
        apply_settles(
            s.0,
            s.1,
            batch.subrange(1, batch.len() as int),
            outcomes.subrange(1, outcomes.len() as int),
            now,
            retry_attempts,
            base_delay_minutes,
        )
    }
}

/// Settling a batch extended by one entry settles the batch, then the entry.
pub proof fn lemma_apply_settles_push(
    jobs: Seq<JobEntity>,
    md: Seq<JobMetadataEntity>,
    batch: Seq<ClaimedJob>,
    outcomes: Seq<ExecOutcome>,
    c: ClaimedJob,
    o: ExecOutcome,
    now: i64,
    retry_attempts: i32,
    base_delay_minutes: u32,
)
    requires
        batch.len() == outcomes.len(),
    ensures
        ({
            let s = apply_settles(jobs, md, batch, outcomes, now, retry_attempts, base_delay_minutes);
            apply_settles(
                jobs,
                md,
                batch.push(c),
                outcomes.push(o),
                now,
                retry_attempts,
                base_delay_minutes,
            ) == apply_settle(s.0, s.1, c.job, o, now, retry_attempts, base_delay_minutes)
        }),
    decreases batch.len(),
{
    reveal_with_fuel(apply_settles, 3);
    let bp = batch.push(c);
    let op = outcomes.push(o);
    if batch.len() == 0 {
        assert(bp[0] == c);
        assert(op[0] == o);
        assert(bp.subrange(1, bp.len() as int) =~= Seq::<ClaimedJob>::empty());
        assert(op.subrange(1, op.len() as int) =~= Seq::<ExecOutcome>::empty());
        let s1 = apply_settle(jobs, md, c.job, o, now, retry_attempts, base_delay_minutes);
        assert(apply_settles(jobs, md, bp, op, now, retry_attempts, base_delay_minutes)
            == apply_settles(
            s1.0,
            s1.1,
            Seq::<ClaimedJob>::empty(),
            Seq::<ExecOutcome>::empty(),
            now,
            retry_attempts,
            base_delay_minutes,
        ));
    } else {
        assert(bp[0] == batch[0]);
        assert(op[0] == outcomes[0]);
        assert(bp.subrange(1, bp.len() as int) =~= batch.subrange(1, batch.len() as int).push(c));
        assert(op.subrange(1, op.len() as int) =~= outcomes.subrange(
            1,
            outcomes.len() as int,
        ).push(o));
        let s = apply_settle(jobs, md, batch[0].job, outcomes[0], now, retry_attempts, base_delay_minutes);
        lemma_apply_settles_push(
            s.0,
            s.1,
            batch.subrange(1, batch.len() as int),
            outcomes.subrange(1, outcomes.len() as int),
            c,
            o,
            now,
            retry_attempts,
            base_delay_minutes,
        );
    }
}

/// The metadata relation as a claim leaves it: the rows of the claimed jobs
/// are `Processing`, the rest are untouched.
pub open spec fn claim_applied_md(
    pre_jobs: Seq<JobEntity>,
    pre_md: Seq<JobMetadataEntity>,
    batch: Seq<ClaimedJob>,
) -> Seq<JobMetadataEntity> {
    Seq::new(
        pre_md.len(),
        |i: int|
            if crate::store::claimed_contains_id(batch, pre_jobs[i].id) {
                crate::store::processing_md(pre_md[i])
            } else {
                pre_md[i]
            },
    )
}

/// Repeated saturating increments: `k` more, capped at the maximum.
pub open spec fn sat_add(c: u64, k: nat) -> u64 {
    if c + k <= u64::MAX {
        (c + k) as u64
    } else {
        u64::MAX
    }
}

/// One more saturating increment extends the cap-aware sum by one.
pub proof fn lemma_sat_add_step(c: u64, m: nat)
    ensures
        bumped_u64(sat_add(c, m)) == sat_add(c, m + 1),
{
}

/// How many of the first `n` outcomes are deliveries.
pub open spec fn count_delivered(outcomes: Seq<ExecOutcome>, n: int) -> nat
    decreases n,
{
    if n <= 0 {
        0
    } else {
        count_delivered(outcomes, n - 1) + (if 0 <= n - 1 < outcomes.len() && !(outcomes[n - 1]
            is Failed) {
            1nat
        } else {
            0nat
        })
    }
}

/// How many of the first `n` outcomes are acknowledged Kafka publishes.
pub open spec fn count_kafka(outcomes: Seq<ExecOutcome>, n: int) -> nat
    decreases n,
{
    if n <= 0 {
        0
    } else {
        count_kafka(outcomes, n - 1) + (if 0 <= n - 1 < outcomes.len() && outcomes[n - 1]
            is KafkaDelivered {
            1nat
        } else {
            0nat
        })
    }
}

/// How many of the first `n` outcomes are HTTP responses with this code.
pub open spec fn count_http(outcomes: Seq<ExecOutcome>, n: int, code: u16) -> nat
    decreases n,
{
    if n <= 0 {
        0
    } else {
        count_http(outcomes, n - 1, code) + (if 0 <= n - 1 < outcomes.len() && (outcomes[n - 1]
            matches ExecOutcome::HttpDelivered { status_code } && status_code == code) {
            1nat
        } else {
            0nat
        })
    }
}

/// How many of the first `n` entries failed with attempts left.
pub open spec fn count_retried(
    batch: Seq<ClaimedJob>,
    outcomes: Seq<ExecOutcome>,
    n: int,
    retry_attempts: i32,
) -> nat
    decreases n,
{
    if n <= 0 {
        0
    } else {
        count_retried(batch, outcomes, n - 1, retry_attempts) + (if 0 <= n - 1 < batch.len() && n
            - 1 < outcomes.len() && outcomes[n - 1] is Failed && batch[n - 1].job.retries
            < retry_attempts {
            1nat
        } else {
            0nat
        })
    }
}

/// How many of the first `n` entries failed with no attempts left.
pub open spec fn count_failed(
    batch: Seq<ClaimedJob>,
    outcomes: Seq<ExecOutcome>,
    n: int,
    retry_attempts: i32,
) -> nat
    decreases n,
{
    if n <= 0 {
        0
    } else {
        count_failed(batch, outcomes, n - 1, retry_attempts) + (if 0 <= n - 1 < batch.len() && n - 1
            < outcomes.len() && outcomes[n - 1] is Failed && !(batch[n - 1].job.retries
            < retry_attempts) {
            1nat
        } else {
            0nat
        })
    }
}

/// The dispatch engine, configured once and owning no state beyond its
/// configuration: all durable state lives in the store.
pub struct TempusEngine {
    config: AppConfig,
}

impl TempusEngine {
    pub closed spec fn spec_config(&self) -> AppConfig {
        self.config
    }

    /// Build an engine from a configuration, accepting exactly the
    /// configurations that satisfy the documented bounds.
    pub fn new(config: AppConfig) -> (r: Result<TempusEngine, TempusError>)
        ensures
            r matches Ok(e) ==> config.spec_valid() && e.spec_config() == config,
            r is Err <==> !config.spec_valid(),
            r is Err ==> r matches Err(TempusError::Validation(_)),
    {
        match config.validate() {
            Ok(()) => Ok(TempusEngine { config }),
            Err(e) => Err(e),
        }
    }

    /// Settle one claimed job: decide from the outcome, write the decided
    /// state to the store in one transaction, and record the observations.
    pub fn settle(
        &self,
        store: &mut JobStore,
        job: &JobEntity,
        outcome: ExecOutcome,
        sink: &mut MetricsSink,
        now: i64,
    ) -> (r: Result<(), TempusError>)
        requires
            old(store).wf(),
            old(sink).wf(),
            has_id(old(store).jobs_view(), job.id),
            0 <= job.retries,
            spec_should_retry(
                job.retries as int,
                self.spec_config().engine.retry_attempts as int,
            ) ==> backoff_fits(
                job.time,
                job.retries + 1,
                self.spec_config().engine.base_delay_minutes,
            ),
        ensures
            r is Ok,
            final(store).wf(),
            final(sink).wf(),
            ({
                let settled = apply_settle(
                    old(store).jobs_view(),
                    old(store).metadata_view(),
                    *job,
                    outcome,
                    now,
                    self.spec_config().engine.retry_attempts,
                    self.spec_config().engine.base_delay_minutes,
                );
                final(store).jobs_view() == settled.0 && final(store).metadata_view() == settled.1
            }),
            retries_bounded(
                old(store).jobs_view(),
                self.spec_config().engine.retry_attempts,
            ) ==> retries_bounded(
                final(store).jobs_view(),
                self.spec_config().engine.retry_attempts,
            ),
            // the processed counter of the decided outcome is bumped and no
            // other label moves
            ({
                let res = spec_resolution(
                    *job,
                    outcome,
                    self.spec_config().engine.retry_attempts,
                    self.spec_config().engine.base_delay_minutes,
                );
                &&& (res is Complete ==> final(sink).spec_jobs_processed("success"@) == bumped_u64(
                    old(sink).spec_jobs_processed("success"@),
                ) && (forall|key: Seq<char>|
                    key != "success"@ ==> final(sink).spec_jobs_processed(key) == old(
                        sink,
                    ).spec_jobs_processed(key)))
                &&& (res is Retry ==> final(sink).spec_jobs_processed("retry"@) == bumped_u64(
                    old(sink).spec_jobs_processed("retry"@),
                ) && (forall|key: Seq<char>|
                    key != "retry"@ ==> final(sink).spec_jobs_processed(key) == old(
                        sink,
                    ).spec_jobs_processed(key)))
                &&& (res is Fail ==> final(sink).spec_jobs_processed("failure"@) == bumped_u64(
                    old(sink).spec_jobs_processed("failure"@),
                ) && (forall|key: Seq<char>|
                    key != "failure"@ ==> final(sink).spec_jobs_processed(key) == old(
                        sink,
                    ).spec_jobs_processed(key)))
            }),
            // the transport counters follow the outcome
            ({
                &&& (outcome matches ExecOutcome::HttpDelivered { status_code } ==> {
                    &&& final(sink).spec_http_requests(status_code) == bumped_u64(
                        old(sink).spec_http_requests(status_code),
                    )
                    &&& forall|code: u16|
                        code != status_code ==> final(sink).spec_http_requests(code) == old(
                            sink,
                        ).spec_http_requests(code)
                    &&& final(sink).kafka_messages_view() == old(sink).kafka_messages_view()
                })
                &&& (outcome is KafkaDelivered ==> {
                    &&& final(sink).kafka_messages_view() == bumped_u64(
                        old(sink).kafka_messages_view(),
                    )
                    &&& final(sink).http_requests_view() == old(sink).http_requests_view()
                })
                &&& (outcome is Failed ==> {
                    &&& final(sink).http_requests_view() == old(sink).http_requests_view()
                    &&& final(sink).kafka_messages_view() == old(sink).kafka_messages_view()
                })
            }),
            final(sink).current_processing_view() == old(sink).current_processing_view(),
    {
        match &outcome {
            ExecOutcome::HttpDelivered { status_code } => {
                increment_http_requests(sink, *status_code);
            },
            ExecOutcome::KafkaDelivered => {
                increment_kafka_messages(sink);
            },
            ExecOutcome::Failed { message: _ } => {},
        }
        let resolution = resolve(
            job,
            outcome,
            self.config.engine.retry_attempts,
            self.config.engine.base_delay_minutes,
        );
        match resolution {
            Resolution::Complete => {
                match store.mark_completed(job.id, now) {
                    Ok(()) => {},
                    Err(e) => {
                        return Err(e);
                    },
                }
                increment_jobs_processed(sink, "success");
            },
            Resolution::Retry { new_time, new_retries } => {
                match store.reschedule_for_retry(job.id, new_time, new_retries) {
                    Ok(()) => {},
                    Err(e) => {
                        return Err(e);
                    },
                }
                increment_jobs_processed(sink, "retry");
            },
            Resolution::Fail { message } => {
                match store.mark_failed(job.id, message, now) {
                    Ok(()) => {},
                    Err(e) => {
                        return Err(e);
                    },
                }
                increment_jobs_processed(sink, "failure");
            },
        }
        Ok(())
    }

    /// One tick of the dispatcher: claim a batch of at most
    /// `max_concurrent_jobs` eligible jobs — earliest first — and settle
    /// each claimed job with the outcome its worker reports. `outcomes[k]`
    /// is the report for the `k`-th claimed job; the batch is returned.
    ///
    /// An empty claim settles nothing: the store and every counter are left
    /// as they were.
    pub fn run_tick(
        &self,
        store: &mut JobStore,
        now: i64,
        outcomes: &Vec<ExecOutcome>,
        sink: &mut MetricsSink,
    ) -> (r: Result<Vec<ClaimedJob>, TempusError>)
        requires
            old(store).wf(),
            old(sink).wf(),
            outcomes@.len() >= self.spec_config().engine.max_concurrent_jobs,
            forall|i: int|
                0 <= i < old(store).jobs_view().len() && crate::store::eligible(
                    old(store).jobs_view()[i],
                    old(store).metadata_view()[i],
                    now,
                    self.spec_config().engine.retry_attempts,
                ) ==> backoff_fits(
                    (#[trigger] old(store).jobs_view()[i]).time,
                    old(store).jobs_view()[i].retries + 1,
                    self.spec_config().engine.base_delay_minutes,
                ),
        ensures
            r is Ok,
            final(store).wf(),
            final(sink).wf(),
            final(sink).current_processing_view() == old(sink).current_processing_view(),
            r matches Ok(batch) ==> ({
                let ra = self.spec_config().engine.retry_attempts;
                let bd = self.spec_config().engine.base_delay_minutes;
                let limit = self.spec_config().engine.max_concurrent_jobs;
                let pre_j = old(store).jobs_view();
                let pre_m = old(store).metadata_view();
                let mid_m = claim_applied_md(pre_j, pre_m, batch@);
                let n = batch@.len() as int;
                let settled = apply_settles(
                    pre_j,
                    mid_m,
                    batch@,
                    outcomes@.subrange(0, n),
                    now,
                    ra,
                    bd,
                );
                &&& crate::store::claim_post(
                    pre_j,
                    pre_m,
                    pre_j,
                    mid_m,
                    batch@,
                    now,
                    limit as int,
                    ra,
                )
                &&& final(store).jobs_view() == settled.0
                &&& final(store).metadata_view() == settled.1
                &&& (retries_bounded(pre_j, ra) ==> retries_bounded(final(store).jobs_view(), ra))
                &&& (crate::store::num_eligible(pre_j, pre_m, now, ra) == 0 ==> {
                    &&& final(store).jobs_view() == pre_j
                    &&& final(store).metadata_view() == pre_m
                    &&& final(sink).jobs_processed_view() == old(sink).jobs_processed_view()
                    &&& final(sink).http_requests_view() == old(sink).http_requests_view()
                    &&& final(sink).kafka_messages_view() == old(sink).kafka_messages_view()
                })
                &&& final(sink).spec_jobs_processed("success"@) == sat_add(
                    old(sink).spec_jobs_processed("success"@),
                    count_delivered(outcomes@, n),
                )
                &&& final(sink).spec_jobs_processed("retry"@) == sat_add(
                    old(sink).spec_jobs_processed("retry"@),
                    count_retried(batch@, outcomes@, n, ra),
                )
                &&& final(sink).spec_jobs_processed("failure"@) == sat_add(
                    old(sink).spec_jobs_processed("failure"@),
                    count_failed(batch@, outcomes@, n, ra),
                )
                &&& (forall|key: Seq<char>|
                    key != "success"@ && key != "retry"@ && key != "failure"@
                        ==> final(sink).spec_jobs_processed(key) == old(sink).spec_jobs_processed(
                        key,
                    ))
                &&& final(sink).kafka_messages_view() == sat_add(
                    old(sink).kafka_messages_view(),
                    count_kafka(outcomes@, n),
                )
                &&& (forall|code: u16|
                    final(sink).spec_http_requests(code) == sat_add(
                        old(sink).spec_http_requests(code),
                        count_http(outcomes@, n, code),
                    ))
            }),
    {
        let limit = self.config.engine.max_concurrent_jobs;
        let ra = self.config.engine.retry_attempts;
        let bd = self.config.engine.base_delay_minutes;
        let ghost pre_j = store.jobs_view();
        let ghost pre_m = store.metadata_view();
        let batch = store.claim_batch(now, limit, ra);
        let ghost mid_m = claim_applied_md(pre_j, pre_m, batch@);
        proof {
            assert forall|i: int| 0 <= i < pre_m.len() implies store.metadata_view()[i]
                == mid_m[i] by {
                if crate::store::claimed_contains_id(batch@, pre_j[i].id) {
                    let k = choose|k: int|
                        0 <= k < batch@.len() && (#[trigger] batch@[k]).job.id == pre_j[i].id;
                    assert(crate::store::claim_entry_ok(
                        pre_j,
                        pre_m,
                        store.metadata_view(),
                        batch@[k],
                        now,
                        ra,
                    ));
                    crate::store::lemma_idx_of_unique(pre_j, pre_j[i].id, i);
                }
            }
            assert(store.metadata_view() =~= mid_m);
        }
        let n_batch = batch.len();
        let mut k: usize = 0;
        while k < n_batch
            invariant
                old(store).wf(),
                old(sink).wf(),
                store.wf(),
                sink.wf(),
                k <= n_batch,
                n_batch == batch@.len(),
                pre_j == old(store).jobs_view(),
                pre_m == old(store).metadata_view(),
                mid_m == claim_applied_md(pre_j, pre_m, batch@),
                limit == self.spec_config().engine.max_concurrent_jobs,
                ra == self.spec_config().engine.retry_attempts,
                bd == self.spec_config().engine.base_delay_minutes,
                outcomes@.len() >= limit,
                batch@.len() <= limit,
                crate::store::claim_post(pre_j, pre_m, pre_j, mid_m, batch@, now, limit as int, ra),
                forall|i: int|
                    0 <= i < pre_j.len() && crate::store::eligible(
                        pre_j[i],
                        pre_m[i],
                        now,
                        ra,
                    ) ==> backoff_fits((#[trigger] pre_j[i]).time, pre_j[i].retries + 1, bd),
                ({
                    let s = apply_settles(
                        pre_j,
                        mid_m,
                        batch@.subrange(0, k as int),
                        outcomes@.subrange(0, k as int),
                        now,
                        ra,
                        bd,
                    );
                    store.jobs_view() == s.0 && store.metadata_view() == s.1
                }),
                store.jobs_view().len() == pre_j.len(),
                forall|i: int|
                    0 <= i < pre_j.len() ==> (#[trigger] store.jobs_view()[i]).id == pre_j[i].id,
                retries_bounded(pre_j, ra) ==> retries_bounded(store.jobs_view(), ra),
                sink.spec_jobs_processed("success"@) == sat_add(
                    old(sink).spec_jobs_processed("success"@),
                    count_delivered(outcomes@, k as int),
                ),
                sink.spec_jobs_processed("retry"@) == sat_add(
                    old(sink).spec_jobs_processed("retry"@),
                    count_retried(batch@, outcomes@, k as int, ra),
                ),
                sink.spec_jobs_processed("failure"@) == sat_add(
                    old(sink).spec_jobs_processed("failure"@),
                    count_failed(batch@, outcomes@, k as int, ra),
                ),
                forall|key: Seq<char>|
                    key != "success"@ && key != "retry"@ && key != "failure"@
                        ==> sink.spec_jobs_processed(key) == old(sink).spec_jobs_processed(key),
                sink.kafka_messages_view() == sat_add(
                    old(sink).kafka_messages_view(),
                    count_kafka(outcomes@, k as int),
                ),
                forall|code: u16|
                    sink.spec_http_requests(code) == sat_add(
                        old(sink).spec_http_requests(code),
                        count_http(outcomes@, k as int, code),
                    ),
                sink.current_processing_view() == old(sink).current_processing_view(),
                k == 0 ==> sink.jobs_processed_view() == old(sink).jobs_processed_view()
                    && sink.http_requests_view() == old(sink).http_requests_view()
                    && sink.kafka_messages_view() == old(sink).kafka_messages_view(),
            decreases n_batch - k,
        {
            proof {
                assert(crate::store::claim_entry_ok(pre_j, pre_m, mid_m, batch@[k as int], now, ra));
                let i = idx_of(pre_j, batch@[k as int].job.id);
                assert(store.jobs_view()[i].id == batch@[k as int].job.id);
                assert(has_id(store.jobs_view(), batch@[k as int].job.id));
                assert(crate::store::eligible(pre_j[i], pre_m[i], now, ra));
                assert(0 <= pre_j[i].retries);
            }
            let outcome = outcomes[k].duplicate();
            let ghost sink_before = *sink;
            match self.settle(store, &batch[k].job, outcome, sink, now) {
                Ok(()) => {},
                Err(e) => {
                    return Err(e);
                },
            }
            proof {
                assert(batch@.subrange(0, k as int + 1) =~= batch@.subrange(0, k as int).push(
                    batch@[k as int],
                ));
                assert(outcomes@.subrange(0, k as int + 1) =~= outcomes@.subrange(0, k as int).push(
                    outcomes@[k as int],
                ));
                lemma_apply_settles_push(
                    pre_j,
                    mid_m,
                    batch@.subrange(0, k as int),
                    outcomes@.subrange(0, k as int),
                    batch@[k as int],
                    outcomes@[k as int],
                    now,
                    ra,
                    bd,
                );
                reveal_strlit("success");
                reveal_strlit("retry");
                reveal_strlit("failure");
                assert("success"@.len() == 7);
                assert("retry"@.len() == 5);
                assert("failure"@.len() == 7);
                assert("success"@[0] == 's');
                assert("failure"@[0] == 'f');
                assert("success"@ != "retry"@);
                assert("success"@ != "failure"@);
                assert("retry"@ != "failure"@);
                let jb = batch@[k as int].job;
                let oc = outcomes@[k as int];
                assert(oc == outcome);
                assert(count_delivered(outcomes@, k as int + 1) == count_delivered(
                    outcomes@,
                    k as int,
                ) + (if !(oc is Failed) {
                    1nat
                } else {
                    0nat
                }));
                assert(count_retried(batch@, outcomes@, k as int + 1, ra) == count_retried(
                    batch@,
                    outcomes@,
                    k as int,
                    ra,
                ) + (if oc is Failed && jb.retries < ra {
                    1nat
                } else {
                    0nat
                }));
                assert(count_failed(batch@, outcomes@, k as int + 1, ra) == count_failed(
                    batch@,
                    outcomes@,
                    k as int,
                    ra,
                ) + (if oc is Failed && !(jb.retries < ra) {
                    1nat
                } else {
                    0nat
                }));
                assert(count_kafka(outcomes@, k as int + 1) == count_kafka(outcomes@, k as int) + (
                if oc is KafkaDelivered {
                    1nat
                } else {
                    0nat
                }));
                // restate the loop facts on the snapshot the settle call started from
                assert(sink_before.spec_jobs_processed("success"@) == sat_add(
                    old(sink).spec_jobs_processed("success"@),
                    count_delivered(outcomes@, k as int),
                ));
                assert(sink_before.spec_jobs_processed("retry"@) == sat_add(
                    old(sink).spec_jobs_processed("retry"@),
                    count_retried(batch@, outcomes@, k as int, ra),
                ));
                assert(sink_before.spec_jobs_processed("failure"@) == sat_add(
                    old(sink).spec_jobs_processed("failure"@),
                    count_failed(batch@, outcomes@, k as int, ra),
                ));
                lemma_sat_add_step(
                    old(sink).spec_jobs_processed("success"@),
                    count_delivered(outcomes@, k as int),
                );
                lemma_sat_add_step(
                    old(sink).spec_jobs_processed("retry"@),
                    count_retried(batch@, outcomes@, k as int, ra),
                );
                lemma_sat_add_step(
                    old(sink).spec_jobs_processed("failure"@),
                    count_failed(batch@, outcomes@, k as int, ra),
                );
                lemma_sat_add_step(
                    old(sink).kafka_messages_view(),
                    count_kafka(outcomes@, k as int),
                );
                assert forall|key: Seq<char>|
                    key != "success"@ && key != "retry"@ && key != "failure"@
                        implies sink.spec_jobs_processed(key) == old(sink).spec_jobs_processed(
                    key,
                ) by {
                    assert(sink_before.spec_jobs_processed(key) == old(sink).spec_jobs_processed(
                        key,
                    ));
                }
                assert forall|code: u16|
                    sink.spec_http_requests(code) == sat_add(
                        old(sink).spec_http_requests(code),
                        count_http(outcomes@, k as int + 1, code),
                    ) by {
                    assert(sink_before.spec_http_requests(code) == sat_add(
                        old(sink).spec_http_requests(code),
                        count_http(outcomes@, k as int, code),
                    ));
                    assert(count_http(outcomes@, k as int + 1, code) == count_http(
                        outcomes@,
                        k as int,
                        code,
                    ) + (if oc matches ExecOutcome::HttpDelivered { status_code } && status_code
                        == code {
                        1nat
                    } else {
                        0nat
                    }));
                    lemma_sat_add_step(
                        old(sink).spec_http_requests(code),
                        count_http(outcomes@, k as int, code),
                    );
                }
            }
            k = k + 1;
        }
        proof {
            assert(batch@.subrange(0, k as int) =~= batch@);
            if crate::store::num_eligible(pre_j, pre_m, now, ra) == 0 {
                assert(batch@.len() == 0);
                assert(mid_m =~= pre_m);
                assert(batch@.subrange(0, 0) =~= Seq::<ClaimedJob>::empty());
                assert(outcomes@.subrange(0, 0) =~= Seq::<ExecOutcome>::empty());
            }
        }
        Ok(batch)
    }
}

} // verus!
