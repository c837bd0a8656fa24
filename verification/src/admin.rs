//! The admin operations: create a job, cancel an unprocessed job, and move
//! an unprocessed job's scheduled time. Each one validates its input, maps
//! it onto one store transaction, and reports exactly when it succeeds.

use vstd::prelude::*;

verus! {

use crate::domain::{CreateJobRequest, CreateJobResponse, JobEntity, JobType};
use crate::error::TempusError;
use crate::store::{JobStore, has_id, idx_of, moved_job, scheduled_md};
use crate::text::{eq_ignore_ascii_case, str_eq_ignore_ascii_case};

/// The job type a request names: `http` or `kafka`, in any ASCII case.
pub open spec fn spec_job_type_of(s: Seq<char>) -> Option<JobType> {
    if eq_ignore_ascii_case(s, "kafka"@) {
        Some(JobType::Kafka)
    } else if eq_ignore_ascii_case(s, "http"@) {
        Some(JobType::Http)
    } else {
        None
    }
}

/// Parse a job type name, rejecting anything but `http` and `kafka`.
pub fn parse_job_type(job_type_str: &str) -> (r: Result<JobType, TempusError>)
    ensures
        match spec_job_type_of(job_type_str@) {
            Some(t) => r == Ok::<JobType, TempusError>(t),
            None => r matches Err(TempusError::Validation(m)) && m@
                == "Invalid job type. Supported types: http, kafka"@,
        },
{
    if str_eq_ignore_ascii_case(job_type_str, "kafka") {
        Ok(JobType::Kafka)
    } else if str_eq_ignore_ascii_case(job_type_str, "http") {
        Ok(JobType::Http)
    } else {
        Err(TempusError::Validation("Invalid job type. Supported types: http, kafka".to_owned()))
    }
}

/// The scheduling record a request describes: the requested time — or now,
/// when none is given — zero attempts, and the request's target and payload.
pub open spec fn requested_job(
    request: CreateJobRequest,
    job_id: u128,
    now: i64,
    job_type: JobType,
) -> JobEntity {
    JobEntity {
        id: job_id,
        time: if request.time is Some {
            request.time->0
        } else {
            now
        },
        retries: 0,
        target: request.target,
        job_type: job_type,
        payload: request.payload,
    }
}

/// Create a job under the given id: parse the requested type, default the
/// time to now, and insert the record with a fresh `Scheduled` metadata row
/// in one transaction. Succeeds exactly when the type parses and the id is
/// free.
pub fn create_job(store: &mut JobStore, request: CreateJobRequest, job_id: u128, now: i64) -> (r:
    Result<CreateJobResponse, TempusError>)
    requires
        old(store).wf(),
    ensures
        final(store).wf(),
        r is Ok <==> (spec_job_type_of(request.job_type@) is Some && !has_id(
            old(store).jobs_view(),
            job_id,
        )),
        spec_job_type_of(request.job_type@) is None ==> (r matches Err(
            TempusError::Validation(_),
        ) && final(store).jobs_view() == old(store).jobs_view() && final(store).metadata_view()
            == old(store).metadata_view()),
        (spec_job_type_of(request.job_type@) is Some && has_id(old(store).jobs_view(), job_id))
            ==> (r matches Err(TempusError::Database(_)) && final(store).jobs_view() == old(
            store,
        ).jobs_view() && final(store).metadata_view() == old(store).metadata_view()),
        r matches Ok(resp) ==> ({
            let t = spec_job_type_of(request.job_type@)->0;
            &&& final(store).jobs_view() == old(store).jobs_view().push(
                requested_job(request, job_id, now, t),
            )
            &&& final(store).metadata_view() == old(store).metadata_view().push(
                scheduled_md(job_id),
            )
            &&& resp.id == job_id
            &&& resp.message@ == "Job created successfully"@
        }),
{
    let job_type = match parse_job_type(request.job_type.as_str()) {
        Ok(t) => t,
        Err(e) => {
            return Err(e);
        },
    };
    let scheduled_time = match request.time {
        Some(t) => t,
        None => now,
    };
    let job = JobEntity {
        id: job_id,
        time: scheduled_time,
        retries: 0,
        target: request.target,
        job_type,
        payload: request.payload,
    };
    match store.insert(job) {
        Ok(()) => Ok(
            CreateJobResponse { id: job_id, message: "Job created successfully".to_owned() },
        ),
        Err(e) => Err(e),
    }
}

/// Cancel a job that has not been processed: delete its row — the metadata
/// row goes with it — exactly when its status is still `Scheduled`;
/// otherwise report the job as not found or already processed.
pub fn delete_job(store: &mut JobStore, job_id: u128) -> (r: Result<(), TempusError>)
    requires
        old(store).wf(),
    ensures
        final(store).wf(),
        r is Ok <==> (has_id(old(store).jobs_view(), job_id) && old(store).metadata_view()[idx_of(
            old(store).jobs_view(),
            job_id,
        )].status is Scheduled),
        r is Ok ==> final(store).jobs_view() == old(store).jobs_view().remove(
            idx_of(old(store).jobs_view(), job_id),
        ) && final(store).metadata_view() == old(store).metadata_view().remove(
            idx_of(old(store).jobs_view(), job_id),
        ),
        r is Err ==> final(store).jobs_view() == old(store).jobs_view()
            && final(store).metadata_view() == old(store).metadata_view() && (r matches Err(
            TempusError::Validation(m),
        ) && m@ == "Job not found or already processed"@),
{
    if store.cancel_unprocessed(job_id) {
        Ok(())
    } else {
        Err(TempusError::Validation("Job not found or already processed".to_owned()))
    }
}

/// Move an unprocessed job's scheduled time: update it exactly when the
/// status is still `Scheduled`; otherwise report the job as not found or
/// already processed.
pub fn update_job_time(store: &mut JobStore, job_id: u128, new_time: i64) -> (r: Result<
    (),
    TempusError,
>)
    requires
        old(store).wf(),
    ensures
        final(store).wf(),
        final(store).metadata_view() == old(store).metadata_view(),
        r is Ok <==> (has_id(old(store).jobs_view(), job_id) && old(store).metadata_view()[idx_of(
            old(store).jobs_view(),
            job_id,
        )].status is Scheduled),
        r is Ok ==> final(store).jobs_view() == old(store).jobs_view().update(
            idx_of(old(store).jobs_view(), job_id),
            moved_job(old(store).jobs_view()[idx_of(old(store).jobs_view(), job_id)], new_time),
        ),
        r is Err ==> final(store).jobs_view() == old(store).jobs_view() && (r matches Err(
            TempusError::Validation(m),
        ) && m@ == "Job not found or already processed"@),
{
    if store.reschedule_unprocessed(job_id, new_time) {
        Ok(())
    } else {
        Err(TempusError::Validation("Job not found or already processed".to_owned()))
    }
}

} // verus!
