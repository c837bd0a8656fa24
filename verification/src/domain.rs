//! The job data model: the scheduling record, its lifecycle row, and the
//! constructors the workers use to build the next lifecycle row.
//!
//! Values that the store keeps in richer outside representations are held
//! here as plain data: the job id as the 128-bit value of its UUID, times as
//! naive UTC timestamps in whole seconds, and the payload as its JSON text.

use vstd::prelude::*;

verus! {

#[derive(Debug, Clone, Copy, PartialEq, Eq, Structural)]
pub enum JobType {
    Http,
    Kafka,
}

#[derive(Debug, Clone, Copy, PartialEq, Eq, Structural)]
pub enum JobMetadataStatus {
    Scheduled,
    Processing,
    Completed,
    Deleted,
    Failed,
}

/// The scheduling record. Immutable after creation except `time` and
/// `retries`, which the engine rewrites on a retry.
#[derive(Debug)]
pub struct JobEntity {
    pub id: u128,
    pub time: i64,
    pub retries: i32,
    pub target: String,
    pub job_type: JobType,
    pub payload: String,
}

/// The mutable lifecycle row, one per job, keyed by the job's id.
#[derive(Debug)]
pub struct JobMetadataEntity {
    pub job_id: u128,
    pub status: JobMetadataStatus,
    pub failure: Option<String>,
    pub processed_at: Option<i64>,
}

/// A job handed to a worker: the full record together with its lifecycle row
/// as both stood when the claim committed.
#[derive(Debug)]
pub struct ClaimedJob {
    pub job: JobEntity,
    pub metadata: JobMetadataEntity,
}

impl JobEntity {
    /// A field-for-field copy.
    pub fn duplicate(&self) -> (r: JobEntity)
        ensures
            r == *self,
    {
        JobEntity {
            id: self.id,
            time: self.time,
            retries: self.retries,
            target: self.target.clone(),
            job_type: self.job_type,
            payload: self.payload.clone(),
        }
    }
}

impl JobMetadataEntity {
    /// A field-for-field copy.
    pub fn duplicate(&self) -> (r: JobMetadataEntity)
        ensures
            r == *self,
    {
        JobMetadataEntity {
            job_id: self.job_id,
            status: self.status,
            failure: match &self.failure {
                Some(m) => Some(m.clone()),
                None => None,
            },
            processed_at: self.processed_at,
        }
    }
}

/// The lifecycle row after a successful attempt: `Completed`, stamped now.
pub fn create_success_metadata(metadata: &JobMetadataEntity, now: i64) -> (r: JobMetadataEntity)
    ensures
        r.job_id == metadata.job_id,
        r.status is Completed,
        r.failure == metadata.failure,
        r.processed_at == Some(now),
{
    JobMetadataEntity {
        job_id: metadata.job_id,
        status: JobMetadataStatus::Completed,
        failure: match &metadata.failure {
            Some(m) => Some(m.clone()),
            None => None,
        },
        processed_at: Some(now),
    }
}

/// The lifecycle row after a retryable failure: back to `Scheduled`, with the
/// failure and processing stamps cleared.
pub fn create_retry_metadata(job_metadata: &JobMetadataEntity) -> (r: JobMetadataEntity)
    ensures
        r.job_id == job_metadata.job_id,
        r.status is Scheduled,
        r.failure is None,
        r.processed_at is None,
{
    JobMetadataEntity {
        job_id: job_metadata.job_id,
        status: JobMetadataStatus::Scheduled,
        failure: None,
        processed_at: None,
    }
}

/// The lifecycle row after a permanent failure: `Failed`, with the terminal
/// error recorded and the processing stamp set.
pub fn create_failed_metadata(job_metadata: &JobMetadataEntity, error_msg: String, now: i64) -> (r:
    JobMetadataEntity)
    ensures
        r.job_id == job_metadata.job_id,
        r.status is Failed,
        r.failure == Some(error_msg),
        r.processed_at == Some(now),
{
    JobMetadataEntity {
        job_id: job_metadata.job_id,
        status: JobMetadataStatus::Failed,
        failure: Some(error_msg),
        processed_at: Some(now),
    }
}

/// What a producer submits to create a job.
#[derive(Debug)]
pub struct CreateJobRequest {
    pub target: String,
    pub time: Option<i64>,
    pub job_type: String,
    pub payload: String,
}

/// What the admin interface answers on a successful creation.
#[derive(Debug)]
pub struct CreateJobResponse {
    pub id: u128,
    pub message: String,
}

} // verus!
