use tempus::domain::{JobEntity, JobMetadataStatus, JobType};
use tempus::store::JobStore;

fn http_job(id: u128, time: i64, retries: i32) -> JobEntity {
    JobEntity {
        id,
        time,
        retries,
        target: "http://ok/".to_string(),
        job_type: JobType::Http,
        payload: "{}".to_string(),
    }
}

#[test]
fn insert_creates_exactly_one_metadata_row() {
    let mut store = JobStore::new();
    store.insert(http_job(7, 100, 0)).unwrap();
    assert_eq!(store.num_jobs(), 1);
    assert_eq!(store.job_at(0).id, 7);
    let md = store.metadata_at(0);
    assert_eq!(md.job_id, 7);
    assert_eq!(md.status, JobMetadataStatus::Scheduled);
    assert_eq!(md.failure, None);
    assert_eq!(md.processed_at, None);
}

#[test]
fn insert_rejects_duplicate_id() {
    let mut store = JobStore::new();
    store.insert(http_job(7, 100, 0)).unwrap();
    let r = store.insert(http_job(7, 200, 0));
    assert!(r.is_err());
    assert_eq!(store.num_jobs(), 1);
    assert_eq!(store.job_at(0).time, 100);
}

#[test]
fn claim_takes_earliest_due_jobs_first() {
    let mut store = JobStore::new();
    store.insert(http_job(1, 300, 0)).unwrap();
    store.insert(http_job(2, 100, 0)).unwrap();
    store.insert(http_job(3, 200, 0)).unwrap();
    store.insert(http_job(4, 900, 0)).unwrap(); // not yet due
    let batch = store.claim_batch(500, 2, 3);
    assert_eq!(batch.len(), 2);
    assert_eq!(batch[0].job.id, 2);
    assert_eq!(batch[1].job.id, 3);
    assert_eq!(batch[0].metadata.status, JobMetadataStatus::Scheduled);
    // the claimed rows are now Processing, the others untouched
    for i in 0..store.num_jobs() {
        let md = store.metadata_at(i);
        if md.job_id == 2 || md.job_id == 3 {
            assert_eq!(md.status, JobMetadataStatus::Processing);
        } else {
            assert_eq!(md.status, JobMetadataStatus::Scheduled);
        }
    }
}

#[test]
fn claim_skips_jobs_at_the_retry_bound() {
    let mut store = JobStore::new();
    store.insert(http_job(1, 100, 3)).unwrap();
    store.insert(http_job(2, 100, 2)).unwrap();
    let batch = store.claim_batch(500, 10, 3);
    assert_eq!(batch.len(), 1);
    assert_eq!(batch[0].job.id, 2);
}

#[test]
fn concurrent_claimants_get_disjoint_jobs() {
    // two claim rounds against one store: the single eligible job goes to
    // exactly one of them
    let mut store = JobStore::new();
    store.insert(http_job(1, 100, 0)).unwrap();
    let first = store.claim_batch(500, 10, 3);
    let second = store.claim_batch(500, 10, 3);
    assert_eq!(first.len(), 1);
    assert_eq!(second.len(), 0);
}

#[test]
fn sequential_claims_split_the_pool() {
    let mut store = JobStore::new();
    for id in 0..5u128 {
        store.insert(http_job(id, 100 + id as i64, 0)).unwrap();
    }
    let first = store.claim_batch(500, 2, 3);
    let second = store.claim_batch(500, 2, 3);
    let third = store.claim_batch(500, 2, 3);
    assert_eq!(first.len(), 2);
    assert_eq!(second.len(), 2);
    assert_eq!(third.len(), 1);
    let mut seen: Vec<u128> = Vec::new();
    for c in first.iter().chain(second.iter()).chain(third.iter()) {
        assert!(!seen.contains(&c.job.id));
        seen.push(c.job.id);
    }
}

#[test]
fn claim_with_zero_limit_takes_nothing() {
    let mut store = JobStore::new();
    store.insert(http_job(1, 100, 0)).unwrap();
    let batch = store.claim_batch(500, 0, 3);
    assert_eq!(batch.len(), 0);
    assert_eq!(store.metadata_at(0).status, JobMetadataStatus::Scheduled);
}

#[test]
fn mark_completed_twice_equals_once() {
    let mut store = JobStore::new();
    store.insert(http_job(1, 100, 0)).unwrap();
    store.claim_batch(500, 10, 3);
    store.mark_completed(1, 777).unwrap();
    let status_once = store.metadata_at(0).status;
    let processed_once = store.metadata_at(0).processed_at;
    let failure_once = store.metadata_at(0).failure.clone();
    store.mark_completed(1, 777).unwrap();
    assert_eq!(store.metadata_at(0).status, status_once);
    assert_eq!(store.metadata_at(0).processed_at, processed_once);
    assert_eq!(store.metadata_at(0).failure, failure_once);
    assert_eq!(status_once, JobMetadataStatus::Completed);
    assert_eq!(processed_once, Some(777));
}

#[test]
fn mark_failed_records_the_error() {
    let mut store = JobStore::new();
    store.insert(http_job(1, 100, 0)).unwrap();
    store.claim_batch(500, 10, 3);
    store.mark_failed(1, "connection refused".to_string(), 900).unwrap();
    let md = store.metadata_at(0);
    assert_eq!(md.status, JobMetadataStatus::Failed);
    assert_eq!(md.failure, Some("connection refused".to_string()));
    assert_eq!(md.processed_at, Some(900));
}

#[test]
fn mark_completed_unknown_id_is_an_error() {
    let mut store = JobStore::new();
    let r = store.mark_completed(42, 100);
    assert!(r.is_err());
}

#[test]
fn reschedule_for_retry_updates_both_rows_atomically() {
    let mut store = JobStore::new();
    store.insert(http_job(1, 100, 0)).unwrap();
    store.claim_batch(500, 10, 3);
    store.reschedule_for_retry(1, 340, 1).unwrap();
    assert_eq!(store.job_at(0).time, 340);
    assert_eq!(store.job_at(0).retries, 1);
    let md = store.metadata_at(0);
    assert_eq!(md.status, JobMetadataStatus::Scheduled);
    assert_eq!(md.failure, None);
    assert_eq!(md.processed_at, None);
}

#[test]
fn cancel_unprocessed_true_iff_scheduled() {
    let mut store = JobStore::new();
    store.insert(http_job(1, 100, 0)).unwrap();
    store.insert(http_job(2, 100, 0)).unwrap();
    // claim job 1 so it is Processing; job 2 stays Scheduled
    let batch = store.claim_batch(500, 1, 3);
    assert_eq!(batch[0].job.id, 1);
    assert!(!store.cancel_unprocessed(1));
    assert_eq!(store.num_jobs(), 2);
    assert!(store.cancel_unprocessed(2));
    assert_eq!(store.num_jobs(), 1);
    assert_eq!(store.job_at(0).id, 1);
    assert!(!store.cancel_unprocessed(99));
    assert_eq!(store.num_jobs(), 1);
}

#[test]
fn reschedule_unprocessed_true_iff_scheduled() {
    let mut store = JobStore::new();
    store.insert(http_job(1, 100, 0)).unwrap();
    store.insert(http_job(2, 100, 0)).unwrap();
    let batch = store.claim_batch(500, 1, 3);
    assert_eq!(batch[0].job.id, 1);
    assert!(!store.reschedule_unprocessed(1, 700));
    assert_eq!(store.job_at(0).time, 100);
    assert!(store.reschedule_unprocessed(2, 700));
    assert_eq!(store.job_at(1).time, 700);
    assert_eq!(store.metadata_at(1).status, JobMetadataStatus::Scheduled);
}
