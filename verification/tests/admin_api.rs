use tempus::admin::{create_job, delete_job, parse_job_type, update_job_time};
use tempus::api::{
    ApiError, create_job_error_response, delete_job_error_response, update_job_time_error_response,
    validate_create_job_request,
};
use tempus::domain::{CreateJobRequest, JobMetadataStatus, JobType};
use tempus::error::TempusError;
use tempus::store::JobStore;

fn request(target: &str, time: Option<i64>, job_type: &str) -> CreateJobRequest {
    CreateJobRequest {
        target: target.to_string(),
        time,
        job_type: job_type.to_string(),
        payload: "{}".to_string(),
    }
}

#[test]
fn test_request_conversion() {
    let api_request = request("https://example.com", Some(1_700_000_000), "http");

    let domain_request = CreateJobRequest {
        target: api_request.target.clone(),
        time: api_request.time,
        job_type: api_request.job_type.clone(),
        payload: api_request.payload.clone(),
    };

    assert_eq!(domain_request.target, api_request.target);
    assert_eq!(domain_request.job_type, api_request.job_type);
}

#[test]
fn parse_job_type_accepts_known_types_case_insensitively() {
    assert!(matches!(parse_job_type("http"), Ok(JobType::Http)));
    assert!(matches!(parse_job_type("HTTP"), Ok(JobType::Http)));
    assert!(matches!(parse_job_type("kafka"), Ok(JobType::Kafka)));
    assert!(matches!(parse_job_type("Kafka"), Ok(JobType::Kafka)));
    assert!(parse_job_type("smtp").is_err());
    assert!(parse_job_type("").is_err());
}

#[test]
fn create_job_inserts_scheduled_job() {
    let mut store = JobStore::new();
    let resp = create_job(&mut store, request("http://ok/", Some(1234), "http"), 9, 999).unwrap();
    assert_eq!(resp.id, 9);
    assert_eq!(resp.message, "Job created successfully");
    assert_eq!(store.num_jobs(), 1);
    assert_eq!(store.job_at(0).time, 1234);
    assert_eq!(store.job_at(0).retries, 0);
    assert_eq!(store.metadata_at(0).status, JobMetadataStatus::Scheduled);
}

#[test]
fn create_job_defaults_time_to_now() {
    let mut store = JobStore::new();
    create_job(&mut store, request("http://ok/", None, "http"), 9, 4242).unwrap();
    assert_eq!(store.job_at(0).time, 4242);
}

#[test]
fn create_job_rejects_unknown_type() {
    let mut store = JobStore::new();
    let r = create_job(&mut store, request("http://ok/", None, "smtp"), 9, 0);
    assert!(matches!(r, Err(TempusError::Validation(_))));
    assert_eq!(store.num_jobs(), 0);
}

#[test]
fn cancel_before_processing_returns_no_content() {
    let mut store = JobStore::new();
    create_job(&mut store, request("http://ok/", Some(10_000), "http"), 1, 0).unwrap();
    // before the scheduled time the job is still Scheduled: 204, row removed
    assert!(delete_job(&mut store, 1).is_ok());
    assert_eq!(store.num_jobs(), 0);
    // the same call again: 404
    match delete_job(&mut store, 1) {
        Err(e) => {
            let (code, body) = delete_job_error_response(&e);
            assert_eq!(code, 404);
            assert_eq!(body.error, "not_found");
        },
        Ok(()) => panic!("deleting a removed job must fail"),
    }
}

#[test]
fn cancel_after_claim_returns_not_found() {
    let mut store = JobStore::new();
    create_job(&mut store, request("http://ok/", Some(5), "http"), 1, 0).unwrap();
    store.claim_batch(10, 10, 3);
    let r = delete_job(&mut store, 1);
    match r {
        Err(e) => {
            let (code, body) = delete_job_error_response(&e);
            assert_eq!(code, 404);
            assert_eq!(body.error, "not_found");
            assert_eq!(body.message, "Job not found or already processed");
        },
        Ok(()) => panic!("deleting a claimed job must fail"),
    }
    assert_eq!(store.num_jobs(), 1);
    assert_eq!(store.metadata_at(0).status, JobMetadataStatus::Processing);
}

#[test]
fn reschedule_before_processing_updates_time() {
    let mut store = JobStore::new();
    create_job(&mut store, request("http://ok/", Some(10_000), "http"), 1, 0).unwrap();
    assert!(update_job_time(&mut store, 1, 20_000).is_ok());
    assert_eq!(store.job_at(0).time, 20_000);
    assert_eq!(store.metadata_at(0).status, JobMetadataStatus::Scheduled);
}

#[test]
fn reschedule_after_claim_returns_not_found() {
    let mut store = JobStore::new();
    create_job(&mut store, request("http://ok/", Some(5), "http"), 1, 0).unwrap();
    store.claim_batch(10, 10, 3);
    match update_job_time(&mut store, 1, 20_000) {
        Err(e) => {
            let (code, body) = update_job_time_error_response(&e);
            assert_eq!(code, 404);
            assert_eq!(body.error, "not_found");
        },
        Ok(()) => panic!("rescheduling a claimed job must fail"),
    }
    assert_eq!(store.job_at(0).time, 5);
}

#[test]
fn api_error_constructors_set_tags() {
    let e = ApiError::new("some_tag", "some message");
    assert_eq!(e.error, "some_tag");
    assert_eq!(e.message, "some message");
    assert_eq!(ApiError::validation_error("m").error, "validation_failed");
    assert_eq!(ApiError::bad_request("m").error, "bad_request");
    assert_eq!(ApiError::not_found("m").error, "not_found");
    assert_eq!(ApiError::internal_error("m").error, "internal_error");
}

#[test]
fn create_job_error_maps_validation_to_400_and_rest_to_500() {
    let (code, body) = create_job_error_response(&TempusError::Validation("bad type".to_string()));
    assert_eq!(code, 400);
    assert_eq!(body.error, "bad_request");
    assert_eq!(body.message, "bad type");
    let (code, body) = create_job_error_response(&TempusError::Database("down".to_string()));
    assert_eq!(code, 500);
    assert_eq!(body.error, "internal_error");
    assert_eq!(body.message, "Failed to create job");
}

#[test]
fn request_validation_requires_a_target() {
    assert!(validate_create_job_request(&request("http://ok/", None, "http")).is_ok());
    let r = validate_create_job_request(&request("", None, "http"));
    match r {
        Err(e) => assert_eq!(e.error, "validation_failed"),
        Ok(()) => panic!("an empty target must be rejected"),
    }
}
