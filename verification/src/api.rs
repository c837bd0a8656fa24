//! The admin interface's surface: the error body every endpoint answers
//! with, the request validation the handlers run first, and the mapping
//! from an operation's result to a status code and body. The HTTP plumbing
//! itself lives outside the library.

use vstd::prelude::*;

verus! {

use crate::domain::CreateJobRequest;
use crate::error::TempusError;

/// The error body: a machine-readable tag and a human-readable message.
#[derive(Debug)]
pub struct ApiError {
    pub error: String,
    pub message: String,
}

impl ApiError {
    pub fn new(error: &str, message: &str) -> (r: ApiError)
        ensures
            r.error@ == error@,
            r.message@ == message@,
    {
        ApiError { error: error.to_owned(), message: message.to_owned() }
    }

    pub fn validation_error(message: &str) -> (r: ApiError)
        ensures
            r.error@ == "validation_failed"@,
            r.message@ == message@,
    {
        ApiError::new("validation_failed", message)
    }

    pub fn bad_request(message: &str) -> (r: ApiError)
        ensures
            r.error@ == "bad_request"@,
            r.message@ == message@,
    {
        ApiError::new("bad_request", message)
    }

    pub fn not_found(message: &str) -> (r: ApiError)
        ensures
            r.error@ == "not_found"@,
            r.message@ == message@,
    {
        ApiError::new("not_found", message)
    }

    pub fn internal_error(message: &str) -> (r: ApiError)
        ensures
            r.error@ == "internal_error"@,
            r.message@ == message@,
    {
        ApiError::new("internal_error", message)
    }
}

/// The body a creation request must satisfy before it is handed to the
/// store: a non-empty target.
pub fn validate_create_job_request(request: &CreateJobRequest) -> (r: Result<(), ApiError>)
    ensures
        r is Ok <==> request.target@.len() > 0,
        r matches Err(e) ==> e.error@ == "validation_failed"@ && e.message@
            == "target must not be empty"@,
{
    if request.target.as_str().unicode_len() == 0 {
        Err(ApiError::validation_error("target must not be empty"))
    } else {
        Ok(())
    }
}

/// The status code and body for a failed creation: a rejected input answers
/// 400, anything else answers 500 with a generic message.
pub fn create_job_error_response(e: &TempusError) -> (r: (u16, ApiError))
    ensures
        e matches TempusError::Validation(m) ==> r.0 == 400 && r.1.error@ == "bad_request"@
            && r.1.message@ == m@,
        !(e is Validation) ==> r.0 == 500 && r.1.error@ == "internal_error"@ && r.1.message@
            == "Failed to create job"@,
{
    match e {
        TempusError::Validation(m) => (400, ApiError::bad_request(m.as_str())),
        _ => (500, ApiError::internal_error("Failed to create job")),
    }
}

/// The status code and body for a failed cancellation: a job not found — or
/// already processed — answers 404, anything else answers 500.
pub fn delete_job_error_response(e: &TempusError) -> (r: (u16, ApiError))
    ensures
        e matches TempusError::Validation(m) ==> r.0 == 404 && r.1.error@ == "not_found"@
            && r.1.message@ == m@,
        !(e is Validation) ==> r.0 == 500 && r.1.error@ == "internal_error"@ && r.1.message@
            == "Failed to delete job"@,
{
    match e {
        TempusError::Validation(m) => (404, ApiError::not_found(m.as_str())),
        _ => (500, ApiError::internal_error("Failed to delete job")),
    }
}

/// The status code and body for a failed reschedule: a job not found — or
/// already processed — answers 404, anything else answers 500.
pub fn update_job_time_error_response(e: &TempusError) -> (r: (u16, ApiError))
    ensures
        e matches TempusError::Validation(m) ==> r.0 == 404 && r.1.error@ == "not_found"@
            && r.1.message@ == m@,
        !(e is Validation) ==> r.0 == 500 && r.1.error@ == "internal_error"@ && r.1.message@
            == "Failed to update job"@,
{
    match e {
        TempusError::Validation(m) => (404, ApiError::not_found(m.as_str())),
        _ => (500, ApiError::internal_error("Failed to update job")),
    }
}

} // verus!
