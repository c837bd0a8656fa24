//! The executor-side rules the engine itself is responsible for: which HTTP
//! targets are acceptable, which Kafka topic a publish goes to, and the
//! shape of the outcome a worker reports back.
//!
//! The transports themselves — the HTTP POST and the Kafka publish — run
//! outside the library; a worker hands the library one `ExecOutcome` per
//! attempted job.

use vstd::prelude::*;

verus! {

use crate::error::TempusError;
use crate::text::{has_prefix, str_has_prefix};

/// What one delivery attempt came to. Any transport response counts as a
/// delivery, whatever its status code; only a failure to deliver — a
/// network error, a timeout, a broker rejection, a rejected target — is a
/// failure.
#[derive(Debug)]
pub enum ExecOutcome {
    /// An HTTP POST that got a response, with its status code.
    HttpDelivered { status_code: u16 },
    /// A Kafka publish that the broker acknowledged.
    KafkaDelivered,
    /// No delivery; the message says why.
    Failed { message: String },
}

impl ExecOutcome {
    /// A field-for-field copy.
    pub fn duplicate(&self) -> (r: ExecOutcome)
        ensures
            r == *self,
    {
        match self {
            ExecOutcome::HttpDelivered { status_code } => ExecOutcome::HttpDelivered {
                status_code: *status_code,
            },
            ExecOutcome::KafkaDelivered => ExecOutcome::KafkaDelivered,
            ExecOutcome::Failed { message } => ExecOutcome::Failed { message: message.clone() },
        }
    }
}

/// An acceptable HTTP target: non-empty, with the scheme `http` or `https`.
pub open spec fn spec_valid_url(s: Seq<char>) -> bool {
    &&& s.len() > 0
    &&& (has_prefix(s, "http://"@) || has_prefix(s, "https://"@))
}

/// Accepts exactly the targets that `spec_valid_url` allows; the error says
/// whether the target was empty or carried the wrong scheme.
pub fn validate_url(url: &str) -> (r: Result<(), TempusError>)
    ensures
        r is Ok <==> spec_valid_url(url@),
        url@.len() == 0 ==> (r matches Err(TempusError::Validation(m)) && m@
            == "URL cannot be empty"@),
        url@.len() > 0 && !spec_valid_url(url@) ==> (r matches Err(TempusError::Validation(m))
            && m@ == "URL must start with http:// or https://"@),
{
    if url.unicode_len() == 0 {
        return Err(TempusError::Validation("URL cannot be empty".to_owned()));
    }
    if !str_has_prefix(url, "http://") && !str_has_prefix(url, "https://") {
        return Err(TempusError::Validation(
            "URL must start with http:// or https://".to_owned(),
        ));
    }
    Ok(())
}

/// The topic a Kafka publish goes to: the job's target, or the configured
/// default topic when the target is empty.
pub fn resolve_topic(target: &str, default_topic: &str) -> (r: String)
    ensures
        target@.len() == 0 ==> r@ == default_topic@,
        target@.len() > 0 ==> r@ == target@,
{
    if target.unicode_len() == 0 {
        default_topic.to_owned()
    } else {
        target.to_owned()
    }
}

} // verus!
