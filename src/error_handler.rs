use vstd::prelude::*;

use crate::errors::CustomError;

verus! {

/// The outcome of two channels that were both attempted: the first failure, if any.
pub open spec fn first_failure(first: Result<(), CustomError>, second: Result<(), CustomError>) -> Result<(), CustomError> {
    match first {
        Err(e) => Err(e),
        Ok(()) => second,
    }
}

/// The outcome of the standard error path, once the log write and the crash
/// report have both been attempted: the log's failure first, then the report's.
pub fn handle_error(log_result: Result<(), CustomError>, sentry_result: Result<(), CustomError>) -> (r: Result<(), CustomError>)
    ensures
        r == first_failure(log_result, sentry_result),
{
    match log_result {
        Err(e) => Err(e),
        Ok(()) => sentry_result,
    }
}

/// The outcome of the fatal path, once the standard path and the email
/// report have both been attempted.
pub fn handle_fatal_error(standard_result: Result<(), CustomError>, email_result: Result<(), CustomError>) -> (r: Result<(), CustomError>)
    ensures
        r == first_failure(standard_result, email_result),
{
    match standard_result {
        Err(e) => Err(e),
        Ok(()) => email_result,
    }
}

/// A channel failure is never hidden by another channel's success: when the
/// crash report fails after the log write succeeded, the standard path
/// fails with the report's failure, and so does the fatal path whatever the
/// email did.
pub proof fn lemma_failure_surfaces(
    log_result: Result<(), CustomError>,
    sentry_result: Result<(), CustomError>,
    email_result: Result<(), CustomError>,
)
    requires
        log_result is Ok,
        sentry_result is Err,
    ensures
        first_failure(log_result, sentry_result) == sentry_result,
        first_failure(first_failure(log_result, sentry_result), email_result) == sentry_result,
{
}

} // verus!
