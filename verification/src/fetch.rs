//! What one download attempt came back with, and what it counts as.

use crate::track::FetchError;
use vstd::prelude::*;

verus! {

/// What one HTTP GET came back with.
#[derive(Clone, Debug, PartialEq, Eq)]
pub enum AttemptReport {
    /// The server answered.
    Response { status: u16, body: Vec<u8> },
    /// No answer came: the request timed out or the connection failed.
    NoResponse,
}

/// The mathematical content of an [`AttemptReport`].
pub enum AttemptReportView {
    Response { status: u16, body: Seq<u8> },
    NoResponse,
}

impl View for AttemptReport {
    type V = AttemptReportView;

    open spec fn view(&self) -> AttemptReportView {
        match self {
            AttemptReport::Response { status, body } => AttemptReportView::Response {
                status: *status,
                body: body@,
            },
            AttemptReport::NoResponse => AttemptReportView::NoResponse,
        }
    }
}

/// A status is a success when it lies in 200..=299.
pub open spec fn is_success_status(status: u16) -> bool {
    200 <= status < 300
}

/// What an attempt counts as: the body of a successful response, an HTTP
/// error for any other response, a transient error where no answer came.
pub open spec fn classified(report: AttemptReportView) -> Result<Seq<u8>, FetchError> {
    match report {
        AttemptReportView::Response { status, body } => if is_success_status(status) {
            Ok(body)
        } else {
            Err(FetchError::Http { status })
        },
        AttemptReportView::NoResponse => Err(FetchError::Transient),
    }
}

/// Asks `reqwest::StatusCode` whether a status is a success.
///
/// `StatusCode::from_u16` accepts the numbers from 100 to 999 and no others;
/// `StatusCode::is_success` holds of an accepted number when it lies in
/// 200..=299. The result is `None` where the number is not accepted.
#[verifier::external_body]
fn status_success(status: u16) -> (success: Option<bool>)
    ensures
        success == (if 100 <= status < 1000 {
            Some(is_success_status(status))
        } else {
            None::<bool>
        }),
{
    match reqwest::StatusCode::from_u16(status) {
        Ok(code) => Some(code.is_success()),
        Err(_) => None,
    }
}

/// Tells whether a status is a success: see [`is_success_status`].
pub fn is_success(status: u16) -> (success: bool)
    ensures
        success == is_success_status(status),
{
    match status_success(status) {
        Some(success) => success,
        None => false,
    }
}

/// Classifies one attempt: see [`classified`].
pub fn classify(report: AttemptReport) -> (result: Result<Vec<u8>, FetchError>)
    ensures
        match result {
            Ok(body) => classified(report@) == Ok::<Seq<u8>, FetchError>(body@),
            Err(error) => classified(report@) == Err::<Seq<u8>, FetchError>(error),
        },
{
    match report {
        AttemptReport::Response { status, body } => if is_success(status) {
            Ok(body)
        } else {
            Err(FetchError::Http { status })
        },
        AttemptReport::NoResponse => Err(FetchError::Transient),
    }
}

} // verus!
