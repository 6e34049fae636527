//! The gateway's error type and what a caller gets to see of it.

use vstd::prelude::*;

verus! {

/// Why a call failed.
///
/// `BadRequest` covers everything the caller got wrong: a request that breaks
/// the protocol rules, a missing or malformed authorization header, an unknown
/// credential, a bad or expired session token. Its message goes back to the
/// caller. `Internal` covers upstream, translation and storage failures; its
/// message is for the server's own log and never leaves the process.
#[derive(Debug, Clone, PartialEq, Eq)]
pub enum AppError {
    Internal(String),
    BadRequest(String),
}

/// An [`AppError`] with its message as a sequence of characters.
pub enum AppErrorView {
    Internal(Seq<char>),
    BadRequest(Seq<char>),
}

impl View for AppError {
    type V = AppErrorView;

    open spec fn view(&self) -> AppErrorView {
        match self {
            AppError::Internal(detail) => AppErrorView::Internal(detail@),
            AppError::BadRequest(message) => AppErrorView::BadRequest(message@),
        }
    }
}

/// The HTTP status that answers an error: 400 for the caller's mistakes, 500
/// for everything else.
pub open spec fn status_of(error: AppErrorView) -> int {
    match error {
        AppErrorView::Internal(_) => 500,
        AppErrorView::BadRequest(_) => 400,
    }
}

/// The message put into the response body: the error's own message for a bad
/// request, a fixed generic sentence otherwise.
pub open spec fn message_of(error: AppErrorView) -> Seq<char> {
    match error {
        AppErrorView::Internal(_) => "Internal server error"@,
        AppErrorView::BadRequest(message) => message,
    }
}

/// An executable result says the same as a result over views: both succeed
/// with the same value, or both fail with the same error.
pub open spec fn agrees<T: View>(result: Result<T, AppError>, expected: Result<T::V, AppErrorView>) -> bool {
    match (result, expected) {
        (Ok(value), Ok(wanted)) => value@ == wanted,
        (Err(error), Err(wanted)) => error@ == wanted,
        _ => false,
    }
}

impl AppError {
    /// A bad-request error carrying `message`.
    pub fn bad_request(message: &str) -> (error: AppError)
        ensures
            error@ == AppErrorView::BadRequest(message@),
    {
        AppError::BadRequest(message.to_string())
    }

    /// An internal error carrying `detail`.
    pub fn internal(detail: &str) -> (error: AppError)
        ensures
            error@ == AppErrorView::Internal(detail@),
    {
        AppError::Internal(detail.to_string())
    }

    /// The HTTP status code of the response for this error.
    pub fn status_code(&self) -> (code: u16)
        ensures
            code == status_of(self@),
    {
        match self {
            AppError::Internal(_) => 500,
            AppError::BadRequest(_) => 400,
        }
    }

    /// The text of the `error` field in the response body. The detail of an
    /// internal error is never part of it.
    pub fn response_message(&self) -> (message: String)
        ensures
            message@ == message_of(self@),
    {
        match self {
            AppError::Internal(_) => "Internal server error".to_string(),
            AppError::BadRequest(message) => message.clone(),
        }
    }
}

} // verus!
