//! The error type of every fallible operation.

use vstd::prelude::*;
use vstd::string::*;

verus! {

/// What can go wrong in an operation.
///
/// `NotFound`, `Conflict`, `InvalidState` and `BadRequest` are for the
/// caller to correct: an unknown id, a slug that is taken, an operation
/// that the current state of an item does not allow (such as restoring an
/// item that is not trashed), and a request that is malformed.
/// `StorageFailure` and `Internal` are failures of the storage layer or
/// the server; their text is never shown to the caller.
#[derive(Debug, Clone, PartialEq, Eq)]
pub enum AppError {
    NotFound,
    Unauthorized,
    Forbidden,
    BadRequest(String),
    Conflict(String),
    InvalidState(String),
    StorageFailure(String),
    Internal(String),
}

pub type AppResult<T> = Result<T, AppError>;

/// View of an [`AppError`].
pub ghost enum AppErrorView {
    NotFound,
    Unauthorized,
    Forbidden,
    BadRequest(Seq<char>),
    Conflict(Seq<char>),
    InvalidState(Seq<char>),
    StorageFailure(Seq<char>),
    Internal(Seq<char>),
}

impl View for AppError {
    type V = AppErrorView;

    open spec fn view(&self) -> AppErrorView {
        match self {
            AppError::NotFound => AppErrorView::NotFound,
            AppError::Unauthorized => AppErrorView::Unauthorized,
            AppError::Forbidden => AppErrorView::Forbidden,
            AppError::BadRequest(m) => AppErrorView::BadRequest(m@),
            AppError::Conflict(m) => AppErrorView::Conflict(m@),
            AppError::InvalidState(m) => AppErrorView::InvalidState(m@),
            AppError::StorageFailure(m) => AppErrorView::StorageFailure(m@),
            AppError::Internal(m) => AppErrorView::Internal(m@),
        }
    }
}

/// HTTP status code that stands for an error.
pub open spec fn status_of(e: AppErrorView) -> u16 {
    match e {
        AppErrorView::NotFound => 404,
        AppErrorView::Unauthorized => 401,
        AppErrorView::Forbidden => 403,
        AppErrorView::BadRequest(_) => 400,
        AppErrorView::Conflict(_) => 409,
        AppErrorView::InvalidState(_) => 400,
        AppErrorView::StorageFailure(_) => 500,
        AppErrorView::Internal(_) => 500,
    }
}

/// Full description of an error, as written to the server's log.
pub open spec fn description_of(e: AppErrorView) -> Seq<char> {
    match e {
        AppErrorView::NotFound => "Not found"@,
        AppErrorView::Unauthorized => "Unauthorized"@,
        AppErrorView::Forbidden => "Forbidden"@,
        AppErrorView::BadRequest(m) => "Bad request: "@ + m,
        AppErrorView::Conflict(m) => "Conflict: "@ + m,
        AppErrorView::InvalidState(m) => "Invalid state: "@ + m,
        AppErrorView::StorageFailure(m) => "Database error: "@ + m,
        AppErrorView::Internal(m) => "Internal error: "@ + m,
    }
}

/// Message shown to the caller: the reason for an error the caller can
/// correct, and a fixed text for a failure of storage or server.
pub open spec fn public_message_of(e: AppErrorView) -> Seq<char> {
    match e {
        AppErrorView::NotFound => "Not found"@,
        AppErrorView::Unauthorized => "Unauthorized"@,
        AppErrorView::Forbidden => "Forbidden"@,
        AppErrorView::BadRequest(m) => m,
        AppErrorView::Conflict(m) => m,
        AppErrorView::InvalidState(m) => m,
        AppErrorView::StorageFailure(_) => "Internal server error"@,
        AppErrorView::Internal(_) => "Internal server error"@,
    }
}

impl AppError {
    /// A copy of this error.
    pub fn duplicate(&self) -> (r: AppError)
        ensures
            r@ == self@,
    {
        match self {
            AppError::NotFound => AppError::NotFound,
            AppError::Unauthorized => AppError::Unauthorized,
            AppError::Forbidden => AppError::Forbidden,
            AppError::BadRequest(m) => AppError::BadRequest(m.clone()),
            AppError::Conflict(m) => AppError::Conflict(m.clone()),
            AppError::InvalidState(m) => AppError::InvalidState(m.clone()),
            AppError::StorageFailure(m) => AppError::StorageFailure(m.clone()),
            AppError::Internal(m) => AppError::Internal(m.clone()),
        }
    }

    /// The HTTP status code of the response that reports this error.
    pub fn status_code(&self) -> (code: u16)
        ensures
            code == status_of(self@),
    {
        match self {
            AppError::NotFound => 404,
            AppError::Unauthorized => 401,
            AppError::Forbidden => 403,
            AppError::BadRequest(_) => 400,
            AppError::Conflict(_) => 409,
            AppError::InvalidState(_) => 400,
            AppError::StorageFailure(_) => 500,
            AppError::Internal(_) => 500,
        }
    }

    /// The full description of this error, detail included.
    pub fn description(&self) -> (text: String)
        ensures
            text@ == description_of(self@),
    {
        match self {
            AppError::NotFound => String::from_str("Not found"),
            AppError::Unauthorized => String::from_str("Unauthorized"),
            AppError::Forbidden => String::from_str("Forbidden"),
            AppError::BadRequest(m) => String::from_str("Bad request: ").concat(m.as_str()),
            AppError::Conflict(m) => String::from_str("Conflict: ").concat(m.as_str()),
            AppError::InvalidState(m) => String::from_str("Invalid state: ").concat(m.as_str()),
            AppError::StorageFailure(m) => String::from_str("Database error: ").concat(m.as_str()),
            AppError::Internal(m) => String::from_str("Internal error: ").concat(m.as_str()),
        }
    }

    /// The message of the response that reports this error. Storage and
    /// server failures are reported without their detail.
    pub fn public_message(&self) -> (text: String)
        ensures
            text@ == public_message_of(self@),
    {
        match self {
            AppError::NotFound => String::from_str("Not found"),
            AppError::Unauthorized => String::from_str("Unauthorized"),
            AppError::Forbidden => String::from_str("Forbidden"),
            AppError::BadRequest(m) => m.clone(),
            AppError::Conflict(m) => m.clone(),
            AppError::InvalidState(m) => m.clone(),
            AppError::StorageFailure(_) => String::from_str("Internal server error"),
            AppError::Internal(_) => String::from_str("Internal server error"),
        }
    }
}

} // verus!
