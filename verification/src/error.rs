//! The closed error type the core reports: validation failures, conflicts,
//! and flattened upstream failures. Transport status codes are derived at the
//! boundary from `status_code`/`message`.

use vstd::prelude::*;

verus! {

/// Spec-level shape of an `AppError`.
pub enum AppErrorV {
    BadRequest(Seq<char>),
    Unauthorized,
    Conflict(Seq<char>),
    NotFound,
    Internal(Seq<char>),
}

/// Common error cases surfaced to callers of the core.
#[derive(Debug)]
pub enum AppError {
    BadRequest(String),
    Unauthorized,
    Conflict(String),
    NotFound,
    Internal(String),
}

impl DeepView for AppError {
    type V = AppErrorV;

    open spec fn deep_view(&self) -> AppErrorV {
        match self {
            AppError::BadRequest(m) => AppErrorV::BadRequest(m@),
            AppError::Unauthorized => AppErrorV::Unauthorized,
            AppError::Conflict(m) => AppErrorV::Conflict(m@),
            AppError::NotFound => AppErrorV::NotFound,
            AppError::Internal(m) => AppErrorV::Internal(m@),
        }
    }
}

/// JSON-shaped error payload handed to the transport layer.
pub struct ErrorResponseBody {
    pub error: String,
}

impl AppError {
    /// Constructor for a validation rejection.
    pub fn bad_request(msg: &str) -> (r: Self)
        ensures
            r.deep_view() == AppErrorV::BadRequest(msg@),
    {
        AppError::BadRequest(String::from_str(msg))
    }

    /// Constructor for a conflicting-resource rejection.
    pub fn conflict(msg: &str) -> (r: Self)
        ensures
            r.deep_view() == AppErrorV::Conflict(msg@),
    {
        AppError::Conflict(String::from_str(msg))
    }

    /// Wrap an upstream failure, keeping its rendered detail for logging.
    pub fn internal(msg: &str) -> (r: Self)
        ensures
            r.deep_view() == AppErrorV::Internal(msg@),
    {
        AppError::Internal(String::from_str(msg))
    }

    /// Wrap an already-rendered upstream failure report.
    pub fn internal_anyhow(msg: String) -> (r: Self)
        ensures
            r.deep_view() == AppErrorV::Internal(msg@),
    {
        AppError::Internal(msg)
    }

    /// The HTTP status this error maps to at the boundary.
    pub fn status_code(&self) -> (r: u16)
        ensures
            r == spec_status_code(self.deep_view()),
    {
        match self {
            AppError::BadRequest(m) => 400,
            AppError::Unauthorized => 401,
            AppError::Conflict(m) => 409,
            AppError::NotFound => 404,
            AppError::Internal(m) => 500,
        }
    }

    /// The message shown to the caller. Upstream detail is deliberately
    /// flattened to a generic text.
    pub fn message(&self) -> (r: String)
        ensures
            r@ == spec_error_message(self.deep_view()),
    {
        match self {
            AppError::BadRequest(m) => m.clone(),
            AppError::Unauthorized => String::from_str("unauthorized"),
            AppError::Conflict(m) => m.clone(),
            AppError::NotFound => String::from_str("not found"),
            AppError::Internal(m) => String::from_str("internal server error"),
        }
    }
}

/// The status code for each error case.
pub open spec fn spec_status_code(e: AppErrorV) -> u16 {
    match e {
        AppErrorV::BadRequest(m) => 400,
        AppErrorV::Unauthorized => 401,
        AppErrorV::Conflict(m) => 409,
        AppErrorV::NotFound => 404,
        AppErrorV::Internal(m) => 500,
    }
}

/// The caller-visible message for each error case: precise for validation and
/// conflict errors, generic for upstream failures.
pub open spec fn spec_error_message(e: AppErrorV) -> Seq<char> {
    match e {
        AppErrorV::BadRequest(m) => m,
        AppErrorV::Unauthorized => "unauthorized"@,
        AppErrorV::Conflict(m) => m,
        AppErrorV::NotFound => "not found"@,
        AppErrorV::Internal(m) => "internal server error"@,
    }
}

} // verus!
