//! The error a request can end in, by the HTTP answer it gets.
use vstd::prelude::*;

verus! {

/// An error answered to the caller: each variant carries the detail text.
#[derive(Debug, Clone, PartialEq, Eq)]
pub enum AppError {
    /// 400: the request is malformed.
    BadRequest(String),
    /// 401: the caller's credentials are missing or do not check out.
    Unauthorized(String),
    /// 403: the caller is known but not let in.
    Forbidden(String),
    /// 502: an upstream service failed or answered badly.
    Upstream(String),
    /// 500: something failed on this side.
    Internal(String),
}

/// `e` is the error answered with `status` and detail text `text`.
pub open spec fn error_is(e: AppError, status: u16, text: Seq<char>) -> bool {
    e.status_spec() == status && e.text() == text
}

/// `r` failed with the error answered with `status` and detail text `text`.
pub open spec fn fails_with<T>(r: Result<T, AppError>, status: u16, text: Seq<char>) -> bool {
    r matches Err(e) && error_is(e, status, text)
}

impl AppError {
    /// The detail text of the error.
    pub open spec fn text(&self) -> Seq<char> {
        match self {
            AppError::BadRequest(m) => m@,
            AppError::Unauthorized(m) => m@,
            AppError::Forbidden(m) => m@,
            AppError::Upstream(m) => m@,
            AppError::Internal(m) => m@,
        }
    }

    /// The HTTP status code that answers this error.
    pub open spec fn status_spec(&self) -> u16 {
        match self {
            AppError::BadRequest(_) => 400,
            AppError::Unauthorized(_) => 401,
            AppError::Forbidden(_) => 403,
            AppError::Upstream(_) => 502,
            AppError::Internal(_) => 500,
        }
    }

    /// The detail text of the error.
    pub fn message(&self) -> (res: String)
        ensures
            res@ == self.text(),
    {
        match self {
            AppError::BadRequest(m) => m.clone(),
            AppError::Unauthorized(m) => m.clone(),
            AppError::Forbidden(m) => m.clone(),
            AppError::Upstream(m) => m.clone(),
            AppError::Internal(m) => m.clone(),
        }
    }

    /// The HTTP status code that answers this error.
    pub fn status_code(&self) -> (res: u16)
        ensures
            res == self.status_spec(),
    {
        match self {
            AppError::BadRequest(_) => 400,
            AppError::Unauthorized(_) => 401,
            AppError::Forbidden(_) => 403,
            AppError::Upstream(_) => 502,
            AppError::Internal(_) => 500,
        }
    }
}

} // verus!
