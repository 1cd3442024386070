//! The errors the service answers with, and their HTTP status codes.
use vstd::prelude::*;

verus! {

/// An error answer of the service.
#[derive(Debug, Clone, PartialEq, Eq)]
pub enum AppError {
    /// The upstream price service did not answer.
    BadGateway,
    /// The named thing does not exist.
    NotFound(String),
    /// The request clashes with what exists.
    Conflict(String),
    /// The caller could not be authenticated.
    Unauthorized(String),
    /// The service failed; the text is for the log, not the caller.
    Internal(String),
}

/// The HTTP status of each error.
pub open spec fn status_of(e: AppError) -> u16 {
    match e {
        AppError::BadGateway => 502,
        AppError::NotFound(_) => 404,
        AppError::Conflict(_) => 409,
        AppError::Unauthorized(_) => 401,
        AppError::Internal(_) => 500,
    }
}

/// The text shown to the caller for each error.
pub open spec fn public_message(e: AppError) -> Seq<char> {
    match e {
        AppError::BadGateway => "upstream unavailable"@,
        AppError::NotFound(m) => m@,
        AppError::Conflict(m) => m@,
        AppError::Unauthorized(m) => m@,
        AppError::Internal(_) => "internal server error"@,
    }
}

impl AppError {
    /// The HTTP status code of the answer.
    pub fn status_code(&self) -> (r: u16)
        ensures
            r == status_of(*self),
    {
        match self {
            AppError::BadGateway => 502,
            AppError::NotFound(_) => 404,
            AppError::Conflict(_) => 409,
            AppError::Unauthorized(_) => 401,
            AppError::Internal(_) => 500,
        }
    }

    /// The `error` text of the answer's body.
    pub fn message(&self) -> (r: String)
        ensures
            r@ == public_message(*self),
    {
        match self {
            AppError::BadGateway => String::from_str("upstream unavailable"),
            AppError::NotFound(m) => m.clone(),
            AppError::Conflict(m) => m.clone(),
            AppError::Unauthorized(m) => m.clone(),
            AppError::Internal(_) => String::from_str("internal server error"),
        }
    }
}

} // verus!
