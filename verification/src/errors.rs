//! Errors of the use cases and of the HTTP layer, and how one maps to the
//! other.

use vstd::prelude::*;
use crate::text::{chars_of, push_all, string_of};

verus! {

/// Failure of a use case.
#[derive(Clone, Debug, PartialEq, Eq)]
pub enum AppError {
    /// A storage failure, with its message.
    Repo(String),
    /// The resource does not exist.
    NotFound,
    /// The input was refused; the message says why.
    Validation(String),
    /// Any other failure.
    Other(String),
}

/// Failure reported by the HTTP layer.
#[derive(Clone, Debug, PartialEq, Eq)]
pub enum ApiError {
    BadRequest(String),
    NotFound(String),
    TooManyRequests(String),
    Internal(String),
}

/// The text of a use-case failure.
pub open spec fn app_error_text(e: AppError) -> Seq<char> {
    match e {
        AppError::Repo(m) => m@,
        AppError::NotFound => "ressource introuvable"@,
        AppError::Validation(m) => m@,
        AppError::Other(m) => "autre : "@ + m@,
    }
}

/// The HTTP status and message a use-case failure is reported with.
pub open spec fn api_error_of(e: AppError) -> (u16, Seq<char>) {
    match e {
        AppError::NotFound => (404, "ressource introuvable"@),
        AppError::Validation(m) => (400, m@),
        _ => (500, app_error_text(e)),
    }
}

/// A spec-level view of an `ApiError` with its message as characters.
pub open spec fn api_error_view(e: ApiError) -> (u16, Seq<char>) {
    match e {
        ApiError::BadRequest(m) => (400, m@),
        ApiError::NotFound(m) => (404, m@),
        ApiError::TooManyRequests(m) => (429, m@),
        ApiError::Internal(m) => (500, m@),
    }
}

impl AppError {
    /// The text of this failure.
    pub fn message(&self) -> (r: String)
        ensures
            r@ == app_error_text(*self),
    {
        match self {
            AppError::Repo(m) => m.clone(),
            AppError::NotFound => "ressource introuvable".to_owned(),
            AppError::Validation(m) => m.clone(),
            AppError::Other(m) => {
                let mut v = chars_of("autre : ");
                let c = chars_of(m.as_str());
                push_all(&mut v, &c);
                string_of(&v)
            },
        }
    }
}

impl ApiError {
    /// The HTTP error a use-case failure is reported as: a missing resource
    /// is a 404, a refused input a 400, anything else a 500.
    pub fn from_app_error(e: AppError) -> (r: ApiError)
        ensures
            api_error_view(r) == api_error_of(e),
    {
        match e {
            AppError::NotFound => ApiError::NotFound("ressource introuvable".to_owned()),
            AppError::Validation(m) => ApiError::BadRequest(m),
            other => ApiError::Internal(other.message()),
        }
    }

    /// The HTTP status and the message of the response body.
    pub fn status_and_message(self) -> (r: (u16, String))
        ensures
            (r.0, r.1@) == api_error_view(self),
    {
        match self {
            ApiError::BadRequest(m) => (400, m),
            ApiError::NotFound(m) => (404, m),
            ApiError::TooManyRequests(m) => (429, m),
            ApiError::Internal(m) => (500, m),
        }
    }
}

} // verus!
