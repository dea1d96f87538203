//! Service-level error kinds and their wire mapping: HTTP status, a stable
//! error code, and a human-readable message.

use vstd::prelude::*;
use vstd::string::StringExecFns;

verus! {

/// The error kinds a service reports to its callers.
pub enum ApiError {
    NotFound,
    Unauthorized,
    Forbidden,
    BadRequest(String),
    Conflict(String),
    Internal,
}

impl ApiError {
    /// The HTTP status code this error maps to.
    pub fn status_code(&self) -> (r: u16)
        ensures
            r == match self {
                ApiError::NotFound => 404u16,
                ApiError::Unauthorized => 401u16,
                ApiError::Forbidden => 403u16,
                ApiError::BadRequest(_) => 400u16,
                ApiError::Conflict(_) => 409u16,
                ApiError::Internal => 500u16,
            },
    {
        match self {
            ApiError::NotFound => 404,
            ApiError::Unauthorized => 401,
            ApiError::Forbidden => 403,
            ApiError::BadRequest(_) => 400,
            ApiError::Conflict(_) => 409,
            ApiError::Internal => 500,
        }
    }

    /// The stable machine-readable code this error maps to.
    pub fn error_code(&self) -> (r: String)
        ensures
            r@ == match self {
                ApiError::NotFound => "NOT_FOUND"@,
                ApiError::Unauthorized => "UNAUTHORIZED"@,
                ApiError::Forbidden => "FORBIDDEN"@,
                ApiError::BadRequest(_) => "BAD_REQUEST"@,
                ApiError::Conflict(_) => "CONFLICT"@,
                ApiError::Internal => "INTERNAL"@,
            },
    {
        match self {
            ApiError::NotFound => String::from_str("NOT_FOUND"),
            ApiError::Unauthorized => String::from_str("UNAUTHORIZED"),
            ApiError::Forbidden => String::from_str("FORBIDDEN"),
            ApiError::BadRequest(_) => String::from_str("BAD_REQUEST"),
            ApiError::Conflict(_) => String::from_str("CONFLICT"),
            ApiError::Internal => String::from_str("INTERNAL"),
        }
    }

    /// The human-readable message this error maps to: the carried text for
    /// the request-shaped errors, a fixed phrase for the rest.
    pub fn message(&self) -> (r: String)
        ensures
            r@ == match self {
                ApiError::NotFound => "not found"@,
                ApiError::Unauthorized => "unauthorized"@,
                ApiError::Forbidden => "forbidden"@,
                ApiError::BadRequest(m) => m@,
                ApiError::Conflict(m) => m@,
                ApiError::Internal => "internal error"@,
            },
    {
        match self {
            ApiError::NotFound => String::from_str("not found"),
            ApiError::Unauthorized => String::from_str("unauthorized"),
            ApiError::Forbidden => String::from_str("forbidden"),
            ApiError::BadRequest(m) => m.clone(),
            ApiError::Conflict(m) => m.clone(),
            ApiError::Internal => String::from_str("internal error"),
        }
    }
}

} // verus!
