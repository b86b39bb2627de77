//! API errors and their outward codes.

use vstd::prelude::*;

verus! {

/// Main API error type.
#[derive(Debug)]
pub enum ApiError {
    /// Validation error (400)
    ValidationError(String),
    /// Bad request (400)
    BadRequest(String),
    /// Invalid URL (400)
    InvalidUrl(String),
    /// Invalid selector (400)
    InvalidSelector(String),
    /// Missing required field (400)
    MissingField(String),
    /// Unauthorized (401)
    Unauthorized(String),
    /// Rate limited (429)
    RateLimited(String),
    /// Not found (404)
    NotFound(String),
    /// Internal server error (500)
    InternalError(String),
    /// Service unavailable (503)
    ServiceUnavailable(String),
    /// Timeout (504)
    Timeout(String),
}

/// The HTTP status of each error.
pub open spec fn api_status(e: ApiError) -> u16 {
    match e {
        ApiError::ValidationError(_) | ApiError::BadRequest(_) | ApiError::InvalidUrl(_)
        | ApiError::InvalidSelector(_) | ApiError::MissingField(_) => 400,
        ApiError::Unauthorized(_) => 401,
        ApiError::RateLimited(_) => 429,
        ApiError::NotFound(_) => 404,
        ApiError::InternalError(_) => 500,
        ApiError::ServiceUnavailable(_) => 503,
        ApiError::Timeout(_) => 504,
    }
}

/// The code string of each error.
pub open spec fn api_code(e: ApiError) -> Seq<char> {
    match e {
        ApiError::ValidationError(_) => "VALIDATION_ERROR"@,
        ApiError::BadRequest(_) => "BAD_REQUEST"@,
        ApiError::InvalidUrl(_) => "INVALID_URL"@,
        ApiError::InvalidSelector(_) => "INVALID_SELECTOR"@,
        ApiError::MissingField(_) => "MISSING_FIELD"@,
        ApiError::Unauthorized(_) => "UNAUTHORIZED"@,
        ApiError::RateLimited(_) => "RATE_LIMITED"@,
        ApiError::NotFound(_) => "NOT_FOUND"@,
        ApiError::InternalError(_) => "INTERNAL_ERROR"@,
        ApiError::ServiceUnavailable(_) => "SERVICE_UNAVAILABLE"@,
        ApiError::Timeout(_) => "TIMEOUT"@,
    }
}

impl ApiError {
    /// The HTTP status code for this error.
    pub fn status(&self) -> (r: u16)
        ensures
            r == api_status(*self),
    {
        match self {
            ApiError::ValidationError(_) => 400,
            ApiError::BadRequest(_) => 400,
            ApiError::InvalidUrl(_) => 400,
            ApiError::InvalidSelector(_) => 400,
            ApiError::MissingField(_) => 400,
            ApiError::Unauthorized(_) => 401,
            ApiError::RateLimited(_) => 429,
            ApiError::NotFound(_) => 404,
            ApiError::InternalError(_) => 500,
            ApiError::ServiceUnavailable(_) => 503,
            ApiError::Timeout(_) => 504,
        }
    }

    /// The error code string.
    pub fn error_code(&self) -> (r: &'static str)
        ensures
            r@ == api_code(*self),
    {
        match self {
            ApiError::ValidationError(_) => "VALIDATION_ERROR",
            ApiError::BadRequest(_) => "BAD_REQUEST",
            ApiError::InvalidUrl(_) => "INVALID_URL",
            ApiError::InvalidSelector(_) => "INVALID_SELECTOR",
            ApiError::MissingField(_) => "MISSING_FIELD",
            ApiError::Unauthorized(_) => "UNAUTHORIZED",
            ApiError::RateLimited(_) => "RATE_LIMITED",
            ApiError::NotFound(_) => "NOT_FOUND",
            ApiError::InternalError(_) => "INTERNAL_ERROR",
            ApiError::ServiceUnavailable(_) => "SERVICE_UNAVAILABLE",
            ApiError::Timeout(_) => "TIMEOUT",
        }
    }
}

} // verus!
