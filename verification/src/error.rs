//! The closed error taxonomy for the remote API, and the retryability rule.

use vstd::prelude::*;

verus! {

/// Every way a request to the remote platform API can fail.
#[derive(Debug, Clone)]
pub enum SteamApiError {
    PrivateProfile,
    RateLimited,
    Timeout,
    NetworkError(String),
    InvalidApiKey,
    PlayerNotFound,
    ApiError { status: u16, message: String },
}

/// Which classifications may be retried: rate limiting, timeouts, transport
/// failures, and server-side (5xx) API errors. Everything else is terminal.
pub open spec fn spec_is_retryable(e: SteamApiError) -> bool {
    match e {
        SteamApiError::RateLimited => true,
        SteamApiError::Timeout => true,
        SteamApiError::NetworkError(_) => true,
        SteamApiError::ApiError { status, message: _ } => 500 <= status < 600,
        _ => false,
    }
}

impl SteamApiError {
    pub fn is_retryable(&self) -> (r: bool)
        ensures
            r == spec_is_retryable(*self),
    {
        match self {
            SteamApiError::RateLimited => true,
            SteamApiError::Timeout => true,
            SteamApiError::NetworkError(_) => true,
            SteamApiError::ApiError { status, message: _ } => 500 <= *status && *status < 600,
            _ => false,
        }
    }
}

/// Outcome of classifying a response body that could not be accepted:
/// either a member of the closed taxonomy, or a structural parse failure.
#[derive(Debug, Clone)]
pub enum ResponseError {
    Api(SteamApiError),
    ParseFailed,
}

} // verus!
