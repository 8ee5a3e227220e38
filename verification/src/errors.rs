//! The closed error taxonomy of the crate.

use vstd::prelude::*;

verus! {

/// Every failure a caller can see, as a closed set of kinds.
///
/// `RequestError` covers transport failures (connection reset, timeout, DNS),
/// `ApiError` a non-2xx upstream status other than 429 or an empty body,
/// `RateLimit` an upstream throttling signal, `ParseError` a payload that did
/// not match the expected schema, `ProviderDisabled` a call on a disabled
/// instance, and `ConfigError` a bad configuration, an unmapped task, or no
/// eligible instance.
#[derive(Debug, Clone, PartialEq, Eq)]
pub enum LlmError {
    RequestError(String),
    ApiError(String),
    RateLimit(String),
    ParseError(String),
    ProviderDisabled(String),
    ConfigError(String),
}

/// Result alias used throughout the crate.
pub type LlmResult<T> = Result<T, LlmError>;

/// The human-readable rendering of an error, prefix plus payload.
pub open spec fn spec_display_message(e: LlmError) -> Seq<char> {
    match e {
        LlmError::RequestError(m) => "Request error: "@ + m@,
        LlmError::ApiError(m) => "API error: "@ + m@,
        LlmError::RateLimit(m) => "Rate limit: "@ + m@,
        LlmError::ParseError(m) => "Parse error: "@ + m@,
        LlmError::ProviderDisabled(m) => "Provider disabled: "@ + m@,
        LlmError::ConfigError(m) => "Configuration error: "@ + m@,
    }
}

impl LlmError {
    /// Is this the throttling signal that asks for backoff on the same
    /// instance rather than failover?
    pub fn is_rate_limit(&self) -> (r: bool)
        ensures
            r == (self is RateLimit),
    {
        match self {
            LlmError::RateLimit(_) => true,
            _ => false,
        }
    }

    /// Render the error as its display string, kind prefix first.
    pub fn display_message(&self) -> (r: String)
        ensures
            r@ == spec_display_message(*self),
    {
        match self {
            LlmError::RequestError(m) => String::from_str("Request error: ").concat(m.as_str()),
            LlmError::ApiError(m) => String::from_str("API error: ").concat(m.as_str()),
            LlmError::RateLimit(m) => String::from_str("Rate limit: ").concat(m.as_str()),
            LlmError::ParseError(m) => String::from_str("Parse error: ").concat(m.as_str()),
            LlmError::ProviderDisabled(m) => String::from_str("Provider disabled: ").concat(
                m.as_str(),
            ),
            LlmError::ConfigError(m) => String::from_str("Configuration error: ").concat(
                m.as_str(),
            ),
        }
    }
}

} // verus!
