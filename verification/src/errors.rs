//! The closed error taxonomy for service calls.

use vstd::prelude::*;
use crate::text::{dec_digits, dec_string_u32};
use vstd::string::StringExecFns;

verus! {

/// Every way a call can fail.  Each kind carries a human-readable message;
/// `Api` additionally carries the HTTP status code.
#[derive(Debug)]
pub enum QRNGError {
    /// The credential was rejected (HTTP 401).
    Authentication(String),
    /// The request was throttled (HTTP 429).
    RateLimit(String),
    /// The usage allowance is exhausted (HTTP 402).
    QuotaExceeded(String),
    /// A transport-level failure, wrapping the transport's own message.
    Network(String),
    /// The response body did not parse into the expected shape.
    Decode(String),
    /// Any other non-success status, with a best-effort message.
    Api { message: String, status: u16 },
}

/// The `Authentication` error with its fixed message.
pub open spec fn is_authentication_error(e: QRNGError) -> bool {
    e matches QRNGError::Authentication(m) && m@ == "Invalid API key"@
}

/// The `RateLimit` error with its fixed message.
pub open spec fn is_rate_limit_error(e: QRNGError) -> bool {
    e matches QRNGError::RateLimit(m) && m@ == "Rate limit exceeded"@
}

/// The `QuotaExceeded` error with its fixed message.
pub open spec fn is_quota_error(e: QRNGError) -> bool {
    e matches QRNGError::QuotaExceeded(m) && m@ == "Monthly quota exceeded"@
}

/// An `Api` error carrying exactly this message and status.
pub open spec fn is_api_error(e: QRNGError, message: Seq<char>, status: u16) -> bool {
    e matches QRNGError::Api { message: m, status: s } && m@ == message && s == status
}

/// The display text of an error.
pub open spec fn error_text(e: QRNGError) -> Seq<char> {
    match e {
        QRNGError::Authentication(m) => "Authentication error: "@ + m@,
        QRNGError::RateLimit(m) => "Rate limit: "@ + m@,
        QRNGError::QuotaExceeded(m) => "Quota exceeded: "@ + m@,
        QRNGError::Network(m) => "Network error: "@ + m@,
        QRNGError::Decode(m) => "JSON error: "@ + m@,
        QRNGError::Api { message, status } => "API error ("@ + dec_digits(status as nat) + "): "@
            + message@,
    }
}

impl QRNGError {
    /// The display text of this error, as `error_text` gives it.
    pub fn message(&self) -> (r: String)
        ensures
            r@ == error_text(*self),
    {
        match self {
            QRNGError::Authentication(m) => String::from_str("Authentication error: ").concat(
                m.as_str(),
            ),
            QRNGError::RateLimit(m) => String::from_str("Rate limit: ").concat(m.as_str()),
            QRNGError::QuotaExceeded(m) => String::from_str("Quota exceeded: ").concat(m.as_str()),
            QRNGError::Network(m) => String::from_str("Network error: ").concat(m.as_str()),
            QRNGError::Decode(m) => String::from_str("JSON error: ").concat(m.as_str()),
            QRNGError::Api { message, status } => {
                let r = String::from_str("API error (").concat(
                    dec_string_u32(*status as u32).as_str(),
                ).concat("): ").concat(message.as_str());
                assert(r@ =~= error_text(*self));
                r
            },
        }
    }
}

} // verus!
