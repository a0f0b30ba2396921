//! Errors of the bridge.
use vstd::prelude::*;
use vstd::string::*;

use crate::text::{contains_str, seq_contains_sub};

verus! {

#[derive(Debug, Clone)]
pub enum BridgeError {
    Platform { platform: String, message: String },
    Matrix(String),
    Config(String),
    Store(String),
    Http(String),
    Auth(String),
    NotFound(String),
    Serialization(String),
    Validation(String),
    Internal(String),
}

/// `prefix` followed by `detail`.
pub open spec fn labelled(prefix: Seq<char>, detail: Seq<char>) -> Seq<char> {
    prefix + detail
}

impl BridgeError {
    /// The text of an error: a label for its kind, then its details.
    pub open spec fn spec_message(&self) -> Seq<char> {
        match self {
            BridgeError::Platform { platform, message } => labelled(
                "platform error: "@,
                platform@ + ": "@ + message@,
            ),
            BridgeError::Matrix(m) => labelled("matrix error: "@, m@),
            BridgeError::Config(m) => labelled("config error: "@, m@),
            BridgeError::Store(m) => labelled("store error: "@, m@),
            BridgeError::Http(m) => labelled("http error: "@, m@),
            BridgeError::Auth(m) => labelled("auth error: "@, m@),
            BridgeError::NotFound(m) => labelled("not found: "@, m@),
            BridgeError::Serialization(m) => labelled("serialization error: "@, m@),
            BridgeError::Validation(m) => labelled("validation error: "@, m@),
            BridgeError::Internal(m) => labelled("internal error: "@, m@),
        }
    }

    /// The text of the error, as it is displayed.
    pub fn message(&self) -> (r: String)
        ensures
            r@ == self.spec_message(),
    {
        let (prefix, detail): (&str, &String) = match self {
            BridgeError::Platform { platform, message } => {
                let mut s = String::from_str("platform error: ");
                s.append(platform.as_str());
                s.append(": ");
                s.append(message.as_str());
                return s;
            },
            BridgeError::Matrix(m) => ("matrix error: ", m),
            BridgeError::Config(m) => ("config error: ", m),
            BridgeError::Store(m) => ("store error: ", m),
            BridgeError::Http(m) => ("http error: ", m),
            BridgeError::Auth(m) => ("auth error: ", m),
            BridgeError::NotFound(m) => ("not found: ", m),
            BridgeError::Serialization(m) => ("serialization error: ", m),
            BridgeError::Validation(m) => ("validation error: ", m),
            BridgeError::Internal(m) => ("internal error: ", m),
        };
        let mut s = String::from_str(prefix);
        s.append(detail.as_str());
        s
    }

    /// The text a Bridge API client is shown for a failed request: the
    /// details of validation and not-found errors, `internal error` for
    /// everything else.
    pub fn public_message(&self) -> (r: String)
        ensures
            r@ == (match self {
                BridgeError::Validation(m) => m@,
                BridgeError::NotFound(m) => m@,
                _ => "internal error"@,
            }),
    {
        match self {
            BridgeError::Validation(m) => m.clone(),
            BridgeError::NotFound(m) => m.clone(),
            _ => String::from_str("internal error"),
        }
    }
}

/// The marks of a transient failure in an error text: time-outs, connection
/// and DNS errors, and the 500, 502, 503 and 504 statuses.
pub open spec fn spec_is_retryable(msg: Seq<char>) -> bool {
    ||| seq_contains_sub(msg, "timed out"@)
    ||| seq_contains_sub(msg, "connection"@)
    ||| seq_contains_sub(msg, "(500)"@)
    ||| seq_contains_sub(msg, "(502)"@)
    ||| seq_contains_sub(msg, "(503)"@)
    ||| seq_contains_sub(msg, "(504)"@)
    ||| seq_contains_sub(msg, "dns error"@)
}

/// Whether an error, given by its text, is likely transient and worth
/// retrying.
pub fn is_retryable(msg: &str) -> (r: bool)
    ensures
        r == spec_is_retryable(msg@),
{
    contains_str(msg, "timed out") || contains_str(msg, "connection") || contains_str(msg, "(500)")
        || contains_str(msg, "(502)") || contains_str(msg, "(503)") || contains_str(msg, "(504)")
        || contains_str(msg, "dns error")
}


/// How many times a transient failure of a key upload is tried.
pub const MAX_RETRIES: u32 = 3;

/// Whether to try again after attempt `attempt` (counted from 0) failed
/// with this error text, and after how many seconds: transient errors are
/// retried with a delay of 2^attempt seconds until `MAX_RETRIES` attempts
/// were made.
pub fn retry_delay(attempt: u32, error: &str) -> (r: Option<u64>)
    ensures
        match r {
            Some(d) => attempt + 1 < MAX_RETRIES && spec_is_retryable(error@) && d == vstd::arithmetic::power2::pow2(attempt as nat),
            None => !(attempt + 1 < MAX_RETRIES && spec_is_retryable(error@)),
        },
{
    if attempt < MAX_RETRIES - 1 && is_retryable(error) {
        proof {
            vstd::arithmetic::power2::lemma2_to64();
        }
        let d: u64 = if attempt == 0 {
            1
        } else if attempt == 1 {
            2
        } else {
            4
        };
        Some(d)
    } else {
        None
    }
}

} // verus!
