//! Structured error type for chat turns.
//!
//! Every variant carries a stable error code, a retryable flag and a
//! user-facing message.

use vstd::prelude::*;
use crate::text::{decimal_seq, owned, push_str, u64_to_decimal};

verus! {

/// Unified error type for the chat state machine.
#[derive(Debug)]
pub enum ChatError {
    /// DNS, TCP connect, TLS handshake, or connection reset.
    Network { detail: String },
    /// Request timed out before the server responded.
    Timeout { seconds: u64 },
    /// The SSE stream was interrupted.
    StreamDisconnected,
    /// 429 Too Many Requests.
    RateLimited { retry_after_secs: Option<u64> },
    /// 5xx / server overloaded.
    ServerOverloaded,
    /// 400 Bad Request: the request payload was rejected.
    BadRequest { detail: String },
    /// 401 Unauthorized / 403 Forbidden.
    Unauthorized { detail: String },
    /// The model's context window was exceeded.
    ContextExceeded,
    /// Quota or usage limit reached.
    UsageLimitReached { detail: String },
    /// Missing or invalid configuration.
    Config { detail: String },
    /// Session lookup / store failure.
    Session { detail: String },
    /// The model returned a response that could not be parsed.
    MalformedResponse { detail: String },
    /// Unexpected internal error.
    Internal { detail: String },
}

/// The stable error code of each variant.
pub open spec fn code_seq(e: ChatError) -> Seq<char> {
    match e {
        ChatError::Network { .. } => "NETWORK_ERROR"@,
        ChatError::Timeout { .. } => "TIMEOUT"@,
        ChatError::StreamDisconnected => "STREAM_DISCONNECTED"@,
        ChatError::RateLimited { .. } => "RATE_LIMITED"@,
        ChatError::ServerOverloaded => "SERVER_OVERLOADED"@,
        ChatError::BadRequest { .. } => "BAD_REQUEST"@,
        ChatError::Unauthorized { .. } => "UNAUTHORIZED"@,
        ChatError::ContextExceeded => "CONTEXT_EXCEEDED"@,
        ChatError::UsageLimitReached { .. } => "USAGE_LIMIT_REACHED"@,
        ChatError::Config { .. } => "CONFIG_ERROR"@,
        ChatError::Session { .. } => "SESSION_ERROR"@,
        ChatError::MalformedResponse { .. } => "MALFORMED_RESPONSE"@,
        ChatError::Internal { .. } => "INTERNAL_ERROR"@,
    }
}

/// Transport and overload errors are worth retrying; the rest are not.
pub open spec fn retryable(e: ChatError) -> bool {
    match e {
        ChatError::Network { .. } | ChatError::Timeout { .. } | ChatError::StreamDisconnected
        | ChatError::RateLimited { .. } | ChatError::ServerOverloaded => true,
        _ => false,
    }
}

/// The user-facing message of each variant.
pub open spec fn message_seq(e: ChatError) -> Seq<char> {
    match e {
        ChatError::Network { detail } => "Network error: "@ + detail@
            + ". Check your connection and try again."@,
        ChatError::Timeout { seconds } => "Request timed out after "@ + decimal_seq(seconds as nat)
            + "s. The model may be busy; try again."@,
        ChatError::StreamDisconnected => "Response stream was interrupted. Please try again."@,
        ChatError::RateLimited { retry_after_secs } => match retry_after_secs {
            Some(s) => "Rate limited. Retry after "@ + decimal_seq(s as nat) + "s."@,
            None => "Rate limited. Please wait and try again."@,
        },
        ChatError::ServerOverloaded => "The model is at capacity. Try a different model or wait a moment."@,
        ChatError::BadRequest { detail } => "Bad request: "@ + detail@,
        ChatError::Unauthorized { detail } => "Authentication failed: "@ + detail@
            + ". Check your API key in Settings."@,
        ChatError::ContextExceeded => "Context window exceeded. Start a new session or clear earlier messages."@,
        ChatError::UsageLimitReached { detail } => "Usage limit reached: "@ + detail@,
        ChatError::Config { detail } => "Configuration error: "@ + detail@
            + ". Check your Settings."@,
        ChatError::Session { detail } => "Session error: "@ + detail@,
        ChatError::MalformedResponse { detail } => "Unexpected response from model: "@ + detail@,
        ChatError::Internal { detail } => "Internal error: "@ + detail@,
    }
}

/// `a + b` as a new string.
fn join2(a: &str, b: &str) -> (r: String)
    ensures
        r@ == a@ + b@,
{
    let mut s = owned(a);
    push_str(&mut s, b);
    s
}

/// `a + b + c` as a new string.
fn join3(a: &str, b: &str, c: &str) -> (r: String)
    ensures
        r@ == a@ + b@ + c@,
{
    let mut s = owned(a);
    push_str(&mut s, b);
    push_str(&mut s, c);
    s
}

impl ChatError {
    /// Stable error code for the JSON-RPC `errorCode` field.
    pub fn code(&self) -> (r: &'static str)
        ensures
            r@ == code_seq(*self),
    {
        match self {
            ChatError::Network { .. } => "NETWORK_ERROR",
            ChatError::Timeout { .. } => "TIMEOUT",
            ChatError::StreamDisconnected => "STREAM_DISCONNECTED",
            ChatError::RateLimited { .. } => "RATE_LIMITED",
            ChatError::ServerOverloaded => "SERVER_OVERLOADED",
            ChatError::BadRequest { .. } => "BAD_REQUEST",
            ChatError::Unauthorized { .. } => "UNAUTHORIZED",
            ChatError::ContextExceeded => "CONTEXT_EXCEEDED",
            ChatError::UsageLimitReached { .. } => "USAGE_LIMIT_REACHED",
            ChatError::Config { .. } => "CONFIG_ERROR",
            ChatError::Session { .. } => "SESSION_ERROR",
            ChatError::MalformedResponse { .. } => "MALFORMED_RESPONSE",
            ChatError::Internal { .. } => "INTERNAL_ERROR",
        }
    }

    /// Whether the caller should consider automatically retrying.
    pub fn is_retryable(&self) -> (r: bool)
        ensures
            r == retryable(*self),
    {
        match self {
            ChatError::Network { .. } | ChatError::Timeout { .. } | ChatError::StreamDisconnected
            | ChatError::RateLimited { .. } | ChatError::ServerOverloaded => true,
            _ => false,
        }
    }

    /// A short, user-readable message.
    pub fn user_message(&self) -> (r: String)
        ensures
            r@ == message_seq(*self),
    {
        match self {
            ChatError::Network { detail } => join3(
                "Network error: ",
                detail.as_str(),
                ". Check your connection and try again.",
            ),
            ChatError::Timeout { seconds } => {
                let n = u64_to_decimal(*seconds);
                join3(
                    "Request timed out after ",
                    n.as_str(),
                    "s. The model may be busy; try again.",
                )
            },
            ChatError::StreamDisconnected => owned(
                "Response stream was interrupted. Please try again.",
            ),
            ChatError::RateLimited { retry_after_secs } => match retry_after_secs {
                Some(s) => {
                    let n = u64_to_decimal(*s);
                    join3("Rate limited. Retry after ", n.as_str(), "s.")
                },
                None => owned("Rate limited. Please wait and try again."),
            },
            ChatError::ServerOverloaded => owned(
                "The model is at capacity. Try a different model or wait a moment.",
            ),
            ChatError::BadRequest { detail } => join2("Bad request: ", detail.as_str()),
            ChatError::Unauthorized { detail } => join3(
                "Authentication failed: ",
                detail.as_str(),
                ". Check your API key in Settings.",
            ),
            ChatError::ContextExceeded => owned(
                "Context window exceeded. Start a new session or clear earlier messages.",
            ),
            ChatError::UsageLimitReached { detail } => join2("Usage limit reached: ", detail.as_str()),
            ChatError::Config { detail } => join3(
                "Configuration error: ",
                detail.as_str(),
                ". Check your Settings.",
            ),
            ChatError::Session { detail } => join2("Session error: ", detail.as_str()),
            ChatError::MalformedResponse { detail } => join2("Unexpected response from model: ", detail.as_str()),
            ChatError::Internal { detail } => join2("Internal error: ", detail.as_str()),
        }
    }

    /// A copy of this error.
    pub fn duplicate(&self) -> (r: ChatError)
        ensures
            r == *self,
    {
        match self {
            ChatError::Network { detail } => ChatError::Network { detail: detail.clone() },
            ChatError::Timeout { seconds } => ChatError::Timeout { seconds: *seconds },
            ChatError::StreamDisconnected => ChatError::StreamDisconnected,
            ChatError::RateLimited { retry_after_secs } => ChatError::RateLimited {
                retry_after_secs: *retry_after_secs,
            },
            ChatError::ServerOverloaded => ChatError::ServerOverloaded,
            ChatError::BadRequest { detail } => ChatError::BadRequest { detail: detail.clone() },
            ChatError::Unauthorized { detail } => ChatError::Unauthorized { detail: detail.clone() },
            ChatError::ContextExceeded => ChatError::ContextExceeded,
            ChatError::UsageLimitReached { detail } => ChatError::UsageLimitReached {
                detail: detail.clone(),
            },
            ChatError::Config { detail } => ChatError::Config { detail: detail.clone() },
            ChatError::Session { detail } => ChatError::Session { detail: detail.clone() },
            ChatError::MalformedResponse { detail } => ChatError::MalformedResponse {
                detail: detail.clone(),
            },
            ChatError::Internal { detail } => ChatError::Internal { detail: detail.clone() },
        }
    }
}

} // verus!
