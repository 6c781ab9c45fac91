//! Reading what comes back from a model endpoint: HTTP failures, transport
//! failures, and the `data:` lines of a streamed reply.

use vstd::prelude::*;
use crate::context::{has_context_error_phrase, is_context_length_error};
use crate::error::ChatError;
use crate::json::{
    Json, JsonValue, opt_as_str, opt_get, opt_json, opt_json_ref, opt_str_member, opt_str_member_or, parse_json,
    spec_parse_json, str_or,
};
use crate::llm::adapter::ApiAdapter;
use crate::llm::anthropic::error_detail;
use crate::llm::types::LlmResponse;
use crate::text::{
    decimal_seq, has_prefix, owned, push_str, spec_to_lowercase, str_eq, strip_prefix, take_chars, take_seq, trim,
    trim_seq, u64_to_decimal,
};

verus! {

// ── HTTP failures ────────────────────────────────────────────────────

/// The readable message of a parsed error body: `error.message`, else
/// `error.type`, trimmed, whichever is first non-empty.
pub open spec fn error_message_of(v: Json) -> Option<Seq<char>> {
    let err = v.get("error"@);
    let msg = opt_as_str(opt_get(err, "message"@));
    let typ = opt_as_str(opt_get(err, "type"@));
    if msg is Some && trim_seq(msg->0).len() > 0 {
        Some(trim_seq(msg->0))
    } else if typ is Some && trim_seq(typ->0).len() > 0 {
        Some(trim_seq(typ->0))
    } else {
        None
    }
}

/// The readable message of a response body, when it is JSON that has one.
pub open spec fn extracted_message(body: Seq<char>) -> Option<Seq<char>> {
    match spec_parse_json(body) {
        Some(v) => error_message_of(v),
        None => None,
    }
}

/// The detail reported for a failed response: its readable message, or
/// the first 500 characters of the body.
pub open spec fn failure_detail(body: Seq<char>) -> Seq<char> {
    match extracted_message(body) {
        Some(m) => m,
        None => take_seq(body, 500),
    }
}

/// A message reports an exceeded context window (case-insensitively).
pub open spec fn reports_full_context(msg: Seq<char>) -> bool {
    has_context_error_phrase(spec_to_lowercase(msg))
}

/// The error for an HTTP status and body: a context-length message wins
/// whatever the status; then 400, 401/403, 429 and the overload statuses
/// have their own variants, and any other status is a bad request that
/// names it.
pub open spec fn is_status_error(e: ChatError, status: u16, body: Seq<char>) -> bool {
    let d = failure_detail(body);
    if reports_full_context(d) {
        e is ContextExceeded
    } else if status == 400 {
        e matches ChatError::BadRequest { detail } && detail@ == d
    } else if status == 401 || status == 403 {
        e matches ChatError::Unauthorized { detail } && detail@ == d
    } else if status == 429 {
        e matches ChatError::RateLimited { retry_after_secs } && retry_after_secs is None
    } else if status == 500 || status == 502 || status == 503 || status == 504 {
        e is ServerOverloaded
    } else {
        e matches ChatError::BadRequest { detail } && detail@ == "HTTP "@ + decimal_seq(status as nat) + ": "@ + d
    }
}

fn trimmed_nonempty(s: Option<String>) -> (r: Option<String>)
    ensures
        match s {
            Some(t) => if trim_seq(t@).len() > 0 {
                r matches Some(u) && u@ == trim_seq(t@)
            } else {
                r is None
            },
            None => r is None,
        },
{
    match s {
        Some(t) => {
            let u = trim(t.as_str());
            if u.as_str().is_empty() {
                None
            } else {
                Some(u)
            }
        },
        None => None,
    }
}

/// The readable message of a JSON error body: `error.message`, falling
/// back to `error.type`.
pub fn extract_error_message(body: &str) -> (r: Option<String>)
    ensures
        match r {
            Some(m) => extracted_message(body@) == Some(m@),
            None => extracted_message(body@) is None,
        },
{
    let v = match parse_json(body) {
        Some(v) => v,
        None => return None,
    };
    let err = v.get("error");
    let msg = trimmed_nonempty(opt_str_member(err, "message"));
    if msg.is_some() {
        return msg;
    }
    trimmed_nonempty(opt_str_member(err, "type"))
}

fn status_text(status: u16, detail: &str) -> (r: String)
    ensures
        r@ == "HTTP "@ + decimal_seq(status as nat) + ": "@ + detail@,
{
    let mut s = owned("HTTP ");
    let n = u64_to_decimal(status as u64);
    push_str(&mut s, n.as_str());
    push_str(&mut s, ": ");
    push_str(&mut s, detail);
    s
}

/// Map an HTTP status code and response body to a `ChatError`.
pub fn http_error_from_status(status: u16, body: &str) -> (r: ChatError)
    ensures
        is_status_error(r, status, body@),
{
    let detail = match extract_error_message(body) {
        Some(m) => m,
        None => take_chars(body, 500),
    };
    if is_context_length_error(detail.as_str()) {
        return ChatError::ContextExceeded;
    }
    if status == 400 {
        ChatError::BadRequest { detail }
    } else if status == 401 || status == 403 {
        ChatError::Unauthorized { detail }
    } else if status == 429 {
        ChatError::RateLimited { retry_after_secs: None }
    } else if status == 500 || status == 502 || status == 503 || status == 504 {
        ChatError::ServerOverloaded
    } else {
        ChatError::BadRequest { detail: status_text(status, detail.as_str()) }
    }
}

// ── Transport failures ───────────────────────────────────────────────

/// What kind of transport failure an HTTP client reported.
#[derive(Debug)]
pub enum NetworkFailure {
    Timeout,
    Connect,
    /// The body could not be read or decoded.
    Body,
    Other,
}

/// The error for a transport failure on a request to `url`; `reason` is
/// the client's own description of the failure.
pub open spec fn is_network_error(e: ChatError, kind: NetworkFailure, url: Seq<char>, reason: Seq<char>) -> bool {
    match kind {
        NetworkFailure::Timeout => e matches ChatError::Timeout { seconds } && seconds == 0,
        NetworkFailure::Connect => e matches ChatError::Network { detail }
            && detail@ == "Cannot connect to "@ + url + ": "@ + reason,
        NetworkFailure::Body => e is StreamDisconnected,
        NetworkFailure::Other => e matches ChatError::Network { detail }
            && detail@ == "Request to "@ + url + " failed: "@ + reason,
    }
}

/// Map a transport failure to a `ChatError`, telling timeouts from other
/// network failures.
pub fn map_network_error(kind: NetworkFailure, url: &str, reason: &str) -> (r: ChatError)
    ensures
        is_network_error(r, kind, url@, reason@),
{
    match kind {
        NetworkFailure::Timeout => ChatError::Timeout { seconds: 0 },
        NetworkFailure::Connect => {
            let mut d = owned("Cannot connect to ");
            push_str(&mut d, url);
            push_str(&mut d, ": ");
            push_str(&mut d, reason);
            ChatError::Network { detail: d }
        },
        NetworkFailure::Body => ChatError::StreamDisconnected,
        NetworkFailure::Other => {
            let mut d = owned("Request to ");
            push_str(&mut d, url);
            push_str(&mut d, " failed: ");
            push_str(&mut d, reason);
            ChatError::Network { detail: d }
        },
    }
}

// ── Streamed replies ─────────────────────────────────────────────────

/// The event a stream line carries: a trimmed `data: ` line whose payload
/// is not `[DONE]` and parses as JSON.
pub open spec fn line_event(line: Seq<char>) -> Option<Json> {
    let t = trim_seq(line);
    if has_prefix(t, "data: "@) && t.skip(6) != "[DONE]"@ {
        spec_parse_json(t.skip(6))
    } else {
        None
    }
}

/// The JSON event of one line of a streamed reply, if it carries one.
pub fn stream_line_event(line: &str) -> (r: Option<JsonValue>)
    ensures
        opt_json(r) == line_event(line@),
{
    proof {
        reveal_strlit("data: ");
        reveal_strlit("[DONE]");
    }
    let t = trim(line);
    match strip_prefix(t.as_str(), "data: ") {
        Some(data) => {
            if str_eq(data.as_str(), "[DONE]") {
                None
            } else {
                parse_json(data.as_str())
            }
        },
        None => None,
    }
}

/// The error an event reports inline, described as `type: message`.
pub open spec fn inline_error_detail(err: Option<Json>) -> Seq<char> {
    error_detail(
        str_or(opt_as_str(opt_get(err, "message"@)), "unknown API error"@),
        str_or(opt_as_str(opt_get(err, "type"@)), Seq::empty()),
    )
}

/// Some providers report errors inside the stream: an event with an
/// `error` member ends the call, as a full context when its text says so
/// and as a bad request otherwise.
pub open spec fn is_inline_error(r: Option<ChatError>, ev: Json) -> bool {
    match ev.get("error"@) {
        None => r is None,
        Some(e) => {
            let d = inline_error_detail(Some(e));
            if reports_full_context(d) {
                r matches Some(x) && x is ContextExceeded
            } else {
                r matches Some(x) && x matches ChatError::BadRequest { detail } && detail@ == d
            }
        },
    }
}

/// The error an event reports inline, if any.
pub fn stream_error(event: &JsonValue) -> (r: Option<ChatError>)
    ensures
        is_inline_error(r, event@),
{
    proof {
        reveal_strlit("");
        assert(""@ =~= Seq::<char>::empty());
    }
    let err = match event.get("error") {
        Some(e) => e,
        None => return None,
    };
    let msg = opt_str_member_or(Some(err), "message", "unknown API error");
    let err_type = opt_str_member_or(Some(err), "type", "");
    let detail = if err_type.as_str().is_empty() {
        msg
    } else {
        let mut d = err_type;
        push_str(&mut d, ": ");
        push_str(&mut d, msg.as_str());
        d
    };
    if is_context_length_error(detail.as_str()) {
        Some(ChatError::ContextExceeded)
    } else {
        Some(ChatError::BadRequest { detail })
    }
}

/// Whether an HTTP status is a success (2xx).
pub open spec fn is_success(status: u16) -> bool {
    200 <= status < 300
}

/// The end of a model call, once the whole body has been read: a failure
/// status becomes its error, a success is parsed by the adapter.
pub fn finish_call<A: ApiAdapter>(adapter: &A, status: u16, body: &str) -> (r: Result<LlmResponse, ChatError>)
    ensures
        !is_success(status) ==> (r matches Err(e) && is_status_error(e, status, body@)),
        is_success(status) ==> match adapter.reply_spec(body@) {
            Ok(v) => r matches Ok(resp) && resp@ == v,
            Err(d) => r matches Err(ChatError::BadRequest { detail }) && detail@ == d,
        },
{
    if !(200 <= status && status < 300) {
        return Err(http_error_from_status(status, body));
    }
    adapter.parse_stream(body)
}

} // verus!
