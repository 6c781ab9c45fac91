//! JSON-RPC 2.0 messages and parameter access.
//!
//! Reading requests from stdin and writing responses to stdout belong to
//! the program around the library; here are the messages themselves.

use vstd::prelude::*;
use crate::error::{ChatError, code_seq, message_seq, retryable};
use crate::json::{Json, JsonMember, JsonValue, opt_json, opt_json_ref};
use crate::text::{owned, push_str};

verus! {

/// JSON-RPC 2.0 request.
#[derive(Debug)]
pub struct Request {
    pub jsonrpc: String,
    pub id: Option<JsonValue>,
    pub method: String,
    pub params: Option<JsonValue>,
}

/// JSON-RPC 2.0 error object. `error_code` and `retryable` carry the
/// structured chat error, when there is one.
#[derive(Debug)]
pub struct Error {
    pub code: i32,
    pub message: String,
    pub data: Option<JsonValue>,
    pub error_code: Option<String>,
    pub retryable: Option<bool>,
}

/// JSON-RPC 2.0 response: a result or an error.
#[derive(Debug)]
pub struct Response {
    pub jsonrpc: String,
    pub id: Option<JsonValue>,
    pub result: Option<JsonValue>,
    pub error: Option<Error>,
}

/// JSON-RPC 2.0 notification (no id, no response expected).
#[derive(Debug)]
pub struct Notification {
    pub jsonrpc: String,
    pub method: String,
    pub params: Option<JsonValue>,
}

impl Response {
    /// A successful response.
    pub fn success(id: Option<JsonValue>, result: JsonValue) -> (r: Response)
        ensures
            r.jsonrpc@ == "2.0"@,
            r.id == id,
            r.result == Some(result),
            r.error is None,
    {
        proof {
            reveal_strlit("2.0");
        }
        Response { jsonrpc: owned("2.0"), id, result: Some(result), error: None }
    }

    /// An error response with a code and a message.
    pub fn error(id: Option<JsonValue>, code: i32, message: String) -> (r: Response)
        ensures
            r.jsonrpc@ == "2.0"@,
            r.id == id,
            r.result is None,
            r.error matches Some(e) && e.code == code && e.message == message && e.data is None
                && e.error_code is None && e.retryable is None,
    {
        proof {
            reveal_strlit("2.0");
        }
        Response {
            jsonrpc: owned("2.0"),
            id,
            result: None,
            error: Some(Error { code, message, data: None, error_code: None, retryable: None }),
        }
    }

    /// An error response that also carries a stable error code and whether
    /// retrying may help.
    pub fn error_with_code(
        id: Option<JsonValue>,
        code: i32,
        message: &str,
        error_code: &str,
        retryable: bool,
    ) -> (r: Response)
        ensures
            r.jsonrpc@ == "2.0"@,
            r.id == id,
            r.result is None,
            r.error matches Some(e) && e.code == code && e.message@ == message@ && e.data is None
                && (e.error_code matches Some(c) && c@ == error_code@) && e.retryable == Some(retryable),
    {
        proof {
            reveal_strlit("2.0");
        }
        Response {
            jsonrpc: owned("2.0"),
            id,
            result: None,
            error: Some(
                Error {
                    code,
                    message: owned(message),
                    data: None,
                    error_code: Some(owned(error_code)),
                    retryable: Some(retryable),
                },
            ),
        }
    }

    /// The error response for a failed chat turn: internal-error code, the
    /// user-facing message, the stable code and the retryable flag.
    pub fn chat_error(id: Option<JsonValue>, e: &ChatError) -> (r: Response)
        ensures
            r.id == id,
            r.result is None,
            r.error matches Some(x) && x.code == -32603 && x.message@ == message_seq(*e) && (x.error_code matches Some(
                c,
            ) && c@ == code_seq(*e)) && x.retryable == Some(retryable(*e)),
    {
        let msg = e.user_message();
        Response::error_with_code(id, -32603, msg.as_str(), e.code(), e.is_retryable())
    }
}

impl Notification {
    /// A notification of `method` with `params`.
    pub fn new(method: &str, params: Option<JsonValue>) -> (r: Notification)
        ensures
            r.jsonrpc@ == "2.0"@,
            r.method@ == method@,
            r.params == params,
    {
        proof {
            reveal_strlit("2.0");
        }
        Notification { jsonrpc: owned("2.0"), method: owned(method), params }
    }
}

/// A required parameter that is absent or not a string.
#[derive(Debug)]
pub struct MissingParameter {
    pub key: String,
}

impl MissingParameter {
    /// `Missing parameter: <key>`.
    pub fn message(&self) -> (r: String)
        ensures
            r@ == "Missing parameter: "@ + self.key@,
    {
        let mut s = owned("Missing parameter: ");
        push_str(&mut s, self.key.as_str());
        s
    }
}

/// The string parameter `key` of a params object, if present.
pub open spec fn param_str(params: Option<Json>, key: Seq<char>) -> Option<Seq<char>> {
    match params {
        Some(p) => match p.get(key) {
            Some(Json::Str(s)) => Some(s),
            _ => None,
        },
        None => None,
    }
}

/// Extract a string parameter from a JSON-RPC params object.
pub fn get_param<'a>(params: &'a Option<JsonValue>, key: &str) -> (r: Result<&'a str, MissingParameter>)
    ensures
        match param_str(opt_json(*params), key@) {
            Some(s) => r matches Ok(v) && v@ == s,
            None => r matches Err(e) && e.key@ == key@,
        },
{
    match get_param_opt(params, key) {
        Some(v) => Ok(v),
        None => Err(MissingParameter { key: owned(key) }),
    }
}

/// An optional string parameter.
pub fn get_param_opt<'a>(params: &'a Option<JsonValue>, key: &str) -> (r: Option<&'a str>)
    ensures
        match param_str(opt_json(*params), key@) {
            Some(s) => r matches Some(v) && v@ == s,
            None => r is None,
        },
{
    match params {
        Some(p) => match p.get(key) {
            Some(v) => match v.as_str() {
                Some(s) => Some(s.as_str()),
                None => None,
            },
            None => None,
        },
        None => None,
    }
}

} // verus!
