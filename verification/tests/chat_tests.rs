//! The turn state machine and the mapping of HTTP failures.

use clawtao::chat::http::http_error_from_status;
use clawtao::chat::machine::{backoff, TurnEvent, TurnMachine, TurnState, MAX_RETRIES};
use clawtao::chat::notify;
use clawtao::chat::turn::{tool_result_text, ToolRun};
use clawtao::json::JsonValue;
use clawtao::jsonrpc::Notification;
use clawtao::error::ChatError;
use clawtao::llm::types::LlmResponse;
use clawtao::store::{ToolCall, ToolCallFunction};

fn text(text: &str) -> LlmResponse {
    LlmResponse { text: text.into(), tool_calls: vec![], thinking: None }
}

fn tool(text: &str, calls: Vec<ToolCall>) -> LlmResponse {
    LlmResponse { text: text.into(), tool_calls: calls, thinking: None }
}

fn tc(id: &str, name: &str, args: &str) -> ToolCall {
    ToolCall {
        id: id.into(), call_type: "function".into(),
        function: ToolCallFunction { name: name.into(), arguments: args.into() },
    }
}

/// Drive a fresh machine through model outcomes (each `Ok` a reply, each
/// `Err` a failure), running tools and waiting out retries as the machine
/// asks. Returns the outcome and how many retries were made.
fn run(outcomes: Vec<Result<LlmResponse, ChatError>>) -> (Result<(String, Option<String>), ChatError>, u32) {
    let mut m = TurnMachine::new();
    let mut retries = 0;
    let mut outcomes = outcomes.into_iter();
    loop {
        if m.is_finished() {
            return (m.outcome().unwrap(), retries);
        }
        let event = match &m.state {
            TurnState::Waiting { .. } => match outcomes.next().expect("machine asked for another model call") {
                Ok(response) => TurnEvent::Replied { response, cancelled: false },
                Err(error) => TurnEvent::Failed { error },
            },
            TurnState::Tooling { .. } => TurnEvent::ToolsRecorded,
            TurnState::Error { .. } => {
                retries += 1;
                TurnEvent::RetryDue
            }
            TurnState::Compacting { .. } => TurnEvent::Compacted { succeeded: true },
            _ => unreachable!(),
        };
        m = m.step(event);
    }
}

/// Like `run`, with the notifications a turn sends on the way: a
/// `stream_error` before each retry, and a `tool_call` then a
/// `tool_result` per tool call (each answered as cancelled when `cancel`
/// is set). Returns the outcome, the notifications and the tool results.
fn run_collect(
    outcomes: Vec<Result<LlmResponse, ChatError>>,
    cancel: bool,
) -> (Result<(String, Option<String>), ChatError>, Vec<Notification>, Vec<String>) {
    let mut m = TurnMachine::new();
    let mut notes = Vec::new();
    let mut results = Vec::new();
    let mut outcomes = outcomes.into_iter();
    loop {
        if m.is_finished() {
            return (m.outcome().unwrap(), notes, results);
        }
        let event = match &m.state {
            TurnState::Waiting { .. } => match outcomes.next().expect("machine asked for another model call") {
                Ok(response) => TurnEvent::Replied { response, cancelled: cancel },
                Err(error) => TurnEvent::Failed { error },
            },
            TurnState::Tooling { response } => {
                for c in &response.tool_calls {
                    notes.push(notify::tool_call("s", "r", c));
                }
                for c in &response.tool_calls {
                    let run = if cancel { ToolRun::Cancelled } else { ToolRun::Unknown };
                    let result = tool_result_text(&c.function.name, run);
                    let name = notify::tool_name_of(&response.tool_calls, &c.id);
                    notes.push(notify::tool_result("s", "r", &c.id, &name, &result, None));
                    results.push(result);
                }
                TurnEvent::ToolsRecorded
            }
            TurnState::Error { error, retry_count } => {
                notes.push(notify::stream_error("s", "r", error.code(), retry_count + 1));
                TurnEvent::RetryDue
            }
            TurnState::Compacting { .. } => TurnEvent::Compacted { succeeded: true },
            _ => unreachable!(),
        };
        m = m.step(event);
    }
}

fn field<'a>(n: &'a Notification, key: &str) -> Option<&'a JsonValue> {
    match n.params.as_ref()? {
        JsonValue::Object(members) => members.iter().find(|(k, _)| k == key).map(|(_, v)| v),
        _ => None,
    }
}

fn kind(n: &Notification) -> String {
    match field(n, "kind") {
        Some(JsonValue::Str(k)) => k.clone(),
        _ => String::new(),
    }
}

fn overloaded() -> ChatError {
    http_error_from_status(503, "")
}

#[test]
fn waiting_to_done_text_only() {
    let (out, retries) = run(vec![Ok(text("hello"))]);
    assert_eq!(out.unwrap().0, "hello");
    assert_eq!(retries, 0);
}

#[test]
fn full_cycle_tool_then_text() {
    let (out, _) = run(vec![Ok(tool("", vec![tc("c1", "Read", "{}")])), Ok(text("done"))]);
    assert_eq!(out.unwrap().0, "done");
}

#[test]
fn cancel_before_tools_goes_to_interrupted() {
    let m = TurnMachine::new();
    let m = m.step(TurnEvent::Replied { response: tool("partial", vec![tc("c1", "Read", "{}")]), cancelled: true });
    assert!(matches!(m.state, TurnState::Interrupted { .. }));
    assert_eq!(m.outcome().unwrap().unwrap().0, "partial");
}

#[test]
fn retryable_error_recovers_on_retry() {
    let (out, retries) = run(vec![Err(overloaded()), Ok(text("ok"))]);
    assert_eq!(out.unwrap().0, "ok");
    assert_eq!(retries, 1);
}

#[test]
fn retry_recovers_after_two_failures() {
    let (out, retries) = run(vec![Err(overloaded()), Err(overloaded()), Ok(text("third"))]);
    assert_eq!(out.unwrap().0, "third");
    assert_eq!(retries, 2);
}

#[test]
fn retries_exhausted_becomes_fatal() {
    let (out, retries) = run(vec![Err(overloaded()), Err(overloaded()), Err(overloaded()), Err(overloaded())]);
    assert_eq!(out.unwrap_err().code(), "SERVER_OVERLOADED");
    assert_eq!(retries, MAX_RETRIES);
}

#[test]
fn non_retryable_skips_retries() {
    let (out, retries) = run(vec![Err(http_error_from_status(401, ""))]);
    assert_eq!(out.unwrap_err().code(), "UNAUTHORIZED");
    assert_eq!(retries, 0);
}

#[test]
fn bad_request_is_fatal() {
    let (out, retries) = run(vec![Err(http_error_from_status(400, "bad"))]);
    assert_eq!(out.unwrap_err().code(), "BAD_REQUEST");
    assert_eq!(retries, 0);
}

#[test]
fn retry_counter_resets_after_success() {
    let (out, retries) = run(vec![
        Err(overloaded()),
        Err(overloaded()),
        Ok(tool("", vec![tc("c1", "Read", "{}")])),
        Err(overloaded()),
        Err(overloaded()),
        Err(overloaded()),
        Ok(text("final")),
    ]);
    assert_eq!(out.unwrap().0, "final");
    assert_eq!(retries, 5);
}

#[test]
fn exactly_three_retries_then_fatal() {
    let (out, retries) = run(vec![Err(overloaded()), Err(overloaded()), Err(overloaded()), Err(overloaded())]);
    assert!(out.is_err());
    assert_eq!(retries, 3);
}

#[test]
fn succeeds_on_last_retry_attempt() {
    let (out, retries) = run(vec![Err(overloaded()), Err(overloaded()), Err(overloaded()), Ok(text("last"))]);
    assert_eq!(out.unwrap().0, "last");
    assert_eq!(retries, 3);
}

#[test]
fn rate_limited_is_retryable_from_waiting() {
    let (out, retries) = run(vec![Err(http_error_from_status(429, "")), Ok(text("ok"))]);
    assert_eq!(out.unwrap().0, "ok");
    assert_eq!(retries, 1);
}

#[test]
fn server_overloaded_is_retryable() {
    let (out, _) = run(vec![Err(http_error_from_status(503, "")), Ok(text("ok503"))]);
    assert_eq!(out.unwrap().0, "ok503");
}

#[test]
fn http_502_is_treated_as_overloaded() {
    let (out, _) = run(vec![Err(http_error_from_status(502, "")), Ok(text("ok502"))]);
    assert_eq!(out.unwrap().0, "ok502");
}

#[test]
fn context_exceeded_compacts_once_then_fatal() {
    let (out, retries) = run(vec![Err(ChatError::ContextExceeded), Ok(text("after compaction"))]);
    assert_eq!(out.unwrap().0, "after compaction");
    assert_eq!(retries, 0);
    let (out, _) = run(vec![Err(ChatError::ContextExceeded), Err(ChatError::ContextExceeded)]);
    assert_eq!(out.unwrap_err().code(), "CONTEXT_EXCEEDED");
}

#[test]
fn failed_reactive_compaction_ends_the_turn() {
    let m = TurnMachine::new().step(TurnEvent::Failed { error: ChatError::ContextExceeded });
    assert!(matches!(m.state, TurnState::Compacting { .. }));
    let m = m.step(TurnEvent::Compacted { succeeded: false });
    assert_eq!(m.outcome().unwrap().unwrap_err().code(), "CONTEXT_EXCEEDED");
}

#[test]
fn proactive_compaction_happens_once_per_turn() {
    let m = TurnMachine::new();
    assert!(m.wants_compaction(900, 800));
    assert!(!m.wants_compaction(800, 800));
    let m = m.step(TurnEvent::Compacted { succeeded: true });
    assert!(matches!(m.state, TurnState::Waiting { retry_count: 0 }));
    assert!(!m.wants_compaction(900, 800));
}

#[test]
fn finished_turn_ignores_further_events() {
    let m = TurnMachine::new().step(TurnEvent::Replied { response: text("x"), cancelled: false });
    let m = m.step(TurnEvent::Failed { error: overloaded() });
    assert_eq!(m.outcome().unwrap().unwrap().0, "x");
}

#[test]
fn backoff_doubles_from_200ms() {
    assert_eq!(backoff(0), 200);
    assert_eq!(backoff(1), 200);
    assert_eq!(backoff(2), 400);
    assert_eq!(backoff(3), 800);
}

#[test]
fn config_error_no_api_key_is_fatal() {
    let err = http_error_from_status(401, r#"{"error":{"message":"Invalid API key"}}"#);
    assert_eq!(err.code(), "UNAUTHORIZED");
    assert!(!err.is_retryable());
}

#[test]
fn http_error_401_maps_to_unauthorized() {
    let err = http_error_from_status(401, r#"{"error":{"message":"Invalid API key"}}"#);
    assert_eq!(err.code(), "UNAUTHORIZED");
    assert!(!err.is_retryable());
    assert!(err.user_message().contains("API key"));
}

#[test]
fn http_error_429_maps_to_rate_limited() {
    let err = http_error_from_status(429, "");
    assert_eq!(err.code(), "RATE_LIMITED");
    assert!(err.is_retryable());
}

#[test]
fn http_error_503_maps_to_server_overloaded() {
    let err = http_error_from_status(503, "");
    assert_eq!(err.code(), "SERVER_OVERLOADED");
    assert!(err.is_retryable());
}

#[test]
fn http_error_extracts_message_from_json_body() {
    let err = http_error_from_status(400, r#"{"error":{"message":"Model not found"}}"#);
    assert!(err.user_message().contains("Model not found"));
}

#[test]
fn http_error_other_status_names_it() {
    let err = http_error_from_status(418, "teapot");
    assert_eq!(err.user_message(), "Bad request: HTTP 418: teapot");
}

#[test]
fn http_error_context_message_wins_over_status() {
    let err = http_error_from_status(500, r#"{"error":{"type":"x","message":"  prompt is too long  "}}"#);
    assert_eq!(err.code(), "CONTEXT_EXCEEDED");
}

#[test]
fn http_error_falls_back_to_type_then_body() {
    let err = http_error_from_status(403, r#"{"error":{"message":"   ","type":"permission_error"}}"#);
    assert_eq!(err.user_message(), "Authentication failed: permission_error. Check your API key in Settings.");
    let long: String = std::iter::repeat('y').take(600).collect();
    match http_error_from_status(400, &long) {
        ChatError::BadRequest { detail } => assert_eq!(detail.chars().count(), 500),
        other => panic!("unexpected {other:?}"),
    }
}

#[test]
fn retry_sends_stream_error_notifications_with_correct_fields() {
    let (out, notes, _) = run_collect(vec![Err(overloaded()), Err(overloaded()), Ok(text("ok2"))], false);
    assert_eq!(out.unwrap().0, "ok2");
    let errors: Vec<&Notification> = notes.iter().filter(|n| kind(n) == "stream_error").collect();
    assert_eq!(errors.len(), 2);
    assert!(matches!(field(errors[0], "errorCode"), Some(JsonValue::Str(c)) if c == "SERVER_OVERLOADED"));
    assert!(matches!(field(errors[0], "retryable"), Some(JsonValue::Bool(true))));
    assert!(matches!(field(errors[0], "message"), Some(JsonValue::Str(m)) if m.contains("1/3")));
    assert!(matches!(field(errors[1], "message"), Some(JsonValue::Str(m)) if m.contains("2/3")));
}

#[test]
fn normal_turn_sends_tool_call_and_result_notifications() {
    let (out, notes, _) =
        run_collect(vec![Ok(tool("", vec![tc("t1", "Bash", r#"{"command":"echo hi"}"#)])), Ok(text("done"))], false);
    assert_eq!(out.unwrap().0, "done");
    let kinds: Vec<String> = notes.iter().map(kind).collect();
    assert!(kinds.contains(&"tool_call".to_string()));
    assert!(kinds.contains(&"tool_result".to_string()));
}

#[test]
fn normal_turn_no_tools_sends_no_tool_notifications() {
    let (out, notes, _) = run_collect(vec![Ok(text("hello"))], false);
    assert_eq!(out.unwrap().0, "hello");
    assert!(notes.is_empty());
}

#[test]
fn fatal_error_sends_no_stream_error_notification() {
    let (out, notes, _) = run_collect(vec![Err(http_error_from_status(401, ""))], false);
    assert!(out.is_err());
    assert!(!notes.iter().any(|n| kind(n) == "stream_error"));
}

#[test]
fn tooling_multiple_tools_executed_sequentially() {
    let (out, _, results) = run_collect(
        vec![
            Ok(tool("", vec![tc("a", "Bash", r#"{"command":"echo one"}"#), tc("b", "Bash", r#"{"command":"echo two"}"#)])),
            Ok(text("all done")),
        ],
        false,
    );
    assert_eq!(out.unwrap().0, "all done");
    assert_eq!(results.len(), 2);
}

#[test]
fn cancel_during_tools_skips_remaining() {
    let (out, _, results) = run_collect(
        vec![Ok(tool("", vec![tc("a", "Read", r#"{"path":"/x"}"#), tc("b", "Bash", r#"{"command":"echo"}"#)]))],
        true,
    );
    assert_eq!(out.unwrap().0, "");
    assert!(results.is_empty());
}
