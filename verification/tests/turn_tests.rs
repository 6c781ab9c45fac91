//! Turn setup, the messages sent to the model, streamed lines, compaction
//! planning and the notifications of a turn.

use clawtao::chat::compaction::{build_effective_messages, summary_request, Compaction, CompactionError};
use clawtao::chat::http::{finish_call, map_network_error, stream_error, stream_line_event, NetworkFailure};
use clawtao::chat::notify;
use clawtao::chat::request::prepare_llm_messages;
use clawtao::chat::turn::{
    image_bytes, image_extension, image_file_name, image_from_file, media_type_for_path, parse_legacy_network_mode,
    parse_legacy_sandbox_mode, parse_policy, parse_user_images, reply_content, tool_result_text, tools_to_unregister,
    turn_config, Policy, ToolRun,
};
use clawtao::error::ChatError;
use clawtao::json::JsonValue;
use clawtao::llm::anthropic::AnthropicAdapter;
use clawtao::llm::openai::OpenAiAdapter;
use clawtao::llm::types::ImageContent;
use clawtao::store::json_store::JsonSessionStore;
use clawtao::store::store_trait::SessionStore;
use clawtao::store::{Message, Session, ToolCall, ToolCallFunction};

/// A document read from JSON text.
fn json(text: &str) -> JsonValue {
    from_serde(serde_json::from_str(text).unwrap())
}

fn from_serde(v: serde_json::Value) -> JsonValue {
    match v {
        serde_json::Value::Null => JsonValue::Null,
        serde_json::Value::Bool(b) => JsonValue::Bool(b),
        serde_json::Value::Number(n) => JsonValue::Number(n.to_string()),
        serde_json::Value::String(s) => JsonValue::Str(s),
        serde_json::Value::Array(a) => JsonValue::Array(a.into_iter().map(from_serde).collect()),
        serde_json::Value::Object(o) => JsonValue::Object(o.into_iter().map(|(k, x)| (k, from_serde(x))).collect()),
    }
}

/// A document as a `serde_json::Value`, for inspection.
fn to_serde(v: &JsonValue) -> serde_json::Value {
    match v {
        JsonValue::Null => serde_json::Value::Null,
        JsonValue::Bool(b) => serde_json::Value::Bool(*b),
        JsonValue::Number(t) => serde_json::Value::Number(serde_json::from_str(t).unwrap()),
        JsonValue::Str(s) => serde_json::Value::String(s.clone()),
        JsonValue::Array(a) => serde_json::Value::Array(a.iter().map(to_serde).collect()),
        JsonValue::Object(o) => serde_json::Value::Object(o.iter().map(|(k, x)| (k.clone(), to_serde(x))).collect()),
    }
}


fn params(text: &str) -> Option<JsonValue> {
    Some(json(text))
}

fn msg(id: &str, role: &str, content: &str) -> Message {
    Message {
        id: id.into(), role: role.into(), content: content.into(), tool_calls: None, tool_call_id: None,
        thinking: None, timestamp: 1, image_paths: None,
    }
}

fn call(id: &str) -> ToolCall {
    ToolCall { id: id.into(), call_type: "function".into(), function: ToolCallFunction { name: "Read".into(), arguments: "{}".into() } }
}

fn as_serde(v: &JsonValue) -> serde_json::Value {
    to_serde(v)
}

#[test]
fn policies_parse_from_names() {
    assert_eq!(parse_policy(Some("forbidden")), Some(Policy::Forbidden));
    assert_eq!(parse_policy(Some("restricted")), Some(Policy::Restricted));
    assert_eq!(parse_policy(Some("unrestricted")), Some(Policy::Unrestricted));
    assert_eq!(parse_policy(Some("other")), None);
    assert_eq!(parse_policy(None), None);
    assert_eq!(parse_legacy_sandbox_mode(Some("off")), Some(Policy::Unrestricted));
    assert_eq!(parse_legacy_sandbox_mode(Some("workspace_only")), Some(Policy::Restricted));
    assert_eq!(parse_legacy_network_mode(Some("strict")), Some(Policy::Restricted));
    assert_eq!(parse_legacy_network_mode(Some("off")), None);
}

#[test]
fn turn_config_reports_missing_fields_in_order() {
    let e = turn_config(&params(r#"{"sessionId":"s"}"#)).unwrap_err();
    assert!(matches!(e, ChatError::BadRequest { ref detail } if detail == "Missing parameter: message"));
    let e = turn_config(&params(r#"{"message":"hi","sessionId":"s"}"#)).unwrap_err();
    assert!(matches!(e, ChatError::Config { ref detail } if detail == "Missing config"));
    let e = turn_config(&params(r#"{"message":"hi","sessionId":"s","config":{"api_key":""}}"#)).unwrap_err();
    assert!(matches!(e, ChatError::Config { ref detail } if detail == "API key not configured"));
    let e = turn_config(&params(r#"{"message":"hi","sessionId":"s","config":{"api_key":"k","base_url":"u","model":"m"}}"#)).unwrap_err();
    assert!(matches!(e, ChatError::Config { ref detail } if detail == "Missing config field: api_protocol"));
}

#[test]
fn turn_config_reads_policies_and_flags() {
    let t = turn_config(&params(
        r#"{"message":"hi","sessionId":"s","config":{"api_key":"k","base_url":"u","model":"m","api_protocol":"anthropic",
            "thinking_enabled":true,"bash_timeout_secs":30,"sandbox_mode":"strict","network_policy":"restricted","workspace_dir":""}}"#,
    )).unwrap();
    assert_eq!(t.message, "hi");
    assert_eq!(t.protocol, "anthropic");
    assert!(t.thinking_enabled);
    assert_eq!(t.bash_timeout_secs, Some(30));
    assert_eq!(t.write_policy, Policy::Restricted);
    assert_eq!(t.read_policy, Policy::Unrestricted);
    assert_eq!(t.network_policy, Policy::Unrestricted);
    assert_eq!(t.workspace_dir, None);
    assert!(!t.plan_mode);
}

#[test]
fn forbidden_policies_remove_tools() {
    assert_eq!(tools_to_unregister(Policy::Forbidden, Policy::Forbidden, Policy::Forbidden),
        vec!["Write", "Edit", "Read", "Grep", "Edit", "WebFetch", "WebBrowser"]);
    assert!(tools_to_unregister(Policy::Restricted, Policy::Unrestricted, Policy::Unrestricted).is_empty());
}

#[test]
fn user_images_parse() {
    let imgs = parse_user_images(&params(r#"{"images":[{"base64":"AAA"},{"base64":"BBB","media_type":"image/jpeg"}]}"#)).unwrap();
    assert_eq!(imgs.len(), 2);
    assert_eq!(imgs[0].media_type, "image/png");
    assert_eq!(imgs[1].media_type, "image/jpeg");
    assert!(parse_user_images(&params(r#"{"images":[]}"#)).is_none());
    assert!(parse_user_images(&params(r#"{"images":[{"base64":"A"},{"media_type":"x"}]}"#)).is_none());
    assert!(parse_user_images(&None).is_none());
}

#[test]
fn image_files_and_base64() {
    assert_eq!(image_extension("image/webp"), "webp");
    assert_eq!(image_extension("image/bmp"), "png");
    assert_eq!(image_file_name("s1", "u", "image/jpeg"), "s1_u.jpg");
    assert_eq!(media_type_for_path("/x/a.JPG"), "image/png");
    assert_eq!(media_type_for_path("/x/a.jpeg"), "image/jpeg");
    assert_eq!(media_type_for_path("/x/noext"), "image/png");
    let img = ImageContent { base64: "aGk=".into(), media_type: "image/png".into() };
    assert_eq!(image_bytes(&img), Some(b"hi".to_vec()));
    let bad = ImageContent { base64: "%%%".into(), media_type: "image/png".into() };
    assert_eq!(image_bytes(&bad), None);
    let back = image_from_file("/p/q.gif", &b"hi".to_vec());
    assert_eq!(back.base64, "aGk=");
    assert_eq!(back.media_type, "image/gif");
}

#[test]
fn tool_results_and_reply() {
    assert_eq!(tool_result_text("Read", ToolRun::Cancelled), "[interrupted by user]");
    assert_eq!(tool_result_text("Nope", ToolRun::Unknown), "Unknown tool: Nope");
    assert_eq!(tool_result_text("Bash", ToolRun::Denied("outside".into())), "Sandbox denied: outside");
    assert_eq!(tool_result_text("Bash", ToolRun::Failed("exit 1".into())), "Tool error: exit 1");
    assert_eq!(tool_result_text("Bash", ToolRun::Output("ok".into())), "ok");
    assert_eq!(reply_content(""), "(no response)");
    assert_eq!(reply_content("x"), "x");
}

#[test]
fn orphan_tool_calls_are_dropped() {
    let mut a = msg("a", "assistant", "");
    a.tool_calls = Some(vec![call("c1"), call("c2")]);
    let mut t = msg("t", "tool", "r1");
    t.tool_call_id = Some("c1".into());
    let mut lonely = msg("b", "assistant", "");
    lonely.tool_calls = Some(vec![call("c3")]);
    let msgs = vec![msg("u", "user", "hi"), a, t, lonely, msg("u2", "user", "more")];
    let loaded = vec![vec![], vec![], vec![], vec![], vec![]];
    let out = prepare_llm_messages(&msgs, &loaded, &None);
    let kept = out[1].tool_calls.as_ref().unwrap();
    assert_eq!(kept.len(), 1);
    assert_eq!(kept[0].id, "c1");
    assert!(out[3].tool_calls.is_none());
}

#[test]
fn screenshots_and_uploads_become_images() {
    let msgs = vec![msg("u", "user", "first"), msg("t", "tool", "[SCREENSHOT]\nQUJD"), msg("u2", "user", "look")];
    let uploads = Some(vec![ImageContent { base64: "Zg==".into(), media_type: "image/png".into() }]);
    let out = prepare_llm_messages(&msgs, &vec![vec![], vec![], vec![]], &uploads);
    assert_eq!(out[1].content, "Screenshot captured.");
    assert_eq!(out[1].images.as_ref().unwrap()[0].base64, "QUJD");
    assert!(out[0].images.is_none());
    assert_eq!(out[2].images.as_ref().unwrap().len(), 1);
}

#[test]
fn saved_images_are_attached_when_loaded() {
    let mut m = msg("u", "user", "see");
    m.image_paths = Some(vec!["/a.png".into()]);
    let img = ImageContent { base64: "x".into(), media_type: "image/png".into() };
    let out = prepare_llm_messages(&vec![m], &vec![vec![img]], &None);
    assert_eq!(out[0].images.as_ref().unwrap().len(), 1);
}

#[test]
fn stream_lines_and_inline_errors() {
    assert!(stream_line_event("data: [DONE]").is_none());
    assert!(stream_line_event("event: x").is_none());
    assert!(stream_line_event("data: not json").is_none());
    let ev = stream_line_event("  data: {\"a\":1}  ").unwrap();
    assert_eq!(as_serde(&ev)["a"], 1);
    let err = stream_error(&json(r#"{"error":{"type":"overloaded_error","message":"busy"}}"#)).unwrap();
    assert!(matches!(err, ChatError::BadRequest { ref detail } if detail == "overloaded_error: busy"));
    let err = stream_error(&json(r#"{"error":{"message":"maximum context length is 8k"}}"#)).unwrap();
    assert!(matches!(err, ChatError::ContextExceeded));
    let err = stream_error(&json(r#"{"error":{}}"#)).unwrap();
    assert!(matches!(err, ChatError::BadRequest { ref detail } if detail == "unknown API error"));
    assert!(stream_error(&json(r#"{"choices":[]}"#)).is_none());
}

#[test]
fn network_failures_map_to_errors() {
    assert!(matches!(map_network_error(NetworkFailure::Timeout, "u", "r"), ChatError::Timeout { seconds: 0 }));
    assert!(matches!(map_network_error(NetworkFailure::Body, "u", "r"), ChatError::StreamDisconnected));
    match map_network_error(NetworkFailure::Connect, "http://x", "refused") {
        ChatError::Network { detail } => assert_eq!(detail, "Cannot connect to http://x: refused"),
        other => panic!("unexpected {other:?}"),
    }
    match map_network_error(NetworkFailure::Other, "http://x", "reset") {
        ChatError::Network { detail } => assert_eq!(detail, "Request to http://x failed: reset"),
        other => panic!("unexpected {other:?}"),
    }
}

#[test]
fn finishing_a_call_checks_status_first() {
    let err = finish_call(&OpenAiAdapter, 401, "").unwrap_err();
    assert_eq!(err.code(), "UNAUTHORIZED");
    let ok = finish_call(&OpenAiAdapter, 200, "data: {\"choices\":[{\"delta\":{\"content\":\"Hi\"}}]}\n").unwrap();
    assert_eq!(ok.text, "Hi");
    let ok = finish_call(&AnthropicAdapter, 200, "").unwrap();
    assert!(ok.text.is_empty());
}

#[test]
fn compaction_plan_guards() {
    let few: Vec<Message> = (0..5).map(|i| msg(&format!("m{i}"), "user", "x")).collect();
    assert!(matches!(Compaction::start(&few, 3), Err(CompactionError::TooFewMessages)));
    let all_users: Vec<Message> = (0..6).map(|i| msg(&format!("m{i}"), "assistant", "x")).collect();
    assert!(matches!(Compaction::start(&all_users, 1), Err(CompactionError::AllRecent)));
    let mut one_old = vec![msg("a0", "assistant", "x")];
    for i in 0..5 {
        one_old.push(msg(&format!("u{i}"), "user", "x"));
    }
    assert!(matches!(Compaction::start(&one_old, 5), Err(CompactionError::NothingToSummarise)));
    let turns: Vec<Message> = (0..8).map(|i| msg(&format!("m{i}"), if i % 2 == 0 { "user" } else { "assistant" }, "x")).collect();
    let c = Compaction::start(&turns, 1).unwrap();
    assert_eq!(c.span, 6);
    assert_eq!(c.skip, 0);
    assert!(c.input(&turns).contains("[user]: x"));
    let c = c.after_failure(ChatError::ContextExceeded).unwrap();
    assert_eq!(c.skip, 1);
    let c = c.after_failure(ChatError::ContextExceeded).unwrap();
    assert_eq!(c.skip, 2);
    let c = c.after_failure(ChatError::ContextExceeded).unwrap();
    assert_eq!(c.skip, 4);
    assert!(matches!(c.after_failure(ChatError::ContextExceeded), Err(CompactionError::Summary(ChatError::ContextExceeded))));
    let c = Compaction::start(&turns, 1).unwrap();
    assert!(matches!(c.after_failure(ChatError::ServerOverloaded), Err(CompactionError::Summary(ChatError::ServerOverloaded))));
}

#[test]
fn compaction_finish_records_summary() {
    let turns: Vec<Message> = (0..8).map(|i| msg(&format!("m{i}"), if i % 2 == 0 { "user" } else { "assistant" }, "x")).collect();
    let mut store = JsonSessionStore::new("/tmp/c".into());
    store.create(&Session { id: "s".into(), created_at: 0, updated_at: 0, messages: vec![], title: String::new(), compacted_summary: None, compacted_message_id: None }).unwrap();
    let c = Compaction::start(&turns, 1).unwrap();
    assert!(matches!(c.finish(&mut store, "s", &turns, "   "), Err(CompactionError::EmptySummary)));
    let c = Compaction::start(&turns, 1).unwrap();
    let long: String = std::iter::repeat('s').take(2500).collect();
    let (summary, last) = c.finish(&mut store, "s", &turns, &format!("  {long} ")).unwrap();
    assert_eq!(summary.chars().count(), 2000);
    assert_eq!(last, "m5");
    let s = store.get("s").unwrap().unwrap();
    assert_eq!(s.compacted_message_id.as_deref(), Some("m5"));
    assert_eq!(CompactionError::AllRecent.reason(), "all messages are recent \u{2014} nothing to compact");
}

#[test]
fn summary_request_asks_for_a_handoff() {
    let r = summary_request("m", "[user]: hi\n");
    assert_eq!(r.model, "m");
    assert_eq!(r.system, "You are a helpful assistant. Summarize conversations concisely and accurately.");
    assert!(r.messages[0].content.contains("CONTEXT CHECKPOINT COMPACTION"));
    assert!(r.messages[0].content.ends_with("Conversation:\n[user]: hi\n\n\nSummary:"));
    assert!(r.tools.is_empty());
    assert!(!r.thinking_enabled);
}

#[test]
fn effective_messages_add_summary_message_without_user() {
    let msgs = vec![msg("u1", "user", "a"), msg("a1", "assistant", "b")];
    let e = build_effective_messages(&msgs, "u1", "sum");
    assert_eq!(e.len(), 2);
    assert_eq!(e[0].role, "user");
    assert_eq!(e[0].content, "sum");
    assert_eq!(e[1].id, "a1");
    let same = build_effective_messages(&msgs, "a1", "sum");
    assert_eq!(same.len(), 2);
    assert_eq!(same[0].content, "a");
    let unknown = build_effective_messages(&msgs, "zz", "sum");
    assert!(unknown[0].content.starts_with("Another language model"));
    assert!(unknown[0].content.ends_with("sum\n\n---\n\na"));
}

#[test]
fn notifications_carry_session_and_run() {
    let n = notify::started("s", "r");
    assert_eq!(n.method, "chat.stream");
    let p = as_serde(n.params.as_ref().unwrap());
    assert_eq!(p["sessionId"], "s");
    assert_eq!(p["runId"], "r");
    assert_eq!(p["kind"], "started");
    let e = as_serde(notify::stream_error("s", "r", "TIMEOUT", 2).params.as_ref().unwrap());
    assert_eq!(e["message"], "Reconnecting... 2/3");
    assert_eq!(e["retryable"], true);
    let c = as_serde(notify::compacted("s", "r", 4).params.as_ref().unwrap());
    assert_eq!(c["messageCount"], 4);
    let tc = ToolCall { id: "c".into(), call_type: "function".into(), function: ToolCallFunction { name: "TodoWrite".into(), arguments: r#"{"todos":[1]}"#.into() } };
    let t = as_serde(notify::tool_call("s", "r", &tc).params.as_ref().unwrap());
    assert_eq!(t["input"]["todos"][0], 1);
    assert!(notify::todo_update("s", "r", &tc).is_some());
    assert_eq!(notify::tool_name_of(&vec![tc], "c"), "TodoWrite");
    assert_eq!(notify::tool_name_of(&vec![], "c"), "unknown");
    let res = as_serde(&notify::send_result("r", "m", "hi", -5));
    assert_eq!(res["message"]["timestamp"], -5);
    assert_eq!(res["message"]["role"], "assistant");
}

#[test]
fn file_changes_for_write_and_edit() {
    let w = notify::write_change(&json(r#"{"path":"/f","content":"new"}"#), None).unwrap();
    let w = as_serde(&w);
    assert_eq!(w["action"], "created");
    assert!(w["oldContent"].is_null());
    let w = as_serde(&notify::write_change(&json(r#"{"path":"/f"}"#), Some("old".into())).unwrap());
    assert_eq!(w["action"], "modified");
    assert_eq!(w["newContent"], "");
    assert!(notify::write_change(&json("{}"), None).is_none());
    let e = as_serde(&notify::edit_change(&json(r#"{"path":"/f","old_string":"a","new_string":"b"}"#)).unwrap());
    assert_eq!(e["oldContent"], "a");
    assert_eq!(e["newContent"], "b");
}
