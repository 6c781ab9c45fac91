//! The simple session manager, and stored messages in the chat format.

use clawtao::session::{Session, SessionManager};
use clawtao::store::{Message, ToolCall, ToolCallFunction};
use clawtao::json::JsonValue;
use clawtao::store::store_trait::SessionStore;

/// A document as a `serde_json::Value`, for inspection.
fn to_serde(v: &JsonValue) -> serde_json::Value {
    match v {
        JsonValue::Null => serde_json::Value::Null,
        JsonValue::Bool(b) => serde_json::Value::Bool(*b),
        JsonValue::Number(t) => serde_json::Value::Number(serde_json::from_str(t).unwrap()),
        JsonValue::Str(s) => serde_json::Value::String(s.clone()),
        JsonValue::Array(a) => serde_json::Value::Array(a.iter().map(to_serde).collect()),
        JsonValue::Object(o) => serde_json::Value::Object(o.iter().map(|(k, x)| (k.clone(), to_serde(x))).collect()),
    }
}


fn make_session_manager() -> SessionManager {
    SessionManager::new(format!("/tmp/clawtao_test_{}", uuid::Uuid::new_v4().to_string()))
}

#[test]
fn session_tests_create_and_get_session() {
    let mut mgr = make_session_manager();
    let s = mgr.create_session();
    let retrieved = mgr.get_session(&s.id);
    assert!(retrieved.is_some());
    assert_eq!(retrieved.unwrap().id, s.id);
}

#[test]
fn session_tests_add_user_message() {
    let mut mgr = make_session_manager();
    let s = mgr.create_session();
    let msg = mgr.add_message(&s.id, "user", "hello");
    assert!(msg.is_some());
    let session = mgr.get_session(&s.id).unwrap();
    assert_eq!(session.messages.len(), 1);
    assert_eq!(session.messages[0].role, "user");
    assert_eq!(session.messages[0].content, "hello");
}

#[test]
fn message_to_llm_format_user() {
    let msg = Message {
        id: "1".into(), role: "user".into(), content: "hi".into(),
        tool_calls: None, tool_call_id: None, thinking: None, timestamp: 0, image_paths: None,
    };
    let json: serde_json::Value = to_serde(&msg.to_llm_message());
    assert_eq!(json["role"], "user");
    assert_eq!(json["content"], "hi");
}

#[test]
fn message_to_llm_format_tool_result() {
    let msg = Message {
        id: "1".into(), role: "tool".into(), content: "result".into(),
        tool_calls: None, tool_call_id: Some("call_1".into()), thinking: None, timestamp: 0, image_paths: None,
    };
    let json: serde_json::Value = to_serde(&msg.to_llm_message());
    assert_eq!(json["role"], "tool");
    assert_eq!(json["tool_call_id"], "call_1");
    assert_eq!(json["content"], "result");
}

#[test]
fn message_to_llm_format_assistant_with_tool_calls() {
    let msg = Message {
        id: "1".into(), role: "assistant".into(), content: "".into(),
        tool_calls: Some(vec![ToolCall {
            id: "call_1".into(), call_type: "function".into(),
            function: ToolCallFunction { name: "Read".into(), arguments: "{}".into() },
        }]),
        tool_call_id: None, thinking: None, timestamp: 0, image_paths: None,
    };
    let json: serde_json::Value = to_serde(&msg.to_llm_message());
    assert_eq!(json["role"], "assistant");
    assert!(json["content"].is_null());
    assert!(json.get("tool_calls").is_some());
}

#[test]
fn session_tests_session_list_empty() {
    let mgr = make_session_manager();
    assert!(mgr.list_sessions().is_empty());
}

#[test]
fn session_manager_lists_newest_first() {
    let mut mgr = make_session_manager();
    let a = mgr.create_session();
    let b = mgr.create_session();
    mgr.add_message(&a.id, "user", "later");
    let list = mgr.list_sessions();
    assert_eq!(list.len(), 2);
    assert!(list[0].updated_at >= list[1].updated_at);
    assert!(list.iter().any(|s| s.id == a.id));
    assert!(list.iter().any(|s| s.id == b.id));
}

#[test]
fn session_manager_add_to_unknown_session_is_none() {
    let mut mgr = make_session_manager();
    assert!(mgr.add_message("missing", "user", "x").is_none());
    assert!(mgr.get_session("missing").is_none());
}

#[test]
fn session_manager_load_keeps_later_duplicate() {
    let mut mgr = make_session_manager();
    mgr.load(vec![
        Session { id: "s".into(), created_at: 1, updated_at: 1, messages: vec![] },
        Session { id: "s".into(), created_at: 2, updated_at: 5, messages: vec![] },
    ]);
    let s = mgr.get_session("s").unwrap();
    assert_eq!(s.updated_at, 5);
    assert_eq!(mgr.list_sessions().len(), 1);
    assert_eq!(clawtao::session::session_file_name("s"), "s.json");
}

fn store_with_session() -> (clawtao::store::json_store::JsonSessionStore, String) {
    let mut store = clawtao::store::json_store::JsonSessionStore::new(format!("/tmp/clawtao_test_{}", uuid::Uuid::new_v4()));
    let s = clawtao::store::new_session();
    store.create(&s).unwrap();
    (store, s.id)
}

#[test]
fn session_tests_add_assistant_tool_calls() {
    let (mut store, id) = store_with_session();
    let tc = vec![ToolCall {
        id: "call_1".into(),
        call_type: "function".into(),
        function: ToolCallFunction { name: "Read".into(), arguments: r#"{"path":"README.md"}"#.into() },
    }];
    assert!(clawtao::store::add_assistant_tool_calls(&mut store, &id, tc, "", None).is_ok());
    let session = store.get(&id).unwrap().unwrap();
    assert_eq!(session.messages.len(), 1);
    assert!(session.messages[0].tool_calls.is_some());
}

#[test]
fn session_tests_add_tool_result() {
    let (mut store, id) = store_with_session();
    assert!(clawtao::store::add_tool_result(&mut store, &id, "call_1", "file content here").is_ok());
    let session = store.get(&id).unwrap().unwrap();
    assert_eq!(session.messages.len(), 1);
    assert_eq!(session.messages[0].role, "tool");
    assert_eq!(session.messages[0].tool_call_id.as_deref(), Some("call_1"));
}
