//! Answers to JSON-RPC requests.

use clawtao::handlers::{compact_request, not_found, ping, route, session_delete, session_get, session_tokens, HandlerError};
use clawtao::json::JsonValue;
use clawtao::jsonrpc::{get_param, get_param_opt, Request, Response};
use clawtao::store::json_store::JsonSessionStore;
use clawtao::store::store_trait::SessionStore;

/// A document read from JSON text.
fn json(text: &str) -> JsonValue {
    from_serde(serde_json::from_str(text).unwrap())
}

fn from_serde(v: serde_json::Value) -> JsonValue {
    match v {
        serde_json::Value::Null => JsonValue::Null,
        serde_json::Value::Bool(b) => JsonValue::Bool(b),
        serde_json::Value::Number(n) => JsonValue::Number(n.to_string()),
        serde_json::Value::String(s) => JsonValue::Str(s),
        serde_json::Value::Array(a) => JsonValue::Array(a.into_iter().map(from_serde).collect()),
        serde_json::Value::Object(o) => JsonValue::Object(o.into_iter().map(|(k, x)| (k, from_serde(x))).collect()),
    }
}

/// A document as a `serde_json::Value`, for inspection.
fn to_serde(v: &JsonValue) -> serde_json::Value {
    match v {
        JsonValue::Null => serde_json::Value::Null,
        JsonValue::Bool(b) => serde_json::Value::Bool(*b),
        JsonValue::Number(t) => serde_json::Value::Number(serde_json::from_str(t).unwrap()),
        JsonValue::Str(s) => serde_json::Value::String(s.clone()),
        JsonValue::Array(a) => serde_json::Value::Array(a.iter().map(to_serde).collect()),
        JsonValue::Object(o) => serde_json::Value::Object(o.iter().map(|(k, x)| (k.clone(), to_serde(x))).collect()),
    }
}


fn request(method: &str, params: Option<&str>) -> Request {
    Request {
        jsonrpc: "2.0".into(),
        id: Some(JsonValue::Number("7".into())),
        method: method.into(),
        params: params.map(json),
    }
}

fn result(r: &Response) -> serde_json::Value {
    to_serde(r.result.as_ref().unwrap())
}

#[test]
fn ping_answers_ok() {
    let r = ping(&request("ping", None));
    assert_eq!(result(&r)["status"], "ok");
    assert!(r.error.is_none());
}

#[test]
fn unknown_method_is_not_found() {
    let r = not_found(&request("nope", None));
    let e = r.error.unwrap();
    assert_eq!(e.code, -32601);
    assert_eq!(e.message, "Method not found: nope");
}

#[test]
fn route_create_get_list_delete() {
    let mut store = JsonSessionStore::new("/tmp/h".into());
    let r = route(&request("session.create", None), &mut store, &vec![], "/");
    let created = result(&r);
    let id = created["id"].as_str().unwrap().to_string();
    assert_eq!(created["messages"].as_array().unwrap().len(), 0);
    let got = route(&request("session.get", Some(&format!(r#"{{"sessionId":"{id}"}}"#))), &mut store, &vec![], "/");
    assert_eq!(result(&got)["id"], id.as_str());
    let list = route(&request("session.list", None), &mut store, &vec![], "/");
    assert_eq!(result(&list).as_array().unwrap().len(), 1);
    let del = route(&request("session.delete", Some(&format!(r#"{{"sessionId":"{id}"}}"#))), &mut store, &vec![], "/");
    assert_eq!(result(&del)["ok"], true);
    let missing = route(&request("session.get", Some(&format!(r#"{{"sessionId":"{id}"}}"#))), &mut store, &vec![], "/");
    assert_eq!(missing.error.unwrap().message, "Internal error: Session not found");
    let no_param = route(&request("session.get", None), &mut store, &vec![], "/");
    assert_eq!(no_param.error.unwrap().message, "Internal error: Missing parameter: sessionId");
    assert_eq!(route(&request("chat.nope", None), &mut store, &vec![], "/").error.unwrap().code, -32601);
}

#[test]
fn context_stats_for_unknown_session() {
    let mut store = JsonSessionStore::new("/tmp/h2".into());
    let r = route(&request("session.context_stats", Some(r#"{"sessionId":"x","base_url":"https://api.deepseek.com"}"#)), &mut store, &vec![], "/");
    let v = result(&r);
    assert_eq!(v["contextWindow"], 1_000_000);
    assert_eq!(v["systemTokens"], 0);
    assert_eq!(v["compacted"], false);
}

#[test]
fn session_get_needs_an_id() {
    let store = JsonSessionStore::new("/tmp/h3".into());
    assert!(session_get(&request("session.get", Some("{}")), &store).is_err());
    let _ = store.list();
}

#[test]
fn params_are_read_as_strings() {
    let p = Some(json(r#"{"a":"x","n":1}"#));
    assert_eq!(get_param(&p, "a").unwrap(), "x");
    assert_eq!(get_param(&p, "n").unwrap_err().message(), "Missing parameter: n");
    assert_eq!(get_param_opt(&p, "b"), None);
    assert_eq!(get_param_opt(&None, "a"), None);
}

#[test]
fn compact_request_errors() {
    assert_eq!(compact_request(&request("session.compact", Some(r#"{"sessionId":"s"}"#))).unwrap_err(), "Missing config");
    assert_eq!(
        compact_request(&request("session.compact", Some(r#"{"sessionId":"s","config":{"api_key":"k","base_url":"u"}}"#))).unwrap_err(),
        "Missing model"
    );
    let ok = compact_request(&request(
        "session.compact",
        Some(r#"{"sessionId":"s","config":{"api_key":"k","base_url":"u","model":"m","api_protocol":"openai"}}"#),
    )).unwrap();
    assert_eq!(ok.session_id, "s");
}

#[test]
fn chat_error_response_carries_code() {
    let r = Response::chat_error(None, &clawtao::error::ChatError::ServerOverloaded);
    let e = r.error.unwrap();
    assert_eq!(e.code, -32603);
    assert_eq!(e.error_code.as_deref(), Some("SERVER_OVERLOADED"));
    assert_eq!(e.retryable, Some(true));
}

fn plain(id: &str, role: &str, content: &str) -> clawtao::store::Message {
    clawtao::store::Message {
        id: id.into(),
        role: role.into(),
        content: content.into(),
        tool_calls: None,
        tool_call_id: None,
        thinking: None,
        timestamp: 1,
        image_paths: None,
    }
}

#[test]
fn context_stats_for_a_stored_session() {
    let mut store = JsonSessionStore::new("/tmp/h4".into());
    let s = clawtao::store::Session {
        id: "s".into(),
        created_at: 1,
        updated_at: 1,
        messages: vec![plain("a", "user", "abcdefgh"), plain("b", "assistant", "abcd")],
        title: String::new(),
        compacted_summary: None,
        compacted_message_id: None,
    };
    store.create(&s).unwrap();
    let r = route(&request("session.context_stats", Some(r#"{"sessionId":"s"}"#)), &mut store, &vec![], "/");
    let v = result(&r);
    assert_eq!(v["messageTokens"], 3);
    assert_eq!(v["contextWindow"], 256_000);
    assert_eq!(v["compacted"], false);
    let prompt = clawtao::system_prompt::build(&vec![], None, &vec![], &vec![], "/");
    assert_eq!(v["systemTokens"], clawtao::context::estimate_tokens(&prompt) as u64);
}

#[test]
fn compacted_session_counts_the_summary() {
    // Nothing after the compacted message is a user message, so the
    // summary travels as a message of its own.
    let s = clawtao::store::Session {
        id: "s".into(),
        created_at: 1,
        updated_at: 1,
        messages: vec![plain("a", "user", "xxxxxxxxxxxxxxxx"), plain("b", "assistant", "abcd")],
        title: String::new(),
        compacted_summary: Some("abcdefgh".into()),
        compacted_message_id: Some("a".into()),
    };
    assert_eq!(session_tokens(&s), 3);
}

#[test]
fn short_sessions_are_not_compacted() {
    let mut s = clawtao::store::Session {
        id: "s".into(),
        created_at: 1,
        updated_at: 1,
        messages: vec![plain("a", "user", "x"), plain("b", "assistant", "y")],
        title: String::new(),
        compacted_summary: None,
        compacted_message_id: None,
    };
    let refused = to_serde(&clawtao::handlers::compaction_precheck(&s).unwrap());
    assert_eq!(refused["compacted"], false);
    assert_eq!(refused["reason"], "too few messages to compact");
    for i in 0..4 {
        s.messages.push(plain(&format!("m{i}"), "user", "z"));
    }
    assert!(clawtao::handlers::compaction_precheck(&s).is_none());
}

#[test]
fn get_and_delete_answer_for_a_present_id() {
    let mut store = JsonSessionStore::new("/tmp/h5".into());
    assert!(matches!(
        session_get(&request("session.get", Some(r#"{"sessionId":"none"}"#)), &store),
        Err(HandlerError::NotFound)
    ));
    assert!(session_delete(&request("session.delete", Some(r#"{"sessionId":"none"}"#)), &mut store).is_ok());
    assert!(matches!(
        session_delete(&request("session.delete", Some("{}")), &mut store),
        Err(HandlerError::MissingParameter(_))
    ));
}

#[test]
fn compact_request_reads_every_setting() {
    let ok = compact_request(&request(
        "session.compact",
        Some(r#"{"sessionId":"s","config":{"api_key":"k","base_url":"u","model":"m","api_protocol":"anthropic"}}"#),
    ))
    .unwrap();
    assert_eq!(ok.api_key, "k");
    assert_eq!(ok.base_url, "u");
    assert_eq!(ok.model, "m");
    assert_eq!(ok.protocol, "anthropic");
}
