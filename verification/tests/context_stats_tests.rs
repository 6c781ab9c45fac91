//! The inputs of the context-usage snapshot.

use clawtao::chat::compaction::build_effective_messages;
use clawtao::context::{estimate_total_tokens_from_store, provider_context_window};
use clawtao::system_prompt::build;
use clawtao::store::json_store::JsonSessionStore;
use clawtao::store::store_trait::SessionStore;
use clawtao::store::{Message, Session};

fn msg(id: &str, role: &str, content: &str) -> Message {
    Message {
        id: id.into(),
        role: role.into(),
        content: content.into(),
        tool_calls: None,
        tool_call_id: None,
        thinking: None,
        timestamp: 1000,
        image_paths: None,
    }
}

fn build_session(messages: Vec<Message>, compacted_summary: Option<String>, compacted_id: Option<String>) -> Session {
    Session {
        id: "s1".into(),
        created_at: 1000,
        updated_at: 2000,
        messages,
        title: String::new(),
        compacted_summary,
        compacted_message_id: compacted_id,
    }
}

#[test]
fn context_window_matches_provider() {
    assert_eq!(provider_context_window("https://api.deepseek.com/anthropic"), 1_000_000);
    assert_eq!(provider_context_window("https://api.minimaxi.com/anthropic"), 1_000_000);
    assert_eq!(provider_context_window("https://unknown.example.com"), 256_000);
}

#[test]
fn system_prompt_includes_workspace_when_set() {
    let with_ws = build(&vec![], Some("/tmp/sandbox"), &vec![], &vec![], "/home");
    assert!(with_ws.contains("/tmp/sandbox"));
    let without_ws = build(&vec![], None, &vec![], &vec![], "/home");
    assert!(!without_ws.contains("Sandbox is active"));
}

#[test]
fn store_round_trip_preserves_messages_for_handler_input() {
    let mut store = JsonSessionStore::new("/tmp/clawtao_stats".into());
    let session = build_session(
        vec![msg("u1", "user", "hello"), msg("a1", "assistant", "hi back")],
        None,
        None,
    );
    store.create(&session).unwrap();

    let loaded = store.get("s1").unwrap().unwrap();
    assert_eq!(loaded.messages.len(), 2);
    assert_eq!(loaded.messages[0].content, "hello");
    assert_eq!(loaded.messages[1].content, "hi back");
}

#[test]
fn store_round_trip_preserves_compaction_metadata() {
    let mut store = JsonSessionStore::new("/tmp/clawtao_stats".into());
    let session = build_session(
        vec![msg("u1", "user", "hi")],
        Some("summary text".into()),
        Some("u1".into()),
    );
    store.create(&session).unwrap();

    let loaded = store.get("s1").unwrap().unwrap();
    assert_eq!(loaded.compacted_summary.as_deref(), Some("summary text"));
    assert_eq!(loaded.compacted_message_id.as_deref(), Some("u1"));
}

#[test]
fn effective_messages_drops_compacted_prefix() {
    let messages = vec![
        msg("u1", "user", "old 1"),
        msg("a1", "assistant", "old 2"),
        msg("u2", "user", "new 1"),
        msg("a2", "assistant", "new 2"),
    ];
    let effective = build_effective_messages(&messages, "u1", "summary");
    assert_eq!(effective.len(), 3);
    assert_eq!(effective[0].id, "a1");
    let u2_idx = effective.iter().position(|m| m.id == "u2").unwrap();
    assert!(effective[u2_idx].content.starts_with("Another language model"));
    assert!(effective[u2_idx].content.contains("summary"));
    assert!(effective[u2_idx].content.contains("new 1"));
}

#[test]
fn estimate_total_with_workspace_grows_vs_without() {
    let tools = vec![clawtao::llm::types::UnifiedTool {
        name: "Read".into(),
        description: "Read a file".into(),
        parameters: clawtao::json::JsonValue::Object(vec![]),
    }];
    let s_with = build(&tools, Some("/tmp/foo"), &vec![], &vec![], "/");
    let s_without = build(&tools, None, &vec![], &vec![], "/");
    let n_with = estimate_total_tokens_from_store(&s_with, &vec![], &tools, "");
    let n_without = estimate_total_tokens_from_store(&s_without, &vec![], &tools, "");
    assert!(n_with > n_without, "expected with-workspace tokens > without, got {n_with} vs {n_without}");
}
