//! The calls into std and outside crates, seen through the library.

use clawtao::config::LlmConfig;
use clawtao::json::JsonValue;
use clawtao::system_prompt::build;

#[test]
fn json_parses_and_renders() {
    assert!(clawtao::json::is_valid_json(r#"{"b":[1,true,null],"a":"x"}"#));
    assert!(!clawtao::json::is_valid_json("{"));
    assert_eq!(LlmConfig::check_probe_response(200, r#"{"error":{"message":"bad key"}}"#), Err("bad key".to_string()));
    assert_eq!(LlmConfig::check_probe_response(200, "not json"), Ok(()));
    let check = LlmConfig::test_connection("https://x/v1/", "m", "k", "openai");
    let body = check.completion_request().body.unwrap();
    let back: serde_json::Value = serde_json::from_str(&body).unwrap();
    assert_eq!(back["model"], "m");
    assert_eq!(back["max_tokens"], 1);
    assert_eq!(back["messages"][0]["content"], "hi");
    assert_eq!(back["stream"], false);
}

#[test]
fn lowercase_is_unicode_aware() {
    assert_eq!(clawtao::context::provider_context_window("HTTPS://API.DeepSeek.COM/v1"), 1_000_000);
    assert!(clawtao::context::is_context_length_error("Maximum Context Length exceeded"));
}

#[test]
fn characters_are_appended_in_order() {
    assert_eq!(clawtao::text::u64_to_decimal(9051), "9051");
}

#[test]
fn fresh_ids_differ_and_clock_moves() {
    let a = clawtao::store::new_msg("user", "x");
    let b = clawtao::store::new_msg("user", "x");
    assert_ne!(a.id, b.id);
    assert_eq!(a.id.len(), 36);
    assert!(a.timestamp > 1_600_000_000_000);
    let s = clawtao::store::new_session();
    assert_eq!(s.id.len(), 36);
    assert!(s.created_at > 1_600_000_000_000);
}

#[test]
fn system_prompt_is_assembled_in_order() {
    let tools = vec![clawtao::llm::types::UnifiedTool {
        name: "Read".into(),
        description: "Read a file".into(),
        parameters: JsonValue::Object(vec![]),
    }];
    let injected = vec![("pdf".to_string(), "BODY".to_string())];
    let p = build(&tools, Some("/ws"), &vec![], &injected, "/cwd");
    assert!(p.starts_with("You are ClawTao, a desktop AI agent. Working directory: /cwd.\nSandbox is active: Bash commands are restricted to write only in /ws. Use this path for all file operations.\n\nAvailable tools:\n- Read: Read a file\n\nRead before Edit"));
    assert!(p.ends_with("\nThe user explicitly referenced the @pdf skill. Its full content is loaded below. Follow its instructions.\n\nBODY"));
}
