//! Provider configuration: log level, masking, defaults and connection checks.

use clawtao::config::{default_base_url, default_model, LlmConfig};
use clawtao::json::JsonValue;

/// A document as a `serde_json::Value`, for inspection.
fn to_serde(v: &JsonValue) -> serde_json::Value {
    match v {
        JsonValue::Null => serde_json::Value::Null,
        JsonValue::Bool(b) => serde_json::Value::Bool(*b),
        JsonValue::Number(t) => serde_json::Value::Number(serde_json::from_str(t).unwrap()),
        JsonValue::Str(s) => serde_json::Value::String(s.clone()),
        JsonValue::Array(a) => serde_json::Value::Array(a.iter().map(to_serde).collect()),
        JsonValue::Object(o) => serde_json::Value::Object(o.iter().map(|(k, x)| (k.clone(), to_serde(x))).collect()),
    }
}

fn make_config(key: &str) -> LlmConfig {
    LlmConfig {
        log_level: "info".into(),
        provider: "openai".into(),
        api_key: key.into(),
        base_url: default_base_url(),
        model: default_model(),
        bash_blocked_commands: vec![],
        models: vec![],
        api_protocol: "openai".into(),
        bash_timeout_secs: Some(600),
    }
}

#[test]
fn default_log_level_is_info() {
    let mut config = make_config("sk-test");
    config.log_level = String::new();
    assert_eq!(config.effective_log_level(), "info");
}

#[test]
fn persisted_log_level_overrides_default() {
    let mut config = make_config("sk-test");
    config.log_level = "debug".into();
    assert_eq!(config.effective_log_level(), "debug");
}

#[test]
fn masked_key_normal() {
    assert_eq!(make_config("sk-1234567890abcdef").masked().api_key, "sk-1**cdef");
}

#[test]
fn masked_key_short() {
    assert_eq!(make_config("123").masked().api_key, "***");
}

#[test]
fn effective_log_level_uses_config_value() {
    let mut config = make_config("sk-test");
    config.log_level = "trace".into();
    assert_eq!(config.effective_log_level(), "trace");
    config.log_level = "error".into();
    assert_eq!(config.effective_log_level(), "error");
}

#[test]
fn masked_keeps_everything_but_the_key() {
    let c = make_config("12345678");
    let m = c.masked();
    assert_eq!(m.api_key, "***");
    assert_eq!(m.model, c.model);
    assert_eq!(m.base_url, c.base_url);
    assert_eq!(make_config("abcd€efgh").masked().api_key, "abcd**efgh");
}

#[test]
fn first_run_defaults() {
    let c = clawtao::config::first_run_config(None, None, Some("m".into()));
    assert_eq!(c.api_key, "");
    assert_eq!(c.base_url, "https://api.openai.com/v1");
    assert_eq!(c.model, "m");
    assert_eq!(c.api_protocol, "openai");
    assert_eq!(c.bash_timeout_secs, Some(600));
    assert_eq!(c.bash_blocked_commands.len(), 11);
    assert_eq!(c.bash_blocked_commands[0], "rm -rf /");
}

#[test]
fn connection_check_requests() {
    let check = LlmConfig::test_connection("https://api.example.com/v1//", "gpt", "k", "openai");
    let probe = check.models_request();
    assert!(probe.get);
    assert_eq!(probe.url, "https://api.example.com/v1/models");
    assert_eq!(probe.headers, vec![("Authorization".to_string(), "Bearer k".to_string())]);
    let post = check.completion_request();
    assert!(!post.get);
    assert_eq!(post.url, "https://api.example.com/v1/chat/completions");
    let body: serde_json::Value = serde_json::from_str(post.body.as_deref().unwrap()).unwrap();
    assert_eq!(body["model"], "gpt");
    assert_eq!(body["max_tokens"], 1);
    assert_eq!(body["messages"][0]["content"], "hi");
    let anth = LlmConfig::test_connection("https://a.example.com", "sonnet", "k2", "anthropic");
    assert_eq!(anth.models_request().url, "https://a.example.com/v1/models?limit=1");
    assert_eq!(anth.completion_request().url, "https://a.example.com/v1/messages");
}

#[test]
fn connection_check_verdicts() {
    let check = LlmConfig::test_connection("u", "m", "k", "openai");
    assert_eq!(check.after_models(Some(200)), Some(Ok(())));
    assert_eq!(check.after_models(Some(429)), Some(Ok(())));
    assert_eq!(check.after_models(Some(401)), Some(Err("Invalid API key".to_string())));
    assert_eq!(check.after_models(Some(404)), None);
    assert_eq!(check.after_models(None), None);
    assert_eq!(LlmConfig::check_probe_response(429, "whatever"), Ok(()));
    assert_eq!(LlmConfig::check_probe_response(500, "boom"), Err("HTTP 500: boom".to_string()));
    assert_eq!(
        LlmConfig::check_probe_response(200, r#"{"error":{"message":"quota"}}"#),
        Err("quota".to_string())
    );
    assert_eq!(LlmConfig::check_probe_response(200, "{}"), Ok(()));
    assert_eq!(LlmConfig::probe_unreachable("refused"), Err("Network error: refused".to_string()));
}

#[test]
fn save_excludes_api_key() {
    let mut config = make_config("my-secret-key");
    config.models = vec!["gpt-4o".into(), "o3".into()];
    config.bash_blocked_commands = vec!["rm -rf /".into()];
    let json = to_serde(&config.config_file_value());
    let obj = json.as_object().unwrap();
    assert!(!obj.contains_key("api_key"));
    assert!(!json.to_string().contains("my-secret-key"));
    assert_eq!(obj["model"], default_model().as_str());
    assert_eq!(obj["provider"], "openai");
    assert_eq!(obj["base_url"], default_base_url().as_str());
    assert_eq!(obj["models"][1], "o3");
    assert_eq!(obj["log_level"], "info");
    assert_eq!(obj["bash_blocked_commands"][0], "rm -rf /");
    assert_eq!(obj["api_protocol"], "openai");
    assert_eq!(obj["bash_timeout_secs"], 600);
    assert_eq!(obj.len(), 8);
    config.bash_timeout_secs = None;
    assert!(to_serde(&config.config_file_value())["bash_timeout_secs"].is_null());
}
