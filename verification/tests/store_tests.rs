//! The message-appending helpers over a session store.

use clawtao::store;
use clawtao::store::json_store::JsonSessionStore;
use clawtao::store::store_trait::SessionStore;

fn make_store() -> JsonSessionStore {
    JsonSessionStore::new(format!("/tmp/clawtao_tests/{}", uuid::Uuid::new_v4().to_string()))
}

#[test]
fn store_tests_create_and_get_session() {
    let mut s = make_store();
    let session = store::new_session();
    s.create(&session).unwrap();
    let retrieved = s.get(&session.id).unwrap().unwrap();
    assert_eq!(retrieved.id, session.id);
}

#[test]
fn store_tests_add_user_message() {
    let mut s = make_store();
    let session = store::new_session();
    s.create(&session).unwrap();
    store::add_message(&mut s, &session.id, "user", "hello").unwrap();
    let got = s.get(&session.id).unwrap().unwrap();
    assert_eq!(got.messages.len(), 1);
    assert_eq!(got.messages[0].role, "user");
}

#[test]
fn store_tests_add_assistant_tool_calls() {
    let mut s = make_store();
    let session = store::new_session();
    s.create(&session).unwrap();
    store::add_assistant_tool_calls(&mut s, &session.id, vec![store::ToolCall {
        id: "call_1".into(), call_type: "function".into(),
        function: store::ToolCallFunction { name: "Read".into(), arguments: r#"{"path":"README.md"}"#.into() },
    }], "", None).unwrap();
    let got = s.get(&session.id).unwrap().unwrap();
    assert_eq!(got.messages.len(), 1);
    assert!(got.messages[0].tool_calls.is_some());
}

#[test]
fn store_tests_add_tool_result() {
    let mut s = make_store();
    let session = store::new_session();
    s.create(&session).unwrap();
    store::add_tool_result(&mut s, &session.id, "call_1", "file content here").unwrap();
    let got = s.get(&session.id).unwrap().unwrap();
    assert_eq!(got.messages.len(), 1);
    assert_eq!(got.messages[0].role, "tool");
    assert_eq!(got.messages[0].tool_call_id.as_deref(), Some("call_1"));
}

#[test]
fn store_tests_session_list_empty() {
    let s = make_store();
    assert!(s.list().unwrap().is_empty());
}

#[test]
fn assistant_message_keeps_thinking_and_title_comes_from_first_message() {
    let mut s = make_store();
    let session = store::new_session();
    s.create(&session).unwrap();
    store::add_message(&mut s, &session.id, "user", "").unwrap();
    store::add_assistant_message(&mut s, &session.id, "answer", Some("because")).unwrap();
    store::add_message(&mut s, &session.id, "user", "second").unwrap();
    let got = s.get(&session.id).unwrap().unwrap();
    assert_eq!(got.title, "answer");
    assert_eq!(got.messages[1].thinking.as_deref(), Some("because"));
}

#[test]
fn title_is_cut_to_fifty_characters() {
    let mut s = make_store();
    let session = store::new_session();
    s.create(&session).unwrap();
    let long: String = std::iter::repeat('é').take(80).collect();
    store::add_message(&mut s, &session.id, "user", &long).unwrap();
    let got = s.get(&session.id).unwrap().unwrap();
    assert_eq!(got.title.chars().count(), 50);
}

#[test]
fn user_message_with_images_records_paths() {
    let mut s = make_store();
    let session = store::new_session();
    s.create(&session).unwrap();
    store::add_user_message_with_images(&mut s, &session.id, "look", vec!["/i/a.png".into()]).unwrap();
    let got = s.get(&session.id).unwrap().unwrap();
    assert_eq!(got.messages[0].image_paths, Some(vec!["/i/a.png".to_string()]));
}
