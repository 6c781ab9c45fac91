//! The cache side of the JSONL session store.

use clawtao::store::json_store::{replay_session, JsonSessionStore, LogLine};
use clawtao::store::store_trait::SessionStore;
use clawtao::store::{Message, Session};

fn make_store() -> JsonSessionStore {
    JsonSessionStore::new(format!("/tmp/clawtao_test_json_{}", uuid::Uuid::new_v4().to_string()))
}

fn msg(id: &str, role: &str, content: &str) -> Message {
    Message { id: id.into(), role: role.into(), content: content.into(), tool_calls: None, tool_call_id: None, thinking: None, timestamp: 1000, image_paths: None }
}

fn session(id: &str, created_at: i64, updated_at: i64) -> Session {
    Session { id: id.into(), created_at, updated_at, messages: vec![], title: String::new(), compacted_summary: None, compacted_message_id: None }
}

#[test]
fn json_store_tests_create_and_get() {
    let mut store = make_store();
    let s = session("s1", 1000, 2000);
    store.create(&s).unwrap();
    let got = store.get("s1").unwrap().unwrap();
    assert_eq!(got.id, "s1");
}

#[test]
fn list_orders_by_updated_desc() {
    let mut store = make_store();
    store.create(&session("a", 1, 100)).unwrap();
    store.create(&session("b", 2, 200)).unwrap();
    let list = store.list().unwrap();
    assert_eq!(list[0].id, "b");
    assert_eq!(list[1].id, "a");
}

#[test]
fn add_message_append() {
    let mut store = make_store();
    store.create(&session("s1", 1000, 1000)).unwrap();
    store.add_message("s1", &msg("m1", "user", "hello")).unwrap();
    store.add_message("s1", &msg("m2", "assistant", "hi")).unwrap();
    let session = store.get("s1").unwrap().unwrap();
    assert_eq!(session.messages.len(), 2);
}

#[test]
fn delete_session() {
    let mut store = make_store();
    store.create(&session("s1", 1000, 1000)).unwrap();
    assert!(store.get("s1").unwrap().is_some());
    store.delete("s1").unwrap();
    assert!(store.get("s1").unwrap().is_none());
}

#[test]
fn get_nonexistent_returns_none() {
    let store = make_store();
    assert!(store.get("nope").unwrap().is_none());
}

#[test]
fn session_file_is_named_after_the_id() {
    let store = JsonSessionStore::new("/data/sessions".into());
    assert_eq!(store.session_path("abc"), "/data/sessions/abc.jsonl");
}

#[test]
fn replay_builds_session_from_lines() {
    let mut m1 = msg("m1", "user", "a");
    m1.timestamp = 5;
    let mut m2 = msg("m2", "assistant", "b");
    m2.timestamp = 3;
    let s = replay_session("id1", vec![LogLine::Blank, LogLine::Entry(m1), LogLine::Unreadable, LogLine::Entry(m2)]).unwrap();
    assert_eq!(s.id, "id1");
    assert_eq!(s.created_at, 5);
    assert_eq!(s.updated_at, 5);
    assert_eq!(s.messages.len(), 2);
    assert!(replay_session("x", vec![LogLine::Blank]).is_none());
}

#[test]
fn replay_header_replaces_what_came_before() {
    let s = replay_session("x", vec![LogLine::Entry(msg("m", "user", "a")), LogLine::Header(session("x", 7, 9))]).unwrap();
    assert_eq!(s.messages.len(), 0);
    assert_eq!(s.updated_at, 9);
}

#[test]
fn load_file_falls_back_to_empty_session() {
    let mut store = make_store();
    store.load_file("e", vec![LogLine::Unreadable]);
    let s = store.get("e").unwrap().unwrap();
    assert_eq!(s.created_at, 0);
    assert!(s.messages.is_empty());
}

#[test]
fn compaction_metadata_leaves_messages_alone() {
    let mut store = make_store();
    store.create(&session("s1", 1, 1)).unwrap();
    store.add_message("s1", &msg("m1", "user", "hello")).unwrap();
    store.update_compaction("s1", Some("sum"), Some("m1")).unwrap();
    let s = store.get("s1").unwrap().unwrap();
    assert_eq!(s.messages.len(), 1);
    assert_eq!(s.compacted_summary.as_deref(), Some("sum"));
    store.update_compaction("s1", None, None).unwrap();
    assert!(store.get("s1").unwrap().unwrap().compacted_summary.is_none());
}

#[test]
fn written_file_reads_back_as_the_cached_session() {
    let mut store = make_store();
    let mut s = session("s1", 10, 10);
    s.title = "kept".into();
    store.create(&s).unwrap();
    let mut m1 = msg("m1", "user", "hello");
    m1.timestamp = 20;
    let mut m2 = msg("m2", "assistant", "hi");
    m2.timestamp = 15;
    store.add_message("s1", &m1).unwrap();
    store.add_message("s1", &m2).unwrap();
    let cached = store.get("s1").unwrap().unwrap();
    let read = replay_session("s1", vec![LogLine::Header(s), LogLine::Entry(m1), LogLine::Entry(m2)]).unwrap();
    assert_eq!(read.title, cached.title);
    assert_eq!(read.updated_at, cached.updated_at);
    assert_eq!(read.updated_at, 20);
    let ids: Vec<&str> = read.messages.iter().map(|m| m.id.as_str()).collect();
    let cached_ids: Vec<&str> = cached.messages.iter().map(|m| m.id.as_str()).collect();
    assert_eq!(ids, cached_ids);
}
