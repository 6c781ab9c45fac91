//! Storage abstraction for session persistence, with the meaning of each
//! operation over a map from session id to session.

use vstd::prelude::*;
use crate::store::{Message, MessageView, Session, SessionView, session_views};
use crate::text::take_seq;

verus! {

/// A failed store operation.
#[derive(Debug)]
pub struct StoreError {
    pub detail: String,
}

/// The title a session has after a message is added: the first 50
/// characters of the first non-empty message.
pub open spec fn title_after(title: Seq<char>, content: Seq<char>) -> Seq<char> {
    if title.len() == 0 && content.len() > 0 {
        take_seq(content, 50)
    } else {
        title
    }
}

/// A session with one more message.
pub open spec fn with_message(s: SessionView, m: MessageView) -> SessionView {
    SessionView {
        title: title_after(s.title, m.content),
        messages: s.messages.push(m),
        updated_at: if m.timestamp > s.updated_at { m.timestamp } else { s.updated_at },
        ..s
    }
}

pub open spec fn store_create(m: Map<Seq<char>, SessionView>, s: SessionView) -> Map<Seq<char>, SessionView> {
    m.insert(s.id, s)
}

/// Adding a message to a session that is not there changes nothing.
pub open spec fn store_add_message(m: Map<Seq<char>, SessionView>, id: Seq<char>, msg: MessageView) -> Map<
    Seq<char>,
    SessionView,
> {
    if m.contains_key(id) {
        m.insert(id, with_message(m[id], msg))
    } else {
        m
    }
}

pub open spec fn store_delete(m: Map<Seq<char>, SessionView>, id: Seq<char>) -> Map<Seq<char>, SessionView> {
    m.remove(id)
}

/// Compaction metadata replaced; the messages are left alone.
pub open spec fn store_update_compaction(
    m: Map<Seq<char>, SessionView>,
    id: Seq<char>,
    summary: Option<Seq<char>>,
    last: Option<Seq<char>>,
) -> Map<Seq<char>, SessionView> {
    if m.contains_key(id) {
        m.insert(id, SessionView { compacted_summary: summary, compacted_message_id: last, ..m[id] })
    } else {
        m
    }
}

/// Most recently updated first.
pub open spec fn sorted_by_update(v: Seq<SessionView>) -> bool {
    forall|i: int, j: int| 0 <= i < j < v.len() ==> v[i].updated_at >= v[j].updated_at
}

/// `v` lists exactly the sessions of `m`, each once.
pub open spec fn lists_all(m: Map<Seq<char>, SessionView>, v: Seq<SessionView>) -> bool {
    &&& forall|i: int| 0 <= i < v.len() ==> m.contains_key(#[trigger] v[i].id) && m[v[i].id] == v[i]
    &&& forall|k: Seq<char>| #[trigger] m.contains_key(k) ==> exists|i: int| 0 <= i < v.len() && v[i].id == k
    &&& forall|i: int, j: int| 0 <= i < j < v.len() ==> v[i].id != v[j].id
}

pub open spec fn opt_session_view(o: Option<Session>) -> Option<SessionView> {
    match o {
        Some(s) => Some(s@),
        None => None,
    }
}

// ── Laws ─────────────────────────────────────────────────────────────

/// A created session is found under its id, as it was created.
pub proof fn law_get_after_create(m: Map<Seq<char>, SessionView>, s: SessionView)
    ensures
        store_create(m, s).contains_key(s.id),
        store_create(m, s)[s.id] == s,
{
}

/// Adding a message appends it to the session's history, keeps the
/// earlier messages as they were, and never moves the update time back.
pub proof fn law_add_appends(m: Map<Seq<char>, SessionView>, id: Seq<char>, msg: MessageView)
    requires
        m.contains_key(id),
    ensures
        store_add_message(m, id, msg)[id].messages == m[id].messages.push(msg),
        store_add_message(m, id, msg)[id].updated_at >= m[id].updated_at,
        store_add_message(m, id, msg)[id].updated_at >= msg.timestamp,
        store_add_message(m, id, msg).dom() == m.dom(),
{
}

/// A title, once set, stays; an untitled session takes the first 50
/// characters of its first non-empty message.
pub proof fn law_title_set_once(m: Map<Seq<char>, SessionView>, id: Seq<char>, msg: MessageView)
    requires
        m.contains_key(id),
    ensures
        m[id].title.len() > 0 ==> store_add_message(m, id, msg)[id].title == m[id].title,
        m[id].title.len() == 0 && msg.content.len() > 0 ==> store_add_message(m, id, msg)[id].title == take_seq(
            msg.content,
            50,
        ),
{
}

/// Recording a compaction never touches the stored messages.
pub proof fn law_compaction_keeps_history(
    m: Map<Seq<char>, SessionView>,
    id: Seq<char>,
    summary: Option<Seq<char>>,
    last: Option<Seq<char>>,
)
    requires
        m.contains_key(id),
    ensures
        store_update_compaction(m, id, summary, last)[id].messages == m[id].messages,
        store_update_compaction(m, id, summary, last)[id].compacted_summary == summary,
        store_update_compaction(m, id, summary, last)[id].compacted_message_id == last,
        store_update_compaction(m, id, summary, last).dom() == m.dom(),
{
    assert(store_update_compaction(m, id, summary, last).dom() =~= m.dom());
}

/// A deleted session is gone, and only it.
pub proof fn law_delete_removes(m: Map<Seq<char>, SessionView>, id: Seq<char>, other: Seq<char>)
    requires
        other != id,
    ensures
        !store_delete(m, id).contains_key(id),
        store_delete(m, id).contains_key(other) == m.contains_key(other),
        m.contains_key(other) ==> store_delete(m, id)[other] == m[other],
{
}

/// Storage for sessions.
///
/// A store verified here (such as the JSON store's cache) defines its model
/// and its invariant. A store written outside this library, over files or a
/// database, cannot: it keeps the unspecified defaults below, and its
/// methods are trusted to meet the contracts.
pub trait SessionStore {
    /// The stored sessions by id.
    closed spec fn sessions(&self) -> Map<Seq<char>, SessionView> {
        arbitrary()
    }

    /// What the store keeps true between operations.
    closed spec fn inv(&self) -> bool {
        arbitrary()
    }

    /// Whether every operation of the store succeeds (as for a store held
    /// in memory, with nothing to read or write outside it).
    closed spec fn infallible(&self) -> bool {
        arbitrary()
    }

    fn create(&mut self, session: &Session) -> (r: Result<(), StoreError>)
        requires
            old(self).inv(),
        ensures
            final(self).inv(),
            final(self).infallible() == old(self).infallible(),
            old(self).infallible() ==> r is Ok,
            r is Ok ==> final(self).sessions() == store_create(old(self).sessions(), session@),
            r is Err ==> final(self).sessions() == old(self).sessions();

    fn get(&self, id: &str) -> (r: Result<Option<Session>, StoreError>)
        requires
            self.inv(),
        ensures
            self.infallible() ==> r is Ok,
            r matches Ok(o) ==> opt_session_view(o) == (if self.sessions().contains_key(id@) {
                Some(self.sessions()[id@])
            } else {
                None
            });

    fn list(&self) -> (r: Result<Vec<Session>, StoreError>)
        requires
            self.inv(),
        ensures
            self.infallible() ==> r is Ok,
            r matches Ok(v) ==> sorted_by_update(session_views(v@)) && lists_all(
                self.sessions(),
                session_views(v@),
            );

    fn add_message(&mut self, session_id: &str, msg: &Message) -> (r: Result<(), StoreError>)
        requires
            old(self).inv(),
        ensures
            final(self).inv(),
            final(self).infallible() == old(self).infallible(),
            old(self).infallible() ==> r is Ok,
            r is Ok ==> final(self).sessions() == store_add_message(old(self).sessions(), session_id@, msg@),
            r is Err ==> final(self).sessions() == old(self).sessions();

    fn delete(&mut self, id: &str) -> (r: Result<(), StoreError>)
        requires
            old(self).inv(),
        ensures
            final(self).inv(),
            final(self).infallible() == old(self).infallible(),
            old(self).infallible() ==> r is Ok,
            r is Ok ==> final(self).sessions() == store_delete(old(self).sessions(), id@),
            r is Err ==> final(self).sessions() == old(self).sessions();

    /// Persist compaction metadata; the messages are not touched.
    fn update_compaction(&mut self, session_id: &str, summary: Option<&str>, last_msg_id: Option<&str>) -> (r:
        Result<(), StoreError>)
        requires
            old(self).inv(),
        ensures
            final(self).inv(),
            final(self).infallible() == old(self).infallible(),
            old(self).infallible() ==> r is Ok,
            r is Ok ==> final(self).sessions() == store_update_compaction(
                old(self).sessions(),
                session_id@,
                match summary {
                    Some(s) => Some(s@),
                    None => None,
                },
                match last_msg_id {
                    Some(s) => Some(s@),
                    None => None,
                },
            ),
            r is Err ==> final(self).sessions() == old(self).sessions();
}

} // verus!
