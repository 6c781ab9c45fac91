//! Session and message persistence: data types, constructors and the
//! message-appending helpers.

use vstd::prelude::*;
use crate::store::store_trait::{SessionStore, StoreError, store_add_message};

pub mod store_trait;
pub mod json_store;
pub mod wire;

verus! {

// ── Data types ────────────────────────────────────────────────────────

#[derive(Debug)]
pub struct ToolCallFunction {
    pub name: String,
    pub arguments: String,
}

#[derive(Debug)]
pub struct ToolCall {
    pub id: String,
    pub call_type: String,
    pub function: ToolCallFunction,
}

/// The model of a tool call.
pub struct ToolCallView {
    pub id: Seq<char>,
    pub call_type: Seq<char>,
    pub name: Seq<char>,
    pub arguments: Seq<char>,
}

impl View for ToolCall {
    type V = ToolCallView;

    open spec fn view(&self) -> ToolCallView {
        ToolCallView {
            id: self.id@,
            call_type: self.call_type@,
            name: self.function.name@,
            arguments: self.function.arguments@,
        }
    }
}

pub open spec fn tool_call_views(v: Seq<ToolCall>) -> Seq<ToolCallView> {
    v.map_values(|c: ToolCall| c@)
}

#[derive(Debug)]
pub struct Message {
    pub id: String,
    pub role: String,
    pub content: String,
    pub tool_calls: Option<Vec<ToolCall>>,
    pub tool_call_id: Option<String>,
    pub thinking: Option<String>,
    pub timestamp: i64,
    pub image_paths: Option<Vec<String>>,
}

/// The model of a message.
pub struct MessageView {
    pub id: Seq<char>,
    pub role: Seq<char>,
    pub content: Seq<char>,
    pub tool_calls: Option<Seq<ToolCallView>>,
    pub tool_call_id: Option<Seq<char>>,
    pub thinking: Option<Seq<char>>,
    pub timestamp: i64,
    pub image_paths: Option<Seq<Seq<char>>>,
}

pub open spec fn opt_str_view(o: Option<String>) -> Option<Seq<char>> {
    match o {
        Some(s) => Some(s@),
        None => None,
    }
}

pub open spec fn string_views(v: Seq<String>) -> Seq<Seq<char>> {
    v.map_values(|s: String| s@)
}

impl View for Message {
    type V = MessageView;

    open spec fn view(&self) -> MessageView {
        MessageView {
            id: self.id@,
            role: self.role@,
            content: self.content@,
            tool_calls: match self.tool_calls {
                Some(v) => Some(tool_call_views(v@)),
                None => None,
            },
            tool_call_id: opt_str_view(self.tool_call_id),
            thinking: opt_str_view(self.thinking),
            timestamp: self.timestamp,
            image_paths: match self.image_paths {
                Some(v) => Some(string_views(v@)),
                None => None,
            },
        }
    }
}

pub open spec fn message_views(v: Seq<Message>) -> Seq<MessageView> {
    v.map_values(|m: Message| m@)
}

#[derive(Debug)]
pub struct Session {
    pub id: String,
    pub created_at: i64,
    pub updated_at: i64,
    pub messages: Vec<Message>,
    pub title: String,
    pub compacted_summary: Option<String>,
    pub compacted_message_id: Option<String>,
}

/// The model of a session.
pub struct SessionView {
    pub id: Seq<char>,
    pub created_at: i64,
    pub updated_at: i64,
    pub messages: Seq<MessageView>,
    pub title: Seq<char>,
    pub compacted_summary: Option<Seq<char>>,
    pub compacted_message_id: Option<Seq<char>>,
}

impl View for Session {
    type V = SessionView;

    open spec fn view(&self) -> SessionView {
        SessionView {
            id: self.id@,
            created_at: self.created_at,
            updated_at: self.updated_at,
            messages: message_views(self.messages@),
            title: self.title@,
            compacted_summary: opt_str_view(self.compacted_summary),
            compacted_message_id: opt_str_view(self.compacted_message_id),
        }
    }
}

pub open spec fn session_views(v: Seq<Session>) -> Seq<SessionView> {
    v.map_values(|s: Session| s@)
}

// ── Copies ────────────────────────────────────────────────────────────

pub fn copy_strings(v: &Vec<String>) -> (r: Vec<String>)
    ensures
        r@ == v@,
{
    let mut out: Vec<String> = Vec::new();
    let mut i: usize = 0;
    while i < v.len()
        invariant
            i <= v@.len(),
            out@ == v@.take(i as int),
        decreases v@.len() - i,
    {
        out.push(v[i].clone());
        assert(out@ =~= v@.take(i + 1));
        i += 1;
    }
    assert(v@.take(v@.len() as int) =~= v@);
    out
}

pub fn copy_opt_string(s: &Option<String>) -> (r: Option<String>)
    ensures
        r == *s,
{
    match s {
        Some(t) => Some(t.clone()),
        None => None,
    }
}

impl ToolCall {
    pub fn duplicate(&self) -> (r: ToolCall)
        ensures
            r == *self,
    {
        ToolCall {
            id: self.id.clone(),
            call_type: self.call_type.clone(),
            function: ToolCallFunction {
                name: self.function.name.clone(),
                arguments: self.function.arguments.clone(),
            },
        }
    }
}

pub fn copy_tool_calls(v: &Vec<ToolCall>) -> (r: Vec<ToolCall>)
    ensures
        r@ == v@,
{
    let mut out: Vec<ToolCall> = Vec::new();
    let mut i: usize = 0;
    while i < v.len()
        invariant
            i <= v@.len(),
            out@ == v@.take(i as int),
        decreases v@.len() - i,
    {
        out.push(v[i].duplicate());
        assert(out@ =~= v@.take(i + 1));
        i += 1;
    }
    assert(v@.take(v@.len() as int) =~= v@);
    out
}

impl Message {
    pub fn duplicate(&self) -> (r: Message)
        ensures
            r@ == self@,
    {
        Message {
            id: self.id.clone(),
            role: self.role.clone(),
            content: self.content.clone(),
            tool_calls: match &self.tool_calls {
                Some(v) => Some(copy_tool_calls(v)),
                None => None,
            },
            tool_call_id: copy_opt_string(&self.tool_call_id),
            thinking: copy_opt_string(&self.thinking),
            timestamp: self.timestamp,
            image_paths: match &self.image_paths {
                Some(v) => Some(copy_strings(v)),
                None => None,
            },
        }
    }
}

pub fn copy_messages(v: &Vec<Message>) -> (r: Vec<Message>)
    ensures
        message_views(r@) == message_views(v@),
{
    let mut out: Vec<Message> = Vec::new();
    let mut i: usize = 0;
    while i < v.len()
        invariant
            i <= v@.len(),
            out@.len() == i,
            message_views(out@) == message_views(v@).take(i as int),
        decreases v@.len() - i,
    {
        let x = v[i].duplicate();
        let ghost before = out@;
        out.push(x);
        assert(out@ == before.push(x));
        assert(message_views(out@)[i as int] == x@);
        assert(message_views(out@) =~= message_views(v@).take(i + 1));
        i += 1;
    }
    assert(message_views(v@).take(v@.len() as int) =~= message_views(v@));
    out
}

impl Session {
    pub fn duplicate(&self) -> (r: Session)
        ensures
            r@ == self@,
    {
        Session {
            id: self.id.clone(),
            created_at: self.created_at,
            updated_at: self.updated_at,
            messages: copy_messages(&self.messages),
            title: self.title.clone(),
            compacted_summary: copy_opt_string(&self.compacted_summary),
            compacted_message_id: copy_opt_string(&self.compacted_message_id),
        }
    }
}

} // verus!

verus! {

// ── Constructors ──────────────────────────────────────────────────────

/// A plain message with the given id and timestamp.
pub fn message_with(id: String, timestamp: i64, role: &str, content: &str) -> (r: Message)
    ensures
        r@ == (MessageView {
            id: id@,
            role: role@,
            content: content@,
            tool_calls: None,
            tool_call_id: None,
            thinking: None,
            timestamp,
            image_paths: None,
        }),
{
    Message {
        id,
        role: crate::text::owned(role),
        content: crate::text::owned(content),
        tool_calls: None,
        tool_call_id: None,
        thinking: None,
        timestamp,
        image_paths: None,
    }
}

/// A new plain message with a fresh id, stamped now.
pub fn new_msg(role: &str, content: &str) -> (r: Message)
    ensures
        r@.role == role@,
        r@.content == content@,
        r@.tool_calls is None,
        r@.tool_call_id is None,
        r@.thinking is None,
        r@.image_paths is None,
{
    message_with(crate::ids::fresh_id(), crate::ids::now_millis(), role, content)
}

/// An empty session with the given id, created and updated at `now`.
pub fn session_with(id: String, now: i64) -> (r: Session)
    ensures
        r@ == (SessionView {
            id: id@,
            created_at: now,
            updated_at: now,
            messages: Seq::empty(),
            title: Seq::empty(),
            compacted_summary: None,
            compacted_message_id: None,
        }),
{
    let r = Session {
        id,
        created_at: now,
        updated_at: now,
        messages: Vec::new(),
        title: String::new(),
        compacted_summary: None,
        compacted_message_id: None,
    };
    assert(r@.messages =~= Seq::<MessageView>::empty());
    r
}

/// A new empty session with a fresh id, created now.
pub fn new_session() -> (r: Session)
    ensures
        r@.created_at == r@.updated_at,
        r@.messages.len() == 0,
        r@.title.len() == 0,
        r@.compacted_summary is None,
        r@.compacted_message_id is None,
{
    session_with(crate::ids::fresh_id(), crate::ids::now_millis())
}


// ── Appending messages ────────────────────────────────────────────────

/// Add a plain message with the given role and content to a session, and
/// hand back the message that was stored.
pub fn add_message<S: SessionStore>(store: &mut S, session_id: &str, role: &str, content: &str) -> (r: Result<
    Message,
    StoreError,
>)
    requires
        old(store).inv(),
    ensures
        final(store).inv(),
        final(store).infallible() == old(store).infallible(),
        old(store).infallible() ==> r is Ok,
        r matches Ok(m) ==> m@.role == role@ && m@.content == content@ && m@.tool_calls is None
            && m@.tool_call_id is None && m@.thinking is None && m@.image_paths is None
            && final(store).sessions() == store_add_message(old(store).sessions(), session_id@, m@),
        r is Err ==> final(store).sessions() == old(store).sessions(),
{
    let msg = new_msg(role, content);
    match store.add_message(session_id, &msg) {
        Ok(()) => Ok(msg),
        Err(e) => Err(e),
    }
}

pub open spec fn opt_ref_view(o: Option<&str>) -> Option<Seq<char>> {
    match o {
        Some(s) => Some(s@),
        None => None,
    }
}

fn opt_owned(o: Option<&str>) -> (r: Option<String>)
    ensures
        opt_str_view(r) == opt_ref_view(o),
{
    match o {
        Some(s) => Some(crate::text::owned(s)),
        None => None,
    }
}

/// Add an assistant message carrying optional thinking text.
pub fn add_assistant_message<S: SessionStore>(store: &mut S, session_id: &str, content: &str, thinking: Option<
    &str,
>) -> (r: Result<(), StoreError>)
    requires
        old(store).inv(),
    ensures
        final(store).inv(),
        final(store).infallible() == old(store).infallible(),
        old(store).infallible() ==> r is Ok,
        r is Ok ==> exists|m: MessageView|
            m.role == "assistant"@ && m.content == content@ && m.tool_calls is None && m.tool_call_id is None
                && m.thinking == opt_ref_view(thinking) && m.image_paths is None
                && #[trigger] store_add_message(old(store).sessions(), session_id@, m) == final(store).sessions(),
        r is Err ==> final(store).sessions() == old(store).sessions(),
{
    let mut msg = new_msg("assistant", content);
    msg.thinking = opt_owned(thinking);
    proof {
        reveal_strlit("assistant");
    }
    store.add_message(session_id, &msg)
}

/// Add an assistant message with tool calls and optional thinking.
pub fn add_assistant_tool_calls<S: SessionStore>(
    store: &mut S,
    session_id: &str,
    tool_calls: Vec<ToolCall>,
    content: &str,
    thinking: Option<&str>,
) -> (r: Result<(), StoreError>)
    requires
        old(store).inv(),
    ensures
        final(store).inv(),
        final(store).infallible() == old(store).infallible(),
        old(store).infallible() ==> r is Ok,
        r is Ok ==> exists|m: MessageView|
            m.role == "assistant"@ && m.content == content@ && m.tool_calls == Some(tool_call_views(tool_calls@))
                && m.tool_call_id is None && m.thinking == opt_ref_view(thinking) && m.image_paths is None
                && #[trigger] store_add_message(old(store).sessions(), session_id@, m) == final(store).sessions(),
        r is Err ==> final(store).sessions() == old(store).sessions(),
{
    let mut msg = new_msg("assistant", content);
    msg.tool_calls = Some(tool_calls);
    msg.thinking = opt_owned(thinking);
    proof {
        reveal_strlit("assistant");
    }
    store.add_message(session_id, &msg)
}

/// Add the result of one tool call.
pub fn add_tool_result<S: SessionStore>(store: &mut S, session_id: &str, tool_call_id: &str, content: &str) -> (r:
    Result<(), StoreError>)
    requires
        old(store).inv(),
    ensures
        final(store).inv(),
        final(store).infallible() == old(store).infallible(),
        old(store).infallible() ==> r is Ok,
        r is Ok ==> exists|m: MessageView|
            m.role == "tool"@ && m.content == content@ && m.tool_calls is None && m.tool_call_id == Some(tool_call_id@)
                && m.thinking is None && m.image_paths is None
                && #[trigger] store_add_message(old(store).sessions(), session_id@, m) == final(store).sessions(),
        r is Err ==> final(store).sessions() == old(store).sessions(),
{
    let mut msg = new_msg("tool", content);
    msg.tool_call_id = Some(crate::text::owned(tool_call_id));
    proof {
        reveal_strlit("tool");
    }
    store.add_message(session_id, &msg)
}

/// Add a user message that refers to saved image files.
pub fn add_user_message_with_images<S: SessionStore>(
    store: &mut S,
    session_id: &str,
    content: &str,
    image_paths: Vec<String>,
) -> (r: Result<(), StoreError>)
    requires
        old(store).inv(),
    ensures
        final(store).inv(),
        final(store).infallible() == old(store).infallible(),
        old(store).infallible() ==> r is Ok,
        r is Ok ==> exists|m: MessageView|
            m.role == "user"@ && m.content == content@ && m.tool_calls is None && m.tool_call_id is None
                && m.thinking is None && m.image_paths == Some(string_views(image_paths@))
                && #[trigger] store_add_message(old(store).sessions(), session_id@, m) == final(store).sessions(),
        r is Err ==> final(store).sessions() == old(store).sessions(),
{
    let mut msg = new_msg("user", content);
    msg.image_paths = Some(image_paths);
    proof {
        reveal_strlit("user");
    }
    store.add_message(session_id, &msg)
}

} // verus!
