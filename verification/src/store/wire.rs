//! The JSON form of sessions and messages, as the frontend receives them.
//! Optional members are left out when absent.

use vstd::prelude::*;
use crate::json::{
    Json, JsonMember, JsonValue, field, json_array, json_i64, json_str, json_views, member, member_views, object,
    signed_decimal,
};
use crate::store::{
    Message, MessageView, Session, SessionView, ToolCall, ToolCallView, message_views, session_views, string_views,
    tool_call_views,
};

verus! {

pub open spec fn tool_call_json(c: ToolCallView) -> Json {
    Json::Object(
        seq![
            member("id"@, Json::Str(c.id)),
            member("type"@, Json::Str(c.call_type)),
            member(
                "function"@,
                Json::Object(seq![member("name"@, Json::Str(c.name)), member("arguments"@, Json::Str(c.arguments))]),
            ),
        ],
    )
}

pub open spec fn str_array(v: Seq<Seq<char>>) -> Json {
    Json::Array(v.map_values(|s: Seq<char>| Json::Str(s)))
}

/// An optional member: present with the value, or absent.
pub open spec fn opt_member(name: Seq<char>, v: Option<Json>) -> Seq<JsonMember> {
    match v {
        Some(x) => seq![member(name, x)],
        None => Seq::empty(),
    }
}

pub open spec fn opt_str_json(o: Option<Seq<char>>) -> Option<Json> {
    match o {
        Some(s) => Some(Json::Str(s)),
        None => None,
    }
}

/// A message as JSON.
pub open spec fn message_json(m: MessageView) -> Json {
    Json::Object(
        seq![member("id"@, Json::Str(m.id)), member("role"@, Json::Str(m.role)), member("content"@, Json::Str(m.content))]
            + opt_member(
            "tool_calls"@,
            match m.tool_calls {
                Some(c) => Some(Json::Array(c.map_values(|x: ToolCallView| tool_call_json(x)))),
                None => None,
            },
        ) + opt_member("tool_call_id"@, opt_str_json(m.tool_call_id)) + opt_member(
            "thinking"@,
            opt_str_json(m.thinking),
        ) + seq![member("timestamp"@, Json::Number(signed_decimal(m.timestamp as int)))] + opt_member(
            "image_paths"@,
            match m.image_paths {
                Some(p) => Some(str_array(p)),
                None => None,
            },
        ),
    )
}

/// A session as JSON.
pub open spec fn session_json(s: SessionView) -> Json {
    Json::Object(
        seq![
            member("id"@, Json::Str(s.id)),
            member("created_at"@, Json::Number(signed_decimal(s.created_at as int))),
            member("updated_at"@, Json::Number(signed_decimal(s.updated_at as int))),
            member("messages"@, Json::Array(s.messages.map_values(|m: MessageView| message_json(m)))),
            member("title"@, Json::Str(s.title)),
        ] + opt_member("compacted_summary"@, opt_str_json(s.compacted_summary)) + opt_member(
            "compacted_message_id"@,
            opt_str_json(s.compacted_message_id),
        ),
    )
}

fn push_member(v: &mut Vec<(String, JsonValue)>, name: &str, value: JsonValue)
    ensures
        member_views(final(v)@) == member_views(old(v)@).push(member(name@, value@)),
{
    let ghost before = v@;
    let f = field(name, value);
    v.push(f);
    assert(member_views(v@) =~= member_views(before).push(member(name@, f.1@)));
}

fn tool_call_value(c: &ToolCall) -> (r: JsonValue)
    ensures
        r@ == tool_call_json(c@),
{
    let mut f: Vec<(String, JsonValue)> = Vec::new();
    push_member(&mut f, "name", json_str(c.function.name.as_str()));
    push_member(&mut f, "arguments", json_str(c.function.arguments.as_str()));
    assert(member_views(f@) =~= seq![member("name"@, Json::Str(c@.name)), member("arguments"@, Json::Str(c@.arguments))]);
    let mut v: Vec<(String, JsonValue)> = Vec::new();
    push_member(&mut v, "id", json_str(c.id.as_str()));
    push_member(&mut v, "type", json_str(c.call_type.as_str()));
    let fv = object(f);
    push_member(&mut v, "function", fv);
    assert(member_views(v@) =~= tool_call_json(c@)->Object_0);
    object(v)
}

pub(crate) fn strings_value(v: &Vec<String>) -> (r: JsonValue)
    ensures
        r@ == str_array(string_views(v@)),
{
    let mut out: Vec<JsonValue> = Vec::new();
    let mut i: usize = 0;
    let ghost want = string_views(v@).map_values(|s: Seq<char>| Json::Str(s));
    while i < v.len()
        invariant
            i <= v@.len(),
            want == string_views(v@).map_values(|s: Seq<char>| Json::Str(s)),
            json_views(out@) == want.take(i as int),
        decreases v@.len() - i,
    {
        crate::json::push_json(&mut out, json_str(v[i].as_str()));
        assert(json_views(out@) =~= want.take(i + 1));
        i += 1;
    }
    assert(want.take(v@.len() as int) =~= want);
    json_array(out)
}

/// A message as JSON.
pub fn message_value(m: &Message) -> (r: JsonValue)
    ensures
        r@ == message_json(m@),
{
    let ghost want = message_json(m@)->Object_0;
    let mut v: Vec<(String, JsonValue)> = Vec::new();
    push_member(&mut v, "id", json_str(m.id.as_str()));
    push_member(&mut v, "role", json_str(m.role.as_str()));
    push_member(&mut v, "content", json_str(m.content.as_str()));
    let ghost base = member_views(v@);
    match &m.tool_calls {
        Some(calls) => {
            let ghost cs = tool_call_views(calls@);
            let ghost wc = cs.map_values(|x: ToolCallView| tool_call_json(x));
            let mut arr: Vec<JsonValue> = Vec::new();
            let mut i: usize = 0;
            while i < calls.len()
                invariant
                    i <= calls@.len(),
                    cs == tool_call_views(calls@),
                    wc == cs.map_values(|x: ToolCallView| tool_call_json(x)),
                    json_views(arr@) == wc.take(i as int),
                decreases calls@.len() - i,
            {
                crate::json::push_json(&mut arr, tool_call_value(&calls[i]));
                assert(json_views(arr@) =~= wc.take(i + 1));
                i += 1;
            }
            assert(wc.take(calls@.len() as int) =~= wc);
            push_member(&mut v, "tool_calls", json_array(arr));
        },
        None => {},
    }
    match &m.tool_call_id {
        Some(t) => push_member(&mut v, "tool_call_id", json_str(t.as_str())),
        None => {},
    }
    match &m.thinking {
        Some(t) => push_member(&mut v, "thinking", json_str(t.as_str())),
        None => {},
    }
    push_member(&mut v, "timestamp", json_i64(m.timestamp));
    match &m.image_paths {
        Some(p) => push_member(&mut v, "image_paths", strings_value(p)),
        None => {},
    }
    assert(member_views(v@) =~= want);
    object(v)
}

/// A session as JSON.
pub fn session_value(s: &Session) -> (r: JsonValue)
    ensures
        r@ == session_json(s@),
{
    let ghost want = session_json(s@)->Object_0;
    let ghost ms = message_views(s.messages@);
    let ghost wm = ms.map_values(|m: MessageView| message_json(m));
    let mut arr: Vec<JsonValue> = Vec::new();
    let mut i: usize = 0;
    while i < s.messages.len()
        invariant
            i <= s.messages@.len(),
            ms == message_views(s.messages@),
            wm == ms.map_values(|m: MessageView| message_json(m)),
            json_views(arr@) == wm.take(i as int),
        decreases s.messages@.len() - i,
    {
        crate::json::push_json(&mut arr, message_value(&s.messages[i]));
        assert(json_views(arr@) =~= wm.take(i + 1));
        i += 1;
    }
    assert(wm.take(s.messages@.len() as int) =~= wm);
    let mut v: Vec<(String, JsonValue)> = Vec::new();
    push_member(&mut v, "id", json_str(s.id.as_str()));
    push_member(&mut v, "created_at", json_i64(s.created_at));
    push_member(&mut v, "updated_at", json_i64(s.updated_at));
    push_member(&mut v, "messages", json_array(arr));
    push_member(&mut v, "title", json_str(s.title.as_str()));
    match &s.compacted_summary {
        Some(t) => push_member(&mut v, "compacted_summary", json_str(t.as_str())),
        None => {},
    }
    match &s.compacted_message_id {
        Some(t) => push_member(&mut v, "compacted_message_id", json_str(t.as_str())),
        None => {},
    }
    assert(member_views(v@) =~= want);
    object(v)
}

/// A list of sessions as a JSON array.
pub fn sessions_value(v: &Vec<Session>) -> (r: JsonValue)
    ensures
        r@ == Json::Array(session_views(v@).map_values(|s: SessionView| session_json(s))),
{
    let ghost want = session_views(v@).map_values(|s: SessionView| session_json(s));
    let mut arr: Vec<JsonValue> = Vec::new();
    let mut i: usize = 0;
    while i < v.len()
        invariant
            i <= v@.len(),
            want == session_views(v@).map_values(|s: SessionView| session_json(s)),
            json_views(arr@) == want.take(i as int),
        decreases v@.len() - i,
    {
        crate::json::push_json(&mut arr, session_value(&v[i]));
        assert(json_views(arr@) =~= want.take(i + 1));
        i += 1;
    }
    assert(want.take(v@.len() as int) =~= want);
    json_array(arr)
}

} // verus!
