//! What a turn tells the frontend while it runs: `chat.stream`
//! notifications and the final `chat.send` result.

use vstd::prelude::*;
use crate::chat::machine::MAX_RETRIES;
use crate::json::{
    Json, JsonMember, JsonValue, field, json_i64, json_str, json_u64, member, member_views, object, opt_json,
    parse_json, signed_decimal, spec_parse_json,
};
use crate::jsonrpc::Notification;
use crate::store::{ToolCall, ToolCallView, tool_call_views};
use crate::text::{decimal_seq, owned, push_str, str_eq, u64_to_decimal};

verus! {

/// The payload of a `chat.stream` notification: session, run and kind,
/// then the members particular to the kind.
pub open spec fn stream_payload(session_id: Seq<char>, run_id: Seq<char>, kind: Seq<char>, rest: Seq<JsonMember>) -> Json {
    Json::Object(
        seq![
            member("sessionId"@, Json::Str(session_id)),
            member("runId"@, Json::Str(run_id)),
            member("kind"@, Json::Str(kind)),
        ] + rest,
    )
}

/// A `chat.stream` notification with the given payload.
pub open spec fn is_stream_notification(n: Notification, payload: Json) -> bool {
    n.method@ == "chat.stream"@ && opt_json(n.params) == Some(payload)
}

fn stream(session_id: &str, run_id: &str, kind: &str, rest: Vec<(String, JsonValue)>) -> (r: Notification)
    ensures
        is_stream_notification(r, stream_payload(session_id@, run_id@, kind@, member_views(rest@))),
{
    proof {
        reveal_strlit("chat.stream");
    }
    let ghost rv = member_views(rest@);
    let mut members: Vec<(String, JsonValue)> = Vec::new();
    members.push(field("sessionId", json_str(session_id)));
    members.push(field("runId", json_str(run_id)));
    members.push(field("kind", json_str(kind)));
    let ghost head = member_views(members@);
    assert(head =~= seq![
        member("sessionId"@, Json::Str(session_id@)),
        member("runId"@, Json::Str(run_id@)),
        member("kind"@, Json::Str(kind@)),
    ]);
    let mut rest = rest;
    members.append(&mut rest);
    assert(member_views(members@) =~= head + rv);
    Notification::new("chat.stream", Some(object(members)))
}

/// The turn has started.
pub fn started(session_id: &str, run_id: &str) -> (r: Notification)
    ensures
        is_stream_notification(r, stream_payload(session_id@, run_id@, "started"@, Seq::empty())),
{
    let v: Vec<(String, JsonValue)> = Vec::new();
    assert(member_views(v@) =~= Seq::<JsonMember>::empty());
    stream(session_id, run_id, "started", v)
}

/// The turn is done.
pub fn done(session_id: &str, run_id: &str) -> (r: Notification)
    ensures
        is_stream_notification(r, stream_payload(session_id@, run_id@, "done"@, Seq::empty())),
{
    let v: Vec<(String, JsonValue)> = Vec::new();
    assert(member_views(v@) =~= Seq::<JsonMember>::empty());
    stream(session_id, run_id, "done", v)
}

/// The history is being compacted.
pub fn compacting(session_id: &str, run_id: &str) -> (r: Notification)
    ensures
        is_stream_notification(r, stream_payload(session_id@, run_id@, "compacting"@, Seq::empty())),
{
    let v: Vec<(String, JsonValue)> = Vec::new();
    assert(member_views(v@) =~= Seq::<JsonMember>::empty());
    stream(session_id, run_id, "compacting", v)
}

/// The warning shown after a compaction.
pub open spec fn compaction_warning() -> Seq<char> {
    "Long threads may reduce model accuracy. Consider starting a new session for complex tasks."@
}

/// The history was compacted; the model now sees `message_count` messages.
pub fn compacted(session_id: &str, run_id: &str, message_count: u64) -> (r: Notification)
    ensures
        is_stream_notification(
            r,
            stream_payload(
                session_id@,
                run_id@,
                "compacted"@,
                seq![
                    member("messageCount"@, Json::Number(decimal_seq(message_count as nat))),
                    member("warning"@, Json::Str(compaction_warning())),
                ],
            ),
        ),
{
    proof {
        reveal_strlit("Long threads may reduce model accuracy. Consider starting a new session for complex tasks.");
    }
    let mut v: Vec<(String, JsonValue)> = Vec::new();
    v.push(field("messageCount", json_u64(message_count)));
    v.push(
        field(
            "warning",
            json_str("Long threads may reduce model accuracy. Consider starting a new session for complex tasks."),
        ),
    );
    assert(member_views(v@) =~= seq![
        member("messageCount"@, Json::Number(decimal_seq(message_count as nat))),
        member("warning"@, Json::Str(compaction_warning())),
    ]);
    stream(session_id, run_id, "compacted", v)
}

/// A streamed delta of text or thinking.
pub fn delta(session_id: &str, run_id: &str, kind: &str, text: &str) -> (r: Notification)
    ensures
        is_stream_notification(r, stream_payload(session_id@, run_id@, kind@, seq![member("delta"@, Json::Str(text@))])),
{
    let mut v: Vec<(String, JsonValue)> = Vec::new();
    v.push(field("delta", json_str(text)));
    assert(member_views(v@) =~= seq![member("delta"@, Json::Str(text@))]);
    stream(session_id, run_id, kind, v)
}

/// The arguments of a tool call as JSON (`null` when they do not parse).
pub open spec fn tool_input_spec(arguments: Seq<char>) -> Json {
    match spec_parse_json(arguments) {
        Some(v) => v,
        None => Json::Null,
    }
}

/// A tool call's arguments parsed for display.
pub fn tool_input(arguments: &str) -> (r: JsonValue)
    ensures
        r@ == tool_input_spec(arguments@),
{
    match parse_json(arguments) {
        Some(v) => v,
        None => JsonValue::Null,
    }
}

/// A tool call is about to run.
pub fn tool_call(session_id: &str, run_id: &str, call: &ToolCall) -> (r: Notification)
    ensures
        is_stream_notification(
            r,
            stream_payload(
                session_id@,
                run_id@,
                "tool_call"@,
                seq![
                    member("toolCallId"@, Json::Str(call.id@)),
                    member("toolName"@, Json::Str(call.function.name@)),
                    member("input"@, tool_input_spec(call.function.arguments@)),
                ],
            ),
        ),
{
    let mut v: Vec<(String, JsonValue)> = Vec::new();
    v.push(field("toolCallId", json_str(call.id.as_str())));
    v.push(field("toolName", json_str(call.function.name.as_str())));
    v.push(field("input", tool_input(call.function.arguments.as_str())));
    assert(member_views(v@) =~= seq![
        member("toolCallId"@, Json::Str(call.id@)),
        member("toolName"@, Json::Str(call.function.name@)),
        member("input"@, tool_input_spec(call.function.arguments@)),
    ]);
    stream(session_id, run_id, "tool_call", v)
}

/// The todo list a `TodoWrite` call carries, for the UI: sent only when
/// its arguments have a `todos` member.
pub fn todo_update(session_id: &str, run_id: &str, call: &ToolCall) -> (r: Option<Notification>)
    ensures
        call.function.name@ != "TodoWrite"@ ==> r is None,
        call.function.name@ == "TodoWrite"@ ==> match tool_input_spec(call.function.arguments@).get("todos"@) {
            Some(t) => r matches Some(n) && is_stream_notification(
                n,
                stream_payload(session_id@, run_id@, "todo"@, seq![member("todos"@, t)]),
            ),
            None => r is None,
        },
{
    if !str_eq(call.function.name.as_str(), "TodoWrite") {
        return None;
    }
    let input = tool_input(call.function.arguments.as_str());
    match input.get("todos") {
        Some(t) => {
            let mut v: Vec<(String, JsonValue)> = Vec::new();
            v.push(field("todos", t.deep_clone()));
            assert(member_views(v@) =~= seq![member("todos"@, t@)]);
            Some(stream(session_id, run_id, "todo", v))
        },
        None => None,
    }
}

/// The name of the call with id `id` among `calls`, or "unknown".
pub open spec fn call_name(calls: Seq<ToolCallView>, id: Seq<char>) -> Seq<char>
    decreases calls.len(),
{
    if calls.len() == 0 {
        "unknown"@
    } else if calls[0].id == id {
        calls[0].name
    } else {
        call_name(calls.drop_first(), id)
    }
}

/// The name of the tool call `id` among a response's calls.
pub fn tool_name_of(calls: &Vec<ToolCall>, id: &str) -> (r: String)
    ensures
        r@ == call_name(tool_call_views(calls@), id@),
{
    let ghost cs = tool_call_views(calls@);
    let mut i: usize = 0;
    assert(cs.skip(0) =~= cs);
    while i < calls.len()
        invariant
            i <= calls@.len(),
            cs == tool_call_views(calls@),
            call_name(cs, id@) == call_name(cs.skip(i as int), id@),
        decreases calls@.len() - i,
    {
        assert(cs.skip(i as int)[0] == calls@[i as int]@);
        if str_eq(calls[i].id.as_str(), id) {
            return calls[i].function.name.clone();
        }
        assert(cs.skip(i as int).drop_first() =~= cs.skip(i + 1));
        i += 1;
    }
    proof {
        reveal_strlit("unknown");
        assert(cs.skip(i as int) =~= Seq::<ToolCallView>::empty());
    }
    owned("unknown")
}

/// A document, or `null` for none.
pub open spec fn json_or_null(o: Option<JsonValue>) -> Json {
    match o {
        Some(v) => v@,
        None => Json::Null,
    }
}

/// A tool call finished with `output`; `file_change` describes the file
/// it wrote, if any.
pub fn tool_result(
    session_id: &str,
    run_id: &str,
    call_id: &str,
    tool_name: &str,
    output: &str,
    file_change: Option<JsonValue>,
) -> (r: Notification)
    ensures
        is_stream_notification(
            r,
            stream_payload(
                session_id@,
                run_id@,
                "tool_result"@,
                seq![
                    member("toolCallId"@, Json::Str(call_id@)),
                    member("toolName"@, Json::Str(tool_name@)),
                    member("output"@, Json::Str(output@)),
                    member("fileChange"@, json_or_null(file_change)),
                ],
            ),
        ),
{
    let ghost fc = json_or_null(file_change);
    let fcv = match file_change {
        Some(f) => f,
        None => JsonValue::Null,
    };
    assert(fcv@ == fc);
    let mut v: Vec<(String, JsonValue)> = Vec::new();
    v.push(field("toolCallId", json_str(call_id)));
    v.push(field("toolName", json_str(tool_name)));
    v.push(field("output", json_str(output)));
    v.push(field("fileChange", fcv));
    assert(member_views(v@) =~= seq![
        member("toolCallId"@, Json::Str(call_id@)),
        member("toolName"@, Json::Str(tool_name@)),
        member("output"@, Json::Str(output@)),
        member("fileChange"@, fc),
    ]);
    let ghost rest = member_views(v@);
    let r = stream(session_id, run_id, "tool_result", v);
    assert(rest == seq![
        member("toolCallId"@, Json::Str(call_id@)),
        member("toolName"@, Json::Str(tool_name@)),
        member("output"@, Json::Str(output@)),
        member("fileChange"@, fc),
    ]);
    r
}

/// The text of a retry notice: `Reconnecting... <attempt>/<max>`.
pub open spec fn reconnecting_text(attempt: u32) -> Seq<char> {
    "Reconnecting... "@ + decimal_seq(attempt as nat) + "/"@ + decimal_seq(MAX_RETRIES as nat)
}

/// A retryable error happened; retry number `attempt` is coming.
pub fn stream_error(session_id: &str, run_id: &str, error_code: &str, attempt: u32) -> (r: Notification)
    ensures
        is_stream_notification(
            r,
            stream_payload(
                session_id@,
                run_id@,
                "stream_error"@,
                seq![
                    member("errorCode"@, Json::Str(error_code@)),
                    member("message"@, Json::Str(reconnecting_text(attempt))),
                    member("retryable"@, Json::Bool(true)),
                ],
            ),
        ),
{
    let mut text = owned("Reconnecting... ");
    let a = u64_to_decimal(attempt as u64);
    push_str(&mut text, a.as_str());
    push_str(&mut text, "/");
    let m = u64_to_decimal(MAX_RETRIES as u64);
    push_str(&mut text, m.as_str());
    let mut v: Vec<(String, JsonValue)> = Vec::new();
    v.push(field("errorCode", json_str(error_code)));
    v.push(field("message", JsonValue::Str(text)));
    v.push(field("retryable", JsonValue::Bool(true)));
    assert(member_views(v@) =~= seq![
        member("errorCode"@, Json::Str(error_code@)),
        member("message"@, Json::Str(reconnecting_text(attempt))),
        member("retryable"@, Json::Bool(true)),
    ]);
    stream(session_id, run_id, "stream_error", v)
}

/// What a `Write` call changes, for the UI: the path, whether the file is
/// created or modified, and its old and new content.
pub open spec fn write_change_spec(args: Json, old_content: Option<Seq<char>>) -> Option<Json> {
    match args.str_at("path"@) {
        Some(path) => Some(
            Json::Object(
                seq![
                    member("path"@, Json::Str(path)),
                    member(
                        "action"@,
                        Json::Str(
                            if old_content is Some {
                                "modified"@
                            } else {
                                "created"@
                            },
                        ),
                    ),
                    member(
                        "oldContent"@,
                        match old_content {
                            Some(c) => Json::Str(c),
                            None => Json::Null,
                        },
                    ),
                    member(
                        "newContent"@,
                        Json::Str(
                            match args.str_at("content"@) {
                                Some(c) => c,
                                None => Seq::empty(),
                            },
                        ),
                    ),
                ],
            ),
        ),
        None => None,
    }
}

/// The change a `Write` call with `args` makes; `old_content` is what the
/// file held before, if it existed.
pub fn write_change(args: &JsonValue, old_content: Option<String>) -> (r: Option<JsonValue>)
    ensures
        opt_json(r) == write_change_spec(
            args@,
            match old_content {
                Some(c) => Some(c@),
                None => None,
            },
        ),
{
    proof {
        reveal_strlit("");
        assert(""@ =~= Seq::<char>::empty());
    }
    let ghost oc = crate::store::opt_str_view(old_content);
    let path = match args.str_member("path") {
        Some(p) => p,
        None => return None,
    };
    let action = if old_content.is_some() {
        "modified"
    } else {
        "created"
    };
    let old_json = match old_content {
        Some(c) => JsonValue::Str(c),
        None => JsonValue::Null,
    };
    let new_content = match args.str_member("content") {
        Some(c) => c,
        None => owned(""),
    };
    let mut v: Vec<(String, JsonValue)> = Vec::new();
    v.push(field("path", JsonValue::Str(path)));
    v.push(field("action", json_str(action)));
    v.push(field("oldContent", old_json));
    v.push(field("newContent", JsonValue::Str(new_content)));
    proof {
        reveal_strlit("modified");
        reveal_strlit("created");
        assert(member_views(v@) =~= write_change_spec(args@, oc)->0->Object_0);
    }
    Some(object(v))
}

/// What an `Edit` call changes, for the UI: the path and the replaced and
/// replacing text.
pub open spec fn edit_change_spec(args: Json) -> Option<Json> {
    match args.str_at("path"@) {
        Some(path) => Some(
            Json::Object(
                seq![
                    member("path"@, Json::Str(path)),
                    member("action"@, Json::Str("modified"@)),
                    member(
                        "oldContent"@,
                        Json::Str(
                            match args.str_at("old_string"@) {
                                Some(c) => c,
                                None => Seq::empty(),
                            },
                        ),
                    ),
                    member(
                        "newContent"@,
                        Json::Str(
                            match args.str_at("new_string"@) {
                                Some(c) => c,
                                None => Seq::empty(),
                            },
                        ),
                    ),
                ],
            ),
        ),
        None => None,
    }
}

/// The change an `Edit` call with `args` makes.
pub fn edit_change(args: &JsonValue) -> (r: Option<JsonValue>)
    ensures
        opt_json(r) == edit_change_spec(args@),
{
    proof {
        reveal_strlit("");
        assert(""@ =~= Seq::<char>::empty());
    }
    let path = match args.str_member("path") {
        Some(p) => p,
        None => return None,
    };
    let old_s = match args.str_member("old_string") {
        Some(c) => c,
        None => owned(""),
    };
    let new_s = match args.str_member("new_string") {
        Some(c) => c,
        None => owned(""),
    };
    let mut v: Vec<(String, JsonValue)> = Vec::new();
    v.push(field("path", JsonValue::Str(path)));
    v.push(field("action", json_str("modified")));
    v.push(field("oldContent", JsonValue::Str(old_s)));
    v.push(field("newContent", JsonValue::Str(new_s)));
    proof {
        reveal_strlit("modified");
        assert(member_views(v@) =~= edit_change_spec(args@)->0->Object_0);
    }
    Some(object(v))
}

/// The result of `chat.send`: the run id and the assistant's reply.
pub open spec fn send_result_spec(run_id: Seq<char>, message_id: Seq<char>, content: Seq<char>, timestamp: i64) -> Json {
    Json::Object(
        seq![
            member("runId"@, Json::Str(run_id)),
            member(
                "message"@,
                Json::Object(
                    seq![
                        member("id"@, Json::Str(message_id)),
                        member("role"@, Json::Str("assistant"@)),
                        member("content"@, Json::Str(content)),
                        member("timestamp"@, Json::Number(signed_decimal(timestamp as int))),
                    ],
                ),
            ),
        ],
    )
}

/// The result of a finished `chat.send`.
pub fn send_result(run_id: &str, message_id: &str, content: &str, timestamp: i64) -> (r: JsonValue)
    ensures
        r@ == send_result_spec(run_id@, message_id@, content@, timestamp),
{
    let mut m: Vec<(String, JsonValue)> = Vec::new();
    m.push(field("id", json_str(message_id)));
    m.push(field("role", json_str("assistant")));
    m.push(field("content", json_str(content)));
    m.push(field("timestamp", json_i64(timestamp)));
    proof {
        reveal_strlit("assistant");
    }
    let ghost mm = member_views(m@);
    assert(mm =~= seq![
        member("id"@, Json::Str(message_id@)),
        member("role"@, Json::Str("assistant"@)),
        member("content"@, Json::Str(content@)),
        member("timestamp"@, Json::Number(signed_decimal(timestamp as int))),
    ]);
    let mut v: Vec<(String, JsonValue)> = Vec::new();
    v.push(field("runId", json_str(run_id)));
    v.push(field("message", object(m)));
    assert(member_views(v@) =~= seq![member("runId"@, Json::Str(run_id@)), member("message"@, Json::Object(mm))]);
    object(v)
}

} // verus!
