//! Anthropic Messages API adapter: request building and SSE parsing.

use vstd::prelude::*;
use crate::error::ChatError;
use crate::json::{
    Json, JsonValue, spec_parse_json, spec_json_text, parse_json, render_json, is_valid_json,
    opt_json_ref, opt_get, opt_as_str, str_or, opt_member_is, opt_get_exec, opt_str_member,
    opt_str_member_or, opt_member_is_exec,
};
use crate::store::{ToolCall, ToolCallFunction, ToolCallView, tool_call_views};
use crate::text::{lines_of, lines_seq, views_of, trim, trim_seq, strip_prefix, has_prefix, str_eq, owned, push_str};
use crate::llm::types::{LlmResponse, ResponseView, LlmRequest, RequestView, UnifiedTool, UnifiedToolView, tool_views};
use crate::llm::adapter::{ApiAdapter, HttpRequest, HttpView, StreamEvent, StreamEventView, stream_event_views};
use crate::llm::anthropic_request::convert_messages_spec;
use crate::json::{members_set, json_views, json_str, json_u64, json_array, push_json, obj1, obj3, obj4, jobj1, jobj3, jobj4};
use crate::text::{decimal_seq, trim_end_char, trim_end_char_seq};

verus! {

/// Protocol adapter for the Anthropic Messages API.
pub struct AnthropicAdapter;

// ── Model of stream parsing ──────────────────────────────────────────────

/// A tool call whose input is still being streamed.
pub struct PendingTool {
    pub id: Seq<char>,
    pub name: Seq<char>,
    pub args: Seq<char>,
}

/// What has been read of an Anthropic stream so far.
pub struct AnthropicState {
    pub text: Seq<char>,
    pub thinking: Seq<char>,
    pub calls: Seq<ToolCallView>,
    pub current: Option<PendingTool>,
}

pub open spec fn anthropic_start() -> AnthropicState {
    AnthropicState { text: Seq::empty(), thinking: Seq::empty(), calls: Seq::empty(), current: None }
}

pub open spec fn call_of(p: PendingTool) -> ToolCallView {
    ToolCallView { id: p.id, call_type: "function"@, name: p.name, arguments: p.args }
}

/// `calls` with the call `p` appended when its arguments parse as JSON.
pub open spec fn push_if_valid(calls: Seq<ToolCallView>, p: PendingTool) -> Seq<ToolCallView> {
    if spec_parse_json(p.args) is Some {
        calls.push(call_of(p))
    } else {
        calls
    }
}

/// Closing the current tool block (also done at the end of the stream):
/// it is kept when it has an id and its arguments parse.
pub open spec fn close_current(st: AnthropicState) -> AnthropicState {
    match st.current {
        Some(p) => AnthropicState {
            calls: if p.id.len() > 0 { push_if_valid(st.calls, p) } else { st.calls },
            current: None,
            ..st
        },
        None => st,
    }
}

/// The arguments text of a `tool_use` block's `input`: empty unless it is
/// a non-empty object, whose JSON text it then is.
pub open spec fn input_args(input: Option<Json>) -> Seq<char> {
    match input {
        Some(v) => if v.is_object() && !v.is_empty_object() {
            spec_json_text(v)
        } else {
            Seq::empty()
        },
        None => Seq::empty(),
    }
}

/// The error text of an `error` event: `type: message`, or the message
/// alone when there is no type.
pub open spec fn error_detail(msg: Seq<char>, err_type: Seq<char>) -> Seq<char> {
    if err_type.len() == 0 {
        msg
    } else {
        err_type + ": "@ + msg
    }
}

/// The effect of a `content_block_delta` event's `delta`.
pub open spec fn anthropic_delta(st: AnthropicState, delta: Option<Json>) -> AnthropicState {
    if opt_member_is(delta, "type"@, "text_delta"@) {
        match opt_as_str(opt_get(delta, "text"@)) {
            Some(t) => AnthropicState { text: st.text + t, ..st },
            None => st,
        }
    } else if opt_member_is(delta, "type"@, "thinking_delta"@) {
        match opt_as_str(opt_get(delta, "thinking"@)) {
            Some(t) => AnthropicState { thinking: st.thinking + t, ..st },
            None => st,
        }
    } else if opt_member_is(delta, "type"@, "input_json_delta"@) {
        match (opt_as_str(opt_get(delta, "partial_json"@)), st.current) {
            (Some(part), Some(p)) => AnthropicState {
                current: Some(PendingTool { args: p.args + part, ..p }),
                ..st
            },
            _ => st,
        }
    } else {
        st
    }
}

/// The effect of a `content_block_start` event's `content_block`: a
/// `tool_use` block with an id closes the previous call and opens a new one.
pub open spec fn anthropic_block_start(st: AnthropicState, block: Option<Json>) -> AnthropicState {
    if opt_member_is(block, "type"@, "tool_use"@) {
        let id = str_or(opt_as_str(opt_get(block, "id"@)), Seq::empty());
        let name = str_or(opt_as_str(opt_get(block, "name"@)), Seq::empty());
        let args = input_args(opt_get(block, "input"@));
        if id.len() > 0 {
            let calls = match st.current {
                Some(p) => push_if_valid(st.calls, p),
                None => st.calls,
            };
            AnthropicState { calls, current: Some(PendingTool { id, name, args }), ..st }
        } else {
            st
        }
    } else {
        st
    }
}

/// The detail of an `error` event.
pub open spec fn anthropic_error(err: Option<Json>) -> Seq<char> {
    let msg = str_or(opt_as_str(opt_get(err, "message"@)), "unknown"@);
    let err_type = str_or(opt_as_str(opt_get(err, "type"@)), Seq::empty());
    error_detail(msg, err_type)
}

/// The effect of one decoded event; `Err` carries the error detail.
pub open spec fn anthropic_event(st: AnthropicState, ev: Json) -> Result<AnthropicState, Seq<char>> {
    let ty = str_or(ev.str_at("type"@), Seq::empty());
    if ty == "content_block_delta"@ {
        Ok(anthropic_delta(st, ev.get("delta"@)))
    } else if ty == "content_block_start"@ {
        Ok(anthropic_block_start(st, ev.get("content_block"@)))
    } else if ty == "content_block_stop"@ {
        Ok(close_current(st))
    } else if ty == "error"@ {
        Err(anthropic_error(ev.get("error"@)))
    } else {
        Ok(st)
    }
}

/// The effect of one line: blank lines, lines without a `data: ` prefix
/// (after trimming) and data that is not JSON are skipped.
pub open spec fn anthropic_line(st: AnthropicState, line: Seq<char>) -> Result<AnthropicState, Seq<char>> {
    let t = trim_seq(line);
    if t.len() == 0 || !has_prefix(t, "data: "@) {
        Ok(st)
    } else {
        match spec_parse_json(t.skip(6)) {
            Some(ev) => anthropic_event(st, ev),
            None => Ok(st),
        }
    }
}

/// The state after the given lines, or the first error.
pub open spec fn anthropic_lines(lines: Seq<Seq<char>>) -> Result<AnthropicState, Seq<char>>
    decreases lines.len(),
{
    if lines.len() == 0 {
        Ok(anthropic_start())
    } else {
        match anthropic_lines(lines.drop_last()) {
            Ok(st) => anthropic_line(st, lines.last()),
            Err(e) => Err(e),
        }
    }
}

pub open spec fn anthropic_finish(st: AnthropicState) -> ResponseView {
    let end = close_current(st);
    ResponseView {
        text: end.text,
        tool_calls: end.calls,
        thinking: if end.thinking.len() == 0 { None } else { Some(end.thinking) },
    }
}

/// The response an Anthropic SSE body stands for, or the detail of the
/// error event that ended it.
pub open spec fn anthropic_parse(body: Seq<char>) -> Result<ResponseView, Seq<char>> {
    match anthropic_lines(lines_seq(body)) {
        Ok(st) => Ok(anthropic_finish(st)),
        Err(e) => Err(e),
    }
}

/// Every call has an id, the type "function" and arguments that parse.
pub open spec fn calls_ok(calls: Seq<ToolCallView>) -> bool {
    forall|i: int|
        0 <= i < calls.len() ==> {
            &&& (#[trigger] calls[i]).id.len() > 0
            &&& calls[i].call_type == "function"@
            &&& spec_parse_json(calls[i].arguments) is Some
        }
}

pub open spec fn state_ok(st: AnthropicState) -> bool {
    &&& calls_ok(st.calls)
    &&& match st.current {
        Some(p) => p.id.len() > 0,
        None => true,
    }
}

/// Once the lines read so far end in an error, the whole stream does.
proof fn lemma_error_sticks(lines: Seq<Seq<char>>, k: int)
    requires
        0 <= k <= lines.len(),
        anthropic_lines(lines.take(k)) is Err,
    ensures
        anthropic_lines(lines) == anthropic_lines(lines.take(k)),
    decreases lines.len() - k,
{
    if k < lines.len() {
        assert(lines.take(k + 1).drop_last() =~= lines.take(k));
        lemma_error_sticks(lines, k + 1);
    } else {
        assert(lines.take(k) =~= lines);
    }
}

// ── Executable parsing ───────────────────────────────────────────────────

pub(crate) struct Pending {
    pub(crate) id: String,
    pub(crate) name: String,
    pub(crate) args: String,
}

impl Pending {
    pub(crate) open spec fn model(&self) -> PendingTool {
        PendingTool { id: self.id@, name: self.name@, args: self.args@ }
    }
}

struct Accum {
    text: String,
    thinking: String,
    calls: Vec<ToolCall>,
    current: Option<Pending>,
}

impl Accum {
    closed spec fn model(&self) -> AnthropicState {
        AnthropicState {
            text: self.text@,
            thinking: self.thinking@,
            calls: tool_call_views(self.calls@),
            current: match self.current {
                Some(p) => Some(PendingTool { id: p.id@, name: p.name@, args: p.args@ }),
                None => None,
            },
        }
    }
}

pub(crate) fn make_call(p: Pending) -> (r: ToolCall)
    ensures
        r@ == call_of(PendingTool { id: p.id@, name: p.name@, args: p.args@ }),
{
    ToolCall {
        id: p.id,
        call_type: owned("function"),
        function: ToolCallFunction { name: p.name, arguments: p.args },
    }
}

pub(crate) fn push_call_if_valid(calls: &mut Vec<ToolCall>, p: Pending)
    ensures
        tool_call_views(final(calls)@) == push_if_valid(
            tool_call_views(old(calls)@),
            PendingTool { id: p.id@, name: p.name@, args: p.args@ },
        ),
{
    if is_valid_json(p.args.as_str()) {
        let c = make_call(p);
        let ghost before = calls@;
        calls.push(c);
        assert(tool_call_views(calls@) =~= tool_call_views(before).push(c@));
    }
}

fn close_current_exec(acc: &mut Accum)
    ensures
        final(acc).model() == close_current(old(acc).model()),
{
    match acc.current.take() {
        Some(p) => {
            if !p.id.as_str().is_empty() {
                push_call_if_valid(&mut acc.calls, p);
            }
        },
        None => {},
    }
}

fn apply_delta(acc: &mut Accum, delta: Option<&JsonValue>)
    ensures
        final(acc).model() == anthropic_delta(old(acc).model(), opt_json_ref(delta)),
{
    if opt_member_is_exec(delta, "type", "text_delta") {
        if let Some(t) = opt_str_member(delta, "text") {
            push_str(&mut acc.text, t.as_str());
        }
    } else if opt_member_is_exec(delta, "type", "thinking_delta") {
        if let Some(t) = opt_str_member(delta, "thinking") {
            push_str(&mut acc.thinking, t.as_str());
        }
    } else if opt_member_is_exec(delta, "type", "input_json_delta") {
        if let Some(part) = opt_str_member(delta, "partial_json") {
            match acc.current.take() {
                Some(p) => {
                    let mut args = p.args;
                    push_str(&mut args, part.as_str());
                    acc.current = Some(Pending { id: p.id, name: p.name, args });
                },
                None => {},
            }
        }
    }
}

fn input_args_exec(input: Option<&JsonValue>) -> (r: String)
    ensures
        r@ == input_args(opt_json_ref(input)),
{
    match input {
        Some(v) => if v.is_nonempty_object() {
            render_json(v)
        } else {
            String::new()
        },
        None => String::new(),
    }
}

fn apply_block_start(acc: &mut Accum, block: Option<&JsonValue>)
    ensures
        final(acc).model() == anthropic_block_start(old(acc).model(), opt_json_ref(block)),
{
    proof {
        reveal_strlit("");
        assert(""@ =~= Seq::<char>::empty());
    }
    if opt_member_is_exec(block, "type", "tool_use") {
        let id = opt_str_member_or(block, "id", "");
        let name = opt_str_member_or(block, "name", "");
        let args = input_args_exec(opt_get_exec(block, "input"));
        if !id.as_str().is_empty() {
            match acc.current.take() {
                Some(p) => push_call_if_valid(&mut acc.calls, p),
                None => {},
            }
            acc.current = Some(Pending { id, name, args });
        }
    }
}

fn error_detail_exec(err: Option<&JsonValue>) -> (r: String)
    ensures
        r@ == anthropic_error(opt_json_ref(err)),
{
    proof {
        reveal_strlit("");
        assert(""@ =~= Seq::<char>::empty());
    }
    let msg = opt_str_member_or(err, "message", "unknown");
    let err_type = opt_str_member_or(err, "type", "");
    if err_type.as_str().is_empty() {
        msg
    } else {
        let mut d = err_type;
        push_str(&mut d, ": ");
        push_str(&mut d, msg.as_str());
        d
    }
}

fn apply_event(acc: &mut Accum, ev: &JsonValue) -> (r: Result<(), String>)
    ensures
        match anthropic_event(old(acc).model(), ev@) {
            Ok(st) => r is Ok && final(acc).model() == st,
            Err(d) => r matches Err(e) && e@ == d,
        },
{
    proof {
        reveal_strlit("");
        assert(""@ =~= Seq::<char>::empty());
    }
    let ty = opt_str_member_or(Some(ev), "type", "");
    if str_eq(ty.as_str(), "content_block_delta") {
        apply_delta(acc, ev.get("delta"));
        Ok(())
    } else if str_eq(ty.as_str(), "content_block_start") {
        apply_block_start(acc, ev.get("content_block"));
        Ok(())
    } else if str_eq(ty.as_str(), "content_block_stop") {
        close_current_exec(acc);
        Ok(())
    } else if str_eq(ty.as_str(), "error") {
        Err(error_detail_exec(ev.get("error")))
    } else {
        Ok(())
    }
}

fn apply_line(acc: &mut Accum, line: &str) -> (r: Result<(), String>)
    ensures
        match anthropic_line(old(acc).model(), line@) {
            Ok(st) => r is Ok && final(acc).model() == st,
            Err(d) => r matches Err(e) && e@ == d,
        },
{
    let t = trim(line);
    if t.as_str().is_empty() {
        return Ok(());
    }
    match strip_prefix(t.as_str(), "data: ") {
        Some(data) => {
            proof {
                reveal_strlit("data: ");
            }
            match parse_json(data.as_str()) {
                Some(ev) => apply_event(acc, &ev),
                None => Ok(()),
            }
        },
        None => Ok(()),
    }
}

proof fn lemma_event_keeps_ok(st: AnthropicState, ev: Json)
    requires
        state_ok(st),
    ensures
        anthropic_event(st, ev) matches Ok(s2) ==> state_ok(s2),
{
    reveal_strlit("function");
    let ty = str_or(ev.str_at("type"@), Seq::empty());
    if ty == "content_block_start"@ || ty == "content_block_stop"@ {
        assert forall|c: Seq<ToolCallView>, p: PendingTool|
            calls_ok(c) && p.id.len() > 0 implies #[trigger] calls_ok(push_if_valid(c, p)) by {
            if spec_parse_json(p.args) is Some {
                assert forall|i: int| 0 <= i < c.push(call_of(p)).len() implies {
                    &&& (#[trigger] c.push(call_of(p))[i]).id.len() > 0
                    &&& c.push(call_of(p))[i].call_type == "function"@
                    &&& spec_parse_json(c.push(call_of(p))[i].arguments) is Some
                } by {
                    if i < c.len() {
                        assert(c.push(call_of(p))[i] == c[i]);
                    }
                }
            }
        }
    }
}

// ── Request ──────────────────────────────────────────────────────────────

/// `v[k] = x` on an object model.
pub open spec fn json_set(v: Json, k: Seq<char>, x: Json) -> Json {
    match v {
        Json::Object(m) => Json::Object(members_set(m, k, x)),
        _ => v,
    }
}

pub open spec fn anthropic_tool(t: UnifiedToolView) -> Json {
    jobj3("name"@, Json::Str(t.name), "description"@, Json::Str(t.description), "input_schema"@, t.parameters)
}

/// The request body: model, 4096 max tokens, messages, streaming, the
/// system prompt when non-empty, tools when any, and the thinking mode.
pub open spec fn anthropic_body(req: RequestView) -> Json {
    let base = jobj4(
        "model"@,
        Json::Str(req.model),
        "max_tokens"@,
        Json::Number(decimal_seq(4096)),
        "messages"@,
        Json::Array(convert_messages_spec(req.messages)),
        "stream"@,
        Json::Bool(true),
    );
    let b1 = if req.system.len() > 0 {
        json_set(base, "system"@, Json::Str(req.system))
    } else {
        base
    };
    let tools = req.tools.map_values(|t: UnifiedToolView| anthropic_tool(t));
    let b2 = if tools.len() > 0 {
        json_set(b1, "tools"@, Json::Array(tools))
    } else {
        b1
    };
    json_set(
        b2,
        "thinking"@,
        jobj1("type"@, Json::Str(if req.thinking_enabled { "adaptive"@ } else { "disabled"@ })),
    )
}

pub open spec fn anthropic_http(req: RequestView, api_key: Seq<char>, base_url: Seq<char>) -> HttpView {
    HttpView {
        url: trim_end_char_seq(base_url, '/') + "/v1/messages"@,
        headers: seq![
            ("x-api-key"@, api_key),
            ("anthropic-version"@, "2023-06-01"@),
            ("Content-Type"@, "application/json"@),
        ],
        body: spec_json_text(anthropic_body(req)),
    }
}

/// The UI deltas of one event: non-empty text or thinking deltas.
pub open spec fn anthropic_stream_events(ev: Json) -> Seq<StreamEventView> {
    let delta = ev.get("delta"@);
    if opt_member_is(delta, "type"@, "text_delta"@) {
        match opt_as_str(opt_get(delta, "text"@)) {
            Some(t) => if t.len() > 0 {
                seq![StreamEventView { kind: "text"@, delta: t }]
            } else {
                Seq::empty()
            },
            None => Seq::empty(),
        }
    } else if opt_member_is(delta, "type"@, "thinking_delta"@) {
        match opt_as_str(opt_get(delta, "thinking"@)) {
            Some(t) => if t.len() > 0 {
                seq![StreamEventView { kind: "thinking"@, delta: t }]
            } else {
                Seq::empty()
            },
            None => Seq::empty(),
        }
    } else {
        Seq::empty()
    }
}

/// Extended thinking is requested exactly when the request enables it:
/// the body sent has `thinking.type` "adaptive" then, "disabled" otherwise.
pub proof fn law_thinking_mode(req: RequestView, api_key: Seq<char>, base_url: Seq<char>)
    ensures
        AnthropicAdapter.request_spec(req, api_key, base_url).body == spec_json_text(anthropic_body(req)),
        req.thinking_enabled ==> opt_get(anthropic_body(req).get("thinking"@), "type"@) == Some(
            Json::Str("adaptive"@),
        ),
        !req.thinking_enabled ==> opt_get(anthropic_body(req).get("thinking"@), "type"@) == Some(
            Json::Str("disabled"@),
        ),
{
    let base = jobj4(
        "model"@,
        Json::Str(req.model),
        "max_tokens"@,
        Json::Number(decimal_seq(4096)),
        "messages"@,
        Json::Array(convert_messages_spec(req.messages)),
        "stream"@,
        Json::Bool(true),
    );
    let b1 = if req.system.len() > 0 {
        json_set(base, "system"@, Json::Str(req.system))
    } else {
        base
    };
    let tools = req.tools.map_values(|t: UnifiedToolView| anthropic_tool(t));
    let b2 = if tools.len() > 0 {
        json_set(b1, "tools"@, Json::Array(tools))
    } else {
        b1
    };
    assert(b2 is Object);
    let v = jobj1("type"@, Json::Str(if req.thinking_enabled { "adaptive"@ } else { "disabled"@ }));
    crate::json::lemma_set_then_get(b2->Object_0, "thinking"@, v);
    reveal_strlit("type");
    assert(v.get("type"@) == Some(Json::Str(if req.thinking_enabled { "adaptive"@ } else { "disabled"@ })));
}

/// The UI sees thinking as thinking and text as text: a non-empty
/// `thinking_delta` gives exactly one "thinking" event with its text, a
/// non-empty `text_delta` exactly one "text" event, and an event of any
/// kind comes only from a delta of that kind, carrying non-empty text.
pub proof fn law_stream_event_kinds(ev: Json, t: Seq<char>)
    ensures
        ({
            let delta = ev.get("delta"@);
            let out = AnthropicAdapter.events_spec(ev);
            &&& opt_get(delta, "type"@) == Some(Json::Str("thinking_delta"@)) && opt_get(delta, "thinking"@) == Some(
                Json::Str(t),
            ) && t.len() > 0 ==> out == seq![StreamEventView { kind: "thinking"@, delta: t }]
            &&& opt_get(delta, "type"@) == Some(Json::Str("text_delta"@)) && opt_get(delta, "text"@) == Some(
                Json::Str(t),
            ) && t.len() > 0 ==> out == seq![StreamEventView { kind: "text"@, delta: t }]
            &&& forall|i: int|
                0 <= i < out.len() ==> (#[trigger] out[i]).delta.len() > 0 && (out[i].kind == "text"@ || out[i].kind
                    == "thinking"@) && (out[i].kind == "text"@ ==> opt_get(delta, "type"@) == Some(
                    Json::Str("text_delta"@),
                ) && opt_get(delta, "text"@) == Some(Json::Str(out[i].delta))) && (out[i].kind == "thinking"@
                    ==> opt_get(delta, "type"@) == Some(Json::Str("thinking_delta"@)) && opt_get(delta, "thinking"@)
                    == Some(Json::Str(out[i].delta)))
        }),
{
    reveal_strlit("text_delta");
    reveal_strlit("thinking_delta");
    reveal_strlit("text");
    reveal_strlit("thinking");
    assert("text_delta"@[1] != "thinking_delta"@[1]);
    assert("text"@[1] != "thinking"@[1]);
}

/// The text a stream line carries in a `content_block_delta` event whose
/// delta has the type `kind` (`text_delta` or `thinking_delta`), read from
/// its member `field`: empty for any other line.
pub open spec fn delta_text(line: Seq<char>, kind: Seq<char>, field: Seq<char>) -> Seq<char> {
    let t = trim_seq(line);
    if has_prefix(t, "data: "@) {
        match spec_parse_json(t.skip(6)) {
            Some(ev) => {
                let delta = ev.get("delta"@);
                if ev.get("type"@) == Some(Json::Str("content_block_delta"@)) && opt_get(delta, "type"@) == Some(
                    Json::Str(kind),
                ) {
                    str_or(opt_as_str(opt_get(delta, field)), Seq::empty())
                } else {
                    Seq::empty()
                }
            },
            None => Seq::empty(),
        }
    } else {
        Seq::empty()
    }
}

/// The texts of the deltas of one kind in the given lines, in order.
pub open spec fn delta_texts(lines: Seq<Seq<char>>, kind: Seq<char>, field: Seq<char>) -> Seq<char>
    decreases lines.len(),
{
    if lines.len() == 0 {
        Seq::empty()
    } else {
        delta_texts(lines.drop_last(), kind, field) + delta_text(lines.last(), kind, field)
    }
}

/// One line adds its text delta to the text and its thinking delta to the
/// thinking, and nothing else to either.
proof fn lemma_line_deltas(st: AnthropicState, line: Seq<char>)
    ensures
        anthropic_line(st, line) matches Ok(s2) ==> s2.text == st.text + delta_text(line, "text_delta"@, "text"@)
            && s2.thinking == st.thinking + delta_text(line, "thinking_delta"@, "thinking"@),
{
    reveal_strlit("text_delta");
    reveal_strlit("thinking_delta");
    reveal_strlit("content_block_delta");
    assert("text_delta"@[1] != "thinking_delta"@[1]);
    assert("text_delta"@ != "thinking_delta"@);
    let t = trim_seq(line);
    if has_prefix(t, "data: "@) {
        reveal_strlit("data: ");
        assert(t.len() > 0);
        match spec_parse_json(t.skip(6)) {
            Some(ev) => {
                let ty = str_or(ev.str_at("type"@), Seq::empty());
                assert("content_block_delta"@.len() == 19);
                assert((ty == "content_block_delta"@) == (ev.get("type"@) == Some(Json::Str("content_block_delta"@))));
                assert(Seq::<char>::empty() + Seq::<char>::empty() =~= Seq::<char>::empty());
                assert(st.text + Seq::<char>::empty() =~= st.text);
                assert(st.thinking + Seq::<char>::empty() =~= st.thinking);
            },
            None => {
                assert(st.text + Seq::<char>::empty() =~= st.text);
                assert(st.thinking + Seq::<char>::empty() =~= st.thinking);
            },
        }
    } else {
        assert(st.text + Seq::<char>::empty() =~= st.text);
        assert(st.thinking + Seq::<char>::empty() =~= st.thinking);
    }
}

/// The text read from a stream is all of its text deltas in order, and its
/// thinking all of its thinking deltas in order; neither keeps only the
/// last one.
pub proof fn law_stream_concatenates(lines: Seq<Seq<char>>)
    ensures
        anthropic_lines(lines) matches Ok(st) ==> st.text == delta_texts(lines, "text_delta"@, "text"@)
            && st.thinking == delta_texts(lines, "thinking_delta"@, "thinking"@),
    decreases lines.len(),
{
    if lines.len() > 0 {
        law_stream_concatenates(lines.drop_last());
        match anthropic_lines(lines.drop_last()) {
            Ok(st) => lemma_line_deltas(st, lines.last()),
            Err(_) => {},
        }
    }
}

/// A parsed reply's text is the concatenation of the stream's text deltas,
/// and its thinking the concatenation of its thinking deltas (none when
/// that is empty).
pub proof fn law_reply_text_and_thinking(body: Seq<char>)
    ensures
        AnthropicAdapter.reply_spec(body) matches Ok(r) ==> {
            let lines = lines_seq(body);
            let thinking = delta_texts(lines, "thinking_delta"@, "thinking"@);
            &&& r.text == delta_texts(lines, "text_delta"@, "text"@)
            &&& r.thinking == if thinking.len() == 0 {
                None::<Seq<char>>
            } else {
                Some(thinking)
            }
        },
{
    law_stream_concatenates(lines_seq(body));
}

fn tool_defs(tools: &Vec<UnifiedTool>) -> (r: Vec<JsonValue>)
    ensures
        json_views(r@) == tool_views(tools@).map_values(|t: UnifiedToolView| anthropic_tool(t)),
{
    let ghost want = tool_views(tools@).map_values(|t: UnifiedToolView| anthropic_tool(t));
    let mut out: Vec<JsonValue> = Vec::new();
    let mut i: usize = 0;
    assert(json_views(out@) =~= want.take(0));
    while i < tools.len()
        invariant
            i <= tools@.len(),
            want == tool_views(tools@).map_values(|t: UnifiedToolView| anthropic_tool(t)),
            json_views(out@) == want.take(i as int),
        decreases tools@.len() - i,
    {
        let t = &tools[i];
        push_json(
            &mut out,
            obj3(
                "name",
                json_str(t.name.as_str()),
                "description",
                json_str(t.description.as_str()),
                "input_schema",
                t.parameters.deep_clone(),
            ),
        );
        assert(want.take(i + 1) =~= want.take(i as int).push(want[i as int]));
        i += 1;
    }
    assert(want.take(tools@.len() as int) =~= want);
    out
}

fn pair(a: &str, b: &str) -> (r: (String, String))
    ensures
        r.0@ == a@,
        r.1@ == b@,
{
    (owned(a), owned(b))
}

impl ApiAdapter for AnthropicAdapter {
    open spec fn request_spec(&self, req: RequestView, api_key: Seq<char>, base_url: Seq<char>) -> HttpView {
        anthropic_http(req, api_key, base_url)
    }

    open spec fn reply_spec(&self, body: Seq<char>) -> Result<ResponseView, Seq<char>> {
        anthropic_parse(body)
    }

    open spec fn events_spec(&self, event: Json) -> Seq<StreamEventView> {
        anthropic_stream_events(event)
    }

    /// The HTTP request for the Messages API.
    fn build(&self, req: &LlmRequest, api_key: &str, base_url: &str) -> (r: Result<HttpRequest, ChatError>)
        ensures
            r matches Ok(h) && h@ == anthropic_http(req@, api_key@, base_url@),
    {
        let mut url = trim_end_char(base_url, '/');
        push_str(&mut url, "/v1/messages");
        let messages = AnthropicAdapter::convert_messages(&req.messages);
        let tools = tool_defs(&req.tools);
        let mut body = obj4(
            "model",
            json_str(req.model.as_str()),
            "max_tokens",
            json_u64(4096),
            "messages",
            json_array(messages),
            "stream",
            JsonValue::Bool(true),
        );
        if !req.system.as_str().is_empty() {
            body.set("system", json_str(req.system.as_str()));
        }
        if tools.len() > 0 {
            body.set("tools", json_array(tools));
        }
        if req.thinking_enabled {
            body.set("thinking", obj1("type", json_str("adaptive")));
        } else {
            body.set("thinking", obj1("type", json_str("disabled")));
        }
        let text = render_json(&body);
        let headers = vec![
            pair("x-api-key", api_key),
            pair("anthropic-version", "2023-06-01"),
            pair("Content-Type", "application/json"),
        ];
        let h = HttpRequest { url, headers, body: text };
        assert(h@.headers =~= anthropic_http(req@, api_key@, base_url@).headers);
        Ok(h)
    }

    /// The UI deltas of one SSE event.
    fn stream_events(&self, event: &JsonValue) -> (r: Vec<StreamEvent>)
        ensures
            stream_event_views(r@) == anthropic_stream_events(event@),
    {
        let mut out: Vec<StreamEvent> = Vec::new();
        let delta = event.get("delta");
        if opt_member_is_exec(delta, "type", "text_delta") {
            if let Some(t) = opt_str_member(delta, "text") {
                if !t.as_str().is_empty() {
                    out.push(StreamEvent { kind: owned("text"), delta: t });
                }
            }
        } else if opt_member_is_exec(delta, "type", "thinking_delta") {
            if let Some(t) = opt_str_member(delta, "thinking") {
                if !t.as_str().is_empty() {
                    out.push(StreamEvent { kind: owned("thinking"), delta: t });
                }
            }
        }
        assert(stream_event_views(out@) =~= anthropic_stream_events(event@));
        out
    }

    /// Parse an accumulated Anthropic SSE body into text, thinking and tool
    /// calls. An `error` event ends the parse with `BadRequest`.
    fn parse_stream(&self, body: &str) -> (r: Result<LlmResponse, ChatError>)
        ensures
            match anthropic_parse(body@) {
                Ok(v) => r matches Ok(resp) && resp@ == v,
                Err(d) => r matches Err(ChatError::BadRequest { detail }) && detail@ == d,
            },
            r matches Ok(resp) ==> calls_ok(resp@.tool_calls),
    {
        let lines = lines_of(body);
        let mut acc = Accum {
            text: String::new(),
            thinking: String::new(),
            calls: Vec::new(),
            current: None,
        };
        let ghost all = lines_seq(body@);
        let mut i: usize = 0;
        assert(tool_call_views(acc.calls@) =~= Seq::<ToolCallView>::empty());
        assert(acc.model() == anthropic_start());
        assert(views_of(lines@).take(0) =~= Seq::<Seq<char>>::empty());
        while i < lines.len()
            invariant
                all == lines_seq(body@),
                views_of(lines@) == all,
                i <= lines@.len(),
                anthropic_lines(all.take(i as int)) == Ok::<AnthropicState, Seq<char>>(acc.model()),
                state_ok(acc.model()),
            decreases lines@.len() - i,
        {
            assert(all.take(i + 1).drop_last() =~= all.take(i as int));
            assert(all.take(i + 1).last() == lines@[i as int]@);
            let ghost before = acc.model();
            match apply_line(&mut acc, lines[i].as_str()) {
                Ok(()) => {},
                Err(d) => {
                    proof {
                        assert(anthropic_lines(all.take(i + 1)) == anthropic_line(before, lines@[i as int]@));
                        lemma_error_sticks(all, i + 1);

                    }
                    return Err(ChatError::BadRequest { detail: d });
                },
            }
            proof {
                let t = trim_seq(lines@[i as int]@);
                if t.len() > 0 && has_prefix(t, "data: "@) {
                    if let Some(ev) = spec_parse_json(t.skip(6)) {
                        lemma_event_keeps_ok(before, ev);
                    }
                }
            }
            i += 1;
        }
        assert(all.take(lines@.len() as int) =~= all);
        let ghost st = acc.model();
        close_current_exec(&mut acc);
        proof {
            lemma_event_keeps_ok(st, Json::Object(seq![crate::json::JsonMember { name: "type"@, value: Json::Str("content_block_stop"@) }]));
        }
        let thinking = if acc.thinking.as_str().is_empty() {
            None
        } else {
            Some(acc.thinking)
        };
        Ok(LlmResponse { text: acc.text, tool_calls: acc.calls, thinking })
    }
}

} // verus!
