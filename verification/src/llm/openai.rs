//! OpenAI chat-completions adapter.

use vstd::prelude::*;
use crate::error::ChatError;
use crate::json::{
    Json, JsonValue, JsonMember, spec_json_text, render_json, json_views, json_str, json_opt_str, json_array,
    push_json, obj2, obj3, obj4, jobj2, jobj3, jobj4, opt_get, opt_as_str, opt_str_member,
};
use crate::store::{ToolCall, ToolCallView, tool_call_views};
use crate::text::{owned, push_str, str_eq, trim_end_char, trim_end_char_seq};
use crate::llm::types::{
    LlmMessage, LlmMessageView, llm_message_views, LlmRequest, RequestView, LlmResponse, ResponseView,
    UnifiedTool, UnifiedToolView, tool_views,
};
use crate::llm::adapter::{ApiAdapter, HttpRequest, HttpView, StreamEvent, StreamEventView, stream_event_views};
use crate::llm::anthropic_request::opt_str_json;
use crate::sse::{parse_sse_response, sse_parse, first_delta};

verus! {

/// Protocol adapter for OpenAI-compatible chat-completions APIs.
pub struct OpenAiAdapter;

/// A tool call as the API's `tool_calls` entries write it.
pub open spec fn tool_call_json(c: ToolCallView) -> Json {
    jobj3("id"@, Json::Str(c.id), "type"@, Json::Str(c.call_type), "function"@, jobj2("name"@, Json::Str(c.name), "arguments"@, Json::Str(c.arguments)))
}

/// One message: tool results carry their call id, assistant messages with
/// tool calls carry the calls and no content.
pub open spec fn openai_message(m: LlmMessageView) -> Json {
    if m.role == "tool"@ {
        jobj3("role"@, Json::Str("tool"@), "tool_call_id"@, opt_str_json(m.tool_call_id), "content"@, Json::Str(m.content))
    } else if m.role == "assistant"@ && m.tool_calls is Some {
        jobj3(
            "role"@,
            Json::Str("assistant"@),
            "content"@,
            Json::Null,
            "tool_calls"@,
            Json::Array(m.tool_calls->0.map_values(|c: ToolCallView| tool_call_json(c))),
        )
    } else {
        jobj2("role"@, Json::Str(m.role), "content"@, Json::Str(m.content))
    }
}

pub open spec fn openai_tool(t: UnifiedToolView) -> Json {
    jobj2(
        "type"@,
        Json::Str("function"@),
        "function"@,
        jobj3("name"@, Json::Str(t.name), "description"@, Json::Str(t.description), "parameters"@, t.parameters),
    )
}

/// The request body: the system prompt always comes first, then the
/// messages; tools are always listed.
pub open spec fn openai_body(req: RequestView) -> Json {
    jobj4(
        "model"@,
        Json::Str(req.model),
        "messages"@,
        Json::Array(
            seq![jobj2("role"@, Json::Str("system"@), "content"@, Json::Str(req.system))]
                + req.messages.map_values(|m: LlmMessageView| openai_message(m)),
        ),
        "stream"@,
        Json::Bool(true),
        "tools"@,
        Json::Array(req.tools.map_values(|t: UnifiedToolView| openai_tool(t))),
    )
}

pub open spec fn openai_http(req: RequestView, api_key: Seq<char>, base_url: Seq<char>) -> HttpView {
    HttpView {
        url: trim_end_char_seq(base_url, '/') + "/chat/completions"@,
        headers: seq![
            ("Authorization"@, "Bearer "@ + api_key),
            ("Content-Type"@, "application/json"@),
        ],
        body: spec_json_text(openai_body(req)),
    }
}

/// The UI deltas of one event: the first choice's non-empty content.
pub open spec fn openai_stream_events(ev: Json) -> Seq<StreamEventView> {
    match opt_as_str(opt_get(first_delta(ev), "content"@)) {
        Some(t) => if t.len() > 0 {
            seq![StreamEventView { kind: "text"@, delta: t }]
        } else {
            Seq::empty()
        },
        None => Seq::empty(),
    }
}

fn tool_call_value(c: &ToolCall) -> (r: JsonValue)
    ensures
        r@ == tool_call_json(c@),
{
    obj3(
        "id",
        json_str(c.id.as_str()),
        "type",
        json_str(c.call_type.as_str()),
        "function",
        obj2("name", json_str(c.function.name.as_str()), "arguments", json_str(c.function.arguments.as_str())),
    )
}

fn tool_call_values(calls: &Vec<ToolCall>) -> (r: Vec<JsonValue>)
    ensures
        json_views(r@) == tool_call_views(calls@).map_values(|c: ToolCallView| tool_call_json(c)),
{
    let ghost want = tool_call_views(calls@).map_values(|c: ToolCallView| tool_call_json(c));
    let mut out: Vec<JsonValue> = Vec::new();
    let mut i: usize = 0;
    assert(json_views(out@) =~= want.take(0));
    while i < calls.len()
        invariant
            i <= calls@.len(),
            want == tool_call_views(calls@).map_values(|c: ToolCallView| tool_call_json(c)),
            json_views(out@) == want.take(i as int),
        decreases calls@.len() - i,
    {
        push_json(&mut out, tool_call_value(&calls[i]));
        assert(want.take(i + 1) =~= want.take(i as int).push(want[i as int]));
        i += 1;
    }
    assert(want.take(calls@.len() as int) =~= want);
    out
}

fn message_value(m: &LlmMessage) -> (r: JsonValue)
    ensures
        r@ == openai_message(m@),
{
    if str_eq(m.role.as_str(), "tool") {
        obj3(
            "role",
            json_str("tool"),
            "tool_call_id",
            json_opt_str(match &m.tool_call_id {
                Some(s) => Some(s.as_str()),
                None => None,
            }),
            "content",
            json_str(m.content.as_str()),
        )
    } else if str_eq(m.role.as_str(), "assistant") && m.tool_calls.is_some() {
        let calls = match &m.tool_calls {
            Some(c) => tool_call_values(c),
            None => Vec::new(),
        };
        obj3("role", json_str("assistant"), "content", JsonValue::Null, "tool_calls", json_array(calls))
    } else {
        obj2("role", json_str(m.role.as_str()), "content", json_str(m.content.as_str()))
    }
}

impl crate::store::Message {
    /// The message in the OpenAI chat format (no images).
    pub fn to_llm_message(&self) -> (r: JsonValue)
        ensures
            r@ == openai_message(
                LlmMessageView {
                    role: self@.role,
                    content: self@.content,
                    images: None,
                    tool_calls: self@.tool_calls,
                    tool_call_id: self@.tool_call_id,
                    thinking: self@.thinking,
                },
            ),
    {
        let m = LlmMessage {
            role: self.role.clone(),
            content: self.content.clone(),
            images: None,
            tool_calls: match &self.tool_calls {
                Some(c) => Some(crate::store::copy_tool_calls(c)),
                None => None,
            },
            tool_call_id: crate::store::copy_opt_string(&self.tool_call_id),
            thinking: crate::store::copy_opt_string(&self.thinking),
        };
        message_value(&m)
    }
}

fn tool_value(t: &UnifiedTool) -> (r: JsonValue)
    ensures
        r@ == openai_tool(t@),
{
    obj2(
        "type",
        json_str("function"),
        "function",
        obj3(
            "name",
            json_str(t.name.as_str()),
            "description",
            json_str(t.description.as_str()),
            "parameters",
            t.parameters.deep_clone(),
        ),
    )
}

fn pair(a: &str, b: &str) -> (r: (String, String))
    ensures
        r.0@ == a@,
        r.1@ == b@,
{
    (owned(a), owned(b))
}

impl ApiAdapter for OpenAiAdapter {
    open spec fn request_spec(&self, req: RequestView, api_key: Seq<char>, base_url: Seq<char>) -> HttpView {
        openai_http(req, api_key, base_url)
    }

    open spec fn reply_spec(&self, body: Seq<char>) -> Result<ResponseView, Seq<char>> {
        match sse_parse(body) {
            Ok(v) => Ok(ResponseView { text: v.text, tool_calls: v.tool_calls, thinking: None }),
            Err(d) => Err(d),
        }
    }

    open spec fn events_spec(&self, event: Json) -> Seq<StreamEventView> {
        openai_stream_events(event)
    }

    /// The HTTP request for chat completions.
    fn build(&self, req: &LlmRequest, api_key: &str, base_url: &str) -> (r: Result<HttpRequest, ChatError>)
        ensures
            r matches Ok(h) && h@ == openai_http(req@, api_key@, base_url@),
    {
        let mut url = trim_end_char(base_url, '/');
        push_str(&mut url, "/chat/completions");
        let ghost want_msgs = seq![jobj2("role"@, Json::Str("system"@), "content"@, Json::Str(req.system@))]
            + llm_message_views(req.messages@).map_values(|m: LlmMessageView| openai_message(m));
        let mut messages: Vec<JsonValue> = Vec::new();
        push_json(&mut messages, obj2("role", json_str("system"), "content", json_str(req.system.as_str())));
        let mut i: usize = 0;
        assert(json_views(messages@) =~= want_msgs.take(1));
        while i < req.messages.len()
            invariant
                i <= req.messages@.len(),
                want_msgs == seq![jobj2("role"@, Json::Str("system"@), "content"@, Json::Str(req.system@))]
                    + llm_message_views(req.messages@).map_values(|m: LlmMessageView| openai_message(m)),
                json_views(messages@) == want_msgs.take(i + 1),
            decreases req.messages@.len() - i,
        {
            push_json(&mut messages, message_value(&req.messages[i]));
            assert(want_msgs.take(i + 2) =~= want_msgs.take(i + 1).push(want_msgs[i + 1]));
            i += 1;
        }
        assert(want_msgs.take(req.messages@.len() + 1 as int) =~= want_msgs);
        let ghost want_tools = tool_views(req.tools@).map_values(|t: UnifiedToolView| openai_tool(t));
        let mut tools: Vec<JsonValue> = Vec::new();
        let mut j: usize = 0;
        assert(json_views(tools@) =~= want_tools.take(0));
        while j < req.tools.len()
            invariant
                j <= req.tools@.len(),
                want_tools == tool_views(req.tools@).map_values(|t: UnifiedToolView| openai_tool(t)),
                json_views(tools@) == want_tools.take(j as int),
            decreases req.tools@.len() - j,
        {
            push_json(&mut tools, tool_value(&req.tools[j]));
            assert(want_tools.take(j + 1) =~= want_tools.take(j as int).push(want_tools[j as int]));
            j += 1;
        }
        assert(want_tools.take(req.tools@.len() as int) =~= want_tools);
        let body = obj4(
            "model",
            json_str(req.model.as_str()),
            "messages",
            json_array(messages),
            "stream",
            JsonValue::Bool(true),
            "tools",
            json_array(tools),
        );
        let mut auth = owned("Bearer ");
        push_str(&mut auth, api_key);
        let headers = vec![(owned("Authorization"), auth), pair("Content-Type", "application/json")];
        let h = HttpRequest { url, headers, body: render_json(&body) };
        assert(h@.headers =~= openai_http(req@, api_key@, base_url@).headers);
        Ok(h)
    }

    /// Parse an OpenAI SSE body; there is no thinking text.
    fn parse_stream(&self, body: &str) -> (r: Result<LlmResponse, ChatError>)
        ensures
            match sse_parse(body@) {
                Ok(v) => r matches Ok(resp) && resp@ == ResponseView {
                    text: v.text,
                    tool_calls: v.tool_calls,
                    thinking: None,
                },
                Err(d) => r matches Err(ChatError::BadRequest { detail }) && detail@ == d,
            },
    {
        match parse_sse_response(body) {
            Ok(res) => Ok(LlmResponse { text: res.text, tool_calls: res.tool_calls, thinking: None }),
            Err(e) => Err(e),
        }
    }

    /// The UI deltas of one SSE event.
    fn stream_events(&self, event: &JsonValue) -> (r: Vec<StreamEvent>)
        ensures
            stream_event_views(r@) == openai_stream_events(event@),
    {
        let mut out: Vec<StreamEvent> = Vec::new();
        let delta = match event.get("choices") {
            Some(c) => match c.at(0) {
                Some(first) => first.get("delta"),
                None => None,
            },
            None => None,
        };
        if let Some(t) = opt_str_member(delta, "content") {
            if !t.as_str().is_empty() {
                out.push(StreamEvent { kind: owned("text"), delta: t });
            }
        }
        assert(stream_event_views(out@) =~= openai_stream_events(event@));
        out
    }
}

} // verus!
