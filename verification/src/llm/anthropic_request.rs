//! Anthropic request building: messages in content-block form.

use vstd::prelude::*;
use crate::json::{
    Json, JsonValue, spec_parse_json, spec_json_text, parse_json, render_json, json_views,
    json_str, json_opt_str, json_u64, json_array, push_json, obj1, obj2, obj3, obj4, jobj1, jobj2, jobj3,
    jobj4, members_set,
};
use crate::store::{ToolCall, ToolCallView, tool_call_views, opt_str_view};
use crate::text::{decimal_seq, owned, push_str, str_eq, trim_end_char, trim_end_char_seq};
use crate::llm::types::{
    ImageContent, ImageView, image_views, LlmMessage, LlmMessageView, llm_message_views, LlmRequest,
    UnifiedTool, UnifiedToolView, tool_views,
};
use crate::llm::adapter::HttpRequest;
use crate::llm::anthropic::AnthropicAdapter;

verus! {

// ── Model ────────────────────────────────────────────────────────────────

pub open spec fn jstr(s: Seq<char>) -> Json {
    Json::Str(s)
}

pub open spec fn text_block(t: Seq<char>) -> Json {
    jobj2("type"@, jstr("text"@), "text"@, jstr(t))
}

pub open spec fn thinking_block(t: Seq<char>) -> Json {
    jobj2("type"@, jstr("thinking"@), "thinking"@, jstr(t))
}

/// A thinking block when there is non-empty thinking text.
pub open spec fn thinking_blocks(th: Option<Seq<char>>) -> Seq<Json> {
    match th {
        Some(t) => if t.len() > 0 {
            seq![thinking_block(t)]
        } else {
            Seq::empty()
        },
        None => Seq::empty(),
    }
}

/// A text block when the text is not empty.
pub open spec fn text_blocks_if_any(t: Seq<char>) -> Seq<Json> {
    if t.len() > 0 {
        seq![text_block(t)]
    } else {
        Seq::empty()
    }
}

pub open spec fn data_url(img: ImageView) -> Seq<char> {
    "data:"@ + img.media_type + ";base64,"@ + img.base64
}

/// A user image, given inline as a data URL.
pub open spec fn url_image_block(img: ImageView) -> Json {
    jobj2("type"@, jstr("image"@), "source"@, jobj2("type"@, jstr("url"@), "url"@, jstr(data_url(img))))
}

/// A tool-output image, given as base64 data.
pub open spec fn base64_image_block(img: ImageView) -> Json {
    jobj2(
        "type"@,
        jstr("image"@),
        "source"@,
        jobj3("type"@, jstr("base64"@), "media_type"@, jstr(img.media_type), "data"@, jstr(img.base64)),
    )
}

/// A user or system message: image blocks before the text.
pub open spec fn text_message(m: LlmMessageView) -> Json {
    match m.images {
        Some(imgs) => jobj2(
            "role"@,
            jstr(m.role),
            "content"@,
            Json::Array(imgs.map_values(|i: ImageView| url_image_block(i)) + text_blocks_if_any(m.content)),
        ),
        None => jobj2("role"@, jstr(m.role), "content"@, Json::Array(seq![text_block(m.content)])),
    }
}

/// An assistant reply: thinking (when present), then text.
pub open spec fn assistant_text(m: LlmMessageView) -> Json {
    jobj2(
        "role"@,
        jstr("assistant"@),
        "content"@,
        Json::Array(thinking_blocks(m.thinking) + seq![text_block(m.content)]),
    )
}

/// The parsed arguments of a call, or `null` when they are not JSON.
pub open spec fn parsed_or_null(args: Seq<char>) -> Json {
    match spec_parse_json(args) {
        Some(v) => v,
        None => Json::Null,
    }
}

pub open spec fn tool_use_block(c: ToolCallView) -> Json {
    jobj4("type"@, jstr("tool_use"@), "id"@, jstr(c.id), "name"@, jstr(c.name), "input"@, parsed_or_null(c.arguments))
}

/// An assistant message with tool calls: thinking, text, then one
/// `tool_use` block per call.
pub open spec fn assistant_tool_use(m: LlmMessageView, calls: Seq<ToolCallView>) -> Json {
    jobj2(
        "role"@,
        jstr("assistant"@),
        "content"@,
        Json::Array(
            thinking_blocks(m.thinking) + text_blocks_if_any(m.content) + calls.map_values(
                |c: ToolCallView| tool_use_block(c),
            ),
        ),
    )
}

pub open spec fn opt_str_json(o: Option<Seq<char>>) -> Json {
    match o {
        Some(s) => Json::Str(s),
        None => Json::Null,
    }
}

pub open spec fn tool_result_block(m: LlmMessageView) -> Json {
    match m.images {
        Some(imgs) => jobj3(
            "type"@,
            jstr("tool_result"@),
            "tool_use_id"@,
            opt_str_json(m.tool_call_id),
            "content"@,
            Json::Array(imgs.map_values(|i: ImageView| base64_image_block(i)) + text_blocks_if_any(m.content)),
        ),
        None => jobj3("type"@, jstr("tool_result"@), "tool_use_id"@, opt_str_json(m.tool_call_id), "content"@, jstr(m.content)),
    }
}

/// A run of tool results packed into one user message.
pub open spec fn tool_results(ms: Seq<LlmMessageView>) -> Json {
    jobj2("role"@, jstr("user"@), "content"@, Json::Array(ms.map_values(|m: LlmMessageView| tool_result_block(m))))
}

pub open spec fn is_tool(m: LlmMessageView) -> bool {
    m.role == "tool"@
}

/// The number of leading `tool` messages.
pub open spec fn tool_prefix_len(ms: Seq<LlmMessageView>) -> nat
    decreases ms.len(),
{
    if ms.len() > 0 && is_tool(ms[0]) {
        1 + tool_prefix_len(ms.drop_first())
    } else {
        0
    }
}

pub proof fn lemma_tool_prefix_len(ms: Seq<LlmMessageView>)
    ensures
        tool_prefix_len(ms) <= ms.len(),
        ms.len() > 0 && is_tool(ms[0]) ==> tool_prefix_len(ms) >= 1,
    decreases ms.len(),
{
    if ms.len() > 0 && is_tool(ms[0]) {
        lemma_tool_prefix_len(ms.drop_first());
    }
}

/// Anthropic's message list: consecutive tool results merged into one
/// user message, tool-calling assistant messages as `tool_use` blocks,
/// other assistant messages as text, everything else as user content.
pub open spec fn convert_messages_spec(ms: Seq<LlmMessageView>) -> Seq<Json>
    decreases ms.len(),
{
    if ms.len() == 0 {
        Seq::empty()
    } else if is_tool(ms[0]) {
        let n = tool_prefix_len(ms);
        proof {
            lemma_tool_prefix_len(ms);
        }
        seq![tool_results(ms.take(n as int))] + convert_messages_spec(ms.skip(n as int))
    } else {
        let first = match ms[0].tool_calls {
            Some(calls) => assistant_tool_use(ms[0], calls),
            None => if ms[0].role == "assistant"@ {
                assistant_text(ms[0])
            } else {
                text_message(ms[0])
            },
        };
        seq![first] + convert_messages_spec(ms.drop_first())
    }
}

// ── Building ─────────────────────────────────────────────────────────────

fn text_block_exec(t: &str) -> (r: JsonValue)
    ensures
        r@ == text_block(t@),
{
    obj2("type", json_str("text"), "text", json_str(t))
}

fn push_thinking_blocks(out: &mut Vec<JsonValue>, th: &Option<String>)
    ensures
        json_views(final(out)@) == json_views(old(out)@) + thinking_blocks(opt_str_view(*th)),
{
    let ghost before = json_views(out@);
    if let Some(t) = th {
        if !t.as_str().is_empty() {
            push_json(out, obj2("type", json_str("thinking"), "thinking", json_str(t.as_str())));
            assert(json_views(out@) =~= before + thinking_blocks(opt_str_view(*th)));
            return;
        }
    }
    assert(json_views(out@) =~= before + thinking_blocks(opt_str_view(*th)));
}

fn push_text_if_any(out: &mut Vec<JsonValue>, t: &str)
    ensures
        json_views(final(out)@) == json_views(old(out)@) + text_blocks_if_any(t@),
{
    let ghost before = json_views(out@);
    if !t.is_empty() {
        push_json(out, text_block_exec(t));
    }
    assert(json_views(out@) =~= before + text_blocks_if_any(t@));
}

fn concat3(a: &str, b: &str, c: &str, d: &str) -> (r: String)
    ensures
        r@ == a@ + b@ + c@ + d@,
{
    let mut s = owned(a);
    push_str(&mut s, b);
    push_str(&mut s, c);
    push_str(&mut s, d);
    s
}

fn push_images(out: &mut Vec<JsonValue>, imgs: &Vec<ImageContent>, inline_url: bool)
    ensures
        json_views(final(out)@) == json_views(old(out)@) + if inline_url {
            image_views(imgs@).map_values(|i: ImageView| url_image_block(i))
        } else {
            image_views(imgs@).map_values(|i: ImageView| base64_image_block(i))
        },
{
    let ghost before = json_views(out@);
    let ghost blocks = if inline_url {
        image_views(imgs@).map_values(|i: ImageView| url_image_block(i))
    } else {
        image_views(imgs@).map_values(|i: ImageView| base64_image_block(i))
    };
    let mut i: usize = 0;
    while i < imgs.len()
        invariant
            i <= imgs@.len(),
            blocks.len() == imgs@.len(),
            blocks == if inline_url {
                image_views(imgs@).map_values(|i: ImageView| url_image_block(i))
            } else {
                image_views(imgs@).map_values(|i: ImageView| base64_image_block(i))
            },
            json_views(out@) == before + blocks.take(i as int),
        decreases imgs@.len() - i,
    {
        let img = &imgs[i];
        let block = if inline_url {
            let url = concat3("data:", img.media_type.as_str(), ";base64,", img.base64.as_str());
            obj2("type", json_str("image"), "source", obj2("type", json_str("url"), "url", JsonValue::Str(url)))
        } else {
            obj2(
                "type",
                json_str("image"),
                "source",
                obj3(
                    "type",
                    json_str("base64"),
                    "media_type",
                    json_str(img.media_type.as_str()),
                    "data",
                    json_str(img.base64.as_str()),
                ),
            )
        };
        push_json(out, block);
        assert(blocks.take(i + 1) =~= blocks.take(i as int).push(blocks[i as int]));
        i += 1;
    }
    assert(blocks.take(imgs@.len() as int) =~= blocks);
}

fn push_tool_uses(out: &mut Vec<JsonValue>, calls: &Vec<ToolCall>)
    ensures
        json_views(final(out)@) == json_views(old(out)@) + tool_call_views(calls@).map_values(
            |c: ToolCallView| tool_use_block(c),
        ),
{
    let ghost before = json_views(out@);
    let ghost blocks = tool_call_views(calls@).map_values(|c: ToolCallView| tool_use_block(c));
    let mut i: usize = 0;
    while i < calls.len()
        invariant
            i <= calls@.len(),
            blocks == tool_call_views(calls@).map_values(|c: ToolCallView| tool_use_block(c)),
            json_views(out@) == before + blocks.take(i as int),
        decreases calls@.len() - i,
    {
        let c = &calls[i];
        let input = match parse_json(c.function.arguments.as_str()) {
            Some(v) => v,
            None => JsonValue::Null,
        };
        push_json(
            out,
            obj4(
                "type",
                json_str("tool_use"),
                "id",
                json_str(c.id.as_str()),
                "name",
                json_str(c.function.name.as_str()),
                "input",
                input,
            ),
        );
        assert(blocks.take(i + 1) =~= blocks.take(i as int).push(blocks[i as int]));
        i += 1;
    }
    assert(blocks.take(calls@.len() as int) =~= blocks);
}

impl AnthropicAdapter {
    /// A user or system message.
    pub fn build_text_message(msg: &LlmMessage) -> (r: JsonValue)
        ensures
            r@ == text_message(msg@),
    {
        match &msg.images {
            Some(images) => {
                let mut blocks: Vec<JsonValue> = Vec::new();
                assert(json_views(blocks@) =~= Seq::<Json>::empty());
                push_images(&mut blocks, images, true);
                push_text_if_any(&mut blocks, msg.content.as_str());
                proof {
                    assert(json_views(blocks@) =~= image_views(images@).map_values(
                        |i: ImageView| url_image_block(i),
                    ) + text_blocks_if_any(msg.content@));
                }
                obj2("role", json_str(msg.role.as_str()), "content", json_array(blocks))
            },
            None => {
                let mut blocks: Vec<JsonValue> = Vec::new();
                push_json(&mut blocks, text_block_exec(msg.content.as_str()));
                assert(json_views(blocks@) =~= seq![text_block(msg.content@)]);
                obj2("role", json_str(msg.role.as_str()), "content", json_array(blocks))
            },
        }
    }

    /// An assistant text reply: `thinking` (if present), then `text`.
    pub fn build_assistant_text(msg: &LlmMessage) -> (r: JsonValue)
        ensures
            r@ == assistant_text(msg@),
    {
        let mut blocks: Vec<JsonValue> = Vec::new();
        assert(json_views(blocks@) =~= Seq::<Json>::empty());
        push_thinking_blocks(&mut blocks, &msg.thinking);
        push_json(&mut blocks, text_block_exec(msg.content.as_str()));
        assert(json_views(blocks@) =~= thinking_blocks(opt_str_view(msg.thinking)) + seq![
            text_block(msg.content@),
        ]);
        obj2("role", json_str("assistant"), "content", json_array(blocks))
    }

    /// An assistant message with tool calls: thinking, text, tool_use.
    pub fn build_assistant_tool_use(msg: &LlmMessage, calls: &Vec<ToolCall>) -> (r: JsonValue)
        ensures
            r@ == assistant_tool_use(msg@, tool_call_views(calls@)),
    {
        let mut blocks: Vec<JsonValue> = Vec::new();
        assert(json_views(blocks@) =~= Seq::<Json>::empty());
        push_thinking_blocks(&mut blocks, &msg.thinking);
        push_text_if_any(&mut blocks, msg.content.as_str());
        push_tool_uses(&mut blocks, calls);
        obj2("role", json_str("assistant"), "content", json_array(blocks))
    }

    /// A run of tool-result messages packed into one `user` message.
    pub fn build_tool_results(msgs: &Vec<LlmMessage>, lo: usize, hi: usize) -> (r: JsonValue)
        requires
            lo <= hi <= msgs@.len(),
        ensures
            r@ == tool_results(llm_message_views(msgs@).subrange(lo as int, hi as int)),
    {
        let ghost run = llm_message_views(msgs@).subrange(lo as int, hi as int);
        let ghost blocks = run.map_values(|m: LlmMessageView| tool_result_block(m));
        let mut out: Vec<JsonValue> = Vec::new();
        assert(json_views(out@) =~= blocks.take(0));
        let mut i = lo;
        while i < hi
            invariant
                lo <= i <= hi <= msgs@.len(),
                run == llm_message_views(msgs@).subrange(lo as int, hi as int),
                blocks == run.map_values(|m: LlmMessageView| tool_result_block(m)),
                json_views(out@) == blocks.take(i - lo),
            decreases hi - i,
        {
            let tm = &msgs[i];
            let block = match &tm.images {
                Some(images) => {
                    let mut cb: Vec<JsonValue> = Vec::new();
                    assert(json_views(cb@) =~= Seq::<Json>::empty());
                    push_images(&mut cb, images, false);
                    push_text_if_any(&mut cb, tm.content.as_str());
                    proof {
                        assert(json_views(cb@) =~= image_views(images@).map_values(
                            |i: ImageView| base64_image_block(i),
                        ) + text_blocks_if_any(tm.content@));
                    }
                    obj3(
                        "type",
                        json_str("tool_result"),
                        "tool_use_id",
                        json_opt_str(match &tm.tool_call_id {
                            Some(s) => Some(s.as_str()),
                            None => None,
                        }),
                        "content",
                        json_array(cb),
                    )
                },
                None => obj3(
                    "type",
                    json_str("tool_result"),
                    "tool_use_id",
                    json_opt_str(match &tm.tool_call_id {
                        Some(s) => Some(s.as_str()),
                        None => None,
                    }),
                    "content",
                    json_str(tm.content.as_str()),
                ),
            };
            assert(run[i - lo] == msgs@[i as int]@);
            push_json(&mut out, block);
            assert(blocks.take(i + 1 - lo) =~= blocks.take(i - lo).push(blocks[i - lo]));
            i += 1;
        }
        assert(blocks.take(hi - lo) =~= blocks);
        obj2("role", json_str("user"), "content", json_array(out))
    }
}

proof fn lemma_tool_run(ms: Seq<LlmMessageView>, i: int, j: int)
    requires
        0 <= i <= j <= ms.len(),
        forall|k: int| i <= k < j ==> is_tool(#[trigger] ms[k]),
        j == ms.len() || !is_tool(ms[j]),
    ensures
        tool_prefix_len(ms.skip(i)) == j - i,
    decreases j - i,
{
    if i < j {
        lemma_tool_run(ms, i + 1, j);
        assert(ms.skip(i).drop_first() =~= ms.skip(i + 1));
    } else {
        if j < ms.len() {
            assert(ms.skip(i)[0] == ms[j]);
        }
    }
}

impl AnthropicAdapter {
    /// Anthropic message JSON for a list of messages; consecutive `tool`
    /// messages become one user message with several `tool_result` blocks.
    pub fn convert_messages(msgs: &Vec<LlmMessage>) -> (r: Vec<JsonValue>)
        ensures
            json_views(r@) == convert_messages_spec(llm_message_views(msgs@)),
    {
        let ghost all = llm_message_views(msgs@);
        let mut out: Vec<JsonValue> = Vec::new();
        let mut i: usize = 0;
        assert(all.skip(0) =~= all);
        assert(json_views(out@) + convert_messages_spec(all.skip(0)) =~= convert_messages_spec(all));
        while i < msgs.len()
            invariant
                i <= msgs@.len(),
                all == llm_message_views(msgs@),
                json_views(out@) + convert_messages_spec(all.skip(i as int)) == convert_messages_spec(all),
            decreases msgs@.len() - i,
        {
            let ghost rest = all.skip(i as int);
            assert(rest[0] == msgs@[i as int]@);
            if str_eq(msgs[i].role.as_str(), "tool") {
                let start = i;
                while i < msgs.len() && str_eq(msgs[i].role.as_str(), "tool")
                    invariant
                        start <= i <= msgs@.len(),
                        all == llm_message_views(msgs@),
                        forall|k: int| start <= k < i ==> is_tool(#[trigger] all[k]),
                    decreases msgs@.len() - i,
                {
                    i += 1;
                }
                proof {
                    lemma_tool_run(all, start as int, i as int);
                    assert(rest.take(i - start) =~= all.subrange(start as int, i as int));
                    assert(rest.skip(i - start) =~= all.skip(i as int));
                }
                let block = Self::build_tool_results(msgs, start, i);
                let ghost before = json_views(out@);
                push_json(&mut out, block);
                assert(before.push(block@) + convert_messages_spec(all.skip(i as int)) =~= before
                    + convert_messages_spec(rest));
            } else {
                let m = &msgs[i];
                let block = match &m.tool_calls {
                    Some(calls) => Self::build_assistant_tool_use(m, calls),
                    None => if str_eq(m.role.as_str(), "assistant") {
                        Self::build_assistant_text(m)
                    } else {
                        Self::build_text_message(m)
                    },
                };
                let ghost before = json_views(out@);
                push_json(&mut out, block);
                assert(rest.drop_first() =~= all.skip(i + 1));
                assert(before.push(block@) + convert_messages_spec(all.skip(i + 1)) =~= before
                    + convert_messages_spec(rest));
                i += 1;
            }
        }
        assert(all.skip(msgs@.len() as int) =~= Seq::<LlmMessageView>::empty());
        assert(json_views(out@) + Seq::<Json>::empty() =~= json_views(out@));
        out
    }
}

} // verus!
