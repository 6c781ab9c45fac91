//! The messages a turn sends to the model: stored history made safe to
//! send (tool calls without results dropped), screenshots and saved images
//! turned into image content, and the user's uploads attached.

use vstd::prelude::*;
use crate::llm::types::{
    ImageContent, ImageView, LlmMessage, LlmMessageView, LlmRequest, RequestView, UnifiedTool, image_views,
    llm_message_views, tool_views,
};
use crate::store::{
    Message, MessageView, ToolCall, ToolCallView, copy_opt_string, copy_tool_calls, message_views, tool_call_views,
};
use crate::text::{has_prefix, owned, str_eq, strip_prefix};

verus! {

// ── Tool calls that have results ─────────────────────────────────────

/// Some later message is the result of the call `id`.
pub open spec fn answered(id: Seq<char>, later: Seq<MessageView>) -> bool {
    exists|j: int| 0 <= j < later.len() && later[j].tool_call_id == Some(id)
}

/// The calls, in order, that some later message answers.
pub open spec fn answered_calls(calls: Seq<ToolCallView>, later: Seq<MessageView>) -> Seq<ToolCallView>
    decreases calls.len(),
{
    if calls.len() == 0 {
        Seq::empty()
    } else {
        let rest = answered_calls(calls.drop_last(), later);
        if answered(calls.last().id, later) {
            rest.push(calls.last())
        } else {
            rest
        }
    }
}

/// The tool calls message `i` keeps when sent: none unless the next
/// message is a tool result, and then only the calls some later message
/// answers (none at all when no call is answered).
pub open spec fn kept_calls(ms: Seq<MessageView>, i: int) -> Option<Seq<ToolCallView>> {
    match ms[i].tool_calls {
        None => None,
        Some(calls) => if !(i + 1 < ms.len() && ms[i + 1].role == "tool"@) {
            None
        } else {
            let f = answered_calls(calls, ms.skip(i + 1));
            if f.len() == 0 {
                None
            } else {
                Some(f)
            }
        },
    }
}

/// The marker of a stored screenshot: the base64 PNG follows it.
pub open spec fn screenshot_marker() -> Seq<char> {
    "[SCREENSHOT]\n"@
}

/// Message `i` as sent to the model; `loaded` holds the images read from
/// the message's saved image files.
pub open spec fn prepared_message(ms: Seq<MessageView>, i: int, loaded: Seq<ImageView>) -> LlmMessageView {
    let m = ms[i];
    let shot = has_prefix(m.content, screenshot_marker());
    LlmMessageView {
        role: m.role,
        content: if shot {
            "Screenshot captured."@
        } else {
            m.content
        },
        images: if shot {
            Some(seq![ImageView { base64: m.content.skip(13), media_type: "image/png"@ }])
        } else if m.image_paths is Some && loaded.len() > 0 {
            Some(loaded)
        } else {
            None
        },
        tool_calls: kept_calls(ms, i),
        tool_call_id: m.tool_call_id,
        thinking: m.thinking,
    }
}

/// The position of the last user message.
pub open spec fn last_user(ms: Seq<LlmMessageView>) -> Option<int>
    decreases ms.len(),
{
    if ms.len() == 0 {
        None
    } else if ms.last().role == "user"@ {
        Some(ms.len() - 1)
    } else {
        last_user(ms.drop_last())
    }
}

/// The user's uploads attached to the last user message, after any
/// images it already has.
pub open spec fn with_user_images(ms: Seq<LlmMessageView>, uploads: Option<Seq<ImageView>>) -> Seq<LlmMessageView> {
    match uploads {
        None => ms,
        Some(extra) => match last_user(ms) {
            None => ms,
            Some(k) => ms.update(
                k,
                LlmMessageView {
                    images: Some(
                        match ms[k].images {
                            Some(e) => e + extra,
                            None => extra,
                        },
                    ),
                    ..ms[k]
                },
            ),
        },
    }
}

/// The messages a turn sends: each stored message prepared, then the
/// uploads attached.
pub open spec fn turn_messages(
    ms: Seq<MessageView>,
    loaded: Seq<Seq<ImageView>>,
    uploads: Option<Seq<ImageView>>,
) -> Seq<LlmMessageView> {
    with_user_images(Seq::new(ms.len(), |i: int| prepared_message(ms, i, loaded[i])), uploads)
}

fn is_answered(id: &str, messages: &Vec<Message>, from: usize) -> (r: bool)
    requires
        from <= messages@.len(),
    ensures
        r == answered(id@, message_views(messages@).skip(from as int)),
{
    let ghost later = message_views(messages@).skip(from as int);
    let mut j: usize = from;
    while j < messages.len()
        invariant
            from <= j <= messages@.len(),
            later == message_views(messages@).skip(from as int),
            forall|k: int| 0 <= k < j - from ==> later[k].tool_call_id != Some(id@),
        decreases messages@.len() - j,
    {
        assert(later[j - from] == messages@[j as int]@);
        match &messages[j].tool_call_id {
            Some(t) => {
                if str_eq(t.as_str(), id) {
                    return true;
                }
            },
            None => {},
        }
        j += 1;
    }
    false
}

fn keep_answered(calls: &Vec<ToolCall>, messages: &Vec<Message>, from: usize) -> (r: Vec<ToolCall>)
    requires
        from <= messages@.len(),
    ensures
        tool_call_views(r@) == answered_calls(tool_call_views(calls@), message_views(messages@).skip(from as int)),
{
    let ghost later = message_views(messages@).skip(from as int);
    let ghost cs = tool_call_views(calls@);
    let mut out: Vec<ToolCall> = Vec::new();
    let mut i: usize = 0;
    assert(cs.take(0) =~= Seq::<ToolCallView>::empty());
    assert(tool_call_views(out@) =~= answered_calls(cs.take(0), later));
    while i < calls.len()
        invariant
            i <= calls@.len(),
            from <= messages@.len(),
            later == message_views(messages@).skip(from as int),
            cs == tool_call_views(calls@),
            tool_call_views(out@) == answered_calls(cs.take(i as int), later),
        decreases calls@.len() - i,
    {
        assert(cs.take(i + 1).drop_last() =~= cs.take(i as int));
        assert(cs.take(i + 1).last() == calls@[i as int]@);
        if is_answered(calls[i].id.as_str(), messages, from) {
            let c = calls[i].duplicate();
            let ghost before = out@;
            out.push(c);
            assert(tool_call_views(out@) =~= tool_call_views(before).push(c@));
        }
        i += 1;
    }
    assert(cs.take(calls@.len() as int) =~= cs);
    out
}

/// A copy of a list of images.
pub fn copy_images(v: &Vec<ImageContent>) -> (r: Vec<ImageContent>)
    ensures
        image_views(r@) == image_views(v@),
{
    let mut out: Vec<ImageContent> = Vec::new();
    let mut i: usize = 0;
    while i < v.len()
        invariant
            i <= v@.len(),
            out@.len() == i,
            image_views(out@) == image_views(v@).take(i as int),
        decreases v@.len() - i,
    {
        let img = ImageContent { base64: v[i].base64.clone(), media_type: v[i].media_type.clone() };
        let ghost before = out@;
        out.push(img);
        assert(out@ == before.push(img));
        assert(image_views(out@) =~= image_views(v@).take(i + 1));
        i += 1;
    }
    assert(image_views(v@).take(v@.len() as int) =~= image_views(v@));
    out
}

fn prepare_message(messages: &Vec<Message>, i: usize, loaded: &Vec<ImageContent>) -> (r: LlmMessage)
    requires
        i < messages@.len(),
    ensures
        r@ == prepared_message(message_views(messages@), i as int, image_views(loaded@)),
{
    let ghost ms = message_views(messages@);
    let m = &messages[i];
    assert(ms[i as int] == m@);
    let tool_calls = match &m.tool_calls {
        None => None,
        Some(calls) => {
            let next_is_tool = messages.len() - i > 1 && str_eq(messages[i + 1].role.as_str(), "tool");
            proof {
                if i + 1 < messages@.len() {
                    assert(ms[i + 1] == messages@[i + 1]@);
                }
            }
            if !next_is_tool {
                None
            } else {
                let f = keep_answered(calls, messages, i + 1);
                if f.len() == 0 {
                    None
                } else {
                    Some(f)
                }
            }
        },
    };
    proof {
        reveal_strlit("tool");
        reveal_strlit("[SCREENSHOT]\n");
        reveal_strlit("Screenshot captured.");
        reveal_strlit("image/png");
    }
    let (content, images) = match strip_prefix(m.content.as_str(), "[SCREENSHOT]\n") {
        Some(b64) => {
            let imgs = vec![ImageContent { base64: b64, media_type: owned("image/png") }];
            (owned("Screenshot captured."), Some(imgs))
        },
        None => {
            let imgs = if m.image_paths.is_some() && loaded.len() > 0 {
                Some(copy_images(loaded))
            } else {
                None
            };
            (m.content.clone(), imgs)
        },
    };
    let r = LlmMessage {
        role: m.role.clone(),
        content,
        images,
        tool_calls,
        tool_call_id: copy_opt_string(&m.tool_call_id),
        thinking: copy_opt_string(&m.thinking),
    };
    proof {
        if has_prefix(m.content@, screenshot_marker()) {
            assert(image_views(r.images->0@) =~= seq![ImageView { base64: m.content@.skip(13), media_type: "image/png"@ }]);
        }
    }
    r
}

fn attach_uploads(msgs: &mut Vec<LlmMessage>, uploads: &Vec<ImageContent>)
    ensures
        llm_message_views(final(msgs)@) == with_user_images(llm_message_views(old(msgs)@), Some(image_views(uploads@))),
{
    let ghost ms = llm_message_views(msgs@);
    let mut k: usize = msgs.len();
    assert(ms.take(k as int) =~= ms);
    while k > 0 && !str_eq(msgs[k - 1].role.as_str(), "user")
        invariant
            k <= msgs@.len(),
            ms == llm_message_views(msgs@),
            last_user(ms) == last_user(ms.take(k as int)),
        decreases k,
    {
        assert(ms.take(k as int).last() == msgs@[k - 1]@);
        assert(ms.take(k as int).drop_last() =~= ms.take(k - 1));
        k -= 1;
    }
    proof {
        reveal_strlit("user");
        assert(ms.take(msgs@.len() as int) =~= ms);
    }
    if k == 0 {
        assert(ms.take(0) =~= Seq::<LlmMessageView>::empty());
        return;
    }
    let idx = k - 1;
    assert(ms.take(k as int).last() == msgs@[idx as int]@);
    assert(last_user(ms) == Some(idx as int));
    let old_m = msgs.remove(idx);
    let images = match old_m.images {
        Some(mut existing) => {
            let extra = copy_images(uploads);
            let ghost e0 = image_views(existing@);
            let mut extra2 = extra;
            existing.append(&mut extra2);
            assert(image_views(existing@) =~= e0 + image_views(uploads@));
            existing
        },
        None => copy_images(uploads),
    };
    let m = LlmMessage {
        role: old_m.role,
        content: old_m.content,
        images: Some(images),
        tool_calls: old_m.tool_calls,
        tool_call_id: old_m.tool_call_id,
        thinking: old_m.thinking,
    };
    let ghost mv = m@;
    msgs.insert(idx, m);
    assert(llm_message_views(msgs@) =~= ms.update(idx as int, mv));
}

/// The messages a turn sends to the model. `loaded` holds, for each stored
/// message, the images read from its saved image files (empty when it has
/// none); `uploads` are the images the user sent with this turn.
pub fn prepare_llm_messages(
    messages: &Vec<Message>,
    loaded: &Vec<Vec<ImageContent>>,
    uploads: &Option<Vec<ImageContent>>,
) -> (r: Vec<LlmMessage>)
    requires
        loaded@.len() == messages@.len(),
    ensures
        llm_message_views(r@) == turn_messages(
            message_views(messages@),
            loaded@.map_values(|v: Vec<ImageContent>| image_views(v@)),
            match uploads {
                Some(u) => Some(image_views(u@)),
                None => None,
            },
        ),
{
    let ghost ms = message_views(messages@);
    let ghost lv = loaded@.map_values(|v: Vec<ImageContent>| image_views(v@));
    let ghost want = Seq::new(ms.len(), |i: int| prepared_message(ms, i, lv[i]));
    let mut out: Vec<LlmMessage> = Vec::new();
    let mut i: usize = 0;
    while i < messages.len()
        invariant
            i <= messages@.len(),
            loaded@.len() == messages@.len(),
            ms == message_views(messages@),
            lv == loaded@.map_values(|v: Vec<ImageContent>| image_views(v@)),
            want == Seq::new(ms.len(), |i: int| prepared_message(ms, i, lv[i])),
            out@.len() == i,
            llm_message_views(out@) == want.take(i as int),
        decreases messages@.len() - i,
    {
        let m = prepare_message(messages, i, &loaded[i]);
        let ghost before = out@;
        out.push(m);
        assert(out@ == before.push(m));
        assert(llm_message_views(out@) =~= want.take(i + 1));
        i += 1;
    }
    assert(want.take(messages@.len() as int) =~= want);
    match uploads {
        Some(u) => attach_uploads(&mut out, u),
        None => {},
    }
    out
}

/// A copy of a list of tool definitions.
pub fn copy_tools(v: &Vec<UnifiedTool>) -> (r: Vec<UnifiedTool>)
    ensures
        tool_views(r@) == tool_views(v@),
{
    let mut out: Vec<UnifiedTool> = Vec::new();
    let mut i: usize = 0;
    while i < v.len()
        invariant
            i <= v@.len(),
            out@.len() == i,
            tool_views(out@) == tool_views(v@).take(i as int),
        decreases v@.len() - i,
    {
        let t = UnifiedTool {
            name: v[i].name.clone(),
            description: v[i].description.clone(),
            parameters: v[i].parameters.deep_clone(),
        };
        let ghost before = out@;
        out.push(t);
        assert(out@ == before.push(t));
        assert(tool_views(out@) =~= tool_views(v@).take(i + 1));
        i += 1;
    }
    assert(tool_views(v@).take(v@.len() as int) =~= tool_views(v@));
    out
}

/// The request of one model call of a turn.
pub fn turn_request(
    system: &str,
    model: &str,
    messages: Vec<LlmMessage>,
    tools: &Vec<UnifiedTool>,
    thinking_enabled: bool,
) -> (r: LlmRequest)
    ensures
        r@ == (RequestView {
            system: system@,
            model: model@,
            messages: llm_message_views(messages@),
            tools: tool_views(tools@),
            thinking_enabled,
        }),
{
    LlmRequest { system: owned(system), model: owned(model), messages, tools: copy_tools(tools), thinking_enabled }
}

} // verus!
