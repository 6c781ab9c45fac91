//! SSE response parser for the OpenAI chat-completions streaming format.
//!
//! Tool calls are accumulated by their `index` within `tool_calls`, because
//! some providers split one call's arguments across several chunks whose
//! continuation pieces carry no `id` or `name`.

use vstd::prelude::*;
use crate::error::ChatError;
use crate::json::{
    Json, JsonValue, spec_parse_json, parse_json, is_valid_json, opt_json_ref, opt_get,
    opt_as_str, str_or, opt_get_exec, opt_str_member, opt_str_member_or, json_views,
};
use crate::store::{ToolCall, ToolCallView, tool_call_views};
use crate::text::{lines_of, lines_seq, views_of, strip_prefix, has_prefix, str_eq, owned, push_str};
use crate::llm::anthropic::{
    PendingTool, Pending, call_of, push_if_valid, calls_ok, error_detail, push_call_if_valid,
};

verus! {

/// What an OpenAI stream has given so far: text and the calls by index.
pub struct SseState {
    pub text: Seq<char>,
    pub pending: Seq<PendingTool>,
}

pub open spec fn empty_pending() -> PendingTool {
    PendingTool { id: Seq::empty(), name: Seq::empty(), args: Seq::empty() }
}

/// `pending` grown with empty entries to at least `n` entries.
pub open spec fn pad(pending: Seq<PendingTool>, n: int) -> Seq<PendingTool> {
    if pending.len() >= n {
        pending
    } else {
        pending + Seq::new((n - pending.len()) as nat, |i: int| empty_pending())
    }
}

/// The slot a tool-call chunk goes to: its `index`, else the next free one.
pub open spec fn chunk_index(pending: Seq<PendingTool>, tool: Json) -> int {
    match opt_get(Some(tool), "index"@) {
        Some(v) => match v.as_u64() {
            Some(n) => (n as usize) as int,
            None => pending.len() as int,
        },
        None => pending.len() as int,
    }
}

/// The effect of one tool-call chunk: id and name are set when present,
/// the arguments piece is appended.
pub open spec fn sse_chunk(pending: Seq<PendingTool>, tool: Json) -> Seq<PendingTool> {
    let idx = chunk_index(pending, tool);
    let id = str_or(opt_as_str(opt_get(Some(tool), "id"@)), Seq::empty());
    let func = opt_get(Some(tool), "function"@);
    let name = str_or(opt_as_str(opt_get(func, "name"@)), Seq::empty());
    let args = str_or(opt_as_str(opt_get(func, "arguments"@)), Seq::empty());
    let padded = pad(pending, idx + 1);
    let p = padded[idx];
    padded.update(
        idx,
        PendingTool {
            id: if id.len() > 0 { id } else { p.id },
            name: if name.len() > 0 { name } else { p.name },
            args: p.args + args,
        },
    )
}

/// The effect of a list of tool-call chunks, in order.
pub open spec fn sse_chunks(pending: Seq<PendingTool>, tools: Seq<Json>) -> Seq<PendingTool>
    decreases tools.len(),
{
    if tools.len() == 0 {
        pending
    } else {
        sse_chunk(sse_chunks(pending, tools.drop_last()), tools.last())
    }
}

/// The `delta` of the first choice of an event.
pub open spec fn first_delta(ev: Json) -> Option<Json> {
    match ev.get("choices"@) {
        Some(c) => match c.at(0) {
            Some(first) => first.get("delta"@),
            None => None,
        },
        None => None,
    }
}

/// The effect of one decoded event; an `error` member ends the stream.
pub open spec fn sse_event(st: SseState, ev: Json) -> Result<SseState, Seq<char>> {
    match ev.get("error"@) {
        Some(err) => Err(
            error_detail(
                str_or(opt_as_str(opt_get(Some(err), "message"@)), "unknown API error"@),
                str_or(opt_as_str(opt_get(Some(err), "type"@)), Seq::empty()),
            ),
        ),
        None => {
            let delta = first_delta(ev);
            let text = match opt_as_str(opt_get(delta, "content"@)) {
                Some(t) => st.text + t,
                None => st.text,
            };
            let pending = match opt_get(delta, "tool_calls"@) {
                Some(v) => match v.as_array() {
                    Some(a) => sse_chunks(st.pending, a),
                    None => st.pending,
                },
                None => st.pending,
            };
            Ok(SseState { text, pending })
        },
    }
}

/// The effect of one line: only `data: ` lines that hold JSON count, and
/// `data: [DONE]` is skipped.
pub open spec fn sse_line(st: SseState, line: Seq<char>) -> Result<SseState, Seq<char>> {
    if !has_prefix(line, "data: "@) {
        Ok(st)
    } else {
        let data = line.skip(6);
        if data == "[DONE]"@ {
            Ok(st)
        } else {
            match spec_parse_json(data) {
                Some(ev) => sse_event(st, ev),
                None => Ok(st),
            }
        }
    }
}

pub open spec fn sse_lines(lines: Seq<Seq<char>>) -> Result<SseState, Seq<char>>
    decreases lines.len(),
{
    if lines.len() == 0 {
        Ok(SseState { text: Seq::empty(), pending: Seq::empty() })
    } else {
        match sse_lines(lines.drop_last()) {
            Ok(st) => sse_line(st, lines.last()),
            Err(e) => Err(e),
        }
    }
}

/// The finished calls, in slot order: a slot counts when it has an id and
/// a name and its arguments parse as JSON.
pub open spec fn sse_collect(pending: Seq<PendingTool>) -> Seq<ToolCallView>
    decreases pending.len(),
{
    if pending.len() == 0 {
        Seq::empty()
    } else {
        let p = pending.last();
        let calls = sse_collect(pending.drop_last());
        if p.id.len() == 0 || p.name.len() == 0 {
            calls
        } else {
            push_if_valid(calls, p)
        }
    }
}

/// The model of a parsed OpenAI stream.
pub struct SseView {
    pub text: Seq<char>,
    pub tool_calls: Seq<ToolCallView>,
}

/// What an OpenAI SSE body stands for, or the detail of its error event.
pub open spec fn sse_parse(body: Seq<char>) -> Result<SseView, Seq<char>> {
    match sse_lines(lines_seq(body)) {
        Ok(st) => Ok(SseView { text: st.text, tool_calls: sse_collect(st.pending) }),
        Err(e) => Err(e),
    }
}

/// Text and tool calls parsed from an OpenAI SSE body.
#[derive(Debug)]
pub struct SseResult {
    pub text: String,
    pub tool_calls: Vec<ToolCall>,
}

// ── Executable parsing ───────────────────────────────────────────────────

pub(crate) open spec fn pending_models(v: Seq<Pending>) -> Seq<PendingTool> {
    v.map_values(|p: Pending| p.model())
}

fn empty_slot() -> (r: Pending)
    ensures
        r.model() == empty_pending(),
{
    Pending { id: String::new(), name: String::new(), args: String::new() }
}

fn apply_chunk(pending: &mut Vec<Pending>, tool: &JsonValue)
    ensures
        pending_models(final(pending)@) == sse_chunk(pending_models(old(pending)@), tool@),
{
    proof {
        reveal_strlit("");
        assert(""@ =~= Seq::<char>::empty());
    }
    let ghost old_m = pending_models(pending@);
    let idx: usize = match tool.get("index") {
        Some(v) => match v.as_u64() {
            Some(n) => n as usize,
            None => pending.len(),
        },
        None => pending.len(),
    };
    let id = opt_str_member_or(Some(tool), "id", "");
    let func = tool.get("function");
    let name = opt_str_member_or(func, "name", "");
    let args = opt_str_member_or(func, "arguments", "");
    while pending.len() <= idx
        invariant
            pending@.len() >= old_m.len(),
            forall|k: int| 0 <= k < old_m.len() ==> #[trigger] pending_models(pending@)[k] == old_m[k],
            forall|k: int|
                old_m.len() <= k < pending@.len() ==> #[trigger] pending_models(pending@)[k]
                    == empty_pending(),
            pending@.len() <= old_m.len() || pending@.len() <= idx + 1,
        decreases idx + 1 - pending@.len(),
    {
        let ghost before = pending@;
        let e = empty_slot();
        pending.push(e);
        assert(pending@ == before.push(e));
        assert(forall|k: int| 0 <= k < before.len() ==> #[trigger] pending_models(pending@)[k] == pending_models(before)[k]);
    }
    proof {
        let pm = pending_models(pending@);
        if old_m.len() >= idx + 1 {
            assert(pm =~= old_m);
        } else {
            assert(pm.len() == idx + 1);
            assert(pm =~= pad(old_m, idx + 1));
        }
    }
    let ghost padded = pending_models(pending@);
    let old_slot = pending.remove(idx);
    let new_id = if !id.as_str().is_empty() { id } else { old_slot.id };
    let new_name = if !name.as_str().is_empty() { name } else { old_slot.name };
    let mut new_args = old_slot.args;
    push_str(&mut new_args, args.as_str());
    pending.insert(idx, Pending { id: new_id, name: new_name, args: new_args });
    proof {
        assert(pending_models(pending@) =~= padded.update(
            idx as int,
            PendingTool {
                id: if id@.len() > 0 { id@ } else { padded[idx as int].id },
                name: if name@.len() > 0 { name@ } else { padded[idx as int].name },
                args: padded[idx as int].args + args@,
            },
        ));
    }
}

fn apply_chunks(pending: &mut Vec<Pending>, tools: &Vec<JsonValue>)
    ensures
        pending_models(final(pending)@) == sse_chunks(pending_models(old(pending)@), json_views(tools@)),
{
    let ghost start = pending_models(pending@);
    let mut i: usize = 0;
    assert(json_views(tools@).take(0) =~= Seq::<Json>::empty());
    while i < tools.len()
        invariant
            i <= tools@.len(),
            pending_models(pending@) == sse_chunks(start, json_views(tools@).take(i as int)),
        decreases tools@.len() - i,
    {
        assert(json_views(tools@).take(i + 1).drop_last() =~= json_views(tools@).take(i as int));
        apply_chunk(pending, &tools[i]);
        i += 1;
    }
    assert(json_views(tools@).take(tools@.len() as int) =~= json_views(tools@));
}

fn error_text(err: &JsonValue) -> (r: String)
    ensures
        r@ == error_detail(
            str_or(opt_as_str(opt_get(Some(err@), "message"@)), "unknown API error"@),
            str_or(opt_as_str(opt_get(Some(err@), "type"@)), Seq::empty()),
        ),
{
    proof {
        reveal_strlit("");
        assert(""@ =~= Seq::<char>::empty());
    }
    let msg = opt_str_member_or(Some(err), "message", "unknown API error");
    let err_type = opt_str_member_or(Some(err), "type", "");
    if err_type.as_str().is_empty() {
        msg
    } else {
        let mut d = err_type;
        push_str(&mut d, ": ");
        push_str(&mut d, msg.as_str());
        d
    }
}

fn apply_event(text: &mut String, pending: &mut Vec<Pending>, ev: &JsonValue) -> (r: Result<(), String>)
    ensures
        match sse_event(SseState { text: old(text)@, pending: pending_models(old(pending)@) }, ev@) {
            Ok(st) => r is Ok && final(text)@ == st.text && pending_models(final(pending)@) == st.pending,
            Err(d) => r matches Err(e) && e@ == d,
        },
{
    match ev.get("error") {
        Some(err) => Err(error_text(err)),
        None => {
            let delta = match ev.get("choices") {
                Some(c) => match c.at(0) {
                    Some(first) => first.get("delta"),
                    None => None,
                },
                None => None,
            };
            if let Some(t) = opt_str_member(delta, "content") {
                push_str(text, t.as_str());
            }
            match opt_get_exec(delta, "tool_calls") {
                Some(v) => match v.as_array() {
                    Some(a) => apply_chunks(pending, a),
                    None => {},
                },
                None => {},
            }
            Ok(())
        },
    }
}

fn apply_line(text: &mut String, pending: &mut Vec<Pending>, line: &str) -> (r: Result<(), String>)
    ensures
        match sse_line(SseState { text: old(text)@, pending: pending_models(old(pending)@) }, line@) {
            Ok(st) => r is Ok && final(text)@ == st.text && pending_models(final(pending)@) == st.pending,
            Err(d) => r matches Err(e) && e@ == d,
        },
{
    match strip_prefix(line, "data: ") {
        Some(data) => {
            proof {
                reveal_strlit("data: ");
            }
            if str_eq(data.as_str(), "[DONE]") {
                return Ok(());
            }
            match parse_json(data.as_str()) {
                Some(ev) => apply_event(text, pending, &ev),
                None => Ok(()),
            }
        },
        None => Ok(()),
    }
}

proof fn lemma_sse_error_sticks(lines: Seq<Seq<char>>, k: int)
    requires
        0 <= k <= lines.len(),
        sse_lines(lines.take(k)) is Err,
    ensures
        sse_lines(lines) == sse_lines(lines.take(k)),
    decreases lines.len() - k,
{
    if k < lines.len() {
        assert(lines.take(k + 1).drop_last() =~= lines.take(k));
        lemma_sse_error_sticks(lines, k + 1);
    } else {
        assert(lines.take(k) =~= lines);
    }
}

proof fn lemma_collect_ok(pending: Seq<PendingTool>)
    ensures
        calls_ok(sse_collect(pending)),
        forall|i: int| 0 <= i < sse_collect(pending).len() ==> (#[trigger] sse_collect(pending)[i]).name.len() > 0,
    decreases pending.len(),
{
    reveal_strlit("function");
    if pending.len() > 0 {
        lemma_collect_ok(pending.drop_last());
        let c = sse_collect(pending.drop_last());
        let p = pending.last();
        if p.id.len() > 0 && p.name.len() > 0 && spec_parse_json(p.args) is Some {
            assert forall|i: int| 0 <= i < c.push(call_of(p)).len() implies {
                &&& (#[trigger] c.push(call_of(p))[i]).id.len() > 0
                &&& c.push(call_of(p))[i].call_type == "function"@
                &&& spec_parse_json(c.push(call_of(p))[i].arguments) is Some
                &&& c.push(call_of(p))[i].name.len() > 0
            } by {
                if i < c.len() {
                    assert(c.push(call_of(p))[i] == c[i]);
                }
            }
        }
    }
}

/// Parse an OpenAI chat-completions SSE body into text and tool calls.
/// An `{"error": ...}` event ends the parse with `BadRequest`.
pub fn parse_sse_response(body: &str) -> (r: Result<SseResult, ChatError>)
    ensures
        match sse_parse(body@) {
            Ok(v) => r matches Ok(res) && res.text@ == v.text && tool_call_views(res.tool_calls@)
                == v.tool_calls,
            Err(d) => r matches Err(ChatError::BadRequest { detail }) && detail@ == d,
        },
        r matches Ok(res) ==> calls_ok(tool_call_views(res.tool_calls@)),
{
    let lines = lines_of(body);
    let mut text = String::new();
    let mut pending: Vec<Pending> = Vec::new();
    let ghost all = lines_seq(body@);
    let mut i: usize = 0;
    assert(pending_models(pending@) =~= Seq::<PendingTool>::empty());
    while i < lines.len()
        invariant
            all == lines_seq(body@),
            views_of(lines@) == all,
            i <= lines@.len(),
            sse_lines(all.take(i as int)) == Ok::<SseState, Seq<char>>(
                SseState { text: text@, pending: pending_models(pending@) },
            ),
        decreases lines@.len() - i,
    {
        assert(all.take(i + 1).drop_last() =~= all.take(i as int));
        assert(all.take(i + 1).last() == lines@[i as int]@);
        let ghost before = SseState { text: text@, pending: pending_models(pending@) };
        match apply_line(&mut text, &mut pending, lines[i].as_str()) {
            Ok(()) => {},
            Err(d) => {
                proof {
                    assert(sse_lines(all.take(i + 1)) == sse_line(before, lines@[i as int]@));
                    lemma_sse_error_sticks(all, i + 1);
                }
                return Err(ChatError::BadRequest { detail: d });
            },
        }
        i += 1;
    }
    assert(all.take(lines@.len() as int) =~= all);
    let ghost final_pending = pending_models(pending@);
    let mut calls: Vec<ToolCall> = Vec::new();
    let mut k: usize = 0;
    assert(final_pending.take(0) =~= Seq::<PendingTool>::empty());
    assert(tool_call_views(calls@) =~= Seq::<ToolCallView>::empty());
    while k < pending.len()
        invariant
            k <= pending@.len(),
            pending_models(pending@) == final_pending,
            tool_call_views(calls@) == sse_collect(final_pending.take(k as int)),
        decreases pending@.len() - k,
    {
        assert(final_pending.take(k + 1).drop_last() =~= final_pending.take(k as int));
        assert(final_pending.take(k + 1).last() == pending@[k as int].model());
        let p = &pending[k];
        if !p.id.as_str().is_empty() && !p.name.as_str().is_empty() {
            let q = Pending { id: p.id.clone(), name: p.name.clone(), args: p.args.clone() };
            push_call_if_valid(&mut calls, q);
        }
        k += 1;
    }
    assert(final_pending.take(pending@.len() as int) =~= final_pending);
    proof {
        lemma_collect_ok(final_pending);
    }
    Ok(SseResult { text, tool_calls: calls })
}

} // verus!
