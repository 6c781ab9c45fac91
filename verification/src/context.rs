//! Context window management: token estimation, provider windows, error
//! detection, and turn counting for message compaction.

use vstd::prelude::*;
use crate::json::spec_json_text;
use crate::json::render_json;
use crate::llm::types::{UnifiedTool, UnifiedToolView, tool_views};
use crate::store::{Message, MessageView, ToolCallView, message_views};
use crate::text::{
    chars_of, contains, contains_seq, owned, push_str, spec_to_lowercase, str_eq, take_chars, take_seq,
    to_lowercase,
};

verus! {

/// Don't bother compacting sessions with fewer than this many messages.
pub const MIN_MSGS: usize = 6;

/// Keep at least this many full conversation turns after compaction.
pub const MIN_TURNS: usize = 3;

/// Truncate each message to this many characters in the summarization input.
pub const MAX_CHARS_PER_MSG: usize = 2000;

/// Estimated token cost per attached image.
pub const TOKENS_PER_IMAGE: usize = 1844;

/// Context window of unknown / custom providers.
pub const DEFAULT_CONTEXT_WINDOW: usize = 256000;

/// Context window of DeepSeek and MiniMax.
pub const LARGE_CONTEXT_WINDOW: usize = 1000000;

// ── Token estimation ─────────────────────────────────────────────────────

pub open spec fn is_ascii_char(c: char) -> bool {
    (c as u32) < 128
}

/// The number of ASCII characters in `s`.
pub open spec fn ascii_count(s: Seq<char>) -> nat
    decreases s.len(),
{
    if s.len() == 0 {
        0
    } else {
        ascii_count(s.drop_last()) + if is_ascii_char(s.last()) { 1nat } else { 0nat }
    }
}

proof fn lemma_ascii_count_le(s: Seq<char>)
    ensures
        ascii_count(s) <= s.len(),
    decreases s.len(),
{
    if s.len() > 0 {
        lemma_ascii_count_le(s.drop_last());
    }
}

/// Bilingual heuristic: an ASCII character is a quarter token, any other
/// character two thirds of one (the doubled count saturating at
/// `usize::MAX`).
pub open spec fn tokens_of(s: Seq<char>) -> int {
    let ascii = ascii_count(s) as int;
    let other = s.len() - ascii;
    ascii / 4 + sat(other * 2) / 3
}

/// `a + b`, or `usize::MAX` when that does not fit.
pub open spec fn sat(n: int) -> int {
    if n > usize::MAX {
        usize::MAX as int
    } else {
        n
    }
}

/// Rough token estimate from text content.
pub fn estimate_tokens(text: &str) -> (r: usize)
    ensures
        r == sat(tokens_of(text@)),
{
    let v = chars_of(text);
    let mut ascii: usize = 0;
    let mut i: usize = 0;
    while i < v.len()
        invariant
            v@ == text@,
            i <= v@.len(),
            ascii == ascii_count(text@.take(i as int)),
            ascii <= i,
        decreases v@.len() - i,
    {
        assert(text@.take(i + 1).drop_last() =~= text@.take(i as int));
        if (v[i] as u32) < 128 {
            ascii += 1;
        }
        i += 1;
    }
    assert(text@.take(v@.len() as int) =~= text@);
    let total = v.len();
    let non_ascii = total - ascii;
    let doubled = match non_ascii.checked_mul(2) {
        Some(d) => d,
        None => usize::MAX,
    };
    (ascii / 4).saturating_add(doubled / 3)
}

/// The estimate of one text (`estimate_tokens`).
pub open spec fn est(s: Seq<char>) -> int {
    sat(tokens_of(s))
}

pub open spec fn calls_tokens(calls: Seq<ToolCallView>) -> int
    decreases calls.len(),
{
    if calls.len() == 0 {
        0
    } else {
        calls_tokens(calls.drop_last()) + est(calls.last().name) + est(calls.last().arguments)
    }
}

/// A message's share: content, tool-call names and arguments, thinking and
/// a fixed cost per attached image.
pub open spec fn message_tokens(m: MessageView) -> int {
    est(m.content) + match m.tool_calls {
        Some(c) => calls_tokens(c),
        None => 0,
    } + match m.thinking {
        Some(t) => est(t),
        None => 0,
    } + match m.image_paths {
        Some(p) => sat(p.len() * TOKENS_PER_IMAGE),
        None => 0,
    }
}

pub open spec fn messages_tokens(ms: Seq<MessageView>) -> int
    decreases ms.len(),
{
    if ms.len() == 0 {
        0
    } else {
        messages_tokens(ms.drop_last()) + message_tokens(ms.last())
    }
}

/// The tokens of a message list put behind one more message.
pub proof fn lemma_messages_tokens_prepend(a: MessageView, rest: Seq<MessageView>)
    ensures
        messages_tokens(seq![a] + rest) == message_tokens(a) + messages_tokens(rest),
    decreases rest.len(),
{
    let all = seq![a] + rest;
    if rest.len() == 0 {
        assert(all.drop_last() =~= Seq::<MessageView>::empty());
        assert(all.last() == a);
        assert(messages_tokens(all) == messages_tokens(all.drop_last()) + message_tokens(all.last()));
    } else {
        lemma_messages_tokens_prepend(a, rest.drop_last());
        assert(all.drop_last() =~= seq![a] + rest.drop_last());
        assert(all.last() == rest.last());
        assert(messages_tokens(all) == messages_tokens(all.drop_last()) + message_tokens(all.last()));
        assert(messages_tokens(rest) == messages_tokens(rest.drop_last()) + message_tokens(rest.last()));
    }
}

/// A tool definition's share: name, description and the JSON text of its
/// parameters.
pub open spec fn tools_tokens(ts: Seq<UnifiedToolView>) -> int
    decreases ts.len(),
{
    if ts.len() == 0 {
        0
    } else {
        tools_tokens(ts.drop_last()) + est(ts.last().name) + est(ts.last().description) + est(
            spec_json_text(ts.last().parameters),
        )
    }
}

proof fn lemma_sat_add(a: int, b: int)
    requires
        a >= 0,
        b >= 0,
    ensures
        sat(sat(a) + b) == sat(a + b),
{
}

proof fn lemma_est_nonneg(s: Seq<char>)
    ensures
        est(s) >= 0,
{
    lemma_ascii_count_le(s);
}

proof fn lemma_calls_nonneg(cs: Seq<ToolCallView>)
    ensures
        calls_tokens(cs) >= 0,
    decreases cs.len(),
{
    if cs.len() > 0 {
        lemma_calls_nonneg(cs.drop_last());
        lemma_est_nonneg(cs.last().name);
        lemma_est_nonneg(cs.last().arguments);
    }
}

proof fn lemma_message_nonneg(m: MessageView)
    ensures
        message_tokens(m) >= 0,
        est(m.content) >= 0,
        match m.tool_calls {
            Some(c) => calls_tokens(c) >= 0,
            None => true,
        },
        match m.thinking {
            Some(t) => est(t) >= 0,
            None => true,
        },
{
    lemma_est_nonneg(m.content);
    if let Some(c) = m.tool_calls {
        lemma_calls_nonneg(c);
    }
    if let Some(t) = m.thinking {
        lemma_est_nonneg(t);
    }
}

proof fn lemma_messages_nonneg(ms: Seq<MessageView>)
    ensures
        messages_tokens(ms) >= 0,
    decreases ms.len(),
{
    if ms.len() > 0 {
        lemma_messages_nonneg(ms.drop_last());
        lemma_message_nonneg(ms.last());
    }
}

proof fn lemma_tools_nonneg(ts: Seq<UnifiedToolView>)
    ensures
        tools_tokens(ts) >= 0,
    decreases ts.len(),
{
    if ts.len() > 0 {
        lemma_tools_nonneg(ts.drop_last());
        lemma_est_nonneg(ts.last().name);
        lemma_est_nonneg(ts.last().description);
        lemma_est_nonneg(spec_json_text(ts.last().parameters));
    }
}

/// `acc + n`, saturating, with what that adds up to.
fn add_sat(acc: usize, n: usize) -> (r: usize)
    ensures
        r == sat(acc + n),
{
    acc.saturating_add(n)
}

/// Estimate the tokens of a full model call: system prompt, stored
/// messages and tool definitions, saturating at `usize::MAX`.
pub fn estimate_total_tokens_from_store(
    system_prompt: &str,
    messages: &Vec<Message>,
    tools: &Vec<UnifiedTool>,
    _model: &str,
) -> (r: usize)
    ensures
        r == sat(est(system_prompt@) + messages_tokens(message_views(messages@)) + tools_tokens(
            tool_views(tools@),
        )),
{
    let ghost ms = message_views(messages@);
    let ghost ts = tool_views(tools@);
    let mut tokens = estimate_tokens(system_prompt);
    let mut i: usize = 0;
    assert(ms.take(0) =~= Seq::<MessageView>::empty());
    while i < messages.len()
        invariant
            i <= messages@.len(),
            ms == message_views(messages@),
            tokens == sat(est(system_prompt@) + messages_tokens(ms.take(i as int))),
        decreases messages@.len() - i,
    {
        let ghost prev = est(system_prompt@) + messages_tokens(ms.take(i as int));
        assert(ms.take(i + 1).drop_last() =~= ms.take(i as int));
        proof {
            lemma_messages_nonneg(ms.take(i as int));
            lemma_est_nonneg(system_prompt@);
        }
        let m = &messages[i];
        let ghost mv = ms[i as int];
        assert(mv == m@);
        tokens = add_sat(tokens, estimate_tokens(m.content.as_str()));
        proof {
            lemma_message_nonneg(mv);
            lemma_sat_add(prev, est(mv.content));
        }
        let ghost mut acc = prev + est(mv.content);
        if let Some(tcs) = &m.tool_calls {
            let ghost cs = crate::store::tool_call_views(tcs@);
            let mut j: usize = 0;
            assert(cs.take(0) =~= Seq::<ToolCallView>::empty());
            while j < tcs.len()
                invariant
                    j <= tcs@.len(),
                    cs == crate::store::tool_call_views(tcs@),
                    acc >= 0,
                    tokens == sat(acc + calls_tokens(cs.take(j as int))),
                decreases tcs@.len() - j,
            {
                assert(cs.take(j + 1).drop_last() =~= cs.take(j as int));
                proof {
                    lemma_calls_nonneg(cs.take(j as int));
                    lemma_est_nonneg(cs[j as int].name);
                    lemma_est_nonneg(cs[j as int].arguments);
                }
                let ghost before = acc + calls_tokens(cs.take(j as int));
                tokens = add_sat(tokens, estimate_tokens(tcs[j].function.name.as_str()));
                proof {
                    lemma_sat_add(before, est(cs[j as int].name));
                }
                tokens = add_sat(tokens, estimate_tokens(tcs[j].function.arguments.as_str()));
                proof {
                    lemma_sat_add(before + est(cs[j as int].name), est(cs[j as int].arguments));
                }
                j += 1;
            }
            assert(cs.take(tcs@.len() as int) =~= cs);
            proof {
                acc = acc + calls_tokens(cs);
            }
        }
        if let Some(th) = &m.thinking {
            let ghost before = acc;
            tokens = add_sat(tokens, estimate_tokens(th.as_str()));
            proof {
                lemma_message_nonneg(mv);
                lemma_sat_add(before, est(th@));
                acc = acc + est(th@);
            }
        }
        if let Some(paths) = &m.image_paths {
            let n = match paths.len().checked_mul(TOKENS_PER_IMAGE) {
                Some(x) => x,
                None => usize::MAX,
            };
            let ghost before = acc;
            tokens = add_sat(tokens, n);
            proof {
                lemma_message_nonneg(mv);
                lemma_sat_add(before, n as int);
                acc = acc + n;
            }
        }
        proof {
            lemma_message_nonneg(mv);
            assert(acc == prev + message_tokens(mv));
        }
        i += 1;
    }
    assert(ms.take(messages@.len() as int) =~= ms);
    let ghost base = est(system_prompt@) + messages_tokens(ms);
    let mut k: usize = 0;
    assert(ts.take(0) =~= Seq::<UnifiedToolView>::empty());
    proof {
        lemma_messages_nonneg(ms);
        lemma_est_nonneg(system_prompt@);
    }
    while k < tools.len()
        invariant
            k <= tools@.len(),
            ts == tool_views(tools@),
            base >= 0,
            tokens == sat(base + tools_tokens(ts.take(k as int))),
        decreases tools@.len() - k,
    {
        assert(ts.take(k + 1).drop_last() =~= ts.take(k as int));
        proof {
            lemma_tools_nonneg(ts.take(k as int));
            lemma_est_nonneg(ts[k as int].name);
            lemma_est_nonneg(ts[k as int].description);
            lemma_est_nonneg(spec_json_text(ts[k as int].parameters));
        }
        let ghost before = base + tools_tokens(ts.take(k as int));
        let t = &tools[k];
        tokens = add_sat(tokens, estimate_tokens(t.name.as_str()));
        proof {
            lemma_sat_add(before, est(t.name@));
        }
        tokens = add_sat(tokens, estimate_tokens(t.description.as_str()));
        proof {
            lemma_sat_add(before + est(t.name@), est(t.description@));
        }
        let params = render_json(&t.parameters);
        tokens = add_sat(tokens, estimate_tokens(params.as_str()));
        proof {
            lemma_sat_add(before + est(t.name@) + est(t.description@), est(params@));
        }
        k += 1;
    }
    assert(ts.take(tools@.len() as int) =~= ts);
    tokens
}

// ── Provider context window ──────────────────────────────────────────────

/// The window for a lower-cased base URL: DeepSeek and MiniMax hosts get
/// the large window, everything else the default.
pub open spec fn window_for(lowered: Seq<char>) -> usize {
    if contains_seq(lowered, "deepseek"@) || contains_seq(lowered, "minimaxi"@) || contains_seq(
        lowered,
        "minimax"@,
    ) {
        LARGE_CONTEXT_WINDOW
    } else {
        DEFAULT_CONTEXT_WINDOW
    }
}

/// The context window for an already lower-cased base URL.
pub fn context_window_for_lowercase(lowered: &str) -> (r: usize)
    ensures
        r == window_for(lowered@),
{
    if contains(lowered, "deepseek") || contains(lowered, "minimaxi") || contains(lowered, "minimax") {
        LARGE_CONTEXT_WINDOW
    } else {
        DEFAULT_CONTEXT_WINDOW
    }
}

/// The provider's context window, looked up from its API base URL.
pub fn provider_context_window(base_url: &str) -> (r: usize)
    ensures
        r == window_for(spec_to_lowercase(base_url@)),
        r == LARGE_CONTEXT_WINDOW || r == DEFAULT_CONTEXT_WINDOW,
{
    let u = to_lowercase(base_url);
    context_window_for_lowercase(u.as_str())
}

/// Token count at which proactive compaction fires: 80% of the window.
pub fn compact_threshold(base_url: &str) -> (r: usize)
    ensures
        r == window_for(spec_to_lowercase(base_url@)) * 4 / 5,
{
    let w = provider_context_window(base_url);
    w / 5 * 4
}

/// Text that contains "minimaxi" contains "minimax".
proof fn lemma_minimaxi_has_minimax(h: Seq<char>)
    ensures
        contains_seq(h, "minimaxi"@) ==> contains_seq(h, "minimax"@),
{
    reveal_strlit("minimaxi");
    reveal_strlit("minimax");
    if contains_seq(h, "minimaxi"@) {
        let i = choose|i: int| 0 <= i && i + "minimaxi"@.len() <= h.len() && #[trigger] h.subrange(i, i + "minimaxi"@.len()) == "minimaxi"@;
        assert(h.subrange(i, i + 7) =~= "minimaxi"@.subrange(0, 7));
        assert("minimaxi"@.subrange(0, 7) =~= "minimax"@);
    }
}

/// DeepSeek and MiniMax (any of their endpoints) get a window of one
/// million tokens, every other provider 256,000; proactive compaction
/// fires at 80% of the window. `lowered` is the lower-cased base URL.
pub proof fn law_provider_window(lowered: Seq<char>)
    ensures
        (contains_seq(lowered, "deepseek"@) || contains_seq(lowered, "minimax"@)) ==> window_for(lowered) == 1_000_000,
        !(contains_seq(lowered, "deepseek"@) || contains_seq(lowered, "minimax"@)) ==> window_for(lowered) == 256_000,
        (contains_seq(lowered, "deepseek"@) || contains_seq(lowered, "minimax"@)) ==> window_for(lowered) * 4 / 5
            == 800_000,
        !(contains_seq(lowered, "deepseek"@) || contains_seq(lowered, "minimax"@)) ==> window_for(lowered) * 4 / 5
            == 204_800,
{
    lemma_minimaxi_has_minimax(lowered);
}

// ── Error detection ──────────────────────────────────────────────────────

/// The phrases that mark a context-length error.
pub open spec fn context_error_phrases() -> Seq<Seq<char>> {
    seq![
        "prompt is too long"@,
        "context_length_exceeded"@,
        "context window"@,
        "maximum context length"@,
        "too many tokens"@,
        "token limit"@,
        "exceeds the model's"@,
        "reduce the length"@,
        "input length"@,
        "context length"@,
        "maximum of"@,
    ]
}

/// Some context-error phrase occurs in the lower-cased message.
pub open spec fn has_context_error_phrase(lowered: Seq<char>) -> bool {
    exists|i: int|
        0 <= i < context_error_phrases().len() && contains_seq(lowered, #[trigger] context_error_phrases()[i])
}

/// Whether an already lower-cased message holds a context-error phrase.
pub fn matches_context_length_phrase(lowered: &str) -> (r: bool)
    ensures
        r == has_context_error_phrase(lowered@),
{
    let phrases = [
        "prompt is too long",
        "context_length_exceeded",
        "context window",
        "maximum context length",
        "too many tokens",
        "token limit",
        "exceeds the model's",
        "reduce the length",
        "input length",
        "context length",
        "maximum of",
    ];
    assert(phrases@.map_values(|p: &str| p@) =~= context_error_phrases());
    let mut i: usize = 0;
    while i < 11
        invariant
            i <= 11,
            phrases@.len() == 11,
            phrases@.map_values(|p: &str| p@) == context_error_phrases(),
            forall|k: int| 0 <= k < i ==> !contains_seq(lowered@, #[trigger] context_error_phrases()[k]),
        decreases 11 - i,
    {
        assert(context_error_phrases()[i as int] == phrases@[i as int]@);
        if contains(lowered, phrases[i]) {
            return true;
        }
        i += 1;
    }
    false
}

/// Every listed phrase marks a context-length error wherever it occurs in
/// the lower-cased message, and nothing else does.
pub proof fn law_context_error_phrases(lowered: Seq<char>)
    ensures
        contains_seq(lowered, "prompt is too long"@) ==> has_context_error_phrase(lowered),
        contains_seq(lowered, "context_length_exceeded"@) ==> has_context_error_phrase(lowered),
        contains_seq(lowered, "context window"@) ==> has_context_error_phrase(lowered),
        contains_seq(lowered, "maximum context length"@) ==> has_context_error_phrase(lowered),
        contains_seq(lowered, "too many tokens"@) ==> has_context_error_phrase(lowered),
        contains_seq(lowered, "token limit"@) ==> has_context_error_phrase(lowered),
        contains_seq(lowered, "exceeds the model's"@) ==> has_context_error_phrase(lowered),
        contains_seq(lowered, "reduce the length"@) ==> has_context_error_phrase(lowered),
        contains_seq(lowered, "input length"@) ==> has_context_error_phrase(lowered),
        contains_seq(lowered, "context length"@) ==> has_context_error_phrase(lowered),
        contains_seq(lowered, "maximum of"@) ==> has_context_error_phrase(lowered),
        has_context_error_phrase(lowered) ==> contains_seq(lowered, "prompt is too long"@) || contains_seq(
            lowered,
            "context_length_exceeded"@,
        ) || contains_seq(lowered, "context window"@) || contains_seq(lowered, "maximum context length"@)
            || contains_seq(lowered, "too many tokens"@) || contains_seq(lowered, "token limit"@) || contains_seq(
            lowered,
            "exceeds the model's"@,
        ) || contains_seq(lowered, "reduce the length"@) || contains_seq(lowered, "input length"@) || contains_seq(
            lowered,
            "context length"@,
        ) || contains_seq(lowered, "maximum of"@),
{
    let ps = context_error_phrases();
    assert(ps[0] == "prompt is too long"@);
    assert(ps[1] == "context_length_exceeded"@);
    assert(ps[2] == "context window"@);
    assert(ps[3] == "maximum context length"@);
    assert(ps[4] == "too many tokens"@);
    assert(ps[5] == "token limit"@);
    assert(ps[6] == "exceeds the model's"@);
    assert(ps[7] == "reduce the length"@);
    assert(ps[8] == "input length"@);
    assert(ps[9] == "context length"@);
    assert(ps[10] == "maximum of"@);
}

/// Detect whether an API error message reports an exceeded context window
/// (case-insensitively).
pub fn is_context_length_error(msg: &str) -> (r: bool)
    ensures
        r == has_context_error_phrase(spec_to_lowercase(msg@)),
{
    let lower = to_lowercase(msg);
    matches_context_length_phrase(lower.as_str())
}

// ── Compaction helpers ───────────────────────────────────────────────────

pub open spec fn is_user(m: MessageView) -> bool {
    m.role == "user"@
}

/// Scanning from position `idx - 1` down, having seen `seen` user
/// messages: the suffix length at which the `min_turns`-th user message
/// (counting from the end) stands, or the whole length.
pub open spec fn turns_scan(ms: Seq<MessageView>, idx: int, seen: nat, min_turns: nat) -> nat
    decreases idx,
{
    if idx <= 0 {
        ms.len()
    } else if is_user(ms[idx - 1]) {
        if seen + 1 >= min_turns {
            (ms.len() - (idx - 1)) as nat
        } else {
            turns_scan(ms, idx - 1, seen + 1, min_turns)
        }
    } else {
        turns_scan(ms, idx - 1, seen, min_turns)
    }
}

/// The number of user messages in `ms`.
pub open spec fn user_count(ms: Seq<MessageView>) -> nat
    decreases ms.len(),
{
    if ms.len() == 0 {
        0
    } else {
        user_count(ms.drop_last()) + if is_user(ms.last()) { 1nat } else { 0nat }
    }
}

proof fn lemma_user_count_front(s: Seq<MessageView>)
    requires
        s.len() > 0,
    ensures
        user_count(s) == user_count(s.drop_first()) + if is_user(s[0]) { 1nat } else { 0nat },
    decreases s.len(),
{
    if s.len() > 1 {
        lemma_user_count_front(s.drop_last());
        assert(s.drop_last().drop_first() =~= s.drop_first().drop_last());
    } else {
        assert(s.drop_first() =~= Seq::<MessageView>::empty());
        assert(s.drop_last() =~= Seq::<MessageView>::empty());
    }
}

proof fn lemma_turns_scan(ms: Seq<MessageView>, idx: int, seen: nat, k: nat)
    requires
        0 <= idx <= ms.len(),
        seen == user_count(ms.skip(idx)),
    ensures
        ({
            let r = turns_scan(ms, idx, seen, k);
            r == ms.len() || (0 < r <= ms.len() && is_user(ms[ms.len() - r]) && user_count(ms.skip(ms.len() - r))
                >= k)
        }),
    decreases idx,
{
    if idx > 0 {
        lemma_user_count_front(ms.skip(idx - 1));
        assert(ms.skip(idx - 1).drop_first() =~= ms.skip(idx));
        assert(ms.skip(idx - 1)[0] == ms[idx - 1]);
        if is_user(ms[idx - 1]) {
            if seen + 1 < k {
                lemma_turns_scan(ms, idx - 1, seen + 1, k);
            }
        } else {
            lemma_turns_scan(ms, idx - 1, seen, k);
        }
    }
}

/// The messages kept as recent hold the last `min_turns` turns: either
/// everything is kept, or the kept suffix starts with a user message and
/// holds at least `min_turns` of them.
pub proof fn law_recent_turns_kept(ms: Seq<MessageView>, min_turns: nat)
    ensures
        ({
            let r = turns_scan(ms, ms.len() as int, 0, min_turns);
            r == ms.len() || (0 < r && is_user(ms[ms.len() - r]) && user_count(ms.skip(ms.len() - r)) >= min_turns)
        }),
{
    assert(ms.skip(ms.len() as int) =~= Seq::<MessageView>::empty());
    lemma_turns_scan(ms, ms.len() as int, 0, min_turns);
}

/// How many messages from the end make up the last `min_turns`
/// conversation turns; a turn starts with a `user` message.
pub fn count_turns_from_end(messages: &Vec<Message>, min_turns: usize) -> (r: usize)
    ensures
        r == turns_scan(message_views(messages@), messages@.len() as int, 0, min_turns as nat),
        r <= messages@.len(),
{
    let ghost ms = message_views(messages@);
    let mut user_count: usize = 0;
    let mut idx: usize = messages.len();
    while idx > 0
        invariant
            idx <= messages@.len(),
            messages@.len() <= usize::MAX,
            ms == message_views(messages@),
            user_count <= messages@.len() - idx,
            turns_scan(ms, messages@.len() as int, 0, min_turns as nat) == turns_scan(
                ms,
                idx as int,
                user_count as nat,
                min_turns as nat,
            ),
        decreases idx,
    {
        let i = idx - 1;
        assert(ms[i as int] == messages@[i as int]@);
        if str_eq(messages[i].role.as_str(), "user") {
            user_count += 1;
            if user_count >= min_turns {
                return messages.len() - i;
            }
        }
        idx = i;
    }
    messages.len()
}

/// A summary line: `[role]: content` (content cut to 2000 characters),
/// each tool call and the thinking (cut to 1000) on indented lines.
pub open spec fn conversation_line(m: MessageView) -> Seq<char> {
    let head = "["@ + m.role + "]: "@ + take_seq(m.content, MAX_CHARS_PER_MSG as nat);
    let calls = match m.tool_calls {
        Some(c) => calls_text(c),
        None => Seq::empty(),
    };
    let thinking = match m.thinking {
        Some(t) => "\n  [thinking] "@ + take_seq(t, (MAX_CHARS_PER_MSG / 2) as nat),
        None => Seq::empty(),
    };
    head + calls + thinking + "\n"@
}

pub open spec fn calls_text(c: Seq<ToolCallView>) -> Seq<char>
    decreases c.len(),
{
    if c.len() == 0 {
        Seq::empty()
    } else {
        calls_text(c.drop_last()) + "\n  [tool_call] "@ + c.last().name + ": "@ + take_seq(
            c.last().arguments,
            (MAX_CHARS_PER_MSG / 2) as nat,
        )
    }
}

pub open spec fn conversation_text(ms: Seq<MessageView>) -> Seq<char>
    decreases ms.len(),
{
    if ms.len() == 0 {
        Seq::empty()
    } else {
        conversation_text(ms.drop_last()) + conversation_line(ms.last())
    }
}

/// A compact text rendering of messages for the summarization prompt.
pub fn build_conversation_text(messages: &Vec<Message>) -> (r: String)
    ensures
        r@ == conversation_text(message_views(messages@)),
{
    let ghost ms = message_views(messages@);
    let mut out = String::new();
    let mut i: usize = 0;
    assert(ms.take(0) =~= Seq::<MessageView>::empty());
    while i < messages.len()
        invariant
            i <= messages@.len(),
            ms == message_views(messages@),
            out@ == conversation_text(ms.take(i as int)),
        decreases messages@.len() - i,
    {
        assert(ms.take(i + 1).drop_last() =~= ms.take(i as int));
        let m = &messages[i];
        assert(ms[i as int] == m@);
        let ghost start = out@;
        push_str(&mut out, "[");
        push_str(&mut out, m.role.as_str());
        push_str(&mut out, "]: ");
        let content = take_chars(m.content.as_str(), MAX_CHARS_PER_MSG);
        push_str(&mut out, content.as_str());
        let ghost after_head = out@;
        if let Some(tcs) = &m.tool_calls {
            let ghost cs = crate::store::tool_call_views(tcs@);
            let mut j: usize = 0;
            assert(cs.take(0) =~= Seq::<ToolCallView>::empty());
            assert(out@ =~= after_head + calls_text(cs.take(0)));
            while j < tcs.len()
                invariant
                    j <= tcs@.len(),
                    cs == crate::store::tool_call_views(tcs@),
                    out@ == after_head + calls_text(cs.take(j as int)),
                decreases tcs@.len() - j,
            {
                assert(cs.take(j + 1).drop_last() =~= cs.take(j as int));
                push_str(&mut out, "\n  [tool_call] ");
                push_str(&mut out, tcs[j].function.name.as_str());
                push_str(&mut out, ": ");
                let args = take_chars(tcs[j].function.arguments.as_str(), MAX_CHARS_PER_MSG / 2);
                push_str(&mut out, args.as_str());
                j += 1;
                assert(out@ =~= after_head + calls_text(cs.take(j as int)));
            }
            assert(cs.take(tcs@.len() as int) =~= cs);
        }
        let ghost after_calls = out@;
        if let Some(t) = &m.thinking {
            push_str(&mut out, "\n  [thinking] ");
            let tt = take_chars(t.as_str(), MAX_CHARS_PER_MSG / 2);
            push_str(&mut out, tt.as_str());
        }
        push_str(&mut out, "\n");
        proof {
            let calls = match m@.tool_calls {
                Some(c) => calls_text(c),
                None => Seq::empty(),
            };
            assert(after_calls =~= start + "["@ + m.role@ + "]: "@ + take_seq(m.content@, MAX_CHARS_PER_MSG as nat) + calls);
            assert(out@ =~= start + conversation_line(m@));
        }
        i += 1;
    }
    assert(ms.take(messages@.len() as int) =~= ms);
    out
}

} // verus!
