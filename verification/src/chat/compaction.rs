//! Context compaction: which messages a summary replaces, the request that
//! asks for the summary, how a summary is merged back into what the model
//! sees, and how a failed summary attempt is retried on fewer messages.
//!
//! The stored history is never changed: compaction only records a summary
//! and the id of the last message it covers.

use vstd::prelude::*;
use crate::context::{
    MAX_CHARS_PER_MSG, MIN_MSGS, build_conversation_text, conversation_text, count_turns_from_end, turns_scan,
};
use crate::error::ChatError;
use crate::llm::types::{LlmMessage, LlmRequest, LlmMessageView, RequestView, llm_message_views, tool_views};
use crate::store::{Message, MessageView, Session, SessionView, copy_messages, message_views, new_msg, opt_str_view};
use crate::store::store_trait::{SessionStore, StoreError, store_update_compaction};
use crate::text::{owned, push_str, str_eq, take_chars, take_seq, trim, trim_seq};

verus! {

// ── What the model sees ──────────────────────────────────────────────

/// The text put in front of the first kept user message.
pub open spec fn summary_preamble() -> Seq<char> {
    "Another language model started to solve this problem and produced a summary of its thinking process. Use this to build on the work that has already been done and avoid duplicating work.\n\n"@
}

/// A kept user message's content with the summary merged in front.
pub open spec fn merged_content(summary: Seq<char>, content: Seq<char>) -> Seq<char> {
    summary_preamble() + summary + "\n\n---\n\n"@ + content
}

/// The position of the first message with id `id`.
pub open spec fn position_of_id(ms: Seq<MessageView>, id: Seq<char>) -> Option<int>
    decreases ms.len(),
{
    if ms.len() == 0 {
        None
    } else {
        match position_of_id(ms.drop_last(), id) {
            Some(p) => Some(p),
            None => if ms.last().id == id {
                Some(ms.len() - 1)
            } else {
                None
            },
        }
    }
}

/// The position of the first user message.
pub open spec fn first_user(ms: Seq<MessageView>) -> Option<int>
    decreases ms.len(),
{
    if ms.len() == 0 {
        None
    } else {
        match first_user(ms.drop_last()) {
            Some(p) => Some(p),
            None => if ms.last().role == "user"@ {
                Some(ms.len() - 1)
            } else {
                None
            },
        }
    }
}

/// Where the kept messages start: just after the last compacted message,
/// or at the beginning when that id is not in the history.
pub open spec fn kept_start(ms: Seq<MessageView>, id: Seq<char>) -> int {
    match position_of_id(ms, id) {
        Some(p) => p + 1,
        None => 0,
    }
}

proof fn lemma_position_of_id(ms: Seq<MessageView>, id: Seq<char>)
    ensures
        match position_of_id(ms, id) {
            Some(p) => 0 <= p < ms.len() && ms[p].id == id && forall|j: int| 0 <= j < p ==> ms[j].id != id,
            None => forall|j: int| 0 <= j < ms.len() ==> ms[j].id != id,
        },
    decreases ms.len(),
{
    if ms.len() > 0 {
        lemma_position_of_id(ms.drop_last(), id);
        match position_of_id(ms.drop_last(), id) {
            Some(p) => {
                assert forall|j: int| 0 <= j < p implies ms[j].id != id by {
                    assert(ms[j] == ms.drop_last()[j]);
                }
                assert(ms[p] == ms.drop_last()[p]);
            },
            None => {
                assert forall|j: int| 0 <= j < ms.len() - 1 implies ms[j].id != id by {
                    assert(ms[j] == ms.drop_last()[j]);
                }
            },
        }
    }
}

proof fn lemma_first_user(ms: Seq<MessageView>)
    ensures
        match first_user(ms) {
            Some(p) => 0 <= p < ms.len() && ms[p].role == "user"@ && forall|j: int| 0 <= j < p ==> ms[j].role != "user"@,
            None => forall|j: int| 0 <= j < ms.len() ==> ms[j].role != "user"@,
        },
    decreases ms.len(),
{
    if ms.len() > 0 {
        lemma_first_user(ms.drop_last());
        match first_user(ms.drop_last()) {
            Some(p) => {
                assert forall|j: int| 0 <= j < p implies ms[j].role != "user"@ by {
                    assert(ms[j] == ms.drop_last()[j]);
                }
                assert(ms[p] == ms.drop_last()[p]);
            },
            None => {
                assert forall|j: int| 0 <= j < ms.len() - 1 implies ms[j].role != "user"@ by {
                    assert(ms[j] == ms.drop_last()[j]);
                }
            },
        }
    }
}

/// A fresh plain user message carrying `content`.
pub open spec fn is_plain_user_message(m: MessageView, content: Seq<char>) -> bool {
    &&& m.role == "user"@
    &&& m.content == content
    &&& m.tool_calls is None
    &&& m.tool_call_id is None
    &&& m.thinking is None
    &&& m.image_paths is None
}

/// The messages the model sees after a compaction with `summary` that
/// covered everything up to the message `id`: the later messages, the
/// first user message among them carrying the summary in front. When none
/// of them is a user message, a new user message with the summary comes
/// first (stated by `build_effective_messages`).
pub open spec fn effective_view(ms: Seq<MessageView>, id: Seq<char>, summary: Seq<char>) -> Seq<MessageView> {
    let start = kept_start(ms, id);
    let kept = ms.skip(start);
    if start >= ms.len() {
        ms
    } else {
        match first_user(kept) {
            Some(u) => kept.update(u, MessageView { content: merged_content(summary, kept[u].content), ..kept[u] }),
            None => kept,
        }
    }
}

/// Whether the kept messages need a separate summary message in front.
pub open spec fn needs_summary_message(ms: Seq<MessageView>, id: Seq<char>) -> bool {
    let start = kept_start(ms, id);
    start < ms.len() && first_user(ms.skip(start)) is None
}

fn message_range(v: &Vec<Message>, lo: usize, hi: usize) -> (r: Vec<Message>)
    requires
        lo <= hi <= v@.len(),
    ensures
        message_views(r@) == message_views(v@).subrange(lo as int, hi as int),
{
    let mut out: Vec<Message> = Vec::new();
    let mut i: usize = lo;
    assert(message_views(out@) =~= message_views(v@).subrange(lo as int, lo as int));
    while i < hi
        invariant
            lo <= i <= hi <= v@.len(),
            out@.len() == i - lo,
            message_views(out@) == message_views(v@).subrange(lo as int, i as int),
        decreases hi - i,
    {
        let x = v[i].duplicate();
        let ghost before = out@;
        out.push(x);
        assert(out@ == before.push(x));
        assert(message_views(out@) =~= message_views(v@).subrange(lo as int, i + 1));
        i += 1;
    }
    out
}

/// Build the message list the model should see from the full history and
/// a compaction summary. The summary is merged into the first kept user
/// message, so that roles keep alternating.
pub fn build_effective_messages(messages: &Vec<Message>, compacted_id: &str, summary: &str) -> (r: Vec<Message>)
    ensures
        !needs_summary_message(message_views(messages@), compacted_id@) ==> message_views(r@) == effective_view(
            message_views(messages@),
            compacted_id@,
            summary@,
        ),
        needs_summary_message(message_views(messages@), compacted_id@) ==> r@.len() >= 1 && is_plain_user_message(
            r@[0]@,
            summary@,
        ) && message_views(r@).skip(1) == effective_view(message_views(messages@), compacted_id@, summary@),
{
    let ghost ms = message_views(messages@);
    proof {
        lemma_position_of_id(ms, compacted_id@);
    }
    let mut pos: usize = 0;
    while pos < messages.len() && !str_eq(messages[pos].id.as_str(), compacted_id)
        invariant
            pos <= messages@.len(),
            ms == message_views(messages@),
            forall|j: int| 0 <= j < pos ==> ms[j].id != compacted_id@,
        decreases messages@.len() - pos,
    {
        pos += 1;
    }
    let start: usize = if pos < messages.len() { pos + 1 } else { 0 };
    proof {
        match position_of_id(ms, compacted_id@) {
            Some(p) => {
                assert(pos == p);
            },
            None => {
                if pos < messages@.len() {
                    assert(ms[pos as int].id == compacted_id@);
                }
            },
        }
        assert(start == kept_start(ms, compacted_id@));
    }
    if start >= messages.len() {
        return copy_messages(messages);
    }
    let mut kept = message_range(messages, start, messages.len());
    let ghost kv = message_views(kept@);
    assert(kv =~= ms.skip(start as int));
    proof {
        lemma_first_user(kv);
    }
    let mut u: usize = 0;
    while u < kept.len() && !str_eq(kept[u].role.as_str(), "user")
        invariant
            u <= kept@.len(),
            kv == message_views(kept@),
            forall|j: int| 0 <= j < u ==> kv[j].role != "user"@,
        decreases kept@.len() - u,
    {
        u += 1;
    }
    proof {
        reveal_strlit("user");
    }
    if u < kept.len() {
        proof {
            match first_user(kv) {
                Some(p) => {
                    assert(p == u);
                },
                None => {
                    assert(kv[u as int].role == "user"@);
                },
            }
        }
        let mut content = owned(summary_preamble_text());
        push_str(&mut content, summary);
        push_str(&mut content, "\n\n---\n\n");
        push_str(&mut content, kept[u].content.as_str());
        let mut m = kept[u].duplicate();
        m.content = content;
        let ghost mv = m@;
        kept.set(u, m);
        assert(message_views(kept@) =~= kv.update(u as int, mv));
        kept
    } else {
        proof {
            if first_user(kv) is Some {
                let p = first_user(kv)->0;
                assert(kv[p].role == "user"@);
            }
        }
        let summary_msg = new_msg("user", summary);
        let ghost sv = summary_msg@;
        kept.insert(0, summary_msg);
        assert(message_views(kept@) =~= seq![sv] + kv);
        assert(message_views(kept@).skip(1) =~= kv);
        kept
    }
}

fn summary_preamble_text() -> (r: &'static str)
    ensures
        r@ == summary_preamble(),
{
    proof {
        reveal_strlit(
            "Another language model started to solve this problem and produced a summary of its thinking process. Use this to build on the work that has already been done and avoid duplicating work.\n\n",
        );
    }
    "Another language model started to solve this problem and produced a summary of its thinking process. Use this to build on the work that has already been done and avoid duplicating work.\n\n"
}

/// The messages the model sees for a session: the compacted view when
/// the session records a summary, the full history otherwise.
pub fn effective_messages(session: &Session) -> (r: Vec<Message>)
    ensures
        match (session@.compacted_summary, session@.compacted_message_id) {
            (Some(s), Some(id)) => (!needs_summary_message(session@.messages, id) ==> message_views(r@)
                == effective_view(session@.messages, id, s)) && (needs_summary_message(session@.messages, id) ==> r@.len()
                >= 1 && is_plain_user_message(r@[0]@, s) && message_views(r@).skip(1) == effective_view(
                session@.messages,
                id,
                s,
            )),
            _ => message_views(r@) == session@.messages,
        },
{
    match (&session.compacted_summary, &session.compacted_message_id) {
        (Some(summary), Some(id)) => build_effective_messages(&session.messages, id.as_str(), summary.as_str()),
        _ => copy_messages(&session.messages),
    }
}

/// Compaction changes what the model sees, never the history: the
/// messages after the compacted one are all there, in order, and only the
/// first user message among them gains the summary in front.
pub proof fn law_effective_keeps_recent(ms: Seq<MessageView>, id: Seq<char>, summary: Seq<char>)
    requires
        kept_start(ms, id) < ms.len(),
        first_user(ms.skip(kept_start(ms, id))) is Some,
    ensures
        ({
            let start = kept_start(ms, id);
            let e = effective_view(ms, id, summary);
            let u = first_user(ms.skip(start))->0;
            &&& e.len() == ms.len() - start
            &&& forall|i: int| 0 <= i < e.len() && i != u ==> e[i] == ms[start + i]
            &&& e[u].content == merged_content(summary, ms[start + u].content)
            &&& e[u].id == ms[start + u].id
            &&& e[u].role == "user"@
        }),
{
    let start = kept_start(ms, id);
    lemma_position_of_id(ms, id);
    let kept = ms.skip(start);
    lemma_first_user(kept);
    let u = first_user(kept)->0;
    let e = effective_view(ms, id, summary);
    assert forall|i: int| 0 <= i < e.len() && i != u implies e[i] == ms[start + i] by {
        assert(kept[i] == ms[start + i]);
    }
    assert(kept[u] == ms[start + u]);
}

// ── Choosing what to summarise ───────────────────────────────────────

/// Why a compaction did not happen.
#[derive(Debug)]
pub enum CompactionError {
    TooFewMessages,
    AllRecent,
    NothingToSummarise,
    EmptySummary,
    /// The summary call failed.
    Summary(ChatError),
    /// The store refused the compaction record.
    Store(StoreError),
}

impl CompactionError {
    /// The reason as shown to the user.
    pub fn reason(&self) -> (r: String)
        ensures
            match self {
                CompactionError::TooFewMessages => r@ == "too few messages to compact"@,
                CompactionError::AllRecent => r@ == "all messages are recent \u{2014} nothing to compact"@,
                CompactionError::NothingToSummarise => r@ == "nothing worth summarising"@,
                CompactionError::EmptySummary => r@ == "compaction summary was empty"@,
                CompactionError::Summary(e) => r@ == crate::error::message_seq(*e),
                CompactionError::Store(e) => r@ == e.detail@,
            },
    {
        match self {
            CompactionError::TooFewMessages => owned("too few messages to compact"),
            CompactionError::AllRecent => owned("all messages are recent \u{2014} nothing to compact"),
            CompactionError::NothingToSummarise => owned("nothing worth summarising"),
            CompactionError::EmptySummary => owned("compaction summary was empty"),
            CompactionError::Summary(e) => e.user_message(),
            CompactionError::Store(e) => e.detail.clone(),
        }
    }
}

/// How many leading messages a compaction summarises, keeping the last
/// `min_turns_keep` turns: an error when there are too few messages, when
/// every message is recent, or when fewer than two would be summarised.
pub open spec fn compaction_span(ms: Seq<MessageView>, min_turns_keep: nat) -> Result<int, CompactionError> {
    let keep = turns_scan(ms, ms.len() as int, 0, min_turns_keep) as int;
    if ms.len() < MIN_MSGS {
        Err(CompactionError::TooFewMessages)
    } else if keep >= ms.len() {
        Err(CompactionError::AllRecent)
    } else if ms.len() - keep < 2 {
        Err(CompactionError::NothingToSummarise)
    } else {
        Ok(ms.len() - keep)
    }
}

/// A compaction in progress: the first `span` messages are to be
/// summarised, of which the first `skip` are left out of the next attempt.
#[derive(Debug)]
pub struct Compaction {
    pub span: usize,
    pub skip: usize,
}

/// The next number of oldest messages to leave out after an attempt hit
/// the context limit: 1, 2, 4, 8, ..., giving up once nothing would be left.
pub open spec fn next_skip(skip: usize, span: usize) -> Option<usize> {
    let n: int = if skip == 0 {
        1
    } else if skip * 2 > usize::MAX {
        usize::MAX as int
    } else {
        skip * 2
    };
    if n >= span {
        None
    } else {
        Some(n as usize)
    }
}

impl Compaction {
    pub open spec fn wf(&self, len: int) -> bool {
        self.skip < self.span <= len
    }

    /// Decide whether `messages` can be compacted keeping the last
    /// `min_turns_keep` turns; the first attempt summarises everything
    /// before them.
    pub fn start(messages: &Vec<Message>, min_turns_keep: usize) -> (r: Result<Compaction, CompactionError>)
        ensures
            match compaction_span(message_views(messages@), min_turns_keep as nat) {
                Ok(n) => r matches Ok(c) && c.span == n && c.skip == 0 && c.wf(messages@.len() as int),
                Err(e) => r matches Err(x) && x == e,
            },
    {
        if messages.len() < MIN_MSGS {
            return Err(CompactionError::TooFewMessages);
        }
        let keep = count_turns_from_end(messages, min_turns_keep);
        if keep >= messages.len() {
            return Err(CompactionError::AllRecent);
        }
        let span = messages.len() - keep;
        if span < 2 {
            return Err(CompactionError::NothingToSummarise);
        }
        Ok(Compaction { span, skip: 0 })
    }

    /// The conversation text of the messages in this attempt.
    pub fn input(&self, messages: &Vec<Message>) -> (r: String)
        requires
            self.wf(messages@.len() as int),
        ensures
            r@ == conversation_text(message_views(messages@).subrange(self.skip as int, self.span as int)),
    {
        let slice = message_range(messages, self.skip, self.span);
        build_conversation_text(&slice)
    }

    /// After a failed summary attempt: a full context is retried without
    /// more of the oldest messages while any are left; any other failure
    /// ends the compaction.
    pub fn after_failure(self, error: ChatError) -> (r: Result<Compaction, CompactionError>)
        ensures
            !(error is ContextExceeded) ==> r == Err::<Compaction, CompactionError>(CompactionError::Summary(error)),
            error is ContextExceeded ==> match next_skip(self.skip, self.span) {
                Some(n) => r == Ok::<Compaction, CompactionError>(Compaction { span: self.span, skip: n }),
                None => r == Err::<Compaction, CompactionError>(CompactionError::Summary(error)),
            },
    {
        if !matches!(error, ChatError::ContextExceeded) {
            return Err(CompactionError::Summary(error));
        }
        let n: usize = if self.skip == 0 {
            1
        } else if self.skip > usize::MAX / 2 {
            usize::MAX
        } else {
            self.skip * 2
        };
        if n >= self.span {
            Err(CompactionError::Summary(error))
        } else {
            Ok(Compaction { span: self.span, skip: n })
        }
    }

    /// Record a summary: trimmed, non-empty, cut to the per-message limit,
    /// and stored with the id of the last summarised message. Hands back
    /// the summary and that id.
    pub fn finish<S: SessionStore>(
        self,
        store: &mut S,
        session_id: &str,
        messages: &Vec<Message>,
        raw_summary: &str,
    ) -> (r: Result<(String, String), CompactionError>)
        requires
            self.wf(messages@.len() as int),
            old(store).inv(),
        ensures
            final(store).inv(),
            trim_seq(raw_summary@).len() == 0 ==> (r matches Err(e) && e is EmptySummary),
            r matches Ok((summary, last_id)) ==> summary@ == take_seq(trim_seq(raw_summary@), MAX_CHARS_PER_MSG as nat)
                && last_id@ == messages@[self.span - 1].id@ && final(store).sessions() == store_update_compaction(
                old(store).sessions(),
                session_id@,
                Some(summary@),
                Some(last_id@),
            ),
            trim_seq(raw_summary@).len() > 0 ==> (r is Ok || r matches Err(CompactionError::Store(_))),
            trim_seq(raw_summary@).len() > 0 && old(store).infallible() ==> r is Ok,
            final(store).infallible() == old(store).infallible(),
            r is Err ==> final(store).sessions() == old(store).sessions(),
    {
        let trimmed = trim(raw_summary);
        if trimmed.as_str().is_empty() {
            return Err(CompactionError::EmptySummary);
        }
        let summary = take_chars(trimmed.as_str(), MAX_CHARS_PER_MSG);
        let last_id = messages[self.span - 1].id.clone();
        match store.update_compaction(session_id, Some(summary.as_str()), Some(last_id.as_str())) {
            Ok(()) => Ok((summary, last_id)),
            Err(e) => Err(CompactionError::Store(e)),
        }
    }
}

/// Every retry leaves out more of the oldest messages and always keeps at
/// least one, so the retries end.
pub proof fn law_skip_progress(skip: usize, span: usize)
    requires
        skip < span,
    ensures
        next_skip(skip, span) matches Some(n) ==> skip < n < span,
{
}

// ── The summary request ──────────────────────────────────────────────

/// The system prompt of a summary request.
pub open spec fn summary_system() -> Seq<char> {
    "You are a helpful assistant. Summarize conversations concisely and accurately."@
}

/// The prompt that asks for a handoff summary of a conversation.
pub open spec fn summary_prompt(conversation: Seq<char>) -> Seq<char> {
    "You are performing a CONTEXT CHECKPOINT COMPACTION. Create a handoff summary for another LLM that will resume the task.\n\nInclude:\n- Current progress and key decisions made\n- Important context, constraints, or user preferences\n- What remains to be done (clear next steps)\n- Any critical data, examples, or references needed to continue\n\nBe concise, structured, and focused on helping the next LLM seamlessly continue the work.\n\nConversation:\n"@
        + conversation + "\n\nSummary:"@
}

/// The request for a summary: one user message, no tools, no thinking.
pub fn summary_request(model: &str, conversation_text: &str) -> (r: LlmRequest)
    ensures
        r@ == (RequestView {
            system: summary_system(),
            model: model@,
            messages: seq![
                LlmMessageView {
                    role: "user"@,
                    content: summary_prompt(conversation_text@),
                    images: None,
                    tool_calls: None,
                    tool_call_id: None,
                    thinking: None,
                },
            ],
            tools: Seq::empty(),
            thinking_enabled: false,
        }),
{
    proof {
        reveal_strlit("You are a helpful assistant. Summarize conversations concisely and accurately.");
        reveal_strlit(
            "You are performing a CONTEXT CHECKPOINT COMPACTION. Create a handoff summary for another LLM that will resume the task.\n\nInclude:\n- Current progress and key decisions made\n- Important context, constraints, or user preferences\n- What remains to be done (clear next steps)\n- Any critical data, examples, or references needed to continue\n\nBe concise, structured, and focused on helping the next LLM seamlessly continue the work.\n\nConversation:\n",
        );
        reveal_strlit("\n\nSummary:");
        reveal_strlit("user");
    }
    let mut prompt = owned(
        "You are performing a CONTEXT CHECKPOINT COMPACTION. Create a handoff summary for another LLM that will resume the task.\n\nInclude:\n- Current progress and key decisions made\n- Important context, constraints, or user preferences\n- What remains to be done (clear next steps)\n- Any critical data, examples, or references needed to continue\n\nBe concise, structured, and focused on helping the next LLM seamlessly continue the work.\n\nConversation:\n",
    );
    push_str(&mut prompt, conversation_text);
    push_str(&mut prompt, "\n\nSummary:");
    let msg = LlmMessage {
        role: owned("user"),
        content: prompt,
        images: None,
        tool_calls: None,
        tool_call_id: None,
        thinking: None,
    };
    let r = LlmRequest {
        system: owned("You are a helpful assistant. Summarize conversations concisely and accurately."),
        model: owned(model),
        messages: vec![msg],
        tools: Vec::new(),
        thinking_enabled: false,
    };
    assert(r@.messages =~= seq![msg@]);
    assert(r@.tools =~= Seq::empty());
    r
}

} // verus!
