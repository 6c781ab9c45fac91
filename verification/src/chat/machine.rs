//! The turn state machine: what a chat turn does next, given where it is
//! and what the outside world just reported.
//!
//! The caller performs the work each state asks for (calling the model,
//! running tools, compacting, waiting before a retry) and feeds the result
//! back as a [`TurnEvent`].

use vstd::prelude::*;
use crate::error::{ChatError, retryable};
use crate::llm::types::LlmResponse;

verus! {

/// How many times a retryable model error is retried before giving up.
pub const MAX_RETRIES: u32 = 3;

/// Where a turn stands.
#[derive(Debug)]
pub enum TurnState {
    /// Waiting for the model to respond.
    Waiting { retry_count: u32 },
    /// Executing the tool calls of a response.
    Tooling { response: LlmResponse },
    /// Compacting the history after the model reported a full context.
    Compacting { error: ChatError },
    /// Turn completed normally (text reply, no more tools).
    Done { text: String, thinking: Option<String> },
    /// The user pressed cancel; the partial output is kept.
    Interrupted { text: String, thinking: Option<String> },
    /// A retryable error occurred: back off, then wait for the model again.
    Error { error: ChatError, retry_count: u32 },
    /// Non-retryable error, or retries exhausted. Terminal.
    Fatal { error: ChatError },
}

/// What the outside world reports back to the machine.
#[derive(Debug)]
pub enum TurnEvent {
    /// The model answered; `cancelled` tells whether the user had pressed
    /// cancel by the time the answer was complete.
    Replied { response: LlmResponse, cancelled: bool },
    /// The model call failed.
    Failed { error: ChatError },
    /// A compaction of the history finished.
    Compacted { succeeded: bool },
    /// Every tool call of the response has its result stored.
    ToolsRecorded,
    /// The back-off delay before a retry has passed.
    RetryDue,
}

/// A turn in progress: its state and whether the history was already
/// compacted during it.
#[derive(Debug)]
pub struct TurnMachine {
    pub state: TurnState,
    pub compaction_attempted: bool,
}

/// The state after a reply from the model.
pub open spec fn after_reply(response: LlmResponse, cancelled: bool) -> TurnState {
    if cancelled {
        TurnState::Interrupted { text: response.text, thinking: response.thinking }
    } else if response.tool_calls@.len() == 0 {
        TurnState::Done { text: response.text, thinking: response.thinking }
    } else {
        TurnState::Tooling { response }
    }
}

/// The state after a failed model call: a full context is compacted once,
/// a retryable error is retried while retries remain, anything else ends
/// the turn.
pub open spec fn after_failure(error: ChatError, retry_count: u32, attempted: bool) -> TurnState {
    if error is ContextExceeded && !attempted {
        TurnState::Compacting { error }
    } else if retryable(error) && retry_count < MAX_RETRIES {
        TurnState::Error { error, retry_count }
    } else {
        TurnState::Fatal { error }
    }
}

/// One step of the machine. Events that mean nothing in a state leave the
/// machine as it is.
pub open spec fn turn_step(state: TurnState, attempted: bool, event: TurnEvent) -> (TurnState, bool) {
    match state {
        TurnState::Waiting { retry_count } => match event {
            TurnEvent::Replied { response, cancelled } => (after_reply(response, cancelled), attempted),
            TurnEvent::Failed { error } => (after_failure(error, retry_count, attempted), attempted),
            TurnEvent::Compacted { succeeded } => (TurnState::Waiting { retry_count }, attempted || succeeded),
            _ => (state, attempted),
        },
        TurnState::Tooling { .. } => match event {
            TurnEvent::ToolsRecorded => (TurnState::Waiting { retry_count: 0 }, attempted),
            _ => (state, attempted),
        },
        TurnState::Compacting { error } => match event {
            TurnEvent::Compacted { succeeded } => if succeeded {
                (TurnState::Waiting { retry_count: 0 }, true)
            } else {
                (TurnState::Fatal { error }, attempted)
            },
            _ => (state, attempted),
        },
        TurnState::Error { error, retry_count } => match event {
            TurnEvent::RetryDue => (TurnState::Waiting { retry_count: (retry_count + 1) as u32 }, attempted),
            _ => (state, attempted),
        },
        _ => (state, attempted),
    }
}

/// Terminal states: nothing moves the machine out of them.
pub open spec fn is_terminal(state: TurnState) -> bool {
    state is Done || state is Interrupted || state is Fatal
}

impl TurnMachine {
    /// Retry counters stay within bounds: a waiting turn has used at most
    /// `MAX_RETRIES` retries, and an error state still has one left.
    pub open spec fn wf(&self) -> bool {
        match self.state {
            TurnState::Waiting { retry_count } => retry_count <= MAX_RETRIES,
            TurnState::Error { retry_count, .. } => retry_count < MAX_RETRIES,
            _ => true,
        }
    }

    /// Whether the retry counters are within bounds (see `wf`).
    pub fn is_well_formed(&self) -> (r: bool)
        ensures
            r == self.wf(),
    {
        match self.state {
            TurnState::Waiting { retry_count } => retry_count <= MAX_RETRIES,
            TurnState::Error { retry_count, .. } => retry_count < MAX_RETRIES,
            _ => true,
        }
    }

    /// A fresh turn: waiting for the model, nothing compacted yet.
    pub fn new() -> (r: TurnMachine)
        ensures
            r.state == (TurnState::Waiting { retry_count: 0 }),
            !r.compaction_attempted,
            r.wf(),
    {
        TurnMachine { state: TurnState::Waiting { retry_count: 0 }, compaction_attempted: false }
    }

    /// Feed one event to the machine.
    pub fn step(self, event: TurnEvent) -> (r: TurnMachine)
        requires
            self.wf(),
        ensures
            r.wf(),
            (r.state, r.compaction_attempted) == turn_step(self.state, self.compaction_attempted, event),
    {
        let attempted = self.compaction_attempted;
        match self.state {
            TurnState::Waiting { retry_count } => match event {
                TurnEvent::Replied { response, cancelled } => {
                    let state = if cancelled {
                        TurnState::Interrupted { text: response.text, thinking: response.thinking }
                    } else if response.tool_calls.len() == 0 {
                        TurnState::Done { text: response.text, thinking: response.thinking }
                    } else {
                        TurnState::Tooling { response }
                    };
                    TurnMachine { state, compaction_attempted: attempted }
                },
                TurnEvent::Failed { error } => {
                    let state = if matches!(error, ChatError::ContextExceeded) && !attempted {
                        TurnState::Compacting { error }
                    } else if error.is_retryable() && retry_count < MAX_RETRIES {
                        TurnState::Error { error, retry_count }
                    } else {
                        TurnState::Fatal { error }
                    };
                    TurnMachine { state, compaction_attempted: attempted }
                },
                TurnEvent::Compacted { succeeded } => TurnMachine {
                    state: TurnState::Waiting { retry_count },
                    compaction_attempted: attempted || succeeded,
                },
                _ => TurnMachine { state: TurnState::Waiting { retry_count }, compaction_attempted: attempted },
            },
            TurnState::Tooling { response } => match event {
                TurnEvent::ToolsRecorded => TurnMachine {
                    state: TurnState::Waiting { retry_count: 0 },
                    compaction_attempted: attempted,
                },
                _ => TurnMachine { state: TurnState::Tooling { response }, compaction_attempted: attempted },
            },
            TurnState::Compacting { error } => match event {
                TurnEvent::Compacted { succeeded } => if succeeded {
                    TurnMachine { state: TurnState::Waiting { retry_count: 0 }, compaction_attempted: true }
                } else {
                    TurnMachine { state: TurnState::Fatal { error }, compaction_attempted: attempted }
                },
                _ => TurnMachine { state: TurnState::Compacting { error }, compaction_attempted: attempted },
            },
            TurnState::Error { error, retry_count } => match event {
                TurnEvent::RetryDue => TurnMachine {
                    state: TurnState::Waiting { retry_count: retry_count + 1 },
                    compaction_attempted: attempted,
                },
                _ => TurnMachine { state: TurnState::Error { error, retry_count }, compaction_attempted: attempted },
            },
            state => TurnMachine { state, compaction_attempted: attempted },
        }
    }

    /// Whether the history should be compacted before the next model call:
    /// only while waiting, only once per turn, and only when the estimate
    /// is over the threshold.
    pub fn wants_compaction(&self, estimate: usize, threshold: usize) -> (r: bool)
        ensures
            r == (self.state is Waiting && !self.compaction_attempted && estimate > threshold),
    {
        match self.state {
            TurnState::Waiting { .. } => !self.compaction_attempted && estimate > threshold,
            _ => false,
        }
    }

    /// Whether the turn is over.
    pub fn is_finished(&self) -> (r: bool)
        ensures
            r == is_terminal(self.state),
    {
        match self.state {
            TurnState::Done { .. } | TurnState::Interrupted { .. } | TurnState::Fatal { .. } => true,
            _ => false,
        }
    }

    /// What a finished turn produced: the reply text and thinking, or the
    /// error that ended it. `None` while the turn is still running.
    pub fn outcome(self) -> (r: Option<Result<(String, Option<String>), ChatError>>)
        ensures
            match self.state {
                TurnState::Done { text, thinking } => r == Some(Ok::<(String, Option<String>), ChatError>((text, thinking))),
                TurnState::Interrupted { text, thinking } => r == Some(Ok::<(String, Option<String>), ChatError>((text, thinking))),
                TurnState::Fatal { error } => r == Some(Err::<(String, Option<String>), ChatError>(error)),
                _ => r is None,
            },
    {
        match self.state {
            TurnState::Done { text, thinking } => Some(Ok((text, thinking))),
            TurnState::Interrupted { text, thinking } => Some(Ok((text, thinking))),
            TurnState::Fatal { error } => Some(Err(error)),
            _ => None,
        }
    }
}

// ── Back-off ─────────────────────────────────────────────────────────

/// `2^n`.
pub open spec fn doubling(n: nat) -> nat
    decreases n,
{
    if n == 0 {
        1
    } else {
        2 * doubling((n - 1) as nat)
    }
}

/// The delay before retry number `attempt`: 200 ms, doubled for every
/// earlier attempt.
pub open spec fn backoff_ms(attempt: u32) -> nat {
    200 * doubling(if attempt == 0 { 0 } else { (attempt - 1) as nat })
}

proof fn lemma_doubling_pos(n: nat)
    ensures
        doubling(n) >= 1,
    decreases n,
{
    if n > 0 {
        lemma_doubling_pos((n - 1) as nat);
    }
}

proof fn lemma_doubling_bound(n: nat)
    requires
        n <= 56,
    ensures
        doubling(n) <= doubling(56),
    decreases 56 - n,
{
    if n < 56 {
        lemma_doubling_bound(n + 1);
        lemma_doubling_pos(n);
        assert(doubling(n + 1) == 2 * doubling(n));
    }
}

proof fn lemma_doubling_56()
    ensures
        doubling(56) == 72057594037927936,
{
    reveal_with_fuel(doubling, 57);
}

/// Exponential back-off with a symmetric ±20 % jitter band, of which the
/// midpoint is taken: the delay in milliseconds before retry `attempt`.
pub fn backoff(attempt: u32) -> (r: u64)
    requires
        attempt <= 57,
    ensures
        r == backoff_ms(attempt),
{
    let exp: u32 = if attempt == 0 { 0 } else { attempt - 1 };
    proof {
        lemma_doubling_bound(exp as nat);
        lemma_doubling_56();
    }
    let mut ms: u64 = 200;
    let mut i: u32 = 0;
    while i < exp
        invariant
            i <= exp <= 56,
            ms == 200 * doubling(i as nat),
            doubling(56) == 72057594037927936,
        decreases exp - i,
    {
        proof {
            lemma_doubling_bound((i + 1) as nat);
            assert(doubling((i + 1) as nat) == 2 * doubling(i as nat));
        }
        ms = ms * 2;
        i = i + 1;
    }
    let jitter: u64 = ms / 5;
    let low = ms - jitter;
    let high = ms + jitter;
    if low < high {
        low + (high - low) / 2
    } else {
        ms
    }
}

// ── Laws ─────────────────────────────────────────────────────────────

/// Every step keeps the retry counters in bounds, so a turn never makes
/// more than `MAX_RETRIES` retries in a row.
pub proof fn law_retries_bounded(m: TurnMachine, event: TurnEvent)
    requires
        m.wf(),
    ensures
        ({
            let (s, a) = turn_step(m.state, m.compaction_attempted, event);
            (TurnMachine { state: s, compaction_attempted: a }).wf()
        }),
        m.state matches TurnState::Waiting { retry_count } ==> retry_count <= MAX_RETRIES,
{
}

/// A retryable failure after `MAX_RETRIES` retries ends the turn.
pub proof fn law_retries_exhausted(error: ChatError, attempted: bool)
    requires
        retryable(error),
    ensures
        turn_step(TurnState::Waiting { retry_count: MAX_RETRIES }, attempted, TurnEvent::Failed { error }).0
            == (TurnState::Fatal { error }),
{
}

/// A non-retryable failure ends the turn at once, unless it is the first
/// report of a full context window, which is answered by compacting.
pub proof fn law_non_retryable_is_fatal(error: ChatError, retry_count: u32, attempted: bool)
    requires
        !retryable(error),
        !(error is ContextExceeded && !attempted),
    ensures
        turn_step(TurnState::Waiting { retry_count }, attempted, TurnEvent::Failed { error }).0
            == (TurnState::Fatal { error }),
{
}

/// Cancelling keeps the partial output of the reply.
pub proof fn law_cancel_keeps_output(response: LlmResponse, retry_count: u32, attempted: bool)
    ensures
        turn_step(TurnState::Waiting { retry_count }, attempted, TurnEvent::Replied { response, cancelled: true }).0
            == (TurnState::Interrupted { text: response.text, thinking: response.thinking }),
{
}

/// The history is compacted at most once per turn: once a compaction has
/// succeeded, a second full-context report ends the turn.
pub proof fn law_compaction_once(retry_count: u32)
    ensures
        turn_step(TurnState::Waiting { retry_count }, false, TurnEvent::Failed { error: ChatError::ContextExceeded })
            == (TurnState::Compacting { error: ChatError::ContextExceeded }, false),
        turn_step(TurnState::Compacting { error: ChatError::ContextExceeded }, false, TurnEvent::Compacted { succeeded: true })
            == (TurnState::Waiting { retry_count: 0 }, true),
        turn_step(TurnState::Waiting { retry_count }, true, TurnEvent::Failed { error: ChatError::ContextExceeded }).0
            == (TurnState::Fatal { error: ChatError::ContextExceeded }),
{
}

/// Once compacted, a turn stays compacted.
pub proof fn law_compaction_flag_sticks(state: TurnState, event: TurnEvent)
    ensures
        turn_step(state, true, event).1,
{
}

/// Finished turns stay finished.
pub proof fn law_terminal_absorbs(state: TurnState, attempted: bool, event: TurnEvent)
    requires
        is_terminal(state),
    ensures
        turn_step(state, attempted, event) == (state, attempted),
{
}

/// After the tools have run, the model is asked again with a fresh retry
/// budget.
pub proof fn law_tools_then_wait(response: LlmResponse, attempted: bool)
    ensures
        turn_step(TurnState::Tooling { response }, attempted, TurnEvent::ToolsRecorded)
            == (TurnState::Waiting { retry_count: 0 }, attempted),
{
}

} // verus!
