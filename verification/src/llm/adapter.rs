//! The protocol adapter interface and what it produces.

use vstd::prelude::*;
use crate::error::ChatError;
use crate::json::JsonValue;
use crate::json::Json;
use crate::llm::types::{LlmRequest, LlmResponse, RequestView, ResponseView};

verus! {

/// Raw HTTP request built by an adapter.
#[derive(Debug)]
pub struct HttpRequest {
    pub url: String,
    pub headers: Vec<(String, String)>,
    pub body: String,
}

/// The model of an HTTP request.
pub struct HttpView {
    pub url: Seq<char>,
    pub headers: Seq<(Seq<char>, Seq<char>)>,
    pub body: Seq<char>,
}

pub open spec fn header_views(h: Seq<(String, String)>) -> Seq<(Seq<char>, Seq<char>)> {
    h.map_values(|p: (String, String)| (p.0@, p.1@))
}

impl View for HttpRequest {
    type V = HttpView;

    open spec fn view(&self) -> HttpView {
        HttpView { url: self.url@, headers: header_views(self.headers@), body: self.body@ }
    }
}

/// A streaming delta for the UI: `kind` is "text" or "thinking".
#[derive(Debug)]
pub struct StreamEvent {
    pub kind: String,
    pub delta: String,
}

pub struct StreamEventView {
    pub kind: Seq<char>,
    pub delta: Seq<char>,
}

impl View for StreamEvent {
    type V = StreamEventView;

    open spec fn view(&self) -> StreamEventView {
        StreamEventView { kind: self.kind@, delta: self.delta@ }
    }
}

pub open spec fn stream_event_views(v: Seq<StreamEvent>) -> Seq<StreamEventView> {
    v.map_values(|e: StreamEvent| e@)
}

/// Protocol adapter: builds HTTP requests, parses accumulated SSE bodies,
/// and extracts per-event streaming deltas for real-time UI updates.
pub trait ApiAdapter {
    /// The HTTP request this adapter sends for a request.
    spec fn request_spec(&self, req: RequestView, api_key: Seq<char>, base_url: Seq<char>) -> HttpView;

    /// What this adapter makes of a complete response body: the reply, or
    /// the detail of the error the body reports.
    spec fn reply_spec(&self, body: Seq<char>) -> Result<ResponseView, Seq<char>>;

    /// The UI deltas of one streamed event.
    spec fn events_spec(&self, event: Json) -> Seq<StreamEventView>;

    fn build(&self, req: &LlmRequest, api_key: &str, base_url: &str) -> (r: Result<HttpRequest, ChatError>)
        ensures
            r matches Ok(h) && h@ == self.request_spec(req@, api_key@, base_url@);

    fn parse_stream(&self, body: &str) -> (r: Result<LlmResponse, ChatError>)
        ensures
            match self.reply_spec(body@) {
                Ok(v) => r matches Ok(resp) && resp@ == v,
                Err(d) => r matches Err(ChatError::BadRequest { detail }) && detail@ == d,
            };

    /// Streaming notification(s) for a single SSE `data:` event; empty for
    /// events that need none.
    fn stream_events(&self, event: &JsonValue) -> (r: Vec<StreamEvent>)
        ensures
            stream_event_views(r@) == self.events_spec(event@);
}

} // verus!
