//! Protocol-agnostic request, response and message types.

use vstd::prelude::*;
use crate::json::{Json, JsonValue};
use crate::store::{ToolCall, ToolCallView, tool_call_views, opt_str_view};

verus! {

/// Image content attached to a message (user upload or tool output).
#[derive(Debug)]
pub struct ImageContent {
    pub base64: String,
    /// "image/png" | "image/jpeg" | "image/gif" | "image/webp"
    pub media_type: String,
}

/// The model of an image.
pub struct ImageView {
    pub base64: Seq<char>,
    pub media_type: Seq<char>,
}

impl View for ImageContent {
    type V = ImageView;

    open spec fn view(&self) -> ImageView {
        ImageView { base64: self.base64@, media_type: self.media_type@ }
    }
}

pub open spec fn image_views(v: Seq<ImageContent>) -> Seq<ImageView> {
    v.map_values(|i: ImageContent| i@)
}

/// Protocol-agnostic LLM request.
#[derive(Debug)]
pub struct LlmRequest {
    pub system: String,
    pub model: String,
    pub messages: Vec<LlmMessage>,
    pub tools: Vec<UnifiedTool>,
    pub thinking_enabled: bool,
}

/// The model of a request.
pub struct RequestView {
    pub system: Seq<char>,
    pub model: Seq<char>,
    pub messages: Seq<LlmMessageView>,
    pub tools: Seq<UnifiedToolView>,
    pub thinking_enabled: bool,
}

impl View for LlmRequest {
    type V = RequestView;

    open spec fn view(&self) -> RequestView {
        RequestView {
            system: self.system@,
            model: self.model@,
            messages: llm_message_views(self.messages@),
            tools: tool_views(self.tools@),
            thinking_enabled: self.thinking_enabled,
        }
    }
}

/// Protocol-agnostic LLM response (accumulated from the SSE stream).
#[derive(Debug)]
pub struct LlmResponse {
    pub text: String,
    pub tool_calls: Vec<ToolCall>,
    /// Accumulated thinking text.
    pub thinking: Option<String>,
}

/// The model of a response.
pub struct ResponseView {
    pub text: Seq<char>,
    pub tool_calls: Seq<ToolCallView>,
    pub thinking: Option<Seq<char>>,
}

impl View for LlmResponse {
    type V = ResponseView;

    open spec fn view(&self) -> ResponseView {
        ResponseView {
            text: self.text@,
            tool_calls: tool_call_views(self.tool_calls@),
            thinking: opt_str_view(self.thinking),
        }
    }
}

/// Internal message representation.
#[derive(Debug)]
pub struct LlmMessage {
    pub role: String,
    pub content: String,
    pub images: Option<Vec<ImageContent>>,
    pub tool_calls: Option<Vec<ToolCall>>,
    pub tool_call_id: Option<String>,
    pub thinking: Option<String>,
}

/// The model of a message sent to a model.
pub struct LlmMessageView {
    pub role: Seq<char>,
    pub content: Seq<char>,
    pub images: Option<Seq<ImageView>>,
    pub tool_calls: Option<Seq<ToolCallView>>,
    pub tool_call_id: Option<Seq<char>>,
    pub thinking: Option<Seq<char>>,
}

impl View for LlmMessage {
    type V = LlmMessageView;

    open spec fn view(&self) -> LlmMessageView {
        LlmMessageView {
            role: self.role@,
            content: self.content@,
            images: match self.images {
                Some(v) => Some(image_views(v@)),
                None => None,
            },
            tool_calls: match self.tool_calls {
                Some(v) => Some(tool_call_views(v@)),
                None => None,
            },
            tool_call_id: opt_str_view(self.tool_call_id),
            thinking: opt_str_view(self.thinking),
        }
    }
}

pub open spec fn llm_message_views(v: Seq<LlmMessage>) -> Seq<LlmMessageView> {
    v.map_values(|m: LlmMessage| m@)
}

/// The model of a tool definition.
pub struct UnifiedToolView {
    pub name: Seq<char>,
    pub description: Seq<char>,
    pub parameters: Json,
}

impl View for UnifiedTool {
    type V = UnifiedToolView;

    open spec fn view(&self) -> UnifiedToolView {
        UnifiedToolView {
            name: self.name@,
            description: self.description@,
            parameters: self.parameters@,
        }
    }
}

pub open spec fn tool_views(v: Seq<UnifiedTool>) -> Seq<UnifiedToolView> {
    v.map_values(|t: UnifiedTool| t@)
}

/// Unified tool definition (serialized per protocol at the boundary).
#[derive(Debug)]
pub struct UnifiedTool {
    pub name: String,
    pub description: String,
    pub parameters: JsonValue,
}

} // verus!
