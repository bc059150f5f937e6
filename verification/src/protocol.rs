//! The items and events that the two ends of a conversation exchange.

use serde_json::Value;
use vstd::prelude::*;

use crate::json::{json_seq, Json};

verus! {

/// The tokens that a response took.
#[derive(Debug, Clone, Copy, PartialEq, Eq, Structural)]
pub struct TokenUsage {
    pub input_tokens: i64,
    pub cached_input_tokens: i64,
    pub output_tokens: i64,
    pub reasoning_output_tokens: i64,
    pub total_tokens: i64,
}

impl DeepView for TokenUsage {
    type V = TokenUsage;

    open spec fn deep_view(&self) -> TokenUsage {
        *self
    }
}

/// A piece of a message.
#[derive(Debug, Clone, PartialEq, Eq)]
pub enum ContentItem {
    InputText { text: String },
    InputImage { image_url: String, detail: Option<String> },
    OutputText { text: String },
}

/// What a `ContentItem` holds.
#[verifier::ext_equal]
pub enum ContentItemView {
    InputText { text: Seq<char> },
    InputImage { image_url: Seq<char>, detail: Option<Seq<char>> },
    OutputText { text: Seq<char> },
}

impl DeepView for ContentItem {
    type V = ContentItemView;

    open spec fn deep_view(&self) -> ContentItemView {
        match self {
            ContentItem::InputText { text } => ContentItemView::InputText { text: text@ },
            ContentItem::InputImage { image_url, detail } => ContentItemView::InputImage {
                image_url: image_url@,
                detail: detail.deep_view(),
            },
            ContentItem::OutputText { text } => ContentItemView::OutputText { text: text@ },
        }
    }
}

/// A piece of what the model thought.
#[derive(Debug, Clone, PartialEq, Eq)]
pub enum ReasoningItemContent {
    ReasoningText { text: String },
    Text { text: String },
}

/// What a `ReasoningItemContent` holds.
#[verifier::ext_equal]
pub enum ReasoningItemContentView {
    ReasoningText { text: Seq<char> },
    Text { text: Seq<char> },
}

impl DeepView for ReasoningItemContent {
    type V = ReasoningItemContentView;

    open spec fn deep_view(&self) -> ReasoningItemContentView {
        match self {
            ReasoningItemContent::ReasoningText { text } => {
                ReasoningItemContentView::ReasoningText { text: text@ }
            },
            ReasoningItemContent::Text { text } => ReasoningItemContentView::Text { text: text@ },
        }
    }
}

/// What a tool answered, as plain text where it has such a form.
#[derive(Debug, Clone, PartialEq, Eq)]
pub struct FunctionCallOutputPayload {
    pub text: Option<String>,
}

impl FunctionCallOutputPayload {
    /// An answer that is a text.
    pub fn from_text(text: String) -> (payload: Self)
        ensures
            payload.deep_view() == Some(text@),
    {
        FunctionCallOutputPayload { text: Some(text) }
    }
}

impl DeepView for FunctionCallOutputPayload {
    type V = Option<Seq<char>>;

    open spec fn deep_view(&self) -> Option<Seq<char>> {
        self.text.deep_view()
    }
}

/// An item of a conversation.
#[derive(Debug, Clone, PartialEq)]
pub enum ResponseItem {
    Message {
        id: Option<String>,
        role: String,
        content: Vec<ContentItem>,
        end_turn: Option<bool>,
        phase: Option<String>,
    },
    Reasoning {
        id: String,
        summary: Vec<String>,
        content: Option<Vec<ReasoningItemContent>>,
        encrypted_content: Option<String>,
    },
    FunctionCall {
        id: Option<String>,
        name: String,
        namespace: Option<String>,
        arguments: String,
        call_id: String,
    },
    FunctionCallOutput { call_id: String, output: FunctionCallOutputPayload },
    CustomToolCallOutput {
        call_id: String,
        name: Option<String>,
        output: FunctionCallOutputPayload,
    },
    ToolSearchOutput { call_id: Option<String>, tools: Vec<Value> },
    /// Any item that a chat completions provider has no message for.
    Other,
}

/// What a `ResponseItem` holds.
#[verifier::ext_equal]
pub enum ResponseItemView {
    Message {
        id: Option<Seq<char>>,
        role: Seq<char>,
        content: Seq<ContentItemView>,
        end_turn: Option<bool>,
        phase: Option<Seq<char>>,
    },
    Reasoning {
        id: Seq<char>,
        summary: Seq<Seq<char>>,
        content: Option<Seq<ReasoningItemContentView>>,
        encrypted_content: Option<Seq<char>>,
    },
    FunctionCall {
        id: Option<Seq<char>>,
        name: Seq<char>,
        namespace: Option<Seq<char>>,
        arguments: Seq<char>,
        call_id: Seq<char>,
    },
    FunctionCallOutput { call_id: Seq<char>, output: Option<Seq<char>> },
    CustomToolCallOutput {
        call_id: Seq<char>,
        name: Option<Seq<char>>,
        output: Option<Seq<char>>,
    },
    ToolSearchOutput { call_id: Option<Seq<char>>, tools: Seq<Json> },
    Other,
}

impl DeepView for ResponseItem {
    type V = ResponseItemView;

    open spec fn deep_view(&self) -> ResponseItemView {
        match self {
            ResponseItem::Message { id, role, content, end_turn, phase } => {
                ResponseItemView::Message {
                    id: id.deep_view(),
                    role: role@,
                    content: content.deep_view(),
                    end_turn: *end_turn,
                    phase: phase.deep_view(),
                }
            },
            ResponseItem::Reasoning { id, summary, content, encrypted_content } => {
                ResponseItemView::Reasoning {
                    id: id@,
                    summary: summary.deep_view(),
                    content: content.deep_view(),
                    encrypted_content: encrypted_content.deep_view(),
                }
            },
            ResponseItem::FunctionCall { id, name, namespace, arguments, call_id } => {
                ResponseItemView::FunctionCall {
                    id: id.deep_view(),
                    name: name@,
                    namespace: namespace.deep_view(),
                    arguments: arguments@,
                    call_id: call_id@,
                }
            },
            ResponseItem::FunctionCallOutput { call_id, output } => {
                ResponseItemView::FunctionCallOutput {
                    call_id: call_id@,
                    output: output.deep_view(),
                }
            },
            ResponseItem::CustomToolCallOutput { call_id, name, output } => {
                ResponseItemView::CustomToolCallOutput {
                    call_id: call_id@,
                    name: name.deep_view(),
                    output: output.deep_view(),
                }
            },
            ResponseItem::ToolSearchOutput { call_id, tools } => {
                ResponseItemView::ToolSearchOutput {
                    call_id: call_id.deep_view(),
                    tools: json_seq(tools@),
                }
            },
            ResponseItem::Other => ResponseItemView::Other,
        }
    }
}

/// Something that happened while a response streamed in.
#[derive(Debug, Clone, PartialEq)]
pub enum ResponseEvent {
    Created,
    OutputItemAdded(ResponseItem),
    OutputItemDone(ResponseItem),
    OutputTextDelta(String),
    ReasoningContentDelta { delta: String, content_index: i64 },
    ToolCallInputDelta { item_id: String, call_id: Option<String>, delta: String },
    Completed { response_id: String, token_usage: Option<TokenUsage> },
}

/// What a `ResponseEvent` holds.
#[verifier::ext_equal]
pub enum ResponseEventView {
    Created,
    OutputItemAdded(ResponseItemView),
    OutputItemDone(ResponseItemView),
    OutputTextDelta(Seq<char>),
    ReasoningContentDelta { delta: Seq<char>, content_index: i64 },
    ToolCallInputDelta { item_id: Seq<char>, call_id: Option<Seq<char>>, delta: Seq<char> },
    Completed { response_id: Seq<char>, token_usage: Option<TokenUsage> },
}

impl DeepView for ResponseEvent {
    type V = ResponseEventView;

    open spec fn deep_view(&self) -> ResponseEventView {
        match self {
            ResponseEvent::Created => ResponseEventView::Created,
            ResponseEvent::OutputItemAdded(item) => {
                ResponseEventView::OutputItemAdded(item.deep_view())
            },
            ResponseEvent::OutputItemDone(item) => {
                ResponseEventView::OutputItemDone(item.deep_view())
            },
            ResponseEvent::OutputTextDelta(delta) => ResponseEventView::OutputTextDelta(delta@),
            ResponseEvent::ReasoningContentDelta { delta, content_index } => {
                ResponseEventView::ReasoningContentDelta {
                    delta: delta@,
                    content_index: *content_index,
                }
            },
            ResponseEvent::ToolCallInputDelta { item_id, call_id, delta } => {
                ResponseEventView::ToolCallInputDelta {
                    item_id: item_id@,
                    call_id: call_id.deep_view(),
                    delta: delta@,
                }
            },
            ResponseEvent::Completed { response_id, token_usage } => {
                ResponseEventView::Completed {
                    response_id: response_id@,
                    token_usage: *token_usage,
                }
            },
        }
    }
}

/// Why a request or a stream failed.
#[derive(Debug, Clone, PartialEq, Eq)]
pub enum ApiError {
    Stream(String),
    InvalidRequest { message: String },
}

/// What an `ApiError` holds.
#[verifier::ext_equal]
pub enum ApiErrorView {
    Stream(Seq<char>),
    InvalidRequest { message: Seq<char> },
}

impl DeepView for ApiError {
    type V = ApiErrorView;

    open spec fn deep_view(&self) -> ApiErrorView {
        match self {
            ApiError::Stream(message) => ApiErrorView::Stream(message@),
            ApiError::InvalidRequest { message } => {
                ApiErrorView::InvalidRequest { message: message@ }
            },
        }
    }
}

} // verus!
