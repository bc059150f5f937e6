//! A request as the conversation makes it, before it is put into the words of
//! a provider.

use serde_json::Value;
use vstd::prelude::*;

use crate::json::{json_seq, Json};
use crate::protocol::{ResponseItem, ResponseItemView};

verus! {

/// How hard the model is to think.
#[derive(Debug, Clone, Copy, PartialEq, Eq, Structural)]
pub enum ReasoningEffort {
    Off,
    Minimal,
    Low,
    Medium,
    High,
    XHigh,
}

/// How much of its thinking the model is to sum up.
#[derive(Debug, Clone, Copy, PartialEq, Eq, Structural)]
pub enum ReasoningSummary {
    Auto,
    Concise,
    Detailed,
    Off,
}

/// What is asked of the model's thinking.
#[derive(Debug, Clone, Copy, PartialEq, Eq, Structural)]
pub struct Reasoning {
    pub effort: Option<ReasoningEffort>,
    pub summary: Option<ReasoningSummary>,
}

/// How long the answer is to be.
#[derive(Debug, Clone, Copy, PartialEq, Eq, Structural)]
pub enum Verbosity {
    Low,
    Medium,
    High,
}

/// The kinds of form that an answer can be held to.
#[derive(Debug, Clone, Copy, PartialEq, Eq, Structural)]
pub enum TextFormatType {
    JsonSchema,
}

/// The form that the answer is held to.
#[derive(Debug, PartialEq)]
pub struct TextFormat {
    pub kind: TextFormatType,
    pub strict: bool,
    pub schema: Value,
    pub name: String,
}

/// What is asked of the text of the answer.
#[derive(Debug, PartialEq)]
pub struct TextControls {
    pub verbosity: Option<Verbosity>,
    pub format: Option<TextFormat>,
}

/// A request.
#[derive(Debug, PartialEq)]
pub struct ResponsesApiRequest {
    pub model: String,
    pub instructions: String,
    pub input: Vec<ResponseItem>,
    pub tools: Vec<Value>,
    pub tool_choice: String,
    pub parallel_tool_calls: bool,
    pub reasoning: Option<Reasoning>,
    pub store: bool,
    pub stream: bool,
    pub include_fields: Vec<String>,
    pub service_tier: Option<String>,
    pub prompt_cache_key: Option<String>,
    pub text: Option<TextControls>,
    pub client_metadata: Option<Vec<(String, String)>>,
}

/// What a chat completions provider is told of a request.
#[verifier::ext_equal]
pub struct ResponsesApiRequestView {
    pub model: Seq<char>,
    pub instructions: Seq<char>,
    pub input: Seq<ResponseItemView>,
    pub tools: Seq<Json>,
    pub reasoning: Option<Reasoning>,
    pub has_text_format: bool,
}

/// The answer is held to a form.
pub open spec fn has_text_format(text: Option<TextControls>) -> bool {
    text matches Some(text) && text.format is Some
}

impl DeepView for ResponsesApiRequest {
    type V = ResponsesApiRequestView;

    open spec fn deep_view(&self) -> ResponsesApiRequestView {
        ResponsesApiRequestView {
            model: self.model@,
            instructions: self.instructions@,
            input: self.input.deep_view(),
            tools: json_seq(self.tools@),
            reasoning: self.reasoning,
            has_text_format: has_text_format(self.text),
        }
    }
}

} // verus!
