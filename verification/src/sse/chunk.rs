//! The chunks in which a chat completions provider sends a response.

use vstd::prelude::*;

use crate::protocol::TokenUsage;

verus! {

/// One chunk of a response.
#[derive(Debug, Clone, PartialEq, Eq)]
pub struct ChatCompletionChunk {
    pub id: Option<String>,
    pub choices: Vec<ChatCompletionChoice>,
    pub usage: Option<ChatUsage>,
}

/// What a `ChatCompletionChunk` holds.
#[verifier::ext_equal]
pub struct ChatCompletionChunkView {
    pub id: Option<Seq<char>>,
    pub choices: Seq<ChatCompletionChoiceView>,
    pub usage: Option<ChatUsage>,
}

impl DeepView for ChatCompletionChunk {
    type V = ChatCompletionChunkView;

    open spec fn deep_view(&self) -> ChatCompletionChunkView {
        ChatCompletionChunkView {
            id: self.id.deep_view(),
            choices: self.choices.deep_view(),
            usage: self.usage,
        }
    }
}

/// What a chunk adds to one of the answers.
#[derive(Debug, Clone, PartialEq, Eq)]
pub struct ChatCompletionChoice {
    pub index: i64,
    pub delta: ChatCompletionDelta,
    pub finish_reason: Option<String>,
}

/// What a `ChatCompletionChoice` holds.
#[verifier::ext_equal]
pub struct ChatCompletionChoiceView {
    pub index: i64,
    pub delta: ChatCompletionDeltaView,
    pub finish_reason: Option<Seq<char>>,
}

impl DeepView for ChatCompletionChoice {
    type V = ChatCompletionChoiceView;

    open spec fn deep_view(&self) -> ChatCompletionChoiceView {
        ChatCompletionChoiceView {
            index: self.index,
            delta: self.delta.deep_view(),
            finish_reason: self.finish_reason.deep_view(),
        }
    }
}

/// The parts of an answer that are new.
#[derive(Debug, Clone, PartialEq, Eq)]
pub struct ChatCompletionDelta {
    pub content: Option<String>,
    pub reasoning_content: Option<String>,
    pub tool_calls: Option<Vec<ChatToolCallDelta>>,
}

/// What a `ChatCompletionDelta` holds.
#[verifier::ext_equal]
pub struct ChatCompletionDeltaView {
    pub content: Option<Seq<char>>,
    pub reasoning_content: Option<Seq<char>>,
    pub tool_calls: Option<Seq<ChatToolCallDeltaView>>,
}

impl DeepView for ChatCompletionDelta {
    type V = ChatCompletionDeltaView;

    open spec fn deep_view(&self) -> ChatCompletionDeltaView {
        ChatCompletionDeltaView {
            content: self.content.deep_view(),
            reasoning_content: self.reasoning_content.deep_view(),
            tool_calls: self.tool_calls.deep_view(),
        }
    }
}

/// The parts of a tool call that are new.
#[derive(Debug, Clone, PartialEq, Eq)]
pub struct ChatToolCallDelta {
    pub index: i64,
    pub id: Option<String>,
    pub function: Option<ChatFunctionDelta>,
}

/// What a `ChatToolCallDelta` holds.
#[verifier::ext_equal]
pub struct ChatToolCallDeltaView {
    pub index: i64,
    pub id: Option<Seq<char>>,
    pub function: Option<ChatFunctionDeltaView>,
}

impl DeepView for ChatToolCallDelta {
    type V = ChatToolCallDeltaView;

    open spec fn deep_view(&self) -> ChatToolCallDeltaView {
        ChatToolCallDeltaView {
            index: self.index,
            id: self.id.deep_view(),
            function: self.function.deep_view(),
        }
    }
}

/// The parts of the called function that are new.
#[derive(Debug, Clone, PartialEq, Eq)]
pub struct ChatFunctionDelta {
    pub name: Option<String>,
    pub arguments: Option<String>,
}

/// What a `ChatFunctionDelta` holds.
#[verifier::ext_equal]
pub struct ChatFunctionDeltaView {
    pub name: Option<Seq<char>>,
    pub arguments: Option<Seq<char>>,
}

impl DeepView for ChatFunctionDelta {
    type V = ChatFunctionDeltaView;

    open spec fn deep_view(&self) -> ChatFunctionDeltaView {
        ChatFunctionDeltaView {
            name: self.name.deep_view(),
            arguments: self.arguments.deep_view(),
        }
    }
}

/// The tokens that a response took, as the provider counts them.
#[derive(Debug, Clone, Copy, PartialEq, Eq, Structural)]
pub struct ChatUsage {
    pub prompt_tokens: i64,
    pub completion_tokens: i64,
    pub total_tokens: i64,
    pub completion_tokens_details: Option<ChatCompletionTokensDetails>,
    pub prompt_tokens_details: Option<ChatPromptTokensDetails>,
}

#[derive(Debug, Clone, Copy, PartialEq, Eq, Structural)]
pub struct ChatCompletionTokensDetails {
    pub reasoning_tokens: Option<i64>,
}

#[derive(Debug, Clone, Copy, PartialEq, Eq, Structural)]
pub struct ChatPromptTokensDetails {
    pub cached_tokens: Option<i64>,
}

/// The usage that the provider reports, with 0 for a count that it left out.
pub open spec fn token_usage(usage: ChatUsage) -> TokenUsage {
    TokenUsage {
        input_tokens: usage.prompt_tokens,
        cached_input_tokens: match usage.prompt_tokens_details {
            Some(ChatPromptTokensDetails { cached_tokens: Some(n) }) => n,
            _ => 0,
        },
        output_tokens: usage.completion_tokens,
        reasoning_output_tokens: match usage.completion_tokens_details {
            Some(ChatCompletionTokensDetails { reasoning_tokens: Some(n) }) => n,
            _ => 0,
        },
        total_tokens: usage.total_tokens,
    }
}

impl From<ChatUsage> for TokenUsage {
    fn from(usage: ChatUsage) -> (tokens: Self) {
        let cached: i64 = match usage.prompt_tokens_details {
            Some(details) => details.cached_tokens.unwrap_or(0),
            None => 0,
        };
        let reasoning: i64 = match usage.completion_tokens_details {
            Some(details) => details.reasoning_tokens.unwrap_or(0),
            None => 0,
        };
        TokenUsage {
            input_tokens: usage.prompt_tokens,
            cached_input_tokens: cached,
            output_tokens: usage.completion_tokens,
            reasoning_output_tokens: reasoning,
            total_tokens: usage.total_tokens,
        }
    }
}

impl vstd::std_specs::convert::FromSpecImpl<ChatUsage> for TokenUsage {
    open spec fn obeys_from_spec() -> bool {
        true
    }

    open spec fn from_spec(usage: ChatUsage) -> TokenUsage {
        token_usage(usage)
    }
}

} // verus!
