//! What the contracts speak of is what the values hold: every field, as it is.

use vstd::prelude::*;

use crate::endpoint::chat_completions::{
    ChatCompletionsRequest, ChatMessage, ChatResponseFormat, ChatTool, ChatToolCall,
};
use crate::endpoint::responses::ResponsesApiRequest;
use crate::endpoint::stream_request::{ChatCompletionsOptions, StreamCall};
use crate::headers::headers_of;
use crate::json::{json_of, json_seq};
use crate::protocol::{
    ApiError, ApiErrorView, ContentItem, ContentItemView, FunctionCallOutputPayload,
    ReasoningItemContent, ReasoningItemContentView, ResponseEvent, ResponseEventView, ResponseItem,
    ResponseItemView,
};
use crate::sse::chat_completions::{
    ChatCompletionsState, ChatPoll, ChatPollView, ToolCallAccumulator,
};
use crate::sse::chunk::{
    ChatCompletionChoice, ChatCompletionChunk, ChatCompletionDelta, ChatFunctionDelta,
    ChatToolCallDelta,
};
use crate::sse::outbox::{outputs_view, StreamOutput};
use crate::sse::zai_chat::{json_of_option, ToolCallState, ZaiChatState, ZaiPoll, ZaiPollView};

verus! {

/// The pieces of a message and of reasoning are seen with their texts.
pub proof fn law_pieces_are_seen(text: String, image_url: String, detail: Option<String>)
    ensures
        (ContentItem::InputText { text }).deep_view() == (ContentItemView::InputText {
            text: text@,
        }),
        (ContentItem::OutputText { text }).deep_view() == (ContentItemView::OutputText {
            text: text@,
        }),
        (ContentItem::InputImage { image_url, detail }).deep_view() == (
        ContentItemView::InputImage { image_url: image_url@, detail: detail.deep_view() }),
        (ReasoningItemContent::ReasoningText { text }).deep_view() == (
        ReasoningItemContentView::ReasoningText { text: text@ }),
        (ReasoningItemContent::Text { text }).deep_view() == (ReasoningItemContentView::Text {
            text: text@,
        }),
        (FunctionCallOutputPayload { text: Some(text) }).deep_view() == Some(text@),
        (FunctionCallOutputPayload { text: None }).deep_view() is None,
{
}

/// An item of a conversation is seen as what it is, with all that it holds.
pub proof fn law_items_are_seen(item: ResponseItem)
    ensures
        item matches ResponseItem::Message { id, role, content, end_turn, phase }
            ==> item.deep_view() == (ResponseItemView::Message {
            id: id.deep_view(),
            role: role@,
            content: content.deep_view(),
            end_turn,
            phase: phase.deep_view(),
        }),
        item matches ResponseItem::Reasoning { id, summary, content, encrypted_content }
            ==> item.deep_view() == (ResponseItemView::Reasoning {
            id: id@,
            summary: summary.deep_view(),
            content: content.deep_view(),
            encrypted_content: encrypted_content.deep_view(),
        }),
        item matches ResponseItem::FunctionCall { id, name, namespace, arguments, call_id }
            ==> item.deep_view() == (ResponseItemView::FunctionCall {
            id: id.deep_view(),
            name: name@,
            namespace: namespace.deep_view(),
            arguments: arguments@,
            call_id: call_id@,
        }),
        item matches ResponseItem::FunctionCallOutput { call_id, output } ==> item.deep_view() == (
        ResponseItemView::FunctionCallOutput {
            call_id: call_id@,
            output: output.text.deep_view(),
        }),
        item matches ResponseItem::CustomToolCallOutput { call_id, name, output }
            ==> item.deep_view() == (ResponseItemView::CustomToolCallOutput {
            call_id: call_id@,
            name: name.deep_view(),
            output: output.text.deep_view(),
        }),
        item matches ResponseItem::ToolSearchOutput { call_id, tools } ==> item.deep_view() == (
        ResponseItemView::ToolSearchOutput {
            call_id: call_id.deep_view(),
            tools: json_seq(tools@),
        }),
        item is Other ==> item.deep_view() is Other,
{
}

/// A sequence of documents is seen document by document.
pub proof fn law_documents_are_seen(values: Seq<serde_json::Value>, value: &serde_json::Value)
    ensures
        json_seq(values).len() == values.len(),
        forall|i: int|
            0 <= i < values.len() ==> #[trigger] json_seq(values)[i] == json_of(values[i]),
        json_of_option(Some(value)) == Some(json_of(*value)),
        json_of_option(None) is None,
{
}

/// An event is seen as what it is, with all that it holds, and so is an error.
pub proof fn law_events_are_seen(event: ResponseEvent, message: String)
    ensures
        event is Created ==> event.deep_view() is Created,
        event matches ResponseEvent::OutputItemAdded(item) ==> event.deep_view()
            == ResponseEventView::OutputItemAdded(item.deep_view()),
        event matches ResponseEvent::OutputItemDone(item) ==> event.deep_view()
            == ResponseEventView::OutputItemDone(item.deep_view()),
        event matches ResponseEvent::OutputTextDelta(text) ==> event.deep_view()
            == ResponseEventView::OutputTextDelta(text@),
        event matches ResponseEvent::ReasoningContentDelta { delta, content_index }
            ==> event.deep_view() == (ResponseEventView::ReasoningContentDelta {
            delta: delta@,
            content_index,
        }),
        event matches ResponseEvent::ToolCallInputDelta { item_id, call_id, delta }
            ==> event.deep_view() == (ResponseEventView::ToolCallInputDelta {
            item_id: item_id@,
            call_id: call_id.deep_view(),
            delta: delta@,
        }),
        event matches ResponseEvent::Completed { response_id, token_usage } ==> event.deep_view()
            == (ResponseEventView::Completed { response_id: response_id@, token_usage }),
        ApiError::Stream(message).deep_view() == ApiErrorView::Stream(message@),
        (ApiError::InvalidRequest { message }).deep_view() == (ApiErrorView::InvalidRequest {
            message: message@,
        }),
{
}

/// The outputs of a stream are seen one by one.
pub proof fn law_outputs_are_seen(outputs: Seq<StreamOutput>)
    ensures
        outputs_view(outputs).len() == outputs.len(),
        forall|i: int|
            0 <= i < outputs.len() ==> #[trigger] outputs_view(outputs)[i] == (match outputs[i] {
                Ok(event) => Ok::<ResponseEventView, ApiErrorView>(event.deep_view()),
                Err(error) => Err::<ResponseEventView, ApiErrorView>(error.deep_view()),
            }),
{
}

/// A chunk is seen with all that it holds.
pub proof fn law_chunks_are_seen(
    chunk: ChatCompletionChunk,
    choice: ChatCompletionChoice,
    delta: ChatCompletionDelta,
    call: ChatToolCallDelta,
    function: ChatFunctionDelta,
)
    ensures
        chunk.deep_view().id == chunk.id.deep_view(),
        chunk.deep_view().choices == chunk.choices.deep_view(),
        chunk.deep_view().usage == chunk.usage,
        choice.deep_view().index == choice.index,
        choice.deep_view().delta == choice.delta.deep_view(),
        choice.deep_view().finish_reason == choice.finish_reason.deep_view(),
        delta.deep_view().content == delta.content.deep_view(),
        delta.deep_view().reasoning_content == delta.reasoning_content.deep_view(),
        delta.deep_view().tool_calls == delta.tool_calls.deep_view(),
        call.deep_view().index == call.index,
        call.deep_view().id == call.id.deep_view(),
        call.deep_view().function == call.function.deep_view(),
        function.deep_view().name == function.name.deep_view(),
        function.deep_view().arguments == function.arguments.deep_view(),
{
}

/// A poll is seen as what it is, with all that it gave.
pub proof fn law_polls_are_seen(poll: ChatPoll, other: ZaiPoll)
    ensures
        poll matches ChatPoll::Event { data, chunk } ==> poll.deep_view() == (
        ChatPollView::Event {
            data: data@,
            chunk: match chunk {
                Ok(chunk) => Ok(chunk.deep_view()),
                Err(message) => Err(message@),
            },
        }),
        poll matches ChatPoll::DecodeError(message) ==> poll.deep_view()
            == ChatPollView::DecodeError(message@),
        poll is Closed ==> poll.deep_view() is Closed,
        poll is IdleTimeout ==> poll.deep_view() is IdleTimeout,
        other matches ZaiPoll::Event(data) ==> other.deep_view() == ZaiPollView::Event(data@),
        other matches ZaiPoll::DecodeError(message) ==> other.deep_view()
            == ZaiPollView::DecodeError(message@),
        other is Closed ==> other.deep_view() is Closed,
        other matches ZaiPoll::IdleTimeout { millis } ==> other.deep_view() == (
        ZaiPollView::IdleTimeout { millis }),
{
}

/// What is remembered of a response is seen with all that it holds.
pub proof fn law_states_are_seen(
    state: ChatCompletionsState,
    call: ToolCallAccumulator,
    index: i64,
    other: ZaiChatState,
    other_call: ToolCallState,
    other_index: usize,
)
    ensures
        state.deep_view().response_id == state.response_id.deep_view(),
        state.deep_view().usage == state.usage,
        state.deep_view().created_sent == state.created_sent,
        state.deep_view().completed_sent == state.completed_sent,
        state.deep_view().message_item_started == state.message_item_started,
        state.deep_view().reasoning_item_started == state.reasoning_item_started,
        state.deep_view().tool_calls.contains_key(index) <==> state.tool_calls@.contains_key(index),
        state.tool_calls@.contains_key(index) ==> state.deep_view().tool_calls[index]
            == state.tool_calls@[index].deep_view(),
        call.deep_view().id == call.id.deep_view(),
        call.deep_view().name == call.name.deep_view(),
        call.deep_view().arguments == call.arguments@,
        other.deep_view().assistant_text == other.assistant_text@,
        other.deep_view().reasoning_text == other.reasoning_text@,
        other.deep_view().response_id == other.response_id@,
        other.deep_view().usage == other.usage,
        other.deep_view().tool_calls.contains_key(other_index)
            <==> other.tool_calls@.contains_key(other_index),
        other.tool_calls@.contains_key(other_index) ==> other.deep_view().tool_calls[other_index]
            == other.tool_calls@[other_index].deep_view(),
        other_call.deep_view().id == other_call.id.deep_view(),
        other_call.deep_view().name == other_call.name@,
        other_call.deep_view().arguments == other_call.arguments@,
{
}

/// A request is seen with all of it that concerns a provider.
pub proof fn law_requests_are_seen(request: ResponsesApiRequest)
    ensures
        request.deep_view().model == request.model@,
        request.deep_view().instructions == request.instructions@,
        request.deep_view().input == request.input.deep_view(),
        request.deep_view().tools == json_seq(request.tools@),
        request.deep_view().reasoning == request.reasoning,
        request.deep_view().has_text_format <==> request.text is Some
            && request.text->Some_0.format is Some,
{
}

/// What is sent to a provider is seen with all that it holds.
pub proof fn law_sent_requests_are_seen(
    request: ChatCompletionsRequest,
    message: ChatMessage,
    call: ChatToolCall,
    tool: ChatTool,
    format: ChatResponseFormat,
)
    ensures
        request.deep_view().model == request.model@,
        request.deep_view().messages == request.messages.deep_view(),
        request.deep_view().stream == request.stream,
        request.deep_view().tool_stream == request.tool_stream,
        request.deep_view().tools == request.tools.deep_view(),
        request.deep_view().tool_choice == request.tool_choice.deep_view(),
        request.deep_view().thinking == request.thinking,
        request.deep_view().response_format == request.response_format.deep_view(),
        message.deep_view().role == message.role@,
        message.deep_view().content == message.content.deep_view(),
        message.deep_view().tool_calls == message.tool_calls.deep_view(),
        message.deep_view().tool_call_id == message.tool_call_id.deep_view(),
        message.deep_view().name == message.name.deep_view(),
        call.deep_view().id == call.id@,
        call.deep_view().kind == call.kind@,
        call.deep_view().name == call.function.name@,
        call.deep_view().arguments == call.function.arguments@,
        tool.deep_view().kind == tool.kind@,
        tool.deep_view().name == tool.function.name@,
        tool.deep_view().description == tool.function.description@,
        tool.deep_view().parameters == json_of(tool.function.parameters),
        format.deep_view() == format.kind@,
{
}

/// A call and what is said about it are seen with all that they hold.
pub proof fn law_calls_are_seen(call: StreamCall, options: ChatCompletionsOptions)
    ensures
        call.deep_view().method == call.method@,
        call.deep_view().path == call.path@,
        call.deep_view().headers == headers_of(call.headers),
        call.deep_view().body == call.body.deep_view(),
        call.deep_view().compression == call.compression,
        options.deep_view().conversation_id == options.conversation_id.deep_view(),
        options.deep_view().conversation_headers == headers_of(options.conversation_headers),
        options.deep_view().subagent == options.subagent.deep_view(),
        options.deep_view().extra_headers == headers_of(options.extra_headers),
        options.deep_view().compression == options.compression,
{
}

} // verus!
