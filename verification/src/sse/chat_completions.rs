//! The stream of a chat completions provider.
//!
//! `ChatCompletionsState` is what is remembered between two events of the
//! stream. Each poll of the stream is one `step`, which says what is handed to
//! the reader and whether the stream is over.

use std::collections::BTreeMap;
use vstd::prelude::*;
use vstd::std_specs::btree::*;

use crate::protocol::{
    ApiError, ApiErrorView, ContentItem, ContentItemView, ReasoningItemContent,
    ReasoningItemContentView, ResponseEvent, ResponseEventView, ResponseItem, ResponseItemView,
    TokenUsage,
};
use crate::sse::chunk::{
    token_usage, ChatCompletionChoice, ChatCompletionChoiceView, ChatCompletionChunk,
    ChatCompletionChunkView, ChatToolCallDelta, ChatToolCallDeltaView,
};
use crate::sse::order::{increasing, lemma_increasing_i64, lemma_ordered_keys, ordered_keys};
use crate::sse::outbox::{outputs_view, Outbox, StreamOutput, StreamOutputView, StreamStep};
use crate::text::{copy_text, same_text, signed_decimal, signed_decimal_text, trim, trimmed};
use crate::tool_name::{decode_chat_tool_name, decoded_tool_name};
use vstd::string::*;

verus! {

/// A tool call, as far as it has come in.
#[derive(Debug)]
pub struct ToolCallAccumulator {
    pub id: Option<String>,
    pub name: Option<String>,
    pub arguments: String,
}

/// What a `ToolCallAccumulator` holds.
#[verifier::ext_equal]
pub struct ToolCallAccumulatorView {
    pub id: Option<Seq<char>>,
    pub name: Option<Seq<char>>,
    pub arguments: Seq<char>,
}

impl DeepView for ToolCallAccumulator {
    type V = ToolCallAccumulatorView;

    open spec fn deep_view(&self) -> ToolCallAccumulatorView {
        ToolCallAccumulatorView {
            id: self.id.deep_view(),
            name: self.name.deep_view(),
            arguments: self.arguments@,
        }
    }
}

/// The tool calls of a response, each under its index.
pub type ToolCallsView = Map<i64, ToolCallAccumulatorView>;

/// What is remembered of a response while it streams in.
#[derive(Debug)]
pub struct ChatCompletionsState {
    pub response_id: Option<String>,
    pub usage: Option<TokenUsage>,
    pub created_sent: bool,
    pub completed_sent: bool,
    pub message_item_started: bool,
    pub reasoning_item_started: bool,
    pub tool_calls: BTreeMap<i64, ToolCallAccumulator>,
}

/// What a `ChatCompletionsState` holds.
#[verifier::ext_equal]
pub struct ChatCompletionsStateView {
    pub response_id: Option<Seq<char>>,
    pub usage: Option<TokenUsage>,
    pub created_sent: bool,
    pub completed_sent: bool,
    pub message_item_started: bool,
    pub reasoning_item_started: bool,
    pub tool_calls: ToolCallsView,
}

/// What each tool call of a map holds.
pub open spec fn tool_calls_view(calls: Map<i64, ToolCallAccumulator>) -> ToolCallsView {
    calls.map_values(|call: ToolCallAccumulator| call.deep_view())
}

impl DeepView for ChatCompletionsState {
    type V = ChatCompletionsStateView;

    open spec fn deep_view(&self) -> ChatCompletionsStateView {
        ChatCompletionsStateView {
            response_id: self.response_id.deep_view(),
            usage: self.usage,
            created_sent: self.created_sent,
            completed_sent: self.completed_sent,
            message_item_started: self.message_item_started,
            reasoning_item_started: self.reasoning_item_started,
            tool_calls: tool_calls_view(self.tool_calls@),
        }
    }
}

/// What polling the stream gave.
#[derive(Debug)]
pub enum ChatPoll {
    /// An event, with its data read as a chunk, or why that failed.
    Event { data: String, chunk: Result<ChatCompletionChunk, String> },
    /// The stream could not be decoded.
    DecodeError(String),
    /// The stream ended.
    Closed,
    /// Nothing came in for too long.
    IdleTimeout,
}

/// What a `ChatPoll` holds.
#[verifier::ext_equal]
pub enum ChatPollView {
    Event { data: Seq<char>, chunk: Result<ChatCompletionChunkView, Seq<char>> },
    DecodeError(Seq<char>),
    Closed,
    IdleTimeout,
}

impl DeepView for ChatPoll {
    type V = ChatPollView;

    open spec fn deep_view(&self) -> ChatPollView {
        match self {
            ChatPoll::Event { data, chunk } => ChatPollView::Event {
                data: data@,
                chunk: match chunk {
                    Ok(chunk) => Ok(chunk.deep_view()),
                    Err(message) => Err(message@),
                },
            },
            ChatPoll::DecodeError(message) => ChatPollView::DecodeError(message@),
            ChatPoll::Closed => ChatPollView::Closed,
            ChatPoll::IdleTimeout => ChatPollView::IdleTimeout,
        }
    }
}

/// What a step leads to: the next state, what is handed over on the way there,
/// and whether the stream is over.
#[verifier::ext_equal]
pub struct ChatOutcome {
    pub state: ChatCompletionsStateView,
    pub outputs: Seq<StreamOutputView>,
    pub finished: bool,
}

/// Nothing has come in yet.
pub open spec fn initial_chat_state() -> ChatCompletionsStateView {
    ChatCompletionsStateView {
        response_id: None,
        usage: None,
        created_sent: false,
        completed_sent: false,
        message_item_started: false,
        reasoning_item_started: false,
        tool_calls: Map::empty(),
    }
}

/// A tool call of which nothing has come in.
pub open spec fn empty_tool_call() -> ToolCallAccumulatorView {
    ToolCallAccumulatorView { id: None, name: None, arguments: Seq::empty() }
}

/// The arguments that a delta adds.
pub open spec fn delta_arguments(delta: ChatToolCallDeltaView) -> Option<Seq<char>> {
    match delta.function {
        Some(function) => function.arguments,
        None => None,
    }
}

/// The function name that a delta gives.
pub open spec fn delta_name(delta: ChatToolCallDeltaView) -> Option<Seq<char>> {
    match delta.function {
        Some(function) => function.name,
        None => None,
    }
}

/// The tool call under an index, as far as it has come in.
pub open spec fn tool_call_at(calls: ToolCallsView, index: i64) -> ToolCallAccumulatorView {
    if calls.contains_key(index) {
        calls[index]
    } else {
        empty_tool_call()
    }
}

/// A tool call with a delta added: a new id or name replaces the old one, new
/// arguments go behind the old ones.
pub open spec fn extended_tool_call(
    call: ToolCallAccumulatorView,
    delta: ChatToolCallDeltaView,
) -> ToolCallAccumulatorView {
    ToolCallAccumulatorView {
        id: if delta.id is Some {
            delta.id
        } else {
            call.id
        },
        name: if delta_name(delta) is Some {
            delta_name(delta)
        } else {
            call.name
        },
        arguments: match delta_arguments(delta) {
            Some(arguments) => call.arguments + arguments,
            None => call.arguments,
        },
    }
}

/// The tool calls with a delta added to the one that it speaks of.
pub open spec fn with_tool_call_delta(
    calls: ToolCallsView,
    delta: ChatToolCallDeltaView,
) -> ToolCallsView {
    calls.insert(delta.index, extended_tool_call(tool_call_at(calls, delta.index), delta))
}

/// What a delta is announced with: its arguments, under the id of the call, or
/// under its index as long as the id is not known.
pub open spec fn tool_call_delta_outputs(
    calls: ToolCallsView,
    delta: ChatToolCallDeltaView,
) -> Seq<StreamOutputView> {
    match delta_arguments(delta) {
        Some(arguments) => {
            let id = with_tool_call_delta(calls, delta)[delta.index].id;
            seq![
                Ok(
                    ResponseEventView::ToolCallInputDelta {
                        item_id: match id {
                            Some(id) => id,
                            None => signed_decimal(delta.index as int),
                        },
                        call_id: id,
                        delta: arguments,
                    },
                ),
            ]
        },
        None => Seq::empty(),
    }
}

/// The tool calls with several deltas added, first one first.
pub open spec fn with_tool_call_deltas(
    calls: ToolCallsView,
    deltas: Seq<ChatToolCallDeltaView>,
) -> ToolCallsView
    decreases deltas.len(),
{
    if deltas.len() == 0 {
        calls
    } else {
        with_tool_call_delta(with_tool_call_deltas(calls, deltas.drop_last()), deltas.last())
    }
}

/// What several deltas are announced with.
pub open spec fn tool_call_deltas_outputs(
    calls: ToolCallsView,
    deltas: Seq<ChatToolCallDeltaView>,
) -> Seq<StreamOutputView>
    decreases deltas.len(),
{
    if deltas.len() == 0 {
        Seq::empty()
    } else {
        tool_call_deltas_outputs(calls, deltas.drop_last()) + tool_call_delta_outputs(
            with_tool_call_deltas(calls, deltas.drop_last()),
            deltas.last(),
        )
    }
}

/// The tool call deltas of a choice.
pub open spec fn choice_tool_calls(choice: ChatCompletionChoiceView) -> Seq<ChatToolCallDeltaView> {
    match choice.delta.tool_calls {
        Some(deltas) => deltas,
        None => Seq::empty(),
    }
}

/// The item that announces the reasoning.
pub open spec fn reasoning_item(index: i64) -> ResponseItemView {
    ResponseItemView::Reasoning {
        id: "chatcmpl-reasoning-"@ + signed_decimal(index as int),
        summary: Seq::empty(),
        content: Some(seq![ReasoningItemContentView::ReasoningText { text: Seq::empty() }]),
        encrypted_content: None,
    }
}

/// The item that announces the answer.
pub open spec fn message_item(index: i64) -> ResponseItemView {
    ResponseItemView::Message {
        id: Some("chatcmpl-message-"@ + signed_decimal(index as int)),
        role: "assistant"@,
        content: seq![ContentItemView::OutputText { text: Seq::empty() }],
        end_turn: None,
        phase: None,
    }
}

/// What new reasoning is handed over with: its item, if that is still to be
/// announced, and the text.
pub open spec fn reasoning_outputs(
    started: bool,
    choice: ChatCompletionChoiceView,
) -> Seq<StreamOutputView> {
    match choice.delta.reasoning_content {
        Some(delta) => {
            let event: StreamOutputView = Ok(
                ResponseEventView::ReasoningContentDelta { delta, content_index: choice.index },
            );
            if started {
                seq![event]
            } else {
                seq![
                    Ok(ResponseEventView::OutputItemAdded(reasoning_item(choice.index))),
                    event,
                ]
            }
        },
        None => Seq::empty(),
    }
}

/// What new text of the answer is handed over with: its item, if that is still
/// to be announced, and the text.
pub open spec fn message_outputs(started: bool, choice: ChatCompletionChoiceView) -> Seq<
    StreamOutputView,
> {
    match choice.delta.content {
        Some(delta) => {
            let event: StreamOutputView = Ok(ResponseEventView::OutputTextDelta(delta));
            if started {
                seq![event]
            } else {
                seq![Ok(ResponseEventView::OutputItemAdded(message_item(choice.index))), event]
            }
        },
        None => Seq::empty(),
    }
}

/// What a choice is handed over with: the reasoning, the text, the tool calls.
pub open spec fn choice_outputs(
    state: ChatCompletionsStateView,
    choice: ChatCompletionChoiceView,
) -> Seq<StreamOutputView> {
    reasoning_outputs(state.reasoning_item_started, choice) + message_outputs(
        state.message_item_started,
        choice,
    ) + tool_call_deltas_outputs(state.tool_calls, choice_tool_calls(choice))
}

/// The state behind a choice.
pub open spec fn after_choice(
    state: ChatCompletionsStateView,
    choice: ChatCompletionChoiceView,
) -> ChatCompletionsStateView {
    ChatCompletionsStateView {
        reasoning_item_started: state.reasoning_item_started
            || choice.delta.reasoning_content is Some,
        message_item_started: state.message_item_started || choice.delta.content is Some,
        tool_calls: with_tool_call_deltas(state.tool_calls, choice_tool_calls(choice)),
        ..state
    }
}

/// The function call that a finished tool call is: none without an id or a
/// name.
pub open spec fn finished_tool_call(call: ToolCallAccumulatorView) -> Option<ResponseItemView> {
    match (call.id, call.name) {
        (Some(call_id), Some(name)) => {
            let (namespace, tool) = decoded_tool_name(name);
            Some(
                ResponseItemView::FunctionCall {
                    id: Some(call_id),
                    name: tool,
                    namespace,
                    arguments: call.arguments,
                    call_id,
                },
            )
        },
        _ => None,
    }
}

/// The indices of the tool calls, lowest first.
pub open spec fn tool_call_order(calls: ToolCallsView) -> Seq<i64> {
    ordered_keys(calls.dom(), |index: i64| index as int)
}

/// The function calls among the tool calls under these indices.
pub open spec fn function_call_outputs(calls: ToolCallsView, order: Seq<i64>) -> Seq<
    StreamOutputView,
>
    decreases order.len(),
{
    if order.len() == 0 {
        Seq::empty()
    } else {
        let before = function_call_outputs(calls, order.drop_last());
        match finished_tool_call(calls[order.last()]) {
            Some(item) => before.push(Ok(ResponseEventView::OutputItemDone(item))),
            None => before,
        }
    }
}

/// What a response is completed with: its function calls in the order of their
/// indices, and the closing event.
pub open spec fn completion_outputs(state: ChatCompletionsStateView) -> Seq<StreamOutputView> {
    function_call_outputs(state.tool_calls, tool_call_order(state.tool_calls)).push(
        Ok(
            ResponseEventView::Completed {
                response_id: match state.response_id {
                    Some(id) => id,
                    None => Seq::empty(),
                },
                token_usage: state.usage,
            },
        ),
    )
}

/// The end of a response. A response that is complete is not completed again.
pub open spec fn completion(state: ChatCompletionsStateView) -> ChatOutcome {
    if state.completed_sent {
        ChatOutcome { state, outputs: Seq::empty(), finished: true }
    } else {
        ChatOutcome {
            state: ChatCompletionsStateView {
                completed_sent: true,
                usage: None,
                tool_calls: Map::empty(),
                ..state
            },
            outputs: completion_outputs(state),
            finished: true,
        }
    }
}

/// `outcome` behind further outputs.
pub open spec fn behind(outputs: Seq<StreamOutputView>, outcome: ChatOutcome) -> ChatOutcome {
    ChatOutcome { outputs: outputs + outcome.outputs, ..outcome }
}

/// The choices of a chunk, up to the first one that finishes the response.
pub open spec fn choices_outcome(
    state: ChatCompletionsStateView,
    choices: Seq<ChatCompletionChoiceView>,
) -> ChatOutcome
    decreases choices.len(),
{
    if choices.len() == 0 {
        ChatOutcome { state, outputs: Seq::empty(), finished: false }
    } else {
        let choice = choices.first();
        let next = after_choice(state, choice);
        behind(
            choice_outputs(state, choice),
            if choice.finish_reason is Some {
                completion(next)
            } else {
                choices_outcome(next, choices.drop_first())
            },
        )
    }
}

/// The state once a chunk's own fields are taken in: the first id stays, the
/// last usage counts.
pub open spec fn after_chunk_header(
    state: ChatCompletionsStateView,
    chunk: ChatCompletionChunkView,
) -> ChatCompletionsStateView {
    ChatCompletionsStateView {
        response_id: if state.response_id is Some {
            state.response_id
        } else {
            chunk.id
        },
        created_sent: true,
        usage: match chunk.usage {
            Some(usage) => Some(token_usage(usage)),
            None => state.usage,
        },
        ..state
    }
}

/// What a chunk leads to.
pub open spec fn chunk_outcome(
    state: ChatCompletionsStateView,
    chunk: ChatCompletionChunkView,
) -> ChatOutcome {
    behind(
        if state.created_sent {
            Seq::empty()
        } else {
            seq![Ok(ResponseEventView::Created)]
        },
        choices_outcome(after_chunk_header(state, chunk), chunk.choices),
    )
}

/// The stream ends with an error.
pub open spec fn failure(state: ChatCompletionsStateView, message: Seq<char>) -> ChatOutcome {
    ChatOutcome { state, outputs: seq![Err(ApiErrorView::Stream(message))], finished: true }
}

/// What a poll of the stream leads to.
pub open spec fn chat_step(state: ChatCompletionsStateView, poll: ChatPollView) -> ChatOutcome {
    match poll {
        ChatPollView::Event { data, chunk } => if trimmed(data) == "[DONE]"@ {
            completion(state)
        } else {
            match chunk {
                Ok(chunk) => chunk_outcome(state, chunk),
                Err(message) => failure(
                    state,
                    "failed to parse chat completion chunk: "@ + message,
                ),
            }
        },
        ChatPollView::DecodeError(message) => failure(state, message),
        ChatPollView::Closed => failure(state, "stream closed before chat completion finished"@),
        ChatPollView::IdleTimeout => failure(state, "idle timeout waiting for SSE"@),
    }
}

/// What a sequence of polls leads to, up to the one that ends the stream.
pub open spec fn chat_run(state: ChatCompletionsStateView, polls: Seq<ChatPollView>) -> ChatOutcome
    decreases polls.len(),
{
    if polls.len() == 0 {
        ChatOutcome { state, outputs: Seq::empty(), finished: false }
    } else {
        let first = chat_step(state, polls.first());
        if first.finished {
            first
        } else {
            behind(first.outputs, chat_run(first.state, polls.drop_first()))
        }
    }
}

/// The function call that a finished tool call is.
pub fn tool_call_item(call: &ToolCallAccumulator) -> (item: Option<ResponseItem>)
    ensures
        item.deep_view() == finished_tool_call(call.deep_view()),
{
    match (&call.id, &call.name) {
        (Some(call_id), Some(name)) => {
            let (namespace, tool) = decode_chat_tool_name(name.clone());
            Some(
                ResponseItem::FunctionCall {
                    id: Some(call_id.clone()),
                    name: tool,
                    namespace,
                    arguments: call.arguments.clone(),
                    call_id: call_id.clone(),
                },
            )
        },
        _ => None,
    }
}

impl ChatCompletionsState {
    /// Nothing has come in yet.
    pub fn new() -> (state: Self)
        ensures
            state.deep_view() == initial_chat_state(),
    {
        let state = ChatCompletionsState {
            response_id: None,
            usage: None,
            created_sent: false,
            completed_sent: false,
            message_item_started: false,
            reasoning_item_started: false,
            tool_calls: BTreeMap::new(),
        };
        assert(state.deep_view().tool_calls =~= Map::empty());
        state
    }

    /// Completes the response, unless that was done before.
    pub fn emit_completed(&mut self, outbox: &mut Outbox)
        ensures
            final(self).deep_view() == completion(old(self).deep_view()).state,
            final(outbox)@ == old(outbox)@ + completion(old(self).deep_view()).outputs,
    {
        if self.completed_sent {
            assert(outbox@ =~= old(outbox)@ + Seq::<StreamOutputView>::empty());
            return;
        }
        self.emit_function_calls(outbox);
        self.tool_calls = BTreeMap::new();
        self.completed_sent = true;
        let response_id: String = match &self.response_id {
            Some(id) => id.clone(),
            None => String::new(),
        };
        outbox.event(ResponseEvent::Completed { response_id, token_usage: self.usage });
        self.usage = None;
        assert(self.deep_view().tool_calls =~= Map::empty());
        assert(outbox@ =~= old(outbox)@ + completion_outputs(old(self).deep_view()));
    }

    /// Hands over the function calls, lowest index first.
    fn emit_function_calls(&self, outbox: &mut Outbox)
        ensures
            final(outbox)@ == old(outbox)@ + function_call_outputs(
                self.deep_view().tool_calls,
                tool_call_order(self.deep_view().tool_calls),
            ),
    {
        let ghost calls = self.deep_view().tool_calls;
        let entries = self.tool_calls.iter();
        let ghost all = vstd::std_specs::iter::IteratorSpec::remaining(&entries);
        let ghost keys = all.map_values(|entry: (&i64, &ToolCallAccumulator)| *entry.0);
        let ghost mut order: Seq<i64> = Seq::empty();
        for entry in iter: entries
            invariant
                calls == tool_calls_view(self.tool_calls@),
                iter.seq() == all,
                keys == all.map_values(|entry: (&i64, &ToolCallAccumulator)| *entry.0),
                forall|i: int|
                    0 <= i < all.len() ==> self.tool_calls@.contains_key(*(#[trigger] all[i]).0)
                        && self.tool_calls@[*all[i].0] == *all[i].1,
                order == keys.take(iter.index()),
                outbox@ == old(outbox)@ + function_call_outputs(calls, order),
        {
            let (index, call) = entry;
            if let Some(item) = tool_call_item(call) {
                outbox.event(ResponseEvent::OutputItemDone(item));
            }
            proof {
                let next = order.push(*index);
                assert(next.drop_last() =~= order);
                assert(calls[*index] == call.deep_view());
                order = next;
            }
        }
        proof {
            assert(order =~= keys);
            lemma_increasing_i64(keys);
            let rank = |index: i64| index as int;
            assert(increasing(keys, rank));
            assert forall|index: i64| keys.to_set().contains(index) <==> calls.dom().contains(
                index,
            ) by {
                if keys.contains(index) {
                    let i = choose|i: int| 0 <= i < keys.len() && keys[i] == index;
                    assert(self.tool_calls@.contains_key(*all[i].0));
                }
                if self.tool_calls@.contains_key(index) {
                    assert(all.contains((&index, &self.tool_calls@[index])));
                    let i = choose|i: int|
                        0 <= i < all.len() && all[i] == (&index, &self.tool_calls@[index]);
                    assert(keys[i] == index);
                }
            }
            assert(keys.to_set() =~= calls.dom());
            lemma_ordered_keys(calls.dom(), rank, keys);
        }
    }

    /// Takes in the deltas of a tool call.
    fn take_tool_call(&mut self, delta: ChatToolCallDelta, outbox: &mut Outbox)
        ensures
            final(self).deep_view() == (ChatCompletionsStateView {
                tool_calls: with_tool_call_delta(
                    old(self).deep_view().tool_calls,
                    delta.deep_view(),
                ),
                ..old(self).deep_view()
            }),
            final(outbox)@ == old(outbox)@ + tool_call_delta_outputs(
                old(self).deep_view().tool_calls,
                delta.deep_view(),
            ),
    {
        let ghost calls = self.deep_view().tool_calls;
        let ghost added = delta.deep_view();
        let index: i64 = delta.index;
        let mut call: ToolCallAccumulator = match self.tool_calls.remove(&index) {
            Some(call) => call,
            None => ToolCallAccumulator { id: None, name: None, arguments: String::new() },
        };
        assert(call.deep_view() == tool_call_at(calls, index));
        if let Some(id) = delta.id {
            call.id = Some(id);
        }
        if let Some(function) = delta.function {
            if let Some(name) = function.name {
                call.name = Some(name);
            }
            if let Some(arguments) = function.arguments {
                call.arguments.append(arguments.as_str());
                let item_id: String = match &call.id {
                    Some(id) => id.clone(),
                    None => signed_decimal_text(index),
                };
                outbox.event(
                    ResponseEvent::ToolCallInputDelta {
                        item_id,
                        call_id: copy_text(&call.id),
                        delta: arguments,
                    },
                );
            }
        }
        assert(call.deep_view() == extended_tool_call(tool_call_at(calls, index), added));
        self.tool_calls.insert(index, call);
        assert(self.deep_view().tool_calls =~= with_tool_call_delta(calls, added));
        assert(outbox@ =~= old(outbox)@ + tool_call_delta_outputs(calls, added));
    }

    /// Takes in what a choice adds.
    fn take_choice(&mut self, choice: ChatCompletionChoice, outbox: &mut Outbox)
        ensures
            final(self).deep_view() == after_choice(old(self).deep_view(), choice.deep_view()),
            final(outbox)@ == old(outbox)@ + choice_outputs(
                old(self).deep_view(),
                choice.deep_view(),
            ),
    {
        let ghost before = self.deep_view();
        let ghost added = choice.deep_view();
        let index: i64 = choice.index;
        if let Some(delta) = choice.delta.reasoning_content {
            if !self.reasoning_item_started {
                self.reasoning_item_started = true;
                outbox.event(ResponseEvent::OutputItemAdded(new_reasoning_item(index)));
            }
            outbox.event(ResponseEvent::ReasoningContentDelta { delta, content_index: index });
        }
        assert(outbox@ =~= old(outbox)@ + reasoning_outputs(before.reasoning_item_started, added));
        if let Some(delta) = choice.delta.content {
            if !self.message_item_started {
                self.message_item_started = true;
                outbox.event(ResponseEvent::OutputItemAdded(new_message_item(index)));
            }
            outbox.event(ResponseEvent::OutputTextDelta(delta));
        }
        let ghost outputs = reasoning_outputs(before.reasoning_item_started, added)
            + message_outputs(before.message_item_started, added);
        assert(outbox@ =~= old(outbox)@ + outputs);
        if let Some(deltas) = choice.delta.tool_calls {
            let ghost all = deltas.deep_view();
            let ghost started = self.deep_view();
            assert(all.take(0) =~= Seq::empty());
            for delta in iter: deltas
                invariant
                    all == deltas.deep_view(),
                    iter.seq() == deltas@,
                    self.deep_view() == (ChatCompletionsStateView {
                        tool_calls: with_tool_call_deltas(
                            before.tool_calls,
                            all.take(iter.index()),
                        ),
                        ..started
                    }),
                    outbox@ == old(outbox)@ + outputs + tool_call_deltas_outputs(
                        before.tool_calls,
                        all.take(iter.index()),
                    ),
            {
                proof {
                    let n = iter.index();
                    assert(all.take(n + 1).drop_last() =~= all.take(n));
                    assert(all.take(n + 1).last() == delta.deep_view());
                }
                self.take_tool_call(delta, outbox);
            }
            assert(all.take(all.len() as int) =~= all);
        }
        assert(outbox@ =~= old(outbox)@ + choice_outputs(before, added));
    }

    /// Takes in the choices of a chunk. The result says whether one of them
    /// finished the response.
    fn take_choices(&mut self, choices: Vec<ChatCompletionChoice>, outbox: &mut Outbox) -> (finished:
        bool)
        ensures
            ({
                let outcome = choices_outcome(old(self).deep_view(), choices.deep_view());
                &&& final(self).deep_view() == outcome.state
                &&& final(outbox)@ == old(outbox)@ + outcome.outputs
                &&& finished == outcome.finished
            }),
    {
        let ghost all = choices.deep_view();
        let ghost whole = choices_outcome(self.deep_view(), all);
        assert(all.skip(0) =~= all);
        for choice in iter: choices
            invariant
                all == choices.deep_view(),
                iter.seq() == choices@,
                whole == choices_outcome(old(self).deep_view(), all),
                ({
                    let rest = choices_outcome(self.deep_view(), all.skip(iter.index()));
                    &&& whole.state == rest.state
                    &&& whole.finished == rest.finished
                    &&& old(outbox)@ + whole.outputs == outbox@ + rest.outputs
                }),
        {
            let ghost state = self.deep_view();
            let ghost sent = outbox@;
            let ghost remaining = all.skip(iter.index());
            assert(remaining.first() == choice.deep_view());
            assert(remaining.drop_first() =~= all.skip(iter.index() + 1));
            let finished: bool = choice.finish_reason.is_some();
            self.take_choice(choice, outbox);
            if finished {
                self.emit_completed(outbox);
                assert(outbox@ =~= sent + choices_outcome(state, remaining).outputs);
                return true;
            }
            assert(outbox@ + choices_outcome(self.deep_view(), all.skip(iter.index() + 1)).outputs
                =~= sent + choices_outcome(state, remaining).outputs);
        }
        assert(all.skip(all.len() as int) =~= Seq::empty());
        assert(outbox@ =~= outbox@ + Seq::empty());
        false
    }

    /// Takes in a chunk. The result says whether it finished the response.
    fn take_chunk(&mut self, chunk: ChatCompletionChunk, outbox: &mut Outbox) -> (finished: bool)
        ensures
            ({
                let outcome = chunk_outcome(old(self).deep_view(), chunk.deep_view());
                &&& final(self).deep_view() == outcome.state
                &&& final(outbox)@ == old(outbox)@ + outcome.outputs
                &&& finished == outcome.finished
            }),
    {
        let ghost before = self.deep_view();
        let ghost taken = chunk.deep_view();
        if self.response_id.is_none() {
            self.response_id = chunk.id;
        }
        if !self.created_sent {
            self.created_sent = true;
            outbox.event(ResponseEvent::Created);
        }
        if let Some(usage) = chunk.usage {
            self.usage = Some(TokenUsage::from(usage));
        }
        assert(self.deep_view() == after_chunk_header(before, taken));
        let finished: bool = self.take_choices(chunk.choices, outbox);
        assert(outbox@ =~= old(outbox)@ + chunk_outcome(before, taken).outputs);
        finished
    }

    /// Takes in what a poll of the stream gave.
    pub fn step(&mut self, poll: ChatPoll) -> (step: StreamStep)
        ensures
            ({
                let outcome = chat_step(old(self).deep_view(), poll.deep_view());
                &&& final(self).deep_view() == outcome.state
                &&& step.outbox@ == outcome.outputs
                &&& step.finished == outcome.finished
            }),
    {
        let mut outbox: Outbox = Outbox::new();
        let finished: bool = match poll {
            ChatPoll::Event { data, chunk } => {
                if same_text(trim(data.as_str()), "[DONE]") {
                    self.emit_completed(&mut outbox);
                    true
                } else {
                    match chunk {
                        Ok(chunk) => self.take_chunk(chunk, &mut outbox),
                        Err(error) => {
                            let mut message: String = "failed to parse chat completion chunk: ".to_owned();
                            message.append(error.as_str());
                            outbox.error(ApiError::Stream(message));
                            true
                        },
                    }
                }
            },
            ChatPoll::DecodeError(message) => {
                outbox.error(ApiError::Stream(message));
                true
            },
            ChatPoll::Closed => {
                outbox.error(
                    ApiError::Stream("stream closed before chat completion finished".to_owned()),
                );
                true
            },
            ChatPoll::IdleTimeout => {
                outbox.error(ApiError::Stream("idle timeout waiting for SSE".to_owned()));
                true
            },
        };
        assert(outbox@ =~= chat_step(old(self).deep_view(), poll.deep_view()).outputs);
        StreamStep { outbox, finished }
    }
}

/// The item that announces the reasoning.
fn new_reasoning_item(index: i64) -> (item: ResponseItem)
    ensures
        item.deep_view() == reasoning_item(index),
{
    let mut id: String = "chatcmpl-reasoning-".to_owned();
    id.append(signed_decimal_text(index).as_str());
    let mut content: Vec<ReasoningItemContent> = Vec::new();
    content.push(ReasoningItemContent::ReasoningText { text: String::new() });
    let item = ResponseItem::Reasoning {
        id,
        summary: Vec::new(),
        content: Some(content),
        encrypted_content: None,
    };
    assert(item.deep_view() =~= reasoning_item(index));
    item
}

/// The item that announces the answer.
fn new_message_item(index: i64) -> (item: ResponseItem)
    ensures
        item.deep_view() == message_item(index),
{
    let mut id: String = "chatcmpl-message-".to_owned();
    id.append(signed_decimal_text(index).as_str());
    let mut content: Vec<ContentItem> = Vec::new();
    content.push(ContentItem::OutputText { text: String::new() });
    let item = ResponseItem::Message {
        id: Some(id),
        role: "assistant".to_owned(),
        content,
        end_turn: None,
        phase: None,
    };
    assert(item.deep_view() =~= message_item(index));
    item
}

/// Runs a stream over what its polls give, up to the one that ends it, and
/// hands back everything that its reader gets.
#[verifier::rlimit(30)]
pub fn process_chat_completions_sse(polls: Vec<ChatPoll>) -> (outputs: Vec<StreamOutput>)
    ensures
        outputs_view(outputs@) == chat_run(initial_chat_state(), polls.deep_view()).outputs,
{
    let ghost all = polls.deep_view();
    let ghost whole = chat_run(initial_chat_state(), all);
    let mut state: ChatCompletionsState = ChatCompletionsState::new();
    let mut outbox: Outbox = Outbox::new();
    assert(all.skip(0) =~= all);
    assert(whole.outputs =~= outbox@ + whole.outputs);
    for poll in iter: polls
        invariant
            all == polls.deep_view(),
            iter.seq() == polls@,
            whole == chat_run(initial_chat_state(), all),
            whole.outputs == outbox@ + chat_run(state.deep_view(), all.skip(iter.index())).outputs,
    {
        let ghost before = state.deep_view();
        let ghost sent = outbox@;
        let ghost remaining = all.skip(iter.index());
        assert(remaining.first() == poll.deep_view());
        assert(remaining.drop_first() =~= all.skip(iter.index() + 1));
        let step: StreamStep = state.step(poll);
        outbox.append(step.outbox);
        if step.finished {
            return outbox.into_outputs();
        }
        assert(outbox@ + chat_run(state.deep_view(), all.skip(iter.index() + 1)).outputs =~= sent
            + chat_run(before, remaining).outputs);
    }
    assert(all.skip(all.len() as int) =~= Seq::empty());
    assert(outbox@ + Seq::empty() =~= outbox@);
    outbox.into_outputs()
}

} // verus!
