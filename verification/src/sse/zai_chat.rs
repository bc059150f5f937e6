//! The stream of a Z.AI provider.
//!
//! The provider's payloads are read leniently: whatever is missing or of an
//! unexpected type is passed over. `ZaiChatState` is what is gathered while the
//! stream runs; the gathered items are handed over when it ends.

use serde_json::Value;
use std::collections::BTreeMap;
use vstd::prelude::*;
use vstd::string::*;

use crate::json::{
    array_at, error_text, parse_value, str_at, value_as_i64, value_as_u64, value_get,
};
use crate::json::{elements_at, json_of, json_parsed, json_seq, member_of, text_at, Json};
use crate::protocol::{
    ApiError, ApiErrorView, ContentItem, ContentItemView, ReasoningItemContent,
    ReasoningItemContentView, ResponseEvent, ResponseEventView, ResponseItem, ResponseItemView,
    TokenUsage,
};
use crate::sse::order::{increasing, lemma_increasing_usize, lemma_ordered_keys, ordered_keys};
use crate::sse::outbox::{outputs_view, Outbox, StreamOutput, StreamOutputView, StreamStep};
use crate::text::{copy_text, decimal, decimal_text, same_text, trim, trimmed};

verus! {

/// A tool call, as far as it has come in.
#[derive(Debug)]
pub struct ToolCallState {
    pub id: Option<String>,
    pub name: String,
    pub arguments: String,
}

/// What a `ToolCallState` holds.
#[verifier::ext_equal]
pub struct ToolCallStateView {
    pub id: Option<Seq<char>>,
    pub name: Seq<char>,
    pub arguments: Seq<char>,
}

impl DeepView for ToolCallState {
    type V = ToolCallStateView;

    open spec fn deep_view(&self) -> ToolCallStateView {
        ToolCallStateView {
            id: self.id.deep_view(),
            name: self.name@,
            arguments: self.arguments@,
        }
    }
}

/// The tool calls of a response, each under its index.
pub type ZaiToolCallsView = Map<usize, ToolCallStateView>;

/// What each tool call of a map holds.
pub open spec fn zai_tool_calls_view(calls: Map<usize, ToolCallState>) -> ZaiToolCallsView {
    calls.map_values(|call: ToolCallState| call.deep_view())
}

/// What is gathered of a response while it streams in.
#[derive(Debug)]
pub struct ZaiChatState {
    pub assistant_text: String,
    pub reasoning_text: String,
    pub tool_calls: BTreeMap<usize, ToolCallState>,
    pub response_id: String,
    pub usage: Option<TokenUsage>,
}

/// What a `ZaiChatState` holds.
#[verifier::ext_equal]
pub struct ZaiChatStateView {
    pub assistant_text: Seq<char>,
    pub reasoning_text: Seq<char>,
    pub tool_calls: ZaiToolCallsView,
    pub response_id: Seq<char>,
    pub usage: Option<TokenUsage>,
}

impl DeepView for ZaiChatState {
    type V = ZaiChatStateView;

    open spec fn deep_view(&self) -> ZaiChatStateView {
        ZaiChatStateView {
            assistant_text: self.assistant_text@,
            reasoning_text: self.reasoning_text@,
            tool_calls: zai_tool_calls_view(self.tool_calls@),
            response_id: self.response_id@,
            usage: self.usage,
        }
    }
}

/// What polling the stream gave.
#[derive(Debug)]
pub enum ZaiPoll {
    /// An event with this data.
    Event(String),
    /// The stream could not be decoded.
    DecodeError(String),
    /// The stream ended.
    Closed,
    /// Nothing came in for this long.
    IdleTimeout { millis: u128 },
}

/// What a `ZaiPoll` holds.
#[verifier::ext_equal]
pub enum ZaiPollView {
    Event(Seq<char>),
    DecodeError(Seq<char>),
    Closed,
    IdleTimeout { millis: u128 },
}

impl DeepView for ZaiPoll {
    type V = ZaiPollView;

    open spec fn deep_view(&self) -> ZaiPollView {
        match self {
            ZaiPoll::Event(data) => ZaiPollView::Event(data@),
            ZaiPoll::DecodeError(message) => ZaiPollView::DecodeError(message@),
            ZaiPoll::Closed => ZaiPollView::Closed,
            ZaiPoll::IdleTimeout { millis } => ZaiPollView::IdleTimeout { millis: *millis },
        }
    }
}

/// What a step leads to: the next state, what is handed over on the way there,
/// and whether the stream is over.
#[verifier::ext_equal]
pub struct ZaiOutcome {
    pub state: ZaiChatStateView,
    pub outputs: Seq<StreamOutputView>,
    pub finished: bool,
}

/// Nothing has come in yet.
pub open spec fn initial_zai_state() -> ZaiChatStateView {
    ZaiChatStateView {
        assistant_text: Seq::empty(),
        reasoning_text: Seq::empty(),
        tool_calls: Map::empty(),
        response_id: "zai-chat-response"@,
        usage: None,
    }
}

/// A count, which is 0 where no integer stands.
pub open spec fn count(value: Option<Json>) -> i64 {
    match value {
        Some(value) => match value.integer_within(i64::MIN as int, i64::MAX as int) {
            Some(n) => n as i64,
            None => 0,
        },
        None => 0,
    }
}

/// The usage that a payload reports.
pub open spec fn reported_usage(value: Option<Json>) -> Option<TokenUsage> {
    match value {
        Some(usage) => Some(
            TokenUsage {
                input_tokens: count(usage.member("prompt_tokens"@)),
                cached_input_tokens: count(
                    member_of(usage.member("prompt_tokens_details"@), "cached_tokens"@),
                ),
                output_tokens: count(usage.member("completion_tokens"@)),
                reasoning_output_tokens: count(
                    member_of(usage.member("completion_tokens_details"@), "reasoning_tokens"@),
                ),
                total_tokens: count(usage.member("total_tokens"@)),
            },
        ),
        None => None,
    }
}

/// A tool call of which nothing has come in.
pub open spec fn empty_zai_tool_call() -> ToolCallStateView {
    ToolCallStateView { id: None, name: Seq::empty(), arguments: Seq::empty() }
}

/// The tool call under an index, as far as it has come in.
pub open spec fn zai_tool_call_at(calls: ZaiToolCallsView, index: usize) -> ToolCallStateView {
    if calls.contains_key(index) {
        calls[index]
    } else {
        empty_zai_tool_call()
    }
}

/// The index that a tool call delta speaks of: the number of calls so far,
/// where it names none.
pub open spec fn delta_index(calls: ZaiToolCallsView, delta: Json) -> usize {
    match delta.member("index"@) {
        Some(index) => match index.integer_within(0, u64::MAX as int) {
            Some(index) => index as u64 as usize,
            None => calls.len() as usize,
        },
        None => calls.len() as usize,
    }
}

/// The string under `key` of the function that a tool call delta speaks of.
pub open spec fn function_text(delta: Json, key: Seq<char>) -> Option<Seq<char>> {
    match delta.member("function"@) {
        Some(function) => text_at(function, key),
        None => None,
    }
}

/// `text` with an addition behind it, where there is one.
pub open spec fn lengthened(text: Seq<char>, addition: Option<Seq<char>>) -> Seq<char> {
    match addition {
        Some(addition) => text + addition,
        None => text,
    }
}

/// A tool call with a delta added: a new id replaces the old one, new parts of
/// the name and of the arguments go behind the old ones.
pub open spec fn extended_zai_tool_call(call: ToolCallStateView, delta: Json) -> ToolCallStateView {
    ToolCallStateView {
        id: match text_at(delta, "id"@) {
            Some(id) => Some(id),
            None => call.id,
        },
        name: lengthened(call.name, function_text(delta, "name"@)),
        arguments: lengthened(call.arguments, function_text(delta, "arguments"@)),
    }
}

/// The tool calls with a delta added to the one that it speaks of.
pub open spec fn with_zai_delta(calls: ZaiToolCallsView, delta: Json) -> ZaiToolCallsView {
    let index = delta_index(calls, delta);
    calls.insert(index, extended_zai_tool_call(zai_tool_call_at(calls, index), delta))
}

/// What a delta is announced with: its arguments, under the id of the call, or
/// under its index as long as the id is not known.
pub open spec fn zai_delta_outputs(calls: ZaiToolCallsView, delta: Json) -> Seq<StreamOutputView> {
    match function_text(delta, "arguments"@) {
        Some(arguments) => {
            let index = delta_index(calls, delta);
            let id = with_zai_delta(calls, delta)[index].id;
            seq![
                Ok(
                    ResponseEventView::ToolCallInputDelta {
                        item_id: match id {
                            Some(id) => id,
                            None => decimal(index as nat),
                        },
                        call_id: id,
                        delta: arguments,
                    },
                ),
            ]
        },
        None => Seq::empty(),
    }
}

/// The tool calls with several deltas added, first one first.
pub open spec fn with_zai_deltas(calls: ZaiToolCallsView, deltas: Seq<Json>) -> ZaiToolCallsView
    decreases deltas.len(),
{
    if deltas.len() == 0 {
        calls
    } else {
        with_zai_delta(with_zai_deltas(calls, deltas.drop_last()), deltas.last())
    }
}

/// What several deltas are announced with.
pub open spec fn zai_deltas_outputs(calls: ZaiToolCallsView, deltas: Seq<Json>) -> Seq<
    StreamOutputView,
>
    decreases deltas.len(),
{
    if deltas.len() == 0 {
        Seq::empty()
    } else {
        zai_deltas_outputs(calls, deltas.drop_last()) + zai_delta_outputs(
            with_zai_deltas(calls, deltas.drop_last()),
            deltas.last(),
        )
    }
}

/// The tool call deltas of a delta or a message.
pub open spec fn tool_call_deltas(value: Json) -> Seq<Json> {
    match elements_at(value, "tool_calls"@) {
        Some(deltas) => deltas,
        None => Seq::empty(),
    }
}

/// The state with the text, the reasoning and the tool calls of a delta or a
/// message taken in.
pub open spec fn with_content(state: ZaiChatStateView, value: Json) -> ZaiChatStateView {
    ZaiChatStateView {
        reasoning_text: lengthened(state.reasoning_text, text_at(value, "reasoning_content"@)),
        assistant_text: lengthened(state.assistant_text, text_at(value, "content"@)),
        tool_calls: with_zai_deltas(state.tool_calls, tool_call_deltas(value)),
        ..state
    }
}

/// What the reasoning of a delta is handed over with.
pub open spec fn zai_reasoning_outputs(delta: Json) -> Seq<StreamOutputView> {
    match text_at(delta, "reasoning_content"@) {
        Some(text) => if text.len() > 0 {
            seq![Ok(ResponseEventView::ReasoningContentDelta { delta: text, content_index: 0 })]
        } else {
            Seq::empty()
        },
        None => Seq::empty(),
    }
}

/// What the text of a delta is handed over with.
pub open spec fn zai_text_outputs(delta: Json) -> Seq<StreamOutputView> {
    match text_at(delta, "content"@) {
        Some(text) => if text.len() > 0 {
            seq![Ok(ResponseEventView::OutputTextDelta(text))]
        } else {
            Seq::empty()
        },
        None => Seq::empty(),
    }
}

/// The state behind the delta of a choice.
pub open spec fn after_zai_delta(state: ZaiChatStateView, choice: Json) -> ZaiChatStateView {
    match choice.member("delta"@) {
        Some(delta) => with_content(state, delta),
        None => state,
    }
}

/// The state behind a choice: its delta counts first, then its message.
pub open spec fn after_zai_choice(state: ZaiChatStateView, choice: Json) -> ZaiChatStateView {
    let next = after_zai_delta(state, choice);
    match choice.member("message"@) {
        Some(message) => with_content(next, message),
        None => next,
    }
}

/// What the delta of a choice is handed over with.
pub open spec fn zai_choice_delta_outputs(state: ZaiChatStateView, choice: Json) -> Seq<
    StreamOutputView,
> {
    match choice.member("delta"@) {
        Some(delta) => zai_reasoning_outputs(delta) + zai_text_outputs(delta) + zai_deltas_outputs(
            state.tool_calls,
            tool_call_deltas(delta),
        ),
        None => Seq::empty(),
    }
}

/// What a choice is handed over with. The texts of a message are only gathered.
pub open spec fn zai_choice_outputs(state: ZaiChatStateView, choice: Json) -> Seq<
    StreamOutputView,
> {
    let outputs = zai_choice_delta_outputs(state, choice);
    match choice.member("message"@) {
        Some(message) => outputs + zai_deltas_outputs(
            after_zai_delta(state, choice).tool_calls,
            tool_call_deltas(message),
        ),
        None => outputs,
    }
}

/// The state behind several choices.
pub open spec fn after_zai_choices(state: ZaiChatStateView, choices: Seq<Json>) -> ZaiChatStateView
    decreases choices.len(),
{
    if choices.len() == 0 {
        state
    } else {
        after_zai_choice(after_zai_choices(state, choices.drop_last()), choices.last())
    }
}

/// What several choices are handed over with.
pub open spec fn zai_choices_outputs(state: ZaiChatStateView, choices: Seq<Json>) -> Seq<
    StreamOutputView,
>
    decreases choices.len(),
{
    if choices.len() == 0 {
        Seq::empty()
    } else {
        zai_choices_outputs(state, choices.drop_last()) + zai_choice_outputs(
            after_zai_choices(state, choices.drop_last()),
            choices.last(),
        )
    }
}

/// The state once a payload's own fields are taken in: the last id and the last
/// usage count.
pub open spec fn after_zai_header(state: ZaiChatStateView, payload: Json) -> ZaiChatStateView {
    ZaiChatStateView {
        response_id: match text_at(payload, "id"@) {
            Some(id) => id,
            None => state.response_id,
        },
        usage: match reported_usage(payload.member("usage"@)) {
            Some(usage) => Some(usage),
            None => state.usage,
        },
        ..state
    }
}

/// The choices of a payload.
pub open spec fn payload_choices(payload: Json) -> Seq<Json> {
    match elements_at(payload, "choices"@) {
        Some(choices) => choices,
        None => Seq::empty(),
    }
}

/// The state behind a payload.
pub open spec fn after_zai_payload(state: ZaiChatStateView, payload: Json) -> ZaiChatStateView {
    after_zai_choices(after_zai_header(state, payload), payload_choices(payload))
}

/// What a payload is handed over with.
pub open spec fn zai_payload_outputs(state: ZaiChatStateView, payload: Json) -> Seq<
    StreamOutputView,
> {
    zai_choices_outputs(after_zai_header(state, payload), payload_choices(payload))
}

/// The indices of the tool calls, lowest first.
pub open spec fn zai_tool_call_order(calls: ZaiToolCallsView) -> Seq<usize> {
    ordered_keys(calls.dom(), |index: usize| index as int)
}

/// The function calls among the tool calls under these indices: those that have
/// an id.
pub open spec fn zai_function_call_outputs(calls: ZaiToolCallsView, order: Seq<usize>) -> Seq<
    StreamOutputView,
>
    decreases order.len(),
{
    if order.len() == 0 {
        Seq::empty()
    } else {
        let before = zai_function_call_outputs(calls, order.drop_last());
        let call = calls[order.last()];
        match call.id {
            Some(call_id) => before.push(
                Ok(
                    ResponseEventView::OutputItemDone(
                        ResponseItemView::FunctionCall {
                            id: None,
                            name: call.name,
                            namespace: None,
                            arguments: call.arguments,
                            call_id,
                        },
                    ),
                ),
            ),
            None => before,
        }
    }
}

/// The reasoning that was gathered, as an item.
pub open spec fn gathered_reasoning(text: Seq<char>) -> Seq<StreamOutputView> {
    if text.len() == 0 {
        Seq::empty()
    } else {
        seq![
            Ok(
                ResponseEventView::OutputItemDone(
                    ResponseItemView::Reasoning {
                        id: Seq::empty(),
                        summary: Seq::empty(),
                        content: Some(seq![ReasoningItemContentView::ReasoningText { text }]),
                        encrypted_content: None,
                    },
                ),
            ),
        ]
    }
}

/// The answer that was gathered, as an item.
pub open spec fn gathered_message(text: Seq<char>) -> Seq<StreamOutputView> {
    if text.len() == 0 {
        Seq::empty()
    } else {
        seq![
            Ok(
                ResponseEventView::OutputItemDone(
                    ResponseItemView::Message {
                        id: None,
                        role: "assistant"@,
                        content: seq![ContentItemView::OutputText { text }],
                        end_turn: None,
                        phase: None,
                    },
                ),
            ),
        ]
    }
}

/// What a response ends with: the reasoning, the function calls in the order of
/// their indices, the answer, and the closing event.
pub open spec fn zai_closing_outputs(state: ZaiChatStateView) -> Seq<StreamOutputView> {
    (gathered_reasoning(state.reasoning_text) + zai_function_call_outputs(
        state.tool_calls,
        zai_tool_call_order(state.tool_calls),
    ) + gathered_message(state.assistant_text)).push(
        Ok(
            ResponseEventView::Completed {
                response_id: state.response_id,
                token_usage: state.usage,
            },
        ),
    )
}

/// The response ends.
pub open spec fn zai_closing(state: ZaiChatStateView) -> ZaiOutcome {
    ZaiOutcome { state, outputs: zai_closing_outputs(state), finished: true }
}

/// The stream ends with an error.
pub open spec fn zai_failure(state: ZaiChatStateView, message: Seq<char>) -> ZaiOutcome {
    ZaiOutcome { state, outputs: seq![Err(ApiErrorView::Stream(message))], finished: true }
}

/// What a payload leads to, or the reason why there is none.
pub open spec fn zai_payload_outcome(
    state: ZaiChatStateView,
    payload: Result<Json, Seq<char>>,
) -> ZaiOutcome {
    match payload {
        Ok(payload) => ZaiOutcome {
            state: after_zai_payload(state, payload),
            outputs: zai_payload_outputs(state, payload),
            finished: false,
        },
        Err(message) => zai_failure(state, "failed to parse Z.AI SSE payload: "@ + message),
    }
}

/// What a poll of the stream leads to.
pub open spec fn zai_step(state: ZaiChatStateView, poll: ZaiPollView) -> ZaiOutcome {
    match poll {
        ZaiPollView::Event(data) => {
            let data = trimmed(data);
            if data.len() == 0 {
                ZaiOutcome { state, outputs: Seq::empty(), finished: false }
            } else if data == "[DONE]"@ {
                zai_closing(state)
            } else {
                zai_payload_outcome(state, json_parsed(data))
            }
        },
        ZaiPollView::DecodeError(message) => zai_failure(
            state,
            "error decoding SSE stream: "@ + message,
        ),
        ZaiPollView::Closed => zai_closing(state),
        ZaiPollView::IdleTimeout { millis } => zai_failure(
            state,
            "stream disconnected after "@ + decimal(millis as nat) + " ms of inactivity"@,
        ),
    }
}

/// What a sequence of polls leads to, up to the one that ends the stream.
pub open spec fn zai_run(state: ZaiChatStateView, polls: Seq<ZaiPollView>) -> ZaiOutcome
    decreases polls.len(),
{
    if polls.len() == 0 {
        ZaiOutcome { state, outputs: Seq::empty(), finished: false }
    } else {
        let first = zai_step(state, polls.first());
        if first.finished {
            first
        } else {
            let rest = zai_run(first.state, polls.drop_first());
            ZaiOutcome { outputs: first.outputs + rest.outputs, ..rest }
        }
    }
}

/// Everything that the reader of a stream gets: the opening event, and what the
/// polls lead to.
pub open spec fn zai_stream_outputs(polls: Seq<ZaiPollView>) -> Seq<StreamOutputView> {
    seq![Ok(ResponseEventView::Created)] + zai_run(initial_zai_state(), polls).outputs
}

/// What an optional document holds.
pub open spec fn json_of_option(value: Option<&Value>) -> Option<Json> {
    match value {
        Some(value) => Some(json_of(*value)),
        None => None,
    }
}

/// The member `key` of an optional document.
fn get_from<'a>(value: Option<&'a Value>, key: &str) -> (member: Option<&'a Value>)
    ensures
        json_of_option(member) == member_of(json_of_option(value), key@),
{
    match value {
        Some(value) => value_get(value, key),
        None => None,
    }
}

/// A count, which is 0 where no integer stands.
fn read_count(value: Option<&Value>) -> (n: i64)
    ensures
        n == count(json_of_option(value)),
{
    match value {
        Some(value) => match value_as_i64(value) {
            Some(n) => n,
            None => 0,
        },
        None => 0,
    }
}

/// The usage that a payload reports.
pub fn parse_usage(value: Option<&Value>) -> (usage: Option<TokenUsage>)
    ensures
        usage == reported_usage(json_of_option(value)),
{
    match value {
        Some(usage) => {
            let prompt_details: Option<&Value> = value_get(usage, "prompt_tokens_details");
            let completion_details: Option<&Value> = value_get(usage, "completion_tokens_details");
            Some(
                TokenUsage {
                    input_tokens: read_count(value_get(usage, "prompt_tokens")),
                    cached_input_tokens: read_count(get_from(prompt_details, "cached_tokens")),
                    output_tokens: read_count(value_get(usage, "completion_tokens")),
                    reasoning_output_tokens: read_count(
                        get_from(completion_details, "reasoning_tokens"),
                    ),
                    total_tokens: read_count(value_get(usage, "total_tokens")),
                },
            )
        },
        None => None,
    }
}

impl ZaiChatState {
    /// Nothing has come in yet.
    pub fn new() -> (state: Self)
        ensures
            state.deep_view() == initial_zai_state(),
    {
        let state = ZaiChatState {
            assistant_text: String::new(),
            reasoning_text: String::new(),
            tool_calls: BTreeMap::new(),
            response_id: "zai-chat-response".to_owned(),
            usage: None,
        };
        assert(state.deep_view().tool_calls =~= Map::empty());
        state
    }

    /// Takes in a tool call delta.
    fn take_tool_call(&mut self, delta: &Value, outbox: &mut Outbox)
        ensures
            final(self).deep_view() == (ZaiChatStateView {
                tool_calls: with_zai_delta(old(self).deep_view().tool_calls, json_of(*delta)),
                ..old(self).deep_view()
            }),
            final(outbox)@ == old(outbox)@ + zai_delta_outputs(
                old(self).deep_view().tool_calls,
                json_of(*delta),
            ),
    {
        let ghost calls = self.deep_view().tool_calls;
        let ghost added = json_of(*delta);
        assert(calls.dom() =~= self.tool_calls@.dom());
        let named: Option<u64> = match value_get(delta, "index") {
            Some(index) => value_as_u64(index),
            None => None,
        };
        let index: usize = match named {
            Some(index) => index as usize,
            None => self.tool_calls.len(),
        };
        assert(index == delta_index(calls, added));
        let mut call: ToolCallState = match self.tool_calls.remove(&index) {
            Some(call) => call,
            None => ToolCallState { id: None, name: String::new(), arguments: String::new() },
        };
        assert(call.deep_view() == zai_tool_call_at(calls, index));
        if let Some(id) = str_at(delta, "id") {
            call.id = Some(id.to_owned());
        }
        if let Some(function) = value_get(delta, "function") {
            if let Some(name) = str_at(function, "name") {
                call.name.append(name);
            }
            if let Some(arguments) = str_at(function, "arguments") {
                call.arguments.append(arguments);
                let item_id: String = match &call.id {
                    Some(id) => id.clone(),
                    None => decimal_text(index as u128),
                };
                outbox.event(
                    ResponseEvent::ToolCallInputDelta {
                        item_id,
                        call_id: copy_text(&call.id),
                        delta: arguments.to_owned(),
                    },
                );
            }
        }
        assert(call.deep_view() == extended_zai_tool_call(zai_tool_call_at(calls, index), added));
        self.tool_calls.insert(index, call);
        assert(self.deep_view().tool_calls =~= with_zai_delta(calls, added));
        assert(outbox@ =~= old(outbox)@ + zai_delta_outputs(calls, added));
    }

    /// Takes in the tool call deltas of a delta or a message.
    pub fn collect_tool_call_deltas(&mut self, value: &Value, outbox: &mut Outbox)
        ensures
            final(self).deep_view() == (ZaiChatStateView {
                tool_calls: with_zai_deltas(
                    old(self).deep_view().tool_calls,
                    tool_call_deltas(json_of(*value)),
                ),
                ..old(self).deep_view()
            }),
            final(outbox)@ == old(outbox)@ + zai_deltas_outputs(
                old(self).deep_view().tool_calls,
                tool_call_deltas(json_of(*value)),
            ),
    {
        let ghost before = self.deep_view();
        let ghost all = tool_call_deltas(json_of(*value));
        assert(all.take(0) =~= Seq::empty());
        assert(outbox@ =~= old(outbox)@ + zai_deltas_outputs(before.tool_calls, all.take(0)));
        if let Some(deltas) = array_at(value, "tool_calls") {
            for i in 0..deltas.len()
                invariant
                    all == json_seq(deltas@),
                    self.deep_view() == (ZaiChatStateView {
                        tool_calls: with_zai_deltas(before.tool_calls, all.take(i as int)),
                        ..before
                    }),
                    outbox@ == old(outbox)@ + zai_deltas_outputs(
                        before.tool_calls,
                        all.take(i as int),
                    ),
            {
                assert(all.take(i + 1).drop_last() =~= all.take(i as int));
                assert(all.take(i + 1).last() == json_of(deltas@[i as int]));
                self.take_tool_call(&deltas[i], outbox);
                assert(outbox@ =~= old(outbox)@ + zai_deltas_outputs(
                    before.tool_calls,
                    all.take(i + 1),
                ));
            }
        }
        assert(all.take(all.len() as int) =~= all);
    }

    /// Takes in a choice.
    fn take_choice(&mut self, choice: &Value, outbox: &mut Outbox)
        ensures
            final(self).deep_view() == after_zai_choice(
                old(self).deep_view(),
                json_of(*choice),
            ),
            final(outbox)@ == old(outbox)@ + zai_choice_outputs(
                old(self).deep_view(),
                json_of(*choice),
            ),
    {
        let ghost before = self.deep_view();
        let ghost added = json_of(*choice);
        if let Some(delta) = value_get(choice, "delta") {
            if let Some(text) = str_at(delta, "reasoning_content") {
                if !text.is_empty() {
                    self.reasoning_text.append(text);
                    outbox.event(
                        ResponseEvent::ReasoningContentDelta {
                            delta: text.to_owned(),
                            content_index: 0,
                        },
                    );
                }
            }
            if let Some(text) = str_at(delta, "content") {
                if !text.is_empty() {
                    self.assistant_text.append(text);
                    outbox.event(ResponseEvent::OutputTextDelta(text.to_owned()));
                }
            }
            self.collect_tool_call_deltas(delta, outbox);
            assert(self.deep_view() =~= with_content(before, json_of(*delta)));
        }
        assert(self.deep_view() == after_zai_delta(before, added));
        assert(outbox@ =~= old(outbox)@ + zai_choice_delta_outputs(before, added));
        if let Some(message) = value_get(choice, "message") {
            if let Some(text) = str_at(message, "reasoning_content") {
                self.reasoning_text.append(text);
            }
            if let Some(text) = str_at(message, "content") {
                self.assistant_text.append(text);
            }
            self.collect_tool_call_deltas(message, outbox);
        }
        assert(outbox@ =~= old(outbox)@ + zai_choice_outputs(before, added));
    }

    /// Takes in the payload of an event, or the reason why there is none.
    pub fn take_payload(&mut self, payload: Result<Value, String>) -> (step: StreamStep)
        ensures
            ({
                let outcome = zai_payload_outcome(
                    old(self).deep_view(),
                    match payload {
                        Ok(payload) => Ok(json_of(payload)),
                        Err(message) => Err(message@),
                    },
                );
                &&& final(self).deep_view() == outcome.state
                &&& step.outbox@ == outcome.outputs
                &&& step.finished == outcome.finished
            }),
    {
        let mut outbox: Outbox = Outbox::new();
        match payload {
            Ok(payload) => {
                self.take_document(&payload, &mut outbox);
                assert(outbox@ =~= zai_payload_outputs(old(self).deep_view(), json_of(payload)));
                StreamStep { outbox, finished: false }
            },
            Err(error) => {
                let mut message: String = "failed to parse Z.AI SSE payload: ".to_owned();
                message.append(error.as_str());
                outbox.error(ApiError::Stream(message));
                assert(outbox@ =~= seq![
                    Err::<ResponseEventView, ApiErrorView>(ApiErrorView::Stream(message@)),
                ]);
                StreamStep { outbox, finished: true }
            },
        }
    }

    /// Takes in the document of an event.
    fn take_document(&mut self, payload: &Value, outbox: &mut Outbox)
        ensures
            final(self).deep_view() == after_zai_payload(
                old(self).deep_view(),
                json_of(*payload),
            ),
            final(outbox)@ == old(outbox)@ + zai_payload_outputs(
                old(self).deep_view(),
                json_of(*payload),
            ),
    {
        if let Some(id) = str_at(payload, "id") {
            self.response_id = id.to_owned();
        }
        if let Some(usage) = parse_usage(value_get(payload, "usage")) {
            self.usage = Some(usage);
        }
        let ghost header = after_zai_header(old(self).deep_view(), json_of(*payload));
        assert(self.deep_view() == header);
        let ghost all = payload_choices(json_of(*payload));
        assert(all.take(0) =~= Seq::empty());
        assert(outbox@ =~= old(outbox)@ + zai_choices_outputs(header, all.take(0)));
        if let Some(choices) = array_at(payload, "choices") {
            for i in 0..choices.len()
                invariant
                    all == json_seq(choices@),
                    self.deep_view() == after_zai_choices(header, all.take(i as int)),
                    outbox@ == old(outbox)@ + zai_choices_outputs(header, all.take(i as int)),
            {
                assert(all.take(i + 1).drop_last() =~= all.take(i as int));
                assert(all.take(i + 1).last() == json_of(choices@[i as int]));
                self.take_choice(&choices[i], outbox);
                assert(outbox@ =~= old(outbox)@ + zai_choices_outputs(header, all.take(i + 1)));
            }
        }
        assert(all.take(all.len() as int) =~= all);
    }

    /// Hands over the function calls, lowest index first.
    fn emit_function_calls(&self, outbox: &mut Outbox)
        ensures
            final(outbox)@ == old(outbox)@ + zai_function_call_outputs(
                self.deep_view().tool_calls,
                zai_tool_call_order(self.deep_view().tool_calls),
            ),
    {
        let ghost calls = self.deep_view().tool_calls;
        let entries = self.tool_calls.iter();
        let ghost all = vstd::std_specs::iter::IteratorSpec::remaining(&entries);
        let ghost keys = all.map_values(|entry: (&usize, &ToolCallState)| *entry.0);
        let ghost mut order: Seq<usize> = Seq::empty();
        for entry in iter: entries
            invariant
                calls == zai_tool_calls_view(self.tool_calls@),
                iter.seq() == all,
                keys == all.map_values(|entry: (&usize, &ToolCallState)| *entry.0),
                forall|i: int|
                    0 <= i < all.len() ==> self.tool_calls@.contains_key(*(#[trigger] all[i]).0)
                        && self.tool_calls@[*all[i].0] == *all[i].1,
                order == keys.take(iter.index()),
                outbox@ == old(outbox)@ + zai_function_call_outputs(calls, order),
        {
            let (index, call) = entry;
            if let Some(call_id) = &call.id {
                outbox.event(
                    ResponseEvent::OutputItemDone(
                        ResponseItem::FunctionCall {
                            id: None,
                            name: call.name.clone(),
                            namespace: None,
                            arguments: call.arguments.clone(),
                            call_id: call_id.clone(),
                        },
                    ),
                );
            }
            proof {
                let next = order.push(*index);
                assert(next.drop_last() =~= order);
                assert(calls[*index] == call.deep_view());
                order = next;
            }
        }
        proof {
            assert(order =~= keys);
            lemma_increasing_usize(keys);
            let rank = |index: usize| index as int;
            assert(increasing(keys, rank));
            assert forall|index: usize| keys.to_set().contains(index) <==> calls.dom().contains(
                index,
            ) by {
                if keys.contains(index) {
                    let i = choose|i: int| 0 <= i < keys.len() && keys[i] == index;
                    assert(self.tool_calls@.contains_key(*all[i].0));
                }
                if self.tool_calls@.contains_key(index) {
                    assert(all.contains((&index, &self.tool_calls@[index])));
                    let i = choose|i: int|
                        0 <= i < all.len() && all[i] == (&index, &self.tool_calls@[index]);
                    assert(keys[i] == index);
                }
            }
            assert(keys.to_set() =~= calls.dom());
            lemma_ordered_keys(calls.dom(), rank, keys);
        }
    }

    /// Hands over what was gathered, and the closing event.
    fn close(&self) -> (step: StreamStep)
        ensures
            step.outbox@ == zai_closing_outputs(self.deep_view()),
            step.finished,
    {
        let mut outbox: Outbox = Outbox::new();
        if !self.reasoning_text.as_str().is_empty() {
            let mut content: Vec<ReasoningItemContent> = Vec::new();
            content.push(
                ReasoningItemContent::ReasoningText { text: self.reasoning_text.clone() },
            );
            let item = ResponseItem::Reasoning {
                id: String::new(),
                summary: Vec::new(),
                content: Some(content),
                encrypted_content: None,
            };
            assert(content.deep_view() =~= seq![
                ReasoningItemContentView::ReasoningText { text: self.reasoning_text@ },
            ]);
            assert(item.deep_view()->summary =~= Seq::<Seq<char>>::empty());
            outbox.event(ResponseEvent::OutputItemDone(item));
        }
        assert(outbox@ =~= gathered_reasoning(self.reasoning_text@));
        self.emit_function_calls(&mut outbox);
        if !self.assistant_text.as_str().is_empty() {
            let mut content: Vec<ContentItem> = Vec::new();
            content.push(ContentItem::OutputText { text: self.assistant_text.clone() });
            assert(content.deep_view() =~= seq![
                ContentItemView::OutputText { text: self.assistant_text@ },
            ]);
            outbox.event(
                ResponseEvent::OutputItemDone(
                    ResponseItem::Message {
                        id: None,
                        role: "assistant".to_owned(),
                        content,
                        end_turn: None,
                        phase: None,
                    },
                ),
            );
        }
        outbox.event(
            ResponseEvent::Completed {
                response_id: self.response_id.clone(),
                token_usage: self.usage,
            },
        );
        assert(outbox@ =~= zai_closing_outputs(self.deep_view()));
        StreamStep { outbox, finished: true }
    }

    /// Takes in what a poll of the stream gave.
    pub fn step(&mut self, poll: ZaiPoll) -> (step: StreamStep)
        ensures
            ({
                let outcome = zai_step(old(self).deep_view(), poll.deep_view());
                &&& final(self).deep_view() == outcome.state
                &&& step.outbox@ == outcome.outputs
                &&& step.finished == outcome.finished
            }),
    {
        match poll {
            ZaiPoll::Event(data) => {
                let data: &str = trim(data.as_str());
                if data.is_empty() {
                    StreamStep { outbox: Outbox::new(), finished: false }
                } else if same_text(data, "[DONE]") {
                    self.close()
                } else {
                    let payload: Result<Value, String> = match parse_value(data) {
                        Ok(payload) => Ok(payload),
                        Err(error) => Err(error_text(&error)),
                    };
                    self.take_payload(payload)
                }
            },
            ZaiPoll::DecodeError(error) => {
                let mut message: String = "error decoding SSE stream: ".to_owned();
                message.append(error.as_str());
                failed(message)
            },
            ZaiPoll::Closed => self.close(),
            ZaiPoll::IdleTimeout { millis } => {
                let mut message: String = "stream disconnected after ".to_owned();
                message.append(decimal_text(millis).as_str());
                message.append(" ms of inactivity");
                failed(message)
            },
        }
    }
}

/// The stream ends with an error.
fn failed(message: String) -> (step: StreamStep)
    ensures
        step.outbox@ == seq![
            Err::<ResponseEventView, ApiErrorView>(ApiErrorView::Stream(message@)),
        ],
        step.finished,
{
    let mut outbox: Outbox = Outbox::new();
    outbox.error(ApiError::Stream(message));
    assert(outbox@ =~= seq![Err::<ResponseEventView, ApiErrorView>(ApiErrorView::Stream(message@))]);
    StreamStep { outbox, finished: true }
}

/// Runs a stream over what its polls give, up to the one that ends it, and
/// hands back everything that its reader gets.
pub fn process_zai_chat_sse(polls: Vec<ZaiPoll>) -> (outputs: Vec<StreamOutput>)
    ensures
        outputs_view(outputs@) == zai_stream_outputs(polls.deep_view()),
{
    let ghost all = polls.deep_view();
    let ghost whole = zai_stream_outputs(all);
    let mut state: ZaiChatState = ZaiChatState::new();
    let mut outbox: Outbox = Outbox::new();
    outbox.event(ResponseEvent::Created);
    assert(all.skip(0) =~= all);
    assert(outbox@ =~= seq![Ok::<ResponseEventView, ApiErrorView>(ResponseEventView::Created)]);
    for poll in iter: polls
        invariant
            all == polls.deep_view(),
            iter.seq() == polls@,
            whole == zai_stream_outputs(all),
            whole == outbox@ + zai_run(state.deep_view(), all.skip(iter.index())).outputs,
    {
        let ghost before = state.deep_view();
        let ghost sent = outbox@;
        let ghost remaining = all.skip(iter.index());
        assert(remaining.first() == poll.deep_view());
        assert(remaining.drop_first() =~= all.skip(iter.index() + 1));
        let step: StreamStep = state.step(poll);
        outbox.append(step.outbox);
        if step.finished {
            return outbox.into_outputs();
        }
        assert(outbox@ + zai_run(state.deep_view(), all.skip(iter.index() + 1)).outputs =~= sent
            + zai_run(before, remaining).outputs);
    }
    assert(all.skip(all.len() as int) =~= Seq::empty());
    assert(outbox@ + Seq::empty() =~= outbox@);
    outbox.into_outputs()
}

} // verus!
