//! What holds of every stream of a chat completions provider, whatever it
//! sends.

use vstd::prelude::*;

use crate::gather::{gathered, lemma_gathered_concat, lemma_gathered_one};
use crate::protocol::{ApiErrorView, ResponseEventView, ResponseItemView, TokenUsage};
use crate::sse::chat_completions::{
    after_choice, after_chunk_header, behind, chat_run, chat_step, choice_outputs,
    choice_tool_calls, choices_outcome, completion, completion_outputs, delta_arguments,
    finished_tool_call, function_call_outputs, initial_chat_state, message_outputs,
    reasoning_outputs, tool_call_at, tool_call_delta_outputs, tool_call_deltas_outputs,
    tool_call_order, with_tool_call_deltas,
};
use crate::sse::chat_completions::{
    ChatCompletionsStateView, ChatOutcome, ChatPollView, ToolCallAccumulatorView, ToolCallsView,
};
use crate::sse::chunk::{
    token_usage, ChatCompletionChoiceView, ChatCompletionChunkView, ChatToolCallDeltaView,
};
use crate::sse::order::{lemma_order_exists, lemma_ordered_keys, ordered_keys};
use crate::sse::outbox::StreamOutputView;
use crate::sse::received::{
    arguments_received, ends_with, is_arguments_delta, is_completed, is_created,
    is_reasoning_delta, ends_completed, ends_failed, is_finished_item, is_terminal,
    nothing_finished, is_text_delta, reasoning_received, text_received,
};
use crate::sse::received::{
    lemma_ends_with, lemma_received_concat, lemma_received_nothing, lemma_received_one,
};
use crate::text::trimmed;

verus! {

/// Neither the opening of a response nor its end.
pub open spec fn is_inner(output: StreamOutputView) -> bool {
    !is_created(output) && !is_terminal(output)
}

proof fn lemma_tool_outputs(calls: ToolCallsView, deltas: Seq<ChatToolCallDeltaView>)
    ensures
        forall|i: int|
            0 <= i < tool_call_deltas_outputs(calls, deltas).len() ==> (
            #[trigger] tool_call_deltas_outputs(calls, deltas)[i]) matches Ok(
                ResponseEventView::ToolCallInputDelta { .. },
            ),
    decreases deltas.len(),
{
    if deltas.len() > 0 {
        lemma_tool_outputs(calls, deltas.drop_last());
    }
}

/// A finished function call.
spec fn is_function_call(output: StreamOutputView) -> bool {
    output matches Ok(
        ResponseEventView::OutputItemDone(ResponseItemView::FunctionCall { .. }),
    )
}

proof fn lemma_function_outputs(calls: ToolCallsView, order: Seq<i64>)
    ensures
        forall|i: int|
            0 <= i < function_call_outputs(calls, order).len() ==> is_function_call(
                #[trigger] function_call_outputs(calls, order)[i],
            ),
    decreases order.len(),
{
    if order.len() > 0 {
        let before = function_call_outputs(calls, order.drop_last());
        lemma_function_outputs(calls, order.drop_last());
        let outputs = function_call_outputs(calls, order);
        let item = finished_tool_call(calls[order.last()]);
        assert forall|i: int| 0 <= i < outputs.len() implies is_function_call(
            #[trigger] outputs[i],
        ) by {
            if i < before.len() {
                assert(outputs[i] == before[i]);
            } else {
                assert(outputs[i] == Ok::<ResponseEventView, ApiErrorView>(
                    ResponseEventView::OutputItemDone(item->Some_0),
                ));
            }
        }
    }
}

proof fn lemma_choice_inner(state: ChatCompletionsStateView, choice: ChatCompletionChoiceView)
    ensures
        forall|i: int|
            0 <= i < choice_outputs(state, choice).len() ==> is_inner(
                #[trigger] choice_outputs(state, choice)[i],
            ),
{
    lemma_tool_outputs(state.tool_calls, choice_tool_calls(choice));
}

/// The outputs of a step from a response that is not complete: nothing but
/// inner outputs, and behind them, if and only if the response is finished, its
/// closing event.
spec fn well_ended(outcome: ChatOutcome) -> bool {
    &&& outcome.finished <==> outcome.outputs.len() > 0 && is_terminal(outcome.outputs.last())
    &&& forall|i: int|
        0 <= i < outcome.outputs.len() - 1 ==> !is_terminal(#[trigger] outcome.outputs[i])
    &&& !outcome.finished ==> !outcome.state.completed_sent
}

spec fn never_created(outputs: Seq<StreamOutputView>) -> bool {
    forall|i: int| 0 <= i < outputs.len() ==> !is_created(#[trigger] outputs[i])
}

proof fn lemma_choices_shape(
    state: ChatCompletionsStateView,
    choices: Seq<ChatCompletionChoiceView>,
)
    requires
        !state.completed_sent,
    ensures
        well_ended(choices_outcome(state, choices)),
        never_created(choices_outcome(state, choices).outputs),
        choices_outcome(state, choices).state.created_sent == state.created_sent,
    decreases choices.len(),
{
    if choices.len() > 0 {
        let choice = choices.first();
        let next = after_choice(state, choice);
        let outputs = choice_outputs(state, choice);
        lemma_choice_inner(state, choice);
        let whole = choices_outcome(state, choices);
        if choice.finish_reason is Some {
            lemma_function_outputs(next.tool_calls, tool_call_order(next.tool_calls));
            assert(whole.outputs == outputs + completion_outputs(next));
        } else {
            let rest = choices_outcome(next, choices.drop_first());
            lemma_choices_shape(next, choices.drop_first());
            assert(whole.outputs == outputs + rest.outputs);
        }
    }
}

proof fn lemma_step_shape(state: ChatCompletionsStateView, poll: ChatPollView)
    requires
        !state.completed_sent,
    ensures
        well_ended(chat_step(state, poll)),
        forall|i: int|
            0 <= i < chat_step(state, poll).outputs.len() ==> (is_created(
                #[trigger] chat_step(state, poll).outputs[i],
            ) ==> i == 0 && !state.created_sent),
        chat_step(state, poll).finished || chat_step(state, poll).state.created_sent,
        state.created_sent ==> chat_step(state, poll).state.created_sent,
        !state.created_sent && state.tool_calls == Map::<i64, ToolCallAccumulatorView>::empty()
            ==> chat_step(state, poll).outputs.len() <= 1 || is_created(
            chat_step(state, poll).outputs[0],
        ),
        !state.created_sent && !chat_step(state, poll).finished ==> chat_step(
            state,
            poll,
        ).outputs.len() > 0 && is_created(chat_step(state, poll).outputs[0]),
{
    match poll {
        ChatPollView::Event { data, chunk } => {
            if trimmed(data) == "[DONE]"@ {
                lemma_function_outputs(state.tool_calls, tool_call_order(state.tool_calls));
                if state.tool_calls == Map::<i64, ToolCallAccumulatorView>::empty() {
                    let rank = |index: i64| index as int;
                    assert(Seq::<i64>::empty().to_set() =~= state.tool_calls.dom());
                    lemma_ordered_keys(
                        state.tool_calls.dom(),
                        rank,
                        Seq::<i64>::empty(),
                    );
                }
            } else if chunk is Ok {
                let chunk = chunk->Ok_0;
                lemma_choices_shape(after_chunk_header(state, chunk), chunk.choices);
            }
        },
        _ => {},
    }
}

proof fn lemma_run_shape(state: ChatCompletionsStateView, polls: Seq<ChatPollView>)
    requires
        !state.completed_sent,
    ensures
        well_ended(chat_run(state, polls)),
        forall|i: int|
            0 <= i < chat_run(state, polls).outputs.len() ==> (is_created(
                #[trigger] chat_run(state, polls).outputs[i],
            ) ==> i == 0 && !state.created_sent),
        !state.created_sent && state.tool_calls == Map::<i64, ToolCallAccumulatorView>::empty()
            ==> chat_run(state, polls).outputs.len() <= 1 || is_created(
            chat_run(state, polls).outputs[0],
        ),
    decreases polls.len(),
{
    if polls.len() > 0 {
        let first = chat_step(state, polls.first());
        lemma_step_shape(state, polls.first());
        if !first.finished {
            let rest = chat_run(first.state, polls.drop_first());
            lemma_run_shape(first.state, polls.drop_first());
            let whole = chat_run(state, polls);
            assert(whole.outputs == first.outputs + rest.outputs);
            assert forall|i: int| 0 <= i < whole.outputs.len() implies (is_created(
                #[trigger] whole.outputs[i],
            ) ==> i == 0 && !state.created_sent) by {
                if i >= first.outputs.len() {
                    assert(whole.outputs[i] == rest.outputs[i - first.outputs.len()]);
                } else {
                    assert(whole.outputs[i] == first.outputs[i]);
                }
            }
            assert forall|i: int| 0 <= i < whole.outputs.len() - 1 implies !is_terminal(
                #[trigger] whole.outputs[i],
            ) by {
                if i >= first.outputs.len() {
                    assert(whole.outputs[i] == rest.outputs[i - first.outputs.len()]);
                } else if i == first.outputs.len() - 1 {
                    assert(whole.outputs[i] == first.outputs.last());
                } else {
                    assert(whole.outputs[i] == first.outputs[i]);
                }
            }
        }
    }
}

/// A stream is over when its reader has been told so, and not before: the last
/// output is the closing event or an error if and only if nothing more is read,
/// and no output before the last is either of these. So a response is completed
/// at most once, and nothing comes behind its end.
pub proof fn law_stream_ends_once(polls: Seq<ChatPollView>)
    ensures
        ({
            let run = chat_run(initial_chat_state(), polls);
            &&& run.finished <==> run.outputs.len() > 0 && is_terminal(run.outputs.last())
            &&& forall|i: int|
                0 <= i < run.outputs.len() - 1 ==> !is_terminal(#[trigger] run.outputs[i])
        }),
{
    lemma_run_shape(initial_chat_state(), polls);
}

/// A response is opened at most once and before anything else: a stream that
/// hands over more than its end begins with the opening event, and that event
/// stands nowhere else.
pub proof fn law_created_comes_first(polls: Seq<ChatPollView>)
    ensures
        ({
            let outputs = chat_run(initial_chat_state(), polls).outputs;
            &&& outputs.len() > 1 ==> is_created(outputs[0])
            &&& forall|i: int| 0 < i < outputs.len() ==> !is_created(#[trigger] outputs[i])
        }),
{
    lemma_run_shape(initial_chat_state(), polls);
}

/// Nothing behind the end of a stream is read, and a stream that is read in two
/// parts hands over what it does when it is read in one.
pub proof fn law_run_in_parts(
    state: ChatCompletionsStateView,
    earlier: Seq<ChatPollView>,
    later: Seq<ChatPollView>,
)
    ensures
        chat_run(state, earlier + later) == ({
            let run = chat_run(state, earlier);
            if run.finished {
                run
            } else {
                behind(run.outputs, chat_run(run.state, later))
            }
        }),
    decreases earlier.len(),
{
    if earlier.len() == 0 {
        assert(earlier + later =~= later);
        assert(Seq::<StreamOutputView>::empty() + chat_run(state, later).outputs =~= chat_run(
            state,
            later,
        ).outputs);
    } else {
        let first = chat_step(state, earlier.first());
        assert((earlier + later).first() == earlier.first());
        assert((earlier + later).drop_first() =~= earlier.drop_first() + later);
        law_run_in_parts(first.state, earlier.drop_first(), later);
        let run = chat_run(first.state, earlier.drop_first());
        if !first.finished && !run.finished {
            let end = chat_run(run.state, later);
            assert(first.outputs + (run.outputs + end.outputs) =~= (first.outputs + run.outputs)
                + end.outputs);
        }
    }
}

/// Outputs of one kind are introduced by an item: the item comes at most once,
/// not at all where it came before, and no delta comes without it.
pub open spec fn introduced(
    outputs: Seq<StreamOutputView>,
    item: spec_fn(StreamOutputView) -> bool,
    delta: spec_fn(StreamOutputView) -> bool,
    started: bool,
) -> bool {
    &&& forall|i: int|
        0 <= i < outputs.len() && item(#[trigger] outputs[i]) ==> !started && forall|j: int|
            0 <= j < i ==> !item(#[trigger] outputs[j])
    &&& forall|i: int|
        0 <= i < outputs.len() && delta(#[trigger] outputs[i]) ==> started || exists|j: int|
            0 <= j < i && item(#[trigger] outputs[j])
}

spec fn holds_item(
    outputs: Seq<StreamOutputView>,
    item: spec_fn(StreamOutputView) -> bool,
) -> bool {
    exists|j: int| 0 <= j < outputs.len() && item(#[trigger] outputs[j])
}

proof fn lemma_introduced_concat(
    left: Seq<StreamOutputView>,
    right: Seq<StreamOutputView>,
    item: spec_fn(StreamOutputView) -> bool,
    delta: spec_fn(StreamOutputView) -> bool,
    started: bool,
)
    requires
        introduced(left, item, delta, started),
        introduced(right, item, delta, started || holds_item(left, item)),
    ensures
        introduced(left + right, item, delta, started),
        holds_item(left + right, item) == (holds_item(left, item) || holds_item(right, item)),
{
    let whole = left + right;
    let n = left.len() as int;
    assert forall|i: int| 0 <= i < whole.len() && item(#[trigger] whole[i]) implies !started
        && forall|j: int| 0 <= j < i ==> !item(#[trigger] whole[j]) by {
        if i < n {
            assert(whole[i] == left[i]);
            assert forall|j: int| 0 <= j < i implies !item(#[trigger] whole[j]) by {
                assert(whole[j] == left[j]);
            }
        } else {
            assert(whole[i] == right[i - n]);
            assert forall|j: int| 0 <= j < i implies !item(#[trigger] whole[j]) by {
                if j < n {
                    assert(whole[j] == left[j]);
                } else {
                    assert(whole[j] == right[j - n]);
                }
            }
        }
    }
    assert forall|i: int| 0 <= i < whole.len() && delta(#[trigger] whole[i]) implies started
        || exists|j: int| 0 <= j < i && item(#[trigger] whole[j]) by {
        if !started {
            if i < n {
                assert(whole[i] == left[i]);
                let j = choose|j: int| 0 <= j < i && item(#[trigger] left[j]);
                assert(item(whole[j]));
            } else {
                assert(whole[i] == right[i - n]);
                if holds_item(left, item) {
                    let j = choose|j: int| 0 <= j < left.len() && item(#[trigger] left[j]);
                    assert(item(whole[j]));
                } else {
                    let j = choose|j: int| 0 <= j < i - n && item(#[trigger] right[j]);
                    assert(item(whole[j + n]));
                }
            }
        }
    }
    if holds_item(left, item) {
        let j = choose|j: int| 0 <= j < left.len() && item(#[trigger] left[j]);
        assert(item(whole[j]));
    }
    if holds_item(right, item) {
        let j = choose|j: int| 0 <= j < right.len() && item(#[trigger] right[j]);
        assert(item(whole[j + n]));
    }
    if holds_item(whole, item) {
        let j = choose|j: int| 0 <= j < whole.len() && item(#[trigger] whole[j]);
        if j < n {
            assert(item(left[j]));
        } else {
            assert(item(right[j - n]));
        }
    }
}

/// The item that announces the reasoning.
pub open spec fn is_reasoning_item(output: StreamOutputView) -> bool {
    output matches Ok(ResponseEventView::OutputItemAdded(ResponseItemView::Reasoning { .. }))
}

/// The item that announces the answer.
pub open spec fn is_message_item(output: StreamOutputView) -> bool {
    output matches Ok(ResponseEventView::OutputItemAdded(ResponseItemView::Message { .. }))
}

/// The reasoning is introduced by its item.
pub open spec fn reasoning_introduced(outputs: Seq<StreamOutputView>, started: bool) -> bool {
    introduced(
        outputs,
        |output: StreamOutputView| is_reasoning_item(output),
        |output: StreamOutputView| is_reasoning_delta(output),
        started,
    )
}

/// The answer is introduced by its item.
pub open spec fn message_introduced(outputs: Seq<StreamOutputView>, started: bool) -> bool {
    introduced(
        outputs,
        |output: StreamOutputView| is_message_item(output),
        |output: StreamOutputView| is_text_delta(output),
        started,
    )
}

spec fn holds_reasoning_item(outputs: Seq<StreamOutputView>) -> bool {
    holds_item(outputs, |output: StreamOutputView| is_reasoning_item(output))
}

spec fn holds_message_item(outputs: Seq<StreamOutputView>) -> bool {
    holds_item(outputs, |output: StreamOutputView| is_message_item(output))
}

/// The items come as the two flags of the state say.
spec fn flags_kept(
    before: ChatCompletionsStateView,
    outputs: Seq<StreamOutputView>,
    after: ChatCompletionsStateView,
) -> bool {
    &&& reasoning_introduced(outputs, before.reasoning_item_started)
    &&& message_introduced(outputs, before.message_item_started)
    &&& after.reasoning_item_started == (before.reasoning_item_started || holds_reasoning_item(
        outputs,
    ))
    &&& after.message_item_started == (before.message_item_started || holds_message_item(outputs))
}

proof fn lemma_flags_concat(
    before: ChatCompletionsStateView,
    left: Seq<StreamOutputView>,
    middle: ChatCompletionsStateView,
    right: Seq<StreamOutputView>,
    after: ChatCompletionsStateView,
)
    requires
        flags_kept(before, left, middle),
        flags_kept(middle, right, after),
    ensures
        flags_kept(before, left + right, after),
{
    lemma_introduced_concat(
        left,
        right,
        |output: StreamOutputView| is_reasoning_item(output),
        |output: StreamOutputView| is_reasoning_delta(output),
        before.reasoning_item_started,
    );
    lemma_introduced_concat(
        left,
        right,
        |output: StreamOutputView| is_message_item(output),
        |output: StreamOutputView| is_text_delta(output),
        before.message_item_started,
    );
}

/// Outputs that are no part of the reasoning and of the answer leave the flags.
proof fn lemma_flags_silent(
    state: ChatCompletionsStateView,
    outputs: Seq<StreamOutputView>,
    after: ChatCompletionsStateView,
)
    requires
        forall|i: int|
            0 <= i < outputs.len() ==> {
                let output = #[trigger] outputs[i];
                !is_reasoning_item(output) && !is_reasoning_delta(output) && !is_message_item(
                    output,
                ) && !is_text_delta(output)
            },
        after.reasoning_item_started == state.reasoning_item_started,
        after.message_item_started == state.message_item_started,
    ensures
        flags_kept(state, outputs, after),
{
}

proof fn lemma_choice_flags(state: ChatCompletionsStateView, choice: ChatCompletionChoiceView)
    ensures
        flags_kept(state, choice_outputs(state, choice), after_choice(state, choice)),
{
    let reasoning = reasoning_outputs(state.reasoning_item_started, choice);
    let message = message_outputs(state.message_item_started, choice);
    let tools = tool_call_deltas_outputs(state.tool_calls, choice_tool_calls(choice));
    let second = ChatCompletionsStateView {
        reasoning_item_started: state.reasoning_item_started
            || choice.delta.reasoning_content is Some,
        ..state
    };
    let third = ChatCompletionsStateView {
        message_item_started: state.message_item_started || choice.delta.content is Some,
        ..second
    };
    assert(flags_kept(state, reasoning, second)) by {
        if choice.delta.reasoning_content is Some && !state.reasoning_item_started {
            assert(is_reasoning_item(reasoning[0]));
            assert(holds_reasoning_item(reasoning));
        }
    }
    assert(flags_kept(second, message, third)) by {
        if choice.delta.content is Some && !state.message_item_started {
            assert(is_message_item(message[0]));
            assert(holds_message_item(message));
        }
    }
    lemma_tool_outputs(state.tool_calls, choice_tool_calls(choice));
    lemma_flags_silent(third, tools, after_choice(state, choice));
    lemma_flags_concat(state, reasoning, second, message, third);
    lemma_flags_concat(state, reasoning + message, third, tools, after_choice(state, choice));
}

proof fn lemma_completion_flags(state: ChatCompletionsStateView)
    ensures
        flags_kept(state, completion(state).outputs, completion(state).state),
{
    lemma_function_outputs(state.tool_calls, tool_call_order(state.tool_calls));
    lemma_flags_silent(state, completion(state).outputs, completion(state).state);
}

proof fn lemma_choices_flags(
    state: ChatCompletionsStateView,
    choices: Seq<ChatCompletionChoiceView>,
)
    ensures
        flags_kept(
            state,
            choices_outcome(state, choices).outputs,
            choices_outcome(state, choices).state,
        ),
    decreases choices.len(),
{
    if choices.len() == 0 {
        lemma_flags_silent(state, Seq::empty(), state);
    } else {
        let choice = choices.first();
        let next = after_choice(state, choice);
        let outputs = choice_outputs(state, choice);
        lemma_choice_flags(state, choice);
        if choice.finish_reason is Some {
            lemma_completion_flags(next);
            lemma_flags_concat(
                state,
                outputs,
                next,
                completion(next).outputs,
                completion(next).state,
            );
        } else {
            let rest = choices_outcome(next, choices.drop_first());
            lemma_choices_flags(next, choices.drop_first());
            lemma_flags_concat(state, outputs, next, rest.outputs, rest.state);
        }
    }
}

proof fn lemma_step_flags(state: ChatCompletionsStateView, poll: ChatPollView)
    ensures
        flags_kept(state, chat_step(state, poll).outputs, chat_step(state, poll).state),
{
    let step = chat_step(state, poll);
    match poll {
        ChatPollView::Event { data, chunk } => {
            if trimmed(data) == "[DONE]"@ {
                lemma_completion_flags(state);
            } else if chunk is Ok {
                let chunk = chunk->Ok_0;
                let header = after_chunk_header(state, chunk);
                let rest = choices_outcome(header, chunk.choices);
                let opening: Seq<StreamOutputView> = if state.created_sent {
                    Seq::empty()
                } else {
                    seq![Ok(ResponseEventView::Created)]
                };
                lemma_flags_silent(state, opening, header);
                lemma_choices_flags(header, chunk.choices);
                lemma_flags_concat(state, opening, header, rest.outputs, rest.state);
            } else {
                lemma_flags_silent(state, step.outputs, step.state);
            }
        },
        _ => {
            lemma_flags_silent(state, step.outputs, step.state);
        },
    }
}

proof fn lemma_run_flags(state: ChatCompletionsStateView, polls: Seq<ChatPollView>)
    ensures
        flags_kept(state, chat_run(state, polls).outputs, chat_run(state, polls).state),
    decreases polls.len(),
{
    if polls.len() == 0 {
        lemma_flags_silent(state, Seq::empty(), state);
    } else {
        let first = chat_step(state, polls.first());
        lemma_step_flags(state, polls.first());
        if !first.finished {
            let rest = chat_run(first.state, polls.drop_first());
            lemma_run_flags(first.state, polls.drop_first());
            lemma_flags_concat(state, first.outputs, first.state, rest.outputs, rest.state);
        }
    }
}

/// The reasoning and the answer are announced by an item before any of their
/// text is handed over, and announced only once.
pub proof fn law_items_are_announced(polls: Seq<ChatPollView>)
    ensures
        reasoning_introduced(chat_run(initial_chat_state(), polls).outputs, false),
        message_introduced(chat_run(initial_chat_state(), polls).outputs, false),
{
    lemma_run_flags(initial_chat_state(), polls);
}

/// The chunks that a stream reads: those of the polls up to the one that ends
/// it.
pub open spec fn chunks_read(polls: Seq<ChatPollView>) -> Seq<ChatCompletionChunkView>
    decreases polls.len(),
{
    if polls.len() == 0 {
        Seq::empty()
    } else {
        match polls.first() {
            ChatPollView::Event { data, chunk: Ok(chunk) } => if trimmed(data) == "[DONE]"@ {
                Seq::empty()
            } else if finishes(chunk.choices) {
                seq![chunk]
            } else {
                seq![chunk] + chunks_read(polls.drop_first())
            },
            _ => Seq::empty(),
        }
    }
}

/// One of the choices finishes the response.
pub open spec fn finishes(choices: Seq<ChatCompletionChoiceView>) -> bool
    decreases choices.len(),
{
    choices.len() > 0 && (choices.first().finish_reason is Some || finishes(choices.drop_first()))
}

/// The choices up to the first one that finishes the response.
pub open spec fn choices_taken(choices: Seq<ChatCompletionChoiceView>) -> Seq<
    ChatCompletionChoiceView,
>
    decreases choices.len(),
{
    if choices.len() == 0 {
        Seq::empty()
    } else if choices.first().finish_reason is Some {
        seq![choices.first()]
    } else {
        seq![choices.first()] + choices_taken(choices.drop_first())
    }
}

/// The choices that a stream takes in.
pub open spec fn choices_read(polls: Seq<ChatPollView>) -> Seq<ChatCompletionChoiceView> {
    gathered(chunks_read(polls), |chunk: ChatCompletionChunkView| choices_taken(chunk.choices))
}

/// The text that a choice adds to the answer.
pub open spec fn choice_text(choice: ChatCompletionChoiceView) -> Seq<char> {
    match choice.delta.content {
        Some(text) => text,
        None => Seq::empty(),
    }
}

/// The reasoning that a choice adds.
pub open spec fn choice_reasoning(choice: ChatCompletionChoiceView) -> Seq<char> {
    match choice.delta.reasoning_content {
        Some(text) => text,
        None => Seq::empty(),
    }
}

/// The arguments that a delta adds to its tool call.
pub open spec fn added_arguments(delta: ChatToolCallDeltaView) -> Seq<char> {
    match delta.function {
        Some(function) => match function.arguments {
            Some(arguments) => arguments,
            None => Seq::empty(),
        },
        None => Seq::empty(),
    }
}

/// The tool call deltas that a choice holds.
pub open spec fn deltas_sent(choice: ChatCompletionChoiceView) -> Seq<ChatToolCallDeltaView> {
    match choice.delta.tool_calls {
        Some(deltas) => deltas,
        None => Seq::empty(),
    }
}

/// The text of the answer that was sent.
pub open spec fn text_sent(choices: Seq<ChatCompletionChoiceView>) -> Seq<char> {
    gathered(choices, |choice: ChatCompletionChoiceView| choice_text(choice))
}

/// The reasoning that was sent.
pub open spec fn reasoning_sent(choices: Seq<ChatCompletionChoiceView>) -> Seq<char> {
    gathered(choices, |choice: ChatCompletionChoiceView| choice_reasoning(choice))
}

/// The tool call deltas that were sent.
pub open spec fn tool_calls_sent(choices: Seq<ChatCompletionChoiceView>) -> Seq<
    ChatToolCallDeltaView,
> {
    gathered(choices, |choice: ChatCompletionChoiceView| deltas_sent(choice))
}

/// The tool call arguments that were sent.
pub open spec fn arguments_sent(deltas: Seq<ChatToolCallDeltaView>) -> Seq<char> {
    gathered(deltas, |delta: ChatToolCallDeltaView| added_arguments(delta))
}

/// The outputs hold what the choices hold.
spec fn delivered(
    outputs: Seq<StreamOutputView>,
    choices: Seq<ChatCompletionChoiceView>,
) -> bool {
    &&& text_received(outputs) == text_sent(choices)
    &&& reasoning_received(outputs) == reasoning_sent(choices)
    &&& arguments_received(outputs) == arguments_sent(tool_calls_sent(choices))
}

proof fn lemma_sent_concat(
    left: Seq<ChatCompletionChoiceView>,
    right: Seq<ChatCompletionChoiceView>,
)
    ensures
        text_sent(left + right) == text_sent(left) + text_sent(right),
        reasoning_sent(left + right) == reasoning_sent(left) + reasoning_sent(right),
        tool_calls_sent(left + right) == tool_calls_sent(left) + tool_calls_sent(right),
        arguments_sent(tool_calls_sent(left + right)) == arguments_sent(tool_calls_sent(left))
            + arguments_sent(tool_calls_sent(right)),
{
    lemma_gathered_concat(
        left,
        right,
        |choice: ChatCompletionChoiceView| choice_text(choice),
    );
    lemma_gathered_concat(
        left,
        right,
        |choice: ChatCompletionChoiceView| choice_reasoning(choice),
    );
    lemma_gathered_concat(
        left,
        right,
        |choice: ChatCompletionChoiceView| deltas_sent(choice),
    );
    lemma_gathered_concat(
        tool_calls_sent(left),
        tool_calls_sent(right),
        |delta: ChatToolCallDeltaView| added_arguments(delta),
    );
}

proof fn lemma_delivered_concat(
    first: Seq<StreamOutputView>,
    first_choices: Seq<ChatCompletionChoiceView>,
    second: Seq<StreamOutputView>,
    second_choices: Seq<ChatCompletionChoiceView>,
)
    requires
        delivered(first, first_choices),
        delivered(second, second_choices),
    ensures
        delivered(first + second, first_choices + second_choices),
{
    lemma_received_concat(first, second);
    lemma_sent_concat(first_choices, second_choices);
}

/// Outputs without text, reasoning and arguments.
proof fn lemma_delivered_nothing(outputs: Seq<StreamOutputView>)
    requires
        forall|i: int|
            0 <= i < outputs.len() ==> {
                let output = #[trigger] outputs[i];
                !is_text_delta(output) && !is_reasoning_delta(output) && !is_arguments_delta(output)
            },
    ensures
        delivered(outputs, Seq::empty()),
{
    lemma_received_nothing(outputs);
}

proof fn lemma_sent_one(choice: ChatCompletionChoiceView)
    ensures
        text_sent(seq![choice]) == choice_text(choice),
        reasoning_sent(seq![choice]) == choice_reasoning(choice),
        tool_calls_sent(seq![choice]) == choice_tool_calls(choice),
{
    lemma_gathered_one(choice, |choice: ChatCompletionChoiceView| choice_text(choice));
    lemma_gathered_one(choice, |choice: ChatCompletionChoiceView| choice_reasoning(choice));
    lemma_gathered_one(choice, |choice: ChatCompletionChoiceView| deltas_sent(choice));
}

proof fn lemma_tool_calls_delivered(calls: ToolCallsView, deltas: Seq<ChatToolCallDeltaView>)
    ensures
        text_received(tool_call_deltas_outputs(calls, deltas)) == Seq::<char>::empty(),
        reasoning_received(tool_call_deltas_outputs(calls, deltas)) == Seq::<char>::empty(),
        arguments_received(tool_call_deltas_outputs(calls, deltas)) == arguments_sent(deltas),
    decreases deltas.len(),
{
    if deltas.len() > 0 {
        let earlier = deltas.drop_last();
        let last = deltas.last();
        let outputs = tool_call_deltas_outputs(calls, earlier);
        let added = tool_call_delta_outputs(with_tool_call_deltas(calls, earlier), last);
        lemma_tool_calls_delivered(calls, earlier);
        lemma_received_concat(outputs, added);
        if delta_arguments(last) is Some {
            lemma_received_one(added[0]);
            assert(added =~= seq![added[0]]);
        } else {
            lemma_delivered_nothing(added);
        }
    }
}

proof fn lemma_choice_delivered(state: ChatCompletionsStateView, choice: ChatCompletionChoiceView)
    ensures
        delivered(choice_outputs(state, choice), seq![choice]),
{
    let reasoning = reasoning_outputs(state.reasoning_item_started, choice);
    let message = message_outputs(state.message_item_started, choice);
    let tools = tool_call_deltas_outputs(state.tool_calls, choice_tool_calls(choice));
    lemma_sent_one(choice);
    lemma_tool_calls_delivered(state.tool_calls, choice_tool_calls(choice));
    lemma_received_concat(reasoning, message);
    lemma_received_concat(reasoning + message, tools);
    assert(text_received(reasoning) =~= Seq::empty() && reasoning_received(reasoning)
        =~= choice_reasoning(choice) && arguments_received(reasoning) =~= Seq::empty()) by {
        if choice.delta.reasoning_content is None {
            lemma_delivered_nothing(reasoning);
        } else if state.reasoning_item_started {
            lemma_received_one(reasoning[0]);
            assert(reasoning =~= seq![reasoning[0]]);
        } else {
            lemma_received_one(reasoning[0]);
            lemma_received_one(reasoning[1]);
            lemma_received_concat(seq![reasoning[0]], seq![reasoning[1]]);
            assert(reasoning =~= seq![reasoning[0]] + seq![reasoning[1]]);
        }
    }
    assert(text_received(message) =~= choice_text(choice) && reasoning_received(message)
        =~= Seq::empty() && arguments_received(message) =~= Seq::empty()) by {
        if choice.delta.content is None {
            lemma_delivered_nothing(message);
        } else if state.message_item_started {
            lemma_received_one(message[0]);
            assert(message =~= seq![message[0]]);
        } else {
            lemma_received_one(message[0]);
            lemma_received_one(message[1]);
            lemma_received_concat(seq![message[0]], seq![message[1]]);
            assert(message =~= seq![message[0]] + seq![message[1]]);
        }
    }
    let outputs = choice_outputs(state, choice);
    assert(text_received(outputs) =~= text_sent(seq![choice]));
    assert(reasoning_received(outputs) =~= reasoning_sent(seq![choice]));
    assert(arguments_received(outputs) =~= arguments_sent(tool_calls_sent(seq![choice])));
}

proof fn lemma_completion_delivered(state: ChatCompletionsStateView)
    ensures
        delivered(completion(state).outputs, Seq::empty()),
{
    lemma_function_outputs(state.tool_calls, tool_call_order(state.tool_calls));
    lemma_delivered_nothing(completion(state).outputs);
}

proof fn lemma_choices_delivered(
    state: ChatCompletionsStateView,
    choices: Seq<ChatCompletionChoiceView>,
)
    ensures
        delivered(choices_outcome(state, choices).outputs, choices_taken(choices)),
        choices_outcome(state, choices).finished == finishes(choices),
    decreases choices.len(),
{
    if choices.len() == 0 {
        lemma_delivered_nothing(Seq::empty());
    } else {
        let choice = choices.first();
        let next = after_choice(state, choice);
        let outputs = choice_outputs(state, choice);
        lemma_choice_delivered(state, choice);
        if choice.finish_reason is Some {
            lemma_completion_delivered(next);
            lemma_delivered_concat(outputs, seq![choice], completion(next).outputs, Seq::empty());
            assert(seq![choice] + Seq::empty() =~= seq![choice]);
        } else {
            let rest = choices_outcome(next, choices.drop_first());
            lemma_choices_delivered(next, choices.drop_first());
            lemma_delivered_concat(
                outputs,
                seq![choice],
                rest.outputs,
                choices_taken(choices.drop_first()),
            );
        }
    }
}

/// The choices that a single poll brings.
spec fn poll_choices(poll: ChatPollView) -> Seq<ChatCompletionChoiceView> {
    match poll {
        ChatPollView::Event { data, chunk: Ok(chunk) } => if trimmed(data) == "[DONE]"@ {
            Seq::empty()
        } else {
            choices_taken(chunk.choices)
        },
        _ => Seq::empty(),
    }
}

proof fn lemma_step_delivered(state: ChatCompletionsStateView, poll: ChatPollView)
    ensures
        delivered(chat_step(state, poll).outputs, poll_choices(poll)),
{
    let step = chat_step(state, poll);
    match poll {
        ChatPollView::Event { data, chunk } => {
            if trimmed(data) == "[DONE]"@ {
                lemma_completion_delivered(state);
            } else if chunk is Ok {
                let chunk = chunk->Ok_0;
                let header = after_chunk_header(state, chunk);
                let rest = choices_outcome(header, chunk.choices);
                let opening: Seq<StreamOutputView> = if state.created_sent {
                    Seq::empty()
                } else {
                    seq![Ok(ResponseEventView::Created)]
                };
                lemma_delivered_nothing(opening);
                lemma_choices_delivered(header, chunk.choices);
                lemma_delivered_concat(
                    opening,
                    Seq::empty(),
                    rest.outputs,
                    choices_taken(chunk.choices),
                );
                assert(Seq::empty() + choices_taken(chunk.choices) =~= choices_taken(
                    chunk.choices,
                ));
            } else {
                lemma_delivered_nothing(step.outputs);
            }
        },
        _ => {
            lemma_delivered_nothing(step.outputs);
        },
    }
}

/// The choices of the first poll come before those of the others.
proof fn lemma_choices_read(state: ChatCompletionsStateView, polls: Seq<ChatPollView>)
    requires
        polls.len() > 0,
    ensures
        choices_read(polls) == if chat_step(state, polls.first()).finished {
            poll_choices(polls.first())
        } else {
            poll_choices(polls.first()) + choices_read(polls.drop_first())
        },
{
    let part = |chunk: ChatCompletionChunkView| choices_taken(chunk.choices);
    match polls.first() {
        ChatPollView::Event { data, chunk: Ok(chunk) } => {
            if trimmed(data) != "[DONE]"@ {
                lemma_choices_delivered(after_chunk_header(state, chunk), chunk.choices);
                lemma_gathered_one(chunk, part);
                lemma_gathered_concat(seq![chunk], chunks_read(polls.drop_first()), part);
            }
        },
        _ => {},
    }
}

proof fn lemma_run_delivered(state: ChatCompletionsStateView, polls: Seq<ChatPollView>)
    ensures
        delivered(chat_run(state, polls).outputs, choices_read(polls)),
    decreases polls.len(),
{
    if polls.len() == 0 {
        lemma_delivered_nothing(Seq::empty());
    } else {
        let first = chat_step(state, polls.first());
        lemma_step_delivered(state, polls.first());
        lemma_choices_read(state, polls);
        if !first.finished {
            let rest = chat_run(first.state, polls.drop_first());
            lemma_run_delivered(first.state, polls.drop_first());
            lemma_delivered_concat(
                first.outputs,
                poll_choices(polls.first()),
                rest.outputs,
                choices_read(polls.drop_first()),
            );
        }
    }
}

/// Nothing is lost on the way: the text of the answer, the reasoning and the
/// arguments of the tool calls come out as they were sent, whole and in order.
pub proof fn law_text_passes_through(polls: Seq<ChatPollView>)
    ensures
        ({
            let outputs = chat_run(initial_chat_state(), polls).outputs;
            &&& text_received(outputs) == text_sent(choices_read(polls))
            &&& reasoning_received(outputs) == reasoning_sent(choices_read(polls))
            &&& arguments_received(outputs) == arguments_sent(
                tool_calls_sent(choices_read(polls)),
            )
        }),
{
    lemma_run_delivered(initial_chat_state(), polls);
}

/// The first id that a chunk gives.
pub open spec fn first_id(chunks: Seq<ChatCompletionChunkView>) -> Option<Seq<char>>
    decreases chunks.len(),
{
    if chunks.len() == 0 {
        None
    } else if chunks.first().id is Some {
        chunks.first().id
    } else {
        first_id(chunks.drop_first())
    }
}

/// The last usage that a chunk reports.
pub open spec fn last_usage(chunks: Seq<ChatCompletionChunkView>) -> Option<TokenUsage>
    decreases chunks.len(),
{
    if chunks.len() == 0 {
        None
    } else {
        match chunks.last().usage {
            Some(usage) => Some(token_usage(usage)),
            None => last_usage(chunks.drop_last()),
        }
    }
}

/// The tool calls that the chunks of a stream add up to.
pub open spec fn tool_calls_read(polls: Seq<ChatPollView>) -> ToolCallsView {
    with_tool_call_deltas(Map::empty(), tool_calls_sent(choices_read(polls)))
}

/// What the chunks of a stream add up to.
pub open spec fn response_read(polls: Seq<ChatPollView>) -> ChatCompletionsStateView {
    ChatCompletionsStateView {
        response_id: first_id(chunks_read(polls)),
        usage: last_usage(chunks_read(polls)),
        tool_calls: tool_calls_read(polls),
        ..initial_chat_state()
    }
}

/// The state `after` holds what `before` held, and what chunks with this id and
/// this usage and these deltas added.
spec fn grown(
    before: ChatCompletionsStateView,
    id: Option<Seq<char>>,
    usage: Option<TokenUsage>,
    deltas: Seq<ChatToolCallDeltaView>,
    after: ChatCompletionsStateView,
) -> bool {
    &&& after.response_id == if before.response_id is Some {
        before.response_id
    } else {
        id
    }
    &&& after.usage == if usage is Some {
        usage
    } else {
        before.usage
    }
    &&& after.tool_calls == with_tool_call_deltas(before.tool_calls, deltas)
}

/// Taking in tool call deltas in two parts, the second from where the first
/// leads to, comes to the same as taking them in at once.
pub proof fn law_tool_call_deltas_in_parts(
    calls: ToolCallsView,
    left: Seq<ChatToolCallDeltaView>,
    right: Seq<ChatToolCallDeltaView>,
)
    ensures
        with_tool_call_deltas(calls, left + right) == with_tool_call_deltas(
            with_tool_call_deltas(calls, left),
            right,
        ),
        tool_call_deltas_outputs(calls, left + right) == tool_call_deltas_outputs(calls, left)
            + tool_call_deltas_outputs(with_tool_call_deltas(calls, left), right),
    decreases right.len(),
{
    let a = tool_call_deltas_outputs(calls, left);
    if right.len() == 0 {
        assert(left + right =~= left);
        assert(a + Seq::empty() =~= a);
    } else {
        assert((left + right).drop_last() =~= left + right.drop_last());
        law_tool_call_deltas_in_parts(calls, left, right.drop_last());
        let b = tool_call_deltas_outputs(with_tool_call_deltas(calls, left), right.drop_last());
        let added = tool_call_delta_outputs(
            with_tool_call_deltas(calls, left + right.drop_last()),
            right.last(),
        );
        assert((a + b) + added =~= a + (b + added));
    }
}

/// What choices add to a state: the outcome is either a state that has grown by
/// their deltas, or the completion of one.
proof fn lemma_choices_grow(
    state: ChatCompletionsStateView,
    choices: Seq<ChatCompletionChoiceView>,
) -> (last: ChatCompletionsStateView)
    requires
        !state.completed_sent,
    ensures
        grown(state, None, None, tool_calls_sent(choices_taken(choices)), last),
        finishes(choices) ==> ends_with(
            choices_outcome(state, choices).outputs,
            completion_outputs(last),
        ),
        !finishes(choices) ==> choices_outcome(state, choices).state == last
            && !last.completed_sent,
    decreases choices.len(),
{
    if choices.len() == 0 {
        state
    } else {
        let choice = choices.first();
        let next = after_choice(state, choice);
        let outputs = choice_outputs(state, choice);
        lemma_sent_one(choice);
        if choice.finish_reason is Some {
            let end = completion_outputs(next);
            assert(end.skip(0) =~= end);
            lemma_ends_with(outputs, end, end);
            next
        } else {
            let rest = choices.drop_first();
            let last = lemma_choices_grow(next, rest);
            lemma_sent_concat(seq![choice], choices_taken(rest));
            law_tool_call_deltas_in_parts(
                state.tool_calls,
                choice_tool_calls(choice),
                tool_calls_sent(choices_taken(rest)),
            );
            if finishes(rest) {
                lemma_ends_with(
                    outputs,
                    choices_outcome(next, rest).outputs,
                    completion_outputs(last),
                );
            }
            last
        }
    }
}

proof fn lemma_last_usage_first(chunk: ChatCompletionChunkView, rest: Seq<ChatCompletionChunkView>)
    ensures
        last_usage(seq![chunk] + rest) == if last_usage(rest) is Some {
            last_usage(rest)
        } else {
            match chunk.usage {
                Some(usage) => Some(token_usage(usage)),
                None => None,
            }
        },
    decreases rest.len(),
{
    let all = seq![chunk] + rest;
    if rest.len() == 0 {
        assert(all.last() == chunk);
        assert(last_usage(all.drop_last()) is None);
    } else {
        assert(all.last() == rest.last());
        assert(all.drop_last() =~= seq![chunk] + rest.drop_last());
        lemma_last_usage_first(chunk, rest.drop_last());
    }
}

proof fn lemma_run_grows(state: ChatCompletionsStateView, polls: Seq<ChatPollView>) -> (last:
    ChatCompletionsStateView)
    requires
        !state.completed_sent,
    ensures
        grown(
            state,
            first_id(chunks_read(polls)),
            last_usage(chunks_read(polls)),
            tool_calls_sent(choices_read(polls)),
            last,
        ),
        ({
            let run = chat_run(state, polls);
            &&& run.finished && is_completed(run.outputs.last()) ==> ends_with(
                run.outputs,
                completion_outputs(last),
            )
        }),
    decreases polls.len(),
{
    if polls.len() == 0 {
        state
    } else {
        let poll = polls.first();
        let first = chat_step(state, poll);
        lemma_choices_read(state, polls);
        match poll {
            ChatPollView::Event { data, chunk } => {
                if trimmed(data) == "[DONE]"@ {
                    let end = completion_outputs(state);
                    assert(end.skip(0) =~= end);
                    state
                } else if chunk is Ok {
                    let chunk = chunk->Ok_0;
                    let header = after_chunk_header(state, chunk);
                    let opening: Seq<StreamOutputView> = if state.created_sent {
                        Seq::empty()
                    } else {
                        seq![Ok(ResponseEventView::Created)]
                    };
                    let middle = lemma_choices_grow(header, chunk.choices);
                    let rest = polls.drop_first();
                    lemma_choices_delivered(header, chunk.choices);
                    if finishes(chunk.choices) {
                        lemma_ends_with(
                            opening,
                            choices_outcome(header, chunk.choices).outputs,
                            completion_outputs(middle),
                        );
                        lemma_last_usage_first(chunk, Seq::empty());
                        assert(seq![chunk] + Seq::empty() =~= seq![chunk]);
                        assert(seq![chunk].drop_first() =~= Seq::empty());
                        middle
                    } else {
                        let last = lemma_run_grows(middle, rest);
                        lemma_last_usage_first(chunk, chunks_read(rest));
                        assert((seq![chunk] + chunks_read(rest)).drop_first() =~= chunks_read(
                            rest,
                        ));
                        lemma_sent_concat(choices_taken(chunk.choices), choices_read(rest));
                        law_tool_call_deltas_in_parts(
                            state.tool_calls,
                            tool_calls_sent(choices_taken(chunk.choices)),
                            tool_calls_sent(choices_read(rest)),
                        );
                        let run = chat_run(state, polls);
                        let later = chat_run(first.state, rest);
                        lemma_run_shape(first.state, rest);
                        assert(run.outputs == first.outputs + later.outputs);
                        if run.finished && is_completed(run.outputs.last()) {
                            assert(run.outputs.last() == later.outputs.last());
                            lemma_ends_with(
                                first.outputs,
                                later.outputs,
                                completion_outputs(last),
                            );
                        }
                        last
                    }
                } else {
                    state
                }
            },
            _ => state,
        }
    }
}

/// What a complete response is closed with: behind everything else come the
/// tool calls that the chunks add up to, in the order of their indices, and an
/// event with the first id and the last usage that a chunk gave.
pub proof fn law_completion(polls: Seq<ChatPollView>)
    ensures
        ({
            let run = chat_run(initial_chat_state(), polls);
            run.finished && is_completed(run.outputs.last()) ==> ends_with(
                run.outputs,
                completion_outputs(response_read(polls)),
            )
        }),
{
    let last = lemma_run_grows(initial_chat_state(), polls);
    assert(completion_outputs(last) == completion_outputs(response_read(polls)));
}

/// The last of the ids that the deltas of a tool call give.
pub open spec fn last_given_id(deltas: Seq<ChatToolCallDeltaView>, index: i64) -> Option<Seq<char>>
    decreases deltas.len(),
{
    if deltas.len() == 0 {
        None
    } else if deltas.last().index == index && deltas.last().id is Some {
        deltas.last().id
    } else {
        last_given_id(deltas.drop_last(), index)
    }
}

/// The last of the names that the deltas of a tool call give.
pub open spec fn last_given_name(deltas: Seq<ChatToolCallDeltaView>, index: i64) -> Option<
    Seq<char>,
>
    decreases deltas.len(),
{
    if deltas.len() == 0 {
        None
    } else if deltas.last().index == index && deltas.last().function is Some
        && deltas.last().function->Some_0.name is Some {
        deltas.last().function->Some_0.name
    } else {
        last_given_name(deltas.drop_last(), index)
    }
}

/// The arguments that the deltas of a tool call give, one behind the other.
pub open spec fn given_arguments(deltas: Seq<ChatToolCallDeltaView>, index: i64) -> Seq<char> {
    gathered(
        deltas,
        |delta: ChatToolCallDeltaView|
            if delta.index == index {
                added_arguments(delta)
            } else {
                Seq::empty()
            },
    )
}

/// What a tool call adds up to: the last id and the last name that its deltas
/// give, and all their arguments in order. A call is there if and only if a
/// delta speaks of it, and calls do not mix.
pub proof fn law_tool_call_adds_up(deltas: Seq<ChatToolCallDeltaView>, index: i64)
    ensures
        ({
            let calls = with_tool_call_deltas(Map::empty(), deltas);
            &&& calls.contains_key(index) <==> exists|i: int|
                0 <= i < deltas.len() && (#[trigger] deltas[i]).index == index
            &&& tool_call_at(calls, index) == (ToolCallAccumulatorView {
                id: last_given_id(deltas, index),
                name: last_given_name(deltas, index),
                arguments: given_arguments(deltas, index),
            })
        }),
    decreases deltas.len(),
{
    if deltas.len() > 0 {
        let earlier = deltas.drop_last();
        let last = deltas.last();
        law_tool_call_adds_up(earlier, index);
        let before = with_tool_call_deltas(Map::empty(), earlier);
        let calls = with_tool_call_deltas(Map::empty(), deltas);
        assert(given_arguments(deltas, index) =~= given_arguments(earlier, index)
            + if last.index == index {
            added_arguments(last)
        } else {
            Seq::empty()
        });
        if before.contains_key(index) {
            let i = choose|i: int|
                0 <= i < earlier.len() && (#[trigger] earlier[i]).index == index;
            assert(deltas[i].index == index);
        }
        if exists|i: int| 0 <= i < deltas.len() && (#[trigger] deltas[i]).index == index {
            let i = choose|i: int| 0 <= i < deltas.len() && (#[trigger] deltas[i]).index == index;
            if i < earlier.len() {
                assert(earlier[i].index == index);
            }
        }
        if last.index == index {
            assert(deltas[deltas.len() - 1].index == index);
            assert(tool_call_at(calls, index).arguments =~= given_arguments(deltas, index));
        }
    }
}

/// The deltas of a stream add up to finitely many tool calls.
proof fn lemma_finitely_many(calls: ToolCallsView, deltas: Seq<ChatToolCallDeltaView>)
    requires
        calls.dom().finite(),
    ensures
        with_tool_call_deltas(calls, deltas).dom().finite(),
    decreases deltas.len(),
{
    if deltas.len() > 0 {
        lemma_finitely_many(calls, deltas.drop_last());
    }
}

proof fn lemma_function_call_comes(calls: ToolCallsView, order: Seq<i64>, at: int)
    requires
        0 <= at < order.len(),
    ensures
        finished_tool_call(calls[order[at]]) matches Some(item) ==> function_call_outputs(
            calls,
            order,
        ).contains(Ok(ResponseEventView::OutputItemDone(item))),
    decreases order.len(),
{
    if finished_tool_call(calls[order[at]]) is Some {
        let output: StreamOutputView = Ok(
            ResponseEventView::OutputItemDone(finished_tool_call(calls[order[at]])->Some_0),
        );
        let before = function_call_outputs(calls, order.drop_last());
        let outputs = function_call_outputs(calls, order);
        if at == order.len() - 1 {
            assert(outputs == before.push(output));
            assert(outputs[before.len() as int] == output);
        } else {
            lemma_function_call_comes(calls, order.drop_last(), at);
            assert(order.drop_last()[at] == order[at]);
            assert(before.contains(output));
            let i = choose|i: int| 0 <= i < before.len() && before[i] == output;
            assert(outputs[i] == output);
        }
    }
}

/// An output that hands over one of the tool calls.
pub open spec fn hands_over_a_call(calls: ToolCallsView, output: StreamOutputView) -> bool {
    exists|index: i64| #[trigger]
        calls.contains_key(index) && finished_tool_call(calls[index]) is Some && output == Ok::<
            ResponseEventView,
            ApiErrorView,
        >(ResponseEventView::OutputItemDone(finished_tool_call(calls[index])->Some_0))
}

proof fn lemma_only_calls_come(calls: ToolCallsView, order: Seq<i64>)
    requires
        forall|i: int| 0 <= i < order.len() ==> calls.contains_key(#[trigger] order[i]),
    ensures
        forall|k: int|
            0 <= k < function_call_outputs(calls, order).len() ==> hands_over_a_call(
                calls,
                #[trigger] function_call_outputs(calls, order)[k],
            ),
    decreases order.len(),
{
    if order.len() > 0 {
        let rest = order.drop_last();
        assert forall|i: int| 0 <= i < rest.len() implies calls.contains_key(
            #[trigger] rest[i],
        ) by {
            assert(rest[i] == order[i]);
        }
        lemma_only_calls_come(calls, rest);
        let before = function_call_outputs(calls, rest);
        let outputs = function_call_outputs(calls, order);
        assert(calls.contains_key(order[order.len() - 1]));
        assert forall|k: int| 0 <= k < outputs.len() implies hands_over_a_call(
            calls,
            #[trigger] outputs[k],
        ) by {
            if k < before.len() {
                assert(outputs[k] == before[k]);
            }
        }
    }
}

/// No tool call is lost and none is made up: a complete response goes through
/// all of its tool calls, lowest index first, hands over each one that has an
/// id and a name, and hands over no others.
pub proof fn law_tool_calls_come_out(polls: Seq<ChatPollView>)
    ensures
        ({
            let calls = tool_calls_read(polls);
            let order = tool_call_order(calls);
            &&& forall|i: int, j: int| 0 <= i < j < order.len() ==> order[i] < order[j]
            &&& order.to_set() == calls.dom()
            &&& forall|index: i64| #[trigger]
                calls.contains_key(index) ==> (finished_tool_call(calls[index]) matches Some(item)
                    ==> function_call_outputs(calls, order).contains(
                    Ok(ResponseEventView::OutputItemDone(item)),
                ))
            &&& forall|k: int|
                0 <= k < function_call_outputs(calls, order).len() ==> hands_over_a_call(
                    calls,
                    #[trigger] function_call_outputs(calls, order)[k],
                )
        }),
{
    let calls = tool_calls_read(polls);
    let order = tool_call_order(calls);
    lemma_finitely_many(Map::empty(), tool_calls_sent(choices_read(polls)));
    let rank = |index: i64| index as int;
    lemma_order_exists(calls.dom(), rank);
    assert(order == ordered_keys(calls.dom(), rank));
    assert forall|i: int, j: int| 0 <= i < j < order.len() implies order[i] < order[j] by {
        assert(rank(order[i]) < rank(order[j]));
    }
    assert forall|index: i64| #[trigger] calls.contains_key(index) implies (finished_tool_call(
        calls[index],
    ) matches Some(item) ==> function_call_outputs(calls, order).contains(
        Ok(ResponseEventView::OutputItemDone(item)),
    )) by {
        assert(order.to_set().contains(index));
        let at = choose|at: int| 0 <= at < order.len() && order[at] == index;
        lemma_function_call_comes(calls, order, at);
    }
    assert forall|i: int| 0 <= i < order.len() implies calls.contains_key(
        #[trigger] order[i],
    ) by {
        assert(order.to_set().contains(order[i]));
    }
    lemma_only_calls_come(calls, order);
}

/// A poll that completes the response.
pub open spec fn completes(poll: ChatPollView) -> bool {
    poll matches ChatPollView::Event { data, chunk } && (trimmed(data) == "[DONE]"@ || (
    chunk matches Ok(chunk) && finishes(chunk.choices)))
}

/// What a poll fails the stream with, if it does.
pub open spec fn failure_of(poll: ChatPollView) -> Option<Seq<char>> {
    match poll {
        ChatPollView::Event { data, chunk } => if trimmed(data) == "[DONE]"@ {
            None
        } else {
            match chunk {
                Ok(_) => None,
                Err(message) => Some("failed to parse chat completion chunk: "@ + message),
            }
        },
        ChatPollView::DecodeError(message) => Some(message),
        ChatPollView::Closed => Some("stream closed before chat completion finished"@),
        ChatPollView::IdleTimeout => Some("idle timeout waiting for SSE"@),
    }
}

/// The stream is completed at `i`, if not before, and has not failed by then.
pub open spec fn completes_at(polls: Seq<ChatPollView>, i: int) -> bool {
    &&& 0 <= i < polls.len()
    &&& completes(polls[i])
    &&& forall|j: int| 0 <= j < i ==> failure_of(#[trigger] polls[j]) is None
}

/// The stream fails at `i`, if not before, and is not completed by then.
pub open spec fn fails_at(polls: Seq<ChatPollView>, i: int) -> bool {
    &&& 0 <= i < polls.len()
    &&& failure_of(polls[i]) is Some
    &&& forall|j: int|
        0 <= j < i ==> failure_of(#[trigger] polls[j]) is None && !completes(polls[j])
}

proof fn lemma_choices_ending(
    state: ChatCompletionsStateView,
    choices: Seq<ChatCompletionChoiceView>,
)
    requires
        !state.completed_sent,
    ensures
        choices_outcome(state, choices).finished <==> finishes(choices),
        finishes(choices) ==> ends_completed(choices_outcome(state, choices).outputs),
        !finishes(choices) ==> nothing_finished(choices_outcome(state, choices).outputs),
    decreases choices.len(),
{
    if choices.len() > 0 {
        let choice = choices.first();
        let next = after_choice(state, choice);
        let outputs = choice_outputs(state, choice);
        let whole = choices_outcome(state, choices).outputs;
        lemma_tool_outputs(state.tool_calls, choice_tool_calls(choice));
        if choice.finish_reason is Some {
            assert(whole == outputs + completion_outputs(next));
            assert(whole.last() == completion_outputs(next).last());
        } else {
            let rest = choices_outcome(next, choices.drop_first()).outputs;
            lemma_choices_ending(next, choices.drop_first());
            assert(whole == outputs + rest);
            if rest.len() > 0 {
                assert(whole.last() == rest.last());
            }
            if !finishes(choices) {
                assert forall|i: int| 0 <= i < whole.len() implies !is_finished_item(
                    #[trigger] whole[i],
                ) by {
                    if i < outputs.len() {
                        assert(whole[i] == outputs[i]);
                    } else {
                        assert(whole[i] == rest[i - outputs.len()]);
                    }
                }
            }
        }
    }
}

proof fn lemma_step_ending(state: ChatCompletionsStateView, poll: ChatPollView)
    requires
        !state.completed_sent,
    ensures
        completes(poll) ==> failure_of(poll) is None,
        chat_step(state, poll).finished <==> completes(poll) || failure_of(poll) is Some,
        completes(poll) ==> ends_completed(chat_step(state, poll).outputs),
        failure_of(poll) matches Some(message) ==> chat_step(state, poll).outputs == seq![
            Err::<ResponseEventView, ApiErrorView>(ApiErrorView::Stream(message)),
        ],
        !completes(poll) ==> nothing_finished(chat_step(state, poll).outputs),
{
    if let ChatPollView::Event { data, chunk } = poll {
        if trimmed(data) == "[DONE]"@ {
            assert(chat_step(state, poll).outputs == completion_outputs(state));
        } else if let Ok(chunk) = chunk {
            let next = after_chunk_header(state, chunk);
            let rest = choices_outcome(next, chunk.choices).outputs;
            let outputs = chat_step(state, poll).outputs;
            lemma_choices_ending(next, chunk.choices);
            let opening: Seq<StreamOutputView> = if state.created_sent {
                Seq::empty()
            } else {
                seq![Ok(ResponseEventView::Created)]
            };
            assert(outputs == opening + rest);
            if rest.len() > 0 {
                assert(outputs.last() == rest.last());
            }
            if !completes(poll) {
                assert forall|i: int| 0 <= i < outputs.len() implies !is_finished_item(
                    #[trigger] outputs[i],
                ) by {
                    if i < opening.len() {
                        assert(outputs[i] == opening[i]);
                    } else {
                        assert(outputs[i] == rest[i - opening.len()]);
                    }
                }
            }
        }
    }
}

proof fn lemma_run_ending(state: ChatCompletionsStateView, polls: Seq<ChatPollView>)
    requires
        !state.completed_sent,
    ensures
        ({
            let outputs = chat_run(state, polls).outputs;
            &&& ends_completed(outputs) <==> exists|i: int| completes_at(polls, i)
            &&& ends_failed(outputs) <==> exists|i: int| fails_at(polls, i)
            &&& forall|i: int| #[trigger]
                fails_at(polls, i) ==> outputs.last() == Err::<ResponseEventView, ApiErrorView>(
                    ApiErrorView::Stream(failure_of(polls[i])->Some_0),
                )
            &&& !ends_completed(outputs) ==> nothing_finished(outputs)
        }),
    decreases polls.len(),
{
    if polls.len() > 0 {
        let poll = polls.first();
        let first = chat_step(state, poll);
        let outputs = chat_run(state, polls).outputs;
        lemma_step_ending(state, poll);
        lemma_step_shape(state, poll);
        if completes(poll) {
            assert(completes_at(polls, 0));
            assert forall|i: int| !fails_at(polls, i) by {
                if fails_at(polls, i) {
                    assert(failure_of(polls[0]) is None && !completes(polls[0]));
                }
            }
        } else if failure_of(poll) is Some {
            assert(fails_at(polls, 0));
            assert forall|i: int| !completes_at(polls, i) by {
                if completes_at(polls, i) {
                    assert(failure_of(polls[0]) is None);
                }
            }
            assert forall|i: int| #[trigger] fails_at(polls, i) implies i == 0 by {
                if i > 0 {
                    assert(failure_of(polls[0]) is None);
                }
            }
        } else {
            let later = polls.drop_first();
            let rest = chat_run(first.state, later);
            lemma_run_ending(first.state, later);
            assert(outputs == first.outputs + rest.outputs);
            if rest.outputs.len() > 0 {
                assert(outputs.last() == rest.outputs.last());
            } else if first.outputs.len() > 0 {
                assert(outputs.last() == first.outputs.last());
            }
            assert forall|i: int| #[trigger] completes_at(later, i) implies completes_at(
                polls,
                i + 1,
            ) by {
                assert forall|j: int| 0 <= j < i + 1 implies failure_of(
                    #[trigger] polls[j],
                ) is None by {
                    if j > 0 {
                        assert(later[j - 1] == polls[j]);
                    }
                }
            }
            assert forall|i: int| #[trigger] completes_at(polls, i) implies completes_at(
                later,
                i - 1,
            ) by {
                assert forall|j: int| 0 <= j < i - 1 implies failure_of(
                    #[trigger] later[j],
                ) is None by {
                    assert(later[j] == polls[j + 1]);
                }
            }
            assert forall|i: int| #[trigger] fails_at(later, i) implies fails_at(polls, i + 1) by {
                assert forall|j: int| 0 <= j < i + 1 implies failure_of(
                    #[trigger] polls[j],
                ) is None && !completes(polls[j]) by {
                    if j > 0 {
                        assert(later[j - 1] == polls[j]);
                    }
                }
            }
            assert forall|i: int| #[trigger] fails_at(polls, i) implies fails_at(later, i - 1)
                && later[i - 1] == polls[i] by {
                assert forall|j: int| 0 <= j < i - 1 implies failure_of(
                    #[trigger] later[j],
                ) is None && !completes(later[j]) by {
                    assert(later[j] == polls[j + 1]);
                }
            }
            if exists|i: int| completes_at(later, i) {
                let i = choose|i: int| completes_at(later, i);
                assert(completes_at(polls, i + 1));
            }
            if exists|i: int| completes_at(polls, i) {
                let i = choose|i: int| completes_at(polls, i);
                assert(completes_at(later, i - 1));
            }
            if exists|i: int| fails_at(later, i) {
                let i = choose|i: int| fails_at(later, i);
                assert(fails_at(polls, i + 1));
            }
            if !ends_completed(outputs) {
                assert forall|i: int| 0 <= i < outputs.len() implies !is_finished_item(
                    #[trigger] outputs[i],
                ) by {
                    if i < first.outputs.len() {
                        assert(outputs[i] == first.outputs[i]);
                    } else {
                        assert(outputs[i] == rest.outputs[i - first.outputs.len()]);
                    }
                }
            }
        }
    }
}

/// A response is completed if and only if `[DONE]` or a finish reason comes
/// before any failure, and it fails, with the reason of the failure, if and only
/// if a failure comes before these. The end of the stream is a failure.
pub proof fn law_completion_or_failure(polls: Seq<ChatPollView>)
    ensures
        ({
            let outputs = chat_run(initial_chat_state(), polls).outputs;
            &&& ends_completed(outputs) <==> exists|i: int| completes_at(polls, i)
            &&& ends_failed(outputs) <==> exists|i: int| fails_at(polls, i)
            &&& forall|i: int| #[trigger]
                fails_at(polls, i) ==> outputs.last() == Err::<ResponseEventView, ApiErrorView>(
                    ApiErrorView::Stream(failure_of(polls[i])->Some_0),
                )
        }),
{
    lemma_run_ending(initial_chat_state(), polls);
}

/// Finished items come of complete responses only: a stream that fails, or that
/// is still under way, has handed over none.
pub proof fn law_only_complete_responses_finish_items(polls: Seq<ChatPollView>)
    ensures
        ({
            let outputs = chat_run(initial_chat_state(), polls).outputs;
            !ends_completed(outputs) ==> nothing_finished(outputs)
        }),
{
    lemma_run_ending(initial_chat_state(), polls);
}

} // verus!
