//! What each poll of a chat completions stream comes to, and how polls that say
//! more come to what simpler polls come to one after the other.

use vstd::prelude::*;

use crate::protocol::{
    ApiErrorView, ContentItemView, ReasoningItemContentView, ResponseEventView, ResponseItemView,
};
use crate::sse::chat_completions::{
    after_choice, chat_run, chat_step, choice_outputs, choices_outcome, completion,
    finished_tool_call, function_call_outputs, initial_chat_state, tool_call_deltas_outputs,
    tool_call_order, with_tool_call_deltas, ChatCompletionsStateView, ChatOutcome, ChatPollView,
    ToolCallAccumulatorView, ToolCallsView,
};
use crate::sse::chat_laws::{law_run_in_parts, law_tool_call_deltas_in_parts};
use crate::sse::chunk::{
    token_usage, ChatCompletionChoiceView, ChatCompletionChunkView, ChatCompletionDeltaView,
    ChatToolCallDeltaView, ChatUsage,
};
use crate::sse::order::{increasing, lemma_order_exists, lemma_ordered_keys, ordered_keys};
use crate::sse::outbox::StreamOutputView;
use crate::text::signed_decimal;
use crate::text_laws::{law_done, says_done};
use crate::tool_name::decoded_tool_name;

verus! {

/// `whole` is `first` and then `second`.
pub open spec fn is_both(whole: ChatOutcome, first: ChatOutcome, second: ChatOutcome) -> bool {
    &&& whole.state == second.state
    &&& whole.outputs == first.outputs + second.outputs
    &&& whole.finished == second.finished
}

/// An event that was read as a chunk.
pub open spec fn read_as(data: Seq<char>, chunk: ChatCompletionChunkView) -> ChatPollView {
    ChatPollView::Event { data, chunk: Ok(chunk) }
}

/// A chunk of nothing but choices.
pub open spec fn only_choices(choices: Seq<ChatCompletionChoiceView>) -> ChatCompletionChunkView {
    ChatCompletionChunkView { id: None, choices, usage: None }
}

/// A chunk of nothing but one delta.
pub open spec fn only_delta(index: i64, delta: ChatCompletionDeltaView) -> ChatCompletionChunkView {
    only_choices(seq![ChatCompletionChoiceView { index, delta, finish_reason: None }])
}

/// A delta of nothing but reasoning.
pub open spec fn reasons(text: Seq<char>) -> ChatCompletionDeltaView {
    ChatCompletionDeltaView { content: None, reasoning_content: Some(text), tool_calls: None }
}

/// A delta of nothing but text.
pub open spec fn answers(text: Seq<char>) -> ChatCompletionDeltaView {
    ChatCompletionDeltaView { content: Some(text), reasoning_content: None, tool_calls: None }
}

/// A delta of nothing but tool calls.
pub open spec fn calls_tools(deltas: Seq<ChatToolCallDeltaView>) -> ChatCompletionDeltaView {
    ChatCompletionDeltaView { content: None, reasoning_content: None, tool_calls: Some(deltas) }
}

/// An event that says that the stream is done.
pub open spec fn done(
    data: Seq<char>,
    chunk: Result<ChatCompletionChunkView, Seq<char>>,
) -> ChatPollView {
    ChatPollView::Event { data, chunk }
}

/// A chunk without choices opens the response, if that is still to be done. The
/// first id that is given stays, and the last usage counts.
pub proof fn law_chunk_fields(
    state: ChatCompletionsStateView,
    data: Seq<char>,
    id: Option<Seq<char>>,
    usage: Option<ChatUsage>,
)
    requires
        !says_done(data),
    ensures
        ({
            let step = chat_step(
                state,
                read_as(data, ChatCompletionChunkView { id, choices: Seq::empty(), usage }),
            );
            &&& !step.finished
            &&& state.created_sent ==> step.outputs.len() == 0
            &&& !state.created_sent ==> step.outputs == seq![
                Ok::<ResponseEventView, ApiErrorView>(ResponseEventView::Created),
            ]
            &&& step.state.created_sent
            &&& state.response_id is Some ==> step.state.response_id == state.response_id
            &&& state.response_id is None ==> step.state.response_id == id
            &&& usage is None ==> step.state.usage == state.usage
            &&& usage matches Some(counts) ==> step.state.usage == Some(token_usage(counts))
            &&& step.state.tool_calls == state.tool_calls
            &&& step.state.completed_sent == state.completed_sent
            &&& step.state.message_item_started == state.message_item_started
            &&& step.state.reasoning_item_started == state.reasoning_item_started
        }),
{
    law_done(data);
}

/// A chunk comes to what its own fields come to and then its choices.
pub proof fn law_chunk_fields_come_first(
    state: ChatCompletionsStateView,
    data: Seq<char>,
    chunk: ChatCompletionChunkView,
)
    requires
        !says_done(data),
    ensures
        ({
            let first = chat_step(
                state,
                read_as(data, ChatCompletionChunkView { choices: Seq::empty(), ..chunk }),
            );
            is_both(
                chat_step(state, read_as(data, chunk)),
                first,
                chat_step(first.state, read_as(data, only_choices(chunk.choices))),
            )
        }),
{
    law_done(data);
    let first = chat_step(
        state,
        read_as(data, ChatCompletionChunkView { choices: Seq::empty(), ..chunk }),
    );
    let second = chat_step(first.state, read_as(data, only_choices(chunk.choices)));
    assert(chat_step(state, read_as(data, chunk)).outputs =~= first.outputs + second.outputs);
}

/// Choices come to what they come to one after the other, up to the first one
/// that finishes the response: those behind it are not read.
pub proof fn law_choices_in_turn(
    state: ChatCompletionsStateView,
    data: Seq<char>,
    choice: ChatCompletionChoiceView,
    rest: Seq<ChatCompletionChoiceView>,
)
    requires
        !says_done(data),
        state.created_sent,
    ensures
        ({
            let whole = chat_step(state, read_as(data, only_choices(seq![choice] + rest)));
            let first = chat_step(state, read_as(data, only_choices(seq![choice])));
            if choice.finish_reason is Some {
                whole == first && first.finished
            } else {
                !first.finished && is_both(
                    whole,
                    first,
                    chat_step(first.state, read_as(data, only_choices(rest))),
                )
            }
        }),
{
    law_done(data);
    let all = seq![choice] + rest;
    assert(all.drop_first() =~= rest);
    assert(all.first() == choice);
    assert(seq![choice].drop_first() =~= Seq::empty());
    let whole = chat_step(state, read_as(data, only_choices(all)));
    let first = chat_step(state, read_as(data, only_choices(seq![choice])));
    let nothing = Seq::<StreamOutputView>::empty();
    lemma_one_choice(state, data, choice);
    if choice.finish_reason is Some {
        assert(whole.outputs =~= first.outputs);
    } else {
        let second = chat_step(first.state, read_as(data, only_choices(rest)));
        assert(second.outputs =~= choices_outcome(first.state, rest).outputs);
        assert(whole.outputs =~= first.outputs + second.outputs);
    }
}

proof fn lemma_one_choice(
    state: ChatCompletionsStateView,
    data: Seq<char>,
    choice: ChatCompletionChoiceView,
)
    requires
        !says_done(data),
        state.created_sent,
    ensures
        choice.finish_reason is None ==> chat_step(
            state,
            read_as(data, only_choices(seq![choice])),
        ) == (ChatOutcome {
            state: after_choice(state, choice),
            outputs: choice_outputs(state, choice),
            finished: false,
        }),
{
    law_done(data);
    assert(seq![choice].drop_first() =~= Seq::empty());
    let step = chat_step(state, read_as(data, only_choices(seq![choice])));
    if choice.finish_reason is None {
        let after = after_choice(state, choice);
        assert(choices_outcome(after, seq![choice].drop_first()).outputs =~= Seq::empty());
        assert(step.outputs =~= choice_outputs(state, choice));
    }
}

/// A choice with a finish reason comes to what it comes to without one, and then
/// to the end of the response.
pub proof fn law_finish_reasons_complete(
    state: ChatCompletionsStateView,
    data: Seq<char>,
    choice: ChatCompletionChoiceView,
    end: ChatPollView,
)
    requires
        !says_done(data),
        state.created_sent,
        choice.finish_reason is Some,
        end matches ChatPollView::Event { data, .. } && says_done(data),
    ensures
        ({
            let open = ChatCompletionChoiceView { finish_reason: None, ..choice };
            let first = chat_step(state, read_as(data, only_choices(seq![open])));
            let whole = chat_step(state, read_as(data, only_choices(seq![choice])));
            is_both(whole, first, chat_step(first.state, end)) && whole.finished
        }),
{
    let open = ChatCompletionChoiceView { finish_reason: None, ..choice };
    lemma_one_choice(state, data, open);
    law_done(data);
    if let ChatPollView::Event { data, .. } = end {
        law_done(data);
    }
    let first = chat_step(state, read_as(data, only_choices(seq![open])));
    let whole = chat_step(state, read_as(data, only_choices(seq![choice])));
    assert(after_choice(state, open) == after_choice(state, choice));
    assert(choice_outputs(state, open) == choice_outputs(state, choice));
    assert(whole.outputs =~= first.outputs + chat_step(first.state, end).outputs);
}

/// The parts of a delta come to what they come to one after the other: the
/// reasoning, the text, the tool calls. A part that is missing comes to nothing.
pub proof fn law_delta_parts(
    state: ChatCompletionsStateView,
    data: Seq<char>,
    index: i64,
    delta: ChatCompletionDeltaView,
)
    requires
        !says_done(data),
        state.created_sent,
    ensures
        ({
            let empty = ChatCompletionDeltaView {
                content: None,
                reasoning_content: None,
                tool_calls: None,
            };
            let whole = chat_step(state, read_as(data, only_delta(index, delta)));
            let first = chat_step(
                state,
                read_as(
                    data,
                    only_delta(
                        index,
                        ChatCompletionDeltaView {
                            reasoning_content: delta.reasoning_content,
                            ..empty
                        },
                    ),
                ),
            );
            let second = chat_step(
                first.state,
                read_as(
                    data,
                    only_delta(index, ChatCompletionDeltaView { content: delta.content, ..empty }),
                ),
            );
            let third = chat_step(
                second.state,
                read_as(
                    data,
                    only_delta(
                        index,
                        ChatCompletionDeltaView { tool_calls: delta.tool_calls, ..empty },
                    ),
                ),
            );
            &&& whole.state == third.state
            &&& whole.outputs == first.outputs + second.outputs + third.outputs
            &&& !whole.finished
            &&& delta.reasoning_content is None ==> first.state == state && first.outputs.len()
                == 0
            &&& delta.content is None ==> second.state == first.state && second.outputs.len() == 0
            &&& delta.tool_calls is None ==> third.state == second.state && third.outputs.len()
                == 0
        }),
{
    let empty = ChatCompletionDeltaView {
        content: None,
        reasoning_content: None,
        tool_calls: None,
    };
    let a = ChatCompletionDeltaView { reasoning_content: delta.reasoning_content, ..empty };
    let b = ChatCompletionDeltaView { content: delta.content, ..empty };
    let c = ChatCompletionDeltaView { tool_calls: delta.tool_calls, ..empty };
    let choice = |delta: ChatCompletionDeltaView|
        ChatCompletionChoiceView { index, delta, finish_reason: None };
    lemma_one_choice(state, data, choice(delta));
    lemma_one_choice(state, data, choice(a));
    let first = chat_step(state, read_as(data, only_delta(index, a)));
    assert(first.state == after_choice(state, choice(a)));
    lemma_one_choice(first.state, data, choice(b));
    let second = chat_step(first.state, read_as(data, only_delta(index, b)));
    lemma_one_choice(second.state, data, choice(c));
    let third = chat_step(second.state, read_as(data, only_delta(index, c)));
    let whole = chat_step(state, read_as(data, only_delta(index, delta)));
    assert(whole.outputs =~= first.outputs + second.outputs + third.outputs);
    assert(whole.state =~= third.state);
}

/// Reasoning is handed over as it is, whatever it holds, with the index of its
/// choice. An empty item announces it the first time.
pub proof fn law_reasoning_is_handed_over(
    state: ChatCompletionsStateView,
    data: Seq<char>,
    index: i64,
    text: Seq<char>,
)
    requires
        !says_done(data),
        state.created_sent,
    ensures
        ({
            let step = chat_step(state, read_as(data, only_delta(index, reasons(text))));
            let item = ResponseItemView::Reasoning {
                id: "chatcmpl-reasoning-"@ + signed_decimal(index as int),
                summary: Seq::empty(),
                content: Some(seq![ReasoningItemContentView::ReasoningText { text: Seq::empty() }]),
                encrypted_content: None,
            };
            let delta: StreamOutputView = Ok(
                ResponseEventView::ReasoningContentDelta { delta: text, content_index: index },
            );
            &&& state.reasoning_item_started ==> step.outputs == seq![delta]
            &&& !state.reasoning_item_started ==> step.outputs == seq![
                Ok(ResponseEventView::OutputItemAdded(item)),
                delta,
            ]
            &&& step.state == (ChatCompletionsStateView { reasoning_item_started: true, ..state })
            &&& !step.finished
        }),
{
    let choice = ChatCompletionChoiceView { index, delta: reasons(text), finish_reason: None };
    lemma_one_choice(state, data, choice);
    let step = chat_step(state, read_as(data, only_delta(index, reasons(text))));
    assert(step.state =~= (ChatCompletionsStateView { reasoning_item_started: true, ..state }));
    assert(step.outputs =~= step.outputs + Seq::empty());
}

/// Text is handed over as it is, whatever it holds. An empty message of the
/// assistant announces it the first time.
pub proof fn law_text_is_handed_over(
    state: ChatCompletionsStateView,
    data: Seq<char>,
    index: i64,
    text: Seq<char>,
)
    requires
        !says_done(data),
        state.created_sent,
    ensures
        ({
            let step = chat_step(state, read_as(data, only_delta(index, answers(text))));
            let item = ResponseItemView::Message {
                id: Some("chatcmpl-message-"@ + signed_decimal(index as int)),
                role: "assistant"@,
                content: seq![ContentItemView::OutputText { text: Seq::empty() }],
                end_turn: None,
                phase: None,
            };
            let delta: StreamOutputView = Ok(ResponseEventView::OutputTextDelta(text));
            &&& state.message_item_started ==> step.outputs == seq![delta]
            &&& !state.message_item_started ==> step.outputs == seq![
                Ok(ResponseEventView::OutputItemAdded(item)),
                delta,
            ]
            &&& step.state == (ChatCompletionsStateView { message_item_started: true, ..state })
            &&& !step.finished
        }),
{
    let choice = ChatCompletionChoiceView { index, delta: answers(text), finish_reason: None };
    lemma_one_choice(state, data, choice);
    let step = chat_step(state, read_as(data, only_delta(index, answers(text))));
    assert(step.state =~= (ChatCompletionsStateView { message_item_started: true, ..state }));
    assert(step.outputs =~= step.outputs + Seq::empty());
}

/// Tool call deltas come to what they come to one after the other, and none come
/// to nothing.
pub proof fn law_tool_calls_in_turn(
    state: ChatCompletionsStateView,
    data: Seq<char>,
    index: i64,
    earlier: Seq<ChatToolCallDeltaView>,
    last: ChatToolCallDeltaView,
)
    requires
        !says_done(data),
        state.created_sent,
    ensures
        ({
            let first = chat_step(state, read_as(data, only_delta(index, calls_tools(earlier))));
            &&& is_both(
                chat_step(state, read_as(data, only_delta(index, calls_tools(earlier.push(last))))),
                first,
                chat_step(first.state, read_as(data, only_delta(index, calls_tools(seq![last])))),
            )
            &&& earlier.len() == 0 ==> first.state == state && first.outputs.len() == 0
        }),
{
    let all = earlier.push(last);
    let choice = |deltas: Seq<ChatToolCallDeltaView>|
        ChatCompletionChoiceView { index, delta: calls_tools(deltas), finish_reason: None };
    assert(all =~= earlier + seq![last]);
    law_tool_call_deltas_in_parts(state.tool_calls, earlier, seq![last]);
    lemma_one_choice(state, data, choice(earlier));
    lemma_one_choice(state, data, choice(all));
    let first = chat_step(state, read_as(data, only_delta(index, calls_tools(earlier))));
    lemma_one_choice(first.state, data, choice(seq![last]));
    let second = chat_step(first.state, read_as(data, only_delta(index, calls_tools(seq![last]))));
    let whole = chat_step(state, read_as(data, only_delta(index, calls_tools(all))));
    assert(whole.outputs =~= first.outputs + second.outputs);
    assert(whole.state =~= second.state);
    if earlier.len() == 0 {
        assert(first.state =~= state);
    }
}

/// A tool call takes the id and the name of a delta where it gives one, and its
/// arguments behind those that it has, whatever they hold. The other tool calls
/// stay as they are. Arguments are handed over as they are, under the id of the
/// call, or under its index as long as it has none.
pub proof fn law_a_tool_call_delta(
    state: ChatCompletionsStateView,
    data: Seq<char>,
    index: i64,
    delta: ChatToolCallDeltaView,
)
    requires
        !says_done(data),
        state.created_sent,
    ensures
        ({
            let step = chat_step(state, read_as(data, only_delta(index, calls_tools(seq![delta]))));
            let calls = step.state.tool_calls;
            let known = state.tool_calls.contains_key(delta.index);
            let before = state.tool_calls[delta.index];
            let after = calls[delta.index];
            &&& calls.contains_key(delta.index)
            &&& calls.remove(delta.index) == state.tool_calls.remove(delta.index)
            &&& delta.id is Some ==> after.id == delta.id
            &&& delta.id is None ==> after.id == if known {
                before.id
            } else {
                None
            }
            &&& match delta.function {
                Some(function) => {
                    &&& function.name is Some ==> after.name == function.name
                    &&& function.name is None ==> after.name == if known {
                        before.name
                    } else {
                        None
                    }
                    &&& function.arguments matches Some(arguments) ==> {
                        &&& after.arguments == if known {
                            before.arguments + arguments
                        } else {
                            arguments
                        }
                        &&& step.outputs == seq![
                            Ok::<ResponseEventView, ApiErrorView>(
                                ResponseEventView::ToolCallInputDelta {
                                    item_id: match after.id {
                                        Some(id) => id,
                                        None => signed_decimal(delta.index as int),
                                    },
                                    call_id: after.id,
                                    delta: arguments,
                                },
                            ),
                        ]
                    }
                },
                None => after.name == if known {
                    before.name
                } else {
                    None
                },
            }
            &&& (delta.function is None || delta.function->Some_0.arguments is None) ==> {
                &&& step.outputs.len() == 0
                &&& after.arguments == if known {
                    before.arguments
                } else {
                    Seq::empty()
                }
            }
            &&& step.state == (ChatCompletionsStateView { tool_calls: calls, ..state })
            &&& !step.finished
        }),
{
    let deltas = seq![delta];
    let choice = ChatCompletionChoiceView {
        index,
        delta: calls_tools(deltas),
        finish_reason: None,
    };
    lemma_one_choice(state, data, choice);
    assert(deltas.drop_last() =~= Seq::empty());
    assert(with_tool_call_deltas(state.tool_calls, deltas.drop_last()) == state.tool_calls);
    assert(tool_call_deltas_outputs(state.tool_calls, deltas.drop_last()) =~= Seq::empty());
    let step = chat_step(state, read_as(data, only_delta(index, calls_tools(deltas))));
    let calls = step.state.tool_calls;
    assert(calls == with_tool_call_deltas(state.tool_calls, deltas));
    assert(calls.remove(delta.index) =~= state.tool_calls.remove(delta.index));
    if let Some(function) = delta.function {
        if let Some(arguments) = function.arguments {
            assert(calls[delta.index].arguments =~= if state.tool_calls.contains_key(delta.index) {
                state.tool_calls[delta.index].arguments + arguments
            } else {
                arguments
            });
        }
    }
}

/// A poll that fails the stream hands over nothing but the reason, and the
/// stream is over.
pub proof fn law_failures(
    state: ChatCompletionsStateView,
    data: Seq<char>,
    message: Seq<char>,
)
    ensures
        ({
            let fails = |poll: ChatPollView, reason: Seq<char>|
                chat_step(state, poll).finished && chat_step(state, poll).outputs == seq![
                    Err::<ResponseEventView, ApiErrorView>(ApiErrorView::Stream(reason)),
                ];
            &&& fails(ChatPollView::DecodeError(message), message)
            &&& fails(ChatPollView::Closed, "stream closed before chat completion finished"@)
            &&& fails(ChatPollView::IdleTimeout, "idle timeout waiting for SSE"@)
            &&& !says_done(data) ==> fails(
                ChatPollView::Event { data, chunk: Err(message) },
                "failed to parse chat completion chunk: "@ + message,
            )
        }),
{
    law_done(data);
}

/// The end of a response without tool calls: an event with its id, or an empty
/// one, and its usage. A response that is complete is not completed again. What
/// was read of the event does not matter.
pub proof fn law_end_without_tool_calls(
    state: ChatCompletionsStateView,
    data: Seq<char>,
    chunk: Result<ChatCompletionChunkView, Seq<char>>,
)
    requires
        says_done(data),
        state.tool_calls == Map::<i64, ToolCallAccumulatorView>::empty(),
    ensures
        ({
            let step = chat_step(state, done(data, chunk));
            &&& step.finished
            &&& step == completion(state)
            &&& step.state.completed_sent
            &&& state.completed_sent ==> step.outputs.len() == 0 && step.state == state
            &&& !state.completed_sent ==> step.state == (ChatCompletionsStateView {
                completed_sent: true,
                usage: None,
                ..state
            })
            &&& !state.completed_sent ==> step.outputs == seq![
                Ok::<ResponseEventView, ApiErrorView>(
                    ResponseEventView::Completed {
                        response_id: match state.response_id {
                            Some(id) => id,
                            None => Seq::empty(),
                        },
                        token_usage: state.usage,
                    },
                ),
            ]
        }),
{
    law_done(data);
    let rank = |index: i64| index as int;
    assert(Seq::<i64>::empty().to_set() =~= state.tool_calls.dom());
    lemma_ordered_keys(state.tool_calls.dom(), rank, Seq::<i64>::empty());
}

proof fn lemma_outputs_agree(calls: ToolCallsView, others: ToolCallsView, order: Seq<i64>)
    requires
        forall|i: int|
            0 <= i < order.len() ==> calls[#[trigger] order[i]] == others[order[i]],
    ensures
        function_call_outputs(calls, order) == function_call_outputs(others, order),
    decreases order.len(),
{
    if order.len() > 0 {
        let rest = order.drop_last();
        assert forall|i: int| 0 <= i < rest.len() implies calls[#[trigger] rest[i]]
            == others[rest[i]] by {
            assert(rest[i] == order[i]);
        }
        lemma_outputs_agree(calls, others, rest);
        assert(calls[order[order.len() - 1]] == others[order[order.len() - 1]]);
    }
}

/// What the tool call with the highest index adds to the end of a response: a
/// function call, behind those of the other tool calls and before the closing
/// event, where it has an id and a name, and nothing otherwise. The function
/// call has the id, the arguments, and the tool and the namespace that the name
/// stands for.
pub proof fn law_end_with_a_tool_call(
    state: ChatCompletionsStateView,
    data: Seq<char>,
    chunk: Result<ChatCompletionChunkView, Seq<char>>,
    highest: i64,
)
    requires
        says_done(data),
        !state.completed_sent,
        state.tool_calls.dom().finite(),
        state.tool_calls.contains_key(highest),
        forall|index: i64| #[trigger] state.tool_calls.contains_key(index) ==> index <= highest,
    ensures
        ({
            let fewer = ChatCompletionsStateView {
                tool_calls: state.tool_calls.remove(highest),
                ..state
            };
            let without = chat_step(fewer, done(data, chunk));
            let step = chat_step(state, done(data, chunk));
            let call = state.tool_calls[highest];
            &&& step.finished
            &&& step == completion(state)
            &&& step.state == without.state
            &&& without.outputs.len() > 0
            &&& call.id is Some && call.name is Some ==> step.outputs
                == without.outputs.drop_last().push(
                Ok(
                    ResponseEventView::OutputItemDone(
                        ResponseItemView::FunctionCall {
                            id: call.id,
                            name: decoded_tool_name(call.name->Some_0).1,
                            namespace: decoded_tool_name(call.name->Some_0).0,
                            arguments: call.arguments,
                            call_id: call.id->Some_0,
                        },
                    ),
                ),
            ).push(without.outputs.last())
            &&& call.id is None || call.name is None ==> step.outputs == without.outputs
        }),
{
    law_done(data);
    let calls = state.tool_calls;
    let fewer = calls.remove(highest);
    let rank = |index: i64| index as int;
    lemma_order_exists(fewer.dom(), rank);
    let order = ordered_keys(fewer.dom(), rank);
    let all = order.push(highest);
    assert forall|i: int| 0 <= i < order.len() implies fewer.contains_key(
        #[trigger] order[i],
    ) by {
        assert(order.to_set().contains(order[i]));
    }
    assert(increasing(all, rank)) by {
        assert forall|i: int, j: int| 0 <= i < j < all.len() implies rank(#[trigger] all[i])
            < rank(#[trigger] all[j]) by {
            assert(all[i] == order[i]);
            assert(fewer.contains_key(order[i]));
            assert(calls.contains_key(order[i]));
            if j < order.len() {
                assert(all[j] == order[j]);
            }
        }
    }
    assert forall|index: i64| all.to_set().contains(index) <==> calls.dom().contains(index) by {
        if all.to_set().contains(index) {
            let i = choose|i: int| 0 <= i < all.len() && all[i] == index;
            if i < order.len() {
                assert(fewer.contains_key(order[i]));
            }
        }
        if calls.dom().contains(index) {
            if index == highest {
                assert(all[order.len() as int] == index);
            } else {
                assert(order.to_set().contains(index));
                let i = choose|i: int| 0 <= i < order.len() && order[i] == index;
                assert(all[i] == index);
            }
        }
    }
    assert(all.to_set() =~= calls.dom());
    lemma_ordered_keys(calls.dom(), rank, all);
    assert(tool_call_order(calls) == all);
    assert(tool_call_order(fewer) == order);
    assert(all.drop_last() =~= order);
    lemma_outputs_agree(calls, fewer, order);
    let smaller = ChatCompletionsStateView { tool_calls: fewer, ..state };
    let without = chat_step(smaller, done(data, chunk)).outputs;
    let before = function_call_outputs(fewer, order);
    assert(without.drop_last() =~= before);
    let step = chat_step(state, done(data, chunk)).outputs;
    let call = calls[highest];
    if call.id is Some && call.name is Some {
        let item = finished_tool_call(call)->Some_0;
        assert(function_call_outputs(calls, all) == before.push(
            Ok(ResponseEventView::OutputItemDone(item)),
        ));
        assert(step =~= before.push(Ok(ResponseEventView::OutputItemDone(item))).push(
            without.last(),
        ));
    } else {
        assert(step =~= without);
    }
}

/// A finished tool call is a function call with its id, its arguments, and the
/// tool and the namespace that its name stands for. Without an id or a name it
/// is none.
pub proof fn law_finished_tool_calls(call: ToolCallAccumulatorView)
    ensures
        finished_tool_call(call) is Some <==> call.id is Some && call.name is Some,
        finished_tool_call(call) matches Some(item) ==> item == (ResponseItemView::FunctionCall {
            id: call.id,
            name: decoded_tool_name(call.name->Some_0).1,
            namespace: decoded_tool_name(call.name->Some_0).0,
            arguments: call.arguments,
            call_id: call.id->Some_0,
        }),
{
}

/// A stream begins with nothing, and each poll goes on from where the ones
/// before it led to, until one of them ends the stream.
pub proof fn law_polls_in_turn(
    state: ChatCompletionsStateView,
    earlier: Seq<ChatPollView>,
    poll: ChatPollView,
)
    ensures
        initial_chat_state() == (ChatCompletionsStateView {
            response_id: None,
            usage: None,
            created_sent: false,
            completed_sent: false,
            message_item_started: false,
            reasoning_item_started: false,
            tool_calls: Map::empty(),
        }),
        chat_run(state, Seq::empty()) == (ChatOutcome {
            state,
            outputs: Seq::empty(),
            finished: false,
        }),
        ({
            let before = chat_run(state, earlier);
            let after = chat_run(state, earlier.push(poll));
            &&& before.finished ==> after == before
            &&& !before.finished ==> is_both(after, before, chat_step(before.state, poll))
        }),
{
    let one = seq![poll];
    assert(earlier.push(poll) =~= earlier + one);
    law_run_in_parts(state, earlier, one);
    let before = chat_run(state, earlier);
    assert(one.drop_first() =~= Seq::empty());
    let step = chat_step(before.state, poll);
    reveal_with_fuel(chat_run, 2);
    assert(step.outputs + Seq::empty() =~= step.outputs);
    assert(chat_run(before.state, one).outputs =~= step.outputs);
    assert(chat_run(before.state, one).state == step.state);
    assert(chat_run(before.state, one).finished == step.finished);
}

} // verus!
