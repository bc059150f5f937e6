//! What each poll of a Z.AI stream comes to, and how payloads that say more come
//! to what simpler payloads come to one after the other.

use vstd::prelude::*;

use crate::json::{json_parsed, Json};
use crate::json_laws::{array_entry, entry, law_members_are_read, string_entry};
use crate::protocol::{
    ApiErrorView, ContentItemView, ReasoningItemContentView, ResponseEventView, ResponseItemView,
};
use crate::sse::order::{increasing, lemma_order_exists, lemma_ordered_keys, ordered_keys};
use crate::sse::outbox::StreamOutputView;
use crate::sse::zai_chat::{
    after_zai_choice, after_zai_choices, delta_index, gathered_reasoning, initial_zai_state,
    payload_choices, reported_usage, tool_call_deltas, with_content, with_zai_delta,
    with_zai_deltas, zai_choice_outputs, zai_choices_outputs, zai_delta_outputs,
    zai_deltas_outputs, zai_function_call_outputs, zai_payload_outcome, zai_reasoning_outputs,
    zai_run, zai_step, zai_stream_outputs, zai_text_outputs, zai_tool_call_order,
    ToolCallStateView, ZaiChatStateView, ZaiOutcome, ZaiPollView, ZaiToolCallsView,
};
use crate::sse::zai_laws::{law_zai_deltas_in_parts, law_zai_run_in_parts};
use crate::text::{decimal, lemma_trimmed_blank};
use crate::text_laws::{
    is_middle, is_unicode_space, law_blank, law_done, law_trimming_leaves_the_middle, says_done,
};

verus! {

/// `whole` is `first` and then `second`.
pub open spec fn is_both(whole: ZaiOutcome, first: ZaiOutcome, second: ZaiOutcome) -> bool {
    &&& whole.state == second.state
    &&& whole.outputs == first.outputs + second.outputs
    &&& whole.finished == second.finished
}

/// What a payload that could be read leads to.
pub open spec fn taken(state: ZaiChatStateView, payload: Json) -> ZaiOutcome {
    zai_payload_outcome(state, Ok(payload))
}

/// Nothing changes and nothing is handed over.
pub open spec fn is_silent(outcome: ZaiOutcome, state: ZaiChatStateView) -> bool {
    outcome.state == state && outcome.outputs.len() == 0 && !outcome.finished
}

/// A payload of nothing but choices.
pub open spec fn only_choices(payload: Json, choices: Seq<Json>) -> bool {
    &&& entry(payload, "id"@) is None
    &&& entry(payload, "usage"@) is None
    &&& array_entry(payload, "choices"@) == Some(choices)
}

/// A payload of nothing but one choice, which is nothing but a delta.
pub open spec fn only_delta(payload: Json, delta: Json) -> bool {
    exists|choice: Json| #[trigger]
        only_choices(payload, seq![choice]) && entry(choice, "delta"@) == Some(delta) && entry(
            choice,
            "message"@,
        ) is None
}

/// A payload of nothing but one choice, which is nothing but a message.
pub open spec fn only_message(payload: Json, message: Json) -> bool {
    exists|choice: Json| #[trigger]
        only_choices(payload, seq![choice]) && entry(choice, "delta"@) is None && entry(
            choice,
            "message"@,
        ) == Some(message)
}

/// The document has none of these members but, at most, the one under `key`,
/// which is that of `of`.
pub open spec fn only_part(part: Json, of: Json, key: Seq<char>) -> bool {
    &&& entry(part, key) == entry(of, key)
    &&& key != "reasoning_content"@ ==> entry(part, "reasoning_content"@) is None
    &&& key != "content"@ ==> entry(part, "content"@) is None
    &&& key != "tool_calls"@ ==> entry(part, "tool_calls"@) is None
}

proof fn lemma_distinct_parts()
    ensures
        "reasoning_content"@ != "content"@,
        "reasoning_content"@ != "tool_calls"@,
        "content"@ != "tool_calls"@,
{
    reveal_strlit("reasoning_content");
    reveal_strlit("content");
    reveal_strlit("tool_calls");
    assert("reasoning_content"@.len() == 17);
    assert("content"@.len() == 7);
    assert("tool_calls"@.len() == 10);
}

/// A payload without choices hands nothing over. Its id, where it gives one as a
/// string, and its usage, where it reports one, take the place of the earlier
/// ones.
pub proof fn law_zai_payload_fields(state: ZaiChatStateView, payload: Json)
    requires
        array_entry(payload, "choices"@) is None,
    ensures
        ({
            let outcome = taken(state, payload);
            &&& !outcome.finished
            &&& outcome.outputs.len() == 0
            &&& outcome.state.response_id == match string_entry(payload, "id"@) {
                Some(id) => id,
                None => state.response_id,
            }
            &&& entry(payload, "usage"@) is None ==> outcome.state.usage == state.usage
            &&& entry(payload, "usage"@) is Some ==> outcome.state.usage == reported_usage(
                entry(payload, "usage"@),
            )
            &&& outcome.state.assistant_text == state.assistant_text
            &&& outcome.state.reasoning_text == state.reasoning_text
            &&& outcome.state.tool_calls == state.tool_calls
        }),
{
    law_members_are_read(payload, "id"@);
    law_members_are_read(payload, "usage"@);
    law_members_are_read(payload, "choices"@);
}

/// A payload comes to what its own fields come to and then its choices.
pub proof fn law_zai_payload_fields_come_first(
    state: ZaiChatStateView,
    payload: Json,
    fields: Json,
    choices: Json,
)
    requires
        array_entry(payload, "choices"@) is Some,
        only_choices(choices, array_entry(payload, "choices"@)->Some_0),
        array_entry(fields, "choices"@) is None,
        entry(fields, "id"@) == entry(payload, "id"@),
        entry(fields, "usage"@) == entry(payload, "usage"@),
    ensures
        is_both(
            taken(state, payload),
            taken(state, fields),
            taken(taken(state, fields).state, choices),
        ),
{
    law_members_are_read(payload, "id"@);
    law_members_are_read(payload, "usage"@);
    law_members_are_read(payload, "choices"@);
    law_members_are_read(fields, "id"@);
    law_members_are_read(fields, "usage"@);
    law_members_are_read(fields, "choices"@);
    lemma_only_choices(
        taken(state, fields).state,
        choices,
        array_entry(payload, "choices"@)->Some_0,
    );
    assert(taken(state, fields).outputs =~= Seq::empty());
    assert(taken(state, payload).outputs =~= taken(state, fields).outputs + taken(
        taken(state, fields).state,
        choices,
    ).outputs);
}

proof fn lemma_only_choices(state: ZaiChatStateView, payload: Json, choices: Seq<Json>)
    requires
        only_choices(payload, choices),
    ensures
        taken(state, payload) == (ZaiOutcome {
            state: after_zai_choices(state, choices),
            outputs: zai_choices_outputs(state, choices),
            finished: false,
        }),
{
    law_members_are_read(payload, "id"@);
    law_members_are_read(payload, "usage"@);
    law_members_are_read(payload, "choices"@);
    assert(payload_choices(payload) == choices);
}

/// Choices come to what they come to one after the other, and none come to
/// nothing.
pub proof fn law_zai_choices_in_turn(
    state: ZaiChatStateView,
    all: Json,
    some: Json,
    one: Json,
    earlier: Seq<Json>,
    choice: Json,
)
    requires
        only_choices(all, earlier.push(choice)),
        only_choices(some, earlier),
        only_choices(one, seq![choice]),
    ensures
        is_both(taken(state, all), taken(state, some), taken(taken(state, some).state, one)),
        earlier.len() == 0 ==> is_silent(taken(state, some), state),
{
    lemma_only_choices(state, all, earlier.push(choice));
    lemma_only_choices(state, some, earlier);
    let middle = taken(state, some).state;
    lemma_only_choices(middle, one, seq![choice]);
    assert(earlier.push(choice).drop_last() =~= earlier);
    lemma_one_choice(middle, one, choice);
}

proof fn lemma_one_choice(state: ZaiChatStateView, payload: Json, choice: Json)
    requires
        only_choices(payload, seq![choice]),
    ensures
        taken(state, payload) == (ZaiOutcome {
            state: after_zai_choice(state, choice),
            outputs: zai_choice_outputs(state, choice),
            finished: false,
        }),
{
    lemma_only_choices(state, payload, seq![choice]);
    assert(seq![choice].drop_last() =~= Seq::empty());
    assert(after_zai_choices(state, seq![choice].drop_last()) == state);
    assert(zai_choices_outputs(state, seq![choice].drop_last()) =~= Seq::empty());
    assert(zai_choices_outputs(state, seq![choice]) =~= zai_choice_outputs(state, choice));
}

/// A choice comes to what its delta comes to and then its message. One without
/// either comes to nothing.
pub proof fn law_zai_choice_parts(
    state: ZaiChatStateView,
    payload: Json,
    choice: Json,
    first: Json,
    second: Json,
)
    requires
        only_choices(payload, seq![choice]),
        entry(choice, "delta"@) is Some ==> only_delta(first, entry(choice, "delta"@)->Some_0),
        entry(choice, "delta"@) is None ==> only_choices(first, Seq::empty()),
        entry(choice, "message"@) is Some ==> only_message(
            second,
            entry(choice, "message"@)->Some_0,
        ),
        entry(choice, "message"@) is None ==> only_choices(second, Seq::empty()),
    ensures
        is_both(
            taken(state, payload),
            taken(state, first),
            taken(taken(state, first).state, second),
        ),
        entry(choice, "delta"@) is None ==> is_silent(taken(state, first), state),
        entry(choice, "message"@) is None ==> is_silent(
            taken(taken(state, first).state, second),
            taken(state, first).state,
        ),
{
    law_members_are_read(choice, "delta"@);
    law_members_are_read(choice, "message"@);
    lemma_one_choice(state, payload, choice);
    if let Some(delta) = entry(choice, "delta"@) {
        let c = choose|c: Json| #[trigger]
            only_choices(first, seq![c]) && entry(c, "delta"@) == Some(delta) && entry(
                c,
                "message"@,
            ) is None;
        law_members_are_read(c, "delta"@);
        law_members_are_read(c, "message"@);
        lemma_one_choice(state, first, c);
    } else {
        lemma_only_choices(state, first, Seq::empty());
    }
    let middle = taken(state, first).state;
    if let Some(message) = entry(choice, "message"@) {
        let c = choose|c: Json| #[trigger]
            only_choices(second, seq![c]) && entry(c, "delta"@) is None && entry(c, "message"@)
                == Some(message);
        law_members_are_read(c, "delta"@);
        law_members_are_read(c, "message"@);
        lemma_one_choice(middle, second, c);
    } else {
        lemma_only_choices(middle, second, Seq::empty());
    }
    assert(taken(state, payload).outputs =~= taken(state, first).outputs + taken(
        middle,
        second,
    ).outputs);
}

proof fn lemma_only_delta(state: ZaiChatStateView, payload: Json, delta: Json)
    requires
        only_delta(payload, delta),
    ensures
        taken(state, payload) == (ZaiOutcome {
            state: with_content(state, delta),
            outputs: zai_reasoning_outputs(delta)
                + zai_text_outputs(delta) + zai_deltas_outputs(
                state.tool_calls,
                tool_call_deltas(delta),
            ),
            finished: false,
        }),
{
    let choice = choose|choice: Json| #[trigger]
        only_choices(payload, seq![choice]) && entry(choice, "delta"@) == Some(delta) && entry(
            choice,
            "message"@,
        ) is None;
    law_members_are_read(choice, "delta"@);
    law_members_are_read(choice, "message"@);
    lemma_one_choice(state, payload, choice);
}

proof fn lemma_only_message(state: ZaiChatStateView, payload: Json, message: Json)
    requires
        only_message(payload, message),
    ensures
        taken(state, payload) == (ZaiOutcome {
            state: with_content(state, message),
            outputs: zai_deltas_outputs(state.tool_calls, tool_call_deltas(message)),
            finished: false,
        }),
{
    let choice = choose|choice: Json| #[trigger]
        only_choices(payload, seq![choice]) && entry(choice, "delta"@) is None && entry(
            choice,
            "message"@,
        ) == Some(message);
    law_members_are_read(choice, "delta"@);
    law_members_are_read(choice, "message"@);
    lemma_one_choice(state, payload, choice);
    assert(taken(state, payload).outputs =~= zai_deltas_outputs(
        state.tool_calls,
        tool_call_deltas(message),
    ));
}

proof fn lemma_parts_are_read(part: Json)
    ensures
        part.member("reasoning_content"@) == entry(part, "reasoning_content"@),
        part.member("content"@) == entry(part, "content"@),
        part.member("tool_calls"@) == entry(part, "tool_calls"@),
        tool_call_deltas(part) == match array_entry(part, "tool_calls"@) {
            Some(deltas) => deltas,
            None => Seq::empty(),
        },
{
    law_members_are_read(part, "reasoning_content"@);
    law_members_are_read(part, "content"@);
    law_members_are_read(part, "tool_calls"@);
}

/// The parts of a delta come to what they come to one after the other: the
/// reasoning, the text, the tool calls.
pub proof fn law_zai_delta_parts(
    state: ZaiChatStateView,
    payload: Json,
    delta: Json,
    a: Json,
    reasoning: Json,
    b: Json,
    text: Json,
    c: Json,
    calls: Json,
)
    requires
        only_delta(payload, delta),
        only_delta(a, reasoning),
        only_part(reasoning, delta, "reasoning_content"@),
        only_delta(b, text),
        only_part(text, delta, "content"@),
        only_delta(c, calls),
        only_part(calls, delta, "tool_calls"@),
    ensures
        ({
            let first = taken(state, a);
            let second = taken(first.state, b);
            let third = taken(second.state, c);
            &&& taken(state, payload).state == third.state
            &&& taken(state, payload).outputs == first.outputs + second.outputs + third.outputs
            &&& !taken(state, payload).finished
        }),
{
    lemma_distinct_parts();
    lemma_parts_are_read(delta);
    lemma_parts_are_read(reasoning);
    lemma_parts_are_read(text);
    lemma_parts_are_read(calls);
    lemma_only_delta(state, payload, delta);
    lemma_only_delta(state, a, reasoning);
    let first = taken(state, a);
    lemma_only_delta(first.state, b, text);
    let second = taken(first.state, b);
    lemma_only_delta(second.state, c, calls);
    let third = taken(second.state, c);
    assert(taken(state, payload).state =~= third.state);
    assert(taken(state, payload).outputs =~= first.outputs + second.outputs + third.outputs);
}

/// The parts of a message come to what they come to one after the other.
pub proof fn law_zai_message_parts(
    state: ZaiChatStateView,
    payload: Json,
    message: Json,
    a: Json,
    reasoning: Json,
    b: Json,
    text: Json,
    c: Json,
    calls: Json,
)
    requires
        only_message(payload, message),
        only_message(a, reasoning),
        only_part(reasoning, message, "reasoning_content"@),
        only_message(b, text),
        only_part(text, message, "content"@),
        only_message(c, calls),
        only_part(calls, message, "tool_calls"@),
    ensures
        ({
            let first = taken(state, a);
            let second = taken(first.state, b);
            let third = taken(second.state, c);
            &&& taken(state, payload).state == third.state
            &&& taken(state, payload).outputs == first.outputs + second.outputs + third.outputs
            &&& !taken(state, payload).finished
        }),
{
    lemma_distinct_parts();
    lemma_parts_are_read(message);
    lemma_parts_are_read(reasoning);
    lemma_parts_are_read(text);
    lemma_parts_are_read(calls);
    lemma_only_message(state, payload, message);
    lemma_only_message(state, a, reasoning);
    let first = taken(state, a);
    lemma_only_message(first.state, b, text);
    let second = taken(first.state, b);
    lemma_only_message(second.state, c, calls);
    let third = taken(second.state, c);
    assert(taken(state, payload).state =~= third.state);
    assert(taken(state, payload).outputs =~= first.outputs + second.outputs + third.outputs);
}

/// The reasoning of a delta is gathered, and handed over as it is unless it is
/// empty. What is no string comes to nothing.
pub proof fn law_zai_reasoning_is_handed_over(state: ZaiChatStateView, payload: Json, delta: Json)
    requires
        only_delta(payload, delta),
        only_part(delta, delta, "reasoning_content"@),
    ensures
        match string_entry(delta, "reasoning_content"@) {
            Some(text) => {
                let outcome = taken(state, payload);
                &&& outcome.state == (ZaiChatStateView {
                    reasoning_text: state.reasoning_text + text,
                    ..state
                })
                &&& text.len() == 0 ==> outcome.outputs.len() == 0
                &&& text.len() > 0 ==> outcome.outputs == seq![
                    Ok::<ResponseEventView, ApiErrorView>(
                        ResponseEventView::ReasoningContentDelta { delta: text, content_index: 0 },
                    ),
                ]
                &&& !outcome.finished
            },
            None => is_silent(taken(state, payload), state),
        },
{
    lemma_distinct_parts();
    lemma_parts_are_read(delta);
    law_members_are_read(delta, "reasoning_content"@);
    lemma_only_delta(state, payload, delta);
    assert(taken(state, payload).outputs =~= zai_reasoning_outputs(delta));
}

/// The text of a delta is gathered, and handed over as it is unless it is empty.
/// What is no string comes to nothing.
pub proof fn law_zai_text_is_handed_over(state: ZaiChatStateView, payload: Json, delta: Json)
    requires
        only_delta(payload, delta),
        only_part(delta, delta, "content"@),
    ensures
        match string_entry(delta, "content"@) {
            Some(text) => {
                let outcome = taken(state, payload);
                &&& outcome.state == (ZaiChatStateView {
                    assistant_text: state.assistant_text + text,
                    ..state
                })
                &&& text.len() == 0 ==> outcome.outputs.len() == 0
                &&& text.len() > 0 ==> outcome.outputs == seq![
                    Ok::<ResponseEventView, ApiErrorView>(ResponseEventView::OutputTextDelta(text)),
                ]
                &&& !outcome.finished
            },
            None => is_silent(taken(state, payload), state),
        },
{
    lemma_distinct_parts();
    lemma_parts_are_read(delta);
    law_members_are_read(delta, "content"@);
    lemma_only_delta(state, payload, delta);
    assert(taken(state, payload).outputs =~= zai_text_outputs(delta));
}

/// The texts of a message are gathered like those of a delta, and not handed
/// over.
pub proof fn law_zai_messages_are_gathered(
    state: ZaiChatStateView,
    payload: Json,
    message: Json,
    key: Seq<char>,
)
    requires
        key == "content"@ || key == "reasoning_content"@,
        only_message(payload, message),
        only_part(message, message, key),
    ensures
        match string_entry(message, key) {
            Some(text) => {
                let outcome = taken(state, payload);
                &&& key == "content"@ ==> outcome.state == (ZaiChatStateView {
                    assistant_text: state.assistant_text + text,
                    ..state
                })
                &&& key == "reasoning_content"@ ==> outcome.state == (ZaiChatStateView {
                    reasoning_text: state.reasoning_text + text,
                    ..state
                })
                &&& outcome.outputs.len() == 0
                &&& !outcome.finished
            },
            None => is_silent(taken(state, payload), state),
        },
{
    lemma_distinct_parts();
    lemma_parts_are_read(message);
    law_members_are_read(message, key);
    lemma_only_message(state, payload, message);
}

/// The tool calls of a message come to what those of a delta come to.
pub proof fn law_zai_tool_calls_alike(
    state: ZaiChatStateView,
    payload: Json,
    delta: Json,
    other: Json,
    message: Json,
)
    requires
        only_delta(payload, delta),
        only_part(delta, delta, "tool_calls"@),
        only_message(other, message),
        only_part(message, delta, "tool_calls"@),
    ensures
        taken(state, payload) == taken(state, other),
        array_entry(delta, "tool_calls"@) is None ==> is_silent(taken(state, payload), state),
{
    lemma_distinct_parts();
    lemma_parts_are_read(delta);
    lemma_parts_are_read(message);
    lemma_only_delta(state, payload, delta);
    lemma_only_message(state, other, message);
    assert(taken(state, payload).state =~= taken(state, other).state);
    assert(taken(state, payload).outputs =~= taken(state, other).outputs);
}

/// A payload of nothing but tool call deltas.
pub open spec fn only_tool_calls(payload: Json, deltas: Seq<Json>) -> bool {
    exists|delta: Json| #[trigger]
        only_delta(payload, delta) && only_part(delta, delta, "tool_calls"@) && array_entry(
            delta,
            "tool_calls"@,
        ) == Some(deltas)
}

proof fn lemma_only_tool_calls(state: ZaiChatStateView, payload: Json, deltas: Seq<Json>)
    requires
        only_tool_calls(payload, deltas),
    ensures
        taken(state, payload) == (ZaiOutcome {
            state: ZaiChatStateView {
                tool_calls: with_zai_deltas(state.tool_calls, deltas),
                ..state
            },
            outputs: zai_deltas_outputs(state.tool_calls, deltas),
            finished: false,
        }),
{
    let delta = choose|delta: Json| #[trigger]
        only_delta(payload, delta) && only_part(delta, delta, "tool_calls"@) && array_entry(
            delta,
            "tool_calls"@,
        ) == Some(deltas);
    lemma_distinct_parts();
    lemma_parts_are_read(delta);
    lemma_only_delta(state, payload, delta);
    assert(taken(state, payload).outputs =~= zai_deltas_outputs(state.tool_calls, deltas));
}

/// Tool call deltas come to what they come to one after the other, and none come
/// to nothing.
pub proof fn law_zai_tool_calls_in_turn(
    state: ZaiChatStateView,
    all: Json,
    some: Json,
    one: Json,
    earlier: Seq<Json>,
    last: Json,
)
    requires
        only_tool_calls(all, earlier.push(last)),
        only_tool_calls(some, earlier),
        only_tool_calls(one, seq![last]),
    ensures
        is_both(taken(state, all), taken(state, some), taken(taken(state, some).state, one)),
        earlier.len() == 0 ==> is_silent(taken(state, some), state),
{
    lemma_only_tool_calls(state, all, earlier.push(last));
    lemma_only_tool_calls(state, some, earlier);
    lemma_only_tool_calls(taken(state, some).state, one, seq![last]);
    assert(earlier.push(last) =~= earlier + seq![last]);
    law_zai_deltas_in_parts(state.tool_calls, earlier, seq![last]);
    if earlier.len() == 0 {
        assert(taken(state, some).state =~= state);
    }
}

/// The index that a tool call delta names: a natural number below 2 to the 64.
pub open spec fn names_index(delta: Json) -> Option<int> {
    match entry(delta, "index"@) {
        Some(Json::Integer(n)) if 0 <= n <= 0xffff_ffff_ffff_ffff => Some(n),
        _ => None,
    }
}

/// The string under `key` of the function in a tool call delta.
pub open spec fn function_string(delta: Json, key: Seq<char>) -> Option<Seq<char>> {
    match entry(delta, "function"@) {
        Some(function) => string_entry(function, key),
        None => None,
    }
}

/// What a tool call delta does. It speaks of the index that it names, and of
/// the number of tool calls so far where it names none. The call takes the id of
/// the delta where it gives one, and its parts of the name and of the arguments
/// behind those that it has. The other calls stay as they are. Arguments are
/// handed over as they are, under the id of the call, or under its index as long
/// as it has none.
pub proof fn law_a_zai_tool_call_delta(
    state: ZaiChatStateView,
    payload: Json,
    delta: Json,
    index: usize,
)
    requires
        only_tool_calls(payload, seq![delta]),
        index == match names_index(delta) {
            Some(n) => n as u64 as usize,
            None => state.tool_calls.dom().len() as usize,
        },
    ensures
        ({
            let outcome = taken(state, payload);
            let calls = outcome.state.tool_calls;
            let known = state.tool_calls.contains_key(index);
            let before = if known {
                state.tool_calls[index]
            } else {
                ToolCallStateView { id: None, name: Seq::empty(), arguments: Seq::empty() }
            };
            let after = calls[index];
            &&& calls.contains_key(index)
            &&& calls.remove(index) == state.tool_calls.remove(index)
            &&& string_entry(delta, "id"@) is Some ==> after.id == string_entry(delta, "id"@)
            &&& string_entry(delta, "id"@) is None ==> after.id == before.id
            &&& after.name == match function_string(delta, "name"@) {
                Some(part) => before.name + part,
                None => before.name,
            }
            &&& match function_string(delta, "arguments"@) {
                Some(part) => {
                    &&& after.arguments == before.arguments + part
                    &&& outcome.outputs == seq![
                        Ok::<ResponseEventView, ApiErrorView>(
                            ResponseEventView::ToolCallInputDelta {
                                item_id: match after.id {
                                    Some(id) => id,
                                    None => decimal(index as nat),
                                },
                                call_id: after.id,
                                delta: part,
                            },
                        ),
                    ]
                },
                None => after.arguments == before.arguments && outcome.outputs.len() == 0,
            }
            &&& outcome.state == (ZaiChatStateView { tool_calls: calls, ..state })
            &&& !outcome.finished
        }),
{
    let deltas = seq![delta];
    lemma_only_tool_calls(state, payload, deltas);
    law_members_are_read(delta, "index"@);
    law_members_are_read(delta, "id"@);
    law_members_are_read(delta, "function"@);
    if let Some(function) = entry(delta, "function"@) {
        law_members_are_read(function, "name"@);
        law_members_are_read(function, "arguments"@);
    }
    assert(deltas.drop_last() =~= Seq::empty());
    assert(with_zai_deltas(state.tool_calls, deltas.drop_last()) == state.tool_calls);
    assert(zai_deltas_outputs(state.tool_calls, deltas.drop_last()) =~= Seq::empty());
    assert(index == delta_index(state.tool_calls, delta));
    let calls = taken(state, payload).state.tool_calls;
    assert(calls == with_zai_delta(state.tool_calls, delta));
    assert(calls.remove(index) =~= state.tool_calls.remove(index));
    assert(taken(state, payload).outputs =~= zai_delta_outputs(
        state.tool_calls,
        delta,
    ));
}

/// An event of white space comes to nothing, one that says that the stream is
/// done comes to what the end of the stream comes to, and any other comes to
/// what the payload does that is read of it, without the white space around it.
pub proof fn law_zai_events(state: ZaiChatStateView, data: Seq<char>, start: int, end: int)
    requires
        is_middle(data, start, end),
    ensures
        (forall|i: int| 0 <= i < data.len() ==> is_unicode_space(#[trigger] data[i])) ==> is_silent(
            zai_step(state, ZaiPollView::Event(data)),
            state,
        ),
        says_done(data) ==> zai_step(state, ZaiPollView::Event(data)) == zai_step(
            state,
            ZaiPollView::Closed,
        ),
        start < end && !says_done(data) ==> zai_step(state, ZaiPollView::Event(data))
            == zai_payload_outcome(state, json_parsed(data.subrange(start, end))),
{
    law_done(data);
    law_blank(data);
    lemma_trimmed_blank(data);
    law_trimming_leaves_the_middle(data, start, end);
}

/// A poll that fails the stream hands over nothing but the reason, and the
/// stream is over.
pub proof fn law_zai_failures(state: ZaiChatStateView, message: Seq<char>, millis: u128)
    ensures
        ({
            let is_failure = |outcome: ZaiOutcome, reason: Seq<char>|
                outcome.finished && outcome.outputs == seq![
                    Err::<ResponseEventView, ApiErrorView>(ApiErrorView::Stream(reason)),
                ];
            &&& is_failure(
                zai_step(state, ZaiPollView::DecodeError(message)),
                "error decoding SSE stream: "@ + message,
            )
            &&& is_failure(
                zai_step(state, ZaiPollView::IdleTimeout { millis }),
                "stream disconnected after "@ + decimal(millis as nat) + " ms of inactivity"@,
            )
            &&& is_failure(
                zai_payload_outcome(state, Err(message)),
                "failed to parse Z.AI SSE payload: "@ + message,
            )
        }),
{
}

/// What the end of the stream hands over.
pub open spec fn closing(state: ZaiChatStateView) -> Seq<StreamOutputView> {
    zai_step(state, ZaiPollView::Closed).outputs
}

/// The end of a response of which nothing was gathered: an event with its id and
/// its usage.
pub proof fn law_zai_end_of_nothing(state: ZaiChatStateView)
    requires
        state.assistant_text.len() == 0,
        state.reasoning_text.len() == 0,
        state.tool_calls == Map::<usize, ToolCallStateView>::empty(),
    ensures
        closing(state) == seq![
            Ok::<ResponseEventView, ApiErrorView>(
                ResponseEventView::Completed {
                    response_id: state.response_id,
                    token_usage: state.usage,
                },
            ),
        ],
        zai_step(state, ZaiPollView::Closed).finished,
{
    let rank = |index: usize| index as int;
    assert(Seq::<usize>::empty().to_set() =~= state.tool_calls.dom());
    lemma_ordered_keys(state.tool_calls.dom(), rank, Seq::<usize>::empty());
    assert(closing(state) =~= seq![
        Ok::<ResponseEventView, ApiErrorView>(
            ResponseEventView::Completed {
                response_id: state.response_id,
                token_usage: state.usage,
            },
        ),
    ]);
}

/// What the gathered answer adds to the end of a response, whatever else was
/// gathered: a message of the assistant with all of it, right before the closing
/// event, unless it is empty.
pub proof fn law_zai_end_with_an_answer(state: ZaiChatStateView)
    ensures
        ({
            let without = closing(
                ZaiChatStateView { assistant_text: Seq::empty(), ..state },
            );
            &&& without.len() > 0
            &&& state.assistant_text.len() == 0 ==> closing(state) == without
            &&& state.assistant_text.len() > 0 ==> closing(state) == without.drop_last().push(
                Ok(
                    ResponseEventView::OutputItemDone(
                        ResponseItemView::Message {
                            id: None,
                            role: "assistant"@,
                            content: seq![
                                ContentItemView::OutputText { text: state.assistant_text },
                            ],
                            end_turn: None,
                            phase: None,
                        },
                    ),
                ),
            ).push(without.last())
        }),
        zai_step(state, ZaiPollView::Closed).finished,
{
    let fewer = ZaiChatStateView { assistant_text: Seq::empty(), ..state };
    let without = closing(fewer);
    if state.assistant_text.len() == 0 {
        assert(state.assistant_text =~= Seq::empty());
        assert(state =~= fewer);
    } else {
        assert(closing(state) =~= without.drop_last().push(
            Ok(
                ResponseEventView::OutputItemDone(
                    ResponseItemView::Message {
                        id: None,
                        role: "assistant"@,
                        content: seq![ContentItemView::OutputText { text: state.assistant_text }],
                        end_turn: None,
                        phase: None,
                    },
                ),
            ),
        ).push(without.last()));
    }
}

/// What the gathered reasoning adds to the end of a response, whatever else was
/// gathered: an item with all of it, before everything else, unless it is empty.
pub proof fn law_zai_end_with_reasoning(state: ZaiChatStateView)
    ensures
        ({
            let without = closing(
                ZaiChatStateView { reasoning_text: Seq::empty(), ..state },
            );
            &&& state.reasoning_text.len() == 0 ==> closing(state) == without
            &&& state.reasoning_text.len() > 0 ==> closing(state) == seq![
                Ok::<ResponseEventView, ApiErrorView>(
                    ResponseEventView::OutputItemDone(
                        ResponseItemView::Reasoning {
                            id: Seq::empty(),
                            summary: Seq::empty(),
                            content: Some(
                                seq![
                                    ReasoningItemContentView::ReasoningText {
                                        text: state.reasoning_text,
                                    },
                                ],
                            ),
                            encrypted_content: None,
                        },
                    ),
                ),
            ] + without
        }),
{
    let fewer = ZaiChatStateView { reasoning_text: Seq::empty(), ..state };
    let without = closing(fewer);
    if state.reasoning_text.len() == 0 {
        assert(state.reasoning_text =~= Seq::empty());
        assert(state =~= fewer);
    } else {
        assert(closing(state) =~= gathered_reasoning(state.reasoning_text)
            + without);
    }
}

proof fn lemma_outputs_agree(calls: ZaiToolCallsView, others: ZaiToolCallsView, order: Seq<usize>)
    requires
        forall|i: int| 0 <= i < order.len() ==> calls[#[trigger] order[i]] == others[order[i]],
    ensures
        zai_function_call_outputs(calls, order) == zai_function_call_outputs(others, order),
    decreases order.len(),
{
    if order.len() > 0 {
        let rest = order.drop_last();
        assert forall|i: int| 0 <= i < rest.len() implies calls[#[trigger] rest[i]]
            == others[rest[i]] by {
            assert(rest[i] == order[i]);
        }
        lemma_outputs_agree(calls, others, rest);
        assert(calls[order[order.len() - 1]] == others[order[order.len() - 1]]);
    }
}

/// What the tool call with the highest index adds to the end of a response: a
/// function call with its id, its name as it is and its arguments, behind those
/// of the other tool calls, where it has an id, and nothing otherwise.
pub proof fn law_zai_end_with_a_tool_call(state: ZaiChatStateView, highest: usize)
    requires
        state.assistant_text.len() == 0,
        state.tool_calls.dom().finite(),
        state.tool_calls.contains_key(highest),
        forall|index: usize| #[trigger] state.tool_calls.contains_key(index) ==> index <= highest,
    ensures
        ({
            let without = closing(
                ZaiChatStateView { tool_calls: state.tool_calls.remove(highest), ..state },
            );
            let call = state.tool_calls[highest];
            &&& without.len() > 0
            &&& call.id is None ==> closing(state) == without
            &&& call.id matches Some(id) ==> closing(state) == without.drop_last().push(
                Ok(
                    ResponseEventView::OutputItemDone(
                        ResponseItemView::FunctionCall {
                            id: None,
                            name: call.name,
                            namespace: None,
                            arguments: call.arguments,
                            call_id: id,
                        },
                    ),
                ),
            ).push(without.last())
        }),
{
    let calls = state.tool_calls;
    let fewer = calls.remove(highest);
    let rank = |index: usize| index as int;
    lemma_order_exists(fewer.dom(), rank);
    let order = ordered_keys(fewer.dom(), rank);
    let all = order.push(highest);
    assert forall|i: int| 0 <= i < order.len() implies fewer.contains_key(
        #[trigger] order[i],
    ) by {
        assert(order.to_set().contains(order[i]));
    }
    assert(increasing(all, rank)) by {
        assert forall|i: int, j: int| 0 <= i < j < all.len() implies rank(#[trigger] all[i])
            < rank(#[trigger] all[j]) by {
            assert(all[i] == order[i]);
            assert(fewer.contains_key(order[i]));
            assert(calls.contains_key(order[i]));
            if j < order.len() {
                assert(all[j] == order[j]);
            }
        }
    }
    assert forall|index: usize| all.to_set().contains(index) <==> calls.dom().contains(index) by {
        if all.to_set().contains(index) {
            let i = choose|i: int| 0 <= i < all.len() && all[i] == index;
            if i < order.len() {
                assert(fewer.contains_key(order[i]));
            }
        }
        if calls.dom().contains(index) {
            if index == highest {
                assert(all[order.len() as int] == index);
            } else {
                assert(order.to_set().contains(index));
                let i = choose|i: int| 0 <= i < order.len() && order[i] == index;
                assert(all[i] == index);
            }
        }
    }
    assert(all.to_set() =~= calls.dom());
    lemma_ordered_keys(calls.dom(), rank, all);
    assert(zai_tool_call_order(calls) == all);
    assert(zai_tool_call_order(fewer) == order);
    assert(all.drop_last() =~= order);
    lemma_outputs_agree(calls, fewer, order);
    let without = closing(ZaiChatStateView { tool_calls: fewer, ..state });
    let call = calls[highest];
    if let Some(id) = call.id {
        assert(closing(state) =~= without.drop_last().push(
            Ok(
                ResponseEventView::OutputItemDone(
                    ResponseItemView::FunctionCall {
                        id: None,
                        name: call.name,
                        namespace: None,
                        arguments: call.arguments,
                        call_id: id,
                    },
                ),
            ),
        ).push(without.last()));
    } else {
        assert(closing(state) =~= without);
    }
}

/// A stream begins with nothing but the opening event, and each poll goes on
/// from where the ones before it led to, until one of them ends the stream.
pub proof fn law_zai_polls_in_turn(
    state: ZaiChatStateView,
    earlier: Seq<ZaiPollView>,
    poll: ZaiPollView,
)
    ensures
        initial_zai_state() == (ZaiChatStateView {
            assistant_text: Seq::empty(),
            reasoning_text: Seq::empty(),
            tool_calls: Map::empty(),
            response_id: "zai-chat-response"@,
            usage: None,
        }),
        zai_run(state, Seq::empty()) == (ZaiOutcome {
            state,
            outputs: Seq::empty(),
            finished: false,
        }),
        ({
            let before = zai_run(state, earlier);
            let after = zai_run(state, earlier.push(poll));
            &&& before.finished ==> after == before
            &&& !before.finished ==> is_both(after, before, zai_step(before.state, poll))
        }),
        zai_stream_outputs(earlier) == seq![
            Ok::<ResponseEventView, ApiErrorView>(ResponseEventView::Created),
        ] + zai_run(initial_zai_state(), earlier).outputs,
{
    let one = seq![poll];
    assert(earlier.push(poll) =~= earlier + one);
    law_zai_run_in_parts(state, earlier, one);
    let before = zai_run(state, earlier);
    assert(one.drop_first() =~= Seq::empty());
    let step = zai_step(before.state, poll);
    reveal_with_fuel(zai_run, 2);
    assert(step.outputs + Seq::empty() =~= step.outputs);
    assert(zai_run(before.state, one).outputs =~= step.outputs);
    assert(zai_run(before.state, one).state == step.state);
    assert(zai_run(before.state, one).finished == step.finished);
}

} // verus!
