//! What holds of every stream of a Z.AI provider, whatever it sends.

use vstd::prelude::*;

use crate::gather::{gathered, lemma_gathered_concat, lemma_gathered_one};
use crate::json::{json_parsed, Json};
use crate::json_laws::{array_entry, entry, string_entry};
use crate::protocol::{
    ApiErrorView, ContentItemView, ReasoningItemContentView, ResponseEventView, ResponseItemView,
    TokenUsage,
};
use crate::sse::order::{lemma_order_exists, ordered_keys};
use crate::sse::outbox::StreamOutputView;
use crate::sse::received::{
    arguments_received, ends_completed, ends_failed, ends_with, is_completed, is_created,
    is_finished_item, is_terminal, lemma_ends_with, lemma_received_concat, lemma_received_nothing,
    lemma_received_one, nothing_finished, reasoning_received, text_received,
};
use crate::sse::zai_chat::{
    after_zai_choice, after_zai_choices, after_zai_delta, after_zai_header, after_zai_payload,
    delta_index, function_text, gathered_message, gathered_reasoning, initial_zai_state,
    payload_choices, reported_usage, tool_call_deltas, with_zai_deltas, zai_choice_delta_outputs,
    zai_choice_outputs, zai_choices_outputs, zai_closing_outputs, zai_delta_outputs,
    zai_deltas_outputs, zai_function_call_outputs, zai_reasoning_outputs, zai_run, zai_step,
    zai_stream_outputs, zai_text_outputs, zai_tool_call_at, zai_tool_call_order, ToolCallStateView,
    ZaiChatStateView, ZaiOutcome, ZaiPollView, ZaiToolCallsView,
};
use crate::sse::zai_step_laws::function_string;
use crate::text::{decimal, trimmed};

verus! {

/// An output while the response is under way.
spec fn is_progress(output: StreamOutputView) -> bool {
    match output {
        Ok(ResponseEventView::ReasoningContentDelta { .. }) => true,
        Ok(ResponseEventView::OutputTextDelta(_)) => true,
        Ok(ResponseEventView::ToolCallInputDelta { .. }) => true,
        _ => false,
    }
}

proof fn lemma_deltas_progress(calls: ZaiToolCallsView, deltas: Seq<Json>)
    ensures
        forall|i: int|
            0 <= i < zai_deltas_outputs(calls, deltas).len() ==> is_progress(
                #[trigger] zai_deltas_outputs(calls, deltas)[i],
            ),
    decreases deltas.len(),
{
    if deltas.len() > 0 {
        let before = zai_deltas_outputs(calls, deltas.drop_last());
        let outputs = zai_deltas_outputs(calls, deltas);
        lemma_deltas_progress(calls, deltas.drop_last());
        assert forall|i: int| 0 <= i < outputs.len() implies is_progress(#[trigger] outputs[i]) by {
            if i < before.len() {
                assert(outputs[i] == before[i]);
            }
        }
    }
}

proof fn lemma_choice_progress(state: ZaiChatStateView, choice: Json)
    ensures
        forall|i: int|
            0 <= i < zai_choice_outputs(state, choice).len() ==> is_progress(
                #[trigger] zai_choice_outputs(state, choice)[i],
            ),
{
    if let Some(delta) = choice.member("delta"@) {
        lemma_deltas_progress(state.tool_calls, tool_call_deltas(delta));
    }
    if let Some(message) = choice.member("message"@) {
        lemma_deltas_progress(
            after_zai_delta(state, choice).tool_calls,
            tool_call_deltas(message),
        );
    }
}

proof fn lemma_choices_progress(state: ZaiChatStateView, choices: Seq<Json>)
    ensures
        forall|i: int|
            0 <= i < zai_choices_outputs(state, choices).len() ==> is_progress(
                #[trigger] zai_choices_outputs(state, choices)[i],
            ),
    decreases choices.len(),
{
    if choices.len() > 0 {
        let before = zai_choices_outputs(state, choices.drop_last());
        let middle = after_zai_choices(state, choices.drop_last());
        let added = zai_choice_outputs(middle, choices.last());
        let outputs = zai_choices_outputs(state, choices);
        lemma_choices_progress(state, choices.drop_last());
        lemma_choice_progress(middle, choices.last());
        assert forall|i: int| 0 <= i < outputs.len() implies is_progress(#[trigger] outputs[i]) by {
            if i < before.len() {
                assert(outputs[i] == before[i]);
            } else {
                assert(outputs[i] == added[i - before.len()]);
            }
        }
    }
}

proof fn lemma_function_calls_finished(calls: ZaiToolCallsView, order: Seq<usize>)
    ensures
        forall|i: int|
            0 <= i < zai_function_call_outputs(calls, order).len() ==> is_finished_item(
                #[trigger] zai_function_call_outputs(calls, order)[i],
            ),
    decreases order.len(),
{
    if order.len() > 0 {
        let before = zai_function_call_outputs(calls, order.drop_last());
        let outputs = zai_function_call_outputs(calls, order);
        lemma_function_calls_finished(calls, order.drop_last());
        assert forall|i: int| 0 <= i < outputs.len() implies is_finished_item(
            #[trigger] outputs[i],
        ) by {
            if i < before.len() {
                assert(outputs[i] == before[i]);
            }
        }
    }
}

proof fn lemma_closing_shape(state: ZaiChatStateView)
    ensures
        ({
            let outputs = zai_closing_outputs(state);
            &&& outputs.len() > 0
            &&& is_completed(outputs.last())
            &&& forall|i: int|
                0 <= i < outputs.len() - 1 ==> is_finished_item(#[trigger] outputs[i])
        }),
{
    lemma_function_calls_finished(state.tool_calls, zai_tool_call_order(state.tool_calls));
}

/// The outputs end with the end of the stream if and only if it is over, and
/// hold no other end and no beginning.
spec fn well_ended(outcome: ZaiOutcome) -> bool {
    &&& outcome.finished <==> outcome.outputs.len() > 0 && is_terminal(outcome.outputs.last())
    &&& forall|i: int|
        0 <= i < outcome.outputs.len() - 1 ==> !is_terminal(#[trigger] outcome.outputs[i])
    &&& forall|i: int| 0 <= i < outcome.outputs.len() ==> !is_created(#[trigger] outcome.outputs[i])
}

proof fn lemma_step_shape(state: ZaiChatStateView, poll: ZaiPollView)
    ensures
        well_ended(zai_step(state, poll)),
{
    lemma_closing_shape(state);
    if let ZaiPollView::Event(data) = poll {
        if let Ok(payload) = json_parsed(trimmed(data)) {
            lemma_choices_progress(after_zai_header(state, payload), payload_choices(payload));
        }
    }
}

proof fn lemma_run_shape(state: ZaiChatStateView, polls: Seq<ZaiPollView>)
    ensures
        well_ended(zai_run(state, polls)),
    decreases polls.len(),
{
    if polls.len() > 0 {
        let first = zai_step(state, polls.first());
        lemma_step_shape(state, polls.first());
        if !first.finished {
            let rest = zai_run(first.state, polls.drop_first());
            lemma_run_shape(first.state, polls.drop_first());
            let whole = zai_run(state, polls);
            assert(whole.outputs == first.outputs + rest.outputs);
            assert forall|i: int| 0 <= i < whole.outputs.len() implies !is_created(
                #[trigger] whole.outputs[i],
            ) by {
                if i >= first.outputs.len() {
                    assert(whole.outputs[i] == rest.outputs[i - first.outputs.len()]);
                } else {
                    assert(whole.outputs[i] == first.outputs[i]);
                }
            }
            assert forall|i: int| 0 <= i < whole.outputs.len() - 1 implies !is_terminal(
                #[trigger] whole.outputs[i],
            ) by {
                if i >= first.outputs.len() {
                    assert(whole.outputs[i] == rest.outputs[i - first.outputs.len()]);
                } else if i == first.outputs.len() - 1 {
                    assert(whole.outputs[i] == first.outputs.last());
                } else {
                    assert(whole.outputs[i] == first.outputs[i]);
                }
            }
        }
    }
}

/// A stream begins with the opening event and is over when its reader has been
/// told so: the opening event stands first and nowhere else, the last output is
/// the closing event or an error if and only if nothing more is read, and no
/// other output is either of these.
pub proof fn law_zai_begins_and_ends_once(polls: Seq<ZaiPollView>)
    ensures
        ({
            let outputs = zai_stream_outputs(polls);
            &&& is_created(outputs[0])
            &&& forall|i: int| 0 < i < outputs.len() ==> !is_created(#[trigger] outputs[i])
            &&& zai_run(initial_zai_state(), polls).finished <==> is_terminal(outputs.last())
            &&& forall|i: int| 0 <= i < outputs.len() - 1 ==> !is_terminal(#[trigger] outputs[i])
        }),
{
    let run = zai_run(initial_zai_state(), polls);
    let outputs = zai_stream_outputs(polls);
    lemma_run_shape(initial_zai_state(), polls);
    assert forall|i: int| 0 < i < outputs.len() implies !is_created(#[trigger] outputs[i]) by {
        assert(outputs[i] == run.outputs[i - 1]);
    }
    assert forall|i: int| 0 <= i < outputs.len() - 1 implies !is_terminal(
        #[trigger] outputs[i],
    ) by {
        if i > 0 {
            assert(outputs[i] == run.outputs[i - 1]);
        }
    }
    if run.outputs.len() > 0 {
        assert(outputs.last() == run.outputs.last());
    }
}

/// Nothing behind the end of a stream is read, and a stream that is read in two
/// parts hands over what it does when it is read in one.
pub proof fn law_zai_run_in_parts(
    state: ZaiChatStateView,
    earlier: Seq<ZaiPollView>,
    later: Seq<ZaiPollView>,
)
    ensures
        zai_run(state, earlier + later) == ({
            let run = zai_run(state, earlier);
            if run.finished {
                run
            } else {
                let rest = zai_run(run.state, later);
                ZaiOutcome { outputs: run.outputs + rest.outputs, ..rest }
            }
        }),
    decreases earlier.len(),
{
    if earlier.len() == 0 {
        assert(earlier + later =~= later);
        assert(Seq::<StreamOutputView>::empty() + zai_run(state, later).outputs =~= zai_run(
            state,
            later,
        ).outputs);
    } else {
        let first = zai_step(state, earlier.first());
        assert((earlier + later).first() == earlier.first());
        assert((earlier + later).drop_first() =~= earlier.drop_first() + later);
        law_zai_run_in_parts(first.state, earlier.drop_first(), later);
        let run = zai_run(first.state, earlier.drop_first());
        if !first.finished && !run.finished {
            let end = zai_run(run.state, later);
            assert(first.outputs + (run.outputs + end.outputs) =~= (first.outputs + run.outputs)
                + end.outputs);
        }
    }
}

/// The payloads that a stream reads: those of the polls up to the one that ends
/// it.
pub open spec fn payloads_read(polls: Seq<ZaiPollView>) -> Seq<Json>
    decreases polls.len(),
{
    if polls.len() == 0 {
        Seq::empty()
    } else {
        match polls.first() {
            ZaiPollView::Event(data) => if trimmed(data).len() == 0 {
                payloads_read(polls.drop_first())
            } else if trimmed(data) == "[DONE]"@ {
                Seq::empty()
            } else {
                match json_parsed(trimmed(data)) {
                    Ok(payload) => seq![payload] + payloads_read(polls.drop_first()),
                    Err(_) => Seq::empty(),
                }
            },
            _ => Seq::empty(),
        }
    }
}

/// The choices that a payload holds.
pub open spec fn choices_held(payload: Json) -> Seq<Json> {
    match array_entry(payload, "choices"@) {
        Some(choices) => choices,
        None => Seq::empty(),
    }
}

/// The choices of several payloads.
pub open spec fn choices_of(payloads: Seq<Json>) -> Seq<Json> {
    gathered(payloads, |payload: Json| choices_held(payload))
}

/// The string under `key` of an optional document, if there is one.
pub open spec fn text_in(value: Option<Json>, key: Seq<char>) -> Seq<char> {
    match value {
        Some(value) => match string_entry(value, key) {
            Some(text) => text,
            None => Seq::empty(),
        },
        None => Seq::empty(),
    }
}

/// The text under `key` in a choice: that of its delta, then that of its
/// message.
pub open spec fn text_in_choice(choice: Json, key: Seq<char>) -> Seq<char> {
    text_in(entry(choice, "delta"@), key) + text_in(entry(choice, "message"@), key)
}

/// The tool call deltas of an optional document.
pub open spec fn deltas_in(value: Option<Json>) -> Seq<Json> {
    match value {
        Some(value) => match array_entry(value, "tool_calls"@) {
            Some(deltas) => deltas,
            None => Seq::empty(),
        },
        None => Seq::empty(),
    }
}

/// The tool call deltas of a choice: those of its delta, then those of its
/// message.
pub open spec fn deltas_in_choice(choice: Json) -> Seq<Json> {
    deltas_in(entry(choice, "delta"@)) + deltas_in(entry(choice, "message"@))
}

/// The answer that choices add up to.
pub open spec fn answer_in(choices: Seq<Json>) -> Seq<char> {
    gathered(choices, |choice: Json| text_in_choice(choice, "content"@))
}

/// The reasoning that choices add up to.
pub open spec fn reasoning_in(choices: Seq<Json>) -> Seq<char> {
    gathered(choices, |choice: Json| text_in_choice(choice, "reasoning_content"@))
}

/// The tool call deltas of several choices.
pub open spec fn tool_calls_in(choices: Seq<Json>) -> Seq<Json> {
    gathered(choices, |choice: Json| deltas_in_choice(choice))
}

/// The last id that a payload gives.
pub open spec fn last_id(payloads: Seq<Json>) -> Option<Seq<char>>
    decreases payloads.len(),
{
    if payloads.len() == 0 {
        None
    } else if string_entry(payloads.last(), "id"@) is Some {
        string_entry(payloads.last(), "id"@)
    } else {
        last_id(payloads.drop_last())
    }
}

/// The last usage that a payload reports.
pub open spec fn last_reported_usage(payloads: Seq<Json>) -> Option<TokenUsage>
    decreases payloads.len(),
{
    if payloads.len() == 0 {
        None
    } else if entry(payloads.last(), "usage"@) is Some {
        reported_usage(entry(payloads.last(), "usage"@))
    } else {
        last_reported_usage(payloads.drop_last())
    }
}

/// What payloads add up to.
pub open spec fn response_of(payloads: Seq<Json>) -> ZaiChatStateView {
    let choices = choices_of(payloads);
    ZaiChatStateView {
        assistant_text: answer_in(choices),
        reasoning_text: reasoning_in(choices),
        tool_calls: with_zai_deltas(Map::empty(), tool_calls_in(choices)),
        response_id: match last_id(payloads) {
            Some(id) => id,
            None => "zai-chat-response"@,
        },
        usage: last_reported_usage(payloads),
    }
}

/// Taking in tool call deltas in two parts, the second from where the first
/// leads to, comes to the same as taking them in at once.
pub proof fn law_zai_deltas_in_parts(calls: ZaiToolCallsView, left: Seq<Json>, right: Seq<Json>)
    ensures
        with_zai_deltas(calls, left + right) == with_zai_deltas(
            with_zai_deltas(calls, left),
            right,
        ),
        zai_deltas_outputs(calls, left + right) == zai_deltas_outputs(calls, left)
            + zai_deltas_outputs(with_zai_deltas(calls, left), right),
    decreases right.len(),
{
    if right.len() == 0 {
        assert(left + right =~= left);
        assert(zai_deltas_outputs(calls, left) + Seq::empty() =~= zai_deltas_outputs(calls, left));
    } else {
        assert((left + right).drop_last() =~= left + right.drop_last());
        law_zai_deltas_in_parts(calls, left, right.drop_last());
        let added = zai_delta_outputs(
            with_zai_deltas(calls, left + right.drop_last()),
            right.last(),
        );
        let a = zai_deltas_outputs(calls, left);
        let b = zai_deltas_outputs(with_zai_deltas(calls, left), right.drop_last());
        assert((a + b) + added =~= a + (b + added));
    }
}

/// What a choice adds to a state.
proof fn lemma_choice_adds(state: ZaiChatStateView, choice: Json)
    ensures
        after_zai_choice(state, choice) == (ZaiChatStateView {
            assistant_text: state.assistant_text + text_in_choice(choice, "content"@),
            reasoning_text: state.reasoning_text + text_in_choice(choice, "reasoning_content"@),
            tool_calls: with_zai_deltas(state.tool_calls, deltas_in_choice(choice)),
            ..state
        }),
{
    let after = after_zai_choice(state, choice);
    law_zai_deltas_in_parts(
        state.tool_calls,
        deltas_in(choice.member("delta"@)),
        deltas_in(choice.member("message"@)),
    );
    assert(after.assistant_text =~= state.assistant_text + text_in_choice(choice, "content"@));
    assert(after.reasoning_text =~= state.reasoning_text + text_in_choice(
        choice,
        "reasoning_content"@,
    ));
}

/// What choices add to a state.
proof fn lemma_choices_add(state: ZaiChatStateView, choices: Seq<Json>)
    ensures
        after_zai_choices(state, choices) == (ZaiChatStateView {
            assistant_text: state.assistant_text + answer_in(choices),
            reasoning_text: state.reasoning_text + reasoning_in(choices),
            tool_calls: with_zai_deltas(state.tool_calls, tool_calls_in(choices)),
            ..state
        }),
    decreases choices.len(),
{
    let after = after_zai_choices(state, choices);
    if choices.len() > 0 {
        let before = after_zai_choices(state, choices.drop_last());
        lemma_choices_add(state, choices.drop_last());
        lemma_choice_adds(before, choices.last());
        law_zai_deltas_in_parts(
            state.tool_calls,
            tool_calls_in(choices.drop_last()),
            deltas_in_choice(choices.last()),
        );
    }
    assert(after.assistant_text =~= state.assistant_text + answer_in(choices));
    assert(after.reasoning_text =~= state.reasoning_text + reasoning_in(choices));
}

/// The state behind several payloads.
pub open spec fn after_payloads(state: ZaiChatStateView, payloads: Seq<Json>) -> ZaiChatStateView
    decreases payloads.len(),
{
    if payloads.len() == 0 {
        state
    } else {
        after_zai_payload(after_payloads(state, payloads.drop_last()), payloads.last())
    }
}

proof fn lemma_after_first(state: ZaiChatStateView, payload: Json, rest: Seq<Json>)
    ensures
        after_payloads(state, seq![payload] + rest) == after_payloads(
            after_zai_payload(state, payload),
            rest,
        ),
    decreases rest.len(),
{
    let all = seq![payload] + rest;
    if rest.len() == 0 {
        assert(all.last() == payload);
        assert(after_payloads(state, all.drop_last()) == state);
    } else {
        assert(all.drop_last() =~= seq![payload] + rest.drop_last());
        assert(all.last() == rest.last());
        lemma_after_first(state, payload, rest.drop_last());
    }
}

/// What payloads add up to, step by step, is what they add up to in one go: all
/// the texts in order, the last id, the last usage, all the tool call deltas.
pub proof fn law_zai_payloads_add_up(payloads: Seq<Json>)
    ensures
        after_payloads(initial_zai_state(), payloads) == response_of(payloads),
    decreases payloads.len(),
{
    let response = response_of(payloads);
    if payloads.len() == 0 {
        assert(choices_of(payloads) == Seq::<Json>::empty());
    } else {
        let earlier = payloads.drop_last();
        let last = payloads.last();
        let before = after_payloads(initial_zai_state(), earlier);
        law_zai_payloads_add_up(earlier);
        let header = after_zai_header(before, last);
        lemma_choices_add(header, payload_choices(last));
        let old_choices = choices_of(earlier);
        let new_choices = payload_choices(last);
        assert(choices_of(payloads) == old_choices + new_choices);
        lemma_gathered_concat(
            old_choices,
            new_choices,
            |choice: Json| text_in_choice(choice, "content"@),
        );
        lemma_gathered_concat(
            old_choices,
            new_choices,
            |choice: Json| text_in_choice(choice, "reasoning_content"@),
        );
        lemma_gathered_concat(old_choices, new_choices, |choice: Json| deltas_in_choice(choice));
        law_zai_deltas_in_parts(
            Map::empty(),
            tool_calls_in(old_choices),
            tool_calls_in(new_choices),
        );
    }
}

proof fn lemma_run_closes(state: ZaiChatStateView, polls: Seq<ZaiPollView>)
    ensures
        ({
            let run = zai_run(state, polls);
            run.finished && is_completed(run.outputs.last()) ==> ends_with(
                run.outputs,
                zai_closing_outputs(after_payloads(state, payloads_read(polls))),
            )
        }),
    decreases polls.len(),
{
    if polls.len() > 0 {
        let first = zai_step(state, polls.first());
        let rest = polls.drop_first();
        let run = zai_run(state, polls);
        let end = zai_closing_outputs(state);
        assert(end.skip(0) =~= end);
        if !first.finished {
            let later = zai_run(first.state, rest);
            lemma_run_closes(first.state, rest);
            lemma_run_shape(first.state, rest);
            if let ZaiPollView::Event(data) = polls.first() {
                if trimmed(data).len() > 0 {
                    if let Ok(payload) = json_parsed(trimmed(data)) {
                        lemma_after_first(state, payload, payloads_read(rest));
                    }
                }
            }
            if run.finished && is_completed(run.outputs.last()) {
                assert(run.outputs.last() == later.outputs.last());
                lemma_ends_with(
                    first.outputs,
                    later.outputs,
                    zai_closing_outputs(after_payloads(state, payloads_read(polls))),
                );
            }
        }
    }
}

/// What a complete response is closed with: behind everything else come the
/// items that the payloads add up to, and the closing event.
pub proof fn law_zai_closing(polls: Seq<ZaiPollView>)
    ensures
        is_completed(zai_stream_outputs(polls).last()) ==> ends_with(
            zai_stream_outputs(polls),
            zai_closing_outputs(response_of(payloads_read(polls))),
        ),
{
    let run = zai_run(initial_zai_state(), polls);
    let outputs = zai_stream_outputs(polls);
    law_zai_begins_and_ends_once(polls);
    lemma_run_closes(initial_zai_state(), polls);
    law_zai_payloads_add_up(payloads_read(polls));
    lemma_run_shape(initial_zai_state(), polls);
    if is_completed(outputs.last()) {
        assert(run.outputs.len() > 0);
        assert(outputs.last() == run.outputs.last());
        lemma_ends_with(
            seq![Ok(ResponseEventView::Created)],
            run.outputs,
            zai_closing_outputs(response_of(payloads_read(polls))),
        );
    }
}

/// The arguments that a delta adds to its tool call.
pub open spec fn zai_arguments(delta: Json) -> Seq<char> {
    match function_string(delta, "arguments"@) {
        Some(arguments) => arguments,
        None => Seq::empty(),
    }
}

/// The arguments in several tool call deltas.
pub open spec fn arguments_in(deltas: Seq<Json>) -> Seq<char> {
    gathered(deltas, |delta: Json| zai_arguments(delta))
}

/// The text of the answer in the deltas of choices.
pub open spec fn answer_in_deltas(choices: Seq<Json>) -> Seq<char> {
    gathered(choices, |choice: Json| text_in(entry(choice, "delta"@), "content"@))
}

/// The reasoning in the deltas of choices.
pub open spec fn reasoning_in_deltas(choices: Seq<Json>) -> Seq<char> {
    gathered(choices, |choice: Json| text_in(entry(choice, "delta"@), "reasoning_content"@))
}

/// The outputs hold what the choices stream.
spec fn delivered(outputs: Seq<StreamOutputView>, choices: Seq<Json>) -> bool {
    &&& text_received(outputs) == answer_in_deltas(choices)
    &&& reasoning_received(outputs) == reasoning_in_deltas(choices)
    &&& arguments_received(outputs) == arguments_in(tool_calls_in(choices))
}

proof fn lemma_deltas_delivered(calls: ZaiToolCallsView, deltas: Seq<Json>)
    ensures
        text_received(zai_deltas_outputs(calls, deltas)) == Seq::<char>::empty(),
        reasoning_received(zai_deltas_outputs(calls, deltas)) == Seq::<char>::empty(),
        arguments_received(zai_deltas_outputs(calls, deltas)) == arguments_in(deltas),
    decreases deltas.len(),
{
    if deltas.len() > 0 {
        let earlier = deltas.drop_last();
        let outputs = zai_deltas_outputs(calls, earlier);
        let added = zai_delta_outputs(with_zai_deltas(calls, earlier), deltas.last());
        lemma_deltas_delivered(calls, earlier);
        lemma_received_concat(outputs, added);
        if function_text(deltas.last(), "arguments"@) is Some {
            lemma_received_one(added[0]);
            assert(added =~= seq![added[0]]);
        } else {
            lemma_received_nothing(added);
        }
    }
}

proof fn lemma_choice_delivered(state: ZaiChatStateView, choice: Json)
    ensures
        ({
            let outputs = zai_choice_outputs(state, choice);
            &&& text_received(outputs) == text_in(choice.member("delta"@), "content"@)
            &&& reasoning_received(outputs) == text_in(
                choice.member("delta"@),
                "reasoning_content"@,
            )
            &&& arguments_received(outputs) == arguments_in(deltas_in_choice(choice))
        }),
{
    let outputs = zai_choice_outputs(state, choice);
    let first = zai_choice_delta_outputs(state, choice);
    let in_delta = deltas_in(choice.member("delta"@));
    let in_message = deltas_in(choice.member("message"@));
    let calls = after_zai_delta(state, choice).tool_calls;
    lemma_gathered_concat(in_delta, in_message, |delta: Json| zai_arguments(delta));
    assert(text_received(first) == text_in(choice.member("delta"@), "content"@)
        && reasoning_received(first) == text_in(choice.member("delta"@), "reasoning_content"@)
        && arguments_received(first) == arguments_in(in_delta)) by {
        match choice.member("delta"@) {
            Some(delta) => {
                let reasoning = zai_reasoning_outputs(delta);
                let text = zai_text_outputs(delta);
                let tools = zai_deltas_outputs(state.tool_calls, tool_call_deltas(delta));
                lemma_deltas_delivered(state.tool_calls, tool_call_deltas(delta));
                lemma_received_concat(reasoning, text);
                lemma_received_concat(reasoning + text, tools);
                if reasoning.len() > 0 {
                    lemma_received_one(reasoning[0]);
                    assert(reasoning =~= seq![reasoning[0]]);
                } else {
                    lemma_received_nothing(reasoning);
                }
                if text.len() > 0 {
                    lemma_received_one(text[0]);
                    assert(text =~= seq![text[0]]);
                } else {
                    lemma_received_nothing(text);
                }
                assert(text_received(first) =~= text_in(Some(delta), "content"@));
                assert(reasoning_received(first) =~= text_in(Some(delta), "reasoning_content"@));
                assert(arguments_received(first) =~= arguments_in(in_delta));
            },
            None => {
                lemma_received_nothing(first);
            },
        }
    }
    match choice.member("message"@) {
        Some(message) => {
            lemma_deltas_delivered(calls, tool_call_deltas(message));
            lemma_received_concat(first, zai_deltas_outputs(calls, tool_call_deltas(message)));
        },
        None => {},
    }
    assert(text_received(outputs) =~= text_received(first));
    assert(reasoning_received(outputs) =~= reasoning_received(first));
    assert(arguments_received(outputs) =~= arguments_in(in_delta) + arguments_in(in_message));
}

proof fn lemma_choices_delivered(state: ZaiChatStateView, choices: Seq<Json>)
    ensures
        delivered(zai_choices_outputs(state, choices), choices),
    decreases choices.len(),
{
    if choices.len() == 0 {
        lemma_received_nothing(Seq::empty());
    } else {
        let earlier = choices.drop_last();
        let middle = after_zai_choices(state, earlier);
        let before = zai_choices_outputs(state, earlier);
        lemma_choices_delivered(state, earlier);
        lemma_choice_delivered(middle, choices.last());
        lemma_received_concat(before, zai_choice_outputs(middle, choices.last()));
        lemma_gathered_concat(
            tool_calls_in(earlier),
            deltas_in_choice(choices.last()),
            |delta: Json| zai_arguments(delta),
        );
    }
}

proof fn lemma_delivered_concat(
    first: Seq<StreamOutputView>,
    first_choices: Seq<Json>,
    second: Seq<StreamOutputView>,
    second_choices: Seq<Json>,
)
    requires
        delivered(first, first_choices),
        delivered(second, second_choices),
    ensures
        delivered(first + second, first_choices + second_choices),
{
    lemma_received_concat(first, second);
    lemma_gathered_concat(
        first_choices,
        second_choices,
        |choice: Json| text_in(entry(choice, "delta"@), "content"@),
    );
    lemma_gathered_concat(
        first_choices,
        second_choices,
        |choice: Json| text_in(entry(choice, "delta"@), "reasoning_content"@),
    );
    lemma_gathered_concat(
        first_choices,
        second_choices,
        |choice: Json| deltas_in_choice(choice),
    );
    lemma_gathered_concat(
        tool_calls_in(first_choices),
        tool_calls_in(second_choices),
        |delta: Json| zai_arguments(delta),
    );
}

proof fn lemma_nothing_delivered(outputs: Seq<StreamOutputView>)
    requires
        forall|i: int| 0 <= i < outputs.len() ==> !is_progress(#[trigger] outputs[i]),
    ensures
        delivered(outputs, Seq::empty()),
{
    lemma_received_nothing(outputs);
}

proof fn lemma_run_delivered(state: ZaiChatStateView, polls: Seq<ZaiPollView>)
    ensures
        delivered(zai_run(state, polls).outputs, choices_of(payloads_read(polls))),
    decreases polls.len(),
{
    let run = zai_run(state, polls);
    if polls.len() == 0 {
        lemma_nothing_delivered(Seq::empty());
    } else {
        let first = zai_step(state, polls.first());
        let rest = polls.drop_first();
        if first.finished {
            lemma_closing_shape(state);
            assert forall|i: int| 0 <= i < first.outputs.len() implies !is_progress(
                #[trigger] first.outputs[i],
            ) by {
                if first.outputs == zai_closing_outputs(state) && i < first.outputs.len() - 1 {
                    assert(is_finished_item(first.outputs[i]));
                }
            }
            lemma_nothing_delivered(first.outputs);
        } else {
            let later = zai_run(first.state, rest);
            lemma_run_delivered(first.state, rest);
            assert(run.outputs == first.outputs + later.outputs);
            if let ZaiPollView::Event(data) = polls.first() {
                if trimmed(data).len() == 0 {
                    assert(run.outputs =~= later.outputs);
                } else if let Ok(payload) = json_parsed(trimmed(data)) {
                    let choices = payload_choices(payload);
                    let part = |payload: Json| choices_held(payload);
                    lemma_choices_delivered(after_zai_header(state, payload), choices);
                    lemma_delivered_concat(
                        first.outputs,
                        choices,
                        later.outputs,
                        choices_of(payloads_read(rest)),
                    );
                    lemma_gathered_one(payload, part);
                    lemma_gathered_concat(seq![payload], payloads_read(rest), part);
                }
            }
        }
    }
}

/// Nothing that is streamed is lost on the way: the text and the reasoning of
/// the deltas and the arguments of the tool calls come out as they were sent,
/// whole and in order.
pub proof fn law_zai_text_passes_through(polls: Seq<ZaiPollView>)
    ensures
        ({
            let outputs = zai_stream_outputs(polls);
            let choices = choices_of(payloads_read(polls));
            &&& text_received(outputs) == answer_in_deltas(choices)
            &&& reasoning_received(outputs) == reasoning_in_deltas(choices)
            &&& arguments_received(outputs) == arguments_in(tool_calls_in(choices))
        }),
{
    let run = zai_run(initial_zai_state(), polls);
    let opening: Seq<StreamOutputView> = seq![Ok(ResponseEventView::Created)];
    lemma_run_delivered(initial_zai_state(), polls);
    lemma_received_concat(opening, run.outputs);
    lemma_received_nothing(opening);
    let outputs = zai_stream_outputs(polls);
    assert(text_received(outputs) =~= text_received(run.outputs));
    assert(reasoning_received(outputs) =~= reasoning_received(run.outputs));
    assert(arguments_received(outputs) =~= arguments_received(run.outputs));
}

/// Where no choice carries a whole message, the answer and the reasoning that a
/// response is closed with are those that were streamed.
pub proof fn law_zai_closes_with_what_was_streamed(choices: Seq<Json>)
    requires
        forall|i: int|
            0 <= i < choices.len() ==> (#[trigger] choices[i]).member("message"@) is None,
    ensures
        answer_in(choices) == answer_in_deltas(choices),
        reasoning_in(choices) == reasoning_in_deltas(choices),
    decreases choices.len(),
{
    if choices.len() > 0 {
        let earlier = choices.drop_last();
        let last = choices.last();
        assert forall|i: int| 0 <= i < earlier.len() implies (#[trigger] earlier[i]).member(
            "message"@,
        ) is None by {
            assert(earlier[i] == choices[i]);
        }
        law_zai_closes_with_what_was_streamed(earlier);
        assert(choices[choices.len() - 1].member("message"@) is None);
        assert(text_in_choice(last, "content"@) =~= text_in(last.member("delta"@), "content"@));
        assert(text_in_choice(last, "reasoning_content"@) =~= text_in(
            last.member("delta"@),
            "reasoning_content"@,
        ));
    }
}

/// The index that a delta names.
pub open spec fn named_index(delta: Json) -> Option<usize> {
    match entry(delta, "index"@) {
        Some(Json::Integer(n)) if 0 <= n <= 0xffff_ffff_ffff_ffff => Some(n as u64 as usize),
        _ => None,
    }
}

/// The index that a delta speaks of, behind those before it.
pub open spec fn index_at(deltas: Seq<Json>, i: int) -> usize {
    delta_index(with_zai_deltas(Map::empty(), deltas.take(i)), deltas[i])
}

/// The last of the ids that the deltas of a tool call give.
pub open spec fn last_given_id(deltas: Seq<Json>, index: usize) -> Option<Seq<char>>
    decreases deltas.len(),
{
    if deltas.len() == 0 {
        None
    } else if index_at(deltas, deltas.len() - 1) == index && string_entry(
        deltas.last(),
        "id"@,
    ) is Some {
        string_entry(deltas.last(), "id"@)
    } else {
        last_given_id(deltas.drop_last(), index)
    }
}

/// The strings under `key` of the function that the deltas of a tool call give,
/// one behind the other.
pub open spec fn given_texts(deltas: Seq<Json>, index: usize, key: Seq<char>) -> Seq<char>
    decreases deltas.len(),
{
    if deltas.len() == 0 {
        Seq::empty()
    } else {
        let before = given_texts(deltas.drop_last(), index, key);
        if index_at(deltas, deltas.len() - 1) == index {
            match function_string(deltas.last(), key) {
                Some(part) => before + part,
                None => before,
            }
        } else {
            before
        }
    }
}

/// What a tool call adds up to: the last id that its deltas give, and all the
/// parts of its name and of its arguments in order. A call is there if and only
/// if a delta speaks of it, and calls do not mix. A delta speaks of the index
/// that it names, and of the number of calls before it where it names none.
pub proof fn law_zai_tool_call_adds_up(deltas: Seq<Json>, index: usize)
    ensures
        ({
            let calls = with_zai_deltas(Map::empty(), deltas);
            &&& calls.contains_key(index) <==> exists|i: int|
                0 <= i < deltas.len() && #[trigger] index_at(deltas, i) == index
            &&& zai_tool_call_at(calls, index) == (ToolCallStateView {
                id: last_given_id(deltas, index),
                name: given_texts(deltas, index, "name"@),
                arguments: given_texts(deltas, index, "arguments"@),
            })
        }),
        forall|i: int|
            0 <= i < deltas.len() ==> #[trigger] index_at(deltas, i) == match named_index(
                deltas[i],
            ) {
                Some(named) => named,
                None => with_zai_deltas(Map::empty(), deltas.take(i)).len() as usize,
            },
    decreases deltas.len(),
{
    if deltas.len() > 0 {
        let earlier = deltas.drop_last();
        let n = deltas.len() - 1;
        law_zai_tool_call_adds_up(earlier, index);
        let before = with_zai_deltas(Map::empty(), earlier);
        let calls = with_zai_deltas(Map::empty(), deltas);
        assert(deltas.take(n) =~= earlier);
        assert(index_at(deltas, n) == delta_index(before, deltas.last()));
        assert forall|i: int| 0 <= i < n implies #[trigger] index_at(deltas, i) == index_at(
            earlier,
            i,
        ) by {
            assert(deltas.take(i) =~= earlier.take(i));
        }
        if before.contains_key(index) {
            let i = choose|i: int|
                0 <= i < earlier.len() && #[trigger] index_at(earlier, i) == index;
            assert(index_at(deltas, i) == index);
        }
        if exists|i: int| 0 <= i < deltas.len() && #[trigger] index_at(deltas, i) == index {
            let i = choose|i: int|
                0 <= i < deltas.len() && #[trigger] index_at(deltas, i) == index;
            if i < n {
                assert(index_at(earlier, i) == index);
            }
        }
    }
}

proof fn lemma_finitely_many(calls: ZaiToolCallsView, deltas: Seq<Json>)
    requires
        calls.dom().finite(),
    ensures
        with_zai_deltas(calls, deltas).dom().finite(),
    decreases deltas.len(),
{
    if deltas.len() > 0 {
        lemma_finitely_many(calls, deltas.drop_last());
    }
}

/// The function call that a finished tool call is.
pub open spec fn zai_function_call(
    call: ToolCallStateView,
    call_id: Seq<char>,
) -> StreamOutputView {
    Ok(
        ResponseEventView::OutputItemDone(
            ResponseItemView::FunctionCall {
                id: None,
                name: call.name,
                namespace: None,
                arguments: call.arguments,
                call_id,
            },
        ),
    )
}

proof fn lemma_function_call_comes(calls: ZaiToolCallsView, order: Seq<usize>, at: int)
    requires
        0 <= at < order.len(),
    ensures
        calls[order[at]].id matches Some(id) ==> zai_function_call_outputs(calls, order).contains(
            zai_function_call(calls[order[at]], id),
        ),
    decreases order.len(),
{
    if let Some(id) = calls[order[at]].id {
        let output = zai_function_call(calls[order[at]], id);
        let before = zai_function_call_outputs(calls, order.drop_last());
        let outputs = zai_function_call_outputs(calls, order);
        if at == order.len() - 1 {
            assert(outputs[before.len() as int] == output);
        } else {
            lemma_function_call_comes(calls, order.drop_last(), at);
            assert(order.drop_last()[at] == order[at]);
            assert(before.contains(output));
            let i = choose|i: int| 0 <= i < before.len() && before[i] == output;
            assert(outputs[i] == output);
        }
    }
}

/// An output that hands over one of the tool calls.
pub open spec fn hands_over_a_zai_call(calls: ZaiToolCallsView, output: StreamOutputView) -> bool {
    exists|index: usize| #[trigger]
        calls.contains_key(index) && calls[index].id is Some && output == zai_function_call(
            calls[index],
            calls[index].id->Some_0,
        )
}

proof fn lemma_only_calls_come(calls: ZaiToolCallsView, order: Seq<usize>)
    requires
        forall|i: int| 0 <= i < order.len() ==> calls.contains_key(#[trigger] order[i]),
    ensures
        forall|k: int|
            0 <= k < zai_function_call_outputs(calls, order).len() ==> hands_over_a_zai_call(
                calls,
                #[trigger] zai_function_call_outputs(calls, order)[k],
            ),
    decreases order.len(),
{
    if order.len() > 0 {
        let rest = order.drop_last();
        assert forall|i: int| 0 <= i < rest.len() implies calls.contains_key(
            #[trigger] rest[i],
        ) by {
            assert(rest[i] == order[i]);
        }
        lemma_only_calls_come(calls, rest);
        let before = zai_function_call_outputs(calls, rest);
        let outputs = zai_function_call_outputs(calls, order);
        assert(calls.contains_key(order[order.len() - 1]));
        assert forall|k: int| 0 <= k < outputs.len() implies hands_over_a_zai_call(
            calls,
            #[trigger] outputs[k],
        ) by {
            if k < before.len() {
                assert(outputs[k] == before[k]);
            }
        }
    }
}

/// No tool call is lost and none is made up: a complete response goes through
/// all of its tool calls, lowest index first, hands over each one that has an
/// id, and hands over no others.
pub proof fn law_zai_tool_calls_come_out(payloads: Seq<Json>)
    ensures
        ({
            let calls = response_of(payloads).tool_calls;
            let order = zai_tool_call_order(calls);
            &&& forall|i: int, j: int| 0 <= i < j < order.len() ==> order[i] < order[j]
            &&& order.to_set() == calls.dom()
            &&& forall|index: usize| #[trigger]
                calls.contains_key(index) ==> (calls[index].id matches Some(id)
                    ==> zai_function_call_outputs(calls, order).contains(
                    zai_function_call(calls[index], id),
                ))
            &&& forall|k: int|
                0 <= k < zai_function_call_outputs(calls, order).len() ==> hands_over_a_zai_call(
                    calls,
                    #[trigger] zai_function_call_outputs(calls, order)[k],
                )
        }),
{
    let calls = response_of(payloads).tool_calls;
    let order = zai_tool_call_order(calls);
    lemma_finitely_many(Map::empty(), tool_calls_in(choices_of(payloads)));
    let rank = |index: usize| index as int;
    lemma_order_exists(calls.dom(), rank);
    assert(order == ordered_keys(calls.dom(), rank));
    assert forall|i: int, j: int| 0 <= i < j < order.len() implies order[i] < order[j] by {
        assert(rank(order[i]) < rank(order[j]));
    }
    assert forall|index: usize| #[trigger] calls.contains_key(index) implies (
    calls[index].id matches Some(id) ==> zai_function_call_outputs(calls, order).contains(
        zai_function_call(calls[index], id),
    )) by {
        assert(order.to_set().contains(index));
        let at = choose|at: int| 0 <= at < order.len() && order[at] == index;
        lemma_function_call_comes(calls, order, at);
    }
    assert forall|i: int| 0 <= i < order.len() implies calls.contains_key(
        #[trigger] order[i],
    ) by {
        assert(order.to_set().contains(order[i]));
    }
    lemma_only_calls_come(calls, order);
}

/// A poll that completes the response.
pub open spec fn zai_completes(poll: ZaiPollView) -> bool {
    match poll {
        ZaiPollView::Event(data) => trimmed(data) == "[DONE]"@,
        ZaiPollView::Closed => true,
        _ => false,
    }
}

/// What a poll fails the stream with, if it does.
pub open spec fn zai_failure_of(poll: ZaiPollView) -> Option<Seq<char>> {
    match poll {
        ZaiPollView::Event(data) => if trimmed(data).len() == 0 || trimmed(data) == "[DONE]"@ {
            None
        } else {
            match json_parsed(trimmed(data)) {
                Ok(_) => None,
                Err(message) => Some("failed to parse Z.AI SSE payload: "@ + message),
            }
        },
        ZaiPollView::DecodeError(message) => Some("error decoding SSE stream: "@ + message),
        ZaiPollView::Closed => None,
        ZaiPollView::IdleTimeout { millis } => Some(
            "stream disconnected after "@ + decimal(millis as nat) + " ms of inactivity"@,
        ),
    }
}

/// The stream is completed at `i`, if not before, and has not failed by then.
pub open spec fn zai_completes_at(polls: Seq<ZaiPollView>, i: int) -> bool {
    &&& 0 <= i < polls.len()
    &&& zai_completes(polls[i])
    &&& forall|j: int| 0 <= j < i ==> zai_failure_of(#[trigger] polls[j]) is None
}

/// The stream fails at `i`, if not before, and is not completed by then.
pub open spec fn zai_fails_at(polls: Seq<ZaiPollView>, i: int) -> bool {
    &&& 0 <= i < polls.len()
    &&& zai_failure_of(polls[i]) is Some
    &&& forall|j: int|
        0 <= j < i ==> zai_failure_of(#[trigger] polls[j]) is None && !zai_completes(polls[j])
}

proof fn lemma_step_ending(state: ZaiChatStateView, poll: ZaiPollView)
    ensures
        zai_completes(poll) ==> zai_failure_of(poll) is None,
        zai_step(state, poll).finished <==> zai_completes(poll) || zai_failure_of(poll) is Some,
        zai_completes(poll) ==> ends_completed(zai_step(state, poll).outputs),
        zai_failure_of(poll) matches Some(message) ==> zai_step(state, poll).outputs == seq![
            Err::<ResponseEventView, ApiErrorView>(ApiErrorView::Stream(message)),
        ],
        !zai_completes(poll) ==> nothing_finished(zai_step(state, poll).outputs),
{
    reveal_strlit("[DONE]");
    if let ZaiPollView::Event(data) = poll {
        if let Ok(payload) = json_parsed(trimmed(data)) {
            lemma_choices_progress(after_zai_header(state, payload), payload_choices(payload));
        }
    }
}

proof fn lemma_run_ending(state: ZaiChatStateView, polls: Seq<ZaiPollView>)
    ensures
        ({
            let outputs = zai_run(state, polls).outputs;
            &&& ends_completed(outputs) <==> exists|i: int| zai_completes_at(polls, i)
            &&& ends_failed(outputs) <==> exists|i: int| zai_fails_at(polls, i)
            &&& forall|i: int| #[trigger]
                zai_fails_at(polls, i) ==> outputs.last() == Err::<ResponseEventView, ApiErrorView>(
                    ApiErrorView::Stream(zai_failure_of(polls[i])->Some_0),
                )
            &&& !ends_completed(outputs) ==> nothing_finished(outputs)
        }),
    decreases polls.len(),
{
    if polls.len() > 0 {
        let poll = polls.first();
        let first = zai_step(state, poll);
        let outputs = zai_run(state, polls).outputs;
        lemma_step_ending(state, poll);
        lemma_run_shape(state, polls);
        if zai_completes(poll) {
            assert(zai_completes_at(polls, 0));
            assert forall|i: int| !zai_fails_at(polls, i) by {
                if zai_fails_at(polls, i) {
                    assert(zai_failure_of(polls[0]) is None && !zai_completes(polls[0]));
                }
            }
        } else if zai_failure_of(poll) is Some {
            assert(zai_fails_at(polls, 0));
            assert forall|i: int| !zai_completes_at(polls, i) by {
                if zai_completes_at(polls, i) {
                    assert(zai_failure_of(polls[0]) is None);
                }
            }
            assert forall|i: int| #[trigger] zai_fails_at(polls, i) implies i == 0 by {
                if i > 0 {
                    assert(zai_failure_of(polls[0]) is None);
                }
            }
        } else {
            let later = polls.drop_first();
            let rest = zai_run(first.state, later);
            lemma_run_ending(first.state, later);
            lemma_run_shape(first.state, later);
            lemma_step_shape(state, poll);
            assert(outputs == first.outputs + rest.outputs);
            if rest.outputs.len() > 0 {
                assert(outputs.last() == rest.outputs.last());
            } else if first.outputs.len() > 0 {
                assert(outputs.last() == first.outputs.last());
            }
            assert forall|i: int| #[trigger] zai_completes_at(later, i) implies zai_completes_at(
                polls,
                i + 1,
            ) by {
                assert forall|j: int| 0 <= j < i + 1 implies zai_failure_of(
                    #[trigger] polls[j],
                ) is None by {
                    if j > 0 {
                        assert(later[j - 1] == polls[j]);
                    }
                }
            }
            assert forall|i: int| #[trigger] zai_completes_at(polls, i) implies zai_completes_at(
                later,
                i - 1,
            ) by {
                assert forall|j: int| 0 <= j < i - 1 implies zai_failure_of(
                    #[trigger] later[j],
                ) is None by {
                    assert(later[j] == polls[j + 1]);
                }
            }
            assert forall|i: int| #[trigger] zai_fails_at(later, i) implies zai_fails_at(
                polls,
                i + 1,
            ) by {
                assert forall|j: int| 0 <= j < i + 1 implies zai_failure_of(
                    #[trigger] polls[j],
                ) is None && !zai_completes(polls[j]) by {
                    if j > 0 {
                        assert(later[j - 1] == polls[j]);
                    }
                }
            }
            assert forall|i: int| #[trigger] zai_fails_at(polls, i) implies zai_fails_at(
                later,
                i - 1,
            ) && later[i - 1] == polls[i] by {
                assert forall|j: int| 0 <= j < i - 1 implies zai_failure_of(
                    #[trigger] later[j],
                ) is None && !zai_completes(later[j]) by {
                    assert(later[j] == polls[j + 1]);
                }
            }
            if exists|i: int| zai_completes_at(later, i) {
                let i = choose|i: int| zai_completes_at(later, i);
                assert(zai_completes_at(polls, i + 1));
            }
            if exists|i: int| zai_completes_at(polls, i) {
                let i = choose|i: int| zai_completes_at(polls, i);
                assert(zai_completes_at(later, i - 1));
            }
            if exists|i: int| zai_fails_at(later, i) {
                let i = choose|i: int| zai_fails_at(later, i);
                assert(zai_fails_at(polls, i + 1));
            }
            if !ends_completed(outputs) {
                assert forall|i: int| 0 <= i < outputs.len() implies !is_finished_item(
                    #[trigger] outputs[i],
                ) by {
                    if i < first.outputs.len() {
                        assert(outputs[i] == first.outputs[i]);
                    } else {
                        assert(outputs[i] == rest.outputs[i - first.outputs.len()]);
                    }
                }
            }
        }
    }
}

/// A response is completed if and only if `[DONE]` or the end of the stream
/// comes before any failure, and it fails, with the reason of the failure, if
/// and only if a failure comes before these.
pub proof fn law_zai_completion_or_failure(polls: Seq<ZaiPollView>)
    ensures
        ({
            let outputs = zai_stream_outputs(polls);
            &&& ends_completed(outputs) <==> exists|i: int| zai_completes_at(polls, i)
            &&& ends_failed(outputs) <==> exists|i: int| zai_fails_at(polls, i)
            &&& forall|i: int| #[trigger]
                zai_fails_at(polls, i) ==> outputs.last() == Err::<ResponseEventView, ApiErrorView>(
                    ApiErrorView::Stream(zai_failure_of(polls[i])->Some_0),
                )
        }),
{
    let run = zai_run(initial_zai_state(), polls).outputs;
    let outputs = zai_stream_outputs(polls);
    lemma_run_ending(initial_zai_state(), polls);
    if run.len() > 0 {
        assert(outputs.last() == run.last());
    } else {
        assert(is_created(outputs.last()));
    }
}

/// Finished items come of complete responses only: a stream that fails, or that
/// is still under way, has handed over none.
pub proof fn law_zai_only_complete_responses_finish_items(polls: Seq<ZaiPollView>)
    ensures
        !ends_completed(zai_stream_outputs(polls)) ==> nothing_finished(zai_stream_outputs(polls)),
{
    let run = zai_run(initial_zai_state(), polls).outputs;
    let outputs = zai_stream_outputs(polls);
    lemma_run_ending(initial_zai_state(), polls);
    if !ends_completed(outputs) {
        if run.len() > 0 {
            assert(outputs.last() == run.last());
        }
        assert forall|i: int| 0 <= i < outputs.len() implies !is_finished_item(
            #[trigger] outputs[i],
        ) by {
            if i > 0 {
                assert(outputs[i] == run[i - 1]);
            }
        }
    }
}

/// A finished message.
pub open spec fn is_finished_message(output: StreamOutputView) -> bool {
    output matches Ok(ResponseEventView::OutputItemDone(ResponseItemView::Message { .. }))
}

/// Finished reasoning.
pub open spec fn is_finished_reasoning(output: StreamOutputView) -> bool {
    output matches Ok(ResponseEventView::OutputItemDone(ResponseItemView::Reasoning { .. }))
}

/// The finished message with this text.
pub open spec fn finished_message(text: Seq<char>) -> StreamOutputView {
    Ok(
        ResponseEventView::OutputItemDone(
            ResponseItemView::Message {
                id: None,
                role: "assistant"@,
                content: seq![ContentItemView::OutputText { text }],
                end_turn: None,
                phase: None,
            },
        ),
    )
}

/// The finished reasoning with this text.
pub open spec fn finished_reasoning(text: Seq<char>) -> StreamOutputView {
    Ok(
        ResponseEventView::OutputItemDone(
            ResponseItemView::Reasoning {
                id: Seq::empty(),
                summary: Seq::empty(),
                content: Some(seq![ReasoningItemContentView::ReasoningText { text }]),
                encrypted_content: None,
            },
        ),
    )
}

/// Exactly one of the outputs is of the kind, and it is this one.
pub open spec fn only_one(
    outputs: Seq<StreamOutputView>,
    of_kind: spec_fn(StreamOutputView) -> bool,
    output: StreamOutputView,
) -> bool {
    exists|k: int|
        0 <= k < outputs.len() && #[trigger] outputs[k] == output && of_kind(outputs[k]) && forall|
            j: int,
        |
            0 <= j < outputs.len() && of_kind(#[trigger] outputs[j]) ==> j == k
}

/// None of the outputs is of the kind.
pub open spec fn not_one(
    outputs: Seq<StreamOutputView>,
    of_kind: spec_fn(StreamOutputView) -> bool,
) -> bool {
    forall|j: int| 0 <= j < outputs.len() ==> !of_kind(#[trigger] outputs[j])
}

proof fn lemma_one_behind(
    before: Seq<StreamOutputView>,
    outputs: Seq<StreamOutputView>,
    of_kind: spec_fn(StreamOutputView) -> bool,
    output: StreamOutputView,
)
    requires
        not_one(before, of_kind),
    ensures
        only_one(outputs, of_kind, output) ==> only_one(before + outputs, of_kind, output),
        not_one(outputs, of_kind) ==> not_one(before + outputs, of_kind),
{
    let whole = before + outputs;
    if only_one(outputs, of_kind, output) {
        let k = choose|k: int|
            0 <= k < outputs.len() && #[trigger] outputs[k] == output && of_kind(outputs[k])
                && forall|j: int|
                0 <= j < outputs.len() && of_kind(#[trigger] outputs[j]) ==> j == k;
        assert(whole[before.len() + k] == output);
        assert forall|j: int| 0 <= j < whole.len() && of_kind(#[trigger] whole[j]) implies j
            == before.len() + k by {
            if j < before.len() {
                assert(whole[j] == before[j]);
            } else {
                assert(whole[j] == outputs[j - before.len()]);
            }
        }
    }
    if not_one(outputs, of_kind) {
        assert forall|j: int| 0 <= j < whole.len() implies !of_kind(#[trigger] whole[j]) by {
            if j < before.len() {
                assert(whole[j] == before[j]);
            } else {
                assert(whole[j] == outputs[j - before.len()]);
            }
        }
    }
}

/// Only function calls come of tool calls.
proof fn lemma_only_function_calls(calls: ZaiToolCallsView, order: Seq<usize>)
    ensures
        not_one(
            zai_function_call_outputs(calls, order),
            |output: StreamOutputView| is_finished_message(output),
        ),
        not_one(
            zai_function_call_outputs(calls, order),
            |output: StreamOutputView| is_finished_reasoning(output),
        ),
    decreases order.len(),
{
    if order.len() > 0 {
        lemma_only_function_calls(calls, order.drop_last());
        let before = zai_function_call_outputs(calls, order.drop_last());
        let outputs = zai_function_call_outputs(calls, order);
        assert forall|j: int| 0 <= j < outputs.len() implies !is_finished_message(
            #[trigger] outputs[j],
        ) && !is_finished_reasoning(outputs[j]) by {
            if j < before.len() {
                assert(outputs[j] == before[j]);
                let kind = |output: StreamOutputView| is_finished_message(output);
                let other = |output: StreamOutputView| is_finished_reasoning(output);
                assert(!kind(before[j]));
                assert(!other(before[j]));
            }
        }
    }
}

proof fn lemma_closing_items(state: ZaiChatStateView)
    ensures
        ({
            let outputs = zai_closing_outputs(state);
            let message = |output: StreamOutputView| is_finished_message(output);
            let reasoning = |output: StreamOutputView| is_finished_reasoning(output);
            &&& state.assistant_text.len() > 0 ==> only_one(
                outputs,
                message,
                finished_message(state.assistant_text),
            )
            &&& state.assistant_text.len() == 0 ==> not_one(outputs, message)
            &&& state.reasoning_text.len() > 0 ==> only_one(
                outputs,
                reasoning,
                finished_reasoning(state.reasoning_text),
            )
            &&& state.reasoning_text.len() == 0 ==> not_one(outputs, reasoning)
        }),
{
    let outputs = zai_closing_outputs(state);
    let message = |output: StreamOutputView| is_finished_message(output);
    let reasoning = |output: StreamOutputView| is_finished_reasoning(output);
    let calls = zai_function_call_outputs(
        state.tool_calls,
        zai_tool_call_order(state.tool_calls),
    );
    lemma_only_function_calls(state.tool_calls, zai_tool_call_order(state.tool_calls));
    let first = gathered_reasoning(state.reasoning_text);
    let last = gathered_message(state.assistant_text);
    let n = first.len() + calls.len();
    assert forall|j: int| 0 <= j < outputs.len() && message(#[trigger] outputs[j]) implies j == n
        && last.len() > 0 by {
        if j < first.len() {
            assert(outputs[j] == first[j]);
        } else if j < n {
            assert(outputs[j] == calls[j - first.len()]);
            assert(!message(calls[j - first.len()]));
        }
    }
    assert forall|j: int| 0 <= j < outputs.len() && reasoning(#[trigger] outputs[j]) implies j == 0
        && first.len() > 0 by {
        if j < first.len() {
        } else if j < n {
            assert(outputs[j] == calls[j - first.len()]);
            assert(!reasoning(calls[j - first.len()]));
        } else if j < n + last.len() {
            assert(outputs[j] == last[j - n]);
        }
    }
    if last.len() > 0 {
        assert(outputs[n as int] == last[0]);
        assert(last[0] == finished_message(state.assistant_text));
        assert(message(outputs[n as int]));
    }
    if first.len() > 0 {
        assert(outputs[0] == first[0]);
        assert(first[0] == finished_reasoning(state.reasoning_text));
        assert(reasoning(outputs[0]));
    }
}

proof fn lemma_run_items(state: ZaiChatStateView, polls: Seq<ZaiPollView>)
    ensures
        ({
            let outputs = zai_run(state, polls).outputs;
            let after = after_payloads(state, payloads_read(polls));
            let message = |output: StreamOutputView| is_finished_message(output);
            let reasoning = |output: StreamOutputView| is_finished_reasoning(output);
            ends_completed(outputs) ==> {
                &&& after.assistant_text.len() > 0 ==> only_one(
                    outputs,
                    message,
                    finished_message(after.assistant_text),
                )
                &&& after.assistant_text.len() == 0 ==> not_one(outputs, message)
                &&& after.reasoning_text.len() > 0 ==> only_one(
                    outputs,
                    reasoning,
                    finished_reasoning(after.reasoning_text),
                )
                &&& after.reasoning_text.len() == 0 ==> not_one(outputs, reasoning)
            }
        }),
    decreases polls.len(),
{
    let message = |output: StreamOutputView| is_finished_message(output);
    let reasoning = |output: StreamOutputView| is_finished_reasoning(output);
    if polls.len() > 0 {
        let poll = polls.first();
        let first = zai_step(state, poll);
        let rest = polls.drop_first();
        let outputs = zai_run(state, polls).outputs;
        lemma_step_ending(state, poll);
        if first.finished {
            lemma_closing_items(state);
        } else {
            let later = zai_run(first.state, rest);
            let after = after_payloads(state, payloads_read(polls));
            lemma_run_items(first.state, rest);
            lemma_step_shape(state, poll);
            if let ZaiPollView::Event(data) = poll {
                if trimmed(data).len() > 0 {
                    if let Ok(payload) = json_parsed(trimmed(data)) {
                        lemma_after_first(state, payload, payloads_read(rest));
                    }
                }
            }
            assert(after == after_payloads(first.state, payloads_read(rest)));
            assert(outputs == first.outputs + later.outputs);
            assert forall|j: int| 0 <= j < first.outputs.len() implies !message(
                #[trigger] first.outputs[j],
            ) && !reasoning(first.outputs[j]) by {
                assert(!is_finished_item(first.outputs[j]));
            }
            lemma_one_behind(
                first.outputs,
                later.outputs,
                message,
                finished_message(after.assistant_text),
            );
            lemma_one_behind(
                first.outputs,
                later.outputs,
                reasoning,
                finished_reasoning(after.reasoning_text),
            );
            if ends_completed(outputs) {
                if later.outputs.len() > 0 {
                    assert(outputs.last() == later.outputs.last());
                } else {
                    assert(outputs.last() == first.outputs.last());
                }
                assert(ends_completed(later.outputs));
            }
        }
    }
}

/// A complete response hands over its answer once and whole: whatever reasoning
/// and tool calls came, there is exactly one finished message, of the assistant,
/// and its text is that of all deltas and messages in order. There is none where
/// that text is empty. The same holds of the reasoning.
pub proof fn law_zai_answers_and_reasoning_are_finished(polls: Seq<ZaiPollView>)
    ensures
        ({
            let outputs = zai_stream_outputs(polls);
            let choices = choices_of(payloads_read(polls));
            let answer = answer_in(choices);
            let thoughts = reasoning_in(choices);
            let message = |output: StreamOutputView| is_finished_message(output);
            let reasoning = |output: StreamOutputView| is_finished_reasoning(output);
            ends_completed(outputs) ==> {
                &&& answer.len() > 0 ==> only_one(outputs, message, finished_message(answer))
                &&& answer.len() == 0 ==> not_one(outputs, message)
                &&& thoughts.len() > 0 ==> only_one(
                    outputs,
                    reasoning,
                    finished_reasoning(thoughts),
                )
                &&& thoughts.len() == 0 ==> not_one(outputs, reasoning)
            }
        }),
{
    let message = |output: StreamOutputView| is_finished_message(output);
    let reasoning = |output: StreamOutputView| is_finished_reasoning(output);
    let payloads = payloads_read(polls);
    let run = zai_run(initial_zai_state(), polls).outputs;
    let outputs = zai_stream_outputs(polls);
    let created: Seq<StreamOutputView> = seq![Ok(ResponseEventView::Created)];
    law_zai_payloads_add_up(payloads);
    lemma_run_items(initial_zai_state(), polls);
    if ends_completed(outputs) {
        if run.len() > 0 {
            assert(outputs.last() == run.last());
        } else {
            assert(is_created(outputs.last()));
        }
        lemma_one_behind(
            created,
            run,
            message,
            finished_message(answer_in(choices_of(payloads))),
        );
        lemma_one_behind(
            created,
            run,
            reasoning,
            finished_reasoning(reasoning_in(choices_of(payloads))),
        );
    }
}

} // verus!
