//! What the reader of a stream makes of its outputs.

use vstd::prelude::*;

use crate::gather::{gathered, lemma_gathered_concat, lemma_gathered_nothing, lemma_gathered_one};
use crate::protocol::ResponseEventView;
use crate::sse::outbox::StreamOutputView;

verus! {

/// An output behind which nothing more comes.
pub open spec fn is_terminal(output: StreamOutputView) -> bool {
    match output {
        Ok(ResponseEventView::Completed { .. }) => true,
        Ok(_) => false,
        Err(_) => true,
    }
}

/// The event that closes a complete response.
pub open spec fn is_completed(output: StreamOutputView) -> bool {
    output matches Ok(ResponseEventView::Completed { .. })
}

/// The event that opens a response.
pub open spec fn is_created(output: StreamOutputView) -> bool {
    output matches Ok(ResponseEventView::Created)
}

/// A finished item.
pub open spec fn is_finished_item(output: StreamOutputView) -> bool {
    output matches Ok(ResponseEventView::OutputItemDone(_))
}

/// No item among the outputs is finished.
pub open spec fn nothing_finished(outputs: Seq<StreamOutputView>) -> bool {
    forall|i: int| 0 <= i < outputs.len() ==> !is_finished_item(#[trigger] outputs[i])
}

/// The outputs end with the closing event of a complete response.
pub open spec fn ends_completed(outputs: Seq<StreamOutputView>) -> bool {
    outputs.len() > 0 && is_completed(outputs.last())
}

/// The outputs end with an error.
pub open spec fn ends_failed(outputs: Seq<StreamOutputView>) -> bool {
    outputs.len() > 0 && outputs.last() is Err
}

/// New reasoning.
pub open spec fn is_reasoning_delta(output: StreamOutputView) -> bool {
    output matches Ok(ResponseEventView::ReasoningContentDelta { .. })
}

/// New text of the answer.
pub open spec fn is_text_delta(output: StreamOutputView) -> bool {
    output matches Ok(ResponseEventView::OutputTextDelta(_))
}

/// New arguments of a tool call.
pub open spec fn is_arguments_delta(output: StreamOutputView) -> bool {
    output matches Ok(ResponseEventView::ToolCallInputDelta { .. })
}

/// The text of the answer in an output.
pub open spec fn output_text(output: StreamOutputView) -> Seq<char> {
    match output {
        Ok(ResponseEventView::OutputTextDelta(text)) => text,
        _ => Seq::empty(),
    }
}

/// The reasoning in an output.
pub open spec fn output_reasoning(output: StreamOutputView) -> Seq<char> {
    match output {
        Ok(ResponseEventView::ReasoningContentDelta { delta, .. }) => delta,
        _ => Seq::empty(),
    }
}

/// The tool call arguments in an output.
pub open spec fn output_arguments(output: StreamOutputView) -> Seq<char> {
    match output {
        Ok(ResponseEventView::ToolCallInputDelta { delta, .. }) => delta,
        _ => Seq::empty(),
    }
}

/// The text of the answer that was handed over.
pub open spec fn text_received(outputs: Seq<StreamOutputView>) -> Seq<char> {
    gathered(outputs, |output: StreamOutputView| output_text(output))
}

/// The reasoning that was handed over.
pub open spec fn reasoning_received(outputs: Seq<StreamOutputView>) -> Seq<char> {
    gathered(outputs, |output: StreamOutputView| output_reasoning(output))
}

/// The tool call arguments that were handed over.
pub open spec fn arguments_received(outputs: Seq<StreamOutputView>) -> Seq<char> {
    gathered(outputs, |output: StreamOutputView| output_arguments(output))
}

/// What comes of two parts of a stream together.
pub proof fn lemma_received_concat(left: Seq<StreamOutputView>, right: Seq<StreamOutputView>)
    ensures
        text_received(left + right) == text_received(left) + text_received(right),
        reasoning_received(left + right) == reasoning_received(left) + reasoning_received(right),
        arguments_received(left + right) == arguments_received(left) + arguments_received(right),
{
    lemma_gathered_concat(
        left,
        right,
        |output: StreamOutputView| output_text(output),
    );
    lemma_gathered_concat(
        left,
        right,
        |output: StreamOutputView| output_reasoning(output),
    );
    lemma_gathered_concat(
        left,
        right,
        |output: StreamOutputView| output_arguments(output),
    );
}

/// What comes of a single output.
pub proof fn lemma_received_one(output: StreamOutputView)
    ensures
        text_received(seq![output]) == output_text(output),
        reasoning_received(seq![output]) == output_reasoning(output),
        arguments_received(seq![output]) == output_arguments(output),
{
    lemma_gathered_one(output, |output: StreamOutputView| output_text(output));
    lemma_gathered_one(output, |output: StreamOutputView| output_reasoning(output));
    lemma_gathered_one(output, |output: StreamOutputView| output_arguments(output));
}

/// `whole` ends with `tail`.
pub open spec fn ends_with(whole: Seq<StreamOutputView>, tail: Seq<StreamOutputView>) -> bool {
    &&& tail.len() <= whole.len()
    &&& whole.skip(whole.len() - tail.len()) == tail
}

/// More in front leaves the end as it is.
pub proof fn lemma_ends_with(
    before: Seq<StreamOutputView>,
    whole: Seq<StreamOutputView>,
    tail: Seq<StreamOutputView>,
)
    requires
        ends_with(whole, tail),
    ensures
        ends_with(before + whole, tail),
{
    let longer = before + whole;
    assert(longer.skip(longer.len() - tail.len()) =~= whole.skip(whole.len() - tail.len()));
}

/// Outputs without text, reasoning and arguments.
pub proof fn lemma_received_nothing(outputs: Seq<StreamOutputView>)
    requires
        forall|i: int|
            0 <= i < outputs.len() ==> {
                let output = #[trigger] outputs[i];
                !is_text_delta(output) && !is_reasoning_delta(output) && !is_arguments_delta(output)
            },
    ensures
        text_received(outputs) == Seq::<char>::empty(),
        reasoning_received(outputs) == Seq::<char>::empty(),
        arguments_received(outputs) == Seq::<char>::empty(),
{
    lemma_gathered_nothing(outputs, |output: StreamOutputView| output_text(output));
    lemma_gathered_nothing(outputs, |output: StreamOutputView| output_reasoning(output));
    lemma_gathered_nothing(outputs, |output: StreamOutputView| output_arguments(output));
}

} // verus!
