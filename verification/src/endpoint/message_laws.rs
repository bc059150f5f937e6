//! What holds of the messages that a conversation is sent as.

use vstd::prelude::*;

use crate::endpoint::chat_completions::{
    content_text, format_refused, image_refused, input_messages, input_refused, item_message,
    item_messages, message_text, system_messages, translated_request, ChatCompletionsRequestView,
    ChatMessageView, ChatThinkingType, ChatToolCallView,
};
use crate::endpoint::responses::{
    has_text_format, Reasoning, ReasoningEffort, ResponsesApiRequestView, TextControls,
};
use crate::gather::{lemma_gathered_concat, lemma_gathered_one};
use crate::json::{array_text, Json};
use crate::protocol::{ApiErrorView, ContentItemView, ResponseItemView};
use crate::text_laws::{is_unicode_space, law_blank, law_joined_on_lines, on_lines};
use crate::tool_name_laws::law_flat_names;

verus! {

/// What an item of the conversation becomes.
pub type Sent = Result<Option<ChatMessageView>, ApiErrorView>;

/// A message that is nothing but a text.
pub open spec fn says(role: Seq<char>, text: Seq<char>) -> ChatMessageView {
    ChatMessageView {
        role,
        content: Some(text),
        tool_calls: None,
        tool_call_id: None,
        name: None,
    }
}

/// A message that answers a tool call.
pub open spec fn answers(
    call_id: Seq<char>,
    name: Option<Seq<char>>,
    text: Seq<char>,
) -> ChatMessageView {
    ChatMessageView {
        role: "tool"@,
        content: Some(text),
        tool_calls: None,
        tool_call_id: Some(call_id),
        name,
    }
}

/// Each piece is a text, put in or put out, and holds the text beside it.
pub open spec fn holds_texts(content: Seq<ContentItemView>, texts: Seq<Seq<char>>) -> bool {
    &&& content.len() == texts.len()
    &&& forall|i: int|
        0 <= i < content.len() ==> (#[trigger] content[i] == ContentItemView::InputText {
            text: texts[i],
        } || content[i] == ContentItemView::OutputText { text: texts[i] })
}

/// A message of texts, whoever wrote them, is sent under its role with all its
/// texts in order, one below the other. A single text is sent as it is.
pub proof fn law_texts_are_sent(
    id: Option<Seq<char>>,
    role: Seq<char>,
    content: Seq<ContentItemView>,
    end_turn: Option<bool>,
    phase: Option<Seq<char>>,
    texts: Seq<Seq<char>>,
)
    requires
        holds_texts(content, texts),
    ensures
        message_text(content) == Ok::<Seq<char>, ApiErrorView>(on_lines(texts)),
        item_message(ResponseItemView::Message { id, role, content, end_turn, phase }) == Ok::<
            Option<ChatMessageView>,
            ApiErrorView,
        >(Some(says(role, on_lines(texts)))),
        texts.len() == 1 ==> on_lines(texts) == texts[0],
{
    let lines = content.map_values(|item: ContentItemView| content_text(item));
    assert forall|i: int| 0 <= i < content.len() implies !((
    #[trigger] content[i]) is InputImage) by {}
    assert forall|i: int| 0 <= i < content.len() implies content_text(#[trigger] content[i])
        == texts[i] by {}
    assert(lines =~= texts);
    law_joined_on_lines(texts);
}

/// One more text goes on a line of its own below what is sent without it.
pub proof fn law_another_text_is_another_line(
    role: Seq<char>,
    content: Seq<ContentItemView>,
    texts: Seq<Seq<char>>,
    text: Seq<char>,
)
    requires
        holds_texts(content, texts),
        texts.len() > 0,
    ensures
        ({
            let more = content.push(ContentItemView::OutputText { text });
            let other = content.push(ContentItemView::InputText { text });
            &&& message_text(more) == message_text(other)
            &&& message_text(content) matches Ok(lines) && message_text(more) == Ok::<
                Seq<char>,
                ApiErrorView,
            >(lines + seq!['\n'] + text)
        }),
{
    let more = content.push(ContentItemView::OutputText { text });
    let other = content.push(ContentItemView::InputText { text });
    let all = texts.push(text);
    assert forall|i: int| 0 <= i < all.len() implies (#[trigger] more[i]
        == ContentItemView::InputText { text: all[i] } || more[i] == ContentItemView::OutputText {
        text: all[i],
    }) by {
        if i < content.len() {
            assert(more[i] == content[i]);
        }
    }
    assert forall|i: int| 0 <= i < all.len() implies (#[trigger] other[i]
        == ContentItemView::InputText { text: all[i] } || other[i] == ContentItemView::OutputText {
        text: all[i],
    }) by {
        if i < content.len() {
            assert(other[i] == content[i]);
        }
    }
    law_texts_are_sent(None, role, content, None, None, texts);
    law_texts_are_sent(None, role, more, None, None, all);
    law_texts_are_sent(None, role, other, None, None, all);
    lemma_last_line(texts, text);
}

proof fn lemma_last_line(texts: Seq<Seq<char>>, text: Seq<char>)
    requires
        texts.len() > 0,
    ensures
        on_lines(texts.push(text)) == on_lines(texts) + seq!['\n'] + text,
    decreases texts.len(),
{
    let all = texts.push(text);
    let rest = texts.drop_first();
    assert(all.drop_first() =~= rest.push(text));
    if texts.len() == 1 {
        assert(all.drop_first() =~= seq![text]);
        assert(on_lines(seq![text]) == text);
    } else {
        lemma_last_line(rest, text);
        assert(texts[0] + seq!['\n'] + (on_lines(rest) + seq!['\n'] + text) =~= (texts[0] + seq![
            '\n',
        ] + on_lines(rest)) + seq!['\n'] + text);
    }
}

/// A message with a picture anywhere in it is refused.
pub proof fn law_pictures_are_refused(
    id: Option<Seq<char>>,
    role: Seq<char>,
    content: Seq<ContentItemView>,
    end_turn: Option<bool>,
    phase: Option<Seq<char>>,
    i: int,
)
    requires
        0 <= i < content.len(),
        content[i] is InputImage,
    ensures
        item_message(ResponseItemView::Message { id, role, content, end_turn, phase }) == Err::<
            Option<ChatMessageView>,
            ApiErrorView,
        >(
            ApiErrorView::InvalidRequest {
                message: "chat_completions providers do not support image input"@,
            },
        ),
        message_text(content) == Err::<Seq<char>, ApiErrorView>(
            ApiErrorView::InvalidRequest {
                message: "chat_completions providers do not support image input"@,
            },
        ),
{
}

/// A function call is sent as a tool call of the assistant: under its call id,
/// under its own name or the one with the namespace before it, and with its
/// arguments unchanged.
pub proof fn law_function_calls_are_sent(
    id: Option<Seq<char>>,
    name: Seq<char>,
    namespace: Seq<char>,
    arguments: Seq<char>,
    call_id: Seq<char>,
)
    ensures
        ({
            let sent = |flat: Seq<char>|
                ChatMessageView {
                    role: "assistant"@,
                    content: None,
                    tool_calls: Some(
                        seq![
                            ChatToolCallView {
                                id: call_id,
                                kind: "function"@,
                                name: flat,
                                arguments,
                            },
                        ],
                    ),
                    tool_call_id: None,
                    name: None,
                };
            &&& item_message(
                ResponseItemView::FunctionCall { id, name, namespace: None, arguments, call_id },
            ) == Ok::<Option<ChatMessageView>, ApiErrorView>(Some(sent(name)))
            &&& item_message(
                ResponseItemView::FunctionCall {
                    id,
                    name,
                    namespace: Some(namespace),
                    arguments,
                    call_id,
                },
            ) == Ok::<Option<ChatMessageView>, ApiErrorView>(
                Some(sent(namespace + seq!['_', '_'] + name)),
            )
        }),
{
    law_flat_names(namespace, name);
}

/// What a tool answered is sent with the id of the call and with its text
/// unchanged, or with an empty text where it has none. Custom tools keep their
/// name, and tools that were found are sent as the JSON of them.
pub proof fn law_tool_answers_are_sent(
    call_id: Seq<char>,
    name: Option<Seq<char>>,
    text: Seq<char>,
    tools: Seq<Json>,
)
    ensures
        item_message(ResponseItemView::FunctionCallOutput { call_id, output: Some(text) }) == Ok::<
            Option<ChatMessageView>,
            ApiErrorView,
        >(Some(answers(call_id, None, text))),
        item_message(ResponseItemView::FunctionCallOutput { call_id, output: None }) == Ok::<
            Option<ChatMessageView>,
            ApiErrorView,
        >(Some(answers(call_id, None, Seq::empty()))),
        item_message(
            ResponseItemView::CustomToolCallOutput { call_id, name, output: Some(text) },
        ) == Ok::<Option<ChatMessageView>, ApiErrorView>(Some(answers(call_id, name, text))),
        item_message(ResponseItemView::CustomToolCallOutput { call_id, name, output: None })
            == Ok::<Option<ChatMessageView>, ApiErrorView>(
            Some(answers(call_id, name, Seq::empty())),
        ),
        array_text(tools) matches Some(written) ==> item_message(
            ResponseItemView::ToolSearchOutput { call_id: Some(call_id), tools },
        ) == Ok::<Option<ChatMessageView>, ApiErrorView>(
            Some(answers(call_id, Some("tool_search"@), written)),
        ),
        array_text(tools) is None ==> item_message(
            ResponseItemView::ToolSearchOutput { call_id: Some(call_id), tools },
        ) == Ok::<Option<ChatMessageView>, ApiErrorView>(
            Some(answers(call_id, Some("tool_search"@), Seq::empty())),
        ),
{
}

/// Items that no message says are passed over: the model's own reasoning, tools
/// that were found for no call, and whatever else a conversation holds.
pub proof fn law_other_items_are_passed_over(item: ResponseItemView)
    requires
        item is Reasoning || item is Other || (item matches ResponseItemView::ToolSearchOutput {
            call_id,
            ..
        } && call_id is None),
    ensures
        item_message(item) == Ok::<Option<ChatMessageView>, ApiErrorView>(None),
{
}

/// The request with another conversation.
pub open spec fn with_input(
    request: ResponsesApiRequestView,
    input: Seq<ResponseItemView>,
) -> ResponsesApiRequestView {
    ResponsesApiRequestView { input, ..request }
}

/// A request without a conversation sends its instructions, unchanged, as the
/// message of the system, and nothing where they are all white space.
pub proof fn law_instructions_are_sent(request: ResponsesApiRequestView)
    requires
        !request.has_text_format,
    ensures
        translated_request(with_input(request, Seq::empty())) matches Ok(sent) && sent.messages
            == if forall|i: int|
            0 <= i < request.instructions.len() ==> is_unicode_space(
                #[trigger] request.instructions[i],
            ) {
            Seq::<ChatMessageView>::empty()
        } else {
            seq![says("system"@, request.instructions)]
        },
{
    law_blank(request.instructions);
    let nothing = with_input(request, Seq::empty());
    assert(input_messages(nothing.input) =~= Seq::empty());
    assert(system_messages(request.instructions) + Seq::empty() =~= system_messages(
        request.instructions,
    ));
}

/// Each further item of a conversation adds its message behind those that are
/// sent without it, or nothing where it has none, and a refused item refuses
/// the request.
pub proof fn law_items_are_sent_in_turn(
    request: ResponsesApiRequestView,
    earlier: Seq<ResponseItemView>,
    item: ResponseItemView,
)
    requires
        translated_request(with_input(request, earlier)) is Ok,
    ensures
        ({
            let before = translated_request(with_input(request, earlier))->Ok_0;
            let after = translated_request(with_input(request, earlier.push(item)));
            match item_message(item) {
                Ok(Some(message)) => after == Ok::<ChatCompletionsRequestView, ApiErrorView>(
                    ChatCompletionsRequestView {
                        messages: before.messages.push(message),
                        ..before
                    },
                ),
                Ok(None) => after == Ok::<ChatCompletionsRequestView, ApiErrorView>(before),
                Err(error) => after == Err::<ChatCompletionsRequestView, ApiErrorView>(error),
            }
        }),
{
    let all = earlier.push(item);
    let part = |item: ResponseItemView| item_messages(item);
    assert(all =~= earlier + seq![item]);
    lemma_gathered_concat(earlier, seq![item], part);
    lemma_gathered_one(item, part);
    let opening = system_messages(request.instructions);
    assert(!input_refused(earlier));
    match item_message(item) {
        Err(error) => {
            assert(all[earlier.len() as int] == item);
            assert(input_refused(all));
            assert(error == image_refused());
        },
        Ok(sent) => {
            assert(!input_refused(all)) by {
                assert forall|i: int| 0 <= i < all.len() implies item_message(
                    #[trigger] all[i],
                ) is Ok by {
                    if i < earlier.len() {
                        assert(all[i] == earlier[i]);
                        assert(item_message(earlier[i]) is Ok);
                    }
                }
            }
            assert(opening + input_messages(all) =~= (opening + input_messages(earlier))
                + item_messages(item));
            if let Some(message) = sent {
                assert((opening + input_messages(earlier)) + seq![message] =~= (opening
                    + input_messages(earlier)).push(message));
            }
        },
    }
}

/// A request whose answer is held to a form is refused, unless a picture is
/// refused before it.
pub proof fn law_forms_are_refused(request: ResponsesApiRequestView)
    requires
        request.has_text_format,
        forall|i: int|
            0 <= i < request.input.len() ==> item_message(#[trigger] request.input[i]) is Ok,
    ensures
        translated_request(request) == Err::<ChatCompletionsRequestView, ApiErrorView>(
            ApiErrorView::InvalidRequest {
                message: "chat_completions providers do not support JSON schema response formats"@,
            },
        ),
        format_refused() == (ApiErrorView::InvalidRequest {
            message: "chat_completions providers do not support JSON schema response formats"@,
        }),
{
}

/// An answer is held to a form if and only if the request gives one, however it
/// is filled in.
pub proof fn law_given_forms(text: Option<TextControls>)
    ensures
        has_text_format(text) <==> text is Some && text->Some_0.format is Some,
{
}

/// What else is sent: the model as it is named, a stream, and thinking, which
/// is asked for wherever reasoning is and switched off by an effort of none
/// alone.
pub proof fn law_model_and_thinking(request: ResponsesApiRequestView)
    ensures
        translated_request(request) matches Ok(sent) ==> {
            &&& sent.model == request.model
            &&& sent.stream
            &&& sent.response_format is None
            &&& sent.thinking is Some <==> request.reasoning is Some
            &&& sent.thinking matches Some(thinking) ==> (thinking.kind
                == ChatThinkingType::Disabled <==> request.reasoning->Some_0.effort == Some(
                ReasoningEffort::Off,
            ))
        },
{
}

} // verus!
