//! What holds of every request to a chat completions provider.

use vstd::prelude::*;

use crate::endpoint::chat_completions::{
    child_tools, entry_tools, format_refused, function_tool, has_image, image_refused,
    input_messages, input_refused, item_message, item_messages, namespace_tools, offered_tools,
    translated_request,
};
use crate::endpoint::chat_completions::{ChatMessageView, ChatToolCallView, ChatToolView};
use crate::endpoint::responses::ResponsesApiRequestView;
use crate::endpoint::stream_request::{option_headers, ChatCompletionsOptionsView};
use crate::gather::{gathered, lemma_gathered_concat};
use crate::json::{elements_at, text_at, Json};
use crate::protocol::{ApiErrorView, ResponseItemView};
use crate::sse::chat_completions::{finished_tool_call, ToolCallAccumulatorView};
use crate::text::{has_prefix, occurs_at};
use crate::tool_name::{
    decoded_tool_name, law_decode_then_encode, law_encode_then_decode, valid_tool_name,
};

verus! {

/// A message with a picture.
pub open spec fn is_picture_message(item: ResponseItemView) -> bool {
    item matches ResponseItemView::Message { content, .. } && has_image(content)
}

/// A request is refused if and only if a message of it holds a picture or its
/// answer is held to a form.
pub proof fn law_refused_requests(request: ResponsesApiRequestView)
    ensures
        input_refused(request.input) <==> exists|i: int|
            0 <= i < request.input.len() && is_picture_message(#[trigger] request.input[i]),
        translated_request(request) is Ok <==> !input_refused(request.input)
            && !request.has_text_format,
        translated_request(request) matches Err(error) ==> error == if input_refused(
            request.input,
        ) {
            image_refused()
        } else {
            format_refused()
        },
{
    if input_refused(request.input) {
        let i = choose|i: int|
            0 <= i < request.input.len() && item_message(#[trigger] request.input[i]) is Err;
        assert(is_picture_message(request.input[i]));
    }
    if exists|i: int|
        0 <= i < request.input.len() && is_picture_message(#[trigger] request.input[i]) {
        let i = choose|i: int|
            0 <= i < request.input.len() && is_picture_message(#[trigger] request.input[i]);
        assert(item_message(request.input[i]) is Err);
    }
}

/// The conversation is sent in order: what is said later comes behind what is
/// said earlier, and does not change it.
pub proof fn law_messages_keep_their_order(
    earlier: Seq<ResponseItemView>,
    later: Seq<ResponseItemView>,
)
    ensures
        input_messages(earlier + later) == input_messages(earlier) + input_messages(later),
{
    lemma_gathered_concat(earlier, later, |item: ResponseItemView| item_messages(item));
}

/// Tools are offered in order.
pub proof fn law_tools_keep_their_order(earlier: Seq<Json>, later: Seq<Json>)
    ensures
        offered_tools(earlier + later) == offered_tools(earlier) + offered_tools(later),
{
    lemma_gathered_concat(earlier, later, |tool: Json| entry_tools(tool));
}

/// A tool that the provider takes.
pub open spec fn is_valid_tool(tool: ChatToolView) -> bool {
    tool.kind == "function"@ && valid_tool_name(tool.name)
}

proof fn lemma_gathered_valid(items: Seq<Json>, part: spec_fn(Json) -> Seq<ChatToolView>)
    requires
        forall|item: Json, i: int|
            0 <= i < part(item).len() ==> is_valid_tool(#[trigger] part(item)[i]),
    ensures
        forall|i: int|
            0 <= i < gathered(items, part).len() ==> is_valid_tool(
                #[trigger] gathered(items, part)[i],
            ),
    decreases items.len(),
{
    if items.len() > 0 {
        lemma_gathered_valid(items.drop_last(), part);
        let before = gathered(items.drop_last(), part);
        let all = gathered(items, part);
        assert forall|i: int| 0 <= i < all.len() implies is_valid_tool(#[trigger] all[i]) by {
            if i < before.len() {
                assert(all[i] == before[i]);
            } else {
                assert(all[i] == part(items.last())[i - before.len()]);
            }
        }
    }
}

/// Whatever tools a request names, the provider is offered functions only, and
/// only under names that it takes.
pub proof fn law_offered_tools_are_valid(tools: Seq<Json>)
    ensures
        forall|i: int|
            0 <= i < offered_tools(tools).len() ==> is_valid_tool(
                #[trigger] offered_tools(tools)[i],
            ),
{
    let part = |tool: Json| entry_tools(tool);
    assert forall|tool: Json, i: int| 0 <= i < part(tool).len() implies is_valid_tool(
        #[trigger] part(tool)[i],
    ) by {
        if text_at(tool, "type"@) == Some("namespace"@) {
            if let Some(children) = elements_at(tool, "tools"@) {
                let child_part = |child: Json| child_tools(text_at(tool, "name"@), child);
                lemma_gathered_valid(children, child_part);
                assert(namespace_tools(tool) == gathered(children, child_part));
            }
        }
    }
    lemma_gathered_valid(tools, part);
}

/// Tools are streamed and chosen freely if and only if there are any, and the
/// answer is always streamed.
pub proof fn law_tool_fields_go_together(request: ResponsesApiRequestView)
    ensures
        translated_request(request) matches Ok(sent) ==> {
            &&& sent.stream
            &&& sent.tools.len() > 0 ==> sent.tool_stream == Some(true) && sent.tool_choice == Some(
                "auto"@,
            )
            &&& sent.tools.len() == 0 ==> sent.tool_stream is None && sent.tool_choice is None
        },
{
}

/// A tool call of the model is sent back as it was made: under its id, under
/// the flat name that the model used, with its arguments.
pub proof fn law_tool_calls_are_replayed(call: ToolCallAccumulatorView)
    requires
        call.id is Some,
        call.name is Some,
    ensures
        finished_tool_call(call) matches Some(item) && item_message(item) == Ok::<
            Option<ChatMessageView>,
            ApiErrorView,
        >(
            Some(
                ChatMessageView {
                    role: "assistant"@,
                    content: None,
                    tool_calls: Some(
                        seq![
                            ChatToolCallView {
                                id: call.id->Some_0,
                                kind: "function"@,
                                name: call.name->Some_0,
                                arguments: call.arguments,
                            },
                        ],
                    ),
                    tool_call_id: None,
                    name: None,
                },
            ),
        ),
{
    law_decode_then_encode(call.name->Some_0);
}

/// A tool of an MCP namespace that the provider is offered is known again when
/// the model calls it, where the tool's own name holds no two underscores in a
/// row and does not begin with one.
pub proof fn law_offered_tools_are_recognised(namespace: Seq<char>, tool: Json)
    requires
        function_tool(Some(namespace), tool) is Some,
        has_prefix(namespace, "mcp__"@),
        text_at(tool, "name"@) matches Some(name) && name.len() > 0 && name[0] != '_' && forall|
            at: int,
        | !occurs_at(name, "__"@, at),
    ensures
        decoded_tool_name(function_tool(Some(namespace), tool)->Some_0.name) == (
            Some(namespace),
            text_at(tool, "name"@)->Some_0,
        ),
{
    law_encode_then_decode(namespace, text_at(tool, "name"@)->Some_0);
}

/// A header of the caller's own stays as it is unless the call or the
/// conversation sets one of the same name, and a header of the conversation
/// stays as it is unless it is the one that names the subagent.
pub proof fn law_headers_give_way(options: ChatCompletionsOptionsView, name: Seq<char>)
    requires
        name != "x-openai-subagent"@,
    ensures
        options.conversation_headers.contains_key(name) ==> option_headers(options).contains_key(
            name,
        ) && option_headers(options)[name] == options.conversation_headers[name],
        !options.conversation_headers.contains_key(name) && name != "x-client-request-id"@ ==> {
            &&& option_headers(options).contains_key(name) <==> options.extra_headers.contains_key(
                name,
            )
            &&& options.extra_headers.contains_key(name) ==> option_headers(options)[name]
                == options.extra_headers[name]
        },
{
}

} // verus!
