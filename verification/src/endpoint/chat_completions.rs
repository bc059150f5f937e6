//! The request to a chat completions provider.

use serde_json::Value;
use vstd::prelude::*;
use vstd::string::*;

use crate::endpoint::responses::{
    has_text_format, Reasoning, ReasoningEffort, ResponsesApiRequest, ResponsesApiRequestView,
    TextControls,
};
use crate::gather::{gathered, lemma_gathered_next};
use crate::json::{array_at, object_with_text, str_at, value_clone, value_get, values_to_string};
use crate::json::{array_text, elements_at, json_of, json_seq, text_at, Json};
use crate::protocol::{
    ApiError, ApiErrorView, ContentItem, ContentItemView, FunctionCallOutputPayload, ResponseItem,
    ResponseItemView,
};
use crate::text::{is_blank, join, joined, lemma_trimmed_blank, same_text, trim};
use crate::tool_name::{encode_chat_tool_name, is_valid_chat_tool_name};
use crate::tool_name::{encoded_tool_name, valid_tool_name};

verus! {

/// A request in the words of a chat completions provider.
#[derive(Debug, PartialEq)]
pub struct ChatCompletionsRequest {
    pub model: String,
    pub messages: Vec<ChatMessage>,
    pub stream: bool,
    pub tool_stream: Option<bool>,
    pub tools: Vec<ChatTool>,
    pub tool_choice: Option<String>,
    pub thinking: Option<ChatThinking>,
    pub response_format: Option<ChatResponseFormat>,
}

/// What a `ChatCompletionsRequest` holds.
#[verifier::ext_equal]
pub struct ChatCompletionsRequestView {
    pub model: Seq<char>,
    pub messages: Seq<ChatMessageView>,
    pub stream: bool,
    pub tool_stream: Option<bool>,
    pub tools: Seq<ChatToolView>,
    pub tool_choice: Option<Seq<char>>,
    pub thinking: Option<ChatThinking>,
    pub response_format: Option<Seq<char>>,
}

impl DeepView for ChatCompletionsRequest {
    type V = ChatCompletionsRequestView;

    open spec fn deep_view(&self) -> ChatCompletionsRequestView {
        ChatCompletionsRequestView {
            model: self.model@,
            messages: self.messages.deep_view(),
            stream: self.stream,
            tool_stream: self.tool_stream,
            tools: self.tools.deep_view(),
            tool_choice: self.tool_choice.deep_view(),
            thinking: self.thinking,
            response_format: self.response_format.deep_view(),
        }
    }
}

/// Whether the model thinks before it answers.
#[derive(Debug, Clone, Copy, PartialEq, Eq, Structural)]
pub struct ChatThinking {
    pub kind: ChatThinkingType,
}

#[derive(Debug, Clone, Copy, PartialEq, Eq, Structural)]
pub enum ChatThinkingType {
    Enabled,
    Disabled,
}

/// The form that the answer is held to.
#[derive(Debug, PartialEq)]
pub struct ChatResponseFormat {
    pub kind: &'static str,
}

impl DeepView for ChatResponseFormat {
    type V = Seq<char>;

    open spec fn deep_view(&self) -> Seq<char> {
        self.kind@
    }
}

/// A message of the conversation.
#[derive(Debug, PartialEq)]
pub struct ChatMessage {
    pub role: String,
    pub content: Option<String>,
    pub tool_calls: Option<Vec<ChatToolCall>>,
    pub tool_call_id: Option<String>,
    pub name: Option<String>,
}

/// What a `ChatMessage` holds.
#[verifier::ext_equal]
pub struct ChatMessageView {
    pub role: Seq<char>,
    pub content: Option<Seq<char>>,
    pub tool_calls: Option<Seq<ChatToolCallView>>,
    pub tool_call_id: Option<Seq<char>>,
    pub name: Option<Seq<char>>,
}

impl DeepView for ChatMessage {
    type V = ChatMessageView;

    open spec fn deep_view(&self) -> ChatMessageView {
        ChatMessageView {
            role: self.role@,
            content: self.content.deep_view(),
            tool_calls: self.tool_calls.deep_view(),
            tool_call_id: self.tool_call_id.deep_view(),
            name: self.name.deep_view(),
        }
    }
}

/// A call that the model made.
#[derive(Debug, PartialEq)]
pub struct ChatToolCall {
    pub id: String,
    pub kind: &'static str,
    pub function: ChatToolCallFunction,
}

#[derive(Debug, PartialEq)]
pub struct ChatToolCallFunction {
    pub name: String,
    pub arguments: String,
}

/// What a `ChatToolCall` holds.
#[verifier::ext_equal]
pub struct ChatToolCallView {
    pub id: Seq<char>,
    pub kind: Seq<char>,
    pub name: Seq<char>,
    pub arguments: Seq<char>,
}

impl DeepView for ChatToolCall {
    type V = ChatToolCallView;

    open spec fn deep_view(&self) -> ChatToolCallView {
        ChatToolCallView {
            id: self.id@,
            kind: self.kind@,
            name: self.function.name@,
            arguments: self.function.arguments@,
        }
    }
}

/// A tool that the model may call.
#[derive(Debug, PartialEq)]
pub struct ChatTool {
    pub kind: &'static str,
    pub function: ChatToolFunction,
}

#[derive(Debug, PartialEq)]
pub struct ChatToolFunction {
    pub name: String,
    pub description: String,
    pub parameters: Value,
}

/// What a `ChatTool` holds.
#[verifier::ext_equal]
pub struct ChatToolView {
    pub kind: Seq<char>,
    pub name: Seq<char>,
    pub description: Seq<char>,
    pub parameters: Json,
}

impl DeepView for ChatTool {
    type V = ChatToolView;

    open spec fn deep_view(&self) -> ChatToolView {
        ChatToolView {
            kind: self.kind@,
            name: self.function.name@,
            description: self.function.description@,
            parameters: json_of(self.function.parameters),
        }
    }
}

/// The refusal of a picture.
pub open spec fn image_refused() -> ApiErrorView {
    ApiErrorView::InvalidRequest {
        message: "chat_completions providers do not support image input"@,
    }
}

/// The refusal of a form for the answer.
pub open spec fn format_refused() -> ApiErrorView {
    ApiErrorView::InvalidRequest {
        message: "chat_completions providers do not support JSON schema response formats"@,
    }
}

/// There is a picture among the pieces of a message.
pub open spec fn has_image(content: Seq<ContentItemView>) -> bool {
    exists|i: int| 0 <= i < content.len() && (#[trigger] content[i]) is InputImage
}

/// The text of a piece.
pub open spec fn content_text(item: ContentItemView) -> Seq<char> {
    match item {
        ContentItemView::InputText { text } => text,
        ContentItemView::OutputText { text } => text,
        ContentItemView::InputImage { .. } => Seq::empty(),
    }
}

/// The texts of the pieces, each on a line of its own.
pub open spec fn content_lines(content: Seq<ContentItemView>) -> Seq<char> {
    joined(content.map_values(|item: ContentItemView| content_text(item)), "\n"@)
}

/// The text of a message, or its refusal.
pub open spec fn message_text(content: Seq<ContentItemView>) -> Result<Seq<char>, ApiErrorView> {
    if has_image(content) {
        Err(image_refused())
    } else {
        Ok(content_lines(content))
    }
}

/// A message of the given role that is nothing but text.
pub open spec fn text_message(role: Seq<char>, text: Seq<char>) -> ChatMessageView {
    ChatMessageView {
        role,
        content: Some(text),
        tool_calls: None,
        tool_call_id: None,
        name: None,
    }
}

/// The message that answers a tool call.
pub open spec fn tool_message(
    call_id: Seq<char>,
    name: Option<Seq<char>>,
    content: Seq<char>,
) -> ChatMessageView {
    ChatMessageView {
        role: "tool"@,
        content: Some(content),
        tool_calls: None,
        tool_call_id: Some(call_id),
        name,
    }
}

/// `text`, or nothing.
pub open spec fn text_or_empty(text: Option<Seq<char>>) -> Seq<char> {
    match text {
        Some(text) => text,
        None => Seq::empty(),
    }
}

/// The message that an item of the conversation is sent as, if it is sent, or
/// its refusal.
pub open spec fn item_message(item: ResponseItemView) -> Result<
    Option<ChatMessageView>,
    ApiErrorView,
> {
    match item {
        ResponseItemView::Message { role, content, .. } => match message_text(content) {
            Ok(text) => Ok(Some(text_message(role, text))),
            Err(error) => Err(error),
        },
        ResponseItemView::FunctionCall { name, namespace, arguments, call_id, .. } => Ok(
            Some(
                ChatMessageView {
                    role: "assistant"@,
                    content: None,
                    tool_calls: Some(
                        seq![
                            ChatToolCallView {
                                id: call_id,
                                kind: "function"@,
                                name: encoded_tool_name(namespace, name),
                                arguments,
                            },
                        ],
                    ),
                    tool_call_id: None,
                    name: None,
                },
            ),
        ),
        ResponseItemView::FunctionCallOutput { call_id, output } => Ok(
            Some(tool_message(call_id, None, text_or_empty(output))),
        ),
        ResponseItemView::CustomToolCallOutput { call_id, name, output } => Ok(
            Some(tool_message(call_id, name, text_or_empty(output))),
        ),
        ResponseItemView::ToolSearchOutput { call_id: Some(call_id), tools } => Ok(
            Some(tool_message(call_id, Some("tool_search"@), text_or_empty(array_text(tools)))),
        ),
        _ => Ok(None),
    }
}

/// The messages of an item: one or none.
pub open spec fn item_messages(item: ResponseItemView) -> Seq<ChatMessageView> {
    match item_message(item) {
        Ok(Some(message)) => seq![message],
        _ => Seq::empty(),
    }
}

/// The message that the instructions are sent as, unless they are blank.
pub open spec fn system_messages(instructions: Seq<char>) -> Seq<ChatMessageView> {
    if is_blank(instructions) {
        Seq::empty()
    } else {
        seq![text_message("system"@, instructions)]
    }
}

/// The messages of the items, in order.
pub open spec fn input_messages(input: Seq<ResponseItemView>) -> Seq<ChatMessageView> {
    gathered(input, |item: ResponseItemView| item_messages(item))
}

/// An item of the input is refused.
pub open spec fn input_refused(input: Seq<ResponseItemView>) -> bool {
    exists|i: int| 0 <= i < input.len() && item_message(#[trigger] input[i]) is Err
}

/// The parameters of a tool that names none: any object.
pub open spec fn any_object() -> Json {
    Json::Object(Map::empty().insert("type"@, Json::Text("object"@)))
}

/// The tool that a function is offered as: none without a name that the
/// provider takes.
pub open spec fn function_tool(namespace: Option<Seq<char>>, tool: Json) -> Option<ChatToolView> {
    match text_at(tool, "name"@) {
        Some(name) => {
            let flat = encoded_tool_name(namespace, name);
            if valid_tool_name(flat) {
                Some(
                    ChatToolView {
                        kind: "function"@,
                        name: flat,
                        description: text_or_empty(text_at(tool, "description"@)),
                        parameters: match tool.member("parameters"@) {
                            Some(parameters) => parameters,
                            None => any_object(),
                        },
                    },
                )
            } else {
                None
            }
        },
        None => None,
    }
}

/// The tools of a function: one or none.
pub open spec fn function_tools(namespace: Option<Seq<char>>, tool: Json) -> Seq<ChatToolView> {
    match function_tool(namespace, tool) {
        Some(tool) => seq![tool],
        None => Seq::empty(),
    }
}

/// The tools of a child of a namespace: only functions count.
pub open spec fn child_tools(namespace: Option<Seq<char>>, child: Json) -> Seq<ChatToolView> {
    if text_at(child, "type"@) == Some("function"@) {
        function_tools(namespace, child)
    } else {
        Seq::empty()
    }
}

/// The tools of a namespace, in order.
pub open spec fn namespace_tools(tool: Json) -> Seq<ChatToolView> {
    match elements_at(tool, "tools"@) {
        Some(children) => gathered(
            children,
            |child: Json| child_tools(text_at(tool, "name"@), child),
        ),
        None => Seq::empty(),
    }
}

/// The tools that a single entry offers.
pub open spec fn entry_tools(tool: Json) -> Seq<ChatToolView> {
    if text_at(tool, "type"@) == Some("function"@) {
        function_tools(None, tool)
    } else if text_at(tool, "type"@) == Some("namespace"@) {
        namespace_tools(tool)
    } else {
        Seq::empty()
    }
}

/// The tools that several entries offer, in order.
pub open spec fn offered_tools(tools: Seq<Json>) -> Seq<ChatToolView> {
    gathered(tools, |tool: Json| entry_tools(tool))
}

/// Whether the model is to think, where anything is asked of its thinking.
pub open spec fn requested_thinking(reasoning: Option<Reasoning>) -> Option<ChatThinking> {
    match reasoning {
        Some(reasoning) => Some(
            ChatThinking {
                kind: if reasoning.effort == Some(ReasoningEffort::Off) {
                    ChatThinkingType::Disabled
                } else {
                    ChatThinkingType::Enabled
                },
            },
        ),
        None => None,
    }
}

/// The request in the words of the provider.
pub open spec fn chat_request(request: ResponsesApiRequestView) -> ChatCompletionsRequestView {
    let tools = offered_tools(request.tools);
    ChatCompletionsRequestView {
        model: request.model,
        messages: system_messages(request.instructions) + input_messages(request.input),
        stream: true,
        tool_stream: if tools.len() > 0 {
            Some(true)
        } else {
            None
        },
        tools,
        tool_choice: if tools.len() > 0 {
            Some("auto"@)
        } else {
            None
        },
        thinking: requested_thinking(request.reasoning),
        response_format: None,
    }
}

/// The request in the words of the provider, or its refusal: a picture in the
/// input is refused first, then a form for the answer.
pub open spec fn translated_request(request: ResponsesApiRequestView) -> Result<
    ChatCompletionsRequestView,
    ApiErrorView,
> {
    if input_refused(request.input) {
        Err(image_refused())
    } else if request.has_text_format {
        Err(format_refused())
    } else {
        Ok(chat_request(request))
    }
}

/// The form that the answer is held to: none, since the provider knows none.
pub fn chat_response_format(text: Option<TextControls>) -> (format: Result<
    Option<ChatResponseFormat>,
    ApiError,
>)
    ensures
        match format {
            Ok(format) => !has_text_format(text) && format is None,
            Err(error) => has_text_format(text) && error.deep_view() == format_refused(),
        },
{
    if let Some(text) = text {
        if text.format.is_some() {
            return Err(
                ApiError::InvalidRequest {
                    message: "chat_completions providers do not support JSON schema response formats".to_owned(),
                },
            );
        }
    }
    Ok(None)
}

/// The text of a message.
pub fn content_items_to_text(content: &[ContentItem]) -> (text: Result<String, ApiError>)
    ensures
        match text {
            Ok(text) => message_text(content.deep_view()) == Ok::<Seq<char>, ApiErrorView>(text@),
            Err(error) => message_text(content.deep_view()) == Err::<Seq<char>, ApiErrorView>(
                error.deep_view(),
            ),
        },
{
    let ghost all = content.deep_view();
    let mut lines: Vec<&str> = Vec::new();
    for i in 0..content.len()
        invariant
            all == content.deep_view(),
            lines.deep_view() == all.take(i as int).map_values(
                |item: ContentItemView| content_text(item),
            ),
            forall|j: int| 0 <= j < i ==> !((#[trigger] all[j]) is InputImage),
    {
        assert(all[i as int] == content@[i as int].deep_view());
        let ghost before = lines.deep_view();
        match &content[i] {
            ContentItem::InputText { text } => {
                lines.push(text.as_str());
            },
            ContentItem::OutputText { text } => {
                lines.push(text.as_str());
            },
            ContentItem::InputImage { .. } => {
                return Err(
                    ApiError::InvalidRequest {
                        message: "chat_completions providers do not support image input".to_owned(),
                    },
                );
            },
        }
        proof {
            assert(lines.deep_view() =~= before.push(content_text(all[i as int])));
            assert(lines.deep_view() =~= all.take(i + 1).map_values(
                |item: ContentItemView| content_text(item),
            ));
        }
    }
    assert(all.take(all.len() as int) =~= all);
    Ok(join(&lines, "\n"))
}

/// The text of a tool's answer, which is empty where it has none.
pub fn function_output_to_text(output: &FunctionCallOutputPayload) -> (text: String)
    ensures
        text@ == text_or_empty(output.deep_view()),
{
    match &output.text {
        Some(text) => text.clone(),
        None => String::new(),
    }
}

/// The message that answers a tool call.
pub fn tool_output_message(call_id: String, name: Option<String>, content: String) -> (message:
    ChatMessage)
    ensures
        message.deep_view() == tool_message(call_id@, name.deep_view(), content@),
{
    ChatMessage {
        role: "tool".to_owned(),
        content: Some(content),
        tool_calls: None,
        tool_call_id: Some(call_id),
        name,
    }
}

/// The message that an item of the conversation is sent as, if it is sent.
pub fn response_item_to_chat_message(item: ResponseItem) -> (message: Result<
    Option<ChatMessage>,
    ApiError,
>)
    ensures
        match message {
            Ok(message) => item_message(item.deep_view()) == Ok::<
                Option<ChatMessageView>,
                ApiErrorView,
            >(message.deep_view()),
            Err(error) => item_message(item.deep_view()) == Err::<
                Option<ChatMessageView>,
                ApiErrorView,
            >(error.deep_view()),
        },
{
    match item {
        ResponseItem::Message { role, content, .. } => match content_items_to_text(
            content.as_slice(),
        ) {
            Ok(text) => Ok(
                Some(
                    ChatMessage {
                        role,
                        content: Some(text),
                        tool_calls: None,
                        tool_call_id: None,
                        name: None,
                    },
                ),
            ),
            Err(error) => Err(error),
        },
        ResponseItem::FunctionCall { name, namespace, arguments, call_id, .. } => {
            let scope: Option<&str> = match &namespace {
                Some(namespace) => Some(namespace.as_str()),
                None => None,
            };
            let mut calls: Vec<ChatToolCall> = Vec::new();
            let flat: String = encode_chat_tool_name(scope, name.as_str());
            let call = ChatToolCall {
                id: call_id,
                kind: "function",
                function: ChatToolCallFunction { name: flat, arguments },
            };
            calls.push(call);
            assert(calls.deep_view() =~= seq![call.deep_view()]);
            Ok(
                Some(
                    ChatMessage {
                        role: "assistant".to_owned(),
                        content: None,
                        tool_calls: Some(calls),
                        tool_call_id: None,
                        name: None,
                    },
                ),
            )
        },
        ResponseItem::FunctionCallOutput { call_id, output } => Ok(
            Some(tool_output_message(call_id, None, function_output_to_text(&output))),
        ),
        ResponseItem::CustomToolCallOutput { call_id, name, output } => Ok(
            Some(tool_output_message(call_id, name, function_output_to_text(&output))),
        ),
        ResponseItem::ToolSearchOutput { call_id: Some(call_id), tools } => {
            let text: String = match values_to_string(&tools) {
                Some(text) => text,
                None => String::new(),
            };
            Ok(Some(tool_output_message(call_id, Some("tool_search".to_owned()), text)))
        },
        _ => Ok(None),
    }
}

/// The tool that a function is offered as.
pub fn response_function_tool_to_chat_tool(namespace: Option<&str>, tool: &Value) -> (chat_tool:
    Option<ChatTool>)
    ensures
        chat_tool.deep_view() == function_tool(namespace.deep_view(), json_of(*tool)),
{
    match str_at(tool, "name") {
        Some(name) => {
            let flat: String = encode_chat_tool_name(namespace, name);
            if !is_valid_chat_tool_name(flat.as_str()) {
                return None;
            }
            let description: String = match str_at(tool, "description") {
                Some(description) => description.to_owned(),
                None => String::new(),
            };
            let parameters: Value = match value_get(tool, "parameters") {
                Some(parameters) => value_clone(parameters),
                None => object_with_text("type", "object"),
            };
            Some(
                ChatTool {
                    kind: "function",
                    function: ChatToolFunction { name: flat, description, parameters },
                },
            )
        },
        None => None,
    }
}

/// Adds the tool of a function to the offer, if it makes one.
fn offer_function(namespace: Option<&str>, tool: &Value, offer: &mut Vec<ChatTool>)
    ensures
        final(offer).deep_view() == old(offer).deep_view() + function_tools(
            namespace.deep_view(),
            json_of(*tool),
        ),
{
    if let Some(chat_tool) = response_function_tool_to_chat_tool(namespace, tool) {
        offer.push(chat_tool);
    }
    assert(offer.deep_view() =~= old(offer).deep_view() + function_tools(
        namespace.deep_view(),
        json_of(*tool),
    ));
}

/// Adds the tools of a namespace to the offer.
fn offer_namespace(tool: &Value, offer: &mut Vec<ChatTool>)
    ensures
        final(offer).deep_view() == old(offer).deep_view() + namespace_tools(json_of(*tool)),
{
    let namespace: Option<&str> = str_at(tool, "name");
    let ghost part = |child: Json| child_tools(text_at(json_of(*tool), "name"@), child);
    if let Some(children) = array_at(tool, "tools") {
        let ghost all = json_seq(children@);
        assert(all.take(0) =~= Seq::empty());
        for i in 0..children.len()
            invariant
                all == json_seq(children@),
                namespace.deep_view() == text_at(json_of(*tool), "name"@),
                part == (|child: Json| child_tools(text_at(json_of(*tool), "name"@), child)),
                offer.deep_view() == old(offer).deep_view() + gathered(all.take(i as int), part),
        {
            let child: &Value = &children[i];
            let ghost before = offer.deep_view();
            let is_function: bool = match str_at(child, "type") {
                Some(kind) => same_text(kind, "function"),
                None => false,
            };
            if is_function {
                offer_function(namespace, child, offer);
            }
            proof {
                lemma_gathered_next(all, i as int, part);
                assert(offer.deep_view() =~= before + part(all[i as int]));
                assert(offer.deep_view() =~= old(offer).deep_view() + gathered(
                    all.take(i + 1),
                    part,
                ));
            }
        }
        assert(all.take(all.len() as int) =~= all);
    }
    assert(offer.deep_view() =~= old(offer).deep_view() + namespace_tools(json_of(*tool)));
}

/// The tools that the provider is offered.
pub fn chat_tools_from_responses_tools(tools: &[Value]) -> (chat_tools: Vec<ChatTool>)
    ensures
        chat_tools.deep_view() == offered_tools(json_seq(tools@)),
{
    let ghost all = json_seq(tools@);
    let ghost part = |tool: Json| entry_tools(tool);
    let mut offer: Vec<ChatTool> = Vec::new();
    assert(all.take(0) =~= Seq::empty());
    assert(offer.deep_view() =~= gathered(all.take(0), part));
    for i in 0..tools.len()
        invariant
            all == json_seq(tools@),
            part == (|tool: Json| entry_tools(tool)),
            offer.deep_view() == gathered(all.take(i as int), part),
    {
        let tool: &Value = &tools[i];
        let ghost before = offer.deep_view();
        if let Some(kind) = str_at(tool, "type") {
            if same_text(kind, "function") {
                offer_function(None, tool, &mut offer);
            } else if same_text(kind, "namespace") {
                offer_namespace(tool, &mut offer);
            }
        }
        proof {
            lemma_gathered_next(all, i as int, part);
            assert(offer.deep_view() =~= before + part(all[i as int]));
        }
    }
    assert(all.take(all.len() as int) =~= all);
    offer
}

/// The messages of a request.
fn request_messages(instructions: String, input: Vec<ResponseItem>) -> (messages: Result<
    Vec<ChatMessage>,
    ApiError,
>)
    ensures
        match messages {
            Ok(messages) => !input_refused(input.deep_view()) && messages.deep_view()
                == system_messages(instructions@) + input_messages(input.deep_view()),
            Err(error) => input_refused(input.deep_view()) && error.deep_view() == image_refused(),
        },
{
    let ghost all = input.deep_view();
    let ghost part = |item: ResponseItemView| item_messages(item);
    let ghost opening = system_messages(instructions@);
    let mut messages: Vec<ChatMessage> = Vec::new();
    proof {
        lemma_trimmed_blank(instructions@);
    }
    if !trim(instructions.as_str()).is_empty() {
        messages.push(
            ChatMessage {
                role: "system".to_owned(),
                content: Some(instructions),
                tool_calls: None,
                tool_call_id: None,
                name: None,
            },
        );
    }
    assert(messages.deep_view() =~= opening);
    assert(all.take(0) =~= Seq::empty());
    assert(messages.deep_view() =~= opening + gathered(all.take(0), part));
    for item in iter: input
        invariant
            all == input.deep_view(),
            iter.seq() == input@,
            part == (|item: ResponseItemView| item_messages(item)),
            messages.deep_view() == opening + gathered(all.take(iter.index()), part),
            forall|j: int| 0 <= j < iter.index() ==> item_message(#[trigger] all[j]) is Ok,
    {
        let ghost before = messages.deep_view();
        let ghost n = iter.index();
        assert(all[n] == item.deep_view());
        match response_item_to_chat_message(item) {
            Ok(Some(message)) => {
                messages.push(message);
                assert(messages.deep_view() =~= before + part(all[n]));
            },
            Ok(None) => {
                assert(messages.deep_view() =~= before + part(all[n]));
            },
            Err(error) => {
                return Err(error);
            },
        }
        proof {
            lemma_gathered_next(all, n, part);
            assert(messages.deep_view() =~= opening + gathered(all.take(n + 1), part));
        }
    }
    assert(all.take(all.len() as int) =~= all);
    Ok(messages)
}

/// The request in the words of a chat completions provider.
pub fn chat_completions_request_from_responses(request: ResponsesApiRequest) -> (translated: Result<
    ChatCompletionsRequest,
    ApiError,
>)
    ensures
        match translated {
            Ok(translated) => translated_request(request.deep_view()) == Ok::<
                ChatCompletionsRequestView,
                ApiErrorView,
            >(translated.deep_view()),
            Err(error) => translated_request(request.deep_view()) == Err::<
                ChatCompletionsRequestView,
                ApiErrorView,
            >(error.deep_view()),
        },
{
    let messages: Vec<ChatMessage> = match request_messages(request.instructions, request.input) {
        Ok(messages) => messages,
        Err(error) => {
            return Err(error);
        },
    };
    let tools: Vec<ChatTool> = chat_tools_from_responses_tools(request.tools.as_slice());
    let has_tools: bool = tools.len() > 0;
    let thinking: Option<ChatThinking> = match request.reasoning {
        Some(reasoning) => {
            let kind: ChatThinkingType = match reasoning.effort {
                Some(ReasoningEffort::Off) => ChatThinkingType::Disabled,
                _ => ChatThinkingType::Enabled,
            };
            Some(ChatThinking { kind })
        },
        None => None,
    };
    let response_format: Option<ChatResponseFormat> = match chat_response_format(request.text) {
        Ok(format) => format,
        Err(error) => {
            return Err(error);
        },
    };
    let tool_stream: Option<bool> = if has_tools {
        Some(true)
    } else {
        None
    };
    let tool_choice: Option<String> = if has_tools {
        Some("auto".to_owned())
    } else {
        None
    };
    Ok(
        ChatCompletionsRequest {
            model: request.model,
            messages,
            stream: true,
            tool_stream,
            tools,
            tool_choice,
            thinking,
            response_format,
        },
    )
}

} // verus!
