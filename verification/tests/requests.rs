use codex_api::endpoint::chat_completions::{
    chat_completions_request_from_responses, chat_response_format, chat_tools_from_responses_tools,
    content_items_to_text, function_output_to_text, response_function_tool_to_chat_tool,
    response_item_to_chat_message, tool_output_message, ChatMessage, ChatThinking,
    ChatThinkingType, ChatTool, ChatToolCall, ChatToolCallFunction, ChatToolFunction,
};
use codex_api::endpoint::responses::{
    Reasoning, ReasoningEffort, ReasoningSummary, ResponsesApiRequest, TextControls, TextFormat,
    TextFormatType, Verbosity,
};
use codex_api::protocol::{
    ApiError, ContentItem, FunctionCallOutputPayload, ReasoningItemContent, ResponseItem,
};
use codex_api::sse::chat_completions::{tool_call_item, ToolCallAccumulator};
use serde_json::Value;

fn json(text: &str) -> Value {
    serde_json::from_str(text).unwrap()
}

fn user_message(texts: &[&str]) -> ResponseItem {
    ResponseItem::Message {
        id: None,
        role: "user".to_string(),
        content: texts
            .iter()
            .map(|text| ContentItem::InputText { text: text.to_string() })
            .collect(),
        end_turn: None,
        phase: None,
    }
}

fn picture() -> ContentItem {
    ContentItem::InputImage { image_url: "file://image.png".to_string(), detail: None }
}

fn picture_message() -> ResponseItem {
    ResponseItem::Message {
        id: None,
        role: "user".to_string(),
        content: vec![picture()],
        end_turn: None,
        phase: None,
    }
}

fn base_request() -> ResponsesApiRequest {
    ResponsesApiRequest {
        model: "glm-5.1".to_string(),
        instructions: "system".to_string(),
        input: vec![user_message(&["hello"])],
        tools: Vec::new(),
        tool_choice: "auto".to_string(),
        parallel_tool_calls: false,
        reasoning: None,
        store: false,
        stream: true,
        include_fields: Vec::new(),
        service_tier: None,
        prompt_cache_key: None,
        text: None,
        client_metadata: None,
    }
}

fn text_message(role: &str, text: &str) -> ChatMessage {
    ChatMessage {
        role: role.to_string(),
        content: Some(text.to_string()),
        tool_calls: None,
        tool_call_id: None,
        name: None,
    }
}

fn tool_message(call_id: &str, name: Option<&str>, text: &str) -> ChatMessage {
    ChatMessage {
        role: "tool".to_string(),
        content: Some(text.to_string()),
        tool_calls: None,
        tool_call_id: Some(call_id.to_string()),
        name: name.map(str::to_string),
    }
}

fn offered(name: &str, description: &str, parameters: &str) -> ChatTool {
    ChatTool {
        kind: "function",
        function: ChatToolFunction {
            name: name.to_string(),
            description: description.to_string(),
            parameters: json(parameters),
        },
    }
}

fn invalid(message: &str) -> ApiError {
    ApiError::InvalidRequest { message: message.to_string() }
}

fn image_refused() -> ApiError {
    invalid("chat_completions providers do not support image input")
}

fn format_refused() -> ApiError {
    invalid("chat_completions providers do not support JSON schema response formats")
}

fn schema_format() -> TextControls {
    TextControls {
        verbosity: None,
        format: Some(TextFormat {
            kind: TextFormatType::JsonSchema,
            strict: true,
            schema: json(r#"{"type": "object"}"#),
            name: "schema".to_string(),
        }),
    }
}

#[test]
fn translates_system_and_user_messages() {
    let request = chat_completions_request_from_responses(base_request()).unwrap();

    assert_eq!(request.model, "glm-5.1");
    assert_eq!(
        request.messages,
        vec![
            ChatMessage {
                role: "system".to_string(),
                content: Some("system".to_string()),
                tool_calls: None,
                tool_call_id: None,
                name: None,
            },
            ChatMessage {
                role: "user".to_string(),
                content: Some("hello".to_string()),
                tool_calls: None,
                tool_call_id: None,
                name: None,
            },
        ]
    );
}

#[test]
fn translates_tools_and_tool_outputs() {
    let mut request = base_request();
    request.tools = vec![json(
        r#"{
            "type": "function",
            "name": "shell_command",
            "description": "Run a command",
            "parameters": {"type": "object", "properties": {}}
        }"#,
    )];
    request.input.push(ResponseItem::FunctionCallOutput {
        call_id: "call-1".to_string(),
        output: FunctionCallOutputPayload::from_text("ok".to_string()),
    });

    let request = chat_completions_request_from_responses(request).unwrap();

    assert_eq!(
        request.tools,
        vec![ChatTool {
            kind: "function",
            function: ChatToolFunction {
                name: "shell_command".to_string(),
                description: "Run a command".to_string(),
                parameters: json(r#"{"type": "object", "properties": {}}"#),
            },
        }]
    );
    assert_eq!(
        request.messages.last(),
        Some(&ChatMessage {
            role: "tool".to_string(),
            content: Some("ok".to_string()),
            tool_calls: None,
            tool_call_id: Some("call-1".to_string()),
            name: None,
        })
    );
    assert_eq!(request.tool_stream, Some(true));
}

#[test]
fn translates_reasoning() {
    let mut request = base_request();
    request.reasoning = Some(Reasoning {
        effort: Some(ReasoningEffort::Off),
        summary: Some(ReasoningSummary::Auto),
    });

    let request = chat_completions_request_from_responses(request).unwrap();

    assert_eq!(request.thinking, Some(ChatThinking { kind: ChatThinkingType::Disabled }));
    assert_eq!(request.response_format, None);
}

#[test]
fn rejects_json_schema_response_format() {
    let mut request = base_request();
    request.text = Some(TextControls {
        verbosity: None,
        format: Some(TextFormat {
            kind: TextFormatType::JsonSchema,
            strict: true,
            schema: json(r#"{"type": "object"}"#),
            name: "schema".to_string(),
        }),
    });

    let err = chat_completions_request_from_responses(request).unwrap_err();

    assert!(matches!(err, ApiError::InvalidRequest { .. }));
}

#[test]
fn rejects_image_input() {
    let mut request = base_request();
    request.input = vec![ResponseItem::Message {
        id: None,
        role: "user".to_string(),
        content: vec![ContentItem::InputImage {
            image_url: "file://image.png".to_string(),
            detail: None,
        }],
        end_turn: None,
        phase: None,
    }];

    let err = chat_completions_request_from_responses(request).unwrap_err();

    assert!(matches!(err, ApiError::InvalidRequest { .. }));
}

#[test]
fn a_picture_is_refused_before_a_form() {
    let mut request = base_request();
    request.input = vec![user_message(&["hello"]), picture_message()];
    request.text = Some(schema_format());
    assert_eq!(chat_completions_request_from_responses(request).unwrap_err(), image_refused());

    let mut request = base_request();
    request.text = Some(schema_format());
    assert_eq!(chat_completions_request_from_responses(request).unwrap_err(), format_refused());
}

#[test]
fn other_text_controls_are_let_pass() {
    assert_eq!(chat_response_format(None), Ok(None));
    let controls = TextControls { verbosity: Some(Verbosity::High), format: None };
    assert_eq!(chat_response_format(Some(controls)), Ok(None));
    assert_eq!(chat_response_format(Some(schema_format())), Err(format_refused()));
}

#[test]
fn blank_instructions_are_not_sent() {
    for instructions in ["", " ", "\n\t ", "\u{2003}\u{a0}"] {
        let mut request = base_request();
        request.instructions = instructions.to_string();
        let request = chat_completions_request_from_responses(request).unwrap();
        assert_eq!(request.messages, vec![text_message("user", "hello")]);
    }
}

#[test]
fn instructions_are_sent_untrimmed() {
    let mut request = base_request();
    request.instructions = " be brief\n".to_string();
    request.input = Vec::new();
    let request = chat_completions_request_from_responses(request).unwrap();
    assert_eq!(request.messages, vec![text_message("system", " be brief\n")]);
}

#[test]
fn tools_are_streamed_if_and_only_if_there_are_any() {
    let request = chat_completions_request_from_responses(base_request()).unwrap();
    assert!(request.stream);
    assert_eq!(request.tools, Vec::new());
    assert_eq!(request.tool_stream, None);
    assert_eq!(request.tool_choice, None);

    let mut request = base_request();
    request.tool_choice = "required".to_string();
    request.tools = vec![json(r#"{"type": "function", "name": "f"}"#)];
    let request = chat_completions_request_from_responses(request).unwrap();
    assert!(request.stream);
    assert_eq!(request.tool_stream, Some(true));
    assert_eq!(request.tool_choice, Some("auto".to_string()));
}

#[test]
fn thinking_follows_the_effort() {
    for (effort, kind) in [
        (None, ChatThinkingType::Enabled),
        (Some(ReasoningEffort::Off), ChatThinkingType::Disabled),
        (Some(ReasoningEffort::Minimal), ChatThinkingType::Enabled),
        (Some(ReasoningEffort::Low), ChatThinkingType::Enabled),
        (Some(ReasoningEffort::Medium), ChatThinkingType::Enabled),
        (Some(ReasoningEffort::High), ChatThinkingType::Enabled),
        (Some(ReasoningEffort::XHigh), ChatThinkingType::Enabled),
    ] {
        let mut request = base_request();
        request.reasoning = Some(Reasoning { effort, summary: None });
        let request = chat_completions_request_from_responses(request).unwrap();
        assert_eq!(request.thinking, Some(ChatThinking { kind }));
    }
    let request = chat_completions_request_from_responses(base_request()).unwrap();
    assert_eq!(request.thinking, None);
}

#[test]
fn pieces_of_a_message_stand_on_lines_of_their_own() {
    let pieces = [
        ContentItem::InputText { text: "one".to_string() },
        ContentItem::OutputText { text: String::new() },
        ContentItem::InputText { text: "three\n".to_string() },
    ];
    assert_eq!(content_items_to_text(&pieces), Ok("one\n\nthree\n".to_string()));
    assert_eq!(content_items_to_text(&[]), Ok(String::new()));
    assert_eq!(content_items_to_text(&pieces[..1]), Ok("one".to_string()));
    let mixed = [ContentItem::InputText { text: "look".to_string() }, picture()];
    assert_eq!(content_items_to_text(&mixed), Err(image_refused()));
}

#[test]
fn function_calls_are_sent_under_their_flat_names() {
    let call = |namespace: Option<&str>| ResponseItem::FunctionCall {
        id: Some("item".to_string()),
        name: "lookup".to_string(),
        namespace: namespace.map(str::to_string),
        arguments: "{}".to_string(),
        call_id: "call-1".to_string(),
    };
    let sent = |name: &str| ChatMessage {
        role: "assistant".to_string(),
        content: None,
        tool_calls: Some(vec![ChatToolCall {
            id: "call-1".to_string(),
            kind: "function",
            function: ChatToolCallFunction {
                name: name.to_string(),
                arguments: "{}".to_string(),
            },
        }]),
        tool_call_id: None,
        name: None,
    };
    assert_eq!(response_item_to_chat_message(call(None)), Ok(Some(sent("lookup"))));
    assert_eq!(
        response_item_to_chat_message(call(Some("mcp__calendar"))),
        Ok(Some(sent("mcp__calendar__lookup")))
    );
}

#[test]
fn a_call_of_the_model_is_sent_back_as_it_was_made() {
    for name in ["mcp__calendar__lookup", "shell_command", "mcp__a__b__c", "x__y"] {
        let item = tool_call_item(&ToolCallAccumulator {
            id: Some("call-7".to_string()),
            name: Some(name.to_string()),
            arguments: "{\"q\":1}".to_string(),
        })
        .unwrap();
        let message = response_item_to_chat_message(item).unwrap().unwrap();
        assert_eq!(
            message.tool_calls,
            Some(vec![ChatToolCall {
                id: "call-7".to_string(),
                kind: "function",
                function: ChatToolCallFunction {
                    name: name.to_string(),
                    arguments: "{\"q\":1}".to_string(),
                },
            }])
        );
    }
}

#[test]
fn tool_outputs_answer_their_calls() {
    assert_eq!(
        tool_output_message("call-1".to_string(), Some("t".to_string()), "ok".to_string()),
        tool_message("call-1", Some("t"), "ok")
    );
    assert_eq!(
        response_item_to_chat_message(ResponseItem::CustomToolCallOutput {
            call_id: "call-2".to_string(),
            name: Some("patch".to_string()),
            output: FunctionCallOutputPayload::from_text("done".to_string()),
        }),
        Ok(Some(tool_message("call-2", Some("patch"), "done")))
    );
    assert_eq!(
        response_item_to_chat_message(ResponseItem::FunctionCallOutput {
            call_id: "call-3".to_string(),
            output: FunctionCallOutputPayload { text: None },
        }),
        Ok(Some(tool_message("call-3", None, "")))
    );
    assert_eq!(function_output_to_text(&FunctionCallOutputPayload { text: None }), "");
}

#[test]
fn tools_that_were_found_are_sent_as_json() {
    let found = |call_id: Option<&str>, tools: Vec<Value>| ResponseItem::ToolSearchOutput {
        call_id: call_id.map(str::to_string),
        tools,
    };
    assert_eq!(
        response_item_to_chat_message(found(
            Some("call-4"),
            vec![json(r#"{"name": "b", "kind": [1, -2, 0.5, null, true]}"#), json("\"x\\n\"")],
        )),
        Ok(Some(tool_message(
            "call-4",
            Some("tool_search"),
            "[{\"kind\":[1,-2,0.5,null,true],\"name\":\"b\"},\"x\\n\"]",
        )))
    );
    assert_eq!(
        response_item_to_chat_message(found(Some("call-5"), Vec::new())),
        Ok(Some(tool_message("call-5", Some("tool_search"), "[]")))
    );
    assert_eq!(response_item_to_chat_message(found(None, Vec::new())), Ok(None));
}

#[test]
fn other_items_are_not_sent() {
    assert_eq!(response_item_to_chat_message(ResponseItem::Other), Ok(None));
    assert_eq!(
        response_item_to_chat_message(ResponseItem::Reasoning {
            id: "r".to_string(),
            summary: Vec::new(),
            content: Some(vec![ReasoningItemContent::Text { text: "hm".to_string() }]),
            encrypted_content: None,
        }),
        Ok(None)
    );
    assert_eq!(response_item_to_chat_message(picture_message()), Err(image_refused()));
}

#[test]
fn messages_keep_the_order_of_the_items() {
    let mut request = base_request();
    request.input = vec![
        user_message(&["one"]),
        ResponseItem::Other,
        user_message(&["two", "three"]),
        ResponseItem::FunctionCallOutput {
            call_id: "c".to_string(),
            output: FunctionCallOutputPayload::from_text("four".to_string()),
        },
    ];
    let request = chat_completions_request_from_responses(request).unwrap();
    assert_eq!(
        request.messages,
        vec![
            text_message("system", "system"),
            text_message("user", "one"),
            text_message("user", "two\nthree"),
            tool_message("c", None, "four"),
        ]
    );
}

#[test]
fn a_function_is_offered_with_what_it_says() {
    assert_eq!(
        response_function_tool_to_chat_tool(None, &json(r#"{"name": "f"}"#)),
        Some(offered("f", "", r#"{"type": "object"}"#))
    );
    assert_eq!(
        response_function_tool_to_chat_tool(
            Some("mcp__s"),
            &json(r#"{"name": "f", "description": "does", "parameters": [1]}"#)
        ),
        Some(offered("mcp__s__f", "does", "[1]"))
    );
    assert_eq!(
        response_function_tool_to_chat_tool(
            None,
            &json(r#"{"name": "f", "description": 3, "parameters": null}"#)
        ),
        Some(offered("f", "", "null"))
    );
    for tool in ["{}", r#"{"name": 7}"#, r#"{"name": "a b"}"#, r#"{"name": ""}"#, "[]", "null"] {
        assert_eq!(response_function_tool_to_chat_tool(None, &json(tool)), None);
    }
}

#[test]
fn namespaces_offer_their_functions() {
    let tools = [
        json(r#"{"type": "function", "name": "first"}"#),
        json(
            r#"{"type": "namespace", "name": "mcp__s", "tools": [
                {"type": "function", "name": "a"},
                {"type": "custom", "name": "b"},
                {"name": "c"},
                {"type": "function", "name": "not valid"},
                {"type": "function", "name": "d"}
            ]}"#,
        ),
        json(r#"{"type": "namespace", "tools": [{"type": "function", "name": "bare"}]}"#),
        json(r#"{"type": "namespace", "name": "empty"}"#),
        json(r#"{"type": "namespace", "name": "odd", "tools": 5}"#),
        json(r#"{"type": "web_search", "name": "w"}"#),
        json(r#"{"name": "typeless"}"#),
        json("17"),
        json(r#"{"type": "function", "name": "last"}"#),
    ];
    let names: Vec<String> = chat_tools_from_responses_tools(&tools)
        .into_iter()
        .map(|tool| tool.function.name)
        .collect();
    assert_eq!(names, vec!["first", "mcp__s__a", "mcp__s__d", "bare", "last"]);
}

#[test]
fn fields_that_the_provider_does_not_know_change_nothing() {
    let mut request = base_request();
    request.tool_choice = "none".to_string();
    request.parallel_tool_calls = true;
    request.store = true;
    request.stream = false;
    request.include_fields = vec!["reasoning.encrypted_content".to_string()];
    request.service_tier = Some("priority".to_string());
    request.prompt_cache_key = Some("key".to_string());
    request.client_metadata = Some(vec![("k".to_string(), "v".to_string())]);
    assert_eq!(
        chat_completions_request_from_responses(request),
        chat_completions_request_from_responses(base_request())
    );
}
