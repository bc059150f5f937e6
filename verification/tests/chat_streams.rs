use codex_api::endpoint::chat_completions::response_item_to_chat_message;
use codex_api::protocol::{
    ApiError, ContentItem, FunctionCallOutputPayload, ReasoningItemContent, ResponseEvent,
    ResponseItem, TokenUsage,
};
use codex_api::sse::chat_completions::{
    process_chat_completions_sse, tool_call_item, ChatCompletionsState, ChatPoll,
    ToolCallAccumulator,
};
use codex_api::sse::chunk::{
    ChatCompletionChoice, ChatCompletionChunk, ChatCompletionDelta, ChatCompletionTokensDetails,
    ChatFunctionDelta, ChatPromptTokensDetails, ChatToolCallDelta, ChatUsage,
};
use codex_api::sse::outbox::{Outbox, StreamOutput};
use serde_json::Value;

fn text_at(value: &Value, key: &str) -> Option<String> {
    value.get(key).and_then(Value::as_str).map(str::to_string)
}

fn number_at(value: &Value, key: &str) -> Option<i64> {
    value.get(key).and_then(Value::as_i64)
}

fn read_tool_call(value: &Value) -> ChatToolCallDelta {
    ChatToolCallDelta {
        index: number_at(value, "index").unwrap(),
        id: text_at(value, "id"),
        function: value.get("function").map(|function| ChatFunctionDelta {
            name: text_at(function, "name"),
            arguments: text_at(function, "arguments"),
        }),
    }
}

fn read_choice(value: &Value) -> ChatCompletionChoice {
    let delta = &value["delta"];
    ChatCompletionChoice {
        index: number_at(value, "index").unwrap(),
        delta: ChatCompletionDelta {
            content: text_at(delta, "content"),
            reasoning_content: text_at(delta, "reasoning_content"),
            tool_calls: delta
                .get("tool_calls")
                .map(|calls| calls.as_array().unwrap().iter().map(read_tool_call).collect()),
        },
        finish_reason: text_at(value, "finish_reason"),
    }
}

fn read_usage(value: &Value) -> ChatUsage {
    ChatUsage {
        prompt_tokens: number_at(value, "prompt_tokens").unwrap(),
        completion_tokens: number_at(value, "completion_tokens").unwrap(),
        total_tokens: number_at(value, "total_tokens").unwrap(),
        completion_tokens_details: value.get("completion_tokens_details").map(|details| {
            ChatCompletionTokensDetails { reasoning_tokens: number_at(details, "reasoning_tokens") }
        }),
        prompt_tokens_details: value.get("prompt_tokens_details").map(|details| {
            ChatPromptTokensDetails { cached_tokens: number_at(details, "cached_tokens") }
        }),
    }
}

fn read_chunk(line: &str) -> Result<ChatCompletionChunk, String> {
    let value: Value = serde_json::from_str(line).map_err(|error| error.to_string())?;
    Ok(ChatCompletionChunk {
        id: text_at(&value, "id"),
        choices: value["choices"].as_array().unwrap().iter().map(read_choice).collect(),
        usage: value.get("usage").map(read_usage),
    })
}

fn event(line: &str) -> ChatPoll {
    ChatPoll::Event { data: line.to_string(), chunk: read_chunk(line) }
}

fn collect_events(lines: Vec<String>) -> Vec<StreamOutput> {
    let mut polls: Vec<ChatPoll> = lines.iter().map(|line| event(line)).collect();
    polls.push(ChatPoll::Closed);
    process_chat_completions_sse(polls)
}

fn collect(lines: &[&str]) -> Vec<StreamOutput> {
    collect_events(lines.iter().map(|line| line.to_string()).collect())
}

fn stream_error(message: &str) -> StreamOutput {
    Err(ApiError::Stream(message.to_string()))
}

fn completed(id: &str, token_usage: Option<TokenUsage>) -> StreamOutput {
    Ok(ResponseEvent::Completed { response_id: id.to_string(), token_usage })
}

fn arguments(item_id: &str, call_id: Option<&str>, delta: &str) -> StreamOutput {
    Ok(ResponseEvent::ToolCallInputDelta {
        item_id: item_id.to_string(),
        call_id: call_id.map(str::to_string),
        delta: delta.to_string(),
    })
}

fn function_call(id: &str, namespace: Option<&str>, name: &str, arguments: &str) -> ResponseItem {
    ResponseItem::FunctionCall {
        id: Some(id.to_string()),
        name: name.to_string(),
        namespace: namespace.map(str::to_string),
        arguments: arguments.to_string(),
        call_id: id.to_string(),
    }
}

fn text_delta(text: &str) -> StreamOutput {
    Ok(ResponseEvent::OutputTextDelta(text.to_string()))
}

fn message_added(id: &str) -> StreamOutput {
    Ok(ResponseEvent::OutputItemAdded(ResponseItem::Message {
        id: Some(id.to_string()),
        role: "assistant".to_string(),
        content: vec![ContentItem::OutputText { text: String::new() }],
        end_turn: None,
        phase: None,
    }))
}

fn reasoning_added(id: &str) -> StreamOutput {
    Ok(ResponseEvent::OutputItemAdded(ResponseItem::Reasoning {
        id: id.to_string(),
        summary: Vec::new(),
        content: Some(vec![ReasoningItemContent::ReasoningText { text: String::new() }]),
        encrypted_content: None,
    }))
}

fn reasoning_delta(text: &str, content_index: i64) -> StreamOutput {
    Ok(ResponseEvent::ReasoningContentDelta { delta: text.to_string(), content_index })
}

#[test]
fn parses_text_reasoning_tool_calls_and_usage() {
    let events = collect_events(vec![
        r#"{
            "id": "chatcmpl-1",
            "choices": [{
                "index": 0,
                "delta": {
                    "reasoning_content": "think",
                    "content": "hello",
                    "tool_calls": [{
                        "index": 0,
                        "id": "call-1",
                        "function": {"name": "shell_command", "arguments": "{\"cmd\""}
                    }]
                }
            }]
        }"#
        .to_string(),
        r#"{
            "id": "chatcmpl-1",
            "choices": [{
                "index": 0,
                "delta": {
                    "tool_calls": [{
                        "index": 0,
                        "function": {"arguments": ":\"ls\"}"}
                    }]
                },
                "finish_reason": "tool_calls"
            }],
            "usage": {
                "prompt_tokens": 10,
                "completion_tokens": 4,
                "total_tokens": 14,
                "completion_tokens_details": {"reasoning_tokens": 2},
                "prompt_tokens_details": {"cached_tokens": 3}
            }
        }"#
        .to_string(),
    ]);

    assert!(matches!(events[0], Ok(ResponseEvent::Created)));
    assert!(matches!(
        &events[2],
        Ok(ResponseEvent::ReasoningContentDelta { delta, .. }) if delta == "think"
    ));
    assert!(matches!(
        &events[4],
        Ok(ResponseEvent::OutputTextDelta(delta)) if delta == "hello"
    ));
    assert!(matches!(
        &events[7],
        Ok(ResponseEvent::OutputItemDone(ResponseItem::FunctionCall {
            name,
            arguments,
            call_id,
            ..
        })) if name == "shell_command" && arguments == "{\"cmd\":\"ls\"}" && call_id == "call-1"
    ));
    assert!(matches!(
        &events[8],
        Ok(ResponseEvent::Completed {
            response_id,
            token_usage: Some(TokenUsage {
                input_tokens: 10,
                cached_input_tokens: 3,
                output_tokens: 4,
                reasoning_output_tokens: 2,
                total_tokens: 14,
            }),
        }) if response_id == "chatcmpl-1"
    ));
}

#[test]
fn malformed_chunk_returns_stream_error() {
    let events = collect_events(vec!["not-json".to_string()]);

    assert!(matches!(events[0], Err(ApiError::Stream(_))));
}

#[test]
fn every_output_of_a_response_comes_in_order() {
    let events = collect(&[
        r#"{"id": "a", "choices": [{"index": 2, "delta": {
            "reasoning_content": "think", "content": "hello",
            "tool_calls": [{"index": 0, "id": "c", "function": {"name": "f", "arguments": "1"}}]
        }}]}"#,
        r#"{"id": "b", "choices": [{"index": -3, "delta": {
            "content": " you", "reasoning_content": ""
        }, "finish_reason": "stop"}]}"#,
    ]);
    assert_eq!(
        events,
        vec![
            Ok(ResponseEvent::Created),
            reasoning_added("chatcmpl-reasoning-2"),
            reasoning_delta("think", 2),
            message_added("chatcmpl-message-2"),
            text_delta("hello"),
            arguments("c", Some("c"), "1"),
            reasoning_delta("", -3),
            text_delta(" you"),
            Ok(ResponseEvent::OutputItemDone(function_call("c", None, "f", "1"))),
            completed("a", None),
        ]
    );
}

#[test]
fn item_ids_hold_the_index_of_the_choice() {
    let line = r#"{"id": "a", "choices": [{"index": -9223372036854775808, "delta": {
        "content": "x"}, "finish_reason": "stop"}]}"#;
    assert_eq!(collect(&[line])[1], message_added("chatcmpl-message--9223372036854775808"));
    let line = r#"{"id": "a", "choices": [{"index": 120, "delta": {
        "reasoning_content": "x"}, "finish_reason": "stop"}]}"#;
    assert_eq!(collect(&[line])[1], reasoning_added("chatcmpl-reasoning-120"));
}

#[test]
fn tool_calls_come_out_by_index() {
    let events = collect(&[
        r#"{"choices": [{"index": 0, "delta": {"tool_calls": [
            {"index": 7, "id": "late", "function": {"name": "mcp__s__tool", "arguments": "{"}},
            {"index": -1, "function": {"arguments": "x"}},
            {"index": 3, "id": "nameless"}
        ]}}]}"#,
        r#"{"choices": [{"index": 0, "delta": {"tool_calls": [
            {"index": 7, "function": {"arguments": "}"}},
            {"index": -1, "id": "early", "function": {"name": "g"}},
            {"index": 4, "function": {"name": "idless", "arguments": "y"}}
        ]}}]}"#,
        "[DONE]",
    ]);
    assert_eq!(
        events,
        vec![
            Ok(ResponseEvent::Created),
            arguments("late", Some("late"), "{"),
            arguments("-1", None, "x"),
            arguments("late", Some("late"), "}"),
            arguments("4", None, "y"),
            Ok(ResponseEvent::OutputItemDone(function_call("early", None, "g", "x"))),
            Ok(ResponseEvent::OutputItemDone(function_call("late", Some("mcp__s"), "tool", "{}"))),
            completed("", None),
        ]
    );
}

#[test]
fn a_new_name_or_id_replaces_the_old_one() {
    let events = collect(&[
        r#"{"choices": [{"index": 0, "delta": {"tool_calls": [
            {"index": 0, "id": "one", "function": {"name": "f"}},
            {"index": 0, "id": "two", "function": {"name": "g", "arguments": "a"}},
            {"index": 0, "function": {"arguments": "b"}}
        ]}, "finish_reason": "tool_calls"}]}"#,
    ]);
    assert_eq!(
        events[1..],
        [
            arguments("two", Some("two"), "a"),
            arguments("two", Some("two"), "b"),
            Ok(ResponseEvent::OutputItemDone(function_call("two", None, "g", "ab"))),
            completed("", None),
        ]
    );
}

#[test]
fn a_finished_choice_ends_the_stream() {
    let events = collect(&[
        r#"{"id": "a", "choices": [
            {"index": 0, "delta": {"content": "x"}, "finish_reason": "stop"},
            {"index": 1, "delta": {"content": "never"}}
        ]}"#,
        "not-json",
    ]);
    assert_eq!(
        events,
        vec![
            Ok(ResponseEvent::Created),
            message_added("chatcmpl-message-0"),
            text_delta("x"),
            completed("a", None),
        ]
    );
}

#[test]
fn done_ends_the_stream() {
    assert_eq!(collect(&["[DONE]", "not-json"]), vec![completed("", None)]);
    assert_eq!(collect(&[" \t[DONE]\u{a0}"]), vec![completed("", None)]);
    assert_eq!(
        collect(&[r#"{"id": "a", "choices": []}"#, "[DONE]"]),
        vec![Ok(ResponseEvent::Created), completed("a", None)]
    );
}

#[test]
fn the_first_id_and_the_last_usage_count() {
    let usage = |n: i64| {
        format!(
            r#"{{"id": "id-{n}", "choices": [], "usage":
                {{"prompt_tokens": {n}, "completion_tokens": 1, "total_tokens": 2}}}}"#
        )
    };
    let events = collect_events(vec![
        r#"{"choices": []}"#.to_string(),
        usage(5),
        usage(6),
        r#"{"id": "id-9", "choices": []}"#.to_string(),
        "[DONE]".to_string(),
    ]);
    assert_eq!(
        events,
        vec![
            Ok(ResponseEvent::Created),
            completed(
                "id-5",
                Some(TokenUsage {
                    input_tokens: 6,
                    cached_input_tokens: 0,
                    output_tokens: 1,
                    reasoning_output_tokens: 0,
                    total_tokens: 2,
                })
            ),
        ]
    );
}

#[test]
fn counts_that_are_left_out_are_zero() {
    let usage = ChatUsage {
        prompt_tokens: 1,
        completion_tokens: 2,
        total_tokens: 3,
        completion_tokens_details: Some(ChatCompletionTokensDetails { reasoning_tokens: None }),
        prompt_tokens_details: None,
    };
    assert_eq!(
        TokenUsage::from(usage),
        TokenUsage {
            input_tokens: 1,
            cached_input_tokens: 0,
            output_tokens: 2,
            reasoning_output_tokens: 0,
            total_tokens: 3,
        }
    );
}

#[test]
fn failures_end_the_stream_with_their_reason() {
    let message = serde_json::from_str::<Value>("not-json").unwrap_err().to_string();
    assert_eq!(
        collect(&["not-json", "[DONE]"]),
        vec![stream_error(&format!("failed to parse chat completion chunk: {message}"))]
    );
    assert_eq!(collect(&[]), vec![stream_error("stream closed before chat completion finished")]);
    assert_eq!(
        process_chat_completions_sse(vec![
            event(r#"{"id": "a", "choices": []}"#),
            ChatPoll::IdleTimeout,
            event("[DONE]"),
        ]),
        vec![Ok(ResponseEvent::Created), stream_error("idle timeout waiting for SSE")]
    );
    assert_eq!(
        process_chat_completions_sse(vec![ChatPoll::DecodeError("broken".to_string())]),
        vec![stream_error("broken")]
    );
}

#[test]
fn an_unfinished_run_hands_over_what_came_in() {
    let polls = vec![event(r#"{"id": "a", "choices": [{"index": 0, "delta": {"content": "x"}}]}"#)];
    assert_eq!(
        process_chat_completions_sse(polls),
        vec![
            Ok(ResponseEvent::Created),
            message_added("chatcmpl-message-0"),
            text_delta("x"),
        ]
    );
}

#[test]
fn a_run_can_be_made_in_parts() {
    let lines = [
        r#"{"id": "a", "choices": [{"index": 0, "delta": {"content": "x", "tool_calls": [
            {"index": 0, "id": "c", "function": {"name": "f", "arguments": "1"}}]}}]}"#,
        r#"{"id": "a", "choices": [{"index": 0, "delta": {"content": "y", "tool_calls": [
            {"index": 0, "function": {"arguments": "2"}}]}}]}"#,
        "[DONE]",
    ];
    let mut state = ChatCompletionsState::new();
    let mut outputs = Vec::new();
    let mut finished = Vec::new();
    for line in lines {
        let step = state.step(event(line));
        outputs.extend(step.outbox.into_outputs());
        finished.push(step.finished);
    }
    assert_eq!(outputs, collect(&lines));
    assert_eq!(finished, vec![false, false, true]);
}

#[test]
fn a_response_is_completed_once() {
    let mut state = ChatCompletionsState::new();
    let mut outbox = Outbox::new();
    state.emit_completed(&mut outbox);
    state.emit_completed(&mut outbox);
    assert_eq!(outbox.into_outputs(), vec![completed("", None)]);
}

#[test]
fn a_call_needs_an_id_and_a_name() {
    let call = |id: Option<&str>, name: Option<&str>| {
        tool_call_item(&ToolCallAccumulator {
            id: id.map(str::to_string),
            name: name.map(str::to_string),
            arguments: "{}".to_string(),
        })
    };
    assert_eq!(call(None, Some("f")), None);
    assert_eq!(call(Some("c"), None), None);
    assert_eq!(call(None, None), None);
    assert_eq!(
        call(Some("c"), Some("mcp__a__f")),
        Some(function_call("c", Some("mcp__a"), "f", "{}"))
    );
}

#[test]
fn a_tool_call_is_streamed_and_answered() {
    let events = collect(&[
        r#"{
            "id": "chatcmpl-tool",
            "choices": [{
                "index": 0,
                "delta": {
                    "tool_calls": [{
                        "index": 0,
                        "id": "call-shell",
                        "function": {
                            "name": "exec_command",
                            "arguments": "{\"cmd\":\"echo chat-completions\",\"workdir\":\".\"}"
                        }
                    }]
                },
                "finish_reason": "tool_calls"
            }]
        }"#,
        "[DONE]",
    ]);
    assert_eq!(
        events[2..],
        [
            Ok(ResponseEvent::OutputItemDone(function_call(
                "call-shell",
                None,
                "exec_command",
                "{\"cmd\":\"echo chat-completions\",\"workdir\":\".\"}"
            ))),
            completed("chatcmpl-tool", None),
        ]
    );
    let answer = response_item_to_chat_message(ResponseItem::FunctionCallOutput {
        call_id: "call-shell".to_string(),
        output: FunctionCallOutputPayload::from_text("chat-completions\n".to_string()),
    })
    .unwrap()
    .unwrap();
    assert_eq!(answer.role, "tool");
    assert_eq!(answer.tool_call_id, Some("call-shell".to_string()));
    assert_eq!(answer.content, Some("chat-completions\n".to_string()));

    let events = collect(&[
        r#"{
            "id": "chatcmpl-final",
            "choices": [{"index": 0, "delta": {"content": "done"}, "finish_reason": "stop"}],
            "usage": {"prompt_tokens": 1, "completion_tokens": 1, "total_tokens": 2}
        }"#,
        "[DONE]",
    ]);
    assert_eq!(
        events[2..],
        [
            text_delta("done"),
            completed(
                "chatcmpl-final",
                Some(TokenUsage {
                    input_tokens: 1,
                    cached_input_tokens: 0,
                    output_tokens: 1,
                    reasoning_output_tokens: 0,
                    total_tokens: 2,
                })
            ),
        ]
    );
}

#[test]
fn a_failing_stream_hands_over_no_finished_item() {
    let line = r#"{"id": "a", "choices": [{"index": 0, "delta": {"content": "x", "tool_calls": [
        {"index": 0, "id": "c", "function": {"name": "f", "arguments": "1"}}]}}]}"#;
    for end in [
        event("not-json"),
        ChatPoll::DecodeError("e".to_string()),
        ChatPoll::Closed,
        ChatPoll::IdleTimeout,
    ] {
        let outputs = process_chat_completions_sse(vec![event(line), end, event("[DONE]")]);
        assert!(outputs.last().unwrap().is_err());
        assert!(!outputs.iter().any(|o| matches!(o, Ok(ResponseEvent::OutputItemDone(_)))));
    }
}

#[test]
fn tool_call_deltas_can_come_in_parts() {
    let choice = |deltas: &str, rest: &str| {
        format!(
            r#"{{"id": "a", "choices": [{{"index": 0, "delta": {{"tool_calls": [{deltas}]}}{rest}}}]}}"#
        )
    };
    let first = r#"{"index": 1, "id": "c", "function": {"name": "f", "arguments": "1"}}"#;
    let second = r#"{"index": 1, "function": {"arguments": "2"}}"#;
    let end = r#", "finish_reason": "tool_calls""#;
    assert_eq!(
        collect_events(vec![choice(first, ""), choice(second, end)]),
        collect_events(vec![choice(&format!("{first},{second}"), end)])
    );
}
