use codex_api::protocol::{
    ApiError, ContentItem, ReasoningItemContent, ResponseEvent, ResponseItem, TokenUsage,
};
use codex_api::sse::chunk::{ChatCompletionTokensDetails, ChatPromptTokensDetails, ChatUsage};
use codex_api::sse::outbox::{Outbox, StreamOutput};
use codex_api::sse::zai_chat::{parse_usage, process_zai_chat_sse, ZaiChatState, ZaiPoll};
use serde_json::Value;

fn json(text: &str) -> Value {
    serde_json::from_str(text).unwrap()
}

fn event(data: &str) -> ZaiPoll {
    ZaiPoll::Event(data.to_string())
}

fn collect(data: &[&str]) -> Vec<StreamOutput> {
    let mut polls: Vec<ZaiPoll> = data.iter().map(|data| event(data)).collect();
    polls.push(ZaiPoll::Closed);
    process_zai_chat_sse(polls)
}

fn created() -> StreamOutput {
    Ok(ResponseEvent::Created)
}

fn completed(id: &str, token_usage: Option<TokenUsage>) -> StreamOutput {
    Ok(ResponseEvent::Completed { response_id: id.to_string(), token_usage })
}

fn text_delta(text: &str) -> StreamOutput {
    Ok(ResponseEvent::OutputTextDelta(text.to_string()))
}

fn reasoning_delta(text: &str) -> StreamOutput {
    Ok(ResponseEvent::ReasoningContentDelta { delta: text.to_string(), content_index: 0 })
}

fn arguments(item_id: &str, call_id: Option<&str>, delta: &str) -> StreamOutput {
    Ok(ResponseEvent::ToolCallInputDelta {
        item_id: item_id.to_string(),
        call_id: call_id.map(str::to_string),
        delta: delta.to_string(),
    })
}

fn function_call(call_id: &str, name: &str, arguments: &str) -> StreamOutput {
    Ok(ResponseEvent::OutputItemDone(ResponseItem::FunctionCall {
        id: None,
        name: name.to_string(),
        namespace: None,
        arguments: arguments.to_string(),
        call_id: call_id.to_string(),
    }))
}

fn reasoning(text: &str) -> StreamOutput {
    Ok(ResponseEvent::OutputItemDone(ResponseItem::Reasoning {
        id: String::new(),
        summary: Vec::new(),
        content: Some(vec![ReasoningItemContent::ReasoningText { text: text.to_string() }]),
        encrypted_content: None,
    }))
}

fn message(text: &str) -> StreamOutput {
    Ok(ResponseEvent::OutputItemDone(ResponseItem::Message {
        id: None,
        role: "assistant".to_string(),
        content: vec![ContentItem::OutputText { text: text.to_string() }],
        end_turn: None,
        phase: None,
    }))
}

fn stream_error(message: &str) -> StreamOutput {
    Err(ApiError::Stream(message.to_string()))
}

fn usage(input: i64, cached: i64, output: i64, reasoning: i64, total: i64) -> TokenUsage {
    TokenUsage {
        input_tokens: input,
        cached_input_tokens: cached,
        output_tokens: output,
        reasoning_output_tokens: reasoning,
        total_tokens: total,
    }
}

#[test]
fn a_whole_response_is_streamed_and_gathered() {
    let outputs = collect(&[
        r#"{"id": "r-1", "choices": [{"delta": {"reasoning_content": "hm", "content": "hel"}}]}"#,
        r#"{"choices": [{"delta": {"content": "lo", "tool_calls": [
            {"index": 1, "id": "b", "function": {"name": "g", "arguments": "{"}},
            {"index": 0, "id": "a", "function": {"name": "f", "arguments": "1"}}
        ]}}]}"#,
        r#"{"choices": [{"delta": {"tool_calls": [
            {"index": 1, "function": {"name": "h", "arguments": "}"}}
        ]}}], "usage": {"prompt_tokens": 3, "completion_tokens": 4, "total_tokens": 7,
            "prompt_tokens_details": {"cached_tokens": 1},
            "completion_tokens_details": {"reasoning_tokens": 2}}}"#,
        "[DONE]",
        "not-json",
    ]);
    assert_eq!(
        outputs,
        vec![
            created(),
            reasoning_delta("hm"),
            text_delta("hel"),
            text_delta("lo"),
            arguments("b", Some("b"), "{"),
            arguments("a", Some("a"), "1"),
            arguments("b", Some("b"), "}"),
            reasoning("hm"),
            function_call("a", "f", "1"),
            function_call("b", "gh", "{}"),
            message("hello"),
            completed("r-1", Some(usage(3, 1, 4, 2, 7))),
        ]
    );
}

#[test]
fn an_empty_stream_is_completed() {
    assert_eq!(collect(&[]), vec![created(), completed("zai-chat-response", None)]);
    assert_eq!(
        collect(&["", " \n\u{2003}", "\t[DONE] "]),
        vec![created(), completed("zai-chat-response", None)]
    );
}

#[test]
fn the_last_id_and_the_last_usage_count() {
    let outputs = collect(&[
        r#"{"id": "one", "usage": {"prompt_tokens": 1}}"#,
        r#"{"id": "two", "usage": {"prompt_tokens": 2}}"#,
        r#"{"id": 3}"#,
    ]);
    assert_eq!(outputs, vec![created(), completed("two", Some(usage(2, 0, 0, 0, 0)))]);
}

#[test]
fn usage_is_read_leniently() {
    assert_eq!(parse_usage(None), None);
    for odd in ["null", "{}", "7", "[]", r#"{"prompt_tokens": "5", "total_tokens": 1.5}"#] {
        assert_eq!(parse_usage(Some(&json(odd))), Some(usage(0, 0, 0, 0, 0)));
    }
    let extremes = json(
        r#"{"prompt_tokens": -9223372036854775808, "completion_tokens": 9223372036854775807,
            "total_tokens": 9223372036854775808, "prompt_tokens_details": {"cached_tokens": -1},
            "completion_tokens_details": 4}"#,
    );
    assert_eq!(parse_usage(Some(&extremes)), Some(usage(i64::MIN, -1, i64::MAX, 0, 0)));
}

#[test]
fn a_null_usage_counts_as_zero() {
    let outputs = collect(&[
        r#"{"usage": {"prompt_tokens": 9}}"#,
        r#"{"usage": null}"#,
    ]);
    assert_eq!(outputs, vec![created(), completed("zai-chat-response", Some(usage(0, 0, 0, 0, 0)))]);
}

#[test]
fn payloads_of_other_shapes_are_passed_over() {
    let outputs = collect(&[
        "17",
        "null",
        "[]",
        r#"{"choices": null}"#,
        r#"{"choices": [null, 3, {"delta": 4}, {"delta": {"content": 5, "tool_calls": {}}}]}"#,
        r#"{"choices": [{"delta": {"content": "", "reasoning_content": ""}}]}"#,
    ]);
    assert_eq!(outputs, vec![created(), completed("zai-chat-response", None)]);
}

#[test]
fn messages_are_gathered_without_being_streamed() {
    let outputs = collect(&[
        r#"{"choices": [{
            "message": {"content": "B", "reasoning_content": "S", "tool_calls": [
                {"index": 0, "function": {"arguments": "2"}}]},
            "delta": {"content": "A", "reasoning_content": "R", "tool_calls": [
                {"index": 0, "id": "c", "function": {"name": "f", "arguments": "1"}}]}
        }]}"#,
    ]);
    assert_eq!(
        outputs,
        vec![
            created(),
            reasoning_delta("R"),
            text_delta("A"),
            arguments("c", Some("c"), "1"),
            arguments("c", Some("c"), "2"),
            reasoning("RS"),
            function_call("c", "f", "12"),
            message("AB"),
            completed("zai-chat-response", None),
        ]
    );
}

#[test]
fn a_delta_without_an_index_opens_the_next_call() {
    let outputs = collect(&[
        r#"{"choices": [{"delta": {"tool_calls": [
            {"id": "a", "function": {"name": "f"}},
            {"function": {"name": "idless", "arguments": "x"}},
            {"index": "2", "id": "c", "function": {"name": "h"}},
            {"index": -1, "id": "d"},
            {"index": 0, "function": {"arguments": "1"}}
        ]}}]}"#,
    ]);
    assert_eq!(
        outputs,
        vec![
            created(),
            arguments("1", None, "x"),
            arguments("a", Some("a"), "1"),
            function_call("a", "f", "1"),
            function_call("c", "h", ""),
            function_call("d", "", ""),
            completed("zai-chat-response", None),
        ]
    );
}

#[test]
fn a_new_id_replaces_the_old_one_and_names_add_up() {
    let outputs = collect(&[
        r#"{"choices": [{"delta": {"tool_calls": [
            {"index": 5, "id": "one", "function": {"name": "do"}},
            {"index": 5, "id": "two", "function": {"name": "_it", "arguments": "a"}},
            {"index": 5, "function": {"arguments": "b"}}
        ]}}]}"#,
    ]);
    assert_eq!(
        outputs,
        vec![
            created(),
            arguments("two", Some("two"), "a"),
            arguments("two", Some("two"), "b"),
            function_call("two", "do_it", "ab"),
            completed("zai-chat-response", None),
        ]
    );
}

#[test]
fn zai_names_are_not_taken_apart() {
    let outputs = collect(&[
        r#"{"choices": [{"delta": {"tool_calls": [
            {"index": 0, "id": "c", "function": {"name": "mcp__calendar__lookup"}}]}}]}"#,
    ]);
    assert_eq!(outputs[1], function_call("c", "mcp__calendar__lookup", ""));
}

#[test]
fn failures_end_the_zai_stream_with_their_reason() {
    let reason = serde_json::from_str::<Value>("not-json").unwrap_err().to_string();
    assert_eq!(
        collect(&[r#"{"choices": [{"delta": {"content": "x"}}]}"#, " not-json ", "[DONE]"]),
        vec![
            created(),
            text_delta("x"),
            stream_error(&format!("failed to parse Z.AI SSE payload: {reason}")),
        ]
    );
    assert_eq!(
        process_zai_chat_sse(vec![ZaiPoll::DecodeError("broken".to_string()), ZaiPoll::Closed]),
        vec![created(), stream_error("error decoding SSE stream: broken")]
    );
    assert_eq!(
        process_zai_chat_sse(vec![ZaiPoll::IdleTimeout { millis: 300_000 }, event("[DONE]")]),
        vec![created(), stream_error("stream disconnected after 300000 ms of inactivity")]
    );
    assert_eq!(
        process_zai_chat_sse(vec![ZaiPoll::IdleTimeout { millis: 0 }]),
        vec![created(), stream_error("stream disconnected after 0 ms of inactivity")]
    );
}

#[test]
fn a_zai_run_can_be_made_in_parts() {
    let data = [
        r#"{"id": "r", "choices": [{"delta": {"content": "x"}}]}"#,
        "",
        r#"{"choices": [{"delta": {"content": "y"}}]}"#,
        "[DONE]",
    ];
    let mut state = ZaiChatState::new();
    let mut outputs = vec![created()];
    let mut finished = Vec::new();
    for piece in data {
        let step = state.step(event(piece));
        outputs.extend(step.outbox.into_outputs());
        finished.push(step.finished);
    }
    assert_eq!(outputs, collect(&data));
    assert_eq!(finished, vec![false, false, false, true]);
}

#[test]
fn a_payload_is_taken_in_as_it_was_read() {
    let mut state = ZaiChatState::new();
    let step = state.take_payload(Ok(json(r#"{"id": "r", "choices": [{"delta": {"content": "x"}}]}"#)));
    assert!(!step.finished);
    assert_eq!(step.outbox.into_outputs(), vec![text_delta("x")]);
    assert_eq!(state.response_id, "r");
    assert_eq!(state.assistant_text, "x");
    let step = state.take_payload(Err("why".to_string()));
    assert!(step.finished);
    assert_eq!(
        step.outbox.into_outputs(),
        vec![stream_error("failed to parse Z.AI SSE payload: why")]
    );
}

#[test]
fn tool_call_deltas_are_collected_under_their_indices() {
    let mut state = ZaiChatState::new();
    let mut outbox = Outbox::new();
    let value = json(
        r#"{"tool_calls": [{"index": 4, "function": {"arguments": "a"}}, {"index": 2, "id": "x"}]}"#,
    );
    state.collect_tool_call_deltas(&value, &mut outbox);
    state.collect_tool_call_deltas(&json("{}"), &mut outbox);
    assert_eq!(outbox.into_outputs(), vec![arguments("4", None, "a")]);
    assert_eq!(state.tool_calls.keys().copied().collect::<Vec<usize>>(), vec![2, 4]);
    assert_eq!(state.tool_calls[&2].id, Some("x".to_string()));
    assert_eq!(state.tool_calls[&4].arguments, "a");
}

#[test]
fn both_streams_read_the_same_usage() {
    let document = json(
        r#"{"prompt_tokens": 10, "completion_tokens": 4, "total_tokens": 99,
            "completion_tokens_details": {"reasoning_tokens": 2},
            "prompt_tokens_details": {"cached_tokens": 3}}"#,
    );
    let whole = ChatUsage {
        prompt_tokens: 10,
        completion_tokens: 4,
        total_tokens: 99,
        completion_tokens_details: Some(ChatCompletionTokensDetails { reasoning_tokens: Some(2) }),
        prompt_tokens_details: Some(ChatPromptTokensDetails { cached_tokens: Some(3) }),
    };
    assert_eq!(parse_usage(Some(&document)), Some(TokenUsage::from(whole)));

    let document = json(
        r#"{"prompt_tokens": -1, "completion_tokens": 0, "total_tokens": 5,
            "completion_tokens_details": null, "prompt_tokens_details": {"cached_tokens": null}}"#,
    );
    let whole = ChatUsage {
        prompt_tokens: -1,
        completion_tokens: 0,
        total_tokens: 5,
        completion_tokens_details: None,
        prompt_tokens_details: Some(ChatPromptTokensDetails { cached_tokens: None }),
    };
    assert_eq!(parse_usage(Some(&document)), Some(TokenUsage::from(whole)));
}

#[test]
fn a_failing_zai_stream_hands_over_no_finished_item() {
    let tool_call = r#"{"choices": [{"delta": {"content": "x", "reasoning_content": "r", "tool_calls": [
        {"index": 0, "id": "c", "function": {"name": "f"}}]}}]}"#;
    for end in [ZaiPoll::DecodeError("e".to_string()), ZaiPoll::IdleTimeout { millis: 1 }] {
        let outputs = process_zai_chat_sse(vec![event(tool_call), end, ZaiPoll::Closed]);
        assert!(outputs.last().unwrap().is_err());
        assert!(!outputs.iter().any(|o| matches!(o, Ok(ResponseEvent::OutputItemDone(_)))));
    }
}

#[test]
fn tool_call_deltas_can_be_collected_in_parts() {
    let first = r#"{"id": "a", "function": {"name": "f", "arguments": "1"}}"#;
    let second = r#"{"function": {"name": "g", "arguments": "2"}}"#;
    let third = r#"{"index": 0, "function": {"arguments": "3"}}"#;
    let calls = |deltas: &[&str]| json(&format!(r#"{{"tool_calls": [{}]}}"#, deltas.join(",")));
    let mut whole = ZaiChatState::new();
    let mut whole_outbox = Outbox::new();
    whole.collect_tool_call_deltas(&calls(&[first, second, third]), &mut whole_outbox);
    let mut parts = ZaiChatState::new();
    let mut parts_outbox = Outbox::new();
    parts.collect_tool_call_deltas(&calls(&[first]), &mut parts_outbox);
    parts.collect_tool_call_deltas(&calls(&[second, third]), &mut parts_outbox);
    assert_eq!(format!("{whole:?}"), format!("{parts:?}"));
    assert_eq!(whole_outbox.into_outputs(), parts_outbox.into_outputs());
    assert_eq!(whole.tool_calls[&0].arguments, "13");
    assert_eq!(whole.tool_calls[&1].arguments, "2");
}
