use codex_api::endpoint::responses::ResponsesApiRequest;
use codex_api::endpoint::stream_request::{
    accept_event_stream, path, stream_request, ChatCompletionsOptions, Compression,
    RequestCompression, StreamCall,
};
use codex_api::protocol::{ApiError, ContentItem, ResponseItem};
use http::{HeaderMap, HeaderName, HeaderValue};

fn request() -> ResponsesApiRequest {
    ResponsesApiRequest {
        model: "glm-5.1".to_string(),
        instructions: String::new(),
        input: Vec::new(),
        tools: Vec::new(),
        tool_choice: "auto".to_string(),
        parallel_tool_calls: false,
        reasoning: None,
        store: false,
        stream: true,
        include_fields: Vec::new(),
        service_tier: None,
        prompt_cache_key: None,
        text: None,
        client_metadata: None,
    }
}

fn headers(entries: &[(&'static str, &'static str)]) -> HeaderMap {
    let mut map = HeaderMap::new();
    for (name, value) in entries {
        map.append(*name, HeaderValue::from_static(value));
    }
    map
}

fn many_headers(prefix: &str, n: usize) -> HeaderMap {
    let mut map = HeaderMap::new();
    for i in 0..n {
        let name = HeaderName::from_bytes(format!("{prefix}-{i}").as_bytes()).unwrap();
        map.insert(name, HeaderValue::from_static("v"));
    }
    map
}

fn full_headers() -> HeaderMap {
    let mut map = HeaderMap::new();
    let mut i = 0;
    while map.keys_len() < 24576 {
        let name = HeaderName::from_bytes(format!("x-{i}").as_bytes()).unwrap();
        let _ = map.try_insert(name, HeaderValue::from_static("v"));
        i += 1;
    }
    map
}

fn call(options: ChatCompletionsOptions) -> StreamCall {
    stream_request(request(), options).unwrap().unwrap()
}

#[test]
fn a_call_posts_the_translated_request() {
    let call = call(ChatCompletionsOptions::default());
    assert_eq!(call.method, "POST");
    assert_eq!(call.path, "chat/completions");
    assert_eq!(path(), "chat/completions");
    assert_eq!(call.headers, HeaderMap::new());
    assert_eq!(call.body.model, "glm-5.1");
    assert_eq!(call.body.messages, Vec::new());
    assert_eq!(call.compression, RequestCompression::Off);
}

#[test]
fn compression_is_passed_on() {
    let options =
        ChatCompletionsOptions { compression: Compression::Zstd, ..ChatCompletionsOptions::default() };
    let call = call(options);
    assert_eq!(call.compression, RequestCompression::Zstd);
}

#[test]
fn later_headers_take_the_place_of_earlier_ones() {
    let options = ChatCompletionsOptions {
        conversation_id: Some("conversation".to_string()),
        conversation_headers: headers(&[
            ("session_id", "one"),
            ("session_id", "two"),
            ("x-shared", "conversation"),
        ]),
        subagent: Some("compact".to_string()),
        extra_headers: headers(&[
            ("x-own", "a"),
            ("x-own", "b"),
            ("x-shared", "extra"),
            ("x-shared", "more"),
            ("x-client-request-id", "old"),
            ("x-openai-subagent", "old"),
        ]),
        compression: Compression::Off,
    };
    let call = call(options);
    assert_eq!(
        call.headers,
        headers(&[
            ("x-own", "a"),
            ("x-own", "b"),
            ("x-shared", "conversation"),
            ("session_id", "one"),
            ("session_id", "two"),
            ("x-client-request-id", "conversation"),
            ("x-openai-subagent", "compact"),
        ])
    );
}

#[test]
fn the_conversation_may_set_the_id_of_the_request() {
    let options = ChatCompletionsOptions {
        conversation_id: Some("conversation".to_string()),
        conversation_headers: headers(&[("x-client-request-id", "mine")]),
        ..ChatCompletionsOptions::default()
    };
    let call = call(options);
    assert_eq!(call.headers, headers(&[("x-client-request-id", "mine")]));
}

#[test]
fn values_that_no_header_can_hold_are_left_out() {
    for text in ["a\nb", "\u{0}", "\u{7f}", "\u{1f}"] {
        let options = ChatCompletionsOptions {
            conversation_id: Some(text.to_string()),
            subagent: Some(text.to_string()),
            extra_headers: headers(&[("x-openai-subagent", "old")]),
            ..ChatCompletionsOptions::default()
        };
        let call = call(options);
        assert_eq!(call.headers, headers(&[("x-openai-subagent", "old")]));
    }
}

#[test]
fn values_are_held_as_their_bytes() {
    for text in ["", "a b", "\ttab", "k\u{e4}se", "~"] {
        let options = ChatCompletionsOptions {
            conversation_id: Some(text.to_string()),
            ..ChatCompletionsOptions::default()
        };
        let call = call(options);
        assert_eq!(call.headers["x-client-request-id"].as_bytes(), text.as_bytes());
    }
}

fn refused() -> ResponsesApiRequest {
    let mut refused = request();
    refused.input = vec![ResponseItem::Message {
        id: None,
        role: "user".to_string(),
        content: vec![ContentItem::InputImage { image_url: "i".to_string(), detail: None }],
        end_turn: None,
        phase: None,
    }];
    refused
}

#[test]
fn a_refused_request_makes_no_call() {
    let refusal = || {
        Some(Err(ApiError::InvalidRequest {
            message: "chat_completions providers do not support image input".to_string(),
        }))
    };
    assert_eq!(stream_request(refused(), ChatCompletionsOptions::default()), refusal());
    let options = ChatCompletionsOptions {
        conversation_id: Some("id".to_string()),
        extra_headers: full_headers(),
        ..ChatCompletionsOptions::default()
    };
    assert_eq!(stream_request(refused(), options), refusal());
}

#[test]
fn many_headers_make_a_call() {
    for (extra, carried) in [(6552, 0), (6553, 0), (7000, 0), (0, 7000), (5000, 4000)] {
        let call = call(ChatCompletionsOptions {
            conversation_id: Some("id".to_string()),
            conversation_headers: many_headers("y", carried),
            extra_headers: many_headers("x", extra),
            ..ChatCompletionsOptions::default()
        });
        assert_eq!(call.headers.keys_len(), extra + carried + 1);
        let mut expected = many_headers("x", extra);
        expected.insert("x-client-request-id", HeaderValue::from_static("id"));
        expected.extend(many_headers("y", carried));
        assert_eq!(call.headers, expected);
    }
}

#[test]
fn many_headers_take_the_place_of_others_with_all_their_values() {
    let mut carried = many_headers("x", 4000);
    carried.append("x-1", HeaderValue::from_static("w"));
    carried.append("x-1", HeaderValue::from_static("u"));
    carried.append("z", HeaderValue::from_static("1"));
    carried.append("z", HeaderValue::from_static("2"));
    let mut extra = many_headers("x", 5000);
    extra.append("x-1", HeaderValue::from_static("old"));
    extra.append("x-4500", HeaderValue::from_static("kept"));
    let mut expected = extra.clone();
    expected.extend(carried.clone());
    let call = call(ChatCompletionsOptions {
        conversation_headers: carried,
        extra_headers: extra,
        ..ChatCompletionsOptions::default()
    });
    assert_eq!(call.headers, expected);
    let values: Vec<&HeaderValue> = call.headers.get_all("x-1").iter().collect();
    assert_eq!(values, vec!["v", "w", "u"]);
    let values: Vec<&HeaderValue> = call.headers.get_all("x-4500").iter().collect();
    assert_eq!(values, vec!["v", "kept"]);
}

#[test]
fn more_headers_than_a_map_takes_make_no_call() {
    let with_id = ChatCompletionsOptions {
        conversation_id: Some("id".to_string()),
        extra_headers: full_headers(),
        ..ChatCompletionsOptions::default()
    };
    assert_eq!(stream_request(request(), with_id), None);
    let with_subagent = ChatCompletionsOptions {
        subagent: Some("compact".to_string()),
        extra_headers: full_headers(),
        ..ChatCompletionsOptions::default()
    };
    assert_eq!(stream_request(request(), with_subagent), None);
    let carried = ChatCompletionsOptions {
        conversation_headers: headers(&[("z", "1")]),
        extra_headers: full_headers(),
        ..ChatCompletionsOptions::default()
    };
    assert_eq!(stream_request(request(), carried), None);
    let nothing_to_set =
        ChatCompletionsOptions { extra_headers: full_headers(), ..ChatCompletionsOptions::default() };
    assert_eq!(call(nothing_to_set).headers, full_headers());
    let unusable = ChatCompletionsOptions {
        conversation_id: Some("a\nb".to_string()),
        subagent: Some("\u{0}".to_string()),
        extra_headers: full_headers(),
        ..ChatCompletionsOptions::default()
    };
    assert_eq!(call(unusable).headers, full_headers());
}

#[test]
fn the_answer_is_asked_for_as_an_event_stream() {
    let mut map = headers(&[("accept", "a"), ("accept", "b"), ("x-own", "c")]);
    assert!(accept_event_stream(&mut map));
    let expected = headers(&[("accept", "text/event-stream"), ("x-own", "c")]);
    assert_eq!(map, expected);

    let mut map = headers(&[("x-own", "c")]);
    assert!(accept_event_stream(&mut map));
    assert_eq!(map, expected);

    let mut map = many_headers("x", 7000);
    assert!(accept_event_stream(&mut map));
    assert_eq!(map["accept"], "text/event-stream");
    assert_eq!(map.keys_len(), 7001);

    let mut map = full_headers();
    assert!(!accept_event_stream(&mut map));
    assert_eq!(map, full_headers());
}

#[test]
fn a_body_that_cannot_be_written_is_refused() {
    let error = serde_json::from_str::<bool>("nope").unwrap_err();
    let message = format!("failed to encode chat completions request: {error}");
    assert_eq!(ApiError::from(error), ApiError::InvalidRequest { message });
}
