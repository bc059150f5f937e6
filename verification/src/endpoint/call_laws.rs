//! What holds of the call that opens a stream.

use vstd::prelude::*;
use vstd::utf8::encode_utf8;

use crate::endpoint::chat_completions::translated_request;
use crate::endpoint::responses::ResponsesApiRequestView;
use crate::endpoint::stream_request::{
    accepting_event_stream, encode_refused, headers_fit, option_headers, sets_a_header,
    stream_call, ChatCompletionsOptionsView, Compression, RequestCompression, StreamCallView,
};
use crate::headers::{at_most, has_headers, is_header_char, is_header_text, Headers, ROOMY};
use crate::protocol::ApiErrorView;

verus! {

/// A text without control characters, the tab aside.
pub open spec fn has_no_controls(text: Seq<char>) -> bool {
    forall|i: int|
        0 <= i < text.len() ==> ((#[trigger] text[i]) as int == 9 || (text[i] as int >= 32
            && text[i] as int != 127))
}

/// A text can be a header value if and only if it has no control characters.
pub proof fn law_header_texts(text: Seq<char>)
    ensures
        is_header_text(text) <==> has_no_controls(text),
{
    if is_header_text(text) {
        assert forall|i: int| 0 <= i < text.len() implies ((#[trigger] text[i]) as int == 9 || (
        text[i] as int >= 32 && text[i] as int != 127)) by {
            assert(is_header_char(text[i]));
        }
    }
    if has_no_controls(text) {
        assert forall|i: int| 0 <= i < text.len() implies is_header_char(
            #[trigger] text[i],
        ) by {
            assert(text[i] as int == 9 || (text[i] as int >= 32 && text[i] as int != 127));
        }
    }
}

/// A request is posted to the endpoint with the translated request as the body
/// and with the compression that was asked for, or it is refused as its
/// translation is.
pub proof fn law_calls_post_the_request(
    request: ResponsesApiRequestView,
    options: ChatCompletionsOptionsView,
)
    ensures
        translated_request(request) matches Err(error) ==> stream_call(request, options) == Err::<
            StreamCallView,
            ApiErrorView,
        >(error),
        translated_request(request) matches Ok(body) ==> (stream_call(request, options) matches Ok(
            call,
        ) && call.method == "POST"@ && call.path == "chat/completions"@ && call.body == body
            && call.headers == option_headers(options) && (call.compression
            == RequestCompression::Zstd <==> options.compression == Compression::Zstd)),
{
}

/// The conversation names the request and the subagent names itself: each under
/// its own header, as the bytes of its text, in place of whatever stood there.
/// What cannot be a header value changes nothing, and the headers of the
/// conversation go before the name of the request.
pub proof fn law_named_headers(options: ChatCompletionsOptionsView)
    ensures
        ({
            let headers = option_headers(options);
            let id = "x-client-request-id"@;
            let carried = options.conversation_headers;
            &&& carried.contains_key(id) ==> headers.contains_key(id) && headers[id] == carried[id]
            &&& !carried.contains_key(id) ==> match options.conversation_id {
                Some(text) if has_no_controls(text) => headers.contains_key(id) && headers[id]
                    == seq![encode_utf8(text)],
                _ => {
                    &&& headers.contains_key(id) <==> options.extra_headers.contains_key(id)
                    &&& headers.contains_key(id) ==> headers[id] == options.extra_headers[id]
                },
            }
        }),
        ({
            let headers = option_headers(options);
            let name = "x-openai-subagent"@;
            let carried = options.conversation_headers;
            match options.subagent {
                Some(text) if has_no_controls(text) => headers.contains_key(name) && headers[name]
                    == seq![encode_utf8(text)],
                _ => {
                    &&& headers.contains_key(name) <==> carried.contains_key(name)
                        || options.extra_headers.contains_key(name)
                    &&& carried.contains_key(name) ==> headers[name] == carried[name]
                    &&& !carried.contains_key(name) && options.extra_headers.contains_key(name)
                        ==> headers[name] == options.extra_headers[name]
                },
            }
        }),
{
    reveal_strlit("x-client-request-id");
    reveal_strlit("x-openai-subagent");
    assert("x-client-request-id"@.len() != "x-openai-subagent"@.len());
    if let Some(text) = options.conversation_id {
        law_header_texts(text);
    }
    if let Some(text) = options.subagent {
        law_header_texts(text);
    }
}

/// A call accepts an event stream and nothing else, and keeps all its other
/// headers.
pub proof fn law_event_streams_are_accepted(headers: Headers, name: Seq<char>)
    ensures
        accepting_event_stream(headers).contains_key("accept"@),
        accepting_event_stream(headers)["accept"@] == seq![encode_utf8("text/event-stream"@)],
        name != "accept"@ ==> (accepting_event_stream(headers).contains_key(name)
            <==> headers.contains_key(name)),
        name != "accept"@ && headers.contains_key(name) ==> accepting_event_stream(headers)[name]
            == headers[name],
{
}

/// A body that cannot be written is an invalid request, for the reason given.
pub proof fn law_encode_errors(reason: Seq<char>)
    ensures
        encode_refused(reason) == (ApiErrorView::InvalidRequest {
            message: "failed to encode chat completions request: "@ + reason,
        }),
{
}

/// Fewer than 6553 header names fit into a call, and so do as many to ask for an
/// event stream. Headers are set where the conversation or the subagent has a
/// name that a header can hold, or where the conversation has headers.
pub proof fn law_few_headers_fit(options: ChatCompletionsOptionsView, headers: Headers)
    ensures
        options.extra_headers.dom().finite() && options.conversation_headers.dom().finite()
            && options.extra_headers.dom().len() + options.conversation_headers.dom().len() < 6553
            ==> headers_fit(options),
        sets_a_header(options) ==> {
            ||| options.conversation_id matches Some(text) && has_no_controls(text)
            ||| options.subagent matches Some(text) && has_no_controls(text)
            ||| exists|name: Seq<char>| options.conversation_headers.dom().contains(name)
        },
        headers.dom().finite() && headers.dom().len() <= 6553 ==> at_most(headers, ROOMY as int),
{
    if let Some(text) = options.conversation_id {
        law_header_texts(text);
    }
    if let Some(text) = options.subagent {
        law_header_texts(text);
    }
    if has_headers(options.conversation_headers) {
        let name = choose|name: Seq<char>| options.conversation_headers.contains_key(name);
        assert(options.conversation_headers.dom().contains(name));
    }
}

} // verus!
