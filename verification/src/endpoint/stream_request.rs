//! The call that opens the stream of a chat completions provider.

use http::{HeaderMap, HeaderName};
use vstd::prelude::*;
use vstd::string::*;
use vstd::utf8::encode_utf8;

use crate::endpoint::chat_completions::{
    chat_completions_request_from_responses, translated_request, ChatCompletionsRequest,
    ChatCompletionsRequestView,
};
use crate::endpoint::responses::{ResponsesApiRequest, ResponsesApiRequestView};
use crate::headers::{
    at_most, fit_together, has_headers, headers_of, is_header_text, lemma_union_at_most,
    with_header, Headers, ROOMY,
};
use crate::headers::{
    extended, insert_header, no_headers, set_header, static_header_name, static_header_value,
};
use crate::json::{error_text, json_error_text};
use crate::protocol::{ApiError, ApiErrorView};

verus! {

/// Whether the caller wants the body compressed.
#[derive(Debug, Clone, Copy, PartialEq, Eq, Structural)]
pub enum Compression {
    Off,
    Zstd,
}

/// How the transport compresses the body.
#[derive(Debug, Clone, Copy, PartialEq, Eq, Structural)]
pub enum RequestCompression {
    Off,
    Zstd,
}

/// What the caller may say about a call.
#[derive(Debug)]
pub struct ChatCompletionsOptions {
    /// The conversation that the call belongs to.
    pub conversation_id: Option<String>,
    /// The headers that every call of the conversation carries.
    pub conversation_headers: HeaderMap,
    /// The name of the subagent that makes the call.
    pub subagent: Option<String>,
    /// Further headers, which give way to the others.
    pub extra_headers: HeaderMap,
    pub compression: Compression,
}

/// What a `ChatCompletionsOptions` holds.
#[verifier::ext_equal]
pub struct ChatCompletionsOptionsView {
    pub conversation_id: Option<Seq<char>>,
    pub conversation_headers: Headers,
    pub subagent: Option<Seq<char>>,
    pub extra_headers: Headers,
    pub compression: Compression,
}

impl DeepView for ChatCompletionsOptions {
    type V = ChatCompletionsOptionsView;

    open spec fn deep_view(&self) -> ChatCompletionsOptionsView {
        ChatCompletionsOptionsView {
            conversation_id: self.conversation_id.deep_view(),
            conversation_headers: headers_of(self.conversation_headers),
            subagent: self.subagent.deep_view(),
            extra_headers: headers_of(self.extra_headers),
            compression: self.compression,
        }
    }
}

impl Default for ChatCompletionsOptions {
    /// Nothing is said.
    fn default() -> (options: Self)
        ensures
            options.deep_view() == (ChatCompletionsOptionsView {
                conversation_id: None,
                conversation_headers: Headers::empty(),
                subagent: None,
                extra_headers: Headers::empty(),
                compression: Compression::Off,
            }),
    {
        ChatCompletionsOptions {
            conversation_id: None,
            conversation_headers: no_headers(),
            subagent: None,
            extra_headers: no_headers(),
            compression: Compression::Off,
        }
    }
}

/// The call that opens a stream.
#[derive(Debug, PartialEq)]
pub struct StreamCall {
    pub method: &'static str,
    pub path: &'static str,
    pub headers: HeaderMap,
    pub body: ChatCompletionsRequest,
    pub compression: RequestCompression,
}

/// What a `StreamCall` holds.
#[verifier::ext_equal]
pub struct StreamCallView {
    pub method: Seq<char>,
    pub path: Seq<char>,
    pub headers: Headers,
    pub body: ChatCompletionsRequestView,
    pub compression: RequestCompression,
}

impl DeepView for StreamCall {
    type V = StreamCallView;

    open spec fn deep_view(&self) -> StreamCallView {
        StreamCallView {
            method: self.method@,
            path: self.path@,
            headers: headers_of(self.headers),
            body: self.body.deep_view(),
            compression: self.compression,
        }
    }
}

/// The headers with a text under a name, where there is such a text.
pub open spec fn with_optional_header(
    headers: Headers,
    name: Seq<char>,
    text: Option<Seq<char>>,
) -> Headers {
    match text {
        Some(text) => with_header(headers, name, text),
        None => headers,
    }
}

/// The headers that the options come to: the further headers, over them the
/// conversation as the id of the request, over these the headers of the
/// conversation, and over all of them the subagent.
pub open spec fn option_headers(options: ChatCompletionsOptionsView) -> Headers {
    with_optional_header(
        with_optional_header(
            options.extra_headers,
            "x-client-request-id"@,
            options.conversation_id,
        ).union_prefer_right(options.conversation_headers),
        "x-openai-subagent"@,
        options.subagent,
    )
}

/// The headers of the options are so few that a header map surely takes all of
/// them, and the id of the request beside them.
pub open spec fn headers_fit(options: ChatCompletionsOptionsView) -> bool {
    &&& options.extra_headers.dom().finite()
    &&& options.conversation_headers.dom().finite()
    &&& options.extra_headers.len() + options.conversation_headers.len() < ROOMY
}

/// There is a text that can be a header value.
pub open spec fn is_set(text: Option<Seq<char>>) -> bool {
    text matches Some(text) && is_header_text(text)
}

/// The options set a header over the further ones.
pub open spec fn sets_a_header(options: ChatCompletionsOptionsView) -> bool {
    ||| is_set(options.conversation_id)
    ||| is_set(options.subagent)
    ||| has_headers(options.conversation_headers)
}

/// The compression that the transport is asked for.
pub open spec fn transport_compression(compression: Compression) -> RequestCompression {
    match compression {
        Compression::Off => RequestCompression::Off,
        Compression::Zstd => RequestCompression::Zstd,
    }
}

/// The call that sends a body.
pub open spec fn sending(
    body: ChatCompletionsRequestView,
    options: ChatCompletionsOptionsView,
) -> StreamCallView {
    StreamCallView {
        method: "POST"@,
        path: "chat/completions"@,
        headers: option_headers(options),
        body,
        compression: transport_compression(options.compression),
    }
}

/// The call that opens the stream of a request, or the refusal of the request.
pub open spec fn stream_call(
    request: ResponsesApiRequestView,
    options: ChatCompletionsOptionsView,
) -> Result<StreamCallView, ApiErrorView> {
    match translated_request(request) {
        Ok(body) => Ok(sending(body, options)),
        Err(error) => Err(error),
    }
}

/// The path of the endpoint.
pub fn path() -> (path: &'static str)
    ensures
        path@ == "chat/completions"@,
{
    "chat/completions"
}

/// The headers that the options come to, unless there are more than a header
/// map takes.
fn collect_headers(
    conversation_id: Option<String>,
    conversation_headers: HeaderMap,
    subagent: Option<String>,
    extra_headers: HeaderMap,
) -> (headers: Option<HeaderMap>)
    ensures
        match headers {
            Some(headers) => headers_of(headers) == with_optional_header(
                with_optional_header(
                    headers_of(extra_headers),
                    "x-client-request-id"@,
                    conversation_id.deep_view(),
                ).union_prefer_right(headers_of(conversation_headers)),
                "x-openai-subagent"@,
                subagent.deep_view(),
            ),
            None => {
                &&& !({
                    &&& headers_of(extra_headers).dom().finite()
                    &&& headers_of(conversation_headers).dom().finite()
                    &&& headers_of(extra_headers).len() + headers_of(conversation_headers).len()
                        < ROOMY
                })
                &&& is_set(conversation_id.deep_view()) || is_set(subagent.deep_view())
                    || has_headers(headers_of(conversation_headers))
            },
        },
{
    let ghost extra = headers_of(extra_headers);
    let ghost carried = headers_of(conversation_headers);
    let mut headers: HeaderMap = extra_headers;
    if let Some(id) = conversation_id {
        proof {
            reveal_strlit("x-client-request-id");
        }
        if !insert_header(&mut headers, "x-client-request-id", id.as_str()) {
            return None;
        }
    }
    let ghost with_id = headers_of(headers);
    assert(extra.dom().finite() ==> at_most(with_id, extra.len() + 1int));
    let mut headers: HeaderMap = match extended(headers, conversation_headers) {
        Some(headers) => headers,
        None => {
            return None;
        },
    };
    if let Some(name) = subagent {
        proof {
            reveal_strlit("x-openai-subagent");
            if fit_together(with_id, carried) {
                lemma_union_at_most(with_id, carried, with_id.len() as int, carried.len() as int);
            }
        }
        if !insert_header(&mut headers, "x-openai-subagent", name.as_str()) {
            return None;
        }
    }
    Some(headers)
}

/// The call that sends a body, unless the options hold more headers than a
/// header map takes.
fn call_with(body: ChatCompletionsRequest, options: ChatCompletionsOptions) -> (call: Option<
    StreamCall,
>)
    ensures
        match call {
            Some(call) => call.deep_view() == sending(body.deep_view(), options.deep_view()),
            None => !headers_fit(options.deep_view()) && sets_a_header(options.deep_view()),
        },
{
    let compression: RequestCompression = match options.compression {
        Compression::Off => RequestCompression::Off,
        Compression::Zstd => RequestCompression::Zstd,
    };
    match collect_headers(
        options.conversation_id,
        options.conversation_headers,
        options.subagent,
        options.extra_headers,
    ) {
        Some(headers) => Some(
            StreamCall { method: "POST", path: path(), headers, body, compression },
        ),
        None => None,
    }
}

/// The call that opens the stream of a request, or the refusal of the request.
/// There is neither where the request is not refused and its headers are more
/// than a header map takes. A header map takes them all where `headers_fit`,
/// and where the options set none over the further ones; beyond that it depends
/// on how their names hash.
pub fn stream_request(request: ResponsesApiRequest, options: ChatCompletionsOptions) -> (call:
    Option<Result<StreamCall, ApiError>>)
    ensures
        match call {
            Some(Ok(call)) => stream_call(request.deep_view(), options.deep_view()) == Ok::<
                StreamCallView,
                ApiErrorView,
            >(call.deep_view()),
            Some(Err(error)) => stream_call(request.deep_view(), options.deep_view()) == Err::<
                StreamCallView,
                ApiErrorView,
            >(error.deep_view()),
            None => stream_call(request.deep_view(), options.deep_view()) is Ok && !headers_fit(
                options.deep_view(),
            ) && sets_a_header(options.deep_view()),
        },
{
    match chat_completions_request_from_responses(request) {
        Ok(body) => match call_with(body, options) {
            Some(call) => Some(Ok(call)),
            None => None,
        },
        Err(error) => Some(Err(error)),
    }
}

/// The headers of a call whose answer is an event stream.
pub open spec fn accepting_event_stream(headers: Headers) -> Headers {
    headers.insert("accept"@, seq![encode_utf8("text/event-stream"@)])
}

/// Asks for an event stream as the answer to a call. The result is false where
/// the header map is full, which it is not with up to `ROOMY` names; beyond
/// that it depends on how they hash.
pub fn accept_event_stream(headers: &mut HeaderMap) -> (asked: bool)
    ensures
        asked ==> headers_of(*final(headers)) == accepting_event_stream(headers_of(*old(headers))),
        !asked ==> headers_of(*final(headers)) == headers_of(*old(headers)) && !at_most(
            headers_of(*old(headers)),
            ROOMY as int,
        ),
{
    proof {
        reveal_strlit("accept");
        reveal_strlit("text/event-stream");
    }
    let name: HeaderName = static_header_name("accept");
    set_header(headers, &name, static_header_value("text/event-stream"))
}

/// The refusal of a request whose body could not be written.
pub open spec fn encode_refused(reason: Seq<char>) -> ApiErrorView {
    ApiErrorView::InvalidRequest {
        message: "failed to encode chat completions request: "@ + reason,
    }
}

impl From<serde_json::Error> for ApiError {
    fn from(error: serde_json::Error) -> (refusal: Self)
        ensures
            refusal.deep_view() == encode_refused(json_error_text(error)),
    {
        let mut message: String = "failed to encode chat completions request: ".to_owned();
        message.append(error_text(&error).as_str());
        ApiError::InvalidRequest { message }
    }
}

/// What `from` gives is stated on `from` itself, by what the refusal holds.
impl vstd::std_specs::convert::FromSpecImpl<serde_json::Error> for ApiError {
    open spec fn obeys_from_spec() -> bool {
        false
    }

    open spec fn from_spec(error: serde_json::Error) -> ApiError {
        arbitrary()
    }
}

} // verus!
