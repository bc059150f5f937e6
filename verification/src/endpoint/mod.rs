//! The requests to the providers.

pub mod call_laws;
pub mod chat_completions;
pub mod laws;
pub mod message_laws;
pub mod responses;
pub mod stream_request;
pub mod tool_laws;
