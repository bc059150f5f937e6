//! Requests to chat completions providers, and the streams that answer them.

pub mod endpoint;
pub mod gather;
pub mod headers;
pub mod json;
pub mod json_laws;
pub mod protocol;
pub mod sse;
pub mod text;
pub mod text_laws;
pub mod tool_name;
pub mod tool_name_laws;
pub mod view_laws;
