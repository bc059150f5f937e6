//! The event streams of the providers.

pub mod chat_completions;
pub mod chat_laws;
pub mod chat_step_laws;
pub mod chunk;
pub mod order;
pub mod outbox;
pub mod received;
pub mod usage_laws;
pub mod zai_chat;
pub mod zai_laws;
pub mod zai_step_laws;
