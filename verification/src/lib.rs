//! A terminal client for chat completions: configuration, per-terminal chat
//! sessions, request building and the handling of streamed replies.

pub mod open_api_models;
pub mod text;
pub mod session_storage;
pub mod config;
pub mod open_ai_client;
