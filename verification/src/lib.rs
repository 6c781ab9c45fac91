//! The ClawTao agent backend as a verified library: session storage,
//! JSON-RPC handling, model request building and stream parsing, the chat
//! turn state machine, context compaction, configuration and skills.

pub mod text;
pub mod json;
pub mod error;
pub mod store;
pub mod llm;
pub mod sse;
pub mod context;
mod ids;
pub mod chat;
pub mod jsonrpc;
pub mod config;
pub mod skills;
pub mod system_prompt;
pub mod session;
pub mod handlers;
