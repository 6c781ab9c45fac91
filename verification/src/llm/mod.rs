pub mod types;
pub mod adapter;
pub mod anthropic;
pub mod openai;
pub mod anthropic_request;
