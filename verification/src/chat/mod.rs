//! The agent turn: its state machine, the requests it sends, how it reads
//! the model's replies and failures, and how it compacts long histories.

pub mod machine;
pub mod http;
pub mod compaction;
pub mod request;
pub mod turn;
pub mod notify;
