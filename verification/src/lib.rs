//! A conversational agent's turn engine: the decoder that assembles streamed
//! wire events into content blocks, the conversation history with its rollback,
//! the progress indicator's lifecycle, and the state machine that sequences
//! requests, decoding and tool execution. Beside it stand the configuration of
//! the tool providers and the reading of the user's lines.
//!
//! The library performs no I/O. Its functions are handed what came of each
//! outside call and decide what follows; every one of them carries a contract
//! that Verus proves. Two calls into `serde_json` are trusted: see [`json`].

pub mod agent;
pub mod command;
pub mod config;
pub mod content;
pub mod decoder;
pub mod error;
pub mod history;
pub mod indicator;
pub mod invariants;
pub mod json;
pub mod orchestrator;
pub mod text;

pub use crate::agent::AgentClient;
pub use crate::config::{McpConfig, ServerConfig};
pub use crate::error::{AgentError, McpError};
pub use crate::orchestrator::TurnOrchestrator;
