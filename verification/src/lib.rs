//! Streaming engine core for multi-turn conversations with an
//! OpenAI-compatible model backend: canonical message model, transcript
//! encoders for the Chat Completions and Responses dialects, a tool
//! registry, usage accounting, and the incremental state machine that
//! assembles the assistant message from backend events.

pub mod ai;
pub mod config;
pub mod engine;
pub mod message;
pub mod openai;
pub mod tool;
pub mod util;

pub use ai::GenerateConfig;
pub use ai::Model;
pub use ai::Session;
pub use ai::Usage;
pub use message::Message;
pub use tool::Tool;
pub use tool::ToolBuilder;
