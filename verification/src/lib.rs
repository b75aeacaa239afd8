//! The interaction engine of a conversational command-line agent.
//!
//! A line of user input is classified by a model, the model's answer is
//! decoded into a tool call, the call is validated and routed, and the tool
//! that is addressed either streams a reply or ingests documents into a
//! vector store. This crate holds what is decided along that way, with a
//! proof for each decision; talking to the model, the stores and the terminal
//! is left to the program that uses it.
//!
//! - [`tool_call`] decodes a payload into an invocation, on top of the tag
//!   grammar in [`xml`]; [`canonical`] proves that what is written is read
//!   back. [`agent_call`] reads the single-argument format.
//! - [`dispatch`] checks an invocation against the schema of its tool.
//! - [`command`] reads the commands of the interactive loop, and [`session`]
//!   is the state machine of a conversation.
//! - [`chunk`] and [`ingest`] split a document and gather its embedded chunks
//!   into batches.
//! - [`engine`] and [`config`] prepare what the backend client needs.

pub mod agent_call;
pub mod canonical;
pub mod chunk;
pub mod command;
pub mod config;
pub mod dispatch;
pub mod engine;
pub mod ingest;
pub mod session;
pub mod text;
pub mod tool_call;
pub mod xml;

pub use config::Config;
pub use tool_call::ToolCall;
