//! edoCRS: the decision logic of a command line agent that chats with a
//! language model, runs tools on its behalf and keeps every session as a
//! replayable log.
//!
//! The crate computes. Beside the clock and the random numbers of identifiers it
//! reads nothing from outside: where the agent has to read a file, send a
//! request or wait for an answer, the functions here say what is to be done and
//! take what came back as an argument.

pub mod agent;
pub mod api;
pub mod cli;
pub mod config;
pub mod errors;
pub mod event;
pub mod json;
pub mod permission;
pub mod repl;
pub mod sampler;
pub mod session;
pub mod session_actor;
pub mod stamp;
pub mod system_prompt;
pub mod text;
pub mod tools;
pub mod ui;
pub mod wire;
