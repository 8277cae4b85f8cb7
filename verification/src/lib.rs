//! Verified core of the Alice agent runtime.
pub mod agent_backend;
pub mod bootstrap;
pub mod channel_dispatch;
pub mod chat_events;
pub mod cli_repl;
pub mod clock;
pub mod commands;
pub mod common;
pub mod config;
pub mod handle_input;
pub mod identity;
pub mod keyed;
pub mod memory;
pub mod orchestration;
pub mod reflection;
pub mod runtime_state;
pub mod scheduler;
pub mod text;
