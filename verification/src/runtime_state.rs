//! Runtime state: identity bindings, bind tokens, active sessions and scheduled tasks.
pub mod domain;
pub mod error;
pub mod memory_store;
pub mod ports;
pub mod service;
pub mod laws;
