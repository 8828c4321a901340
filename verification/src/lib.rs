//! Client-side protocol engine for a remote agent-platform container.
//!
//! The library models the gateway/container protocol: wire frames carried
//! as line-delimited JSON trees, an application-level message envelope,
//! the dispatch and receive state machine, request/response correlation,
//! and the typed-array codec used for binary payload fields.

pub mod codec;
pub mod connector;
pub mod file;
pub mod frame;
pub mod gateway;
pub mod json;
pub mod message;
pub mod param;
pub mod shell;

pub use json::JsonValue;
