//! Core of a tool/function-invocation engine for a model-driven agent
//! runtime: batches of requested tool calls are deduplicated by correlation
//! id, resolved to concrete execution specs (local subprocess or remote
//! protocol tool), executed, and reassembled into results in request order,
//! with per-call failures isolated from the batch.

pub mod calls;
pub mod dispatch;
pub mod env;
pub mod executor;
pub mod json;
pub mod memory;
pub mod registry;
pub mod resolver;
pub mod schema;
pub mod session;
