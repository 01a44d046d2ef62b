//! A transport-agnostic tool-invocation server core.
//!
//! The crate models the canonical request/response shapes of a small RPC
//! server, a registry of schema-described tools, a validator that checks
//! call arguments against a tool's schema, a dispatcher that resolves and
//! runs tool handlers under an explicit deadline, and a session manager
//! for streaming transports. Transport plumbing (sockets, processes,
//! event streams) lives outside the library; it hands the core plain
//! values and carries the core's encoded frames.

pub mod value;
pub mod registry;
pub mod validate;
pub mod text;
pub mod dispatch;
pub mod session;
pub mod codec;
pub mod clock;
