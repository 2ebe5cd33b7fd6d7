//! Core of a Language Server Protocol server: `Content-Length` framing,
//! JSON-RPC values and their wire text, the lifecycle state machine, the
//! registry of in-flight requests and the router that turns one decoded
//! message into one action.
pub mod codec;
pub mod jsonrpc;
pub mod pending;
pub mod router;
pub mod state;
pub mod transport;
pub mod wire;
