//! A verified core for a forward proxy built around the HTTP CONNECT method.
//!
//! The library holds the connection-handling logic that is worth proving:
//! framing and parsing of the CONNECT request, the allowlist admission
//! decision, the wire responses, and the decisions of the bidirectional
//! relay loop. The surrounding I/O (sockets, TLS handshakes, file loading)
//! lives outside the library and drives these functions.

pub mod config;
pub mod parse;
pub mod relay;
pub mod session;
