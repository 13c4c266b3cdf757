//! A client for the RAC chat protocol and its WebSocket-carried variant, WRAC.
//!
//! The library holds the protocol engine: request framing, reply decoding and
//! the message-size cursor that makes incremental fetches possible. Opening
//! sockets, TLS handshakes and WebSocket I/O are left to the caller, which
//! performs the exchanges that the engine asks for and hands back what the
//! server answered.
pub mod shared;
pub mod protocol;
pub mod client;
pub mod async_client;
pub mod wrac;
