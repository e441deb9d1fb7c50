//! Server side of the WebSocket opening handshake.
//!
//! The crate decides whether an HTTP request is a valid WebSocket upgrade
//! request, computes the `Sec-WebSocket-Accept` value that answers it, and
//! builds the `101 Switching Protocols` response once the session for the
//! upgraded connection has been handed to an executor. Every function is
//! verified against the contract it carries; what is taken on trust of the
//! `base64`, `sha1` and `tokio-executor` crates is marked where it stands.

pub mod ascii;
pub mod token;
pub mod request;
pub mod codec;
pub mod handshake;
pub mod laws;
pub mod endpoint;

pub use crate::endpoint::{ws, RespondError, Response, Ws, WsEndpoint, WsFuture, WsOutput};
pub use crate::handshake::{validate, Accept, HandshakeError};
pub use crate::request::{Header, Request};
