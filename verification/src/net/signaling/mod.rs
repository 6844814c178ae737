//! Signaling: the exchange by which two peers get from a subject to a punched socket.
//!
//! A client publishes an offer on the host's connect subject; the host decides, answers on the
//! client's reply subject, and both trickle their ICE candidates on the session's own subjects until
//! a pair of addresses works. Everything here is decided from plain values. Whoever owns the
//! connection, the socket and the keys does the sending and the waiting.
pub mod authorize;
pub mod client;
pub mod connect;
pub mod error;
pub mod host;
pub mod ice;
pub mod seq;
pub mod serve;
pub mod session;
pub mod subject;
pub mod trickle;
pub mod wire;

pub use crate::net::signaling::authorize::{ConnectDecision, VerifiedDecision};
pub use crate::net::signaling::client::HostIdentity;
pub use crate::net::signaling::error::SignalingError;
