//! The native transport: framing on the control stream, certificate pinning, and signaling.
pub mod framing;
pub mod fingerprint;
pub mod signaling;
pub mod quic;
pub mod agreement;
