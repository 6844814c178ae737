//! Test vectors: fixed messages with their canonical bytes, as JSON.
pub mod json;
pub mod mirror;
pub mod artifacts;
pub mod cases;
pub mod primitives;
pub mod readback;
pub mod rpc;
