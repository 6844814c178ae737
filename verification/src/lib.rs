//! Wire contract of the Spindle peer-to-peer file sharing system.
pub mod fixtures;
pub mod net;
pub mod octets;
pub mod order;
pub mod proto;
pub mod text;
pub mod vectors;
