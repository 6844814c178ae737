//! A host's two decisions about a connect offer.
//!
//! The first is made before any signature was checked, about a sender that anyone can name: it looks
//! up the keys to check the signature with, and must charge nothing to the named device. The second
//! is made once the signature is verified and the routing is in order: only the holder of the
//! device's key gets that far, so what it costs is charged to the right one.
use crate::proto::artifacts::capability::Capability;
use vstd::prelude::*;

verus! {

/// The decision before verification.
#[derive(Debug, Clone, Copy, PartialEq, Eq)]
pub enum ConnectDecision {
    /// The sender is a member in good standing, with these keys.
    Allow { sign_pk: [u8; 32], agree_pk: [u8; 32] },
    /// It is not, or is not known. The offer is dropped without a reply.
    Deny,
}

/// The decision after verification.
#[derive(Debug, Clone, PartialEq, Eq)]
pub enum VerifiedDecision {
    /// Go on, with the host's current member capability for the sender if it issued one. Failure to
    /// issue one is no reason to refuse.
    Proceed { member_cap: Option<Capability> },
    /// Drop the offer without a reply.
    Drop,
}

} // verus!
