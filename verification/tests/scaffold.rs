//! The crate links, and its parts are where callers look for them.
use spindle::net::quic::SessionCert;
use spindle::net::signaling::HostIdentity;
use spindle::proto::Envelope;

#[test]
fn lib_scaffold() {
    assert!(std::mem::size_of::<Envelope>() > 0);
}

#[test]
fn scaffold() {
    assert!(std::mem::size_of::<SessionCert>() > 0);
}

#[test]
fn mod_scaffold() {
    assert!(std::mem::size_of::<HostIdentity>() > 0);
}
