//! Certificate pinning.
use sha2::{Digest, Sha256};
use spindle::net::quic::{
    hex, verify_client_cert, verify_fingerprint, verify_server_cert, QuicError, SessionCert, ALPN,
};

#[test]
fn a_session_certificate_is_pinned_by_its_digest() {
    let cert = SessionCert::generate().expect("a certificate");
    let digest: [u8; 32] = Sha256::digest(cert.cert_der()).into();
    assert_eq!(cert.fingerprint(), digest);
    assert!(!cert.key_der().is_empty());
    assert_eq!(verify_server_cert(&cert.fingerprint(), &cert.cert_der()), Ok(()));
    assert_eq!(verify_client_cert(&cert.fingerprint(), &cert.cert_der()), Ok(()));
}

#[test]
fn every_session_has_a_certificate_of_its_own() {
    let a = SessionCert::generate().expect("a certificate");
    let b = SessionCert::generate().expect("a certificate");
    assert_ne!(a.fingerprint(), b.fingerprint());
}

#[test]
fn another_certificate_is_refused_and_the_message_shows_prefixes_only() {
    let expected = [0xab; 32];
    let digest: [u8; 32] = Sha256::digest(b"presented").into();
    let said = verify_server_cert(&expected, b"presented").expect_err("mismatch");
    assert_eq!(
        said,
        format!(
            "server certificate fingerprint mismatch: expected sha256:abababab, got sha256:{}",
            hex(&digest[..4])
        )
    );
    let said = verify_client_cert(&expected, b"presented").expect_err("mismatch");
    assert!(said.starts_with("client certificate fingerprint mismatch: "));
    assert!(!said.contains(&hex(&digest)));
}

#[test]
fn certificates_can_be_given() {
    let cert = SessionCert::from_der(vec![1, 2, 3], vec![4]);
    assert_eq!(
        hex(&cert.fingerprint()),
        "039058c6f2c0cb492c533b0a4d14ef77cc0f78abccced5287d84a1a2011cfb81"
    );
    assert_eq!(cert.key_der(), vec![4]);
}

#[test]
fn the_protocol_has_a_name() {
    assert_eq!(&ALPN, b"spindle-vfs/1");
}

#[test]
fn a_fingerprint_is_accepted_only_where_it_is_the_expected_one() {
    let expected = [0xab; 32];
    let mut actual = expected;
    assert_eq!(verify_fingerprint("server", &expected, &actual), Ok(()));
    actual[31] = 0;
    actual[0] = 1;
    assert_eq!(
        verify_fingerprint("server", &expected, &actual),
        Err("server certificate fingerprint mismatch: expected sha256:abababab, got sha256:01ababab"
            .to_string())
    );
}

#[test]
fn what_was_issued_is_kept_as_it_is() {
    let made = Ok((vec![1, 2, 3], vec![4, 5]));
    let cert = SessionCert::of_issued(made).expect("a certificate");
    let digest: [u8; 32] = Sha256::digest([1, 2, 3]).into();
    assert_eq!(cert.cert_der(), [1, 2, 3]);
    assert_eq!(cert.key_der(), [4, 5]);
    assert_eq!(cert.fingerprint(), digest);
    match SessionCert::of_issued(Err("no randomness".to_string())) {
        Err(QuicError::CertGen(said)) => assert_eq!(said, "no randomness"),
        _ => panic!("fails with the message"),
    }
    let fresh = SessionCert::generate().expect("a certificate");
    assert_eq!((fresh.cert_der()[0], fresh.key_der()[0]), (0x30, 0x30));
}
