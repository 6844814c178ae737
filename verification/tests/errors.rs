//! What errors say, in full and redacted.
use spindle::net::fingerprint::FingerprintError;
use spindle::net::quic::{ConnectionFault, QuicError};
use spindle::net::signaling::error::SignalingError;
use spindle::proto::artifacts::ProtoError;
use spindle::proto::canonical::CborError;
use spindle::proto::signaling::{SignalingError as PayloadError, Transport};

#[test]
fn redacted_display_withholds_peer_bytes_and_subjects_and_nothing_else() {
    let subject = "host.ABCDEFGH.sess.IJKLMNOP.0011.c2h";
    let leaky = [
        SignalingError::EnvelopeDecode(ProtoError::UnknownField("secret-key".into())),
        SignalingError::Payload(PayloadError::Proto(ProtoError::UnknownField(
            "secret-key".into(),
        ))),
        SignalingError::BadSubject(subject.to_string()),
        SignalingError::SubjectMismatch { subject: subject.to_string() },
    ];
    for e in &leaky {
        let plain = e.to_string();
        let redacted = e.redacted().to_string();
        assert_ne!(plain, redacted, "{plain}");
        assert!(!redacted.contains("secret-key"), "{redacted}");
        assert!(!redacted.contains(subject), "{redacted}");
    }

    for safe in [
        SignalingError::Envelope("signature does not verify".to_string()),
        SignalingError::BadEphPk(17),
        SignalingError::Denied,
        SignalingError::Nats("connection reset".to_string()),
        SignalingError::Payload(PayloadError::TooLong { field: "ufrag", max: 8, actual: 9 }),
    ] {
        assert_eq!(safe.to_string(), safe.redacted().to_string());
    }
}

#[test]
fn redacted_display_withholds_quic_close_reasons_but_keeps_the_code() {
    let reason = "attacker-controlled close reason\nwith a forged log line";
    let application_closed =
        SignalingError::Quic(QuicError::Connection(ConnectionFault::ApplicationClosed {
            code: 42,
            reason: reason.as_bytes().to_vec(),
        }));
    let connection_closed =
        SignalingError::Quic(QuicError::Connection(ConnectionFault::ConnectionClosed {
            code: quinn::TransportErrorCode::PROTOCOL_VIOLATION.to_string(),
            reason: reason.as_bytes().to_vec(),
        }));

    for e in [&application_closed, &connection_closed] {
        let plain = e.to_string();
        let redacted = e.redacted().to_string();
        assert_ne!(plain, redacted, "{plain}");
        assert!(!redacted.contains(reason), "{redacted}");
        assert!(!redacted.contains('\n'), "{redacted}");
    }

    assert!(application_closed.redacted().to_string().contains("42"));
    assert!(connection_closed.redacted().to_string().contains("protocol compliance"));
}

#[test]
fn redacted_messages_show_the_size_alone() {
    let a = SignalingError::BadSubject("host.first".to_string());
    let b = SignalingError::BadSubject("host.other".to_string());
    assert_eq!(
        a.redacted().to_string(),
        "malformed session subject (withheld: 10 bytes)"
    );
    assert_eq!(a.redacted().to_string(), b.redacted().to_string());
}

#[test]
fn signaling_messages() {
    let cases = [
        (SignalingError::Envelope("stale".to_string()), "envelope rejected: stale"),
        (SignalingError::MissingEphPk, "envelope is missing the required eph_pk field"),
        (SignalingError::BadEphPk(31), "eph_pk must be exactly 32 bytes, got 31"),
        (
            SignalingError::BadReplyPrefix,
            "reply subject missing or does not start with the required _INBOX_<from_fp>. prefix",
        ),
        (
            SignalingError::ReplyInboxMismatch,
            "offer's signed inbox does not match the NATS reply subject",
        ),
        (SignalingError::HostOffline, "host is offline: no responders on the connect subject"),
        (
            SignalingError::SubjectMismatch { subject: "a\nb".to_string() },
            "subject \"a\\nb\" does not match the expected session (host/client/sid/direction)",
        ),
        (SignalingError::BadSubject("x.y".to_string()), "malformed session subject \"x.y\""),
        (
            SignalingError::UnsupportedTransport(Transport::WebRtc),
            "unsupported transport WebRtc (this crate only implements Transport::Quic)",
        ),
        (SignalingError::Timeout("connect answer"), "connect answer timed out"),
        (SignalingError::Nats("gone".to_string()), "NATS error: gone"),
        (SignalingError::Io("no entropy".to_string()), "I/O error: no entropy"),
        (SignalingError::Ice("closed".to_string()), "ICE agent error: closed"),
        (
            SignalingError::EnvelopeDecode(ProtoError::MissingField("sig")),
            "envelope decode failed: missing required field `sig`",
        ),
    ];
    for (error, message) in cases {
        assert_eq!(error.to_string(), message);
    }
    assert!(SignalingError::Fingerprint(FingerprintError { actual: 31 })
        .to_string()
        .contains("31"));
}

#[test]
fn close_reasons_are_shown_as_text() {
    let closed = |reason: &[u8]| ConnectionFault::ApplicationClosed {
        code: 7,
        reason: reason.to_vec(),
    };
    assert_eq!(closed(b"").to_string(), "closed by peer: 7");
    assert_eq!(closed(b"bye").to_string(), "closed by peer: bye (code 7)");
    assert_eq!(closed(&[0x62, 0xff]).to_string(), "closed by peer: b\u{fffd} (code 7)");
}

#[test]
fn decoder_errors_are_redacted_to_themselves() {
    let e = ProtoError::Cbor(CborError::TrailingBytes { offset: 4 });
    assert_eq!(e.to_string(), e.redacted().to_string());
    let unknown = ProtoError::UnknownField("peer-chosen".to_string());
    assert!(unknown.to_string().contains("peer-chosen"));
    assert!(!unknown.redacted().to_string().contains("peer-chosen"));
    assert!(unknown.redacted().to_string().contains("11"));
}

#[test]
fn what_a_peer_chose_is_shown_as_given() {
    let closed = ConnectionFault::ApplicationClosed { code: 7, reason: vec![0xff] };
    assert_eq!(closed.to_string_showing("?"), "closed by peer: ? (code 7)");
    assert_eq!(closed.to_string(), "closed by peer: \u{fffd} (code 7)");
    let aborted = ConnectionFault::ConnectionClosed {
        code: "PROTOCOL_VIOLATION".to_string(),
        reason: b"bye".to_vec(),
    };
    assert_eq!(aborted.to_string_showing("?"), "aborted by peer: PROTOCOL_VIOLATION: ?");
    assert_eq!(aborted.to_string(), "aborted by peer: PROTOCOL_VIOLATION: bye");
    let bad = SignalingError::BadSubject("a\tb".to_string());
    assert_eq!(bad.to_string_showing("x"), "malformed session subject x");
    assert_eq!(bad.to_string(), "malformed session subject \"a\\tb\"");
}
