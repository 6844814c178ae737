//! The offer, answer and candidate payloads.
use spindle::proto::artifacts::ProtoError;
use spindle::proto::canonical::{canonical_encode, CborError, CborValue};
use spindle::proto::signaling::{
    AnswerPayload, IcePayload, OfferPayload, SignalingError, Transport, CERT_FP_LEN, KIND_ANSWER,
    KIND_ICE, KIND_OFFER, MAX_CANDIDATE_LEN, MAX_INBOX_LEN, MAX_PWD_LEN, MAX_UFRAG_LEN,
};

fn fp(byte: u8) -> [u8; CERT_FP_LEN] {
    [byte; CERT_FP_LEN]
}

fn sample_offer() -> OfferPayload {
    OfferPayload {
        inbox: "_INBOX_abc123.x".to_string(),
        transport: Transport::Quic,
        ufrag: "clientufrag1".to_string(),
        pwd: "clientpassword1234567890ab".to_string(),
        cert_fp: fp(0x11),
    }
}

fn sample_answer() -> AnswerPayload {
    AnswerPayload {
        transport: Transport::WebRtc,
        ufrag: "hostufrag1".to_string(),
        pwd: "hostpassword1234567890abcd".to_string(),
        cert_fp: fp(0x22),
        member_cap: None,
    }
}

#[test]
fn offer_round_trips_both_transports() {
    for transport in [Transport::Quic, Transport::WebRtc] {
        let offer = OfferPayload {
            transport,
            ..sample_offer()
        };
        let bytes = offer.to_canonical_bytes();
        let decoded = OfferPayload::from_canonical_bytes(&bytes).expect("decode");
        assert_eq!(decoded, offer);
        assert_eq!(decoded.to_canonical_bytes(), bytes);
    }
}

#[test]
fn answer_round_trips_both_transports() {
    for transport in [Transport::Quic, Transport::WebRtc] {
        let answer = AnswerPayload {
            transport,
            ..sample_answer()
        };
        let bytes = answer.to_canonical_bytes();
        let decoded = AnswerPayload::from_canonical_bytes(&bytes).expect("decode");
        assert_eq!(decoded, answer);
        assert_eq!(decoded.to_canonical_bytes(), bytes);
    }
}

#[test]
fn ice_round_trips_a_real_candidate() {
    let ice = IcePayload {
        candidate: Some("candidate:1 1 UDP 2130706431 10.0.0.1 54321 typ host".to_string()),
        end_of_candidates: false,
    };
    let bytes = ice.to_canonical_bytes();
    let decoded = IcePayload::from_canonical_bytes(&bytes).expect("decode");
    assert_eq!(decoded, ice);
    assert_eq!(decoded.to_canonical_bytes(), bytes);
}

#[test]
fn ice_round_trips_end_of_candidates_marker() {
    let ice = IcePayload {
        candidate: None,
        end_of_candidates: true,
    };
    let bytes = ice.to_canonical_bytes();
    let decoded = IcePayload::from_canonical_bytes(&bytes).expect("decode");
    assert_eq!(decoded, ice);
    assert_eq!(decoded.to_canonical_bytes(), bytes);
    if let CborValue::Mapping(entries) = ice.to_cbor() {
        assert_eq!(entries.len(), 1);
        assert_eq!(entries[0].0.as_text(), Some("end_of_candidates"));
    } else {
        panic!("expected a map");
    }
}

#[test]
fn ice_round_trips_neither_and_both_combinations() {
    for (candidate, end_of_candidates) in [
        (None, false),
        (
            Some("candidate:1 1 UDP 1 10.0.0.1 1 typ host".to_string()),
            true,
        ),
    ] {
        let ice = IcePayload {
            candidate,
            end_of_candidates,
        };
        let bytes = ice.to_canonical_bytes();
        let decoded = IcePayload::from_canonical_bytes(&bytes).expect("decode");
        assert_eq!(decoded, ice);
    }
}

#[test]
fn ufrag_and_pwd_accept_exactly_the_cap_and_reject_one_over() {
    let ok_ufrag = "u".repeat(MAX_UFRAG_LEN);
    let offer = OfferPayload {
        ufrag: ok_ufrag.clone(),
        ..sample_offer()
    };
    assert!(OfferPayload::from_canonical_bytes(&offer.to_canonical_bytes()).is_ok());

    let too_long_ufrag = "u".repeat(MAX_UFRAG_LEN + 1);
    let offer = OfferPayload {
        ufrag: too_long_ufrag,
        ..sample_offer()
    };
    let err = OfferPayload::from_canonical_bytes(&offer.to_canonical_bytes()).unwrap_err();
    assert_eq!(
        err,
        SignalingError::TooLong {
            field: "ufrag",
            max: MAX_UFRAG_LEN,
            actual: MAX_UFRAG_LEN + 1,
        }
    );

    let ok_pwd = "p".repeat(MAX_PWD_LEN);
    let answer = AnswerPayload {
        pwd: ok_pwd,
        ..sample_answer()
    };
    assert!(AnswerPayload::from_canonical_bytes(&answer.to_canonical_bytes()).is_ok());

    let too_long_pwd = "p".repeat(MAX_PWD_LEN + 1);
    let answer = AnswerPayload {
        pwd: too_long_pwd,
        ..sample_answer()
    };
    let err = AnswerPayload::from_canonical_bytes(&answer.to_canonical_bytes()).unwrap_err();
    assert_eq!(
        err,
        SignalingError::TooLong {
            field: "pwd",
            max: MAX_PWD_LEN,
            actual: MAX_PWD_LEN + 1,
        }
    );
}

#[test]
fn candidate_accepts_exactly_the_cap_and_rejects_one_over() {
    let ok = IcePayload {
        candidate: Some("c".repeat(MAX_CANDIDATE_LEN)),
        end_of_candidates: false,
    };
    assert!(IcePayload::from_canonical_bytes(&ok.to_canonical_bytes()).is_ok());

    let too_long = IcePayload {
        candidate: Some("c".repeat(MAX_CANDIDATE_LEN + 1)),
        end_of_candidates: false,
    };
    let err = IcePayload::from_canonical_bytes(&too_long.to_canonical_bytes()).unwrap_err();
    assert_eq!(
        err,
        SignalingError::TooLong {
            field: "candidate",
            max: MAX_CANDIDATE_LEN,
            actual: MAX_CANDIDATE_LEN + 1,
        }
    );
}

#[test]
fn inbox_accepts_exactly_the_cap_and_rejects_one_over() {
    let ok = OfferPayload {
        inbox: "i".repeat(MAX_INBOX_LEN),
        ..sample_offer()
    };
    assert!(OfferPayload::from_canonical_bytes(&ok.to_canonical_bytes()).is_ok());

    let too_long = OfferPayload {
        inbox: "i".repeat(MAX_INBOX_LEN + 1),
        ..sample_offer()
    };
    let err = OfferPayload::from_canonical_bytes(&too_long.to_canonical_bytes()).unwrap_err();
    assert_eq!(
        err,
        SignalingError::TooLong {
            field: "inbox",
            max: MAX_INBOX_LEN,
            actual: MAX_INBOX_LEN + 1,
        }
    );
}

#[test]
fn rejects_unknown_field_on_offer() {
    let mut cbor = sample_offer().to_cbor();
    if let CborValue::Mapping(entries) = &mut cbor {
        entries.push((CborValue::text("bogus"), CborValue::uint(1)));
    }
    let bytes = canonical_encode(&cbor);
    let err = OfferPayload::from_canonical_bytes(&bytes).unwrap_err();
    assert_eq!(
        err,
        SignalingError::Proto(ProtoError::UnknownField("bogus".to_string()))
    );
}

#[test]
fn rejects_unknown_field_on_ice() {
    let mut cbor = IcePayload {
        candidate: None,
        end_of_candidates: true,
    }
    .to_cbor();
    if let CborValue::Mapping(entries) = &mut cbor {
        entries.push((CborValue::text("bogus"), CborValue::uint(1)));
    }
    let bytes = canonical_encode(&cbor);
    let err = IcePayload::from_canonical_bytes(&bytes).unwrap_err();
    assert_eq!(
        err,
        SignalingError::Proto(ProtoError::UnknownField("bogus".to_string()))
    );
}

#[test]
fn signaling_rejects_missing_required_field() {
    let cbor = CborValue::map(vec![
        ("transport", Transport::Quic.to_cbor()),
        ("ufrag", CborValue::text("u")),
        ("pwd", CborValue::text("p")),
    ]);
    let bytes = canonical_encode(&cbor);
    let err = AnswerPayload::from_canonical_bytes(&bytes).unwrap_err();
    assert_eq!(
        err,
        SignalingError::Proto(ProtoError::MissingField("cert_fp"))
    );
}

fn lengthen_uint_after_key(bytes: &[u8], key: &str) -> Vec<u8> {
    let key_bytes = canonical_encode(&CborValue::text(key));
    let pos = bytes
        .windows(key_bytes.len())
        .position(|w| w == key_bytes.as_slice())
        .expect("key not found in encoded bytes");
    let value_pos = pos + key_bytes.len();
    let value = bytes[value_pos];
    assert!(value < 24, "helper only supports an inline-form uint value");
    let mut out = bytes[..value_pos].to_vec();
    out.push(0x18);
    out.push(value);
    out.extend_from_slice(&bytes[value_pos + 1..]);
    out
}

#[test]
fn signaling_rejects_non_canonical_encoding() {
    let answer = sample_answer();
    let canonical_bytes = answer.to_canonical_bytes();
    let mutated = lengthen_uint_after_key(&canonical_bytes, "transport");
    let err = AnswerPayload::from_canonical_bytes(&mutated).unwrap_err();
    assert!(matches!(
        err,
        SignalingError::Proto(ProtoError::Cbor(CborError::NonShortestForm { .. }))
    ));
}

#[test]
fn rejects_bad_transport_discriminant() {
    let cbor = CborValue::map(vec![
        ("inbox", CborValue::text("x")),
        ("transport", CborValue::uint(99)),
        ("ufrag", CborValue::text("u")),
        ("pwd", CborValue::text("p")),
        ("cert_fp", CborValue::bytes(fp(0).to_vec())),
    ]);
    let bytes = canonical_encode(&cbor);
    let err = OfferPayload::from_canonical_bytes(&bytes).unwrap_err();
    assert_eq!(
        err,
        SignalingError::Proto(ProtoError::InvalidEnumValue("transport", 99))
    );
}

#[test]
fn rejects_wrong_type_for_cert_fp() {
    let cbor = CborValue::map(vec![
        ("transport", Transport::Quic.to_cbor()),
        ("ufrag", CborValue::text("u")),
        ("pwd", CborValue::text("p")),
        ("cert_fp", CborValue::text("not-bytes")),
    ]);
    let bytes = canonical_encode(&cbor);
    let err = AnswerPayload::from_canonical_bytes(&bytes).unwrap_err();
    assert_eq!(err, SignalingError::Proto(ProtoError::WrongType("cert_fp")));
}

#[test]
fn rejects_wrong_length_cert_fp() {
    let cbor = CborValue::map(vec![
        ("transport", Transport::Quic.to_cbor()),
        ("ufrag", CborValue::text("u")),
        ("pwd", CborValue::text("p")),
        ("cert_fp", CborValue::bytes(vec![0xaa; 31])),
    ]);
    let bytes = canonical_encode(&cbor);
    let err = AnswerPayload::from_canonical_bytes(&bytes).unwrap_err();
    assert_eq!(
        err,
        SignalingError::WrongLength {
            field: "cert_fp",
            expected: CERT_FP_LEN,
            actual: 31,
        }
    );
}

#[test]
fn kind_constants_match_the_spike() {
    assert_eq!(KIND_OFFER, 1);
    assert_eq!(KIND_ANSWER, 2);
    assert_eq!(KIND_ICE, 3);
}

#[test]
fn transport_discriminants_are_stable() {
    assert_eq!(Transport::Quic as u64, 0);
    assert_eq!(Transport::WebRtc as u64, 1);
}
