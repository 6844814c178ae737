//! Laws and edge cases of the wire types.
use spindle::proto::artifacts::{
    AdminCommand, CapKind, Capability, DeviceCertificate, Envelope, ProtoError,
};
use spindle::proto::bootstrap::DeviceBootstrapBundle;
use spindle::proto::canonical::{canonical_decode, canonical_encode, CborError, CborValue};
use spindle::proto::signaling::{IcePayload, OfferPayload, Transport};
use spindle::proto::vfs_rpc::{VfsPerms, VfsReply, VfsRequest, VfsRequestEnvelope};

#[test]
fn each_violation_has_its_error_and_place() {
    let cases: [(&[u8], CborError); 9] = [
        (&[], CborError::UnexpectedEof { offset: 0 }),
        (&[0x42, 0x01], CborError::UnexpectedEof { offset: 1 }),
        (&[0x5f], CborError::IndefiniteLength { offset: 0 }),
        (&[0x81, 0x1c], CborError::ReservedAdditionalInfo { offset: 1 }),
        (&[0xf9, 0x00, 0x00], CborError::FloatNotAllowed { offset: 0 }),
        (&[0xc1, 0x00], CborError::TagNotAllowed { offset: 0 }),
        (&[0xf7], CborError::SimpleNotAllowed { offset: 0 }),
        (&[0x61, 0xff], CborError::InvalidUtf8 { offset: 1 }),
        (&[0x00, 0x01], CborError::TrailingBytes { offset: 1 }),
    ];
    for (bytes, error) in cases {
        assert_eq!(canonical_decode(bytes), Err(error), "{bytes:?}");
    }
    assert_eq!(
        CborError::TrailingBytes { offset: 12 }.to_string(),
        "trailing bytes after top-level item (offset 12)"
    );
}

#[test]
fn negative_integers_and_long_strings_round_trip() {
    let long = CborValue::Text("x".repeat(300));
    for value in [CborValue::NegInt(0), CborValue::NegInt(u64::MAX), long] {
        assert_eq!(canonical_decode(&canonical_encode(&value)), Ok(value));
    }
    assert_eq!(canonical_encode(&CborValue::NegInt(499)), vec![0x39, 0x01, 0xf3]);
}

#[test]
fn entries_in_another_order_are_the_same_value_and_the_same_bytes() {
    let one = CborValue::map(vec![("b", CborValue::Null), ("aa", CborValue::Bool(true))]);
    let other = CborValue::map(vec![("aa", CborValue::Bool(true)), ("b", CborValue::Null)]);
    assert_eq!(one, other);
    assert_eq!(canonical_encode(&one), canonical_encode(&other));
    assert_ne!(one, CborValue::map(vec![("b", CborValue::Null)]));
}

#[test]
fn what_is_decoded_is_encoded_to_the_same_bytes() {
    for bytes in [
        vec![0xa2, 0x61, 0x61, 0x80, 0x61, 0x62, 0xa0],
        vec![0x82, 0x20, 0x43, 1, 2, 3],
        vec![0x63, 0xe2, 0x82, 0xac],
    ] {
        let value = canonical_decode(&bytes).expect("canonical");
        assert_eq!(canonical_encode(&value), bytes);
    }
}

#[test]
fn an_artifact_that_is_no_record_is_refused() {
    assert_eq!(Envelope::from_canonical_bytes(&[0x80]), Err(ProtoError::NotAMap));
    let keyed_by_number = [0xa1, 0x01, 0x02];
    assert_eq!(
        Envelope::from_canonical_bytes(&keyed_by_number),
        Err(ProtoError::KeyNotText)
    );
    assert_eq!(
        Envelope::from_canonical_bytes(&[0xff]),
        Err(ProtoError::Cbor(CborError::IndefiniteLength { offset: 0 }))
    );
}

fn certificate() -> DeviceCertificate {
    DeviceCertificate {
        device_fp: vec![1; 32],
        alg_id: 1,
        sign_pk: vec![2; 32],
        agree_pk: vec![3; 32],
        nats_fp: vec![4; 32],
        ts: 5,
        exp: 6,
        sig_root: vec![7; 64],
    }
}

#[test]
fn fields_of_the_wrong_type_or_range_are_refused() {
    let with = |name: &'static str, value: CborValue| {
        let mut entries: Vec<(&'static str, CborValue)> = certificate()
            .unsigned_entries()
            .into_iter()
            .filter(|(k, _)| *k != name)
            .collect();
        entries.push(("sig_root", CborValue::bytes(vec![7u8; 64])));
        entries.push((name, value));
        DeviceCertificate::from_canonical_bytes(&canonical_encode(&CborValue::map(entries)))
    };
    assert_eq!(with("ts", CborValue::text("5")), Err(ProtoError::WrongType("ts")));
    assert_eq!(
        with("alg_id", CborValue::uint(256)),
        Err(ProtoError::IntOutOfRange("alg_id"))
    );
    assert_eq!(with("alg_id", CborValue::uint(1)), Ok(certificate()));
}

#[test]
fn a_signature_covers_all_but_itself() {
    let cert = certificate();
    let resigned = DeviceCertificate { sig_root: vec![8; 64], ..cert.clone() };
    assert_eq!(cert.signing_input(), resigned.signing_input());
    let later = DeviceCertificate { exp: 7, ..cert.clone() };
    assert_ne!(cert.signing_input(), later.signing_input());
}

#[test]
fn the_end_of_an_envelope_header_shows() {
    let env = Envelope {
        v: 1,
        alg_id: 1,
        from_fp: vec![1; 32],
        to_fp: vec![2; 32],
        sid: vec![3; 16],
        kind: 1,
        seq: 0,
        ts: 9,
        eph_pk: None,
        ciphertext: vec![4, 5],
        sig: vec![],
    };
    let other = Envelope { ciphertext: vec![5], ..env.clone() };
    assert_ne!(env.signing_input(), other.signing_input());
    assert!(env.signing_input().ends_with(&[4, 5]));
}

#[test]
fn arguments_of_a_command_come_back_sorted() {
    let command = AdminCommand {
        v: 1,
        cmd: "set".to_string(),
        args: CborValue::map(vec![("bb", CborValue::uint(1)), ("a", CborValue::uint(2))]),
        signer_fp: vec![1; 32],
        seq: 1,
        nonce: vec![2; 16],
        ts: 3,
        sig: vec![4; 64],
    };
    let decoded = AdminCommand::from_canonical_bytes(&command.to_canonical_bytes()).expect("ok");
    assert_eq!(decoded, command);
    match decoded.args {
        CborValue::Mapping(entries) => assert_eq!(entries[0].0.as_text(), Some("a")),
        other => panic!("expected a map, got {other:?}"),
    }
}

#[test]
fn a_capability_is_one_of_two_kinds() {
    for (kind, code) in [(CapKind::Invite, 0u8), (CapKind::Member, 1u8)] {
        let cap = Capability {
            v: 1,
            host_fp: vec![],
            host_root_pk: vec![],
            op_cert: vec![],
            kind,
            subject: vec![],
            cap_epoch: 0,
            exp: 0,
            nonce: vec![],
            sig: vec![],
        };
        let bytes = cap.to_canonical_bytes();
        let key = canonical_encode(&CborValue::text("kind"));
        let at = bytes.windows(key.len()).position(|w| w == key.as_slice()).expect("kind");
        assert_eq!(bytes[at + key.len()], code);
    }
}

#[test]
fn permissions_are_a_set_of_four() {
    let all = VfsPerms::browse()
        .union(VfsPerms::download())
        .union(VfsPerms::upload())
        .union(VfsPerms::delete());
    assert_eq!(all.bits(), 0b1111);
    assert!(all.contains(VfsPerms::upload()));
    assert!(all.contains(VfsPerms::none()));
    assert!(!VfsPerms::browse().contains(VfsPerms::delete()));
    assert_eq!(VfsPerms::from_bits_truncate_checked(16), None);
    assert_eq!(VfsPerms::from_bits_truncate_checked(15), Some(all));
}

#[test]
fn fields_of_another_operation_are_refused() {
    let stat = VfsRequestEnvelope { v: 1, request: VfsRequest::Stat { path: "a".to_string() } };
    let mut value = stat.to_cbor();
    if let CborValue::Mapping(entries) = &mut value {
        entries.push((CborValue::text("offset"), CborValue::uint(1)));
    }
    assert_eq!(
        VfsRequestEnvelope::from_canonical_bytes(&canonical_encode(&value)),
        Err(ProtoError::UnknownField("offset".to_string()))
    );
    let mkdir = canonical_encode(&VfsReply::Mkdir.to_cbor());
    assert_eq!(VfsReply::from_canonical_bytes(&mkdir), Ok(VfsReply::Mkdir));
}

#[test]
fn an_absent_field_is_left_out() {
    let list = VfsRequestEnvelope {
        v: 1,
        request: VfsRequest::List { path: "a".to_string(), cursor: None, limit: None },
    };
    match list.to_cbor() {
        CborValue::Mapping(entries) => assert_eq!(entries.len(), 3),
        other => panic!("expected a map, got {other:?}"),
    }
}

#[test]
fn two_payloads_have_two_encodings() {
    let a = IcePayload { candidate: None, end_of_candidates: false };
    let b = IcePayload { candidate: Some(String::new()), end_of_candidates: false };
    assert_ne!(a.to_canonical_bytes(), b.to_canonical_bytes());
}

#[test]
fn lengths_are_counted_in_bytes() {
    let offer = OfferPayload {
        inbox: "\u{20ac}".repeat(100),
        transport: Transport::Quic,
        ufrag: "u".to_string(),
        pwd: "p".to_string(),
        cert_fp: [0; 32],
    };
    let r = OfferPayload::from_canonical_bytes(&offer.to_canonical_bytes());
    assert_eq!(
        r.expect_err("300 bytes").to_string(),
        "field `inbox` is 300 bytes long, exceeding the 256-byte cap"
    );
}

#[test]
fn an_empty_bundle_is_a_bundle() {
    let bundle = DeviceBootstrapBundle {
        v: 1,
        registry: String::new(),
        entries: vec![],
    };
    assert_eq!(
        DeviceBootstrapBundle::from_canonical_bytes(&bundle.to_canonical_bytes()),
        Ok(bundle)
    );
}
