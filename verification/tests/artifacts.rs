//! The signed artifacts: round trips, closed schemas and signing inputs.
use spindle::proto::artifacts::{
    AdminCommand, AdmissionToken, CapKind, Capability, DeviceCertificate, Envelope, HostDeviceCert,
    HostOpKeyCert, ProtoError, RevocationRecord,
};
use spindle::proto::canonical::{canonical_encode, CborValue};
use spindle::proto::tags;

fn fp(byte: u8) -> Vec<u8> {
    vec![byte; 32]
}
fn sig(byte: u8) -> Vec<u8> {
    vec![byte; 64]
}

fn sample_envelope(with_eph_pk: bool) -> Envelope {
    Envelope {
        v: 1,
        alg_id: 1,
        from_fp: fp(0x11),
        to_fp: fp(0x22),
        sid: vec![0xaa; 16],
        kind: 2,
        seq: 42,
        ts: 1_755_907_200,
        eph_pk: if with_eph_pk { Some(vec![0xbb; 32]) } else { None },
        ciphertext: vec![1, 2, 3, 4],
        sig: sig(0x99),
    }
}

#[test]
fn envelope_round_trip_with_and_without_eph_pk() {
    for with_eph in [true, false] {
        let env = sample_envelope(with_eph);
        let bytes = env.to_canonical_bytes();
        let decoded = Envelope::from_canonical_bytes(&bytes).expect("decode");
        assert_eq!(decoded, env);
        assert_eq!(decoded.to_canonical_bytes(), bytes);
    }
}

#[test]
fn envelope_signing_input_is_tag_header_ciphertext() {
    let env = sample_envelope(true);
    let expected = {
        let mut v = Vec::new();
        v.extend_from_slice(&tags::ENVELOPE_V1);
        v.extend_from_slice(&env.header_canonical_bytes());
        v.extend_from_slice(&env.ciphertext);
        v
    };
    assert_eq!(env.signing_input(), expected);
}

#[test]
fn envelope_rejects_unknown_field() {
    let env = sample_envelope(false);
    let mut entries = env.header_entries();
    entries.push(("ciphertext", CborValue::bytes(env.ciphertext.clone())));
    entries.push(("sig", CborValue::bytes(env.sig.clone())));
    entries.push(("bogus", CborValue::uint(0)));
    let bytes = canonical_encode(&CborValue::map(entries));
    let err = Envelope::from_canonical_bytes(&bytes).unwrap_err();
    assert_eq!(err, ProtoError::UnknownField("bogus".to_string()));
}

#[test]
fn envelope_rejects_missing_field() {
    let env = sample_envelope(false);
    let mut entries = env.header_entries();
    entries.push(("sig", CborValue::bytes(env.sig.clone())));
    let bytes = canonical_encode(&CborValue::map(entries));
    let err = Envelope::from_canonical_bytes(&bytes).unwrap_err();
    assert_eq!(err, ProtoError::MissingField("ciphertext"));
}

fn sample_capability(kind: CapKind) -> Capability {
    Capability {
        v: 1,
        host_fp: fp(0x33),
        host_root_pk: vec![0x44; 32],
        op_cert: vec![0x45; 96],
        kind,
        subject: fp(0x55),
        cap_epoch: 7,
        exp: 1_756_000_000,
        nonce: vec![0x66; 16],
        sig: sig(0x77),
    }
}

#[test]
fn capability_round_trip_both_kinds() {
    for kind in [CapKind::Invite, CapKind::Member] {
        let cap = sample_capability(kind);
        let bytes = cap.to_canonical_bytes();
        let decoded = Capability::from_canonical_bytes(&bytes).expect("decode");
        assert_eq!(decoded, cap);
        assert_eq!(decoded.to_canonical_bytes(), bytes);
    }
}

#[test]
fn capability_rejects_invalid_enum_value() {
    let cap = sample_capability(CapKind::Invite);
    let mut entries = cap.unsigned_entries();
    entries.retain(|(k, _)| *k != "kind");
    entries.push(("kind", CborValue::uint(2)));
    entries.push(("sig", CborValue::bytes(cap.sig.clone())));
    let bytes = canonical_encode(&CborValue::map(entries));
    let err = Capability::from_canonical_bytes(&bytes).unwrap_err();
    assert_eq!(err, ProtoError::InvalidEnumValue("kind", 2));
}

#[test]
fn admission_token_round_trip() {
    let tok = AdmissionToken {
        nonce: vec![0x01; 16],
        exp: 1_756_500_000,
        label: "workshop-nas".to_string(),
        quota_profile: "default".to_string(),
        sig_operator: sig(0x02),
    };
    let bytes = tok.to_canonical_bytes();
    let decoded = AdmissionToken::from_canonical_bytes(&bytes).expect("decode");
    assert_eq!(decoded, tok);
    assert_eq!(decoded.to_canonical_bytes(), bytes);
}

#[test]
fn device_certificate_round_trip_and_no_label_field() {
    let cert = DeviceCertificate {
        device_fp: fp(0x10),
        alg_id: 1,
        sign_pk: vec![0x12; 32],
        agree_pk: vec![0x13; 32],
        nats_fp: fp(0x20),
        ts: 1_755_900_000,
        exp: 1_787_436_000,
        sig_root: sig(0x30),
    };
    let bytes = cert.to_canonical_bytes();
    let decoded = DeviceCertificate::from_canonical_bytes(&bytes).expect("decode");
    assert_eq!(decoded, cert);

    let mut entries = cert.unsigned_entries();
    entries.push(("label", CborValue::text("my-nas")));
    entries.push(("sig_root", CborValue::bytes(cert.sig_root.clone())));
    let bytes_with_label = canonical_encode(&CborValue::map(entries));
    let err = DeviceCertificate::from_canonical_bytes(&bytes_with_label).unwrap_err();
    assert_eq!(err, ProtoError::UnknownField("label".to_string()));
}

#[test]
fn revocation_record_round_trip() {
    let rec = RevocationRecord {
        host_fp: fp(0x40),
        epoch: 3,
        revoked: vec![fp(0x50), fp(0x60)],
        ts: 1_755_910_000,
        sig: sig(0x70),
    };
    let bytes = rec.to_canonical_bytes();
    let decoded = RevocationRecord::from_canonical_bytes(&bytes).expect("decode");
    assert_eq!(decoded, rec);
    assert_eq!(decoded.to_canonical_bytes(), bytes);
}

#[test]
fn admin_command_round_trip() {
    let cmd = AdminCommand {
        v: 1,
        cmd: "evict_host".to_string(),
        args: CborValue::map(vec![("host_fp", CborValue::bytes(fp(0x80)))]),
        signer_fp: fp(0x90),
        seq: 5,
        nonce: vec![0xa0; 16],
        ts: 1_755_920_000,
        sig: sig(0xb0),
    };
    let bytes = cmd.to_canonical_bytes();
    let decoded = AdminCommand::from_canonical_bytes(&bytes).expect("decode");
    assert_eq!(decoded, cmd);
    assert_eq!(decoded.to_canonical_bytes(), bytes);
}

#[test]
fn host_op_key_cert_round_trip() {
    let cert = HostOpKeyCert {
        host_op_pk: vec![0xc0; 32],
        nats_fp: fp(0xd0),
        ts: 1_755_930_000,
        exp: 1_763_706_000,
        sig_host_root: sig(0xe0),
    };
    let bytes = cert.to_canonical_bytes();
    let decoded = HostOpKeyCert::from_canonical_bytes(&bytes).expect("decode");
    assert_eq!(decoded, cert);
    assert_eq!(decoded.to_canonical_bytes(), bytes);
}

#[test]
fn host_device_cert_round_trip() {
    let cert = HostDeviceCert {
        host_fp: fp(0xf0),
        host_root_pk: vec![0xf1; 32],
        op_cert: vec![0xf2; 96],
        host_device_fp: fp(0xf3),
        alg_id: 1,
        sign_pk: vec![0xf4; 32],
        agree_pk: vec![0xf5; 32],
        ts: 1_755_940_000,
        exp: 1_763_716_000,
        sig_host_op: sig(0xf6),
    };
    let bytes = cert.to_canonical_bytes();
    let decoded = HostDeviceCert::from_canonical_bytes(&bytes).expect("decode");
    assert_eq!(decoded, cert);
    assert_eq!(decoded.to_canonical_bytes(), bytes);
}

#[test]
fn all_eight_signing_inputs_start_with_distinct_tags() {
    let env = sample_envelope(true);
    let cap = sample_capability(CapKind::Member);
    let tok = AdmissionToken {
        nonce: vec![1],
        exp: 1,
        label: "x".into(),
        quota_profile: "y".into(),
        sig_operator: sig(1),
    };
    let cert = DeviceCertificate {
        device_fp: fp(1),
        alg_id: 1,
        sign_pk: vec![1; 32],
        agree_pk: vec![2; 32],
        nats_fp: fp(2),
        ts: 1,
        exp: 2,
        sig_root: sig(1),
    };
    let rec = RevocationRecord {
        host_fp: fp(1),
        epoch: 1,
        revoked: vec![],
        ts: 1,
        sig: sig(1),
    };
    let admin = AdminCommand {
        v: 1,
        cmd: "x".into(),
        args: CborValue::Null,
        signer_fp: fp(1),
        seq: 1,
        nonce: vec![1],
        ts: 1,
        sig: sig(1),
    };
    let host_cert = HostOpKeyCert {
        host_op_pk: vec![1; 32],
        nats_fp: fp(1),
        ts: 1,
        exp: 2,
        sig_host_root: sig(1),
    };
    let host_device_cert = HostDeviceCert {
        host_fp: fp(1),
        host_root_pk: vec![1; 32],
        op_cert: vec![1; 8],
        host_device_fp: fp(2),
        alg_id: 1,
        sign_pk: vec![1; 32],
        agree_pk: vec![2; 32],
        ts: 1,
        exp: 2,
        sig_host_op: sig(1),
    };

    let inputs = [
        env.signing_input(),
        cap.signing_input(),
        tok.signing_input(),
        cert.signing_input(),
        rec.signing_input(),
        admin.signing_input(),
        host_cert.signing_input(),
        host_device_cert.signing_input(),
    ];
    let starts = [
        tags::ENVELOPE_V1.as_slice(),
        tags::CAPABILITY_V1.as_slice(),
        tags::ADMISSION_TOKEN_V1.as_slice(),
        tags::DEVICE_CERT_V1.as_slice(),
        tags::REVOCATION_V1.as_slice(),
        tags::ADMIN_COMMAND_V1.as_slice(),
        tags::HOST_OP_KEY_CERT_V1.as_slice(),
        tags::HOST_DEVICE_CERT_V1.as_slice(),
    ];
    for (input, tag) in inputs.iter().zip(starts.iter()) {
        assert!(input.starts_with(tag));
    }
}

#[test]
fn an_admin_signature_covers_arguments_of_any_depth() {
    let command = |innermost: u64, byte: u8| {
        let mut args = CborValue::uint(innermost);
        for _ in 0..100 {
            args = CborValue::array(vec![args]);
        }
        AdminCommand {
            v: 1,
            cmd: "x".to_string(),
            args: CborValue::map(vec![("deep", args), ("flat", CborValue::uint(1))]),
            signer_fp: fp(1),
            seq: 1,
            nonce: vec![1],
            ts: 1,
            sig: sig(byte),
        }
    };
    assert_eq!(command(1, 1).signing_input(), command(1, 2).signing_input());
    assert_ne!(command(1, 1).signing_input(), command(2, 1).signing_input());
    let mut swapped = command(1, 1);
    swapped.args = match swapped.args {
        CborValue::Mapping(mut entries) => {
            entries.reverse();
            CborValue::Mapping(entries)
        }
        other => other,
    };
    assert_eq!(swapped.signing_input(), command(1, 1).signing_input());
}
