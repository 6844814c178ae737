//! The bundle that carries a device to its hosts.
use spindle::proto::artifacts::{CapKind, Capability, ProtoError, CAPABILITY_CURRENT_V};
use spindle::proto::bootstrap::{
    BundleEntry, BundleWireError, DeviceBootstrapBundle, BUNDLE_CURRENT_V, BUNDLE_ENTRY_FIELDS,
    MAX_BUNDLE_ENTRIES, MAX_REGISTRY_LEN,
};
use spindle::proto::canonical::{canonical_decode, canonical_encode, CborError, CborValue};

fn sample_capability() -> Capability {
    Capability {
        v: CAPABILITY_CURRENT_V,
        host_fp: vec![0x01; 32],
        host_root_pk: vec![0x02; 32],
        op_cert: vec![0x03; 16],
        kind: CapKind::Member,
        subject: vec![0x04; 32],
        cap_epoch: 7,
        exp: 1_800_000_000,
        nonce: vec![0x05; 16],
        sig: vec![0x06; 64],
    }
}

fn sample_entry(byte: u8) -> BundleEntry {
    BundleEntry {
        sign_pk: vec![byte; 32],
        agree_pk: vec![byte.wrapping_add(1); 32],
        member_cap: sample_capability(),
    }
}

fn sample_bundle() -> DeviceBootstrapBundle {
    DeviceBootstrapBundle {
        v: BUNDLE_CURRENT_V,
        registry: "nats://registry.example:4222".to_string(),
        entries: vec![sample_entry(0x10), sample_entry(0x20)],
    }
}

#[test]
fn bundle_round_trips_with_two_entries() {
    let bundle = sample_bundle();
    let bytes = bundle.to_canonical_bytes();
    let decoded = DeviceBootstrapBundle::from_canonical_bytes(&bytes).expect("decode");
    assert_eq!(decoded, bundle);
    assert_eq!(decoded.to_canonical_bytes(), bytes);
}

#[test]
fn bundle_keys_encode_in_canonical_length_first_order() {
    let bytes = sample_bundle().to_canonical_bytes();
    let decoded = canonical_decode(&bytes).expect("decode cbor");
    if let CborValue::Mapping(entries) = decoded {
        let keys: Vec<&str> = entries.iter().map(|(k, _)| k.as_text().unwrap()).collect();
        assert_eq!(keys, vec!["v", "entries", "registry"]);
    } else {
        panic!("expected a map");
    }
}

#[test]
fn entry_keys_encode_in_canonical_length_first_order() {
    let bytes = sample_entry(0x10).to_canonical_bytes();
    let decoded = canonical_decode(&bytes).expect("decode cbor");
    if let CborValue::Mapping(entries) = decoded {
        let keys: Vec<&str> = entries.iter().map(|(k, _)| k.as_text().unwrap()).collect();
        assert_eq!(keys, vec!["sign_pk", "agree_pk", "member_cap"]);
    } else {
        panic!("expected a map");
    }
}

#[test]
fn bundle_entry_fields_is_exactly_sign_pk_agree_pk_member_cap() {
    assert_eq!(BUNDLE_ENTRY_FIELDS, ["sign_pk", "agree_pk", "member_cap"]);
}

#[test]
fn rejects_entry_with_extra_host_fp_key() {
    let mut cbor = sample_entry(0x10).to_cbor();
    if let CborValue::Mapping(entries) = &mut cbor {
        entries.push((CborValue::text("host_fp"), CborValue::bytes(vec![0u8; 32])));
    }
    let bytes = canonical_encode(&cbor);
    let err = BundleEntry::from_canonical_bytes(&bytes).unwrap_err();
    assert_eq!(
        err,
        BundleWireError::Proto(ProtoError::UnknownField("host_fp".to_string()))
    );
}

#[test]
fn rejects_unknown_field_on_bundle() {
    let mut cbor = sample_bundle().to_cbor();
    if let CborValue::Mapping(entries) = &mut cbor {
        entries.push((CborValue::text("bogus"), CborValue::uint(1)));
    }
    let bytes = canonical_encode(&cbor);
    let err = DeviceBootstrapBundle::from_canonical_bytes(&bytes).unwrap_err();
    assert_eq!(
        err,
        BundleWireError::Proto(ProtoError::UnknownField("bogus".to_string()))
    );
}

#[test]
fn registry_accepts_exactly_the_cap_and_rejects_one_over() {
    let ok = DeviceBootstrapBundle {
        registry: "r".repeat(MAX_REGISTRY_LEN),
        ..sample_bundle()
    };
    assert!(DeviceBootstrapBundle::from_canonical_bytes(&ok.to_canonical_bytes()).is_ok());

    let too_long = DeviceBootstrapBundle {
        registry: "r".repeat(MAX_REGISTRY_LEN + 1),
        ..sample_bundle()
    };
    let err = DeviceBootstrapBundle::from_canonical_bytes(&too_long.to_canonical_bytes())
        .unwrap_err();
    assert_eq!(
        err,
        BundleWireError::RegistryTooLong {
            max: MAX_REGISTRY_LEN,
            actual: MAX_REGISTRY_LEN + 1,
        }
    );
}

#[test]
fn entries_accepts_exactly_the_cap_and_rejects_one_over() {
    let ok_entries: Vec<BundleEntry> =
        (0..MAX_BUNDLE_ENTRIES as u8).map(sample_entry).collect();
    let ok = DeviceBootstrapBundle {
        entries: ok_entries,
        ..sample_bundle()
    };
    assert!(DeviceBootstrapBundle::from_canonical_bytes(&ok.to_canonical_bytes()).is_ok());

    let too_many_entries: Vec<BundleEntry> = (0..MAX_BUNDLE_ENTRIES as u8 + 1)
        .map(sample_entry)
        .collect();
    let too_many = DeviceBootstrapBundle {
        entries: too_many_entries,
        ..sample_bundle()
    };
    let err = DeviceBootstrapBundle::from_canonical_bytes(&too_many.to_canonical_bytes())
        .unwrap_err();
    assert_eq!(
        err,
        BundleWireError::TooManyEntries {
            max: MAX_BUNDLE_ENTRIES,
            actual: MAX_BUNDLE_ENTRIES + 1,
        }
    );
}

#[test]
fn rejects_missing_v() {
    let cbor = CborValue::map(vec![
        ("registry", CborValue::text("nats://x:4222")),
        ("entries", CborValue::array(vec![])),
    ]);
    let bytes = canonical_encode(&cbor);
    let err = DeviceBootstrapBundle::from_canonical_bytes(&bytes).unwrap_err();
    assert_eq!(err, BundleWireError::Proto(ProtoError::MissingField("v")));
}

#[test]
fn rejects_missing_registry() {
    let cbor = CborValue::map(vec![
        ("v", CborValue::uint(1)),
        ("entries", CborValue::array(vec![])),
    ]);
    let bytes = canonical_encode(&cbor);
    let err = DeviceBootstrapBundle::from_canonical_bytes(&bytes).unwrap_err();
    assert_eq!(
        err,
        BundleWireError::Proto(ProtoError::MissingField("registry"))
    );
}

#[test]
fn rejects_missing_entries() {
    let cbor = CborValue::map(vec![
        ("v", CborValue::uint(1)),
        ("registry", CborValue::text("nats://x:4222")),
    ]);
    let bytes = canonical_encode(&cbor);
    let err = DeviceBootstrapBundle::from_canonical_bytes(&bytes).unwrap_err();
    assert_eq!(
        err,
        BundleWireError::Proto(ProtoError::MissingField("entries"))
    );
}

#[test]
fn rejects_wrong_type_for_entries() {
    let cbor = CborValue::map(vec![
        ("v", CborValue::uint(1)),
        ("registry", CborValue::text("nats://x:4222")),
        ("entries", CborValue::bytes(vec![0u8; 4])),
    ]);
    let bytes = canonical_encode(&cbor);
    let err = DeviceBootstrapBundle::from_canonical_bytes(&bytes).unwrap_err();
    assert_eq!(
        err,
        BundleWireError::Proto(ProtoError::WrongType("entries"))
    );
}

#[test]
fn rejects_wrong_type_for_registry() {
    let cbor = CborValue::map(vec![
        ("v", CborValue::uint(1)),
        ("registry", CborValue::bytes(vec![0u8; 4])),
        ("entries", CborValue::array(vec![])),
    ]);
    let bytes = canonical_encode(&cbor);
    let err = DeviceBootstrapBundle::from_canonical_bytes(&bytes).unwrap_err();
    assert_eq!(
        err,
        BundleWireError::Proto(ProtoError::WrongType("registry"))
    );
}

fn lengthen_uint_after_key(bytes: &[u8], key: &str) -> Vec<u8> {
    let key_bytes = canonical_encode(&CborValue::text(key));
    let pos = bytes
        .windows(key_bytes.len())
        .position(|w| w == key_bytes.as_slice())
        .expect("key not found in encoded bytes");
    let value_pos = pos + key_bytes.len();
    let value = bytes[value_pos];
    assert!(value < 24, "helper only supports an inline-form uint value");
    let mut out = bytes[..value_pos].to_vec();
    out.push(0x18);
    out.push(value);
    out.extend_from_slice(&bytes[value_pos + 1..]);
    out
}

#[test]
fn bootstrap_rejects_non_canonical_encoding() {
    let bundle = DeviceBootstrapBundle {
        v: BUNDLE_CURRENT_V,
        registry: "nats://x:4222".to_string(),
        entries: vec![],
    };
    let canonical_bytes = bundle.to_canonical_bytes();
    let mutated = lengthen_uint_after_key(&canonical_bytes, "v");
    let err = DeviceBootstrapBundle::from_canonical_bytes(&mutated).unwrap_err();
    assert!(matches!(
        err,
        BundleWireError::Proto(ProtoError::Cbor(CborError::NonShortestForm { .. }))
    ));
}

#[test]
fn redacted_display_withholds_an_unknown_field_name_and_nothing_else() {
    let leaky = BundleWireError::Proto(ProtoError::UnknownField("secret_key_name".to_string()));
    assert!(leaky.to_string().contains("secret_key_name"));
    let redacted = leaky.redacted().to_string();
    assert!(!redacted.contains("secret_key_name"), "{redacted}");

    let safe_variants = [
        BundleWireError::Proto(ProtoError::InvalidEnumValue("kind", 9)),
        BundleWireError::RegistryTooLong {
            max: MAX_REGISTRY_LEN,
            actual: MAX_REGISTRY_LEN + 1,
        },
        BundleWireError::TooManyEntries {
            max: MAX_BUNDLE_ENTRIES,
            actual: MAX_BUNDLE_ENTRIES + 1,
        },
    ];
    for safe in safe_variants {
        assert_eq!(safe.to_string(), safe.redacted().to_string());
    }
}
