//! Connect tokens, event logs and server advisories.
use sha2::{Digest, Sha256};
use spindle::fixtures::auth::{device_auth_token, host_auth_token, nats_fp, nats_fp_of_nkey};
use spindle::fixtures::events::{assert_no_permission_violation, complain};
use spindle::fixtures::tinyjson::{parse, Json};
use spindle::proto::artifacts::{CapKind, Capability, DeviceCertificate, HostOpKeyCert};
use spindle::proto::canonical::{canonical_decode, CborValue};

fn device_cert() -> DeviceCertificate {
    DeviceCertificate {
        device_fp: vec![1; 32],
        alg_id: 1,
        sign_pk: vec![2; 32],
        agree_pk: vec![3; 32],
        nats_fp: vec![4; 32],
        ts: 5,
        exp: 6,
        sig_root: vec![7; 64],
    }
}

fn op_cert() -> HostOpKeyCert {
    HostOpKeyCert {
        host_op_pk: vec![1; 32],
        nats_fp: vec![2; 32],
        ts: 3,
        exp: 4,
        sig_host_root: vec![5; 64],
    }
}

fn capability(epoch: u64) -> Capability {
    Capability {
        v: 1,
        host_fp: vec![1; 32],
        host_root_pk: vec![2; 32],
        op_cert: vec![3; 16],
        kind: CapKind::Member,
        subject: vec![4; 32],
        cap_epoch: epoch,
        exp: 9,
        nonce: vec![5; 16],
        sig: vec![6; 64],
    }
}

fn token_bytes(token: &str) -> Vec<u8> {
    base64::Engine::decode(&base64::engine::general_purpose::URL_SAFE_NO_PAD, token)
        .expect("base64")
}

fn field<'a>(value: &'a CborValue, name: &str) -> &'a CborValue {
    let entries = value.as_map().expect("a map");
    &entries.iter().find(|(k, _)| k.as_text() == Some(name)).expect(name).1
}

#[test]
fn a_device_token_holds_the_chain_and_the_capabilities() {
    let token = device_auth_token(&[8; 32], &device_cert(), &[9, 10], &[capability(1), capability(2)]);
    let value = canonical_decode(&token_bytes(&token)).expect("canonical");
    assert_eq!(field(&value, "kind").as_text(), Some("device"));
    assert_eq!(field(&value, "root_pk").as_bytes(), Some(&[8u8; 32][..]));
    assert_eq!(
        field(&value, "device_cert").as_bytes(),
        Some(device_cert().to_canonical_bytes().as_slice())
    );
    assert_eq!(field(&value, "session_attest").as_bytes(), Some(&[9u8, 10][..]));
    let caps = field(&value, "caps").as_array().expect("caps");
    assert_eq!(caps.len(), 2);
    assert_eq!(caps[1].as_bytes(), Some(capability(2).to_canonical_bytes().as_slice()));
}

#[test]
fn a_host_token_holds_the_operating_key_certificate() {
    let token = host_auth_token(&[8; 32], &op_cert(), &[11]);
    let value = canonical_decode(&token_bytes(&token)).expect("canonical");
    assert_eq!(field(&value, "kind").as_text(), Some("host"));
    assert_eq!(field(&value, "host_root_pk").as_bytes(), Some(&[8u8; 32][..]));
    assert_eq!(
        field(&value, "host_op_cert").as_bytes(),
        Some(op_cert().to_canonical_bytes().as_slice())
    );
    assert_eq!(field(&value, "session_attest").as_bytes(), Some(&[11u8][..]));
    assert_eq!(value.as_map().expect("a map").len(), 4);
}

#[test]
fn tokens_tell_their_contents_apart() {
    let one = device_auth_token(&[8; 32], &device_cert(), &[1], &[]);
    let other = device_auth_token(&[8; 32], &device_cert(), &[2], &[]);
    assert_ne!(one, other);
    assert_ne!(one, host_auth_token(&[8; 32], &op_cert(), &[1]));
}

#[test]
fn the_fingerprint_of_a_connection_key() {
    let session = nkeys::KeyPair::new_user();
    let encoded = session.public_key();
    let (_prefix, raw) = nkeys::from_public_key(&encoded).expect("well-formed");
    let digest: [u8; 32] = Sha256::digest(raw).into();
    assert_eq!(nats_fp_of_nkey(&encoded).expect("a key").bytes, digest);
    assert_eq!(nats_fp(&raw).bytes, digest);
    assert_eq!(nats_fp_of_nkey("not a key"), None);
    let mut broken = encoded.clone();
    broken.replace_range(10..11, if &encoded[10..11] == "A" { "B" } else { "A" });
    assert_eq!(nats_fp_of_nkey(&broken), None);
}

#[test]
fn a_clean_log_passes() {
    let log = vec!["connected".to_string(), "lame duck mode".to_string()];
    assert_eq!(assert_no_permission_violation(&log, "device"), Ok(()));
    assert_eq!(assert_no_permission_violation(&[], "device"), Ok(()));
}

#[test]
fn a_violation_is_quoted_with_the_whole_log() {
    let log = vec![
        "connected".to_string(),
        "server error: Permissions Violation for Publish to \"x\"".to_string(),
        "Permissions Violation again".to_string(),
    ];
    let said = assert_no_permission_violation(&log, "host").expect_err("a violation");
    assert_eq!(
        said,
        format!(
            "host connection hit a NATS permissions violation: {}\nfull event log: {:#?}",
            log[1], log
        )
    );
}

#[test]
fn an_advisory_is_read() {
    let advisory = parse(
        " {\"type\": \"io.nats.server.advisory.v1.client_disconnect\", \"n\": [1, -2.5e3, .5],\n\
         \"client\": {\"user\": \"UABC\", \"ok\": true, \"tags\": []}, \"reason\": \"Client \\u0041\\n\\\"x\\\" \u{e9}\", \"none\": null}",
    )
    .expect("json");
    assert_eq!(
        advisory.get("client").and_then(|c| c.get("user")).and_then(|u| u.as_str()),
        Some("UABC")
    );
    assert_eq!(
        advisory.get("reason").and_then(|r| r.as_str()),
        Some("Client A\n\"x\" \u{e9}")
    );
    match advisory.get("n") {
        Some(Json::Array(items)) => match &items[1] {
            Json::Number(digits) => assert_eq!(digits.parse::<f64>(), Ok(-2500.0)),
            other => panic!("expected a number, got {other:?}"),
        },
        other => panic!("expected an array, got {other:?}"),
    }
    assert!(matches!(advisory.get("none"), Some(Json::Null)));
    assert!(advisory.get("missing").is_none());
    assert!(advisory.get("reason").and_then(|r| r.get("x")).is_none());
}

#[test]
fn the_first_of_two_equal_keys_counts() {
    let v = parse("{\"a\":\"x\",\"a\":\"y\"}").expect("json");
    assert_eq!(v.get("a").and_then(|a| a.as_str()), Some("x"));
}

#[test]
fn what_follows_the_value_is_not_looked_at() {
    assert!(matches!(parse("true false"), Some(Json::Bool(true))));
}

#[test]
fn what_is_no_json_is_not_read() {
    for text in [
        "", "  ", "{", "[1", "[1,]", "{\"a\"}", "{\"a\":1,}", "\"open", "\"\\x\"", "\"\\u12\"",
        "\"\\ud800\"", "tru", "nul", "-", "1e", "1.2.3", "+", "]", "{1:2}",
    ] {
        assert!(parse(text).is_none(), "{text}");
    }
}

#[test]
fn numbers_follow_the_standard_grammar() {
    for text in ["0", "-1", "+1", "1.", ".5", "1e9", "1E-9", "-0.0e+0", "007"] {
        assert!(text.parse::<f64>().is_ok());
        match parse(text) {
            Some(Json::Number(digits)) => assert_eq!(digits, text),
            other => panic!("{text}: {other:?}"),
        }
    }
    for text in [".", "e1", "1e", "1e+", "--1", "1-1", "1e1.5"] {
        assert!(text.parse::<f64>().is_err());
        assert!(parse(text).is_none(), "{text}");
    }
}

#[test]
fn a_complaint_lists_the_events_as_they_are_shown() {
    let shown = ["\"one\"".to_string(), "\"two\"".to_string()];
    assert_eq!(
        complain("device", "two", &shown),
        "device connection hit a NATS permissions violation: two\nfull event log: [\n    \"one\",\n    \"two\",\n]"
    );
}

#[test]
fn a_copy_of_a_value_reads_the_same() {
    let v = parse(r#"{"a": [1, {"b": "x"}, null], "c": true}"#).expect("json");
    let copy = v.clone();
    match copy.get("a") {
        Some(Json::Array(items)) => {
            assert!(matches!(&items[0], Json::Number(digits) if digits == "1"));
            assert_eq!(items[1].get("b").and_then(|b| b.as_str()), Some("x"));
            assert!(matches!(items[2], Json::Null));
        }
        _ => panic!("an array"),
    }
    assert!(matches!(copy.get("c"), Some(Json::Bool(true))));
}
