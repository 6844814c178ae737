//! The vector files.
use spindle::fixtures::tinyjson;
use spindle::proto::artifacts::{
    AdminCommand, AdmissionToken, Capability, DeviceCertificate, Envelope, HostOpKeyCert,
    RevocationRecord,
};
use spindle::proto::canonical::{canonical_decode, canonical_encode};
use spindle::text::from_hex;
use spindle::vectors::artifacts::{
    admin_command_vectors, admission_token_vectors, capability_vectors, device_certificate_vectors,
    envelope_vectors, host_op_key_cert_vectors, revocation_record_vectors,
};
use spindle::vectors::json::{file_text, write_json_string, Json};
use spindle::vectors::primitives::canonical_cbor_vectors;
use spindle::vectors::rpc::vfs_rpc_vectors;

fn all_files() -> Vec<Json> {
    vec![
        envelope_vectors(),
        capability_vectors(),
        admission_token_vectors(),
        device_certificate_vectors(),
        revocation_record_vectors(),
        admin_command_vectors(),
        host_op_key_cert_vectors(),
        canonical_cbor_vectors(),
        vfs_rpc_vectors(),
    ]
}

fn string_at<'a>(v: &'a tinyjson::Json, key: &str) -> &'a str {
    v.get(key).expect(key).as_str().expect(key)
}

fn cases(v: &tinyjson::Json) -> &Vec<tinyjson::Json> {
    match v.get("cases").expect("cases") {
        tinyjson::Json::Array(items) => items,
        other => panic!("cases is {other:?}"),
    }
}

#[test]
fn every_file_is_json_with_a_line_end() {
    for file in all_files() {
        let text = file_text(&file);
        assert!(text.ends_with("}\n"));
        assert!(tinyjson::parse(&text).is_some());
    }
}

#[test]
fn every_encoding_in_the_artifact_files_is_canonical_and_signed_over_its_tag() {
    let files = [
        (envelope_vectors(), "spindle-env-v1", 3),
        (capability_vectors(), "spindle-cap-v1", 2),
        (admission_token_vectors(), "spindle-adm-v1", 2),
        (device_certificate_vectors(), "spindle-dev-cert-v1", 2),
        (revocation_record_vectors(), "spindle-rev-v1", 3),
        (admin_command_vectors(), "spindle-adm-cmd-v1", 3),
        (host_op_key_cert_vectors(), "spindle-host-cert-v1", 2),
    ];
    for (file, tag, count) in files {
        let parsed = tinyjson::parse(&file_text(&file)).expect("json");
        let listed = cases(&parsed);
        assert_eq!(listed.len(), count, "{tag}");
        for case in listed {
            let bytes = from_hex(string_at(case, "canonical_cbor_hex")).expect("hex");
            let value = canonical_decode(&bytes).expect("canonical");
            assert_eq!(canonical_encode(&value), bytes);
            let input = from_hex(string_at(case, "signing_input_hex")).expect("hex");
            assert!(input.starts_with(tag.as_bytes()));
        }
    }
}

#[test]
fn every_artifact_in_its_file_is_read_back() {
    let first = |file: Json| -> Vec<u8> {
        let parsed = tinyjson::parse(&file_text(&file)).expect("json");
        from_hex(string_at(&cases(&parsed)[0], "canonical_cbor_hex")).expect("hex")
    };
    let env = Envelope::from_canonical_bytes(&first(envelope_vectors())).expect("envelope");
    assert_eq!(env.ciphertext, vec![0xc0, 0xff, 0xee, 0x01, 0x02, 0x03]);
    assert_eq!(env.eph_pk, Some(vec![0xbb; 32]));
    assert!(Capability::from_canonical_bytes(&first(capability_vectors())).is_ok());
    assert!(AdmissionToken::from_canonical_bytes(&first(admission_token_vectors())).is_ok());
    assert!(DeviceCertificate::from_canonical_bytes(&first(device_certificate_vectors())).is_ok());
    assert!(RevocationRecord::from_canonical_bytes(&first(revocation_record_vectors())).is_ok());
    assert!(AdminCommand::from_canonical_bytes(&first(admin_command_vectors())).is_ok());
    assert!(HostOpKeyCert::from_canonical_bytes(&first(host_op_key_cert_vectors())).is_ok());
}

#[test]
fn strings_are_escaped() {
    let mut out = String::new();
    write_json_string("a\"b\\c\nd\te\u{1}\u{e9}", &mut out);
    assert_eq!(out, "\"a\\\"b\\\\c\\nd\\te\\u0001\u{e9}\"");
}

#[test]
fn values_are_laid_out_with_two_spaces_to_a_level() {
    let value = Json::object(vec![
        ("none", Json::array(vec![])),
        ("some", Json::array(vec![Json::UInt(7), Json::SInt(-3), Json::Bool(true)])),
        ("hex", Json::hex(&[0x0a, 0xff])),
        ("inner", Json::object(vec![])),
    ]);
    assert_eq!(
        file_text(&value),
        "{\n  \"none\": [],\n  \"some\": [\n    7,\n    -3,\n    true\n  ],\n  \"hex\": \"0aff\",\n  \"inner\": {}\n}\n"
    );
}

#[test]
fn descriptions_say_what_a_case_shows() {
    let text = file_text(&vfs_rpc_vectors());
    assert!(text.contains("\"`whoami` \u{2014} no fields beyond the shared `v`/`op` envelope.\""));
    assert!(text.contains("offset 65536 (DESIGN.md \u{a7}A8 max chunk size)."));
    assert!(text.contains("trimmed per DESIGN.md \u{a7}A4b/A12 #32: display name and effective paths"));
    assert!(text.contains("VFS error codes (DESIGN.md \u{a7}A8's seven, plus this crate's"));
    assert!(text.contains("VFS RPC wire types (DESIGN.md \u{a7}A8), Stage 6 slice 3: request/reply"));
    let text = file_text(&canonical_cbor_vectors());
    assert!(text.contains("cases (RFC 8949 \u{a7}4.2.1), independent of any Spindle artifact type"));
}
