//! The domain-separation tags.
use spindle::proto::tags;

#[test]
fn concatenates_tag_and_bytes() {
    let out = tags::signing_input(b"tag", &[1, 2, 3]);
    assert_eq!(out, vec![b't', b'a', b'g', 1, 2, 3]);
}

#[test]
fn all_ten_tags_are_prefix_free() {
    let all = [
        tags::ENVELOPE_V1.as_slice(),
        tags::CAPABILITY_V1.as_slice(),
        tags::ADMISSION_TOKEN_V1.as_slice(),
        tags::DEVICE_CERT_V2.as_slice(),
        tags::REVOCATION_V1.as_slice(),
        tags::ADMIN_COMMAND_V1.as_slice(),
        tags::HOST_OP_KEY_CERT_V2.as_slice(),
        tags::HOST_DEVICE_CERT_V1.as_slice(),
        tags::SESSION_ATTESTATION_V1.as_slice(),
        tags::HOST_SESSION_ATTESTATION_V1.as_slice(),
    ];
    for i in 0..all.len() {
        for j in 0..all.len() {
            if i != j {
                assert!(
                    !all[j].starts_with(all[i]),
                    "tag at {i} ({:?}) is a byte-prefix of tag at {j} ({:?})",
                    all[i],
                    all[j]
                );
            }
        }
    }
}
