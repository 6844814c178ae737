//! Domain-separation tags.
//!
//! Every signed artifact is preceded, in its signature preimage, by a tag that is unique to its
//! type. A few keys sign more than one type of artifact; the tags are what keeps a signature over
//! the one from ever being valid for the other.
use crate::octets;
use vstd::prelude::*;

verus! {

/// `spindle-env-v1`: an envelope, signed by the sender's device key.
pub const ENVELOPE_V1: [u8; 14] = [
    115, 112, 105, 110, 100, 108, 101, 45, 101, 110, 118, 45, 118, 49,
];

/// `spindle-cap-v1`: a capability, signed by the host operating key.
pub const CAPABILITY_V1: [u8; 14] = [
    115, 112, 105, 110, 100, 108, 101, 45, 99, 97, 112, 45, 118, 49,
];

/// `spindle-adm-v1`: an admission token, signed by the operator admission key.
pub const ADMISSION_TOKEN_V1: [u8; 14] = [
    115, 112, 105, 110, 100, 108, 101, 45, 97, 100, 109, 45, 118, 49,
];

/// `spindle-dev-cert-v1`: a device certificate that binds a session key, signed by the
/// identity root.
pub const DEVICE_CERT_V1: [u8; 19] = [
    115, 112, 105, 110, 100, 108, 101, 45, 100, 101, 118, 45, 99, 101, 114, 116, 45, 118,
    49,
];

/// `spindle-dev-cert-v2`: a device certificate without a session key, signed by the
/// identity root. The certificate has no version field: the tag is its version.
pub const DEVICE_CERT_V2: [u8; 19] = [
    115, 112, 105, 110, 100, 108, 101, 45, 100, 101, 118, 45, 99, 101, 114, 116, 45, 118,
    50,
];

/// `spindle-rev-v1`: a revocation record, signed by the host operating key or an identity
/// root.
pub const REVOCATION_V1: [u8; 14] = [
    115, 112, 105, 110, 100, 108, 101, 45, 114, 101, 118, 45, 118, 49,
];

/// `spindle-adm-cmd-v1`: an admin command, signed by the operator admission key.
pub const ADMIN_COMMAND_V1: [u8; 18] = [
    115, 112, 105, 110, 100, 108, 101, 45, 97, 100, 109, 45, 99, 109, 100, 45, 118, 49,
];

/// `spindle-host-cert-v1`: a host operating-key certificate that binds a session key,
/// signed by the host root.
pub const HOST_OP_KEY_CERT_V1: [u8; 20] = [
    115, 112, 105, 110, 100, 108, 101, 45, 104, 111, 115, 116, 45, 99, 101, 114, 116, 45,
    118, 49,
];

/// `spindle-host-cert-v2`: a host operating-key certificate without a session key,
/// signed by the host root. The certificate has no version field: the tag is its version.
pub const HOST_OP_KEY_CERT_V2: [u8; 20] = [
    115, 112, 105, 110, 100, 108, 101, 45, 104, 111, 115, 116, 45, 99, 101, 114, 116, 45,
    118, 50,
];

/// `spindle-host-dev-cert-v1`: a host device certificate, signed by the host operating
/// key.
pub const HOST_DEVICE_CERT_V1: [u8; 24] = [
    115, 112, 105, 110, 100, 108, 101, 45, 104, 111, 115, 116, 45, 100, 101, 118, 45, 99,
    101, 114, 116, 45, 118, 49,
];

/// `spindle-sess-attest-v1`: a session attestation, signed by the device identity key.
pub const SESSION_ATTESTATION_V1: [u8; 22] = [
    115, 112, 105, 110, 100, 108, 101, 45, 115, 101, 115, 115, 45, 97, 116, 116, 101, 115,
    116, 45, 118, 49,
];

/// `spindle-host-sess-attest-v1`: a host session attestation, signed by the host
/// operating key.
pub const HOST_SESSION_ATTESTATION_V1: [u8; 27] = [
    115, 112, 105, 110, 100, 108, 101, 45, 104, 111, 115, 116, 45, 115, 101, 115, 115, 45,
    97, 116, 116, 101, 115, 116, 45, 118, 49,
];

/// All the tags.
pub open spec fn all_tags() -> Seq<Seq<u8>> {
    seq![
        ENVELOPE_V1@,
        CAPABILITY_V1@,
        ADMISSION_TOKEN_V1@,
        DEVICE_CERT_V1@,
        DEVICE_CERT_V2@,
        REVOCATION_V1@,
        ADMIN_COMMAND_V1@,
        HOST_OP_KEY_CERT_V1@,
        HOST_OP_KEY_CERT_V2@,
        HOST_DEVICE_CERT_V1@,
        SESSION_ATTESTATION_V1@,
        HOST_SESSION_ATTESTATION_V1@,
    ]
}

/// `tag` followed by `bytes`: the byte string that is signed.
pub fn signing_input(tag: &[u8], canonical_bytes: &[u8]) -> (input: Vec<u8>)
    ensures
        input@ == tag@ + canonical_bytes@,
{
    let mut out: Vec<u8> = Vec::new();
    octets::push_bytes(&mut out, tag);
    octets::push_bytes(&mut out, canonical_bytes);
    assert(out@ =~= tag@ + canonical_bytes@);
    out
}

/// Tags that differ at some place both have can not begin the same byte string.
proof fn lemma_tags_differ(a: Seq<u8>, b: Seq<u8>, at: int, x: Seq<u8>, y: Seq<u8>)
    requires
        0 <= at < a.len(),
        at < b.len(),
        a[at] != b[at],
    ensures
        !a.is_prefix_of(b),
        a + x != b + y,
{
    assert((a + x)[at] != (b + y)[at]);
}

/// The tags of two artifact types are never prefixes of each other, and so no signature preimage
/// of the one type is a preimage of the other, whatever bytes follow the tags.
pub proof fn law_tags_prefix_free(i: int, j: int, x: Seq<u8>, y: Seq<u8>)
    requires
        0 <= i < all_tags().len(),
        0 <= j < all_tags().len(),
        i != j,
    ensures
        !all_tags()[i].is_prefix_of(all_tags()[j]),
        all_tags()[i] + x != all_tags()[j] + y,
{
    let a = all_tags()[i];
    let b = all_tags()[j];
    if a[8] != b[8] {
        lemma_tags_differ(a, b, 8, x, y);
    } else if a[12] != b[12] {
        lemma_tags_differ(a, b, 12, x, y);
    } else if a[13] != b[13] {
        lemma_tags_differ(a, b, 13, x, y);
    } else if a[18] != b[18] {
        lemma_tags_differ(a, b, 18, x, y);
    } else {
        lemma_tags_differ(a, b, 19, x, y);
    }
}

/// The characters whose codes the bytes are.
pub open spec fn spelled(bytes: Seq<u8>) -> Seq<char> {
    Seq::new(bytes.len(), |i: int| bytes[i] as char)
}

/// The tags, in letters.
pub proof fn law_tags_spelled_out()
    ensures
        spelled(ENVELOPE_V1@) == "spindle-env-v1"@,
        spelled(CAPABILITY_V1@) == "spindle-cap-v1"@,
        spelled(ADMISSION_TOKEN_V1@) == "spindle-adm-v1"@,
        spelled(DEVICE_CERT_V1@) == "spindle-dev-cert-v1"@,
        spelled(DEVICE_CERT_V2@) == "spindle-dev-cert-v2"@,
        spelled(REVOCATION_V1@) == "spindle-rev-v1"@,
        spelled(ADMIN_COMMAND_V1@) == "spindle-adm-cmd-v1"@,
        spelled(HOST_OP_KEY_CERT_V1@) == "spindle-host-cert-v1"@,
        spelled(HOST_OP_KEY_CERT_V2@) == "spindle-host-cert-v2"@,
        spelled(HOST_DEVICE_CERT_V1@) == "spindle-host-dev-cert-v1"@,
        spelled(SESSION_ATTESTATION_V1@) == "spindle-sess-attest-v1"@,
        spelled(HOST_SESSION_ATTESTATION_V1@) == "spindle-host-sess-attest-v1"@,
{
    reveal_strlit("spindle-env-v1");
    reveal_strlit("spindle-cap-v1");
    reveal_strlit("spindle-adm-v1");
    reveal_strlit("spindle-dev-cert-v1");
    reveal_strlit("spindle-dev-cert-v2");
    reveal_strlit("spindle-rev-v1");
    reveal_strlit("spindle-adm-cmd-v1");
    reveal_strlit("spindle-host-cert-v1");
    reveal_strlit("spindle-host-cert-v2");
    reveal_strlit("spindle-host-dev-cert-v1");
    reveal_strlit("spindle-sess-attest-v1");
    reveal_strlit("spindle-host-sess-attest-v1");
    assert(spelled(ENVELOPE_V1@) =~= "spindle-env-v1"@);
    assert(spelled(CAPABILITY_V1@) =~= "spindle-cap-v1"@);
    assert(spelled(ADMISSION_TOKEN_V1@) =~= "spindle-adm-v1"@);
    assert(spelled(DEVICE_CERT_V1@) =~= "spindle-dev-cert-v1"@);
    assert(spelled(DEVICE_CERT_V2@) =~= "spindle-dev-cert-v2"@);
    assert(spelled(REVOCATION_V1@) =~= "spindle-rev-v1"@);
    assert(spelled(ADMIN_COMMAND_V1@) =~= "spindle-adm-cmd-v1"@);
    assert(spelled(HOST_OP_KEY_CERT_V1@) =~= "spindle-host-cert-v1"@);
    assert(spelled(HOST_OP_KEY_CERT_V2@) =~= "spindle-host-cert-v2"@);
    assert(spelled(HOST_DEVICE_CERT_V1@) =~= "spindle-host-dev-cert-v1"@);
    assert(spelled(SESSION_ATTESTATION_V1@) =~= "spindle-sess-attest-v1"@);
    assert(spelled(HOST_SESSION_ATTESTATION_V1@) =~= "spindle-host-sess-attest-v1"@);
}

} // verus!
