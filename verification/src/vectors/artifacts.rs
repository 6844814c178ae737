//! Vectors of the signed messages. Keys, fingerprints and signatures are stand-ins; the bytes around
//! them are real.
use crate::proto::artifacts::admin_command::{AdminCommand, AdminCommandModel};
use crate::proto::artifacts::admission_token::{AdmissionToken, AdmissionTokenModel};
use crate::proto::artifacts::capability::{CapKind, Capability, CapabilityModel};
use crate::proto::artifacts::device_certificate::{DeviceCertificate, DeviceCertificateModel};
use crate::proto::artifacts::envelope::{Envelope, EnvelopeModel};
use crate::proto::artifacts::host_op_key_cert::{HostOpKeyCert, HostOpKeyCertModel};
use crate::proto::artifacts::revocation_record::{RevocationRecord, RevocationRecordModel};
use crate::proto::canonical;
use crate::proto::canonical::CborValue;
use crate::proto::item;
use crate::proto::item::Item;
use crate::proto::record;
use crate::proto::tags;
use crate::vectors::cases;
use crate::vectors::cases::{artifact_file, case, rep};
use crate::vectors::json;
use crate::vectors::json::{Json, JsonItem};
use crate::vectors::mirror;
use vstd::prelude::*;

verus! {

// ---- an envelope ----

/// Name and description of the case.
pub const FIRST_MESSAGE: [&'static str; 2] = [
    "first_message_with_eph_pk",
    "First envelope of a session: eph_pk present, seq=0.",
];

/// Name and description of the case.
pub const LATER_MESSAGE: [&'static str; 2] = [
    "subsequent_message_no_eph_pk",
    "A later envelope in the same session: eph_pk omitted entirely (key omission, not null).",
];

/// Name and description of the case.
pub const LARGE_SEQ: [&'static str; 2] = [
    "large_seq_empty_ciphertext",
    "seq beyond u32 range (exercises the 8-byte canonical uint form) and a zero-length ciphertext.",
];

/// The contents of the case.
pub open spec fn first_message() -> EnvelopeModel {
    EnvelopeModel {
        v: 1,
        alg_id: 1,
        from_fp: cases::repeated(0x11, 32),
        to_fp: cases::repeated(0x22, 32),
        sid: cases::repeated(0xaa, 16),
        kind: 1,
        seq: 0,
        ts: 1_755_907_200,
        eph_pk: Some(cases::repeated(0xbb, 32)),
        ciphertext: seq![0xc0u8, 0xffu8, 0xeeu8, 0x01u8, 0x02u8, 0x03u8],
        sig: cases::repeated(0x99, 64),
    }
}

fn make_first_message() -> (made: Envelope)
    ensures
        made@ == first_message(),
{
    let made = Envelope {
        v: 1,
        alg_id: 1,
        from_fp: rep(0x11, 32),
        to_fp: rep(0x22, 32),
        sid: rep(0xaa, 16),
        kind: 1,
        seq: 0,
        ts: 1_755_907_200,
        eph_pk: Some(rep(0xbb, 32)),
        ciphertext: vec![0xc0, 0xff, 0xee, 0x01, 0x02, 0x03],
        sig: rep(0x99, 64),
    };
    assert(made@.ciphertext =~= seq![0xc0u8, 0xffu8, 0xeeu8, 0x01u8, 0x02u8, 0x03u8]);
    made
}

/// The contents of the case.
pub open spec fn later_message() -> EnvelopeModel {
    EnvelopeModel {
        v: 1,
        alg_id: 1,
        from_fp: cases::repeated(0x22, 32),
        to_fp: cases::repeated(0x11, 32),
        sid: cases::repeated(0xaa, 16),
        kind: 3,
        seq: 7,
        ts: 1_755_907_260,
        eph_pk: None,
        ciphertext: seq![0xdeu8, 0xadu8, 0xbeu8, 0xefu8],
        sig: cases::repeated(0x88, 64),
    }
}

fn make_later_message() -> (made: Envelope)
    ensures
        made@ == later_message(),
{
    let made = Envelope {
        v: 1,
        alg_id: 1,
        from_fp: rep(0x22, 32),
        to_fp: rep(0x11, 32),
        sid: rep(0xaa, 16),
        kind: 3,
        seq: 7,
        ts: 1_755_907_260,
        eph_pk: None,
        ciphertext: vec![0xde, 0xad, 0xbe, 0xef],
        sig: rep(0x88, 64),
    };
    assert(made@.ciphertext =~= seq![0xdeu8, 0xadu8, 0xbeu8, 0xefu8]);
    made
}

/// The contents of the case.
pub open spec fn large_seq() -> EnvelopeModel {
    EnvelopeModel {
        v: 1,
        alg_id: 1,
        from_fp: cases::repeated(0x33, 32),
        to_fp: cases::repeated(0x44, 32),
        sid: cases::repeated(0xcd, 16),
        kind: 0,
        seq: 4_294_967_296,
        ts: 1_756_000_000,
        eph_pk: Some(cases::repeated(0xee, 32)),
        ciphertext: Seq::empty(),
        sig: cases::repeated(0x77, 64),
    }
}

fn make_large_seq() -> (made: Envelope)
    ensures
        made@ == large_seq(),
{
    let made = Envelope {
        v: 1,
        alg_id: 1,
        from_fp: rep(0x33, 32),
        to_fp: rep(0x44, 32),
        sid: rep(0xcd, 16),
        kind: 0,
        seq: 4_294_967_296,
        ts: 1_756_000_000,
        eph_pk: Some(rep(0xee, 32)),
        ciphertext: Vec::new(),
        sig: rep(0x77, 64),
    };
    assert(made@.ciphertext =~= Seq::<u8>::empty());
    made
}

fn envelope_case(labels: [&'static str; 2], x: &Envelope) -> (r: Json)
    ensures
        r@ == cases::signed_case(labels@, x@.fields(), x@.bytes(), x@.signed_bytes()),
{
    let mut entries = x.header_entries();
    entries.push(("ciphertext", CborValue::bytes(x.ciphertext.as_slice())));
    entries.push(("sig", CborValue::bytes(x.sig.as_slice())));
    assert(canonical::fields_of(entries@) =~= x@.fields());
    case(labels, &entries, x.to_canonical_bytes().as_slice(), x.signing_input().as_slice())
}

/// The cases of an envelope.
pub open spec fn envelope_cases() -> Seq<JsonItem> {
    seq![
        cases::signed_case(
            FIRST_MESSAGE@,
            first_message().fields(),
            first_message().bytes(),
            first_message().signed_bytes(),
        ),
        cases::signed_case(
            LATER_MESSAGE@,
            later_message().fields(),
            later_message().bytes(),
            later_message().signed_bytes(),
        ),
        cases::signed_case(
            LARGE_SEQ@,
            large_seq().fields(),
            large_seq().bytes(),
            large_seq().signed_bytes(),
        ),
    ]
}

/// The vectors of an envelope.
pub fn envelope_vectors() -> (r: Json)
    ensures
        r@ == cases::signed_file("Envelope"@, tags::ENVELOPE_V1@, envelope_cases()),
{
    let listed: Vec<Json> = vec![
        envelope_case(FIRST_MESSAGE, &make_first_message()),
        envelope_case(LATER_MESSAGE, &make_later_message()),
        envelope_case(LARGE_SEQ, &make_large_seq()),
    ];
    assert(json::values_of(listed@) =~= envelope_cases());
    artifact_file("Envelope", tags::ENVELOPE_V1.as_slice(), listed)
}

// ---- a capability ----

/// Name and description of the case.
pub const INVITE_CAP: [&'static str; 2] = [
    "invite_cap",
    "Bearer invite capability: kind=invite(0), cap_epoch=0, 24h exp. host_fp = SHA-256(host_root_pk) (A10.30 — root-derived, not operating-key-derived); op_cert is an opaque embedded HostOpKeyCert canonical encoding.",
];

/// Name and description of the case.
pub const MEMBER_CAP: [&'static str; 2] = [
    "member_cap",
    "Member capability issued post-redemption: kind=member(1), nonzero cap_epoch, weeks-scale exp. Same host_fp/host_root_pk/op_cert chain shape as invite_cap (A10.30).",
];

/// The certificate that the capabilities embed.
pub open spec fn embedded_op_cert() -> HostOpKeyCertModel {
    HostOpKeyCertModel {
        host_op_pk: cases::repeated(0x21, 32),
        nats_fp: cases::repeated(0x22, 32),
        ts: 1_755_907_200,
        exp: 1_763_683_200,
        sig_host_root: cases::repeated(0x23, 64),
    }
}

fn make_embedded_op_cert() -> (cert: HostOpKeyCert)
    ensures
        cert@ == embedded_op_cert(),
{
    HostOpKeyCert {
        host_op_pk: rep(0x21, 32),
        nats_fp: rep(0x22, 32),
        ts: 1_755_907_200,
        exp: 1_763_683_200,
        sig_host_root: rep(0x23, 64),
    }
}

/// The contents of the case.
pub open spec fn invite_cap() -> CapabilityModel {
    CapabilityModel {
        v: 1,
        host_fp: cases::repeated(0x10, 32),
        host_root_pk: cases::repeated(0x20, 32),
        op_cert: embedded_op_cert().bytes(),
        kind: CapKind::Invite,
        subject: cases::repeated(0x30, 32),
        cap_epoch: 0,
        exp: 1_755_993_600,
        nonce: cases::repeated(0x40, 16),
        sig: cases::repeated(0x50, 64),
    }
}

fn make_invite_cap() -> (made: Capability)
    ensures
        made@ == invite_cap(),
{
    let op_cert = make_embedded_op_cert().to_canonical_bytes();
    let made = Capability {
        v: 1,
        host_fp: rep(0x10, 32),
        host_root_pk: rep(0x20, 32),
        op_cert,
        kind: CapKind::Invite,
        subject: rep(0x30, 32),
        cap_epoch: 0,
        exp: 1_755_993_600,
        nonce: rep(0x40, 16),
        sig: rep(0x50, 64),
    };
    made
}

/// The contents of the case.
pub open spec fn member_cap() -> CapabilityModel {
    CapabilityModel {
        v: 1,
        host_fp: cases::repeated(0x10, 32),
        host_root_pk: cases::repeated(0x20, 32),
        op_cert: embedded_op_cert().bytes(),
        kind: CapKind::Member,
        subject: cases::repeated(0x30, 32),
        cap_epoch: 3,
        exp: 1_759_017_600,
        nonce: cases::repeated(0x40, 16),
        sig: cases::repeated(0x50, 64),
    }
}

fn make_member_cap() -> (made: Capability)
    ensures
        made@ == member_cap(),
{
    let op_cert = make_embedded_op_cert().to_canonical_bytes();
    let made = Capability {
        v: 1,
        host_fp: rep(0x10, 32),
        host_root_pk: rep(0x20, 32),
        op_cert,
        kind: CapKind::Member,
        subject: rep(0x30, 32),
        cap_epoch: 3,
        exp: 1_759_017_600,
        nonce: rep(0x40, 16),
        sig: rep(0x50, 64),
    };
    made
}

fn capability_case(labels: [&'static str; 2], x: &Capability) -> (r: Json)
    ensures
        r@ == cases::signed_case(labels@, x@.fields(), x@.bytes(), x@.signed_bytes()),
{
    let mut entries = x.unsigned_entries();
    entries.push(("sig", CborValue::bytes(x.sig.as_slice())));
    assert(canonical::fields_of(entries@) =~= x@.fields());
    case(labels, &entries, x.to_canonical_bytes().as_slice(), x.signing_input().as_slice())
}

/// The cases of a capability.
pub open spec fn capability_cases() -> Seq<JsonItem> {
    seq![
        cases::signed_case(
            INVITE_CAP@,
            invite_cap().fields(),
            invite_cap().bytes(),
            invite_cap().signed_bytes(),
        ),
        cases::signed_case(
            MEMBER_CAP@,
            member_cap().fields(),
            member_cap().bytes(),
            member_cap().signed_bytes(),
        ),
    ]
}

/// The vectors of a capability.
pub fn capability_vectors() -> (r: Json)
    ensures
        r@ == cases::signed_file("Capability"@, tags::CAPABILITY_V1@, capability_cases()),
{
    let listed: Vec<Json> = vec![
        capability_case(INVITE_CAP, &make_invite_cap()),
        capability_case(MEMBER_CAP, &make_member_cap()),
    ];
    assert(json::values_of(listed@) =~= capability_cases());
    artifact_file("Capability", tags::CAPABILITY_V1.as_slice(), listed)
}

// ---- an admission token ----

/// Name and description of the case.
pub const DEFAULT_QUOTA: [&'static str; 2] = [
    "default_quota",
    "Admission invite with the default quota profile.",
];

/// Name and description of the case.
pub const CUSTOM_QUOTA: [&'static str; 2] = [
    "custom_quota",
    "Admission invite with a named non-default quota profile and a longer label.",
];

/// The contents of the case.
pub open spec fn default_quota() -> AdmissionTokenModel {
    AdmissionTokenModel {
        nonce: cases::repeated(0x61, 16),
        exp: 1_756_512_000,
        label: "workshop-nas"@,
        quota_profile: "default"@,
        sig_operator: cases::repeated(0x62, 64),
    }
}

fn make_default_quota() -> (made: AdmissionToken)
    ensures
        made@ == default_quota(),
{
    let made = AdmissionToken {
        nonce: rep(0x61, 16),
        exp: 1_756_512_000,
        label: String::from_str("workshop-nas"),
        quota_profile: String::from_str("default"),
        sig_operator: rep(0x62, 64),
    };
    made
}

/// The contents of the case.
pub open spec fn custom_quota() -> AdmissionTokenModel {
    AdmissionTokenModel {
        nonce: cases::repeated(0x63, 16),
        exp: 1_758_326_400,
        label: "backoffice-archive"@,
        quota_profile: "high-bandwidth"@,
        sig_operator: cases::repeated(0x64, 64),
    }
}

fn make_custom_quota() -> (made: AdmissionToken)
    ensures
        made@ == custom_quota(),
{
    let made = AdmissionToken {
        nonce: rep(0x63, 16),
        exp: 1_758_326_400,
        label: String::from_str("backoffice-archive"),
        quota_profile: String::from_str("high-bandwidth"),
        sig_operator: rep(0x64, 64),
    };
    made
}

fn admission_token_case(labels: [&'static str; 2], x: &AdmissionToken) -> (r: Json)
    ensures
        r@ == cases::signed_case(labels@, x@.fields(), x@.bytes(), x@.signed_bytes()),
{
    let mut entries = x.unsigned_entries();
    entries.push(("sig_operator", CborValue::bytes(x.sig_operator.as_slice())));
    assert(canonical::fields_of(entries@) =~= x@.fields());
    case(labels, &entries, x.to_canonical_bytes().as_slice(), x.signing_input().as_slice())
}

/// The cases of an admission token.
pub open spec fn admission_token_cases() -> Seq<JsonItem> {
    seq![
        cases::signed_case(
            DEFAULT_QUOTA@,
            default_quota().fields(),
            default_quota().bytes(),
            default_quota().signed_bytes(),
        ),
        cases::signed_case(
            CUSTOM_QUOTA@,
            custom_quota().fields(),
            custom_quota().bytes(),
            custom_quota().signed_bytes(),
        ),
    ]
}

/// The vectors of an admission token.
pub fn admission_token_vectors() -> (r: Json)
    ensures
        r@ == cases::signed_file("AdmissionToken"@, tags::ADMISSION_TOKEN_V1@, admission_token_cases()),
{
    let listed: Vec<Json> = vec![
        admission_token_case(DEFAULT_QUOTA, &make_default_quota()),
        admission_token_case(CUSTOM_QUOTA, &make_custom_quota()),
    ];
    assert(json::values_of(listed@) =~= admission_token_cases());
    artifact_file("AdmissionToken", tags::ADMISSION_TOKEN_V1.as_slice(), listed)
}

// ---- a device certificate ----

/// Name and description of the case.
pub const DEVICE_CERT_FRESH: [&'static str; 2] = [
    "freshly_issued",
    "Device certificate at enrollment time; exp = ts + 1 year. No `label` field — see the discrepancy note on `DeviceCertificate` in artifacts.rs.",
];

/// Name and description of the case.
pub const DEVICE_CERT_RESIGNED: [&'static str; 2] = [
    "re_signed_on_contact",
    "Device certificate re-signed on contact (A4): same device_fp identity, refreshed ts/exp.",
];

/// The contents of the case.
pub open spec fn device_cert_fresh() -> DeviceCertificateModel {
    DeviceCertificateModel {
        device_fp: cases::repeated(0x71, 32),
        alg_id: 1,
        sign_pk: cases::repeated(0x77, 32),
        agree_pk: cases::repeated(0x78, 32),
        nats_fp: cases::repeated(0x72, 32),
        ts: 1_755_907_200,
        exp: 1_787_443_200,
        sig_root: cases::repeated(0x73, 64),
    }
}

fn make_device_cert_fresh() -> (made: DeviceCertificate)
    ensures
        made@ == device_cert_fresh(),
{
    let made = DeviceCertificate {
        device_fp: rep(0x71, 32),
        alg_id: 1,
        sign_pk: rep(0x77, 32),
        agree_pk: rep(0x78, 32),
        nats_fp: rep(0x72, 32),
        ts: 1_755_907_200,
        exp: 1_787_443_200,
        sig_root: rep(0x73, 64),
    };
    made
}

/// The contents of the case.
pub open spec fn device_cert_resigned() -> DeviceCertificateModel {
    DeviceCertificateModel {
        device_fp: cases::repeated(0x74, 32),
        alg_id: 1,
        sign_pk: cases::repeated(0x79, 32),
        agree_pk: cases::repeated(0x7a, 32),
        nats_fp: cases::repeated(0x75, 32),
        ts: 1_756_000_000,
        exp: 1_787_536_000,
        sig_root: cases::repeated(0x76, 64),
    }
}

fn make_device_cert_resigned() -> (made: DeviceCertificate)
    ensures
        made@ == device_cert_resigned(),
{
    let made = DeviceCertificate {
        device_fp: rep(0x74, 32),
        alg_id: 1,
        sign_pk: rep(0x79, 32),
        agree_pk: rep(0x7a, 32),
        nats_fp: rep(0x75, 32),
        ts: 1_756_000_000,
        exp: 1_787_536_000,
        sig_root: rep(0x76, 64),
    };
    made
}

fn device_certificate_case(labels: [&'static str; 2], x: &DeviceCertificate) -> (r: Json)
    ensures
        r@ == cases::signed_case(labels@, x@.fields(), x@.bytes(), x@.signed_bytes()),
{
    let mut entries = x.unsigned_entries();
    entries.push(("sig_root", CborValue::bytes(x.sig_root.as_slice())));
    assert(canonical::fields_of(entries@) =~= x@.fields());
    case(labels, &entries, x.to_canonical_bytes().as_slice(), x.signing_input().as_slice())
}

/// The cases of a device certificate.
pub open spec fn device_certificate_cases() -> Seq<JsonItem> {
    seq![
        cases::signed_case(
            DEVICE_CERT_FRESH@,
            device_cert_fresh().fields(),
            device_cert_fresh().bytes(),
            device_cert_fresh().signed_bytes(),
        ),
        cases::signed_case(
            DEVICE_CERT_RESIGNED@,
            device_cert_resigned().fields(),
            device_cert_resigned().bytes(),
            device_cert_resigned().signed_bytes(),
        ),
    ]
}

/// The vectors of a device certificate.
pub fn device_certificate_vectors() -> (r: Json)
    ensures
        r@ == cases::signed_file("DeviceCertificate"@, tags::DEVICE_CERT_V1@, device_certificate_cases()),
{
    let listed: Vec<Json> = vec![
        device_certificate_case(DEVICE_CERT_FRESH, &make_device_cert_fresh()),
        device_certificate_case(DEVICE_CERT_RESIGNED, &make_device_cert_resigned()),
    ];
    assert(json::values_of(listed@) =~= device_certificate_cases());
    artifact_file("DeviceCertificate", tags::DEVICE_CERT_V1.as_slice(), listed)
}

// ---- a revocation record ----

/// Name and description of the case.
pub const ONE_REVOKED: [&'static str; 2] = [
    "single_device_revoked",
    "One device fingerprint revoked at epoch 1.",
];

/// Name and description of the case.
pub const THREE_REVOKED: [&'static str; 2] = [
    "multiple_fingerprints_revoked",
    "Three fingerprints revoked in one record at a higher epoch (max-wins semantics per A7b).",
];

/// Name and description of the case.
pub const NONE_REVOKED: [&'static str; 2] = [
    "empty_revoked_array",
    "Edge case: zero-length `revoked` array — exercises the empty-array canonical encoding.",
];

/// The contents of the case.
pub open spec fn one_revoked() -> RevocationRecordModel {
    RevocationRecordModel {
        host_fp: cases::repeated(0x81, 32),
        epoch: 1,
        revoked: seq![cases::repeated(0x82, 32)],
        ts: 1_755_907_200,
        sig: cases::repeated(0x83, 64),
    }
}

fn make_one_revoked() -> (made: RevocationRecord)
    ensures
        made@ == one_revoked(),
{
    let made = RevocationRecord {
        host_fp: rep(0x81, 32),
        epoch: 1,
        revoked: vec![rep(0x82, 32)],
        ts: 1_755_907_200,
        sig: rep(0x83, 64),
    };
    assert(made@.revoked =~= seq![cases::repeated(0x82, 32)]);
    made
}

/// The contents of the case.
pub open spec fn three_revoked() -> RevocationRecordModel {
    RevocationRecordModel {
        host_fp: cases::repeated(0x84, 32),
        epoch: 5,
        revoked: seq![cases::repeated(0x85, 32), cases::repeated(0x86, 32), cases::repeated(0x87, 32)],
        ts: 1_756_000_000,
        sig: cases::repeated(0x88, 64),
    }
}

fn make_three_revoked() -> (made: RevocationRecord)
    ensures
        made@ == three_revoked(),
{
    let made = RevocationRecord {
        host_fp: rep(0x84, 32),
        epoch: 5,
        revoked: vec![rep(0x85, 32), rep(0x86, 32), rep(0x87, 32)],
        ts: 1_756_000_000,
        sig: rep(0x88, 64),
    };
    assert(made@.revoked =~= seq![cases::repeated(0x85, 32), cases::repeated(0x86, 32), cases::repeated(0x87, 32)]);
    made
}

/// The contents of the case.
pub open spec fn none_revoked() -> RevocationRecordModel {
    RevocationRecordModel {
        host_fp: cases::repeated(0x89, 32),
        epoch: 0,
        revoked: Seq::empty(),
        ts: 1_755_800_000,
        sig: cases::repeated(0x8a, 64),
    }
}

fn make_none_revoked() -> (made: RevocationRecord)
    ensures
        made@ == none_revoked(),
{
    let made = RevocationRecord {
        host_fp: rep(0x89, 32),
        epoch: 0,
        revoked: Vec::new(),
        ts: 1_755_800_000,
        sig: rep(0x8a, 64),
    };
    assert(made@.revoked =~= Seq::<Seq<u8>>::empty());
    made
}

fn revocation_record_case(labels: [&'static str; 2], x: &RevocationRecord) -> (r: Json)
    ensures
        r@ == cases::signed_case(labels@, x@.fields(), x@.bytes(), x@.signed_bytes()),
{
    let mut entries = x.unsigned_entries();
    entries.push(("sig", CborValue::bytes(x.sig.as_slice())));
    assert(canonical::fields_of(entries@) =~= x@.fields());
    case(labels, &entries, x.to_canonical_bytes().as_slice(), x.signing_input().as_slice())
}

/// The cases of a revocation record.
pub open spec fn revocation_record_cases() -> Seq<JsonItem> {
    seq![
        cases::signed_case(
            ONE_REVOKED@,
            one_revoked().fields(),
            one_revoked().bytes(),
            one_revoked().signed_bytes(),
        ),
        cases::signed_case(
            THREE_REVOKED@,
            three_revoked().fields(),
            three_revoked().bytes(),
            three_revoked().signed_bytes(),
        ),
        cases::signed_case(
            NONE_REVOKED@,
            none_revoked().fields(),
            none_revoked().bytes(),
            none_revoked().signed_bytes(),
        ),
    ]
}

/// The vectors of a revocation record.
pub fn revocation_record_vectors() -> (r: Json)
    ensures
        r@ == cases::signed_file("RevocationRecord"@, tags::REVOCATION_V1@, revocation_record_cases()),
{
    let listed: Vec<Json> = vec![
        revocation_record_case(ONE_REVOKED, &make_one_revoked()),
        revocation_record_case(THREE_REVOKED, &make_three_revoked()),
        revocation_record_case(NONE_REVOKED, &make_none_revoked()),
    ];
    assert(json::values_of(listed@) =~= revocation_record_cases());
    artifact_file("RevocationRecord", tags::REVOCATION_V1.as_slice(), listed)
}

// ---- an admin command ----

/// A record of one field is well formed.
proof fn lemma_one_entry(name: Seq<char>, value: Item)
    requires
        item::keys_unique(value),
    ensures
        item::keys_unique(item::record(seq![(name, value)])),
{
    record::lemma_record_unique(seq![(name, value)]);
}

/// Name and description of the case.
pub const EVICT_HOST: [&'static str; 2] = [
    "evict_host_with_map_args",
    "`args` is a one-entry canonical map naming the host to evict.",
];

/// Name and description of the case.
pub const SET_MODE: [&'static str; 2] = [
    "set_mode_with_text_arg",
    "`args` carries a single text-valued field.",
];

/// Name and description of the case.
pub const ROTATE_KEY: [&'static str; 2] = [
    "rotate_key_with_null_args",
    "A command with no arguments: `args` is CBOR null, not an omitted field.",
];

/// The contents of the case.
pub open spec fn evict_host() -> AdminCommandModel {
    AdminCommandModel {
        v: 1,
        cmd: "evict_host"@,
        args: item::record(seq![("host_fp"@, Item::Bytes(cases::repeated(0x91, 32)))]),
        signer_fp: cases::repeated(0x92, 32),
        seq: 12,
        nonce: cases::repeated(0x93, 16),
        ts: 1_755_907_200,
        sig: cases::repeated(0x94, 64),
    }
}

fn make_evict_host() -> (made: AdminCommand)
    ensures
        made@ == evict_host(),
{
    let entries: Vec<(&'static str, CborValue)> = vec![("host_fp", CborValue::bytes(rep(0x91, 32)))];
    assert(canonical::fields_of(entries@) =~= seq![("host_fp"@, Item::Bytes(cases::repeated(0x91, 32)))]);
    let args = CborValue::map(entries);
    let made = AdminCommand {
        v: 1,
        cmd: String::from_str("evict_host"),
        args,
        signer_fp: rep(0x92, 32),
        seq: 12,
        nonce: rep(0x93, 16),
        ts: 1_755_907_200,
        sig: rep(0x94, 64),
    };
    made
}

/// The contents of the case.
pub open spec fn set_mode() -> AdminCommandModel {
    AdminCommandModel {
        v: 1,
        cmd: "set_mode"@,
        args: item::record(seq![("mode"@, Item::Text("open"@))]),
        signer_fp: cases::repeated(0x95, 32),
        seq: 13,
        nonce: cases::repeated(0x96, 16),
        ts: 1_755_907_260,
        sig: cases::repeated(0x97, 64),
    }
}

fn make_set_mode() -> (made: AdminCommand)
    ensures
        made@ == set_mode(),
{
    let entries: Vec<(&'static str, CborValue)> = vec![("mode", CborValue::text("open"))];
    assert(canonical::fields_of(entries@) =~= seq![("mode"@, Item::Text("open"@))]);
    let args = CborValue::map(entries);
    let made = AdminCommand {
        v: 1,
        cmd: String::from_str("set_mode"),
        args,
        signer_fp: rep(0x95, 32),
        seq: 13,
        nonce: rep(0x96, 16),
        ts: 1_755_907_260,
        sig: rep(0x97, 64),
    };
    made
}

/// The contents of the case.
pub open spec fn rotate_key() -> AdminCommandModel {
    AdminCommandModel {
        v: 1,
        cmd: "rotate_admission_key"@,
        args: Item::Null,
        signer_fp: cases::repeated(0x98, 32),
        seq: 14,
        nonce: cases::repeated(0x99, 16),
        ts: 1_755_907_320,
        sig: cases::repeated(0x9a, 64),
    }
}

fn make_rotate_key() -> (made: AdminCommand)
    ensures
        made@ == rotate_key(),
{
    let made = AdminCommand {
        v: 1,
        cmd: String::from_str("rotate_admission_key"),
        args: CborValue::Null,
        signer_fp: rep(0x98, 32),
        seq: 14,
        nonce: rep(0x99, 16),
        ts: 1_755_907_320,
        sig: rep(0x9a, 64),
    };
    made
}

fn admin_command_case(labels: [&'static str; 2], x: &AdminCommand) -> (r: Json)
    requires
        item::keys_unique(x@.args),
    ensures
        r@ == cases::signed_case(labels@, x@.fields(), x@.bytes(), x@.signed_bytes()),
{
    let mut entries = x.unsigned_entries();
    entries.push(("sig", CborValue::bytes(x.sig.as_slice())));
    assert(canonical::fields_of(entries@) =~= x@.fields());
    case(labels, &entries, x.to_canonical_bytes().as_slice(), x.signing_input().as_slice())
}

/// The cases of an admin command.
pub open spec fn admin_command_cases() -> Seq<JsonItem> {
    seq![
        cases::signed_case(
            EVICT_HOST@,
            evict_host().fields(),
            evict_host().bytes(),
            evict_host().signed_bytes(),
        ),
        cases::signed_case(
            SET_MODE@,
            set_mode().fields(),
            set_mode().bytes(),
            set_mode().signed_bytes(),
        ),
        cases::signed_case(
            ROTATE_KEY@,
            rotate_key().fields(),
            rotate_key().bytes(),
            rotate_key().signed_bytes(),
        ),
    ]
}

/// The vectors of an admin command.
pub fn admin_command_vectors() -> (r: Json)
    ensures
        r@ == cases::signed_file("AdminCommand"@, tags::ADMIN_COMMAND_V1@, admin_command_cases()),
{
    proof {
        lemma_one_entry("host_fp"@, Item::Bytes(cases::repeated(0x91, 32)));
        lemma_one_entry("mode"@, Item::Text("open"@));
    }
    let listed: Vec<Json> = vec![
        admin_command_case(EVICT_HOST, &make_evict_host()),
        admin_command_case(SET_MODE, &make_set_mode()),
        admin_command_case(ROTATE_KEY, &make_rotate_key()),
    ];
    assert(json::values_of(listed@) =~= admin_command_cases());
    artifact_file("AdminCommand", tags::ADMIN_COMMAND_V1.as_slice(), listed)
}

// ---- a host operating key certificate ----

/// Name and description of the case.
pub const OP_CERT_FRESH: [&'static str; 2] = [
    "freshly_issued",
    "Host operating-key certificate at issuance; exp = ts + 90 days.",
];

/// Name and description of the case.
pub const OP_CERT_ROTATED: [&'static str; 2] = [
    "rotated",
    "Operating-key rotation: new host_op_pk, same nats_fp, exp window rolled forward.",
];

/// The contents of the case.
pub open spec fn op_cert_fresh() -> HostOpKeyCertModel {
    HostOpKeyCertModel {
        host_op_pk: cases::repeated(0xa1, 32),
        nats_fp: cases::repeated(0xa2, 32),
        ts: 1_755_907_200,
        exp: 1_763_683_200,
        sig_host_root: cases::repeated(0xa3, 64),
    }
}

fn make_op_cert_fresh() -> (made: HostOpKeyCert)
    ensures
        made@ == op_cert_fresh(),
{
    let made = HostOpKeyCert {
        host_op_pk: rep(0xa1, 32),
        nats_fp: rep(0xa2, 32),
        ts: 1_755_907_200,
        exp: 1_763_683_200,
        sig_host_root: rep(0xa3, 64),
    };
    made
}

/// The contents of the case.
pub open spec fn op_cert_rotated() -> HostOpKeyCertModel {
    HostOpKeyCertModel {
        host_op_pk: cases::repeated(0xa4, 32),
        nats_fp: cases::repeated(0xa2, 32),
        ts: 1_763_683_200,
        exp: 1_771_459_200,
        sig_host_root: cases::repeated(0xa5, 64),
    }
}

fn make_op_cert_rotated() -> (made: HostOpKeyCert)
    ensures
        made@ == op_cert_rotated(),
{
    let made = HostOpKeyCert {
        host_op_pk: rep(0xa4, 32),
        nats_fp: rep(0xa2, 32),
        ts: 1_763_683_200,
        exp: 1_771_459_200,
        sig_host_root: rep(0xa5, 64),
    };
    made
}

fn host_op_key_cert_case(labels: [&'static str; 2], x: &HostOpKeyCert) -> (r: Json)
    ensures
        r@ == cases::signed_case(labels@, x@.fields(), x@.bytes(), x@.signed_bytes()),
{
    let mut entries = x.unsigned_entries();
    entries.push(("sig_host_root", CborValue::bytes(x.sig_host_root.as_slice())));
    assert(canonical::fields_of(entries@) =~= x@.fields());
    case(labels, &entries, x.to_canonical_bytes().as_slice(), x.signing_input().as_slice())
}

/// The cases of a host operating key certificate.
pub open spec fn host_op_key_cert_cases() -> Seq<JsonItem> {
    seq![
        cases::signed_case(
            OP_CERT_FRESH@,
            op_cert_fresh().fields(),
            op_cert_fresh().bytes(),
            op_cert_fresh().signed_bytes(),
        ),
        cases::signed_case(
            OP_CERT_ROTATED@,
            op_cert_rotated().fields(),
            op_cert_rotated().bytes(),
            op_cert_rotated().signed_bytes(),
        ),
    ]
}

/// The vectors of a host operating key certificate.
pub fn host_op_key_cert_vectors() -> (r: Json)
    ensures
        r@ == cases::signed_file("HostOpKeyCert"@, tags::HOST_OP_KEY_CERT_V1@, host_op_key_cert_cases()),
{
    let listed: Vec<Json> = vec![
        host_op_key_cert_case(OP_CERT_FRESH, &make_op_cert_fresh()),
        host_op_key_cert_case(OP_CERT_ROTATED, &make_op_cert_rotated()),
    ];
    assert(json::values_of(listed@) =~= host_op_key_cert_cases());
    artifact_file("HostOpKeyCert", tags::HOST_OP_KEY_CERT_V1.as_slice(), listed)
}

// ---- what the cases show ----

/// The cases of an envelope, by name and contents.
pub proof fn law_envelope_cases_show()
    ensures
        envelope_cases().len() == 3,
        envelope_cases()[0] matches JsonItem::Obj(members) && members[0] == (
            "name"@,
            JsonItem::Str("first_message_with_eph_pk"@),
        ) && members[2].0 == "decoded"@ && (members[2].1 matches JsonItem::Obj(fields) && {
            &&& fields.len() == 11
            &&& fields[0] == ("v"@, JsonItem::UInt(1))
            &&& fields[1] == ("alg_id"@, JsonItem::UInt(1))
            &&& fields[2] == ("from_fp"@, json::hex_item(cases::repeated(0x11, 32)))
            &&& fields[3] == ("to_fp"@, json::hex_item(cases::repeated(0x22, 32)))
            &&& fields[4] == ("sid"@, json::hex_item(cases::repeated(0xaa, 16)))
            &&& fields[5] == ("kind"@, JsonItem::UInt(1))
            &&& fields[6] == ("seq"@, JsonItem::UInt(0))
            &&& fields[7] == ("ts"@, JsonItem::UInt(1_755_907_200))
            &&& fields[8] == ("eph_pk"@, json::hex_item(cases::repeated(0xbb, 32)))
            &&& fields[9] == ("ciphertext"@, json::hex_item(seq![0xc0u8, 0xffu8, 0xeeu8, 0x01u8,
                0x02u8, 0x03u8]))
            &&& fields[10] == ("sig"@, json::hex_item(cases::repeated(0x99, 64)))
        }),
        envelope_cases()[1] matches JsonItem::Obj(members) && members[0] == (
            "name"@,
            JsonItem::Str("subsequent_message_no_eph_pk"@),
        ) && members[2].0 == "decoded"@ && (members[2].1 matches JsonItem::Obj(fields) && {
            &&& fields.len() == 10
            &&& fields[0] == ("v"@, JsonItem::UInt(1))
            &&& fields[1] == ("alg_id"@, JsonItem::UInt(1))
            &&& fields[2] == ("from_fp"@, json::hex_item(cases::repeated(0x22, 32)))
            &&& fields[3] == ("to_fp"@, json::hex_item(cases::repeated(0x11, 32)))
            &&& fields[4] == ("sid"@, json::hex_item(cases::repeated(0xaa, 16)))
            &&& fields[5] == ("kind"@, JsonItem::UInt(3))
            &&& fields[6] == ("seq"@, JsonItem::UInt(7))
            &&& fields[7] == ("ts"@, JsonItem::UInt(1_755_907_260))
            &&& fields[8] == ("ciphertext"@, json::hex_item(seq![0xdeu8, 0xadu8, 0xbeu8, 0xefu8]))
            &&& fields[9] == ("sig"@, json::hex_item(cases::repeated(0x88, 64)))
        }),
        envelope_cases()[2] matches JsonItem::Obj(members) && members[0] == (
            "name"@,
            JsonItem::Str("large_seq_empty_ciphertext"@),
        ) && members[2].0 == "decoded"@ && (members[2].1 matches JsonItem::Obj(fields) && {
            &&& fields.len() == 11
            &&& fields[0] == ("v"@, JsonItem::UInt(1))
            &&& fields[1] == ("alg_id"@, JsonItem::UInt(1))
            &&& fields[2] == ("from_fp"@, json::hex_item(cases::repeated(0x33, 32)))
            &&& fields[3] == ("to_fp"@, json::hex_item(cases::repeated(0x44, 32)))
            &&& fields[4] == ("sid"@, json::hex_item(cases::repeated(0xcd, 16)))
            &&& fields[5] == ("kind"@, JsonItem::UInt(0))
            &&& fields[6] == ("seq"@, JsonItem::UInt(4_294_967_296))
            &&& fields[7] == ("ts"@, JsonItem::UInt(1_756_000_000))
            &&& fields[8] == ("eph_pk"@, json::hex_item(cases::repeated(0xee, 32)))
            &&& fields[9] == ("ciphertext"@, json::hex_item(Seq::empty()))
            &&& fields[10] == ("sig"@, json::hex_item(cases::repeated(0x77, 64)))
        }),
{
    reveal_strlit("args");
    reveal_strlit("v");
    reveal_strlit("alg_id");
    reveal_strlit("from_fp");
    reveal_strlit("to_fp");
    reveal_strlit("sid");
    reveal_strlit("kind");
    reveal_strlit("seq");
    reveal_strlit("ts");
    reveal_strlit("eph_pk");
    reveal_strlit("ciphertext");
    reveal_strlit("sig");
    assert("v"@.len() != "args"@.len());
    assert("alg_id"@.len() != "args"@.len());
    assert("from_fp"@.len() != "args"@.len());
    assert("to_fp"@.len() != "args"@.len());
    assert("sid"@.len() != "args"@.len());
    assert("kind"@[0] != "args"@[0]);
    assert("seq"@.len() != "args"@.len());
    assert("ts"@.len() != "args"@.len());
    assert("eph_pk"@.len() != "args"@.len());
    assert("ciphertext"@.len() != "args"@.len());
    assert("sig"@.len() != "args"@.len());
}

/// The cases of a capability, by name and contents.
pub proof fn law_capability_cases_show()
    ensures
        capability_cases().len() == 2,
        capability_cases()[0] matches JsonItem::Obj(members) && members[0] == (
            "name"@,
            JsonItem::Str("invite_cap"@),
        ) && members[2].0 == "decoded"@ && (members[2].1 matches JsonItem::Obj(fields) && {
            &&& fields.len() == 10
            &&& fields[0] == ("v"@, JsonItem::UInt(1))
            &&& fields[1] == ("host_fp"@, json::hex_item(cases::repeated(0x10, 32)))
            &&& fields[2] == ("host_root_pk"@, json::hex_item(cases::repeated(0x20, 32)))
            &&& fields[3] == ("op_cert"@, json::hex_item(embedded_op_cert().bytes()))
            &&& fields[4] == ("kind"@, JsonItem::UInt(0))
            &&& fields[5] == ("subject"@, json::hex_item(cases::repeated(0x30, 32)))
            &&& fields[6] == ("cap_epoch"@, JsonItem::UInt(0))
            &&& fields[7] == ("exp"@, JsonItem::UInt(1_755_993_600))
            &&& fields[8] == ("nonce"@, json::hex_item(cases::repeated(0x40, 16)))
            &&& fields[9] == ("sig"@, json::hex_item(cases::repeated(0x50, 64)))
        }),
        capability_cases()[1] matches JsonItem::Obj(members) && members[0] == (
            "name"@,
            JsonItem::Str("member_cap"@),
        ) && members[2].0 == "decoded"@ && (members[2].1 matches JsonItem::Obj(fields) && {
            &&& fields.len() == 10
            &&& fields[0] == ("v"@, JsonItem::UInt(1))
            &&& fields[1] == ("host_fp"@, json::hex_item(cases::repeated(0x10, 32)))
            &&& fields[2] == ("host_root_pk"@, json::hex_item(cases::repeated(0x20, 32)))
            &&& fields[3] == ("op_cert"@, json::hex_item(embedded_op_cert().bytes()))
            &&& fields[4] == ("kind"@, JsonItem::UInt(1))
            &&& fields[5] == ("subject"@, json::hex_item(cases::repeated(0x30, 32)))
            &&& fields[6] == ("cap_epoch"@, JsonItem::UInt(3))
            &&& fields[7] == ("exp"@, JsonItem::UInt(1_759_017_600))
            &&& fields[8] == ("nonce"@, json::hex_item(cases::repeated(0x40, 16)))
            &&& fields[9] == ("sig"@, json::hex_item(cases::repeated(0x50, 64)))
        }),
{
    reveal_strlit("args");
    reveal_strlit("v");
    reveal_strlit("host_fp");
    reveal_strlit("host_root_pk");
    reveal_strlit("op_cert");
    reveal_strlit("kind");
    reveal_strlit("subject");
    reveal_strlit("cap_epoch");
    reveal_strlit("exp");
    reveal_strlit("nonce");
    reveal_strlit("sig");
    assert("v"@.len() != "args"@.len());
    assert("host_fp"@.len() != "args"@.len());
    assert("host_root_pk"@.len() != "args"@.len());
    assert("op_cert"@.len() != "args"@.len());
    assert("kind"@[0] != "args"@[0]);
    assert("subject"@.len() != "args"@.len());
    assert("cap_epoch"@.len() != "args"@.len());
    assert("exp"@.len() != "args"@.len());
    assert("nonce"@.len() != "args"@.len());
    assert("sig"@.len() != "args"@.len());
}

/// The cases of an admission token, by name and contents.
pub proof fn law_admission_token_cases_show()
    ensures
        admission_token_cases().len() == 2,
        admission_token_cases()[0] matches JsonItem::Obj(members) && members[0] == (
            "name"@,
            JsonItem::Str("default_quota"@),
        ) && members[2].0 == "decoded"@ && (members[2].1 matches JsonItem::Obj(fields) && {
            &&& fields.len() == 5
            &&& fields[0] == ("nonce"@, json::hex_item(cases::repeated(0x61, 16)))
            &&& fields[1] == ("exp"@, JsonItem::UInt(1_756_512_000))
            &&& fields[2] == ("label"@, JsonItem::Str("workshop-nas"@))
            &&& fields[3] == ("quota_profile"@, JsonItem::Str("default"@))
            &&& fields[4] == ("sig_operator"@, json::hex_item(cases::repeated(0x62, 64)))
        }),
        admission_token_cases()[1] matches JsonItem::Obj(members) && members[0] == (
            "name"@,
            JsonItem::Str("custom_quota"@),
        ) && members[2].0 == "decoded"@ && (members[2].1 matches JsonItem::Obj(fields) && {
            &&& fields.len() == 5
            &&& fields[0] == ("nonce"@, json::hex_item(cases::repeated(0x63, 16)))
            &&& fields[1] == ("exp"@, JsonItem::UInt(1_758_326_400))
            &&& fields[2] == ("label"@, JsonItem::Str("backoffice-archive"@))
            &&& fields[3] == ("quota_profile"@, JsonItem::Str("high-bandwidth"@))
            &&& fields[4] == ("sig_operator"@, json::hex_item(cases::repeated(0x64, 64)))
        }),
{
    reveal_strlit("args");
    reveal_strlit("nonce");
    reveal_strlit("exp");
    reveal_strlit("label");
    reveal_strlit("quota_profile");
    reveal_strlit("sig_operator");
    assert("nonce"@.len() != "args"@.len());
    assert("exp"@.len() != "args"@.len());
    assert("label"@.len() != "args"@.len());
    assert("quota_profile"@.len() != "args"@.len());
    assert("sig_operator"@.len() != "args"@.len());
}

/// The cases of a device certificate, by name and contents.
pub proof fn law_device_certificate_cases_show()
    ensures
        device_certificate_cases().len() == 2,
        device_certificate_cases()[0] matches JsonItem::Obj(members) && members[0] == (
            "name"@,
            JsonItem::Str("freshly_issued"@),
        ) && members[2].0 == "decoded"@ && (members[2].1 matches JsonItem::Obj(fields) && {
            &&& fields.len() == 8
            &&& fields[0] == ("device_fp"@, json::hex_item(cases::repeated(0x71, 32)))
            &&& fields[1] == ("alg_id"@, JsonItem::UInt(1))
            &&& fields[2] == ("sign_pk"@, json::hex_item(cases::repeated(0x77, 32)))
            &&& fields[3] == ("agree_pk"@, json::hex_item(cases::repeated(0x78, 32)))
            &&& fields[4] == ("nats_fp"@, json::hex_item(cases::repeated(0x72, 32)))
            &&& fields[5] == ("ts"@, JsonItem::UInt(1_755_907_200))
            &&& fields[6] == ("exp"@, JsonItem::UInt(1_787_443_200))
            &&& fields[7] == ("sig_root"@, json::hex_item(cases::repeated(0x73, 64)))
        }),
        device_certificate_cases()[1] matches JsonItem::Obj(members) && members[0] == (
            "name"@,
            JsonItem::Str("re_signed_on_contact"@),
        ) && members[2].0 == "decoded"@ && (members[2].1 matches JsonItem::Obj(fields) && {
            &&& fields.len() == 8
            &&& fields[0] == ("device_fp"@, json::hex_item(cases::repeated(0x74, 32)))
            &&& fields[1] == ("alg_id"@, JsonItem::UInt(1))
            &&& fields[2] == ("sign_pk"@, json::hex_item(cases::repeated(0x79, 32)))
            &&& fields[3] == ("agree_pk"@, json::hex_item(cases::repeated(0x7a, 32)))
            &&& fields[4] == ("nats_fp"@, json::hex_item(cases::repeated(0x75, 32)))
            &&& fields[5] == ("ts"@, JsonItem::UInt(1_756_000_000))
            &&& fields[6] == ("exp"@, JsonItem::UInt(1_787_536_000))
            &&& fields[7] == ("sig_root"@, json::hex_item(cases::repeated(0x76, 64)))
        }),
{
    reveal_strlit("args");
    reveal_strlit("device_fp");
    reveal_strlit("alg_id");
    reveal_strlit("sign_pk");
    reveal_strlit("agree_pk");
    reveal_strlit("nats_fp");
    reveal_strlit("ts");
    reveal_strlit("exp");
    reveal_strlit("sig_root");
    assert("device_fp"@.len() != "args"@.len());
    assert("alg_id"@.len() != "args"@.len());
    assert("sign_pk"@.len() != "args"@.len());
    assert("agree_pk"@.len() != "args"@.len());
    assert("nats_fp"@.len() != "args"@.len());
    assert("ts"@.len() != "args"@.len());
    assert("exp"@.len() != "args"@.len());
    assert("sig_root"@.len() != "args"@.len());
}

/// The cases of a revocation record, by name and contents.
pub proof fn law_revocation_record_cases_show()
    ensures
        revocation_record_cases().len() == 3,
        revocation_record_cases()[0] matches JsonItem::Obj(members) && members[0] == (
            "name"@,
            JsonItem::Str("single_device_revoked"@),
        ) && members[2].0 == "decoded"@ && (members[2].1 matches JsonItem::Obj(fields) && {
            &&& fields.len() == 5
            &&& fields[0] == ("host_fp"@, json::hex_item(cases::repeated(0x81, 32)))
            &&& fields[1] == ("epoch"@, JsonItem::UInt(1))
            &&& fields[2] == ("revoked"@, JsonItem::Arr(seq![json::hex_item(cases::repeated(0x82,
                32))]))
            &&& fields[3] == ("ts"@, JsonItem::UInt(1_755_907_200))
            &&& fields[4] == ("sig"@, json::hex_item(cases::repeated(0x83, 64)))
        }),
        revocation_record_cases()[1] matches JsonItem::Obj(members) && members[0] == (
            "name"@,
            JsonItem::Str("multiple_fingerprints_revoked"@),
        ) && members[2].0 == "decoded"@ && (members[2].1 matches JsonItem::Obj(fields) && {
            &&& fields.len() == 5
            &&& fields[0] == ("host_fp"@, json::hex_item(cases::repeated(0x84, 32)))
            &&& fields[1] == ("epoch"@, JsonItem::UInt(5))
            &&& fields[2] == ("revoked"@, JsonItem::Arr(seq![json::hex_item(cases::repeated(0x85,
                32)), json::hex_item(cases::repeated(0x86, 32)),
                json::hex_item(cases::repeated(0x87, 32))]))
            &&& fields[3] == ("ts"@, JsonItem::UInt(1_756_000_000))
            &&& fields[4] == ("sig"@, json::hex_item(cases::repeated(0x88, 64)))
        }),
        revocation_record_cases()[2] matches JsonItem::Obj(members) && members[0] == (
            "name"@,
            JsonItem::Str("empty_revoked_array"@),
        ) && members[2].0 == "decoded"@ && (members[2].1 matches JsonItem::Obj(fields) && {
            &&& fields.len() == 5
            &&& fields[0] == ("host_fp"@, json::hex_item(cases::repeated(0x89, 32)))
            &&& fields[1] == ("epoch"@, JsonItem::UInt(0))
            &&& fields[2] == ("revoked"@, JsonItem::Arr(Seq::empty()))
            &&& fields[3] == ("ts"@, JsonItem::UInt(1_755_800_000))
            &&& fields[4] == ("sig"@, json::hex_item(cases::repeated(0x8a, 64)))
        }),
{
    reveal_strlit("args");
    reveal_strlit("host_fp");
    reveal_strlit("epoch");
    reveal_strlit("revoked");
    reveal_strlit("ts");
    reveal_strlit("sig");
    assert("host_fp"@.len() != "args"@.len());
    assert("epoch"@.len() != "args"@.len());
    assert("revoked"@.len() != "args"@.len());
    assert("ts"@.len() != "args"@.len());
    assert("sig"@.len() != "args"@.len());
    let listed = cases::shown_fields(one_revoked().fields())->Obj_0;
    assert(listed[2].1->Arr_0 =~= seq![json::hex_item(cases::repeated(0x82, 32))]);
    let listed = cases::shown_fields(three_revoked().fields())->Obj_0;
    assert(listed[2].1->Arr_0 =~= seq![json::hex_item(cases::repeated(0x85, 32)),
        json::hex_item(cases::repeated(0x86, 32)), json::hex_item(cases::repeated(0x87, 32))]);
    let listed = cases::shown_fields(none_revoked().fields())->Obj_0;
    assert(listed[2].1->Arr_0 =~= Seq::empty());
}

/// The cases of an admin command, by name and contents.
pub proof fn law_admin_command_cases_show()
    ensures
        admin_command_cases().len() == 3,
        admin_command_cases()[0] matches JsonItem::Obj(members) && members[0] == (
            "name"@,
            JsonItem::Str("evict_host_with_map_args"@),
        ) && members[2].0 == "decoded"@ && (members[2].1 matches JsonItem::Obj(fields) && {
            &&& fields.len() == 8
            &&& fields[0] == ("v"@, JsonItem::UInt(1))
            &&& fields[1] == ("cmd"@, JsonItem::Str("evict_host"@))
            &&& fields[2].0 == "args"@
            &&& mirror::rebuilt(fields[2].1) == Some(item::record(seq![("host_fp"@,
                Item::Bytes(cases::repeated(0x91, 32)))]))
            &&& fields[3] == ("signer_fp"@, json::hex_item(cases::repeated(0x92, 32)))
            &&& fields[4] == ("seq"@, JsonItem::UInt(12))
            &&& fields[5] == ("nonce"@, json::hex_item(cases::repeated(0x93, 16)))
            &&& fields[6] == ("ts"@, JsonItem::UInt(1_755_907_200))
            &&& fields[7] == ("sig"@, json::hex_item(cases::repeated(0x94, 64)))
        }),
        admin_command_cases()[1] matches JsonItem::Obj(members) && members[0] == (
            "name"@,
            JsonItem::Str("set_mode_with_text_arg"@),
        ) && members[2].0 == "decoded"@ && (members[2].1 matches JsonItem::Obj(fields) && {
            &&& fields.len() == 8
            &&& fields[0] == ("v"@, JsonItem::UInt(1))
            &&& fields[1] == ("cmd"@, JsonItem::Str("set_mode"@))
            &&& fields[2].0 == "args"@
            &&& mirror::rebuilt(fields[2].1) == Some(item::record(seq![("mode"@,
                Item::Text("open"@))]))
            &&& fields[3] == ("signer_fp"@, json::hex_item(cases::repeated(0x95, 32)))
            &&& fields[4] == ("seq"@, JsonItem::UInt(13))
            &&& fields[5] == ("nonce"@, json::hex_item(cases::repeated(0x96, 16)))
            &&& fields[6] == ("ts"@, JsonItem::UInt(1_755_907_260))
            &&& fields[7] == ("sig"@, json::hex_item(cases::repeated(0x97, 64)))
        }),
        admin_command_cases()[2] matches JsonItem::Obj(members) && members[0] == (
            "name"@,
            JsonItem::Str("rotate_key_with_null_args"@),
        ) && members[2].0 == "decoded"@ && (members[2].1 matches JsonItem::Obj(fields) && {
            &&& fields.len() == 8
            &&& fields[0] == ("v"@, JsonItem::UInt(1))
            &&& fields[1] == ("cmd"@, JsonItem::Str("rotate_admission_key"@))
            &&& fields[2].0 == "args"@
            &&& mirror::rebuilt(fields[2].1) == Some(Item::Null)
            &&& fields[3] == ("signer_fp"@, json::hex_item(cases::repeated(0x98, 32)))
            &&& fields[4] == ("seq"@, JsonItem::UInt(14))
            &&& fields[5] == ("nonce"@, json::hex_item(cases::repeated(0x99, 16)))
            &&& fields[6] == ("ts"@, JsonItem::UInt(1_755_907_320))
            &&& fields[7] == ("sig"@, json::hex_item(cases::repeated(0x9a, 64)))
        }),
{
    reveal_strlit("args");
    reveal_strlit("v");
    reveal_strlit("cmd");
    reveal_strlit("signer_fp");
    reveal_strlit("seq");
    reveal_strlit("nonce");
    reveal_strlit("ts");
    reveal_strlit("sig");
    assert("v"@.len() != "args"@.len());
    assert("cmd"@.len() != "args"@.len());
    assert("signer_fp"@.len() != "args"@.len());
    assert("seq"@.len() != "args"@.len());
    assert("nonce"@.len() != "args"@.len());
    assert("ts"@.len() != "args"@.len());
    assert("sig"@.len() != "args"@.len());
    mirror::law_rebuilt(evict_host().args);
    mirror::law_rebuilt(set_mode().args);
    mirror::law_rebuilt(rotate_key().args);
}

/// The cases of an operating-key certificate, by name and contents.
pub proof fn law_host_op_key_cert_cases_show()
    ensures
        host_op_key_cert_cases().len() == 2,
        host_op_key_cert_cases()[0] matches JsonItem::Obj(members) && members[0] == (
            "name"@,
            JsonItem::Str("freshly_issued"@),
        ) && members[2].0 == "decoded"@ && (members[2].1 matches JsonItem::Obj(fields) && {
            &&& fields.len() == 5
            &&& fields[0] == ("host_op_pk"@, json::hex_item(cases::repeated(0xa1, 32)))
            &&& fields[1] == ("nats_fp"@, json::hex_item(cases::repeated(0xa2, 32)))
            &&& fields[2] == ("ts"@, JsonItem::UInt(1_755_907_200))
            &&& fields[3] == ("exp"@, JsonItem::UInt(1_763_683_200))
            &&& fields[4] == ("sig_host_root"@, json::hex_item(cases::repeated(0xa3, 64)))
        }),
        host_op_key_cert_cases()[1] matches JsonItem::Obj(members) && members[0] == (
            "name"@,
            JsonItem::Str("rotated"@),
        ) && members[2].0 == "decoded"@ && (members[2].1 matches JsonItem::Obj(fields) && {
            &&& fields.len() == 5
            &&& fields[0] == ("host_op_pk"@, json::hex_item(cases::repeated(0xa4, 32)))
            &&& fields[1] == ("nats_fp"@, json::hex_item(cases::repeated(0xa2, 32)))
            &&& fields[2] == ("ts"@, JsonItem::UInt(1_763_683_200))
            &&& fields[3] == ("exp"@, JsonItem::UInt(1_771_459_200))
            &&& fields[4] == ("sig_host_root"@, json::hex_item(cases::repeated(0xa5, 64)))
        }),
{
    reveal_strlit("args");
    reveal_strlit("host_op_pk");
    reveal_strlit("nats_fp");
    reveal_strlit("ts");
    reveal_strlit("exp");
    reveal_strlit("sig_host_root");
    assert("host_op_pk"@.len() != "args"@.len());
    assert("nats_fp"@.len() != "args"@.len());
    assert("ts"@.len() != "args"@.len());
    assert("exp"@.len() != "args"@.len());
    assert("sig_host_root"@.len() != "args"@.len());
}

} // verus!
