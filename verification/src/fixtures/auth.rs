//! The tokens that devices and hosts present when they connect.
//!
//! A token is the base64 text of a canonical record. It holds the certificate chain of the one who
//! connects and an attestation that binds the chain to the key of this one connection.
use crate::net::fingerprint;
use crate::net::fingerprint::Fingerprint;
use crate::net::quic;
use crate::net::quic::sha256;
use crate::proto::artifacts::capability;
use crate::proto::artifacts::capability::{Capability, CapabilityModel};
use crate::proto::artifacts::device_certificate;
use crate::proto::artifacts::device_certificate::{DeviceCertificate, DeviceCertificateModel};
use crate::proto::artifacts::host_op_key_cert;
use crate::proto::artifacts::host_op_key_cert::{HostOpKeyCert, HostOpKeyCertModel};
use crate::proto::canonical;
use crate::proto::canonical::{canonical_encode, CborValue, MAX_NESTING_DEPTH};
use crate::proto::item;
use crate::proto::item::Item;
use crate::proto::record;
use crate::proto::roundtrip;
use vstd::prelude::*;

verus! {

// ---- base64 ----

/// One bit, as a number.
pub open spec fn unit(bit: bool) -> int {
    if bit {
        1
    } else {
        0
    }
}

/// The six bits that the symbol at `i` stands for.
pub open spec fn sextet(bytes: Seq<u8>, i: int) -> int {
    32 * unit(fingerprint::bit_at(bytes, 6 * i)) + 16 * unit(fingerprint::bit_at(bytes, 6 * i + 1))
        + 8 * unit(fingerprint::bit_at(bytes, 6 * i + 2)) + 4 * unit(
        fingerprint::bit_at(bytes, 6 * i + 3),
    ) + 2 * unit(fingerprint::bit_at(bytes, 6 * i + 4)) + unit(
        fingerprint::bit_at(bytes, 6 * i + 5),
    )
}

/// The symbol of a number below 64: `A` to `Z`, `a` to `z`, `0` to `9`, `-` and `_`.
pub open spec fn url_symbol(v: int) -> char {
    if v < 26 {
        (65 + v) as char
    } else if v < 52 {
        (71 + v) as char
    } else if v < 62 {
        (v - 4) as char
    } else if v == 62 {
        '-'
    } else {
        '_'
    }
}

/// How many symbols `len` bytes take.
pub open spec fn symbols(len: nat) -> nat {
    (4 * len + 2) / 3
}

/// The base64 text of RFC 4648 in its URL-safe alphabet, without padding: six bits to a symbol, the
/// last one filled up with zeros.
pub open spec fn base64url(bytes: Seq<u8>) -> Seq<char> {
    Seq::new(symbols(bytes.len()), |i: int| url_symbol(sextet(bytes, i)))
}

/// `Engine::encode` of the `base64` crate, with its engine `URL_SAFE_NO_PAD`, writes the URL-safe
/// base64 text without padding. Text for which there is no room in memory is left out.
#[verifier::external_body]
fn b64url(bytes: &[u8]) -> (text: String)
    requires
        symbols(bytes@.len()) <= isize::MAX,
    ensures
        text@ == base64url(bytes@),
{
    base64::Engine::encode(&base64::engine::general_purpose::URL_SAFE_NO_PAD, bytes)
}

proof fn lemma_url_symbol_injective(a: int, b: int)
    requires
        0 <= a < 64,
        0 <= b < 64,
        url_symbol(a) == url_symbol(b),
    ensures
        a == b,
{
    assert(url_symbol(a) as int == (if a < 26 {
        65 + a
    } else if a < 52 {
        71 + a
    } else if a < 62 {
        a - 4
    } else if a == 62 {
        45
    } else {
        95
    }));
}

/// Different byte strings have different base64 texts.
pub proof fn law_base64url_injective(a: Seq<u8>, b: Seq<u8>)
    requires
        base64url(a) == base64url(b),
    ensures
        a == b,
{
    assert(base64url(a).len() == symbols(a.len()));
    assert(base64url(b).len() == symbols(b.len()));
    assert(a.len() == b.len());
    assert forall|i: int| 0 <= i < a.len() implies a[i] == b[i] by {
        assert forall|j: int| 0 <= j < 8 implies #[trigger] fingerprint::bit_of(a[i], j)
            == fingerprint::bit_of(b[i], j) by {
            let k = 8 * i + j;
            assert(k / 8 == i && k % 8 == j);
            let at = k / 6;
            assert(0 <= at < symbols(a.len()));
            assert(base64url(a)[at] == url_symbol(sextet(a, at)));
            assert(base64url(b)[at] == url_symbol(sextet(b, at)));
            lemma_url_symbol_injective(sextet(a, at), sextet(b, at));
            assert(fingerprint::bit_at(a, k) == fingerprint::bit_at(b, k));
        }
        fingerprint::lemma_byte_of_bits(a[i], b[i]);
    }
    assert(a =~= b);
}

// ---- connection keys ----

/// The public key that an encoded key stands for, if it stands for one.
pub uninterp spec fn nkey_bytes(encoded: Seq<char>) -> Option<Seq<u8>>;

/// `nkeys::from_public_key` checks the length, the checksum and the prefix of an encoded public key
/// and hands back the prefix and the 32 bytes of the key. Both depend on the text alone.
#[verifier::external_body]
fn nkey_public(encoded: &str) -> (key: Option<[u8; 32]>)
    ensures
        match key {
            Some(bytes) => nkey_bytes(encoded@) == Some(bytes@),
            None => nkey_bytes(encoded@) is None,
        },
{
    match nkeys::from_public_key(encoded) {
        Ok((_, raw)) => Some(raw),
        Err(_) => None,
    }
}

/// The fingerprint of a connection's key: the SHA-256 digest of the public key, where the text is
/// an encoded one.
pub fn nats_fp_of_nkey(pubkey_str: &str) -> (fp: Option<Fingerprint>)
    ensures
        match fp {
            Some(f) => nkey_bytes(pubkey_str@) matches Some(key) && f@ == quic::sha256_of(key),
            None => nkey_bytes(pubkey_str@) is None,
        },
{
    match nkey_public(pubkey_str) {
        Some(raw) => Some(nats_fp(&raw)),
        None => None,
    }
}

/// The fingerprint of a public key.
pub fn nats_fp(key: &[u8; 32]) -> (fp: Fingerprint)
    ensures
        fp@ == quic::sha256_of(key@),
{
    Fingerprint { bytes: sha256(key.as_slice()) }
}

// ---- device tokens ----

/// What a device presents.
pub struct DeviceTokenModel {
    pub root_pk: Seq<u8>,
    pub device_cert: DeviceCertificateModel,
    pub session_attest: Seq<u8>,
    pub caps: Seq<CapabilityModel>,
}

/// What a list of capabilities stands for.
pub open spec fn capability_models(caps: Seq<Capability>) -> Seq<CapabilityModel> {
    Seq::new(caps.len(), |i: int| caps[i]@)
}

/// The canonical bytes of each capability.
pub open spec fn capability_bytes(caps: Seq<CapabilityModel>) -> Seq<Seq<u8>> {
    Seq::new(caps.len(), |i: int| caps[i].bytes())
}

impl DeviceTokenModel {
    /// The record: the certificate and the capabilities are held as their canonical bytes.
    pub open spec fn fields(self) -> Seq<(Seq<char>, Item)> {
        seq![
            ("kind"@, Item::Text("device"@)),
            ("root_pk"@, Item::Bytes(self.root_pk)),
            ("device_cert"@, Item::Bytes(self.device_cert.bytes())),
            ("session_attest"@, Item::Bytes(self.session_attest)),
            ("caps"@, record::bytes_list(capability_bytes(self.caps))),
        ]
    }

    /// The canonical bytes of the record.
    pub open spec fn bytes(self) -> Seq<u8> {
        item::encoding(item::record(self.fields()))
    }

    /// The token.
    pub open spec fn token(self) -> Seq<char> {
        base64url(self.bytes())
    }

    /// Every length in the record, and in what it holds, has an encoding.
    pub open spec fn fits(self) -> bool {
        &&& item::lengths_fit(item::record(self.fields()))
        &&& item::lengths_fit(item::record(self.device_cert.fields()))
        &&& forall|i: int|
            0 <= i < self.caps.len() ==> item::lengths_fit(
                item::record((#[trigger] self.caps[i]).fields()),
            )
    }
}

proof fn lemma_device_fields(m: DeviceTokenModel)
    ensures
        record::names_distinct(m.fields()),
        record::values_unique(m.fields()),
        record::values_nest(m.fields(), MAX_NESTING_DEPTH - 1),
{
    reveal_strlit("kind");
    reveal_strlit("root_pk");
    reveal_strlit("device_cert");
    reveal_strlit("session_attest");
    reveal_strlit("caps");
    assert("kind"@.len() == 4);
    assert("root_pk"@.len() == 7);
    assert("device_cert"@.len() == 11);
    assert("session_attest"@.len() == 14);
    assert("caps"@.len() == 4);
    assert("kind"@[0] != "caps"@[0]);
    record::lemma_bytes_list(capability_bytes(m.caps));
}

/// The token that a device presents: its root key, its certificate, the canonical bytes of its
/// attestation of this connection, and the capabilities that it holds.
pub fn device_auth_token(
    root_pk_bytes: &[u8; 32],
    device_cert: &DeviceCertificate,
    session_attest: &[u8],
    caps: &[Capability],
) -> (token: String)
    requires
        symbols(
            (DeviceTokenModel {
                root_pk: root_pk_bytes@,
                device_cert: device_cert@,
                session_attest: session_attest@,
                caps: capability_models(caps@),
            }).bytes().len(),
        ) <= isize::MAX,
    ensures
        token@ == (DeviceTokenModel {
            root_pk: root_pk_bytes@,
            device_cert: device_cert@,
            session_attest: session_attest@,
            caps: capability_models(caps@),
        }).token(),
{
    let ghost m = DeviceTokenModel {
        root_pk: root_pk_bytes@,
        device_cert: device_cert@,
        session_attest: session_attest@,
        caps: capability_models(caps@),
    };
    let total: usize = caps.len();
    let mut cap_bytes: Vec<CborValue> = Vec::new();
    let mut i: usize = 0;
    while i < total
        invariant
            i <= total == caps@.len(),
            cap_bytes@.len() == i,
            forall|j: int|
                0 <= j < i ==> (#[trigger] cap_bytes@[j])@ == Item::Bytes(caps@[j]@.bytes()),
        decreases total - i,
    {
        cap_bytes.push(CborValue::bytes(caps[i].to_canonical_bytes()));
        i += 1;
    }
    assert(canonical::items_of(cap_bytes@) =~= record::bytes_list(
        capability_bytes(m.caps),
    )->Array_0);
    let entries: Vec<(&str, CborValue)> = vec![
        ("kind", CborValue::text("device")),
        ("root_pk", CborValue::bytes(root_pk_bytes.as_slice())),
        ("device_cert", CborValue::bytes(device_cert.to_canonical_bytes())),
        ("session_attest", CborValue::bytes(session_attest)),
        ("caps", CborValue::array(cap_bytes)),
    ];
    assert(canonical::fields_of(entries@) =~= m.fields());
    proof {
        lemma_device_fields(m);
        record::lemma_record_unique(m.fields());
    }
    b64url(canonical_encode(&CborValue::map(entries)).as_slice())
}

/// A device's token determines everything that it was made of.
pub proof fn law_device_token_unique(a: DeviceTokenModel, b: DeviceTokenModel)
    requires
        a.fits(),
        b.fits(),
        a.token() == b.token(),
    ensures
        a == b,
{
    law_base64url_injective(a.bytes(), b.bytes());
    lemma_device_fields(a);
    lemma_device_fields(b);
    let fa = a.fields();
    let fb = b.fields();
    record::lemma_record_unique(fa);
    record::lemma_record_unique(fb);
    record::lemma_record_nests(fa, MAX_NESTING_DEPTH as int);
    record::lemma_record_nests(fb, MAX_NESTING_DEPTH as int);
    roundtrip::law_decode_of_encode(item::record(fa));
    roundtrip::law_decode_of_encode(item::record(fb));
    let ea = record::lemma_canonical_record(fa);
    let eb = record::lemma_canonical_record(fb);
    assert(ea == eb);
    assert(fa[1].0 == fb[1].0);
    assert(fa[2].0 == fb[2].0);
    assert(fa[3].0 == fb[3].0);
    assert(fa[4].0 == fb[4].0);
    assert(a.root_pk == b.root_pk);
    assert(a.device_cert.bytes() == b.device_cert.bytes());
    device_certificate::law_device_certificate_round_trip(a.device_cert);
    device_certificate::law_device_certificate_round_trip(b.device_cert);
    let la = capability_bytes(a.caps);
    let lb = capability_bytes(b.caps);
    record::lemma_bytes_list(la);
    record::lemma_bytes_list(lb);
    assert(record::bytes_list(la) == record::bytes_list(lb));
    let xa = record::bytes_list(la)->Array_0;
    let xb = record::bytes_list(lb)->Array_0;
    assert(xa.len() == a.caps.len() && xb.len() == b.caps.len());
    assert forall|i: int| 0 <= i < a.caps.len() implies a.caps[i] == b.caps[i] by {
        assert(xa[i] == xb[i]);
        assert(a.caps[i].bytes() == b.caps[i].bytes());
        capability::law_capability_round_trip(a.caps[i]);
        capability::law_capability_round_trip(b.caps[i]);
    }
    assert(a.caps =~= b.caps);
}

// ---- host tokens ----

/// What a host presents.
pub struct HostTokenModel {
    pub host_root_pk: Seq<u8>,
    pub host_op_cert: HostOpKeyCertModel,
    pub session_attest: Seq<u8>,
}

impl HostTokenModel {
    /// The record: the certificate is held as its canonical bytes.
    pub open spec fn fields(self) -> Seq<(Seq<char>, Item)> {
        seq![
            ("kind"@, Item::Text("host"@)),
            ("host_root_pk"@, Item::Bytes(self.host_root_pk)),
            ("host_op_cert"@, Item::Bytes(self.host_op_cert.bytes())),
            ("session_attest"@, Item::Bytes(self.session_attest)),
        ]
    }

    /// The canonical bytes of the record.
    pub open spec fn bytes(self) -> Seq<u8> {
        item::encoding(item::record(self.fields()))
    }

    /// The token.
    pub open spec fn token(self) -> Seq<char> {
        base64url(self.bytes())
    }

    /// Every length in the record, and in the certificate, has an encoding.
    pub open spec fn fits(self) -> bool {
        &&& item::lengths_fit(item::record(self.fields()))
        &&& item::lengths_fit(item::record(self.host_op_cert.fields()))
    }
}

proof fn lemma_host_fields(m: HostTokenModel)
    ensures
        record::names_distinct(m.fields()),
        record::values_unique(m.fields()),
        record::values_nest(m.fields(), MAX_NESTING_DEPTH - 1),
{
    reveal_strlit("kind");
    reveal_strlit("host_root_pk");
    reveal_strlit("host_op_cert");
    reveal_strlit("session_attest");
    assert("kind"@.len() == 4);
    assert("host_root_pk"@.len() == 12);
    assert("host_op_cert"@.len() == 12);
    assert("session_attest"@.len() == 14);
    assert("host_root_pk"@[5] != "host_op_cert"@[5]);
}

/// The token that a host presents: its root key, the certificate of its operating key, and the
/// canonical bytes of its attestation of this connection. There is no admission token: hosts are
/// admitted openly.
pub fn host_auth_token(
    host_root_pk_bytes: &[u8; 32],
    host_op_cert: &HostOpKeyCert,
    session_attest: &[u8],
) -> (token: String)
    requires
        symbols(
            (HostTokenModel {
                host_root_pk: host_root_pk_bytes@,
                host_op_cert: host_op_cert@,
                session_attest: session_attest@,
            }).bytes().len(),
        ) <= isize::MAX,
    ensures
        token@ == (HostTokenModel {
            host_root_pk: host_root_pk_bytes@,
            host_op_cert: host_op_cert@,
            session_attest: session_attest@,
        }).token(),
{
    let ghost m = HostTokenModel {
        host_root_pk: host_root_pk_bytes@,
        host_op_cert: host_op_cert@,
        session_attest: session_attest@,
    };
    let entries: Vec<(&str, CborValue)> = vec![
        ("kind", CborValue::text("host")),
        ("host_root_pk", CborValue::bytes(host_root_pk_bytes.as_slice())),
        ("host_op_cert", CborValue::bytes(host_op_cert.to_canonical_bytes())),
        ("session_attest", CborValue::bytes(session_attest)),
    ];
    assert(canonical::fields_of(entries@) =~= m.fields());
    proof {
        lemma_host_fields(m);
        record::lemma_record_unique(m.fields());
    }
    b64url(canonical_encode(&CborValue::map(entries)).as_slice())
}

/// A host's token determines everything that it was made of.
pub proof fn law_host_token_unique(a: HostTokenModel, b: HostTokenModel)
    requires
        a.fits(),
        b.fits(),
        a.token() == b.token(),
    ensures
        a == b,
{
    law_base64url_injective(a.bytes(), b.bytes());
    lemma_host_fields(a);
    lemma_host_fields(b);
    let fa = a.fields();
    let fb = b.fields();
    record::lemma_record_unique(fa);
    record::lemma_record_unique(fb);
    record::lemma_record_nests(fa, MAX_NESTING_DEPTH as int);
    record::lemma_record_nests(fb, MAX_NESTING_DEPTH as int);
    roundtrip::law_decode_of_encode(item::record(fa));
    roundtrip::law_decode_of_encode(item::record(fb));
    let ea = record::lemma_canonical_record(fa);
    let eb = record::lemma_canonical_record(fb);
    assert(ea == eb);
    assert(fa[1].0 == fb[1].0);
    assert(fa[2].0 == fb[2].0);
    assert(fa[3].0 == fb[3].0);
    assert(a.host_op_cert.bytes() == b.host_op_cert.bytes());
    host_op_key_cert::law_host_op_key_cert_round_trip(a.host_op_cert);
    host_op_key_cert::law_host_op_key_cert_round_trip(b.host_op_cert);
}

/// No token of a device is a token of a host.
pub proof fn law_token_kinds_differ(device: DeviceTokenModel, host: HostTokenModel)
    requires
        device.fits(),
        host.fits(),
    ensures
        device.token() != host.token(),
{
    if device.token() == host.token() {
        law_base64url_injective(device.bytes(), host.bytes());
        lemma_device_fields(device);
        lemma_host_fields(host);
        let fa = device.fields();
        let fb = host.fields();
        record::lemma_record_unique(fa);
        record::lemma_record_unique(fb);
        record::lemma_record_nests(fa, MAX_NESTING_DEPTH as int);
        record::lemma_record_nests(fb, MAX_NESTING_DEPTH as int);
        roundtrip::law_decode_of_encode(item::record(fa));
        roundtrip::law_decode_of_encode(item::record(fb));
        let ea = record::lemma_canonical_record(fa);
        let eb = record::lemma_canonical_record(fb);
        assert(ea == eb);
        assert(fa[0].0 == fb[0].0);
        reveal_strlit("device");
        reveal_strlit("host");
        assert("device"@.len() != "host"@.len());
    }
}

// ---- the names in a token ----

/// What a device's token holds, and under which names.
pub proof fn law_device_token_wire(v: Item, m: DeviceTokenModel)
    requires
        item::keys_unique(v),
    ensures
        item::same_item(v, item::record(m.fields())) <==> {
            &&& record::is_map_of(v, 5)
            &&& record::holds(v, "kind"@, Item::Text("device"@))
            &&& record::holds(v, "root_pk"@, Item::Bytes(m.root_pk))
            &&& record::holds(v, "device_cert"@, Item::Bytes(m.device_cert.bytes()))
            &&& record::holds(v, "session_attest"@, Item::Bytes(m.session_attest))
            &&& record::holds(
                v,
                "caps"@,
                Item::Array(Seq::new(m.caps.len(), |i: int| Item::Bytes(m.caps[i].bytes()))),
            )
        },
        m.token() == base64url(item::encoding(item::record(m.fields()))),
{
    let fields = m.fields();
    lemma_device_fields(m);
    record::lemma_holds_all(v, fields);
    assert(fields[0] == ("kind"@, Item::Text("device"@)));
    assert(fields[1] == ("root_pk"@, Item::Bytes(m.root_pk)));
    assert(fields[2] == ("device_cert"@, Item::Bytes(m.device_cert.bytes())));
    assert(fields[3] == ("session_attest"@, Item::Bytes(m.session_attest)));
    let caps = Seq::new(m.caps.len(), |i: int| Item::Bytes(m.caps[i].bytes()));
    assert(record::bytes_list(capability_bytes(m.caps))->Array_0 =~= caps);
    assert(fields[4] == ("caps"@, Item::Array(caps)));
}

/// What a host's token holds, and under which names.
pub proof fn law_host_token_wire(v: Item, m: HostTokenModel)
    requires
        item::keys_unique(v),
    ensures
        item::same_item(v, item::record(m.fields())) <==> {
            &&& record::is_map_of(v, 4)
            &&& record::holds(v, "kind"@, Item::Text("host"@))
            &&& record::holds(v, "host_root_pk"@, Item::Bytes(m.host_root_pk))
            &&& record::holds(v, "host_op_cert"@, Item::Bytes(m.host_op_cert.bytes()))
            &&& record::holds(v, "session_attest"@, Item::Bytes(m.session_attest))
        },
        m.token() == base64url(item::encoding(item::record(m.fields()))),
{
    let fields = m.fields();
    lemma_host_fields(m);
    record::lemma_holds_all(v, fields);
    assert(fields[0] == ("kind"@, Item::Text("host"@)));
    assert(fields[1] == ("host_root_pk"@, Item::Bytes(m.host_root_pk)));
    assert(fields[2] == ("host_op_cert"@, Item::Bytes(m.host_op_cert.bytes())));
    assert(fields[3] == ("session_attest"@, Item::Bytes(m.session_attest)));
}

/// A token holds every capability that was given, in the order in which they were given.
pub proof fn law_capabilities_in_order(caps: Seq<Capability>, i: int)
    requires
        0 <= i < caps.len(),
    ensures
        capability_models(caps).len() == caps.len(),
        capability_bytes(capability_models(caps)).len() == caps.len(),
        capability_bytes(capability_models(caps))[i] == caps[i]@.bytes(),
{
}

} // verus!
