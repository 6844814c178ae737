//! Host device certificates: how a host's operating key vouches for its envelope identity.
use crate::proto::canonical;
use crate::proto::canonical::{canonical_decode, canonical_encode, CborValue, MAX_NESTING_DEPTH};
use crate::proto::item;
use crate::proto::item::Item;
use crate::proto::reader;
use crate::proto::reader::{Fault, MapReader, ProtoError};
use crate::proto::record;
use crate::proto::roundtrip;
use crate::proto::tags;
use vstd::prelude::*;

verus! {

/// `{host_fp, host_root_pk, op_cert, host_device_fp, alg_id, sign_pk, agree_pk, ts, exp, sig_host_op}`.
///
/// A host has two fingerprints. `host_fp` scopes subjects and never occurs in an envelope;
/// `host_device_fp` is the identity in envelopes and never occurs in a subject. The certificate
/// carries the chain from the root over the operating key to the device, so it verifies on its own.
#[derive(Debug, Clone, PartialEq, Eq)]
pub struct HostDeviceCert {
    pub host_fp: Vec<u8>,
    pub host_root_pk: Vec<u8>,
    /// The complete canonical encoding of the operating-key certificate.
    pub op_cert: Vec<u8>,
    pub host_device_fp: Vec<u8>,
    pub alg_id: u8,
    pub sign_pk: Vec<u8>,
    pub agree_pk: Vec<u8>,
    pub ts: u64,
    pub exp: u64,
    pub sig_host_op: Vec<u8>,
}

/// The field names of a host device cert.
pub const HOST_DEVICE_CERT_FIELDS: [&'static str; 10] = [
    "host_fp",
    "host_root_pk",
    "op_cert",
    "host_device_fp",
    "alg_id",
    "sign_pk",
    "agree_pk",
    "ts",
    "exp",
    "sig_host_op",
];

/// The contents of a host device cert.
pub struct HostDeviceCertModel {
    pub host_fp: Seq<u8>,
    pub host_root_pk: Seq<u8>,
    pub op_cert: Seq<u8>,
    pub host_device_fp: Seq<u8>,
    pub alg_id: u8,
    pub sign_pk: Seq<u8>,
    pub agree_pk: Seq<u8>,
    pub ts: u64,
    pub exp: u64,
    pub sig_host_op: Seq<u8>,
}

impl View for HostDeviceCert {
    type V = HostDeviceCertModel;

    open spec fn view(&self) -> HostDeviceCertModel {
        HostDeviceCertModel {
            host_fp: self.host_fp@,
            host_root_pk: self.host_root_pk@,
            op_cert: self.op_cert@,
            host_device_fp: self.host_device_fp@,
            alg_id: self.alg_id,
            sign_pk: self.sign_pk@,
            agree_pk: self.agree_pk@,
            ts: self.ts,
            exp: self.exp,
            sig_host_op: self.sig_host_op@,
        }
    }
}

impl HostDeviceCertModel {
    /// The fields that are signed: all but `sig_host_op`.
    pub open spec fn unsigned_fields(self) -> Seq<(Seq<char>, Item)> {
        seq![
            ("host_fp"@, Item::Bytes(self.host_fp)),
            ("host_root_pk"@, Item::Bytes(self.host_root_pk)),
            ("op_cert"@, Item::Bytes(self.op_cert)),
            ("host_device_fp"@, Item::Bytes(self.host_device_fp)),
            ("alg_id"@, Item::Uint(self.alg_id as u64)),
            ("sign_pk"@, Item::Bytes(self.sign_pk)),
            ("agree_pk"@, Item::Bytes(self.agree_pk)),
            ("ts"@, Item::Uint(self.ts)),
            ("exp"@, Item::Uint(self.exp)),
        ]
    }

    /// All fields.
    pub open spec fn fields(self) -> Seq<(Seq<char>, Item)> {
        self.unsigned_fields().push(("sig_host_op"@, Item::Bytes(self.sig_host_op)))
    }

    /// The canonical bytes of the host device cert.
    pub open spec fn bytes(self) -> Seq<u8> {
        item::encoding(item::record(self.fields()))
    }

    /// What is signed: the tag and the canonical bytes of the other fields.
    pub open spec fn signed_bytes(self) -> Seq<u8> {
        tags::HOST_DEVICE_CERT_V1@ + item::encoding(item::record(self.unsigned_fields()))
    }

    /// The host device cert that an item stands for.
    pub open spec fn read(item: Item) -> Result<HostDeviceCertModel, Fault> {
        match reader::closed_map(item, reader::names(HOST_DEVICE_CERT_FIELDS@)) {
            Err(f) => Err(f),
            Ok(m) => {
                let host_fp = reader::bytes_field(m, "host_fp"@);
                let host_root_pk = reader::bytes_field(m, "host_root_pk"@);
                let op_cert = reader::bytes_field(m, "op_cert"@);
                let host_device_fp = reader::bytes_field(m, "host_device_fp"@);
                let alg_id = reader::u8_field(m, "alg_id"@);
                let sign_pk = reader::bytes_field(m, "sign_pk"@);
                let agree_pk = reader::bytes_field(m, "agree_pk"@);
                let ts = reader::uint_field(m, "ts"@);
                let exp = reader::uint_field(m, "exp"@);
                let sig_host_op = reader::bytes_field(m, "sig_host_op"@);
                let found = reader::fault(host_fp);
                let found = reader::first(found, reader::fault(host_root_pk));
                let found = reader::first(found, reader::fault(op_cert));
                let found = reader::first(found, reader::fault(host_device_fp));
                let found = reader::first(found, reader::fault(alg_id));
                let found = reader::first(found, reader::fault(sign_pk));
                let found = reader::first(found, reader::fault(agree_pk));
                let found = reader::first(found, reader::fault(ts));
                let found = reader::first(found, reader::fault(exp));
                let found = reader::first(found, reader::fault(sig_host_op));
                reader::unless(
                    found,
                    HostDeviceCertModel {
                        host_fp: host_fp->Ok_0,
                        host_root_pk: host_root_pk->Ok_0,
                        op_cert: op_cert->Ok_0,
                        host_device_fp: host_device_fp->Ok_0,
                        alg_id: alg_id->Ok_0,
                        sign_pk: sign_pk->Ok_0,
                        agree_pk: agree_pk->Ok_0,
                        ts: ts->Ok_0,
                        exp: exp->Ok_0,
                        sig_host_op: sig_host_op->Ok_0,
                    },
                )
            },
        }
    }

    /// The host device cert that canonical bytes stand for.
    pub open spec fn parse(bytes: Seq<u8>) -> Result<HostDeviceCertModel, Fault> {
        match canonical::decoding(bytes) {
            Err(e) => Err(Fault::Cbor(e)),
            Ok(item) => HostDeviceCertModel::read(item),
        }
    }
}

proof fn lemma_fields(m: HostDeviceCertModel)
    ensures
        record::names_distinct(m.fields()),
        record::names_distinct(m.unsigned_fields()),
        record::values_unique(m.fields()),
        record::values_unique(m.unsigned_fields()),
        record::values_nest(m.fields(), MAX_NESTING_DEPTH - 1),
        record::names_among(m.fields(), reader::names(HOST_DEVICE_CERT_FIELDS@)),
{
    reveal_strlit("host_fp");
    reveal_strlit("host_root_pk");
    reveal_strlit("op_cert");
    reveal_strlit("host_device_fp");
    reveal_strlit("alg_id");
    reveal_strlit("sign_pk");
    reveal_strlit("agree_pk");
    reveal_strlit("ts");
    reveal_strlit("exp");
    reveal_strlit("sig_host_op");
    assert("host_fp"@.len() == 7);
    assert("host_root_pk"@.len() == 12);
    assert("op_cert"@.len() == 7);
    assert("host_device_fp"@.len() == 14);
    assert("alg_id"@.len() == 6);
    assert("sign_pk"@.len() == 7);
    assert("agree_pk"@.len() == 8);
    assert("ts"@.len() == 2);
    assert("exp"@.len() == 3);
    assert("sig_host_op"@.len() == 11);
    assert("host_fp"@[0] != "op_cert"@[0]);
    assert("host_fp"@[0] != "sign_pk"@[0]);
    assert("op_cert"@[0] != "sign_pk"@[0]);
    let listed = reader::names(HOST_DEVICE_CERT_FIELDS@);
    let fields = m.fields();
    assert forall|i: int| 0 <= i < fields.len() implies listed.contains((#[trigger] fields[i]).0) by {
        assert(fields[i].0 == listed[i]);
    }
}

impl HostDeviceCert {
    pub fn unsigned_entries(&self) -> (entries: Vec<(&'static str, CborValue)>)
        ensures
            canonical::fields_of(entries@) == self@.unsigned_fields(),
    {
        let entries: Vec<(&'static str, CborValue)> = vec![
            ("host_fp", CborValue::bytes(self.host_fp.as_slice())),
            ("host_root_pk", CborValue::bytes(self.host_root_pk.as_slice())),
            ("op_cert", CborValue::bytes(self.op_cert.as_slice())),
            ("host_device_fp", CborValue::bytes(self.host_device_fp.as_slice())),
            ("alg_id", CborValue::uint(self.alg_id as u64)),
            ("sign_pk", CborValue::bytes(self.sign_pk.as_slice())),
            ("agree_pk", CborValue::bytes(self.agree_pk.as_slice())),
            ("ts", CborValue::uint(self.ts)),
            ("exp", CborValue::uint(self.exp)),
        ];
        assert(canonical::fields_of(entries@) =~= self@.unsigned_fields());
        entries
    }

    pub fn unsigned_cbor(&self) -> (value: CborValue)
        ensures
            value@ == item::record(self@.unsigned_fields()),
    {
        CborValue::map(self.unsigned_entries())
    }

    pub fn to_cbor(&self) -> (value: CborValue)
        ensures
            value@ == item::record(self@.fields()),
    {
        let mut entries = self.unsigned_entries();
        entries.push(("sig_host_op", CborValue::bytes(self.sig_host_op.as_slice())));
        assert(canonical::fields_of(entries@) =~= self@.fields());
        CborValue::map(entries)
    }

    pub fn to_canonical_bytes(&self) -> (bytes: Vec<u8>)
        ensures
            bytes@ == self@.bytes(),
            item::lengths_fit(item::record(self@.fields())),
    {
        proof {
            lemma_fields(self@);
            record::lemma_record_unique(self@.fields());
        }
        canonical_encode(&self.to_cbor())
    }

    pub fn from_cbor(v: &CborValue) -> (r: Result<Self, ProtoError>)
        ensures
            reader::seen(r) == HostDeviceCertModel::read(v@),
    {
        let m = MapReader::new(v)?;
        m.deny_unknown_fields(HOST_DEVICE_CERT_FIELDS.as_slice())?;
        Ok(
            HostDeviceCert {
                host_fp: m.bytes("host_fp")?,
                host_root_pk: m.bytes("host_root_pk")?,
                op_cert: m.bytes("op_cert")?,
                host_device_fp: m.bytes("host_device_fp")?,
                alg_id: m.u8("alg_id")?,
                sign_pk: m.bytes("sign_pk")?,
                agree_pk: m.bytes("agree_pk")?,
                ts: m.u64("ts")?,
                exp: m.u64("exp")?,
                sig_host_op: m.bytes("sig_host_op")?,
            },
        )
    }

    pub fn from_canonical_bytes(bytes: &[u8]) -> (r: Result<Self, ProtoError>)
        ensures
            reader::seen(r) == HostDeviceCertModel::parse(bytes@),
    {
        match canonical_decode(bytes) {
            Ok(value) => Self::from_cbor(&value),
            Err(e) => Err(ProtoError::Cbor(e)),
        }
    }

    /// The tag followed by the canonical bytes of every field but `sig_host_op`.
    pub fn signing_input(&self) -> (input: Vec<u8>)
        ensures
            input@ == self@.signed_bytes(),
    {
        proof {
            lemma_fields(self@);
            record::lemma_record_unique(self@.unsigned_fields());
        }
        tags::signing_input(
            tags::HOST_DEVICE_CERT_V1.as_slice(),
            canonical_encode(&self.unsigned_cbor()).as_slice(),
        )
    }
}

/// Parsing the canonical bytes of a host device cert gives the host device cert back.
pub proof fn law_host_device_cert_round_trip(m: HostDeviceCertModel)
    requires
        item::lengths_fit(item::record(m.fields())),
    ensures
        HostDeviceCertModel::parse(m.bytes()) == Ok::<HostDeviceCertModel, Fault>(m),
{
    let fields = m.fields();
    lemma_fields(m);
    record::lemma_record_unique(fields);
    record::lemma_record_nests(fields, MAX_NESTING_DEPTH as int);
    roundtrip::law_decode_of_encode(item::record(fields));
    let entries = record::lemma_canonical_record_closed(
        fields,
        reader::names(HOST_DEVICE_CERT_FIELDS@),
    );
    assert(fields[0].0 == "host_fp"@);
    assert(fields[1].0 == "host_root_pk"@);
    assert(fields[2].0 == "op_cert"@);
    assert(fields[3].0 == "host_device_fp"@);
    assert(fields[4].0 == "alg_id"@);
    assert(fields[5].0 == "sign_pk"@);
    assert(fields[6].0 == "agree_pk"@);
    assert(fields[7].0 == "ts"@);
    assert(fields[8].0 == "exp"@);
    assert(fields[9].0 == "sig_host_op"@);
    assert(HostDeviceCertModel::read(Item::Mapping(entries)) == Ok::<HostDeviceCertModel, Fault>(m));
}

/// Bytes that parse as a host device cert are its canonical bytes: it has one encoding only.
pub proof fn law_host_device_cert_unique_bytes(bytes: Seq<u8>)
    ensures
        HostDeviceCertModel::parse(bytes) matches Ok(m) ==> m.bytes() == bytes && item::lengths_fit(
            item::record(m.fields()),
        ),
{
    if let Ok(m) = HostDeviceCertModel::parse(bytes) {
        roundtrip::law_encode_of_decode(bytes);
        let entries = canonical::decoding(bytes)->Ok_0->Mapping_0;
        let fields = m.fields();
        lemma_fields(m);
        assert(fields[0].0 == "host_fp"@);
        assert(fields[1].0 == "host_root_pk"@);
        assert(fields[2].0 == "op_cert"@);
        assert(fields[3].0 == "host_device_fp"@);
        assert(fields[4].0 == "alg_id"@);
        assert(fields[5].0 == "sign_pk"@);
        assert(fields[6].0 == "agree_pk"@);
        assert(fields[7].0 == "ts"@);
        assert(fields[8].0 == "exp"@);
        assert(fields[9].0 == "sig_host_op"@);
        assert(record::agrees(entries, fields, "host_fp"@));
        assert(record::agrees(entries, fields, "host_root_pk"@));
        assert(record::agrees(entries, fields, "op_cert"@));
        assert(record::agrees(entries, fields, "host_device_fp"@));
        assert(record::agrees(entries, fields, "alg_id"@));
        assert(record::agrees(entries, fields, "sign_pk"@));
        assert(record::agrees(entries, fields, "agree_pk"@));
        assert(record::agrees(entries, fields, "ts"@));
        assert(record::agrees(entries, fields, "exp"@));
        assert(record::agrees(entries, fields, "sig_host_op"@));
        record::lemma_record_rebuilt(entries, fields, reader::names(HOST_DEVICE_CERT_FIELDS@));
        record::lemma_record_unique(fields);
        roundtrip::lemma_canonical_form_fits(item::record(fields));
        roundtrip::law_canonical_form_same_bytes(item::record(fields));
    }
}

/// A signature covers everything else: two host device certificates with the same signed bytes differ in their
/// signatures alone.
pub proof fn law_host_device_cert_signature_covers(a: HostDeviceCertModel, b: HostDeviceCertModel)
    requires
        item::lengths_fit(item::record(a.unsigned_fields())),
        item::lengths_fit(item::record(b.unsigned_fields())),
        a.signed_bytes() == b.signed_bytes(),
    ensures
        a == (HostDeviceCertModel { sig_host_op: a.sig_host_op, ..b }),
{
    lemma_fields(a);
    lemma_fields(b);
    let fa = a.unsigned_fields();
    let fb = b.unsigned_fields();
    record::lemma_signed_alike(tags::HOST_DEVICE_CERT_V1@, fa, fb);
    assert(fa[0].0 == fb[0].0);
    assert(fa[1].0 == fb[1].0);
    assert(fa[2].0 == fb[2].0);
    assert(fa[3].0 == fb[3].0);
    assert(fa[4].0 == fb[4].0);
    assert(fa[5].0 == fb[5].0);
    assert(fa[6].0 == fb[6].0);
    assert(fa[7].0 == fb[7].0);
    assert(fa[8].0 == fb[8].0);
}

// ---- the names on the wire ----

/// What stands on the wire: an item is the same as a host's device certificate exactly where it is
/// a map with nothing but these names, and under each of them what the value holds there.
pub proof fn law_host_device_cert_wire(v: Item, e: HostDeviceCert)
    requires
        item::keys_unique(v),
    ensures
        item::same_item(v, item::record(e@.fields())) <==> {
            &&& record::is_map_of(v, 10)
            &&& record::holds(v, "host_fp"@, Item::Bytes(e.host_fp@))
            &&& record::holds(v, "host_root_pk"@, Item::Bytes(e.host_root_pk@))
            &&& record::holds(v, "op_cert"@, Item::Bytes(e.op_cert@))
            &&& record::holds(v, "host_device_fp"@, Item::Bytes(e.host_device_fp@))
            &&& record::holds(v, "alg_id"@, Item::Uint(e.alg_id as u64))
            &&& record::holds(v, "sign_pk"@, Item::Bytes(e.sign_pk@))
            &&& record::holds(v, "agree_pk"@, Item::Bytes(e.agree_pk@))
            &&& record::holds(v, "ts"@, Item::Uint(e.ts))
            &&& record::holds(v, "exp"@, Item::Uint(e.exp))
            &&& record::holds(v, "sig_host_op"@, Item::Bytes(e.sig_host_op@))
        },
        e@.bytes() == item::encoding(item::record(e@.fields())),
{
    let fields = e@.fields();
    lemma_fields(e@);
    record::lemma_holds_all(v, fields);
    assert(fields[0] == ("host_fp"@, Item::Bytes(e.host_fp@)));
    assert(fields[1] == ("host_root_pk"@, Item::Bytes(e.host_root_pk@)));
    assert(fields[2] == ("op_cert"@, Item::Bytes(e.op_cert@)));
    assert(fields[3] == ("host_device_fp"@, Item::Bytes(e.host_device_fp@)));
    assert(fields[4] == ("alg_id"@, Item::Uint(e.alg_id as u64)));
    assert(fields[5] == ("sign_pk"@, Item::Bytes(e.sign_pk@)));
    assert(fields[6] == ("agree_pk"@, Item::Bytes(e.agree_pk@)));
    assert(fields[7] == ("ts"@, Item::Uint(e.ts)));
    assert(fields[8] == ("exp"@, Item::Uint(e.exp)));
    assert(fields[9] == ("sig_host_op"@, Item::Bytes(e.sig_host_op@)));
}

/// What is signed: the tag, then the map of everything but the signature.
pub proof fn law_host_device_cert_signed_wire(v: Item, e: HostDeviceCert)
    requires
        item::keys_unique(v),
    ensures
        item::same_item(v, item::record(e@.unsigned_fields())) <==> {
            &&& record::is_map_of(v, 9)
            &&& record::holds(v, "host_fp"@, Item::Bytes(e.host_fp@))
            &&& record::holds(v, "host_root_pk"@, Item::Bytes(e.host_root_pk@))
            &&& record::holds(v, "op_cert"@, Item::Bytes(e.op_cert@))
            &&& record::holds(v, "host_device_fp"@, Item::Bytes(e.host_device_fp@))
            &&& record::holds(v, "alg_id"@, Item::Uint(e.alg_id as u64))
            &&& record::holds(v, "sign_pk"@, Item::Bytes(e.sign_pk@))
            &&& record::holds(v, "agree_pk"@, Item::Bytes(e.agree_pk@))
            &&& record::holds(v, "ts"@, Item::Uint(e.ts))
            &&& record::holds(v, "exp"@, Item::Uint(e.exp))
        },
        e@.signed_bytes() == tags::HOST_DEVICE_CERT_V1@
            + item::encoding(item::record(e@.unsigned_fields())),
{
    let fields = e@.unsigned_fields();
    lemma_fields(e@);
    record::lemma_holds_all(v, fields);
    assert(fields[0] == ("host_fp"@, Item::Bytes(e.host_fp@)));
    assert(fields[1] == ("host_root_pk"@, Item::Bytes(e.host_root_pk@)));
    assert(fields[2] == ("op_cert"@, Item::Bytes(e.op_cert@)));
    assert(fields[3] == ("host_device_fp"@, Item::Bytes(e.host_device_fp@)));
    assert(fields[4] == ("alg_id"@, Item::Uint(e.alg_id as u64)));
    assert(fields[5] == ("sign_pk"@, Item::Bytes(e.sign_pk@)));
    assert(fields[6] == ("agree_pk"@, Item::Bytes(e.agree_pk@)));
    assert(fields[7] == ("ts"@, Item::Uint(e.ts)));
    assert(fields[8] == ("exp"@, Item::Uint(e.exp)));
}

/// What is read: every part of a host's device certificate is what stood under its name.
pub proof fn law_host_device_cert_read(v: Item, e: HostDeviceCert)
    requires
        HostDeviceCertModel::read(v) == Ok::<HostDeviceCertModel, Fault>(e@),
    ensures
        record::holds(v, "host_fp"@, Item::Bytes(e.host_fp@)),
        record::holds(v, "host_root_pk"@, Item::Bytes(e.host_root_pk@)),
        record::holds(v, "op_cert"@, Item::Bytes(e.op_cert@)),
        record::holds(v, "host_device_fp"@, Item::Bytes(e.host_device_fp@)),
        record::holds(v, "alg_id"@, Item::Uint(e.alg_id as u64)),
        record::holds(v, "sign_pk"@, Item::Bytes(e.sign_pk@)),
        record::holds(v, "agree_pk"@, Item::Bytes(e.agree_pk@)),
        record::holds(v, "ts"@, Item::Uint(e.ts)),
        record::holds(v, "exp"@, Item::Uint(e.exp)),
        record::holds(v, "sig_host_op"@, Item::Bytes(e.sig_host_op@)),
{
    let entries = v->Mapping_0;
    record::lemma_found_holds(entries, "host_fp"@);
    record::lemma_found_holds(entries, "host_root_pk"@);
    record::lemma_found_holds(entries, "op_cert"@);
    record::lemma_found_holds(entries, "host_device_fp"@);
    record::lemma_found_holds(entries, "alg_id"@);
    record::lemma_found_holds(entries, "sign_pk"@);
    record::lemma_found_holds(entries, "agree_pk"@);
    record::lemma_found_holds(entries, "ts"@);
    record::lemma_found_holds(entries, "exp"@);
    record::lemma_found_holds(entries, "sig_host_op"@);
}

/// An item without duplicate keys is read as a host's device certificate exactly where it is the
/// record of it, up to the order of its entries: nothing is missing, and nothing else is there.
pub proof fn law_host_device_cert_values(v: Item, m: HostDeviceCertModel)
    requires
        item::keys_unique(v),
    ensures
        HostDeviceCertModel::read(v) == Ok::<HostDeviceCertModel, Fault>(m) <==> item::same_item(
            v,
            item::record(m.fields()),
        ),
{
    if let Item::Mapping(entries) = v {
        let fields = m.fields();
        let listed = reader::names(HOST_DEVICE_CERT_FIELDS@);
        lemma_fields(m);
        record::lemma_field_values(fields);
        assert(listed[0] == "host_fp"@);
        assert(listed[1] == "host_root_pk"@);
        assert(listed[2] == "op_cert"@);
        assert(listed[3] == "host_device_fp"@);
        assert(listed[4] == "alg_id"@);
        assert(listed[5] == "sign_pk"@);
        assert(listed[6] == "agree_pk"@);
        assert(listed[7] == "ts"@);
        assert(listed[8] == "exp"@);
        assert(listed[9] == "sig_host_op"@);
        assert(fields[0].0 == "host_fp"@);
        assert(fields[1].0 == "host_root_pk"@);
        assert(fields[2].0 == "op_cert"@);
        assert(fields[3].0 == "host_device_fp"@);
        assert(fields[4].0 == "alg_id"@);
        assert(fields[5].0 == "sign_pk"@);
        assert(fields[6].0 == "agree_pk"@);
        assert(fields[7].0 == "ts"@);
        assert(fields[8].0 == "exp"@);
        assert(fields[9].0 == "sig_host_op"@);
        assert(HostDeviceCertModel::read(v) == Ok::<HostDeviceCertModel, Fault>(m)
            <==> record::stands_for(
            entries,
            fields,
            listed,
        ));
        record::lemma_stands_for(entries, fields, listed);
    }
}

/// The fields are looked at in this order, once no foreign name is there, and the first that is
/// missing or wrong is the one that is named.
pub proof fn law_host_device_cert_first_fault(entries: Seq<(Item, Item)>)
    ensures
        ({
            let r = HostDeviceCertModel::read(Item::Mapping(entries));
            if let Some(g) = reader::foreign_key(entries, reader::names(HOST_DEVICE_CERT_FIELDS@)) {
                r matches Err(f) && f == g
            } else {
                if reader::bytes_field(entries, "host_fp"@) is Err {
                    r matches Err(f) && f == reader::bytes_field(entries, "host_fp"@)->Err_0
                } else if reader::bytes_field(entries, "host_root_pk"@) is Err {
                    r matches Err(f) && f == reader::bytes_field(entries, "host_root_pk"@)->Err_0
                } else if reader::bytes_field(entries, "op_cert"@) is Err {
                    r matches Err(f) && f == reader::bytes_field(entries, "op_cert"@)->Err_0
                } else if reader::bytes_field(entries, "host_device_fp"@) is Err {
                    r matches Err(f) && f == reader::bytes_field(entries, "host_device_fp"@)->Err_0
                } else if reader::u8_field(entries, "alg_id"@) is Err {
                    r matches Err(f) && f == reader::u8_field(entries, "alg_id"@)->Err_0
                } else if reader::bytes_field(entries, "sign_pk"@) is Err {
                    r matches Err(f) && f == reader::bytes_field(entries, "sign_pk"@)->Err_0
                } else if reader::bytes_field(entries, "agree_pk"@) is Err {
                    r matches Err(f) && f == reader::bytes_field(entries, "agree_pk"@)->Err_0
                } else if reader::uint_field(entries, "ts"@) is Err {
                    r matches Err(f) && f == reader::uint_field(entries, "ts"@)->Err_0
                } else if reader::uint_field(entries, "exp"@) is Err {
                    r matches Err(f) && f == reader::uint_field(entries, "exp"@)->Err_0
                } else if reader::bytes_field(entries, "sig_host_op"@) is Err {
                    r matches Err(f) && f == reader::bytes_field(entries, "sig_host_op"@)->Err_0
                } else {
                    r is Ok
                }
            }
        }),
{
}

} // verus!
