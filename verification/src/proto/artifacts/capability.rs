//! Capabilities: what a host grants to an invited or enrolled identity.
use crate::octets::copy_bytes;
use crate::proto::canonical;
use crate::proto::canonical::{canonical_decode, canonical_encode, CborValue, MAX_NESTING_DEPTH};
use crate::proto::item;
use crate::proto::item::Item;
use crate::proto::reader;
use crate::proto::reader::{Fault, MapReader, ProtoError};
use crate::proto::record;
use crate::proto::roundtrip;
use crate::proto::tags;
use vstd::prelude::*;

verus! {

/// The kind of a capability: a bearer invitation, good for one use, or a membership.
#[derive(Debug, Clone, Copy, PartialEq, Eq)]
pub enum CapKind {
    Invite,
    Member,
}

impl CapKind {
    /// The number that stands for the kind on the wire.
    pub open spec fn code(self) -> u64 {
        match self {
            CapKind::Invite => 0,
            CapKind::Member => 1,
        }
    }

    /// The kind that a number stands for.
    pub open spec fn of_code(v: u64) -> Result<CapKind, Fault> {
        if v == 0 {
            Ok(CapKind::Invite)
        } else if v == 1 {
            Ok(CapKind::Member)
        } else {
            Err(Fault::InvalidEnumValue("kind"@, v))
        }
    }

    pub fn to_cbor(self) -> (value: CborValue)
        ensures
            value@ == Item::Uint(self.code()),
    {
        match self {
            CapKind::Invite => CborValue::uint(0),
            CapKind::Member => CborValue::uint(1),
        }
    }

    pub fn from_u64(v: u64) -> (r: Result<Self, ProtoError>)
        ensures
            reader::outcome(r) == CapKind::of_code(v),
    {
        match v {
            0 => Ok(CapKind::Invite),
            1 => Ok(CapKind::Member),
            other => Err(ProtoError::InvalidEnumValue("kind", other)),
        }
    }
}

/// The kind in the `kind` field.
pub open spec fn kind_field(m: Seq<(Item, Item)>) -> Result<CapKind, Fault> {
    match reader::uint_field(m, "kind"@) {
        Err(f) => Err(f),
        Ok(n) => CapKind::of_code(n),
    }
}

/// The version of the capabilities that are issued.
pub const CAPABILITY_CURRENT_V: u8 = 1;

/// `{v, host_fp, host_root_pk, op_cert, kind, subject, cap_epoch, exp, nonce, sig}`.
///
/// A capability verifies without a registry: `host_fp` is the fingerprint of the embedded host root
/// key, `op_cert` is the complete encoding of the certificate by which that root certifies the
/// operating key, and `sig` is made by that operating key.
#[derive(Debug, Clone, PartialEq, Eq)]
pub struct Capability {
    pub v: u8,
    pub host_fp: Vec<u8>,
    pub host_root_pk: Vec<u8>,
    pub op_cert: Vec<u8>,
    pub kind: CapKind,
    /// The fingerprint that the capability is issued to, opaque here.
    pub subject: Vec<u8>,
    pub cap_epoch: u64,
    pub exp: u64,
    pub nonce: Vec<u8>,
    pub sig: Vec<u8>,
}

/// The field names of a capability.
pub const CAPABILITY_FIELDS: [&'static str; 10] = [
    "v",
    "host_fp",
    "host_root_pk",
    "op_cert",
    "kind",
    "subject",
    "cap_epoch",
    "exp",
    "nonce",
    "sig",
];

/// The contents of a capability.
pub struct CapabilityModel {
    pub v: u8,
    pub host_fp: Seq<u8>,
    pub host_root_pk: Seq<u8>,
    pub op_cert: Seq<u8>,
    pub kind: CapKind,
    pub subject: Seq<u8>,
    pub cap_epoch: u64,
    pub exp: u64,
    pub nonce: Seq<u8>,
    pub sig: Seq<u8>,
}

impl View for Capability {
    type V = CapabilityModel;

    open spec fn view(&self) -> CapabilityModel {
        CapabilityModel {
            v: self.v,
            host_fp: self.host_fp@,
            host_root_pk: self.host_root_pk@,
            op_cert: self.op_cert@,
            kind: self.kind,
            subject: self.subject@,
            cap_epoch: self.cap_epoch,
            exp: self.exp,
            nonce: self.nonce@,
            sig: self.sig@,
        }
    }
}

impl CapabilityModel {
    /// The fields that are signed: all but `sig`.
    pub open spec fn unsigned_fields(self) -> Seq<(Seq<char>, Item)> {
        seq![
            ("v"@, Item::Uint(self.v as u64)),
            ("host_fp"@, Item::Bytes(self.host_fp)),
            ("host_root_pk"@, Item::Bytes(self.host_root_pk)),
            ("op_cert"@, Item::Bytes(self.op_cert)),
            ("kind"@, Item::Uint(self.kind.code())),
            ("subject"@, Item::Bytes(self.subject)),
            ("cap_epoch"@, Item::Uint(self.cap_epoch)),
            ("exp"@, Item::Uint(self.exp)),
            ("nonce"@, Item::Bytes(self.nonce)),
        ]
    }

    /// All fields.
    pub open spec fn fields(self) -> Seq<(Seq<char>, Item)> {
        self.unsigned_fields().push(("sig"@, Item::Bytes(self.sig)))
    }

    /// The canonical bytes of the capability.
    pub open spec fn bytes(self) -> Seq<u8> {
        item::encoding(item::record(self.fields()))
    }

    /// What is signed: the tag and the canonical bytes of the other fields.
    pub open spec fn signed_bytes(self) -> Seq<u8> {
        tags::CAPABILITY_V1@ + item::encoding(item::record(self.unsigned_fields()))
    }

    /// The capability that an item stands for.
    pub open spec fn read(item: Item) -> Result<CapabilityModel, Fault> {
        match reader::closed_map(item, reader::names(CAPABILITY_FIELDS@)) {
            Err(f) => Err(f),
            Ok(m) => {
                let v = reader::u8_field(m, "v"@);
                let host_fp = reader::bytes_field(m, "host_fp"@);
                let host_root_pk = reader::bytes_field(m, "host_root_pk"@);
                let op_cert = reader::bytes_field(m, "op_cert"@);
                let kind = kind_field(m);
                let subject = reader::bytes_field(m, "subject"@);
                let cap_epoch = reader::uint_field(m, "cap_epoch"@);
                let exp = reader::uint_field(m, "exp"@);
                let nonce = reader::bytes_field(m, "nonce"@);
                let sig = reader::bytes_field(m, "sig"@);
                let found = reader::fault(v);
                let found = reader::first(found, reader::fault(host_fp));
                let found = reader::first(found, reader::fault(host_root_pk));
                let found = reader::first(found, reader::fault(op_cert));
                let found = reader::first(found, reader::fault(kind));
                let found = reader::first(found, reader::fault(subject));
                let found = reader::first(found, reader::fault(cap_epoch));
                let found = reader::first(found, reader::fault(exp));
                let found = reader::first(found, reader::fault(nonce));
                let found = reader::first(found, reader::fault(sig));
                reader::unless(
                    found,
                    CapabilityModel {
                        v: v->Ok_0,
                        host_fp: host_fp->Ok_0,
                        host_root_pk: host_root_pk->Ok_0,
                        op_cert: op_cert->Ok_0,
                        kind: kind->Ok_0,
                        subject: subject->Ok_0,
                        cap_epoch: cap_epoch->Ok_0,
                        exp: exp->Ok_0,
                        nonce: nonce->Ok_0,
                        sig: sig->Ok_0,
                    },
                )
            },
        }
    }

    /// The capability that canonical bytes stand for.
    pub open spec fn parse(bytes: Seq<u8>) -> Result<CapabilityModel, Fault> {
        match canonical::decoding(bytes) {
            Err(e) => Err(Fault::Cbor(e)),
            Ok(item) => CapabilityModel::read(item),
        }
    }
}

proof fn lemma_fields(m: CapabilityModel)
    ensures
        record::names_distinct(m.fields()),
        record::names_distinct(m.unsigned_fields()),
        record::values_unique(m.fields()),
        record::values_unique(m.unsigned_fields()),
        record::values_nest(m.fields(), 0),
        record::values_nest(m.fields(), MAX_NESTING_DEPTH - 1),
        record::names_among(m.fields(), reader::names(CAPABILITY_FIELDS@)),
{
    reveal_strlit("v");
    reveal_strlit("host_fp");
    reveal_strlit("host_root_pk");
    reveal_strlit("op_cert");
    reveal_strlit("kind");
    reveal_strlit("subject");
    reveal_strlit("cap_epoch");
    reveal_strlit("exp");
    reveal_strlit("nonce");
    reveal_strlit("sig");
    assert("v"@.len() == 1);
    assert("host_fp"@.len() == 7);
    assert("host_root_pk"@.len() == 12);
    assert("op_cert"@.len() == 7);
    assert("kind"@.len() == 4);
    assert("subject"@.len() == 7);
    assert("cap_epoch"@.len() == 9);
    assert("exp"@.len() == 3);
    assert("nonce"@.len() == 5);
    assert("sig"@.len() == 3);
    assert("host_fp"@[0] != "op_cert"@[0]);
    assert("host_fp"@[0] != "subject"@[0]);
    assert("op_cert"@[0] != "subject"@[0]);
    assert("exp"@[0] != "sig"@[0]);
    let listed = reader::names(CAPABILITY_FIELDS@);
    let fields = m.fields();
    assert forall|i: int| 0 <= i < fields.len() implies listed.contains((#[trigger] fields[i]).0) by {
        assert(fields[i].0 == listed[i]);
    }
}

impl Capability {
    pub fn unsigned_entries(&self) -> (entries: Vec<(&'static str, CborValue)>)
        ensures
            canonical::fields_of(entries@) == self@.unsigned_fields(),
    {
        let entries: Vec<(&'static str, CborValue)> = vec![
            ("v", CborValue::uint(self.v as u64)),
            ("host_fp", CborValue::bytes(self.host_fp.as_slice())),
            ("host_root_pk", CborValue::bytes(self.host_root_pk.as_slice())),
            ("op_cert", CborValue::bytes(self.op_cert.as_slice())),
            ("kind", self.kind.to_cbor()),
            ("subject", CborValue::bytes(self.subject.as_slice())),
            ("cap_epoch", CborValue::uint(self.cap_epoch)),
            ("exp", CborValue::uint(self.exp)),
            ("nonce", CborValue::bytes(self.nonce.as_slice())),
        ];
        assert(canonical::fields_of(entries@) =~= self@.unsigned_fields());
        entries
    }

    /// A copy of the capability.
    pub fn copy(&self) -> (copy: Capability)
        ensures
            copy@ == self@,
    {
        Capability {
            v: self.v,
            host_fp: copy_bytes(self.host_fp.as_slice()),
            host_root_pk: copy_bytes(self.host_root_pk.as_slice()),
            op_cert: copy_bytes(self.op_cert.as_slice()),
            kind: self.kind,
            subject: copy_bytes(self.subject.as_slice()),
            cap_epoch: self.cap_epoch,
            exp: self.exp,
            nonce: copy_bytes(self.nonce.as_slice()),
            sig: copy_bytes(self.sig.as_slice()),
        }
    }

    pub fn unsigned_cbor(&self) -> (value: CborValue)
        ensures
            value@ == item::record(self@.unsigned_fields()),
    {
        CborValue::map(self.unsigned_entries())
    }

    pub fn to_cbor(&self) -> (value: CborValue)
        ensures
            value@ == item::record(self@.fields()),
    {
        let mut entries = self.unsigned_entries();
        entries.push(("sig", CborValue::bytes(self.sig.as_slice())));
        assert(canonical::fields_of(entries@) =~= self@.fields());
        CborValue::map(entries)
    }

    pub fn to_canonical_bytes(&self) -> (bytes: Vec<u8>)
        ensures
            bytes@ == self@.bytes(),
            item::lengths_fit(item::record(self@.fields())),
    {
        proof {
            lemma_fields(self@);
            record::lemma_record_unique(self@.fields());
        }
        canonical_encode(&self.to_cbor())
    }

    pub fn from_cbor(v: &CborValue) -> (r: Result<Self, ProtoError>)
        ensures
            reader::seen(r) == CapabilityModel::read(v@),
    {
        let m = MapReader::new(v)?;
        m.deny_unknown_fields(CAPABILITY_FIELDS.as_slice())?;
        Ok(
            Capability {
                v: m.u8("v")?,
                host_fp: m.bytes("host_fp")?,
                host_root_pk: m.bytes("host_root_pk")?,
                op_cert: m.bytes("op_cert")?,
                kind: CapKind::from_u64(m.u64("kind")?)?,
                subject: m.bytes("subject")?,
                cap_epoch: m.u64("cap_epoch")?,
                exp: m.u64("exp")?,
                nonce: m.bytes("nonce")?,
                sig: m.bytes("sig")?,
            },
        )
    }

    pub fn from_canonical_bytes(bytes: &[u8]) -> (r: Result<Self, ProtoError>)
        ensures
            reader::seen(r) == CapabilityModel::parse(bytes@),
    {
        match canonical_decode(bytes) {
            Ok(value) => Self::from_cbor(&value),
            Err(e) => Err(ProtoError::Cbor(e)),
        }
    }

    /// The tag followed by the canonical bytes of every field but `sig`.
    pub fn signing_input(&self) -> (input: Vec<u8>)
        ensures
            input@ == self@.signed_bytes(),
    {
        proof {
            lemma_fields(self@);
            record::lemma_record_unique(self@.unsigned_fields());
        }
        tags::signing_input(
            tags::CAPABILITY_V1.as_slice(),
            canonical_encode(&self.unsigned_cbor()).as_slice(),
        )
    }
}

/// The record of a capability is well formed, holds no nested map, and is read back as the
/// capability.
pub proof fn lemma_record_of(m: CapabilityModel)
    ensures
        item::keys_unique(item::record(m.fields())),
        item::nests_within(item::record(m.fields()), 1),
        CapabilityModel::read(item::canonical_form(item::record(m.fields()))) == Ok::<
            CapabilityModel,
            Fault,
        >(m),
{
    let fields = m.fields();
    lemma_fields(m);
    record::lemma_record_unique(fields);
    record::lemma_record_nests(fields, 1);
    let entries = record::lemma_canonical_record_closed(
        fields,
        reader::names(CAPABILITY_FIELDS@),
    );
    assert(fields[0].0 == "v"@);
    assert(fields[1].0 == "host_fp"@);
    assert(fields[2].0 == "host_root_pk"@);
    assert(fields[3].0 == "op_cert"@);
    assert(fields[4].0 == "kind"@);
    assert(fields[5].0 == "subject"@);
    assert(fields[6].0 == "cap_epoch"@);
    assert(fields[7].0 == "exp"@);
    assert(fields[8].0 == "nonce"@);
    assert(fields[9].0 == "sig"@);
    assert(CapabilityModel::read(Item::Mapping(entries)) == Ok::<CapabilityModel, Fault>(m));
}

/// An item in canonical order that is read as a capability is the canonical form of its record.
pub proof fn lemma_item_of(item: Item)
    requires
        item::in_order(item),
    ensures
        CapabilityModel::read(item) matches Ok(m) ==> item::canonical_form(
            item::record(m.fields()),
        ) == item,
{
    if let Ok(m) = CapabilityModel::read(item) {
        let entries = item->Mapping_0;
        let fields = m.fields();
        lemma_fields(m);
        assert(fields[0].0 == "v"@);
        assert(fields[1].0 == "host_fp"@);
        assert(fields[2].0 == "host_root_pk"@);
        assert(fields[3].0 == "op_cert"@);
        assert(fields[4].0 == "kind"@);
        assert(fields[5].0 == "subject"@);
        assert(fields[6].0 == "cap_epoch"@);
        assert(fields[7].0 == "exp"@);
        assert(fields[8].0 == "nonce"@);
        assert(fields[9].0 == "sig"@);
        assert(record::agrees(entries, fields, "v"@));
        assert(record::agrees(entries, fields, "host_fp"@));
        assert(record::agrees(entries, fields, "host_root_pk"@));
        assert(record::agrees(entries, fields, "op_cert"@));
        assert(record::agrees(entries, fields, "kind"@));
        assert(record::agrees(entries, fields, "subject"@));
        assert(record::agrees(entries, fields, "cap_epoch"@));
        assert(record::agrees(entries, fields, "exp"@));
        assert(record::agrees(entries, fields, "nonce"@));
        assert(record::agrees(entries, fields, "sig"@));
        record::lemma_record_rebuilt(entries, fields, reader::names(CAPABILITY_FIELDS@));
    }
}

/// Parsing the canonical bytes of a capability gives the capability back.
pub proof fn law_capability_round_trip(m: CapabilityModel)
    requires
        item::lengths_fit(item::record(m.fields())),
    ensures
        CapabilityModel::parse(m.bytes()) == Ok::<CapabilityModel, Fault>(m),
{
    let fields = m.fields();
    lemma_record_of(m);
    lemma_fields(m);
    record::lemma_record_nests(fields, MAX_NESTING_DEPTH as int);
    roundtrip::law_decode_of_encode(item::record(fields));
}

/// Bytes that parse as a capability are its canonical bytes: it has one encoding only.
pub proof fn law_capability_unique_bytes(bytes: Seq<u8>)
    ensures
        CapabilityModel::parse(bytes) matches Ok(m) ==> m.bytes() == bytes && item::lengths_fit(
            item::record(m.fields()),
        ),
{
    if let Ok(m) = CapabilityModel::parse(bytes) {
        roundtrip::law_encode_of_decode(bytes);
        lemma_item_of(canonical::decoding(bytes)->Ok_0);
        lemma_record_of(m);
        roundtrip::lemma_canonical_form_fits(item::record(m.fields()));
        roundtrip::law_canonical_form_same_bytes(item::record(m.fields()));
    }
}

/// A signature covers everything else: two capabilities with the same signed bytes differ in their
/// signatures alone.
pub proof fn law_capability_signature_covers(a: CapabilityModel, b: CapabilityModel)
    requires
        item::lengths_fit(item::record(a.unsigned_fields())),
        item::lengths_fit(item::record(b.unsigned_fields())),
        a.signed_bytes() == b.signed_bytes(),
    ensures
        a == (CapabilityModel { sig: a.sig, ..b }),
{
    lemma_fields(a);
    lemma_fields(b);
    let fa = a.unsigned_fields();
    let fb = b.unsigned_fields();
    record::lemma_signed_alike(tags::CAPABILITY_V1@, fa, fb);
    assert(fa[0].0 == fb[0].0);
    assert(fa[1].0 == fb[1].0);
    assert(fa[2].0 == fb[2].0);
    assert(fa[3].0 == fb[3].0);
    assert(fa[4].0 == fb[4].0);
    assert(fa[5].0 == fb[5].0);
    assert(fa[6].0 == fb[6].0);
    assert(fa[7].0 == fb[7].0);
    assert(fa[8].0 == fb[8].0);
}

// ---- the names on the wire ----

/// What stands on the wire: an item is the same as a capability exactly where it is a map with
/// nothing but these names, and under each of them what the value holds there.
pub proof fn law_capability_wire(v: Item, e: Capability)
    requires
        item::keys_unique(v),
    ensures
        item::same_item(v, item::record(e@.fields())) <==> {
            &&& record::is_map_of(v, 10)
            &&& record::holds(v, "v"@, Item::Uint(e.v as u64))
            &&& record::holds(v, "host_fp"@, Item::Bytes(e.host_fp@))
            &&& record::holds(v, "host_root_pk"@, Item::Bytes(e.host_root_pk@))
            &&& record::holds(v, "op_cert"@, Item::Bytes(e.op_cert@))
            &&& record::holds(v, "kind"@, Item::Uint(if e.kind is Member { 1 } else { 0 }))
            &&& record::holds(v, "subject"@, Item::Bytes(e.subject@))
            &&& record::holds(v, "cap_epoch"@, Item::Uint(e.cap_epoch))
            &&& record::holds(v, "exp"@, Item::Uint(e.exp))
            &&& record::holds(v, "nonce"@, Item::Bytes(e.nonce@))
            &&& record::holds(v, "sig"@, Item::Bytes(e.sig@))
        },
        e@.bytes() == item::encoding(item::record(e@.fields())),
{
    let fields = e@.fields();
    lemma_fields(e@);
    record::lemma_holds_all(v, fields);
    assert(fields[0] == ("v"@, Item::Uint(e.v as u64)));
    assert(fields[1] == ("host_fp"@, Item::Bytes(e.host_fp@)));
    assert(fields[2] == ("host_root_pk"@, Item::Bytes(e.host_root_pk@)));
    assert(fields[3] == ("op_cert"@, Item::Bytes(e.op_cert@)));
    assert(fields[4] == ("kind"@, Item::Uint(if e.kind is Member { 1 } else { 0 })));
    assert(fields[5] == ("subject"@, Item::Bytes(e.subject@)));
    assert(fields[6] == ("cap_epoch"@, Item::Uint(e.cap_epoch)));
    assert(fields[7] == ("exp"@, Item::Uint(e.exp)));
    assert(fields[8] == ("nonce"@, Item::Bytes(e.nonce@)));
    assert(fields[9] == ("sig"@, Item::Bytes(e.sig@)));
}

/// What is signed: the tag, then the map of everything but the signature.
pub proof fn law_capability_signed_wire(v: Item, e: Capability)
    requires
        item::keys_unique(v),
    ensures
        item::same_item(v, item::record(e@.unsigned_fields())) <==> {
            &&& record::is_map_of(v, 9)
            &&& record::holds(v, "v"@, Item::Uint(e.v as u64))
            &&& record::holds(v, "host_fp"@, Item::Bytes(e.host_fp@))
            &&& record::holds(v, "host_root_pk"@, Item::Bytes(e.host_root_pk@))
            &&& record::holds(v, "op_cert"@, Item::Bytes(e.op_cert@))
            &&& record::holds(v, "kind"@, Item::Uint(if e.kind is Member { 1 } else { 0 }))
            &&& record::holds(v, "subject"@, Item::Bytes(e.subject@))
            &&& record::holds(v, "cap_epoch"@, Item::Uint(e.cap_epoch))
            &&& record::holds(v, "exp"@, Item::Uint(e.exp))
            &&& record::holds(v, "nonce"@, Item::Bytes(e.nonce@))
        },
        e@.signed_bytes() == tags::CAPABILITY_V1@
            + item::encoding(item::record(e@.unsigned_fields())),
{
    let fields = e@.unsigned_fields();
    lemma_fields(e@);
    record::lemma_holds_all(v, fields);
    assert(fields[0] == ("v"@, Item::Uint(e.v as u64)));
    assert(fields[1] == ("host_fp"@, Item::Bytes(e.host_fp@)));
    assert(fields[2] == ("host_root_pk"@, Item::Bytes(e.host_root_pk@)));
    assert(fields[3] == ("op_cert"@, Item::Bytes(e.op_cert@)));
    assert(fields[4] == ("kind"@, Item::Uint(if e.kind is Member { 1 } else { 0 })));
    assert(fields[5] == ("subject"@, Item::Bytes(e.subject@)));
    assert(fields[6] == ("cap_epoch"@, Item::Uint(e.cap_epoch)));
    assert(fields[7] == ("exp"@, Item::Uint(e.exp)));
    assert(fields[8] == ("nonce"@, Item::Bytes(e.nonce@)));
}

/// What is read: every part of a capability is what stood under its name.
pub proof fn law_capability_read(v: Item, e: Capability)
    requires
        CapabilityModel::read(v) == Ok::<CapabilityModel, Fault>(e@),
    ensures
        record::holds(v, "v"@, Item::Uint(e.v as u64)),
        record::holds(v, "host_fp"@, Item::Bytes(e.host_fp@)),
        record::holds(v, "host_root_pk"@, Item::Bytes(e.host_root_pk@)),
        record::holds(v, "op_cert"@, Item::Bytes(e.op_cert@)),
        record::holds(v, "kind"@, Item::Uint(if e.kind is Member { 1 } else { 0 })),
        record::holds(v, "subject"@, Item::Bytes(e.subject@)),
        record::holds(v, "cap_epoch"@, Item::Uint(e.cap_epoch)),
        record::holds(v, "exp"@, Item::Uint(e.exp)),
        record::holds(v, "nonce"@, Item::Bytes(e.nonce@)),
        record::holds(v, "sig"@, Item::Bytes(e.sig@)),
{
    let entries = v->Mapping_0;
    record::lemma_found_holds(entries, "v"@);
    record::lemma_found_holds(entries, "host_fp"@);
    record::lemma_found_holds(entries, "host_root_pk"@);
    record::lemma_found_holds(entries, "op_cert"@);
    record::lemma_found_holds(entries, "kind"@);
    record::lemma_found_holds(entries, "subject"@);
    record::lemma_found_holds(entries, "cap_epoch"@);
    record::lemma_found_holds(entries, "exp"@);
    record::lemma_found_holds(entries, "nonce"@);
    record::lemma_found_holds(entries, "sig"@);
}

/// An item without duplicate keys is read as a capability exactly where it is the record of it, up
/// to the order of its entries: nothing is missing, and nothing else is there.
pub proof fn law_capability_values(v: Item, m: CapabilityModel)
    requires
        item::keys_unique(v),
    ensures
        CapabilityModel::read(v) == Ok::<CapabilityModel, Fault>(m) <==> item::same_item(
            v,
            item::record(m.fields()),
        ),
{
    if let Item::Mapping(entries) = v {
        let fields = m.fields();
        let listed = reader::names(CAPABILITY_FIELDS@);
        lemma_fields(m);
        record::lemma_field_values(fields);
        assert(listed[0] == "v"@);
        assert(listed[1] == "host_fp"@);
        assert(listed[2] == "host_root_pk"@);
        assert(listed[3] == "op_cert"@);
        assert(listed[4] == "kind"@);
        assert(listed[5] == "subject"@);
        assert(listed[6] == "cap_epoch"@);
        assert(listed[7] == "exp"@);
        assert(listed[8] == "nonce"@);
        assert(listed[9] == "sig"@);
        assert(fields[0].0 == "v"@);
        assert(fields[1].0 == "host_fp"@);
        assert(fields[2].0 == "host_root_pk"@);
        assert(fields[3].0 == "op_cert"@);
        assert(fields[4].0 == "kind"@);
        assert(fields[5].0 == "subject"@);
        assert(fields[6].0 == "cap_epoch"@);
        assert(fields[7].0 == "exp"@);
        assert(fields[8].0 == "nonce"@);
        assert(fields[9].0 == "sig"@);
        assert(CapabilityModel::read(v) == Ok::<CapabilityModel, Fault>(m) <==> record::stands_for(
            entries,
            fields,
            listed,
        ));
        record::lemma_stands_for(entries, fields, listed);
    }
}

/// The numbers of the kinds, and that there are no others.
pub proof fn law_kind_numbers(v: u64)
    ensures
        CapKind::Invite.code() == 0,
        CapKind::of_code(0) == Ok::<CapKind, Fault>(CapKind::Invite),
        CapKind::Member.code() == 1,
        CapKind::of_code(1) == Ok::<CapKind, Fault>(CapKind::Member),
        v >= 2 ==> CapKind::of_code(v) == Err::<CapKind, Fault>(
            Fault::InvalidEnumValue("kind"@, v),
        ),
{
}

/// The fields are looked at in this order, once no foreign name is there, and the first that is
/// missing or wrong is the one that is named.
pub proof fn law_capability_first_fault(entries: Seq<(Item, Item)>)
    ensures
        ({
            let r = CapabilityModel::read(Item::Mapping(entries));
            if let Some(g) = reader::foreign_key(entries, reader::names(CAPABILITY_FIELDS@)) {
                r matches Err(f) && f == g
            } else {
                if reader::u8_field(entries, "v"@) is Err {
                    r matches Err(f) && f == reader::u8_field(entries, "v"@)->Err_0
                } else if reader::bytes_field(entries, "host_fp"@) is Err {
                    r matches Err(f) && f == reader::bytes_field(entries, "host_fp"@)->Err_0
                } else if reader::bytes_field(entries, "host_root_pk"@) is Err {
                    r matches Err(f) && f == reader::bytes_field(entries, "host_root_pk"@)->Err_0
                } else if reader::bytes_field(entries, "op_cert"@) is Err {
                    r matches Err(f) && f == reader::bytes_field(entries, "op_cert"@)->Err_0
                } else if kind_field(entries) is Err {
                    r matches Err(f) && f == kind_field(entries)->Err_0
                } else if reader::bytes_field(entries, "subject"@) is Err {
                    r matches Err(f) && f == reader::bytes_field(entries, "subject"@)->Err_0
                } else if reader::uint_field(entries, "cap_epoch"@) is Err {
                    r matches Err(f) && f == reader::uint_field(entries, "cap_epoch"@)->Err_0
                } else if reader::uint_field(entries, "exp"@) is Err {
                    r matches Err(f) && f == reader::uint_field(entries, "exp"@)->Err_0
                } else if reader::bytes_field(entries, "nonce"@) is Err {
                    r matches Err(f) && f == reader::bytes_field(entries, "nonce"@)->Err_0
                } else if reader::bytes_field(entries, "sig"@) is Err {
                    r matches Err(f) && f == reader::bytes_field(entries, "sig"@)->Err_0
                } else {
                    r is Ok
                }
            }
        }),
{
}

} // verus!
