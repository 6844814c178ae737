//! Host operating-key certificates: how a host root vouches for the key it operates with.
use crate::proto::canonical;
use crate::proto::canonical::{canonical_decode, canonical_encode, CborValue, MAX_NESTING_DEPTH};
use crate::proto::item;
use crate::proto::item::Item;
use crate::proto::reader;
use crate::proto::reader::{Fault, MapReader, ProtoError};
use crate::proto::record;
use crate::proto::roundtrip;
use crate::proto::tags;
use vstd::prelude::*;

verus! {

/// `{host_op_pk, nats_fp, ts, exp, sig_host_root}`.
#[derive(Debug, Clone, PartialEq, Eq)]
pub struct HostOpKeyCert {
    pub host_op_pk: Vec<u8>,
    pub nats_fp: Vec<u8>,
    pub ts: u64,
    pub exp: u64,
    pub sig_host_root: Vec<u8>,
}

/// The field names of a host operating-key certificate.
pub const HOST_OP_KEY_CERT_FIELDS: [&'static str; 5] = [
    "host_op_pk",
    "nats_fp",
    "ts",
    "exp",
    "sig_host_root",
];

/// The contents of a host operating-key certificate.
pub struct HostOpKeyCertModel {
    pub host_op_pk: Seq<u8>,
    pub nats_fp: Seq<u8>,
    pub ts: u64,
    pub exp: u64,
    pub sig_host_root: Seq<u8>,
}

impl View for HostOpKeyCert {
    type V = HostOpKeyCertModel;

    open spec fn view(&self) -> HostOpKeyCertModel {
        HostOpKeyCertModel {
            host_op_pk: self.host_op_pk@,
            nats_fp: self.nats_fp@,
            ts: self.ts,
            exp: self.exp,
            sig_host_root: self.sig_host_root@,
        }
    }
}

impl HostOpKeyCertModel {
    /// The fields that are signed: all but `sig_host_root`.
    pub open spec fn unsigned_fields(self) -> Seq<(Seq<char>, Item)> {
        seq![
            ("host_op_pk"@, Item::Bytes(self.host_op_pk)),
            ("nats_fp"@, Item::Bytes(self.nats_fp)),
            ("ts"@, Item::Uint(self.ts)),
            ("exp"@, Item::Uint(self.exp)),
        ]
    }

    /// All fields.
    pub open spec fn fields(self) -> Seq<(Seq<char>, Item)> {
        self.unsigned_fields().push(("sig_host_root"@, Item::Bytes(self.sig_host_root)))
    }

    /// The canonical bytes of the host operating-key certificate.
    pub open spec fn bytes(self) -> Seq<u8> {
        item::encoding(item::record(self.fields()))
    }

    /// What is signed: the tag and the canonical bytes of the other fields.
    pub open spec fn signed_bytes(self) -> Seq<u8> {
        tags::HOST_OP_KEY_CERT_V1@ + item::encoding(item::record(self.unsigned_fields()))
    }

    /// The host operating-key certificate that an item stands for.
    pub open spec fn read(item: Item) -> Result<HostOpKeyCertModel, Fault> {
        match reader::closed_map(item, reader::names(HOST_OP_KEY_CERT_FIELDS@)) {
            Err(f) => Err(f),
            Ok(m) => {
                let host_op_pk = reader::bytes_field(m, "host_op_pk"@);
                let nats_fp = reader::bytes_field(m, "nats_fp"@);
                let ts = reader::uint_field(m, "ts"@);
                let exp = reader::uint_field(m, "exp"@);
                let sig_host_root = reader::bytes_field(m, "sig_host_root"@);
                let found = reader::fault(host_op_pk);
                let found = reader::first(found, reader::fault(nats_fp));
                let found = reader::first(found, reader::fault(ts));
                let found = reader::first(found, reader::fault(exp));
                let found = reader::first(found, reader::fault(sig_host_root));
                reader::unless(
                    found,
                    HostOpKeyCertModel {
                        host_op_pk: host_op_pk->Ok_0,
                        nats_fp: nats_fp->Ok_0,
                        ts: ts->Ok_0,
                        exp: exp->Ok_0,
                        sig_host_root: sig_host_root->Ok_0,
                    },
                )
            },
        }
    }

    /// The host operating-key certificate that canonical bytes stand for.
    pub open spec fn parse(bytes: Seq<u8>) -> Result<HostOpKeyCertModel, Fault> {
        match canonical::decoding(bytes) {
            Err(e) => Err(Fault::Cbor(e)),
            Ok(item) => HostOpKeyCertModel::read(item),
        }
    }
}

proof fn lemma_fields(m: HostOpKeyCertModel)
    ensures
        record::names_distinct(m.fields()),
        record::names_distinct(m.unsigned_fields()),
        record::values_unique(m.fields()),
        record::values_unique(m.unsigned_fields()),
        record::values_nest(m.fields(), MAX_NESTING_DEPTH - 1),
        record::names_among(m.fields(), reader::names(HOST_OP_KEY_CERT_FIELDS@)),
{
    reveal_strlit("host_op_pk");
    reveal_strlit("nats_fp");
    reveal_strlit("ts");
    reveal_strlit("exp");
    reveal_strlit("sig_host_root");
    assert("host_op_pk"@.len() == 10);
    assert("nats_fp"@.len() == 7);
    assert("ts"@.len() == 2);
    assert("exp"@.len() == 3);
    assert("sig_host_root"@.len() == 13);
    let listed = reader::names(HOST_OP_KEY_CERT_FIELDS@);
    let fields = m.fields();
    assert forall|i: int| 0 <= i < fields.len() implies listed.contains((#[trigger] fields[i]).0) by {
        assert(fields[i].0 == listed[i]);
    }
}

impl HostOpKeyCert {
    pub fn unsigned_entries(&self) -> (entries: Vec<(&'static str, CborValue)>)
        ensures
            canonical::fields_of(entries@) == self@.unsigned_fields(),
    {
        let entries: Vec<(&'static str, CborValue)> = vec![
            ("host_op_pk", CborValue::bytes(self.host_op_pk.as_slice())),
            ("nats_fp", CborValue::bytes(self.nats_fp.as_slice())),
            ("ts", CborValue::uint(self.ts)),
            ("exp", CborValue::uint(self.exp)),
        ];
        assert(canonical::fields_of(entries@) =~= self@.unsigned_fields());
        entries
    }

    pub fn unsigned_cbor(&self) -> (value: CborValue)
        ensures
            value@ == item::record(self@.unsigned_fields()),
    {
        CborValue::map(self.unsigned_entries())
    }

    pub fn to_cbor(&self) -> (value: CborValue)
        ensures
            value@ == item::record(self@.fields()),
    {
        let mut entries = self.unsigned_entries();
        entries.push(("sig_host_root", CborValue::bytes(self.sig_host_root.as_slice())));
        assert(canonical::fields_of(entries@) =~= self@.fields());
        CborValue::map(entries)
    }

    pub fn to_canonical_bytes(&self) -> (bytes: Vec<u8>)
        ensures
            bytes@ == self@.bytes(),
            item::lengths_fit(item::record(self@.fields())),
    {
        proof {
            lemma_fields(self@);
            record::lemma_record_unique(self@.fields());
        }
        canonical_encode(&self.to_cbor())
    }

    pub fn from_cbor(v: &CborValue) -> (r: Result<Self, ProtoError>)
        ensures
            reader::seen(r) == HostOpKeyCertModel::read(v@),
    {
        let m = MapReader::new(v)?;
        m.deny_unknown_fields(HOST_OP_KEY_CERT_FIELDS.as_slice())?;
        Ok(
            HostOpKeyCert {
                host_op_pk: m.bytes("host_op_pk")?,
                nats_fp: m.bytes("nats_fp")?,
                ts: m.u64("ts")?,
                exp: m.u64("exp")?,
                sig_host_root: m.bytes("sig_host_root")?,
            },
        )
    }

    pub fn from_canonical_bytes(bytes: &[u8]) -> (r: Result<Self, ProtoError>)
        ensures
            reader::seen(r) == HostOpKeyCertModel::parse(bytes@),
    {
        match canonical_decode(bytes) {
            Ok(value) => Self::from_cbor(&value),
            Err(e) => Err(ProtoError::Cbor(e)),
        }
    }

    /// The tag followed by the canonical bytes of every field but `sig_host_root`.
    pub fn signing_input(&self) -> (input: Vec<u8>)
        ensures
            input@ == self@.signed_bytes(),
    {
        proof {
            lemma_fields(self@);
            record::lemma_record_unique(self@.unsigned_fields());
        }
        tags::signing_input(
            tags::HOST_OP_KEY_CERT_V1.as_slice(),
            canonical_encode(&self.unsigned_cbor()).as_slice(),
        )
    }
}

/// Parsing the canonical bytes of a host operating-key certificate gives the host operating-key certificate back.
pub proof fn law_host_op_key_cert_round_trip(m: HostOpKeyCertModel)
    requires
        item::lengths_fit(item::record(m.fields())),
    ensures
        HostOpKeyCertModel::parse(m.bytes()) == Ok::<HostOpKeyCertModel, Fault>(m),
{
    let fields = m.fields();
    lemma_fields(m);
    record::lemma_record_unique(fields);
    record::lemma_record_nests(fields, MAX_NESTING_DEPTH as int);
    roundtrip::law_decode_of_encode(item::record(fields));
    let entries = record::lemma_canonical_record_closed(
        fields,
        reader::names(HOST_OP_KEY_CERT_FIELDS@),
    );
    assert(fields[0].0 == "host_op_pk"@);
    assert(fields[1].0 == "nats_fp"@);
    assert(fields[2].0 == "ts"@);
    assert(fields[3].0 == "exp"@);
    assert(fields[4].0 == "sig_host_root"@);
    assert(HostOpKeyCertModel::read(Item::Mapping(entries)) == Ok::<HostOpKeyCertModel, Fault>(m));
}

/// Bytes that parse as a host operating-key certificate are its canonical bytes: it has one encoding only.
pub proof fn law_host_op_key_cert_unique_bytes(bytes: Seq<u8>)
    ensures
        HostOpKeyCertModel::parse(bytes) matches Ok(m) ==> m.bytes() == bytes && item::lengths_fit(
            item::record(m.fields()),
        ),
{
    if let Ok(m) = HostOpKeyCertModel::parse(bytes) {
        roundtrip::law_encode_of_decode(bytes);
        let entries = canonical::decoding(bytes)->Ok_0->Mapping_0;
        let fields = m.fields();
        lemma_fields(m);
        assert(fields[0].0 == "host_op_pk"@);
        assert(fields[1].0 == "nats_fp"@);
        assert(fields[2].0 == "ts"@);
        assert(fields[3].0 == "exp"@);
        assert(fields[4].0 == "sig_host_root"@);
        assert(record::agrees(entries, fields, "host_op_pk"@));
        assert(record::agrees(entries, fields, "nats_fp"@));
        assert(record::agrees(entries, fields, "ts"@));
        assert(record::agrees(entries, fields, "exp"@));
        assert(record::agrees(entries, fields, "sig_host_root"@));
        record::lemma_record_rebuilt(entries, fields, reader::names(HOST_OP_KEY_CERT_FIELDS@));
        record::lemma_record_unique(fields);
        roundtrip::lemma_canonical_form_fits(item::record(fields));
        roundtrip::law_canonical_form_same_bytes(item::record(fields));
    }
}

/// A signature covers everything else: two host operating-key certificates with the same signed bytes differ in their
/// signatures alone.
pub proof fn law_host_op_key_cert_signature_covers(a: HostOpKeyCertModel, b: HostOpKeyCertModel)
    requires
        item::lengths_fit(item::record(a.unsigned_fields())),
        item::lengths_fit(item::record(b.unsigned_fields())),
        a.signed_bytes() == b.signed_bytes(),
    ensures
        a == (HostOpKeyCertModel { sig_host_root: a.sig_host_root, ..b }),
{
    lemma_fields(a);
    lemma_fields(b);
    let fa = a.unsigned_fields();
    let fb = b.unsigned_fields();
    record::lemma_signed_alike(tags::HOST_OP_KEY_CERT_V1@, fa, fb);
    assert(fa[0].0 == fb[0].0);
    assert(fa[1].0 == fb[1].0);
    assert(fa[2].0 == fb[2].0);
    assert(fa[3].0 == fb[3].0);
}

// ---- the names on the wire ----

/// What stands on the wire: an item is the same as an operating-key certificate exactly where it is
/// a map with nothing but these names, and under each of them what the value holds there.
pub proof fn law_host_op_key_cert_wire(v: Item, e: HostOpKeyCert)
    requires
        item::keys_unique(v),
    ensures
        item::same_item(v, item::record(e@.fields())) <==> {
            &&& record::is_map_of(v, 5)
            &&& record::holds(v, "host_op_pk"@, Item::Bytes(e.host_op_pk@))
            &&& record::holds(v, "nats_fp"@, Item::Bytes(e.nats_fp@))
            &&& record::holds(v, "ts"@, Item::Uint(e.ts))
            &&& record::holds(v, "exp"@, Item::Uint(e.exp))
            &&& record::holds(v, "sig_host_root"@, Item::Bytes(e.sig_host_root@))
        },
        e@.bytes() == item::encoding(item::record(e@.fields())),
{
    let fields = e@.fields();
    lemma_fields(e@);
    record::lemma_holds_all(v, fields);
    assert(fields[0] == ("host_op_pk"@, Item::Bytes(e.host_op_pk@)));
    assert(fields[1] == ("nats_fp"@, Item::Bytes(e.nats_fp@)));
    assert(fields[2] == ("ts"@, Item::Uint(e.ts)));
    assert(fields[3] == ("exp"@, Item::Uint(e.exp)));
    assert(fields[4] == ("sig_host_root"@, Item::Bytes(e.sig_host_root@)));
}

/// What is signed: the tag, then the map of everything but the signature.
pub proof fn law_host_op_key_cert_signed_wire(v: Item, e: HostOpKeyCert)
    requires
        item::keys_unique(v),
    ensures
        item::same_item(v, item::record(e@.unsigned_fields())) <==> {
            &&& record::is_map_of(v, 4)
            &&& record::holds(v, "host_op_pk"@, Item::Bytes(e.host_op_pk@))
            &&& record::holds(v, "nats_fp"@, Item::Bytes(e.nats_fp@))
            &&& record::holds(v, "ts"@, Item::Uint(e.ts))
            &&& record::holds(v, "exp"@, Item::Uint(e.exp))
        },
        e@.signed_bytes() == tags::HOST_OP_KEY_CERT_V1@
            + item::encoding(item::record(e@.unsigned_fields())),
{
    let fields = e@.unsigned_fields();
    lemma_fields(e@);
    record::lemma_holds_all(v, fields);
    assert(fields[0] == ("host_op_pk"@, Item::Bytes(e.host_op_pk@)));
    assert(fields[1] == ("nats_fp"@, Item::Bytes(e.nats_fp@)));
    assert(fields[2] == ("ts"@, Item::Uint(e.ts)));
    assert(fields[3] == ("exp"@, Item::Uint(e.exp)));
}

/// What is read: every part of an operating-key certificate is what stood under its name.
pub proof fn law_host_op_key_cert_read(v: Item, e: HostOpKeyCert)
    requires
        HostOpKeyCertModel::read(v) == Ok::<HostOpKeyCertModel, Fault>(e@),
    ensures
        record::holds(v, "host_op_pk"@, Item::Bytes(e.host_op_pk@)),
        record::holds(v, "nats_fp"@, Item::Bytes(e.nats_fp@)),
        record::holds(v, "ts"@, Item::Uint(e.ts)),
        record::holds(v, "exp"@, Item::Uint(e.exp)),
        record::holds(v, "sig_host_root"@, Item::Bytes(e.sig_host_root@)),
{
    let entries = v->Mapping_0;
    record::lemma_found_holds(entries, "host_op_pk"@);
    record::lemma_found_holds(entries, "nats_fp"@);
    record::lemma_found_holds(entries, "ts"@);
    record::lemma_found_holds(entries, "exp"@);
    record::lemma_found_holds(entries, "sig_host_root"@);
}

/// An item without duplicate keys is read as an operating-key certificate exactly where it is the
/// record of it, up to the order of its entries: nothing is missing, and nothing else is there.
pub proof fn law_host_op_key_cert_values(v: Item, m: HostOpKeyCertModel)
    requires
        item::keys_unique(v),
    ensures
        HostOpKeyCertModel::read(v) == Ok::<HostOpKeyCertModel, Fault>(m) <==> item::same_item(
            v,
            item::record(m.fields()),
        ),
{
    if let Item::Mapping(entries) = v {
        let fields = m.fields();
        let listed = reader::names(HOST_OP_KEY_CERT_FIELDS@);
        lemma_fields(m);
        record::lemma_field_values(fields);
        assert(listed[0] == "host_op_pk"@);
        assert(listed[1] == "nats_fp"@);
        assert(listed[2] == "ts"@);
        assert(listed[3] == "exp"@);
        assert(listed[4] == "sig_host_root"@);
        assert(fields[0].0 == "host_op_pk"@);
        assert(fields[1].0 == "nats_fp"@);
        assert(fields[2].0 == "ts"@);
        assert(fields[3].0 == "exp"@);
        assert(fields[4].0 == "sig_host_root"@);
        assert(HostOpKeyCertModel::read(v) == Ok::<HostOpKeyCertModel, Fault>(m)
            <==> record::stands_for(
            entries,
            fields,
            listed,
        ));
        record::lemma_stands_for(entries, fields, listed);
    }
}

/// The fields are looked at in this order, once no foreign name is there, and the first that is
/// missing or wrong is the one that is named.
pub proof fn law_host_op_key_cert_first_fault(entries: Seq<(Item, Item)>)
    ensures
        ({
            let r = HostOpKeyCertModel::read(Item::Mapping(entries));
            if let Some(g) = reader::foreign_key(entries, reader::names(HOST_OP_KEY_CERT_FIELDS@)) {
                r matches Err(f) && f == g
            } else {
                if reader::bytes_field(entries, "host_op_pk"@) is Err {
                    r matches Err(f) && f == reader::bytes_field(entries, "host_op_pk"@)->Err_0
                } else if reader::bytes_field(entries, "nats_fp"@) is Err {
                    r matches Err(f) && f == reader::bytes_field(entries, "nats_fp"@)->Err_0
                } else if reader::uint_field(entries, "ts"@) is Err {
                    r matches Err(f) && f == reader::uint_field(entries, "ts"@)->Err_0
                } else if reader::uint_field(entries, "exp"@) is Err {
                    r matches Err(f) && f == reader::uint_field(entries, "exp"@)->Err_0
                } else if reader::bytes_field(entries, "sig_host_root"@) is Err {
                    r matches Err(f) && f == reader::bytes_field(entries, "sig_host_root"@)->Err_0
                } else {
                    r is Ok
                }
            }
        }),
{
}

} // verus!
