//! Device certificates: how an identity root vouches for a device.
use crate::proto::canonical;
use crate::proto::canonical::{canonical_decode, canonical_encode, CborValue, MAX_NESTING_DEPTH};
use crate::proto::item;
use crate::proto::item::Item;
use crate::proto::reader;
use crate::proto::reader::{Fault, MapReader, ProtoError};
use crate::proto::record;
use crate::proto::roundtrip;
use crate::proto::tags;
use vstd::prelude::*;

verus! {

/// `{device_fp, alg_id, sign_pk, agree_pk, nats_fp, ts, exp, sig_root}`.
///
/// There is no label: a device can be renamed without its certificate being signed again. `alg_id`,
/// `sign_pk` and `agree_pk` are what `device_fp` is the fingerprint of.
#[derive(Debug, Clone, PartialEq, Eq)]
pub struct DeviceCertificate {
    pub device_fp: Vec<u8>,
    pub alg_id: u8,
    pub sign_pk: Vec<u8>,
    pub agree_pk: Vec<u8>,
    pub nats_fp: Vec<u8>,
    pub ts: u64,
    pub exp: u64,
    pub sig_root: Vec<u8>,
}

/// The field names of a device certificate.
pub const DEVICE_CERT_FIELDS: [&'static str; 8] = [
    "device_fp",
    "alg_id",
    "sign_pk",
    "agree_pk",
    "nats_fp",
    "ts",
    "exp",
    "sig_root",
];

/// The contents of a device certificate.
pub struct DeviceCertificateModel {
    pub device_fp: Seq<u8>,
    pub alg_id: u8,
    pub sign_pk: Seq<u8>,
    pub agree_pk: Seq<u8>,
    pub nats_fp: Seq<u8>,
    pub ts: u64,
    pub exp: u64,
    pub sig_root: Seq<u8>,
}

impl View for DeviceCertificate {
    type V = DeviceCertificateModel;

    open spec fn view(&self) -> DeviceCertificateModel {
        DeviceCertificateModel {
            device_fp: self.device_fp@,
            alg_id: self.alg_id,
            sign_pk: self.sign_pk@,
            agree_pk: self.agree_pk@,
            nats_fp: self.nats_fp@,
            ts: self.ts,
            exp: self.exp,
            sig_root: self.sig_root@,
        }
    }
}

impl DeviceCertificateModel {
    /// The fields that are signed: all but `sig_root`.
    pub open spec fn unsigned_fields(self) -> Seq<(Seq<char>, Item)> {
        seq![
            ("device_fp"@, Item::Bytes(self.device_fp)),
            ("alg_id"@, Item::Uint(self.alg_id as u64)),
            ("sign_pk"@, Item::Bytes(self.sign_pk)),
            ("agree_pk"@, Item::Bytes(self.agree_pk)),
            ("nats_fp"@, Item::Bytes(self.nats_fp)),
            ("ts"@, Item::Uint(self.ts)),
            ("exp"@, Item::Uint(self.exp)),
        ]
    }

    /// All fields.
    pub open spec fn fields(self) -> Seq<(Seq<char>, Item)> {
        self.unsigned_fields().push(("sig_root"@, Item::Bytes(self.sig_root)))
    }

    /// The canonical bytes of the device certificate.
    pub open spec fn bytes(self) -> Seq<u8> {
        item::encoding(item::record(self.fields()))
    }

    /// What is signed: the tag and the canonical bytes of the other fields.
    pub open spec fn signed_bytes(self) -> Seq<u8> {
        tags::DEVICE_CERT_V1@ + item::encoding(item::record(self.unsigned_fields()))
    }

    /// The device certificate that an item stands for.
    pub open spec fn read(item: Item) -> Result<DeviceCertificateModel, Fault> {
        match reader::closed_map(item, reader::names(DEVICE_CERT_FIELDS@)) {
            Err(f) => Err(f),
            Ok(m) => {
                let device_fp = reader::bytes_field(m, "device_fp"@);
                let alg_id = reader::u8_field(m, "alg_id"@);
                let sign_pk = reader::bytes_field(m, "sign_pk"@);
                let agree_pk = reader::bytes_field(m, "agree_pk"@);
                let nats_fp = reader::bytes_field(m, "nats_fp"@);
                let ts = reader::uint_field(m, "ts"@);
                let exp = reader::uint_field(m, "exp"@);
                let sig_root = reader::bytes_field(m, "sig_root"@);
                let found = reader::fault(device_fp);
                let found = reader::first(found, reader::fault(alg_id));
                let found = reader::first(found, reader::fault(sign_pk));
                let found = reader::first(found, reader::fault(agree_pk));
                let found = reader::first(found, reader::fault(nats_fp));
                let found = reader::first(found, reader::fault(ts));
                let found = reader::first(found, reader::fault(exp));
                let found = reader::first(found, reader::fault(sig_root));
                reader::unless(
                    found,
                    DeviceCertificateModel {
                        device_fp: device_fp->Ok_0,
                        alg_id: alg_id->Ok_0,
                        sign_pk: sign_pk->Ok_0,
                        agree_pk: agree_pk->Ok_0,
                        nats_fp: nats_fp->Ok_0,
                        ts: ts->Ok_0,
                        exp: exp->Ok_0,
                        sig_root: sig_root->Ok_0,
                    },
                )
            },
        }
    }

    /// The device certificate that canonical bytes stand for.
    pub open spec fn parse(bytes: Seq<u8>) -> Result<DeviceCertificateModel, Fault> {
        match canonical::decoding(bytes) {
            Err(e) => Err(Fault::Cbor(e)),
            Ok(item) => DeviceCertificateModel::read(item),
        }
    }
}

proof fn lemma_fields(m: DeviceCertificateModel)
    ensures
        record::names_distinct(m.fields()),
        record::names_distinct(m.unsigned_fields()),
        record::values_unique(m.fields()),
        record::values_unique(m.unsigned_fields()),
        record::values_nest(m.fields(), MAX_NESTING_DEPTH - 1),
        record::names_among(m.fields(), reader::names(DEVICE_CERT_FIELDS@)),
{
    reveal_strlit("device_fp");
    reveal_strlit("alg_id");
    reveal_strlit("sign_pk");
    reveal_strlit("agree_pk");
    reveal_strlit("nats_fp");
    reveal_strlit("ts");
    reveal_strlit("exp");
    reveal_strlit("sig_root");
    assert("device_fp"@.len() == 9);
    assert("alg_id"@.len() == 6);
    assert("sign_pk"@.len() == 7);
    assert("agree_pk"@.len() == 8);
    assert("nats_fp"@.len() == 7);
    assert("ts"@.len() == 2);
    assert("exp"@.len() == 3);
    assert("sig_root"@.len() == 8);
    assert("sign_pk"@[0] != "nats_fp"@[0]);
    assert("agree_pk"@[0] != "sig_root"@[0]);
    let listed = reader::names(DEVICE_CERT_FIELDS@);
    let fields = m.fields();
    assert forall|i: int| 0 <= i < fields.len() implies listed.contains((#[trigger] fields[i]).0) by {
        assert(fields[i].0 == listed[i]);
    }
}

impl DeviceCertificate {
    pub fn unsigned_entries(&self) -> (entries: Vec<(&'static str, CborValue)>)
        ensures
            canonical::fields_of(entries@) == self@.unsigned_fields(),
    {
        let entries: Vec<(&'static str, CborValue)> = vec![
            ("device_fp", CborValue::bytes(self.device_fp.as_slice())),
            ("alg_id", CborValue::uint(self.alg_id as u64)),
            ("sign_pk", CborValue::bytes(self.sign_pk.as_slice())),
            ("agree_pk", CborValue::bytes(self.agree_pk.as_slice())),
            ("nats_fp", CborValue::bytes(self.nats_fp.as_slice())),
            ("ts", CborValue::uint(self.ts)),
            ("exp", CborValue::uint(self.exp)),
        ];
        assert(canonical::fields_of(entries@) =~= self@.unsigned_fields());
        entries
    }

    pub fn unsigned_cbor(&self) -> (value: CborValue)
        ensures
            value@ == item::record(self@.unsigned_fields()),
    {
        CborValue::map(self.unsigned_entries())
    }

    pub fn to_cbor(&self) -> (value: CborValue)
        ensures
            value@ == item::record(self@.fields()),
    {
        let mut entries = self.unsigned_entries();
        entries.push(("sig_root", CborValue::bytes(self.sig_root.as_slice())));
        assert(canonical::fields_of(entries@) =~= self@.fields());
        CborValue::map(entries)
    }

    pub fn to_canonical_bytes(&self) -> (bytes: Vec<u8>)
        ensures
            bytes@ == self@.bytes(),
            item::lengths_fit(item::record(self@.fields())),
    {
        proof {
            lemma_fields(self@);
            record::lemma_record_unique(self@.fields());
        }
        canonical_encode(&self.to_cbor())
    }

    pub fn from_cbor(v: &CborValue) -> (r: Result<Self, ProtoError>)
        ensures
            reader::seen(r) == DeviceCertificateModel::read(v@),
    {
        let m = MapReader::new(v)?;
        m.deny_unknown_fields(DEVICE_CERT_FIELDS.as_slice())?;
        Ok(
            DeviceCertificate {
                device_fp: m.bytes("device_fp")?,
                alg_id: m.u8("alg_id")?,
                sign_pk: m.bytes("sign_pk")?,
                agree_pk: m.bytes("agree_pk")?,
                nats_fp: m.bytes("nats_fp")?,
                ts: m.u64("ts")?,
                exp: m.u64("exp")?,
                sig_root: m.bytes("sig_root")?,
            },
        )
    }

    pub fn from_canonical_bytes(bytes: &[u8]) -> (r: Result<Self, ProtoError>)
        ensures
            reader::seen(r) == DeviceCertificateModel::parse(bytes@),
    {
        match canonical_decode(bytes) {
            Ok(value) => Self::from_cbor(&value),
            Err(e) => Err(ProtoError::Cbor(e)),
        }
    }

    /// The tag followed by the canonical bytes of every field but `sig_root`.
    pub fn signing_input(&self) -> (input: Vec<u8>)
        ensures
            input@ == self@.signed_bytes(),
    {
        proof {
            lemma_fields(self@);
            record::lemma_record_unique(self@.unsigned_fields());
        }
        tags::signing_input(
            tags::DEVICE_CERT_V1.as_slice(),
            canonical_encode(&self.unsigned_cbor()).as_slice(),
        )
    }
}

/// Parsing the canonical bytes of a device certificate gives the device certificate back.
pub proof fn law_device_certificate_round_trip(m: DeviceCertificateModel)
    requires
        item::lengths_fit(item::record(m.fields())),
    ensures
        DeviceCertificateModel::parse(m.bytes()) == Ok::<DeviceCertificateModel, Fault>(m),
{
    let fields = m.fields();
    lemma_fields(m);
    record::lemma_record_unique(fields);
    record::lemma_record_nests(fields, MAX_NESTING_DEPTH as int);
    roundtrip::law_decode_of_encode(item::record(fields));
    let entries = record::lemma_canonical_record_closed(
        fields,
        reader::names(DEVICE_CERT_FIELDS@),
    );
    assert(fields[0].0 == "device_fp"@);
    assert(fields[1].0 == "alg_id"@);
    assert(fields[2].0 == "sign_pk"@);
    assert(fields[3].0 == "agree_pk"@);
    assert(fields[4].0 == "nats_fp"@);
    assert(fields[5].0 == "ts"@);
    assert(fields[6].0 == "exp"@);
    assert(fields[7].0 == "sig_root"@);
    assert(DeviceCertificateModel::read(Item::Mapping(entries)) == Ok::<DeviceCertificateModel, Fault>(m));
}

/// Bytes that parse as a device certificate are its canonical bytes: it has one encoding only.
pub proof fn law_device_certificate_unique_bytes(bytes: Seq<u8>)
    ensures
        DeviceCertificateModel::parse(bytes) matches Ok(m) ==> m.bytes() == bytes && item::lengths_fit(
            item::record(m.fields()),
        ),
{
    if let Ok(m) = DeviceCertificateModel::parse(bytes) {
        roundtrip::law_encode_of_decode(bytes);
        let entries = canonical::decoding(bytes)->Ok_0->Mapping_0;
        let fields = m.fields();
        lemma_fields(m);
        assert(fields[0].0 == "device_fp"@);
        assert(fields[1].0 == "alg_id"@);
        assert(fields[2].0 == "sign_pk"@);
        assert(fields[3].0 == "agree_pk"@);
        assert(fields[4].0 == "nats_fp"@);
        assert(fields[5].0 == "ts"@);
        assert(fields[6].0 == "exp"@);
        assert(fields[7].0 == "sig_root"@);
        assert(record::agrees(entries, fields, "device_fp"@));
        assert(record::agrees(entries, fields, "alg_id"@));
        assert(record::agrees(entries, fields, "sign_pk"@));
        assert(record::agrees(entries, fields, "agree_pk"@));
        assert(record::agrees(entries, fields, "nats_fp"@));
        assert(record::agrees(entries, fields, "ts"@));
        assert(record::agrees(entries, fields, "exp"@));
        assert(record::agrees(entries, fields, "sig_root"@));
        record::lemma_record_rebuilt(entries, fields, reader::names(DEVICE_CERT_FIELDS@));
        record::lemma_record_unique(fields);
        roundtrip::lemma_canonical_form_fits(item::record(fields));
        roundtrip::law_canonical_form_same_bytes(item::record(fields));
    }
}

/// A signature covers everything else: two device certificates with the same signed bytes differ in their
/// signatures alone.
pub proof fn law_device_certificate_signature_covers(a: DeviceCertificateModel, b: DeviceCertificateModel)
    requires
        item::lengths_fit(item::record(a.unsigned_fields())),
        item::lengths_fit(item::record(b.unsigned_fields())),
        a.signed_bytes() == b.signed_bytes(),
    ensures
        a == (DeviceCertificateModel { sig_root: a.sig_root, ..b }),
{
    lemma_fields(a);
    lemma_fields(b);
    let fa = a.unsigned_fields();
    let fb = b.unsigned_fields();
    record::lemma_signed_alike(tags::DEVICE_CERT_V1@, fa, fb);
    assert(fa[0].0 == fb[0].0);
    assert(fa[1].0 == fb[1].0);
    assert(fa[2].0 == fb[2].0);
    assert(fa[3].0 == fb[3].0);
    assert(fa[4].0 == fb[4].0);
    assert(fa[5].0 == fb[5].0);
    assert(fa[6].0 == fb[6].0);
}

// ---- the names on the wire ----

/// What stands on the wire: an item is the same as a device certificate exactly where it is a map
/// with nothing but these names, and under each of them what the value holds there.
pub proof fn law_device_certificate_wire(v: Item, e: DeviceCertificate)
    requires
        item::keys_unique(v),
    ensures
        item::same_item(v, item::record(e@.fields())) <==> {
            &&& record::is_map_of(v, 8)
            &&& record::holds(v, "device_fp"@, Item::Bytes(e.device_fp@))
            &&& record::holds(v, "alg_id"@, Item::Uint(e.alg_id as u64))
            &&& record::holds(v, "sign_pk"@, Item::Bytes(e.sign_pk@))
            &&& record::holds(v, "agree_pk"@, Item::Bytes(e.agree_pk@))
            &&& record::holds(v, "nats_fp"@, Item::Bytes(e.nats_fp@))
            &&& record::holds(v, "ts"@, Item::Uint(e.ts))
            &&& record::holds(v, "exp"@, Item::Uint(e.exp))
            &&& record::holds(v, "sig_root"@, Item::Bytes(e.sig_root@))
        },
        e@.bytes() == item::encoding(item::record(e@.fields())),
{
    let fields = e@.fields();
    lemma_fields(e@);
    record::lemma_holds_all(v, fields);
    assert(fields[0] == ("device_fp"@, Item::Bytes(e.device_fp@)));
    assert(fields[1] == ("alg_id"@, Item::Uint(e.alg_id as u64)));
    assert(fields[2] == ("sign_pk"@, Item::Bytes(e.sign_pk@)));
    assert(fields[3] == ("agree_pk"@, Item::Bytes(e.agree_pk@)));
    assert(fields[4] == ("nats_fp"@, Item::Bytes(e.nats_fp@)));
    assert(fields[5] == ("ts"@, Item::Uint(e.ts)));
    assert(fields[6] == ("exp"@, Item::Uint(e.exp)));
    assert(fields[7] == ("sig_root"@, Item::Bytes(e.sig_root@)));
}

/// What is signed: the tag, then the map of everything but the signature.
pub proof fn law_device_certificate_signed_wire(v: Item, e: DeviceCertificate)
    requires
        item::keys_unique(v),
    ensures
        item::same_item(v, item::record(e@.unsigned_fields())) <==> {
            &&& record::is_map_of(v, 7)
            &&& record::holds(v, "device_fp"@, Item::Bytes(e.device_fp@))
            &&& record::holds(v, "alg_id"@, Item::Uint(e.alg_id as u64))
            &&& record::holds(v, "sign_pk"@, Item::Bytes(e.sign_pk@))
            &&& record::holds(v, "agree_pk"@, Item::Bytes(e.agree_pk@))
            &&& record::holds(v, "nats_fp"@, Item::Bytes(e.nats_fp@))
            &&& record::holds(v, "ts"@, Item::Uint(e.ts))
            &&& record::holds(v, "exp"@, Item::Uint(e.exp))
        },
        e@.signed_bytes() == tags::DEVICE_CERT_V1@
            + item::encoding(item::record(e@.unsigned_fields())),
{
    let fields = e@.unsigned_fields();
    lemma_fields(e@);
    record::lemma_holds_all(v, fields);
    assert(fields[0] == ("device_fp"@, Item::Bytes(e.device_fp@)));
    assert(fields[1] == ("alg_id"@, Item::Uint(e.alg_id as u64)));
    assert(fields[2] == ("sign_pk"@, Item::Bytes(e.sign_pk@)));
    assert(fields[3] == ("agree_pk"@, Item::Bytes(e.agree_pk@)));
    assert(fields[4] == ("nats_fp"@, Item::Bytes(e.nats_fp@)));
    assert(fields[5] == ("ts"@, Item::Uint(e.ts)));
    assert(fields[6] == ("exp"@, Item::Uint(e.exp)));
}

/// What is read: every part of a device certificate is what stood under its name.
pub proof fn law_device_certificate_read(v: Item, e: DeviceCertificate)
    requires
        DeviceCertificateModel::read(v) == Ok::<DeviceCertificateModel, Fault>(e@),
    ensures
        record::holds(v, "device_fp"@, Item::Bytes(e.device_fp@)),
        record::holds(v, "alg_id"@, Item::Uint(e.alg_id as u64)),
        record::holds(v, "sign_pk"@, Item::Bytes(e.sign_pk@)),
        record::holds(v, "agree_pk"@, Item::Bytes(e.agree_pk@)),
        record::holds(v, "nats_fp"@, Item::Bytes(e.nats_fp@)),
        record::holds(v, "ts"@, Item::Uint(e.ts)),
        record::holds(v, "exp"@, Item::Uint(e.exp)),
        record::holds(v, "sig_root"@, Item::Bytes(e.sig_root@)),
{
    let entries = v->Mapping_0;
    record::lemma_found_holds(entries, "device_fp"@);
    record::lemma_found_holds(entries, "alg_id"@);
    record::lemma_found_holds(entries, "sign_pk"@);
    record::lemma_found_holds(entries, "agree_pk"@);
    record::lemma_found_holds(entries, "nats_fp"@);
    record::lemma_found_holds(entries, "ts"@);
    record::lemma_found_holds(entries, "exp"@);
    record::lemma_found_holds(entries, "sig_root"@);
}

/// An item without duplicate keys is read as a device certificate exactly where it is the record of
/// it, up to the order of its entries: nothing is missing, and nothing else is there.
pub proof fn law_device_certificate_values(v: Item, m: DeviceCertificateModel)
    requires
        item::keys_unique(v),
    ensures
        DeviceCertificateModel::read(v) == Ok::<DeviceCertificateModel, Fault>(m)
            <==> item::same_item(
            v,
            item::record(m.fields()),
        ),
{
    if let Item::Mapping(entries) = v {
        let fields = m.fields();
        let listed = reader::names(DEVICE_CERT_FIELDS@);
        lemma_fields(m);
        record::lemma_field_values(fields);
        assert(listed[0] == "device_fp"@);
        assert(listed[1] == "alg_id"@);
        assert(listed[2] == "sign_pk"@);
        assert(listed[3] == "agree_pk"@);
        assert(listed[4] == "nats_fp"@);
        assert(listed[5] == "ts"@);
        assert(listed[6] == "exp"@);
        assert(listed[7] == "sig_root"@);
        assert(fields[0].0 == "device_fp"@);
        assert(fields[1].0 == "alg_id"@);
        assert(fields[2].0 == "sign_pk"@);
        assert(fields[3].0 == "agree_pk"@);
        assert(fields[4].0 == "nats_fp"@);
        assert(fields[5].0 == "ts"@);
        assert(fields[6].0 == "exp"@);
        assert(fields[7].0 == "sig_root"@);
        assert(DeviceCertificateModel::read(v) == Ok::<DeviceCertificateModel, Fault>(m)
            <==> record::stands_for(
            entries,
            fields,
            listed,
        ));
        record::lemma_stands_for(entries, fields, listed);
    }
}

/// The fields are looked at in this order, once no foreign name is there, and the first that is
/// missing or wrong is the one that is named.
pub proof fn law_device_certificate_first_fault(entries: Seq<(Item, Item)>)
    ensures
        ({
            let r = DeviceCertificateModel::read(Item::Mapping(entries));
            if let Some(g) = reader::foreign_key(entries, reader::names(DEVICE_CERT_FIELDS@)) {
                r matches Err(f) && f == g
            } else {
                if reader::bytes_field(entries, "device_fp"@) is Err {
                    r matches Err(f) && f == reader::bytes_field(entries, "device_fp"@)->Err_0
                } else if reader::u8_field(entries, "alg_id"@) is Err {
                    r matches Err(f) && f == reader::u8_field(entries, "alg_id"@)->Err_0
                } else if reader::bytes_field(entries, "sign_pk"@) is Err {
                    r matches Err(f) && f == reader::bytes_field(entries, "sign_pk"@)->Err_0
                } else if reader::bytes_field(entries, "agree_pk"@) is Err {
                    r matches Err(f) && f == reader::bytes_field(entries, "agree_pk"@)->Err_0
                } else if reader::bytes_field(entries, "nats_fp"@) is Err {
                    r matches Err(f) && f == reader::bytes_field(entries, "nats_fp"@)->Err_0
                } else if reader::uint_field(entries, "ts"@) is Err {
                    r matches Err(f) && f == reader::uint_field(entries, "ts"@)->Err_0
                } else if reader::uint_field(entries, "exp"@) is Err {
                    r matches Err(f) && f == reader::uint_field(entries, "exp"@)->Err_0
                } else if reader::bytes_field(entries, "sig_root"@) is Err {
                    r matches Err(f) && f == reader::bytes_field(entries, "sig_root"@)->Err_0
                } else {
                    r is Ok
                }
            }
        }),
{
}

} // verus!
