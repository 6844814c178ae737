//! Revocation records: which fingerprints a host no longer accepts.
use crate::proto::canonical;
use crate::proto::canonical::{canonical_decode, canonical_encode, CborValue, MAX_NESTING_DEPTH};
use crate::proto::item;
use crate::proto::item::Item;
use crate::proto::reader;
use crate::proto::reader::{Fault, MapReader, ProtoError};
use crate::proto::record;
use crate::proto::roundtrip;
use crate::proto::tags;
use vstd::prelude::*;

verus! {

/// An array of byte strings.
pub fn bytes_array_value(items: &[Vec<u8>]) -> (value: CborValue)
    ensures
        value@ == record::bytes_list(reader::byte_strings(items@)),
{
    let mut values: Vec<CborValue> = Vec::new();
    let mut i: usize = 0;
    while i < items.len()
        invariant
            i == values@.len() <= items@.len(),
            forall|j: int| 0 <= j < i ==> (#[trigger] values@[j])@ == Item::Bytes(items@[j]@),
        decreases items.len() - i,
    {
        values.push(CborValue::bytes(items[i].as_slice()));
        i += 1;
    }
    assert(canonical::items_of(values@) =~= record::bytes_list(
        reader::byte_strings(items@),
    )->Array_0);
    CborValue::array(values)
}

/// `{host_fp, epoch, revoked: [fp...], ts, sig}`. `revoked` mixes root and device fingerprints, opaque
/// here.
#[derive(Debug, Clone, PartialEq, Eq)]
pub struct RevocationRecord {
    pub host_fp: Vec<u8>,
    pub epoch: u64,
    pub revoked: Vec<Vec<u8>>,
    pub ts: u64,
    pub sig: Vec<u8>,
}

/// The field names of a revocation record.
pub const REVOCATION_FIELDS: [&'static str; 5] = [
    "host_fp",
    "epoch",
    "revoked",
    "ts",
    "sig",
];

/// The contents of a revocation record.
pub struct RevocationRecordModel {
    pub host_fp: Seq<u8>,
    pub epoch: u64,
    pub revoked: Seq<Seq<u8>>,
    pub ts: u64,
    pub sig: Seq<u8>,
}

impl View for RevocationRecord {
    type V = RevocationRecordModel;

    open spec fn view(&self) -> RevocationRecordModel {
        RevocationRecordModel {
            host_fp: self.host_fp@,
            epoch: self.epoch,
            revoked: reader::byte_strings(self.revoked@),
            ts: self.ts,
            sig: self.sig@,
        }
    }
}

impl RevocationRecordModel {
    /// The fields that are signed: all but `sig`.
    pub open spec fn unsigned_fields(self) -> Seq<(Seq<char>, Item)> {
        seq![
            ("host_fp"@, Item::Bytes(self.host_fp)),
            ("epoch"@, Item::Uint(self.epoch)),
            ("revoked"@, record::bytes_list(self.revoked)),
            ("ts"@, Item::Uint(self.ts)),
        ]
    }

    /// All fields.
    pub open spec fn fields(self) -> Seq<(Seq<char>, Item)> {
        self.unsigned_fields().push(("sig"@, Item::Bytes(self.sig)))
    }

    /// The canonical bytes of the revocation record.
    pub open spec fn bytes(self) -> Seq<u8> {
        item::encoding(item::record(self.fields()))
    }

    /// What is signed: the tag and the canonical bytes of the other fields.
    pub open spec fn signed_bytes(self) -> Seq<u8> {
        tags::REVOCATION_V1@ + item::encoding(item::record(self.unsigned_fields()))
    }

    /// The revocation record that an item stands for.
    pub open spec fn read(item: Item) -> Result<RevocationRecordModel, Fault> {
        match reader::closed_map(item, reader::names(REVOCATION_FIELDS@)) {
            Err(f) => Err(f),
            Ok(m) => {
                let host_fp = reader::bytes_field(m, "host_fp"@);
                let epoch = reader::uint_field(m, "epoch"@);
                let revoked = reader::bytes_array_field(m, "revoked"@);
                let ts = reader::uint_field(m, "ts"@);
                let sig = reader::bytes_field(m, "sig"@);
                let found = reader::fault(host_fp);
                let found = reader::first(found, reader::fault(epoch));
                let found = reader::first(found, reader::fault(revoked));
                let found = reader::first(found, reader::fault(ts));
                let found = reader::first(found, reader::fault(sig));
                reader::unless(
                    found,
                    RevocationRecordModel {
                        host_fp: host_fp->Ok_0,
                        epoch: epoch->Ok_0,
                        revoked: revoked->Ok_0,
                        ts: ts->Ok_0,
                        sig: sig->Ok_0,
                    },
                )
            },
        }
    }

    /// The revocation record that canonical bytes stand for.
    pub open spec fn parse(bytes: Seq<u8>) -> Result<RevocationRecordModel, Fault> {
        match canonical::decoding(bytes) {
            Err(e) => Err(Fault::Cbor(e)),
            Ok(item) => RevocationRecordModel::read(item),
        }
    }
}

proof fn lemma_fields(m: RevocationRecordModel)
    ensures
        record::names_distinct(m.fields()),
        record::names_distinct(m.unsigned_fields()),
        record::values_unique(m.fields()),
        record::values_unique(m.unsigned_fields()),
        record::values_nest(m.fields(), MAX_NESTING_DEPTH - 1),
        record::names_among(m.fields(), reader::names(REVOCATION_FIELDS@)),
{
    reveal_strlit("host_fp");
    reveal_strlit("epoch");
    reveal_strlit("revoked");
    reveal_strlit("ts");
    reveal_strlit("sig");
    assert("host_fp"@.len() == 7);
    assert("epoch"@.len() == 5);
    assert("revoked"@.len() == 7);
    assert("ts"@.len() == 2);
    assert("sig"@.len() == 3);
    assert("host_fp"@[0] != "revoked"@[0]);
    record::lemma_bytes_list(m.revoked);
    let listed = reader::names(REVOCATION_FIELDS@);
    let fields = m.fields();
    assert forall|i: int| 0 <= i < fields.len() implies listed.contains((#[trigger] fields[i]).0) by {
        assert(fields[i].0 == listed[i]);
    }
}

impl RevocationRecord {
    pub fn unsigned_entries(&self) -> (entries: Vec<(&'static str, CborValue)>)
        ensures
            canonical::fields_of(entries@) == self@.unsigned_fields(),
    {
        let entries: Vec<(&'static str, CborValue)> = vec![
            ("host_fp", CborValue::bytes(self.host_fp.as_slice())),
            ("epoch", CborValue::uint(self.epoch)),
            ("revoked", bytes_array_value(self.revoked.as_slice())),
            ("ts", CborValue::uint(self.ts)),
        ];
        assert(canonical::fields_of(entries@) =~= self@.unsigned_fields());
        entries
    }

    pub fn unsigned_cbor(&self) -> (value: CborValue)
        ensures
            value@ == item::record(self@.unsigned_fields()),
    {
        CborValue::map(self.unsigned_entries())
    }

    pub fn to_cbor(&self) -> (value: CborValue)
        ensures
            value@ == item::record(self@.fields()),
    {
        let mut entries = self.unsigned_entries();
        entries.push(("sig", CborValue::bytes(self.sig.as_slice())));
        assert(canonical::fields_of(entries@) =~= self@.fields());
        CborValue::map(entries)
    }

    pub fn to_canonical_bytes(&self) -> (bytes: Vec<u8>)
        ensures
            bytes@ == self@.bytes(),
            item::lengths_fit(item::record(self@.fields())),
    {
        proof {
            lemma_fields(self@);
            record::lemma_record_unique(self@.fields());
        }
        canonical_encode(&self.to_cbor())
    }

    pub fn from_cbor(v: &CborValue) -> (r: Result<Self, ProtoError>)
        ensures
            reader::seen(r) == RevocationRecordModel::read(v@),
    {
        let m = MapReader::new(v)?;
        m.deny_unknown_fields(REVOCATION_FIELDS.as_slice())?;
        Ok(
            RevocationRecord {
                host_fp: m.bytes("host_fp")?,
                epoch: m.u64("epoch")?,
                revoked: m.bytes_array("revoked")?,
                ts: m.u64("ts")?,
                sig: m.bytes("sig")?,
            },
        )
    }

    pub fn from_canonical_bytes(bytes: &[u8]) -> (r: Result<Self, ProtoError>)
        ensures
            reader::seen(r) == RevocationRecordModel::parse(bytes@),
    {
        match canonical_decode(bytes) {
            Ok(value) => Self::from_cbor(&value),
            Err(e) => Err(ProtoError::Cbor(e)),
        }
    }

    /// The tag followed by the canonical bytes of every field but `sig`.
    pub fn signing_input(&self) -> (input: Vec<u8>)
        ensures
            input@ == self@.signed_bytes(),
    {
        proof {
            lemma_fields(self@);
            record::lemma_record_unique(self@.unsigned_fields());
        }
        tags::signing_input(
            tags::REVOCATION_V1.as_slice(),
            canonical_encode(&self.unsigned_cbor()).as_slice(),
        )
    }
}

/// Parsing the canonical bytes of a revocation record gives the revocation record back.
pub proof fn law_revocation_record_round_trip(m: RevocationRecordModel)
    requires
        item::lengths_fit(item::record(m.fields())),
    ensures
        RevocationRecordModel::parse(m.bytes()) == Ok::<RevocationRecordModel, Fault>(m),
{
    let fields = m.fields();
    lemma_fields(m);
    record::lemma_record_unique(fields);
    record::lemma_record_nests(fields, MAX_NESTING_DEPTH as int);
    roundtrip::law_decode_of_encode(item::record(fields));
    let entries = record::lemma_canonical_record_closed(
        fields,
        reader::names(REVOCATION_FIELDS@),
    );
    assert(fields[0].0 == "host_fp"@);
    assert(fields[1].0 == "epoch"@);
    assert(fields[2].0 == "revoked"@);
    assert(fields[3].0 == "ts"@);
    assert(fields[4].0 == "sig"@);
    record::lemma_bytes_list(m.revoked);
    assert(Seq::new(m.revoked.len(), |i: int| record::bytes_list(m.revoked)->Array_0[i]->Bytes_0)
        =~= m.revoked);
    assert(RevocationRecordModel::read(Item::Mapping(entries)) == Ok::<RevocationRecordModel, Fault>(m));
}

/// Bytes that parse as a revocation record are its canonical bytes: it has one encoding only.
pub proof fn law_revocation_record_unique_bytes(bytes: Seq<u8>)
    ensures
        RevocationRecordModel::parse(bytes) matches Ok(m) ==> m.bytes() == bytes && item::lengths_fit(
            item::record(m.fields()),
        ),
{
    if let Ok(m) = RevocationRecordModel::parse(bytes) {
        roundtrip::law_encode_of_decode(bytes);
        let entries = canonical::decoding(bytes)->Ok_0->Mapping_0;
        let fields = m.fields();
        lemma_fields(m);
        assert(fields[0].0 == "host_fp"@);
        assert(fields[1].0 == "epoch"@);
        assert(fields[2].0 == "revoked"@);
        assert(fields[3].0 == "ts"@);
        assert(fields[4].0 == "sig"@);
        record::lemma_bytes_list(m.revoked);
        assert(record::bytes_list(m.revoked)->Array_0 =~= reader::array_field(
            entries,
            "revoked"@,
        )->Ok_0);
        assert(record::agrees(entries, fields, "host_fp"@));
        assert(record::agrees(entries, fields, "epoch"@));
        assert(record::agrees(entries, fields, "revoked"@));
        assert(record::agrees(entries, fields, "ts"@));
        assert(record::agrees(entries, fields, "sig"@));
        record::lemma_record_rebuilt(entries, fields, reader::names(REVOCATION_FIELDS@));
        record::lemma_record_unique(fields);
        roundtrip::lemma_canonical_form_fits(item::record(fields));
        roundtrip::law_canonical_form_same_bytes(item::record(fields));
    }
}

/// A signature covers everything else: two revocation records with the same signed bytes differ in their
/// signatures alone.
pub proof fn law_revocation_record_signature_covers(a: RevocationRecordModel, b: RevocationRecordModel)
    requires
        item::lengths_fit(item::record(a.unsigned_fields())),
        item::lengths_fit(item::record(b.unsigned_fields())),
        a.signed_bytes() == b.signed_bytes(),
    ensures
        a == (RevocationRecordModel { sig: a.sig, ..b }),
{
    lemma_fields(a);
    lemma_fields(b);
    let fa = a.unsigned_fields();
    let fb = b.unsigned_fields();
    record::lemma_signed_alike(tags::REVOCATION_V1@, fa, fb);
    assert(fa[0].0 == fb[0].0);
    assert(fa[1].0 == fb[1].0);
    assert(fa[2].0 == fb[2].0);
    assert(fa[3].0 == fb[3].0);
    record::lemma_bytes_list(a.revoked);
    record::lemma_bytes_list(b.revoked);
    let la = record::bytes_list(a.revoked)->Array_0;
    let lb = record::bytes_list(b.revoked)->Array_0;
    assert(la == lb);
    assert(la.len() == a.revoked.len() && lb.len() == b.revoked.len());
    assert forall|i: int| 0 <= i < a.revoked.len() implies a.revoked[i] == b.revoked[i] by {
        assert(la[i] == lb[i]);
    }
    assert(a.revoked =~= b.revoked);
}

// ---- the names on the wire ----

/// What stands on the wire: an item is the same as a revocation record exactly where it is a map
/// with nothing but these names, and under each of them what the value holds there.
pub proof fn law_revocation_record_wire(v: Item, e: RevocationRecord)
    requires
        item::keys_unique(v),
    ensures
        item::same_item(v, item::record(e@.fields())) <==> {
            &&& record::is_map_of(v, 5)
            &&& record::holds(v, "host_fp"@, Item::Bytes(e.host_fp@))
            &&& record::holds(v, "epoch"@, Item::Uint(e.epoch))
            &&& record::holds(v, "revoked"@, Item::Array(Seq::new(e.revoked@.len(),
                |i: int| Item::Bytes(e.revoked@[i]@))))
            &&& record::holds(v, "ts"@, Item::Uint(e.ts))
            &&& record::holds(v, "sig"@, Item::Bytes(e.sig@))
        },
        e@.bytes() == item::encoding(item::record(e@.fields())),
{
    let fields = e@.fields();
    lemma_fields(e@);
    record::lemma_holds_all(v, fields);
    assert(fields[0] == ("host_fp"@, Item::Bytes(e.host_fp@)));
    assert(fields[1] == ("epoch"@, Item::Uint(e.epoch)));
    assert(fields[2].0 == "revoked"@);
    assert(fields[2].1->Array_0 =~= (Item::Array(Seq::new(e.revoked@.len(),
        |i: int| Item::Bytes(e.revoked@[i]@))))->Array_0);
    assert(fields[3] == ("ts"@, Item::Uint(e.ts)));
    assert(fields[4] == ("sig"@, Item::Bytes(e.sig@)));
}

/// What is signed: the tag, then the map of everything but the signature.
pub proof fn law_revocation_record_signed_wire(v: Item, e: RevocationRecord)
    requires
        item::keys_unique(v),
    ensures
        item::same_item(v, item::record(e@.unsigned_fields())) <==> {
            &&& record::is_map_of(v, 4)
            &&& record::holds(v, "host_fp"@, Item::Bytes(e.host_fp@))
            &&& record::holds(v, "epoch"@, Item::Uint(e.epoch))
            &&& record::holds(v, "revoked"@, Item::Array(Seq::new(e.revoked@.len(),
                |i: int| Item::Bytes(e.revoked@[i]@))))
            &&& record::holds(v, "ts"@, Item::Uint(e.ts))
        },
        e@.signed_bytes() == tags::REVOCATION_V1@
            + item::encoding(item::record(e@.unsigned_fields())),
{
    let fields = e@.unsigned_fields();
    lemma_fields(e@);
    record::lemma_holds_all(v, fields);
    assert(fields[0] == ("host_fp"@, Item::Bytes(e.host_fp@)));
    assert(fields[1] == ("epoch"@, Item::Uint(e.epoch)));
    assert(fields[2].0 == "revoked"@);
    assert(fields[2].1->Array_0 =~= (Item::Array(Seq::new(e.revoked@.len(),
        |i: int| Item::Bytes(e.revoked@[i]@))))->Array_0);
    assert(fields[3] == ("ts"@, Item::Uint(e.ts)));
}

/// What is read: every part of a revocation record is what stood under its name.
pub proof fn law_revocation_record_read(v: Item, e: RevocationRecord)
    requires
        RevocationRecordModel::read(v) == Ok::<RevocationRecordModel, Fault>(e@),
    ensures
        record::holds(v, "host_fp"@, Item::Bytes(e.host_fp@)),
        record::holds(v, "epoch"@, Item::Uint(e.epoch)),
        record::holds(v, "ts"@, Item::Uint(e.ts)),
        record::holds(v, "sig"@, Item::Bytes(e.sig@)),
{
    let entries = v->Mapping_0;
    record::lemma_found_holds(entries, "host_fp"@);
    record::lemma_found_holds(entries, "epoch"@);
    record::lemma_found_holds(entries, "ts"@);
    record::lemma_found_holds(entries, "sig"@);
}

/// An item without duplicate keys is read as a revocation record exactly where it is the record of
/// it, up to the order of its entries: nothing is missing, and nothing else is there.
pub proof fn law_revocation_record_values(v: Item, m: RevocationRecordModel)
    requires
        item::keys_unique(v),
    ensures
        RevocationRecordModel::read(v) == Ok::<RevocationRecordModel, Fault>(m)
            <==> item::same_item(
            v,
            item::record(m.fields()),
        ),
{
    if let Item::Mapping(entries) = v {
        let fields = m.fields();
        let listed = reader::names(REVOCATION_FIELDS@);
        lemma_fields(m);
        record::lemma_field_values(fields);
        assert(listed[0] == "host_fp"@);
        assert(listed[1] == "epoch"@);
        assert(listed[2] == "revoked"@);
        assert(listed[3] == "ts"@);
        assert(listed[4] == "sig"@);
        assert(fields[0].0 == "host_fp"@);
        assert(fields[1].0 == "epoch"@);
        assert(fields[2].0 == "revoked"@);
        assert(fields[3].0 == "ts"@);
        assert(fields[4].0 == "sig"@);
        if let Ok(items) = reader::array_field(entries, "revoked"@) {
            record::lemma_bytes_values(items, m.revoked);
        }
        assert(RevocationRecordModel::read(v) == Ok::<RevocationRecordModel, Fault>(m)
            <==> record::stands_for(
            entries,
            fields,
            listed,
        ));
        record::lemma_stands_for(entries, fields, listed);
    }
}

/// The fields are looked at in this order, once no foreign name is there, and the first that is
/// missing or wrong is the one that is named.
pub proof fn law_revocation_record_first_fault(entries: Seq<(Item, Item)>)
    ensures
        ({
            let r = RevocationRecordModel::read(Item::Mapping(entries));
            if let Some(g) = reader::foreign_key(entries, reader::names(REVOCATION_FIELDS@)) {
                r matches Err(f) && f == g
            } else {
                if reader::bytes_field(entries, "host_fp"@) is Err {
                    r matches Err(f) && f == reader::bytes_field(entries, "host_fp"@)->Err_0
                } else if reader::uint_field(entries, "epoch"@) is Err {
                    r matches Err(f) && f == reader::uint_field(entries, "epoch"@)->Err_0
                } else if reader::bytes_array_field(entries, "revoked"@) is Err {
                    r matches Err(f) && f == reader::bytes_array_field(entries, "revoked"@)->Err_0
                } else if reader::uint_field(entries, "ts"@) is Err {
                    r matches Err(f) && f == reader::uint_field(entries, "ts"@)->Err_0
                } else if reader::bytes_field(entries, "sig"@) is Err {
                    r matches Err(f) && f == reader::bytes_field(entries, "sig"@)->Err_0
                } else {
                    r is Ok
                }
            }
        }),
{
}

} // verus!
