//! Admission tokens: what an operator hands to a host that may join.
use crate::proto::canonical;
use crate::proto::canonical::{canonical_decode, canonical_encode, CborValue, MAX_NESTING_DEPTH};
use crate::proto::item;
use crate::proto::item::Item;
use crate::proto::reader;
use crate::proto::reader::{Fault, MapReader, ProtoError};
use crate::proto::record;
use crate::proto::roundtrip;
use crate::proto::tags;
use vstd::prelude::*;

verus! {

/// `{nonce, exp, label, quota_profile, sig_operator}`. `exp` is an absolute time in Unix seconds.
#[derive(Debug, Clone, PartialEq, Eq)]
pub struct AdmissionToken {
    pub nonce: Vec<u8>,
    pub exp: u64,
    pub label: String,
    pub quota_profile: String,
    pub sig_operator: Vec<u8>,
}

/// The field names of an admission token.
pub const ADMISSION_TOKEN_FIELDS: [&'static str; 5] = [
    "nonce",
    "exp",
    "label",
    "quota_profile",
    "sig_operator",
];

/// The contents of an admission token.
pub struct AdmissionTokenModel {
    pub nonce: Seq<u8>,
    pub exp: u64,
    pub label: Seq<char>,
    pub quota_profile: Seq<char>,
    pub sig_operator: Seq<u8>,
}

impl View for AdmissionToken {
    type V = AdmissionTokenModel;

    open spec fn view(&self) -> AdmissionTokenModel {
        AdmissionTokenModel {
            nonce: self.nonce@,
            exp: self.exp,
            label: self.label@,
            quota_profile: self.quota_profile@,
            sig_operator: self.sig_operator@,
        }
    }
}

impl AdmissionTokenModel {
    /// The fields that are signed: all but `sig_operator`.
    pub open spec fn unsigned_fields(self) -> Seq<(Seq<char>, Item)> {
        seq![
            ("nonce"@, Item::Bytes(self.nonce)),
            ("exp"@, Item::Uint(self.exp)),
            ("label"@, Item::Text(self.label)),
            ("quota_profile"@, Item::Text(self.quota_profile)),
        ]
    }

    /// All fields.
    pub open spec fn fields(self) -> Seq<(Seq<char>, Item)> {
        self.unsigned_fields().push(("sig_operator"@, Item::Bytes(self.sig_operator)))
    }

    /// The canonical bytes of the admission token.
    pub open spec fn bytes(self) -> Seq<u8> {
        item::encoding(item::record(self.fields()))
    }

    /// What is signed: the tag and the canonical bytes of the other fields.
    pub open spec fn signed_bytes(self) -> Seq<u8> {
        tags::ADMISSION_TOKEN_V1@ + item::encoding(item::record(self.unsigned_fields()))
    }

    /// The admission token that an item stands for.
    pub open spec fn read(item: Item) -> Result<AdmissionTokenModel, Fault> {
        match reader::closed_map(item, reader::names(ADMISSION_TOKEN_FIELDS@)) {
            Err(f) => Err(f),
            Ok(m) => {
                let nonce = reader::bytes_field(m, "nonce"@);
                let exp = reader::uint_field(m, "exp"@);
                let label = reader::text_field(m, "label"@);
                let quota_profile = reader::text_field(m, "quota_profile"@);
                let sig_operator = reader::bytes_field(m, "sig_operator"@);
                let found = reader::fault(nonce);
                let found = reader::first(found, reader::fault(exp));
                let found = reader::first(found, reader::fault(label));
                let found = reader::first(found, reader::fault(quota_profile));
                let found = reader::first(found, reader::fault(sig_operator));
                reader::unless(
                    found,
                    AdmissionTokenModel {
                        nonce: nonce->Ok_0,
                        exp: exp->Ok_0,
                        label: label->Ok_0,
                        quota_profile: quota_profile->Ok_0,
                        sig_operator: sig_operator->Ok_0,
                    },
                )
            },
        }
    }

    /// The admission token that canonical bytes stand for.
    pub open spec fn parse(bytes: Seq<u8>) -> Result<AdmissionTokenModel, Fault> {
        match canonical::decoding(bytes) {
            Err(e) => Err(Fault::Cbor(e)),
            Ok(item) => AdmissionTokenModel::read(item),
        }
    }
}

proof fn lemma_fields(m: AdmissionTokenModel)
    ensures
        record::names_distinct(m.fields()),
        record::names_distinct(m.unsigned_fields()),
        record::values_unique(m.fields()),
        record::values_unique(m.unsigned_fields()),
        record::values_nest(m.fields(), MAX_NESTING_DEPTH - 1),
        record::names_among(m.fields(), reader::names(ADMISSION_TOKEN_FIELDS@)),
{
    reveal_strlit("nonce");
    reveal_strlit("exp");
    reveal_strlit("label");
    reveal_strlit("quota_profile");
    reveal_strlit("sig_operator");
    assert("nonce"@.len() == 5);
    assert("exp"@.len() == 3);
    assert("label"@.len() == 5);
    assert("quota_profile"@.len() == 13);
    assert("sig_operator"@.len() == 12);
    assert("nonce"@[0] != "label"@[0]);
    let listed = reader::names(ADMISSION_TOKEN_FIELDS@);
    let fields = m.fields();
    assert forall|i: int| 0 <= i < fields.len() implies listed.contains((#[trigger] fields[i]).0) by {
        assert(fields[i].0 == listed[i]);
    }
}

impl AdmissionToken {
    pub fn unsigned_entries(&self) -> (entries: Vec<(&'static str, CborValue)>)
        ensures
            canonical::fields_of(entries@) == self@.unsigned_fields(),
    {
        let entries: Vec<(&'static str, CborValue)> = vec![
            ("nonce", CborValue::bytes(self.nonce.as_slice())),
            ("exp", CborValue::uint(self.exp)),
            ("label", CborValue::text(self.label.as_str())),
            ("quota_profile", CborValue::text(self.quota_profile.as_str())),
        ];
        assert(canonical::fields_of(entries@) =~= self@.unsigned_fields());
        entries
    }

    pub fn unsigned_cbor(&self) -> (value: CborValue)
        ensures
            value@ == item::record(self@.unsigned_fields()),
    {
        CborValue::map(self.unsigned_entries())
    }

    pub fn to_cbor(&self) -> (value: CborValue)
        ensures
            value@ == item::record(self@.fields()),
    {
        let mut entries = self.unsigned_entries();
        entries.push(("sig_operator", CborValue::bytes(self.sig_operator.as_slice())));
        assert(canonical::fields_of(entries@) =~= self@.fields());
        CborValue::map(entries)
    }

    pub fn to_canonical_bytes(&self) -> (bytes: Vec<u8>)
        ensures
            bytes@ == self@.bytes(),
            item::lengths_fit(item::record(self@.fields())),
    {
        proof {
            lemma_fields(self@);
            record::lemma_record_unique(self@.fields());
        }
        canonical_encode(&self.to_cbor())
    }

    pub fn from_cbor(v: &CborValue) -> (r: Result<Self, ProtoError>)
        ensures
            reader::seen(r) == AdmissionTokenModel::read(v@),
    {
        let m = MapReader::new(v)?;
        m.deny_unknown_fields(ADMISSION_TOKEN_FIELDS.as_slice())?;
        Ok(
            AdmissionToken {
                nonce: m.bytes("nonce")?,
                exp: m.u64("exp")?,
                label: m.text("label")?,
                quota_profile: m.text("quota_profile")?,
                sig_operator: m.bytes("sig_operator")?,
            },
        )
    }

    pub fn from_canonical_bytes(bytes: &[u8]) -> (r: Result<Self, ProtoError>)
        ensures
            reader::seen(r) == AdmissionTokenModel::parse(bytes@),
    {
        match canonical_decode(bytes) {
            Ok(value) => Self::from_cbor(&value),
            Err(e) => Err(ProtoError::Cbor(e)),
        }
    }

    /// The tag followed by the canonical bytes of every field but `sig_operator`.
    pub fn signing_input(&self) -> (input: Vec<u8>)
        ensures
            input@ == self@.signed_bytes(),
    {
        proof {
            lemma_fields(self@);
            record::lemma_record_unique(self@.unsigned_fields());
        }
        tags::signing_input(
            tags::ADMISSION_TOKEN_V1.as_slice(),
            canonical_encode(&self.unsigned_cbor()).as_slice(),
        )
    }
}

/// Parsing the canonical bytes of an admission token gives the admission token back.
pub proof fn law_admission_token_round_trip(m: AdmissionTokenModel)
    requires
        item::lengths_fit(item::record(m.fields())),
    ensures
        AdmissionTokenModel::parse(m.bytes()) == Ok::<AdmissionTokenModel, Fault>(m),
{
    let fields = m.fields();
    lemma_fields(m);
    record::lemma_record_unique(fields);
    record::lemma_record_nests(fields, MAX_NESTING_DEPTH as int);
    roundtrip::law_decode_of_encode(item::record(fields));
    let entries = record::lemma_canonical_record_closed(
        fields,
        reader::names(ADMISSION_TOKEN_FIELDS@),
    );
    assert(fields[0].0 == "nonce"@);
    assert(fields[1].0 == "exp"@);
    assert(fields[2].0 == "label"@);
    assert(fields[3].0 == "quota_profile"@);
    assert(fields[4].0 == "sig_operator"@);
    assert(AdmissionTokenModel::read(Item::Mapping(entries)) == Ok::<AdmissionTokenModel, Fault>(m));
}

/// Bytes that parse as an admission token are its canonical bytes: it has one encoding only.
pub proof fn law_admission_token_unique_bytes(bytes: Seq<u8>)
    ensures
        AdmissionTokenModel::parse(bytes) matches Ok(m) ==> m.bytes() == bytes && item::lengths_fit(
            item::record(m.fields()),
        ),
{
    if let Ok(m) = AdmissionTokenModel::parse(bytes) {
        roundtrip::law_encode_of_decode(bytes);
        let entries = canonical::decoding(bytes)->Ok_0->Mapping_0;
        let fields = m.fields();
        lemma_fields(m);
        assert(fields[0].0 == "nonce"@);
        assert(fields[1].0 == "exp"@);
        assert(fields[2].0 == "label"@);
        assert(fields[3].0 == "quota_profile"@);
        assert(fields[4].0 == "sig_operator"@);
        assert(record::agrees(entries, fields, "nonce"@));
        assert(record::agrees(entries, fields, "exp"@));
        assert(record::agrees(entries, fields, "label"@));
        assert(record::agrees(entries, fields, "quota_profile"@));
        assert(record::agrees(entries, fields, "sig_operator"@));
        record::lemma_record_rebuilt(entries, fields, reader::names(ADMISSION_TOKEN_FIELDS@));
        record::lemma_record_unique(fields);
        roundtrip::lemma_canonical_form_fits(item::record(fields));
        roundtrip::law_canonical_form_same_bytes(item::record(fields));
    }
}

/// A signature covers everything else: two admission tokens with the same signed bytes differ in their
/// signatures alone.
pub proof fn law_admission_token_signature_covers(a: AdmissionTokenModel, b: AdmissionTokenModel)
    requires
        item::lengths_fit(item::record(a.unsigned_fields())),
        item::lengths_fit(item::record(b.unsigned_fields())),
        a.signed_bytes() == b.signed_bytes(),
    ensures
        a == (AdmissionTokenModel { sig_operator: a.sig_operator, ..b }),
{
    lemma_fields(a);
    lemma_fields(b);
    let fa = a.unsigned_fields();
    let fb = b.unsigned_fields();
    record::lemma_signed_alike(tags::ADMISSION_TOKEN_V1@, fa, fb);
    assert(fa[0].0 == fb[0].0);
    assert(fa[1].0 == fb[1].0);
    assert(fa[2].0 == fb[2].0);
    assert(fa[3].0 == fb[3].0);
}

// ---- the names on the wire ----

/// What stands on the wire: an item is the same as an admission token exactly where it is a map
/// with nothing but these names, and under each of them what the value holds there.
pub proof fn law_admission_token_wire(v: Item, e: AdmissionToken)
    requires
        item::keys_unique(v),
    ensures
        item::same_item(v, item::record(e@.fields())) <==> {
            &&& record::is_map_of(v, 5)
            &&& record::holds(v, "nonce"@, Item::Bytes(e.nonce@))
            &&& record::holds(v, "exp"@, Item::Uint(e.exp))
            &&& record::holds(v, "label"@, Item::Text(e.label@))
            &&& record::holds(v, "quota_profile"@, Item::Text(e.quota_profile@))
            &&& record::holds(v, "sig_operator"@, Item::Bytes(e.sig_operator@))
        },
        e@.bytes() == item::encoding(item::record(e@.fields())),
{
    let fields = e@.fields();
    lemma_fields(e@);
    record::lemma_holds_all(v, fields);
    assert(fields[0] == ("nonce"@, Item::Bytes(e.nonce@)));
    assert(fields[1] == ("exp"@, Item::Uint(e.exp)));
    assert(fields[2] == ("label"@, Item::Text(e.label@)));
    assert(fields[3] == ("quota_profile"@, Item::Text(e.quota_profile@)));
    assert(fields[4] == ("sig_operator"@, Item::Bytes(e.sig_operator@)));
}

/// What is signed: the tag, then the map of everything but the signature.
pub proof fn law_admission_token_signed_wire(v: Item, e: AdmissionToken)
    requires
        item::keys_unique(v),
    ensures
        item::same_item(v, item::record(e@.unsigned_fields())) <==> {
            &&& record::is_map_of(v, 4)
            &&& record::holds(v, "nonce"@, Item::Bytes(e.nonce@))
            &&& record::holds(v, "exp"@, Item::Uint(e.exp))
            &&& record::holds(v, "label"@, Item::Text(e.label@))
            &&& record::holds(v, "quota_profile"@, Item::Text(e.quota_profile@))
        },
        e@.signed_bytes() == tags::ADMISSION_TOKEN_V1@
            + item::encoding(item::record(e@.unsigned_fields())),
{
    let fields = e@.unsigned_fields();
    lemma_fields(e@);
    record::lemma_holds_all(v, fields);
    assert(fields[0] == ("nonce"@, Item::Bytes(e.nonce@)));
    assert(fields[1] == ("exp"@, Item::Uint(e.exp)));
    assert(fields[2] == ("label"@, Item::Text(e.label@)));
    assert(fields[3] == ("quota_profile"@, Item::Text(e.quota_profile@)));
}

/// What is read: every part of an admission token is what stood under its name.
pub proof fn law_admission_token_read(v: Item, e: AdmissionToken)
    requires
        AdmissionTokenModel::read(v) == Ok::<AdmissionTokenModel, Fault>(e@),
    ensures
        record::holds(v, "nonce"@, Item::Bytes(e.nonce@)),
        record::holds(v, "exp"@, Item::Uint(e.exp)),
        record::holds(v, "label"@, Item::Text(e.label@)),
        record::holds(v, "quota_profile"@, Item::Text(e.quota_profile@)),
        record::holds(v, "sig_operator"@, Item::Bytes(e.sig_operator@)),
{
    let entries = v->Mapping_0;
    record::lemma_found_holds(entries, "nonce"@);
    record::lemma_found_holds(entries, "exp"@);
    record::lemma_found_holds(entries, "label"@);
    record::lemma_found_holds(entries, "quota_profile"@);
    record::lemma_found_holds(entries, "sig_operator"@);
}

/// An item without duplicate keys is read as an admission token exactly where it is the record of
/// it, up to the order of its entries: nothing is missing, and nothing else is there.
pub proof fn law_admission_token_values(v: Item, m: AdmissionTokenModel)
    requires
        item::keys_unique(v),
    ensures
        AdmissionTokenModel::read(v) == Ok::<AdmissionTokenModel, Fault>(m) <==> item::same_item(
            v,
            item::record(m.fields()),
        ),
{
    if let Item::Mapping(entries) = v {
        let fields = m.fields();
        let listed = reader::names(ADMISSION_TOKEN_FIELDS@);
        lemma_fields(m);
        record::lemma_field_values(fields);
        assert(listed[0] == "nonce"@);
        assert(listed[1] == "exp"@);
        assert(listed[2] == "label"@);
        assert(listed[3] == "quota_profile"@);
        assert(listed[4] == "sig_operator"@);
        assert(fields[0].0 == "nonce"@);
        assert(fields[1].0 == "exp"@);
        assert(fields[2].0 == "label"@);
        assert(fields[3].0 == "quota_profile"@);
        assert(fields[4].0 == "sig_operator"@);
        assert(AdmissionTokenModel::read(v) == Ok::<AdmissionTokenModel, Fault>(m)
            <==> record::stands_for(
            entries,
            fields,
            listed,
        ));
        record::lemma_stands_for(entries, fields, listed);
    }
}

/// The fields are looked at in this order, once no foreign name is there, and the first that is
/// missing or wrong is the one that is named.
pub proof fn law_admission_token_first_fault(entries: Seq<(Item, Item)>)
    ensures
        ({
            let r = AdmissionTokenModel::read(Item::Mapping(entries));
            if let Some(g) = reader::foreign_key(entries, reader::names(ADMISSION_TOKEN_FIELDS@)) {
                r matches Err(f) && f == g
            } else {
                if reader::bytes_field(entries, "nonce"@) is Err {
                    r matches Err(f) && f == reader::bytes_field(entries, "nonce"@)->Err_0
                } else if reader::uint_field(entries, "exp"@) is Err {
                    r matches Err(f) && f == reader::uint_field(entries, "exp"@)->Err_0
                } else if reader::text_field(entries, "label"@) is Err {
                    r matches Err(f) && f == reader::text_field(entries, "label"@)->Err_0
                } else if reader::text_field(entries, "quota_profile"@) is Err {
                    r matches Err(f) && f == reader::text_field(entries, "quota_profile"@)->Err_0
                } else if reader::bytes_field(entries, "sig_operator"@) is Err {
                    r matches Err(f) && f == reader::bytes_field(entries, "sig_operator"@)->Err_0
                } else {
                    r is Ok
                }
            }
        }),
{
}

} // verus!
