//! The envelope that carries every signaling payload.
use crate::octets;
use crate::proto::canonical;
use crate::proto::canonical::{canonical_decode, canonical_encode, CborValue, MAX_NESTING_DEPTH};
use crate::proto::item;
use crate::proto::item::Item;
use crate::proto::reader;
use crate::proto::reader::{Fault, MapReader, ProtoError};
use crate::proto::record;
use crate::proto::roundtrip;
use crate::proto::tags;
use vstd::prelude::*;

verus! {

/// `{v, alg_id, from_fp, to_fp, sid, kind, seq, ts, eph_pk?, ciphertext, sig}`.
///
/// `eph_pk` is absent on later messages of a session; absence is expressed by leaving the key out.
#[derive(Debug, Clone, PartialEq, Eq)]
pub struct Envelope {
    pub v: u8,
    pub alg_id: u8,
    pub from_fp: Vec<u8>,
    pub to_fp: Vec<u8>,
    pub sid: Vec<u8>,
    pub kind: u16,
    pub seq: u64,
    pub ts: u64,
    pub eph_pk: Option<Vec<u8>>,
    pub ciphertext: Vec<u8>,
    pub sig: Vec<u8>,
}

/// The field names of an envelope.
pub const ENVELOPE_FIELDS: [&'static str; 11] = [
    "v",
    "alg_id",
    "from_fp",
    "to_fp",
    "sid",
    "kind",
    "seq",
    "ts",
    "eph_pk",
    "ciphertext",
    "sig",
];

/// The contents of an envelope.
pub struct EnvelopeModel {
    pub v: u8,
    pub alg_id: u8,
    pub from_fp: Seq<u8>,
    pub to_fp: Seq<u8>,
    pub sid: Seq<u8>,
    pub kind: u16,
    pub seq: u64,
    pub ts: u64,
    pub eph_pk: Option<Seq<u8>>,
    pub ciphertext: Seq<u8>,
    pub sig: Seq<u8>,
}

impl View for Envelope {
    type V = EnvelopeModel;

    open spec fn view(&self) -> EnvelopeModel {
        EnvelopeModel {
            v: self.v,
            alg_id: self.alg_id,
            from_fp: self.from_fp@,
            to_fp: self.to_fp@,
            sid: self.sid@,
            kind: self.kind,
            seq: self.seq,
            ts: self.ts,
            eph_pk: reader::opt_bytes(self.eph_pk),
            ciphertext: self.ciphertext@,
            sig: self.sig@,
        }
    }
}

impl EnvelopeModel {
    /// The fields that are authenticated in clear: all but the ciphertext and the signature.
    pub open spec fn header_fields(self) -> Seq<(Seq<char>, Item)> {
        let fixed = seq![
            ("v"@, Item::Uint(self.v as u64)),
            ("alg_id"@, Item::Uint(self.alg_id as u64)),
            ("from_fp"@, Item::Bytes(self.from_fp)),
            ("to_fp"@, Item::Bytes(self.to_fp)),
            ("sid"@, Item::Bytes(self.sid)),
            ("kind"@, Item::Uint(self.kind as u64)),
            ("seq"@, Item::Uint(self.seq)),
            ("ts"@, Item::Uint(self.ts)),
        ];
        match self.eph_pk {
            Some(eph_pk) => fixed.push(("eph_pk"@, Item::Bytes(eph_pk))),
            None => fixed,
        }
    }

    /// All fields.
    pub open spec fn fields(self) -> Seq<(Seq<char>, Item)> {
        self.header_fields().push(("ciphertext"@, Item::Bytes(self.ciphertext))).push(
            ("sig"@, Item::Bytes(self.sig)),
        )
    }

    /// The canonical bytes of the header.
    pub open spec fn header_bytes(self) -> Seq<u8> {
        item::encoding(item::record(self.header_fields()))
    }

    /// The canonical bytes of the envelope.
    pub open spec fn bytes(self) -> Seq<u8> {
        item::encoding(item::record(self.fields()))
    }

    /// What the sender signs: tag, canonical header, ciphertext.
    pub open spec fn signed_bytes(self) -> Seq<u8> {
        tags::ENVELOPE_V1@ + self.header_bytes() + self.ciphertext
    }

    /// The envelope that an item stands for.
    pub open spec fn read(item: Item) -> Result<EnvelopeModel, Fault> {
        match reader::closed_map(item, reader::names(ENVELOPE_FIELDS@)) {
            Err(f) => Err(f),
            Ok(m) => {
                let v = reader::u8_field(m, "v"@);
                let alg_id = reader::u8_field(m, "alg_id"@);
                let from_fp = reader::bytes_field(m, "from_fp"@);
                let to_fp = reader::bytes_field(m, "to_fp"@);
                let sid = reader::bytes_field(m, "sid"@);
                let kind = reader::u16_field(m, "kind"@);
                let seq = reader::uint_field(m, "seq"@);
                let ts = reader::uint_field(m, "ts"@);
                let eph_pk = reader::optional_bytes_field(m, "eph_pk"@);
                let ciphertext = reader::bytes_field(m, "ciphertext"@);
                let sig = reader::bytes_field(m, "sig"@);
                let found = reader::fault(v);
                let found = reader::first(found, reader::fault(alg_id));
                let found = reader::first(found, reader::fault(from_fp));
                let found = reader::first(found, reader::fault(to_fp));
                let found = reader::first(found, reader::fault(sid));
                let found = reader::first(found, reader::fault(kind));
                let found = reader::first(found, reader::fault(seq));
                let found = reader::first(found, reader::fault(ts));
                let found = reader::first(found, reader::fault(eph_pk));
                let found = reader::first(found, reader::fault(ciphertext));
                let found = reader::first(found, reader::fault(sig));
                reader::unless(
                    found,
                    EnvelopeModel {
                        v: v->Ok_0,
                        alg_id: alg_id->Ok_0,
                        from_fp: from_fp->Ok_0,
                        to_fp: to_fp->Ok_0,
                        sid: sid->Ok_0,
                        kind: kind->Ok_0,
                        seq: seq->Ok_0,
                        ts: ts->Ok_0,
                        eph_pk: eph_pk->Ok_0,
                        ciphertext: ciphertext->Ok_0,
                        sig: sig->Ok_0,
                    },
                )
            },
        }
    }

    /// The envelope that canonical bytes stand for.
    pub open spec fn parse(bytes: Seq<u8>) -> Result<EnvelopeModel, Fault> {
        match canonical::decoding(bytes) {
            Err(e) => Err(Fault::Cbor(e)),
            Ok(item) => EnvelopeModel::read(item),
        }
    }
}

proof fn lemma_fields(m: EnvelopeModel)
    ensures
        record::names_distinct(m.fields()),
        record::names_distinct(m.header_fields()),
        record::values_unique(m.fields()),
        record::values_unique(m.header_fields()),
        record::values_nest(m.fields(), MAX_NESTING_DEPTH - 1),
        record::names_among(m.fields(), reader::names(ENVELOPE_FIELDS@)),
        m.eph_pk is None ==> record::not_named(m.fields(), "eph_pk"@),
{
    reveal_strlit("v");
    reveal_strlit("alg_id");
    reveal_strlit("from_fp");
    reveal_strlit("to_fp");
    reveal_strlit("sid");
    reveal_strlit("kind");
    reveal_strlit("seq");
    reveal_strlit("ts");
    reveal_strlit("eph_pk");
    reveal_strlit("ciphertext");
    reveal_strlit("sig");
    assert("v"@.len() == 1);
    assert("alg_id"@.len() == 6);
    assert("from_fp"@.len() == 7);
    assert("to_fp"@.len() == 5);
    assert("sid"@.len() == 3);
    assert("kind"@.len() == 4);
    assert("seq"@.len() == 3);
    assert("ts"@.len() == 2);
    assert("eph_pk"@.len() == 6);
    assert("ciphertext"@.len() == 10);
    assert("sig"@.len() == 3);
    assert("sid"@[1] != "seq"@[1]);
    assert("sid"@[2] != "sig"@[2]);
    assert("seq"@[1] != "sig"@[1]);
    assert("alg_id"@[0] != "eph_pk"@[0]);
    let listed = reader::names(ENVELOPE_FIELDS@);
    let fields = m.fields();
    assert forall|i: int| 0 <= i < fields.len() implies listed.contains((#[trigger] fields[i]).0) by {
        assert(fields[i].0 == listed[i] || (m.eph_pk is None && fields[i].0 == listed[i + 1]));
    }
}

impl Envelope {
    pub fn header_entries(&self) -> (entries: Vec<(&'static str, CborValue)>)
        ensures
            canonical::fields_of(entries@) == self@.header_fields(),
    {
        let mut entries: Vec<(&'static str, CborValue)> = vec![
            ("v", CborValue::uint(self.v as u64)),
            ("alg_id", CborValue::uint(self.alg_id as u64)),
            ("from_fp", CborValue::bytes(self.from_fp.as_slice())),
            ("to_fp", CborValue::bytes(self.to_fp.as_slice())),
            ("sid", CborValue::bytes(self.sid.as_slice())),
            ("kind", CborValue::uint(self.kind as u64)),
            ("seq", CborValue::uint(self.seq)),
            ("ts", CborValue::uint(self.ts)),
        ];
        if let Some(eph_pk) = &self.eph_pk {
            entries.push(("eph_pk", CborValue::bytes(eph_pk.as_slice())));
        }
        assert(canonical::fields_of(entries@) =~= self@.header_fields());
        entries
    }

    /// Every field but `ciphertext` and `sig`: the associated data of the encryption, and the part
    /// of the signature preimage that precedes the ciphertext.
    pub fn header_cbor(&self) -> (value: CborValue)
        ensures
            value@ == item::record(self@.header_fields()),
    {
        CborValue::map(self.header_entries())
    }

    pub fn header_canonical_bytes(&self) -> (bytes: Vec<u8>)
        ensures
            bytes@ == self@.header_bytes(),
    {
        proof {
            lemma_fields(self@);
            record::lemma_record_unique(self@.header_fields());
        }
        canonical_encode(&self.header_cbor())
    }

    pub fn to_cbor(&self) -> (value: CborValue)
        ensures
            value@ == item::record(self@.fields()),
    {
        let mut entries = self.header_entries();
        entries.push(("ciphertext", CborValue::bytes(self.ciphertext.as_slice())));
        entries.push(("sig", CborValue::bytes(self.sig.as_slice())));
        assert(canonical::fields_of(entries@) =~= self@.fields());
        CborValue::map(entries)
    }

    pub fn to_canonical_bytes(&self) -> (bytes: Vec<u8>)
        ensures
            bytes@ == self@.bytes(),
            item::lengths_fit(item::record(self@.fields())),
    {
        proof {
            lemma_fields(self@);
            record::lemma_record_unique(self@.fields());
        }
        canonical_encode(&self.to_cbor())
    }

    pub fn from_cbor(v: &CborValue) -> (r: Result<Self, ProtoError>)
        ensures
            reader::seen(r) == EnvelopeModel::read(v@),
    {
        let m = MapReader::new(v)?;
        m.deny_unknown_fields(ENVELOPE_FIELDS.as_slice())?;
        Ok(
            Envelope {
                v: m.u8("v")?,
                alg_id: m.u8("alg_id")?,
                from_fp: m.bytes("from_fp")?,
                to_fp: m.bytes("to_fp")?,
                sid: m.bytes("sid")?,
                kind: m.u16("kind")?,
                seq: m.u64("seq")?,
                ts: m.u64("ts")?,
                eph_pk: m.optional_bytes("eph_pk")?,
                ciphertext: m.bytes("ciphertext")?,
                sig: m.bytes("sig")?,
            },
        )
    }

    pub fn from_canonical_bytes(bytes: &[u8]) -> (r: Result<Self, ProtoError>)
        ensures
            reader::seen(r) == EnvelopeModel::parse(bytes@),
    {
        match canonical_decode(bytes) {
            Ok(value) => Self::from_cbor(&value),
            Err(e) => Err(ProtoError::Cbor(e)),
        }
    }

    /// `"spindle-env-v1" || canonical(header) || ciphertext`. Unlike every other artifact, the
    /// envelope is signed over its header and its raw ciphertext.
    pub fn signing_input(&self) -> (input: Vec<u8>)
        ensures
            input@ == self@.signed_bytes(),
    {
        let mut out = tags::signing_input(
            tags::ENVELOPE_V1.as_slice(),
            self.header_canonical_bytes().as_slice(),
        );
        octets::push_bytes(&mut out, self.ciphertext.as_slice());
        out
    }
}

/// Parsing the canonical bytes of an envelope gives the envelope back.
pub proof fn law_envelope_round_trip(m: EnvelopeModel)
    requires
        item::lengths_fit(item::record(m.fields())),
    ensures
        EnvelopeModel::parse(m.bytes()) == Ok::<EnvelopeModel, Fault>(m),
{
    let fields = m.fields();
    lemma_fields(m);
    record::lemma_record_unique(fields);
    record::lemma_record_nests(fields, MAX_NESTING_DEPTH as int);
    roundtrip::law_decode_of_encode(item::record(fields));
    let entries = record::lemma_canonical_record_closed(
        fields,
        reader::names(ENVELOPE_FIELDS@),
    );
    let last = fields.len() - 1;
    assert(fields[0].0 == "v"@);
    assert(fields[1].0 == "alg_id"@);
    assert(fields[2].0 == "from_fp"@);
    assert(fields[3].0 == "to_fp"@);
    assert(fields[4].0 == "sid"@);
    assert(fields[5].0 == "kind"@);
    assert(fields[6].0 == "seq"@);
    assert(fields[7].0 == "ts"@);
    assert(fields[last - 1].0 == "ciphertext"@);
    assert(fields[last].0 == "sig"@);
    if m.eph_pk is Some {
        assert(fields[8].0 == "eph_pk"@);
    }
    assert(EnvelopeModel::read(Item::Mapping(entries)) == Ok::<EnvelopeModel, Fault>(m));
}

/// Bytes that parse as an envelope are its canonical bytes: it has one encoding only.
pub proof fn law_envelope_unique_bytes(bytes: Seq<u8>)
    ensures
        EnvelopeModel::parse(bytes) matches Ok(m) ==> m.bytes() == bytes && item::lengths_fit(
            item::record(m.fields()),
        ),
{
    if let Ok(m) = EnvelopeModel::parse(bytes) {
        roundtrip::law_encode_of_decode(bytes);
        let entries = canonical::decoding(bytes)->Ok_0->Mapping_0;
        let fields = m.fields();
        let allowed = reader::names(ENVELOPE_FIELDS@);
        lemma_fields(m);
        let last = fields.len() - 1;
        assert(fields[0].0 == "v"@);
        assert(fields[1].0 == "alg_id"@);
        assert(fields[2].0 == "from_fp"@);
        assert(fields[3].0 == "to_fp"@);
        assert(fields[4].0 == "sid"@);
        assert(fields[5].0 == "kind"@);
        assert(fields[6].0 == "seq"@);
        assert(fields[7].0 == "ts"@);
        assert(fields[last - 1].0 == "ciphertext"@);
        assert(fields[last].0 == "sig"@);
        if m.eph_pk is Some {
            assert(fields[8].0 == "eph_pk"@);
        }
        assert(record::agrees(entries, fields, "v"@));
        assert(record::agrees(entries, fields, "alg_id"@));
        assert(record::agrees(entries, fields, "from_fp"@));
        assert(record::agrees(entries, fields, "to_fp"@));
        assert(record::agrees(entries, fields, "sid"@));
        assert(record::agrees(entries, fields, "kind"@));
        assert(record::agrees(entries, fields, "seq"@));
        assert(record::agrees(entries, fields, "ts"@));
        assert(record::agrees(entries, fields, "eph_pk"@));
        assert(record::agrees(entries, fields, "ciphertext"@));
        assert(record::agrees(entries, fields, "sig"@));
        record::lemma_record_rebuilt(entries, fields, allowed);
        record::lemma_record_unique(fields);
        roundtrip::lemma_canonical_form_fits(item::record(fields));
        roundtrip::law_canonical_form_same_bytes(item::record(fields));
    }
}

/// A signature covers everything else: the end of the header shows in its own bytes, so two
/// envelopes with the same signed bytes differ in their signatures alone.
pub proof fn law_envelope_signature_covers(a: EnvelopeModel, b: EnvelopeModel)
    requires
        item::lengths_fit(item::record(a.header_fields())),
        item::lengths_fit(item::record(b.header_fields())),
        a.signed_bytes() == b.signed_bytes(),
    ensures
        a == (EnvelopeModel { sig: a.sig, ..b }),
{
    lemma_header_read_back(a);
    lemma_header_read_back(b);
    let start = tags::ENVELOPE_V1@.len() as int;
    let end = start + a.header_bytes().len();
    assert(a.header_bytes().len() == b.header_bytes().len());
    assert(a.signed_bytes().skip(end) =~= a.ciphertext);
    assert(b.signed_bytes().skip(end) =~= b.ciphertext);
    lemma_fields(a);
    lemma_fields(b);
    let fa = a.header_fields();
    let fb = b.header_fields();
    record::lemma_records_agree(fa, fb);
    assert(fa[0].0 == fb[0].0);
    assert(fa[1].0 == fb[1].0);
    assert(fa[2].0 == fb[2].0);
    assert(fa[3].0 == fb[3].0);
    assert(fa[4].0 == fb[4].0);
    assert(fa[5].0 == fb[5].0);
    assert(fa[6].0 == fb[6].0);
    assert(fa[7].0 == fb[7].0);
    assert(record::not_named(fa, "eph_pk"@) == record::not_named(fb, "eph_pk"@));
    if a.eph_pk is Some {
        assert(fa[8].0 == "eph_pk"@);
    } else {
        assert forall|i: int| 0 <= i < fa.len() implies (#[trigger] fa[i]).0 != "eph_pk"@ by {
            assert(fa[i] == a.fields()[i]);
        }
    }
    if b.eph_pk is Some {
        assert(fb[8].0 == "eph_pk"@);
    } else {
        assert forall|i: int| 0 <= i < fb.len() implies (#[trigger] fb[i]).0 != "eph_pk"@ by {
            assert(fb[i] == b.fields()[i]);
        }
    }
}

/// The header is read back from the signed bytes, whatever the ciphertext behind it is.
proof fn lemma_header_read_back(m: EnvelopeModel)
    requires
        item::lengths_fit(item::record(m.header_fields())),
    ensures
        canonical::item_at(m.signed_bytes(), tags::ENVELOPE_V1@.len() as int, 0) == Ok::<
            (Item, int),
            canonical::CborError,
        >(
            (
                item::canonical_form(item::record(m.header_fields())),
                tags::ENVELOPE_V1@.len() as int + m.header_bytes().len(),
            ),
        ),
{
    lemma_fields(m);
    let fields = m.header_fields();
    assert forall|i: int| 0 <= i < fields.len() implies item::nests_within(
        (#[trigger] fields[i]).1,
        MAX_NESTING_DEPTH - 1,
    ) by {
        assert(fields[i] == m.fields()[i]);
    }
    record::lemma_record_unique(fields);
    record::lemma_record_nests(fields, MAX_NESTING_DEPTH as int);
    let start = tags::ENVELOPE_V1@.len() as int;
    assert(m.signed_bytes().subrange(start, start + m.header_bytes().len()) =~= m.header_bytes());
    roundtrip::lemma_read_back(m.signed_bytes(), start, 0, item::record(fields));
}

// ---- the names on the wire ----

/// What stands on the wire: an item is the same as an envelope exactly where it is a map with
/// nothing but these names, and under each of them what the value holds there.
pub proof fn law_envelope_wire(v: Item, e: Envelope)
    requires
        item::keys_unique(v),
    ensures
        item::same_item(v, item::record(e@.fields())) <==> {
            &&& record::is_map_of(v, (10 + (if e.eph_pk is Some { 1nat } else { 0nat })) as nat)
            &&& record::holds(v, "v"@, Item::Uint(e.v as u64))
            &&& record::holds(v, "alg_id"@, Item::Uint(e.alg_id as u64))
            &&& record::holds(v, "from_fp"@, Item::Bytes(e.from_fp@))
            &&& record::holds(v, "to_fp"@, Item::Bytes(e.to_fp@))
            &&& record::holds(v, "sid"@, Item::Bytes(e.sid@))
            &&& record::holds(v, "kind"@, Item::Uint(e.kind as u64))
            &&& record::holds(v, "seq"@, Item::Uint(e.seq))
            &&& record::holds(v, "ts"@, Item::Uint(e.ts))
            &&& record::holds(v, "ciphertext"@, Item::Bytes(e.ciphertext@))
            &&& record::holds(v, "sig"@, Item::Bytes(e.sig@))
            &&& e.eph_pk is Some ==> record::holds(v, "eph_pk"@, Item::Bytes(e.eph_pk->0@))
        },
        e@.bytes() == item::encoding(item::record(e@.fields())),
{
    let fields = e@.fields();
    lemma_fields(e@);
    record::lemma_holds_all(v, fields);
    assert(fields[0] == ("v"@, Item::Uint(e.v as u64)));
    assert(fields[1] == ("alg_id"@, Item::Uint(e.alg_id as u64)));
    assert(fields[2] == ("from_fp"@, Item::Bytes(e.from_fp@)));
    assert(fields[3] == ("to_fp"@, Item::Bytes(e.to_fp@)));
    assert(fields[4] == ("sid"@, Item::Bytes(e.sid@)));
    assert(fields[5] == ("kind"@, Item::Uint(e.kind as u64)));
    assert(fields[6] == ("seq"@, Item::Uint(e.seq)));
    assert(fields[7] == ("ts"@, Item::Uint(e.ts)));
    if e.eph_pk is Some {
        assert(fields[8] == ("eph_pk"@, Item::Bytes(e.eph_pk->0@)));
    }
    assert(fields[fields.len() - 2] == ("ciphertext"@, Item::Bytes(e.ciphertext@)));
    assert(fields[fields.len() - 1] == ("sig"@, Item::Bytes(e.sig@)));
}

/// What is signed: the tag, then the map of everything but the ciphertext and the signature, then
/// the ciphertext.
pub proof fn law_envelope_signed_wire(v: Item, e: Envelope)
    requires
        item::keys_unique(v),
    ensures
        item::same_item(v, item::record(e@.header_fields())) <==> {
            &&& record::is_map_of(v, (8 + (if e.eph_pk is Some { 1nat } else { 0nat })) as nat)
            &&& record::holds(v, "v"@, Item::Uint(e.v as u64))
            &&& record::holds(v, "alg_id"@, Item::Uint(e.alg_id as u64))
            &&& record::holds(v, "from_fp"@, Item::Bytes(e.from_fp@))
            &&& record::holds(v, "to_fp"@, Item::Bytes(e.to_fp@))
            &&& record::holds(v, "sid"@, Item::Bytes(e.sid@))
            &&& record::holds(v, "kind"@, Item::Uint(e.kind as u64))
            &&& record::holds(v, "seq"@, Item::Uint(e.seq))
            &&& record::holds(v, "ts"@, Item::Uint(e.ts))
            &&& e.eph_pk is Some ==> record::holds(v, "eph_pk"@, Item::Bytes(e.eph_pk->0@))
        },
        e@.signed_bytes() == tags::ENVELOPE_V1@ + item::encoding(item::record(e@.header_fields()))
            + e.ciphertext@,
{
    let fields = e@.header_fields();
    lemma_fields(e@);
    record::lemma_holds_all(v, fields);
    assert(fields[0] == ("v"@, Item::Uint(e.v as u64)));
    assert(fields[1] == ("alg_id"@, Item::Uint(e.alg_id as u64)));
    assert(fields[2] == ("from_fp"@, Item::Bytes(e.from_fp@)));
    assert(fields[3] == ("to_fp"@, Item::Bytes(e.to_fp@)));
    assert(fields[4] == ("sid"@, Item::Bytes(e.sid@)));
    assert(fields[5] == ("kind"@, Item::Uint(e.kind as u64)));
    assert(fields[6] == ("seq"@, Item::Uint(e.seq)));
    assert(fields[7] == ("ts"@, Item::Uint(e.ts)));
    if e.eph_pk is Some {
        assert(fields[8] == ("eph_pk"@, Item::Bytes(e.eph_pk->0@)));
    }
}

/// What is read: every part of an envelope is what stood under its name.
pub proof fn law_envelope_read(v: Item, e: Envelope)
    requires
        EnvelopeModel::read(v) == Ok::<EnvelopeModel, Fault>(e@),
    ensures
        record::holds(v, "v"@, Item::Uint(e.v as u64)),
        record::holds(v, "alg_id"@, Item::Uint(e.alg_id as u64)),
        record::holds(v, "from_fp"@, Item::Bytes(e.from_fp@)),
        record::holds(v, "to_fp"@, Item::Bytes(e.to_fp@)),
        record::holds(v, "sid"@, Item::Bytes(e.sid@)),
        record::holds(v, "kind"@, Item::Uint(e.kind as u64)),
        record::holds(v, "seq"@, Item::Uint(e.seq)),
        record::holds(v, "ts"@, Item::Uint(e.ts)),
        record::holds(v, "ciphertext"@, Item::Bytes(e.ciphertext@)),
        record::holds(v, "sig"@, Item::Bytes(e.sig@)),
        e.eph_pk is Some ==> record::holds(v, "eph_pk"@, Item::Bytes(e.eph_pk->0@)),
{
    let entries = v->Mapping_0;
    record::lemma_found_holds(entries, "v"@);
    record::lemma_found_holds(entries, "alg_id"@);
    record::lemma_found_holds(entries, "from_fp"@);
    record::lemma_found_holds(entries, "to_fp"@);
    record::lemma_found_holds(entries, "sid"@);
    record::lemma_found_holds(entries, "kind"@);
    record::lemma_found_holds(entries, "seq"@);
    record::lemma_found_holds(entries, "ts"@);
    record::lemma_found_holds(entries, "ciphertext"@);
    record::lemma_found_holds(entries, "sig"@);
    record::lemma_found_holds(entries, "eph_pk"@);
}

/// An item without duplicate keys is read as an envelope exactly where it is the record of it, up
/// to the order of its entries: nothing is missing, and nothing else is there.
pub proof fn law_envelope_values(v: Item, m: EnvelopeModel)
    requires
        item::keys_unique(v),
    ensures
        EnvelopeModel::read(v) == Ok::<EnvelopeModel, Fault>(m) <==> item::same_item(
            v,
            item::record(m.fields()),
        ),
{
    if let Item::Mapping(entries) = v {
        let fields = m.fields();
        let listed = reader::names(ENVELOPE_FIELDS@);
        lemma_fields(m);
        record::lemma_field_values(fields);
        assert(listed[0] == "v"@);
        assert(listed[1] == "alg_id"@);
        assert(listed[2] == "from_fp"@);
        assert(listed[3] == "to_fp"@);
        assert(listed[4] == "sid"@);
        assert(listed[5] == "kind"@);
        assert(listed[6] == "seq"@);
        assert(listed[7] == "ts"@);
        assert(listed[8] == "eph_pk"@);
        assert(listed[9] == "ciphertext"@);
        assert(listed[10] == "sig"@);
        assert(fields[0].0 == "v"@);
        assert(fields[1].0 == "alg_id"@);
        assert(fields[2].0 == "from_fp"@);
        assert(fields[3].0 == "to_fp"@);
        assert(fields[4].0 == "sid"@);
        assert(fields[5].0 == "kind"@);
        assert(fields[6].0 == "seq"@);
        assert(fields[7].0 == "ts"@);
        if m.eph_pk is Some {
            assert(fields[8].0 == "eph_pk"@);
        } else {
            assert(record::not_named(fields, "eph_pk"@));
        }
        assert(fields[fields.len() - 2].0 == "ciphertext"@);
        assert(fields[fields.len() - 1].0 == "sig"@);
        assert(EnvelopeModel::read(v) == Ok::<EnvelopeModel, Fault>(m) <==> record::stands_for(
            entries,
            fields,
            listed,
        ));
        record::lemma_stands_for(entries, fields, listed);
    }
}

/// The fields are looked at in this order, once no foreign name is there, and the first that is
/// missing or wrong is the one that is named.
pub proof fn law_envelope_first_fault(entries: Seq<(Item, Item)>)
    ensures
        ({
            let r = EnvelopeModel::read(Item::Mapping(entries));
            if let Some(g) = reader::foreign_key(entries, reader::names(ENVELOPE_FIELDS@)) {
                r matches Err(f) && f == g
            } else {
                if reader::u8_field(entries, "v"@) is Err {
                    r matches Err(f) && f == reader::u8_field(entries, "v"@)->Err_0
                } else if reader::u8_field(entries, "alg_id"@) is Err {
                    r matches Err(f) && f == reader::u8_field(entries, "alg_id"@)->Err_0
                } else if reader::bytes_field(entries, "from_fp"@) is Err {
                    r matches Err(f) && f == reader::bytes_field(entries, "from_fp"@)->Err_0
                } else if reader::bytes_field(entries, "to_fp"@) is Err {
                    r matches Err(f) && f == reader::bytes_field(entries, "to_fp"@)->Err_0
                } else if reader::bytes_field(entries, "sid"@) is Err {
                    r matches Err(f) && f == reader::bytes_field(entries, "sid"@)->Err_0
                } else if reader::u16_field(entries, "kind"@) is Err {
                    r matches Err(f) && f == reader::u16_field(entries, "kind"@)->Err_0
                } else if reader::uint_field(entries, "seq"@) is Err {
                    r matches Err(f) && f == reader::uint_field(entries, "seq"@)->Err_0
                } else if reader::uint_field(entries, "ts"@) is Err {
                    r matches Err(f) && f == reader::uint_field(entries, "ts"@)->Err_0
                } else if reader::optional_bytes_field(entries, "eph_pk"@) is Err {
                    r matches Err(f) && f == reader::optional_bytes_field(entries, "eph_pk"@)->Err_0
                } else if reader::bytes_field(entries, "ciphertext"@) is Err {
                    r matches Err(f) && f == reader::bytes_field(entries, "ciphertext"@)->Err_0
                } else if reader::bytes_field(entries, "sig"@) is Err {
                    r matches Err(f) && f == reader::bytes_field(entries, "sig"@)->Err_0
                } else {
                    r is Ok
                }
            }
        }),
{
}

} // verus!
