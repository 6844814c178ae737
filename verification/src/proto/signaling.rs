//! Signaling payloads: the connect offer, its answer, and trickled ICE messages.
//!
//! A payload is never signed on its own. It is the plaintext that is sealed inside an envelope,
//! whose signature covers it. Which payload an envelope carries is said by the envelope's `kind`.
use crate::octets;
use crate::proto::artifacts::capability;
use crate::proto::artifacts::capability::{Capability, CapabilityModel};
use crate::proto::canonical;
use crate::proto::canonical::{
    canonical_decode, canonical_encode, CborError, CborValue, MAX_NESTING_DEPTH,
};
use crate::proto::item;
use crate::proto::item::Item;
use crate::proto::reader;
use crate::proto::reader::{Fault, MapReader, ProtoError};
use crate::proto::record;
use crate::proto::roundtrip;
use crate::text;
use vstd::prelude::*;
use vstd::utf8::encode_utf8;

verus! {

/// Length of a certificate fingerprint in bytes.
pub const CERT_FP_LEN: usize = 32;

/// Longest ICE user fragment, in bytes: the ceiling that RFC 8445 gives.
pub const MAX_UFRAG_LEN: usize = 256;

/// Longest ICE password, in bytes: the same ceiling.
pub const MAX_PWD_LEN: usize = 256;

/// Longest candidate line, in bytes. Real lines stay well under 300.
pub const MAX_CANDIDATE_LEN: usize = 1024;

/// Longest reply subject, in bytes. Real subjects stay under 128.
pub const MAX_INBOX_LEN: usize = 256;

/// The `kind` of an envelope that carries an offer.
pub const KIND_OFFER: u16 = 1;

/// The `kind` of an envelope that carries an answer.
pub const KIND_ANSWER: u16 = 2;

/// The `kind` of an envelope that carries an ICE message.
pub const KIND_ICE: u16 = 3;

/// Errors of the conversion from CBOR items and bytes to signaling payloads.
#[derive(Debug, Clone, PartialEq, Eq)]
pub enum SignalingError {
    /// Every rejection that all wire types share.
    Proto(ProtoError),
    /// A text field is longer, in bytes, than its cap.
    TooLong { field: &'static str, max: usize, actual: usize },
    /// A byte string of fixed size has another length.
    WrongLength { field: &'static str, expected: usize, actual: usize },
}

/// What a [`SignalingError`] reports.
pub enum SignalingFault {
    Proto(Fault),
    TooLong { field: Seq<char>, max: nat, actual: nat },
    WrongLength { field: Seq<char>, expected: nat, actual: nat },
}

impl View for SignalingError {
    type V = SignalingFault;

    open spec fn view(&self) -> SignalingFault {
        match *self {
            SignalingError::Proto(e) => SignalingFault::Proto(e@),
            SignalingError::TooLong { field, max, actual } => SignalingFault::TooLong {
                field: field@,
                max: max as nat,
                actual: actual as nat,
            },
            SignalingError::WrongLength { field, expected, actual } => SignalingFault::WrongLength {
                field: field@,
                expected: expected as nat,
                actual: actual as nat,
            },
        }
    }
}

impl SignalingFault {
    /// The message of the error.
    pub open spec fn message(self) -> Seq<char> {
        match self {
            SignalingFault::Proto(f) => f.message(),
            SignalingFault::TooLong { field, max, actual } => "field `"@ + field + "` is "@
                + text::decimal(actual) + " bytes long, exceeding the "@ + text::decimal(max)
                + "-byte cap"@,
            SignalingFault::WrongLength { field, expected, actual } => "field `"@ + field
                + "` is "@ + text::decimal(actual) + " bytes long, expected exactly "@
                + text::decimal(expected),
        }
    }

    /// The message with everything that a peer chose replaced by its size.
    pub open spec fn redacted_message(self) -> Seq<char> {
        match self {
            SignalingFault::Proto(f) => f.redacted_message(),
            _ => self.message(),
        }
    }
}

impl SignalingError {
    /// The message of the error.
    pub fn to_string(&self) -> (message: String)
        ensures
            message@ == self@.message(),
    {
        match self {
            SignalingError::Proto(e) => e.to_string(),
            SignalingError::TooLong { field, max, actual } => {
                let mut message = text::between("field `", field, "` is ");
                text::push_decimal(&mut message, *actual as u64);
                message.append(" bytes long, exceeding the ");
                text::push_decimal(&mut message, *max as u64);
                message.append("-byte cap");
                message
            },
            SignalingError::WrongLength { field, expected, actual } => {
                let mut message = text::between("field `", field, "` is ");
                text::push_decimal(&mut message, *actual as u64);
                message.append(" bytes long, expected exactly ");
                text::push_decimal(&mut message, *expected as u64);
                message
            },
        }
    }
}

impl From<ProtoError> for SignalingError {
    fn from(e: ProtoError) -> (r: Self) {
        SignalingError::Proto(e)
    }
}

impl vstd::std_specs::convert::FromSpecImpl<ProtoError> for SignalingError {
    open spec fn obeys_from_spec() -> bool {
        true
    }

    open spec fn from_spec(e: ProtoError) -> SignalingError {
        SignalingError::Proto(e)
    }
}

impl From<CborError> for SignalingError {
    fn from(e: CborError) -> (r: Self) {
        SignalingError::Proto(ProtoError::Cbor(e))
    }
}

impl vstd::std_specs::convert::FromSpecImpl<CborError> for SignalingError {
    open spec fn obeys_from_spec() -> bool {
        true
    }

    open spec fn from_spec(e: CborError) -> SignalingError {
        SignalingError::Proto(ProtoError::Cbor(e))
    }
}

/// A result of the shared reader with its fault as a signaling fault.
pub open spec fn lift<T>(r: Result<T, Fault>) -> Result<T, SignalingFault> {
    match r {
        Ok(v) => Ok(v),
        Err(f) => Err(SignalingFault::Proto(f)),
    }
}

/// A result with its value taken by its view and its error as a fault.
pub open spec fn seen<T: View>(r: Result<T, SignalingError>) -> Result<T::V, SignalingFault> {
    match r {
        Ok(v) => Ok(v@),
        Err(e) => Err(e@),
    }
}

/// The text, unless it is longer than `max` bytes.
pub open spec fn capped(field: Seq<char>, s: Seq<char>, max: usize) -> Result<
    Seq<char>,
    SignalingFault,
> {
    let actual = encode_utf8(s).len();
    if actual > max {
        Err(SignalingFault::TooLong { field, max: max as nat, actual })
    } else {
        Ok(s)
    }
}

/// The text of a mandatory field of at most `max` bytes.
pub open spec fn capped_text_field(
    entries: Seq<(Item, Item)>,
    field: Seq<char>,
    max: usize,
) -> Result<Seq<char>, SignalingFault> {
    match reader::text_field(entries, field) {
        Err(f) => Err(SignalingFault::Proto(f)),
        Ok(s) => capped(field, s, max),
    }
}

/// The certificate fingerprint in the `cert_fp` field.
pub open spec fn cert_fp_field(entries: Seq<(Item, Item)>) -> Result<Seq<u8>, SignalingFault> {
    match reader::bytes_field(entries, "cert_fp"@) {
        Err(f) => Err(SignalingFault::Proto(f)),
        Ok(b) => if b.len() == CERT_FP_LEN {
            Ok(b)
        } else {
            Err(
                SignalingFault::WrongLength {
                    field: "cert_fp"@,
                    expected: CERT_FP_LEN as nat,
                    actual: b.len(),
                },
            )
        },
    }
}

/// The transport in the `transport` field.
pub open spec fn transport_field(entries: Seq<(Item, Item)>) -> Result<Transport, SignalingFault> {
    match reader::uint_field(entries, "transport"@) {
        Err(f) => Err(SignalingFault::Proto(f)),
        Ok(n) => lift(Transport::of_code(n)),
    }
}

/// The candidate line in the optional `candidate` field.
pub open spec fn candidate_field(entries: Seq<(Item, Item)>) -> Result<
    Option<Seq<char>>,
    SignalingFault,
> {
    match reader::find_field(entries, "candidate"@) {
        None => Ok(None),
        Some(Item::Text(s)) => match capped("candidate"@, s, MAX_CANDIDATE_LEN) {
            Err(f) => Err(f),
            Ok(s) => Ok(Some(s)),
        },
        Some(_) => Err(SignalingFault::Proto(Fault::WrongType("candidate"@))),
    }
}

/// The capability in the optional `member_cap` field.
pub open spec fn member_cap_field(entries: Seq<(Item, Item)>) -> Result<
    Option<CapabilityModel>,
    SignalingFault,
> {
    match reader::find_field(entries, "member_cap"@) {
        None => Ok(None),
        Some(value) => match CapabilityModel::read(value) {
            Err(f) => Err(SignalingFault::Proto(f)),
            Ok(cap) => Ok(Some(cap)),
        },
    }
}

/// The characters of an optional text.
pub open spec fn opt_text(o: Option<String>) -> Option<Seq<char>> {
    match o {
        Some(s) => Some(s@),
        None => None,
    }
}

/// The contents of an optional capability.
pub open spec fn opt_capability(o: Option<Capability>) -> Option<CapabilityModel> {
    match o {
        Some(c) => Some(c@),
        None => None,
    }
}

/// Rejects `s` if it is longer than `max` bytes.
pub fn check_max_len(field: &'static str, s: &str, max: usize) -> (r: Result<(), SignalingError>)
    ensures
        match r {
            Ok(_) => capped(field@, s@, max) == Ok::<Seq<char>, SignalingFault>(s@),
            Err(e) => capped(field@, s@, max) == Err::<Seq<char>, SignalingFault>(e@),
        },
{
    let actual: usize = s.as_bytes().len();
    if actual > max {
        return Err(SignalingError::TooLong { field, max, actual });
    }
    Ok(())
}

/// Reads the certificate fingerprint.
pub fn read_cert_fp(m: &MapReader<'_>) -> (r: Result<[u8; 32], SignalingError>)
    ensures
        seen(r) == cert_fp_field(m@),
{
    match m.bytes("cert_fp") {
        Err(e) => Err(SignalingError::Proto(e)),
        Ok(bytes) => {
            let actual: usize = bytes.len();
            if actual != CERT_FP_LEN {
                return Err(
                    SignalingError::WrongLength { field: "cert_fp", expected: CERT_FP_LEN, actual },
                );
            }
            Ok(octets::to_array_32(bytes.as_slice()))
        },
    }
}

/// Reads a mandatory text of at most `max` bytes.
pub fn read_capped_text(m: &MapReader<'_>, field: &'static str, max: usize) -> (r: Result<
    String,
    SignalingError,
>)
    ensures
        seen(r) == capped_text_field(m@, field@, max),
{
    match m.text(field) {
        Err(e) => Err(SignalingError::Proto(e)),
        Ok(s) => match check_max_len(field, s.as_str(), max) {
            Err(e) => Err(e),
            Ok(_) => Ok(s),
        },
    }
}

/// Reads the transport.
fn read_transport(m: &MapReader<'_>) -> (r: Result<Transport, SignalingError>)
    ensures
        match r {
            Ok(t) => transport_field(m@) == Ok::<Transport, SignalingFault>(t),
            Err(e) => transport_field(m@) == Err::<Transport, SignalingFault>(e@),
        },
{
    match m.u64("transport") {
        Err(e) => Err(SignalingError::Proto(e)),
        Ok(n) => match Transport::from_u64(n) {
            Err(e) => Err(SignalingError::Proto(e)),
            Ok(t) => Ok(t),
        },
    }
}

/// Opens the map `v` and checks that it holds no key outside `allowed`.
fn open_closed_map<'a>(v: &'a CborValue, allowed: &[&str]) -> (r: Result<
    MapReader<'a>,
    SignalingError,
>)
    ensures
        seen(r) == lift(reader::closed_map(v@, reader::names(allowed@))),
{
    match MapReader::new(v) {
        Err(e) => Err(SignalingError::Proto(e)),
        Ok(m) => match m.deny_unknown_fields(allowed) {
            Err(e) => Err(SignalingError::Proto(e)),
            Ok(_) => Ok(m),
        },
    }
}

/// The transport that a connect negotiates.
#[derive(Debug, Clone, Copy, PartialEq, Eq, Structural)]
pub enum Transport {
    /// Between native peers.
    Quic,
    /// With a browser peer.
    WebRtc,
}

impl Transport {
    /// The number that stands for the transport on the wire.
    pub open spec fn code(self) -> u64 {
        match self {
            Transport::Quic => 0,
            Transport::WebRtc => 1,
        }
    }

    /// The transport that a number stands for.
    pub open spec fn of_code(v: u64) -> Result<Transport, Fault> {
        if v == 0 {
            Ok(Transport::Quic)
        } else if v == 1 {
            Ok(Transport::WebRtc)
        } else {
            Err(Fault::InvalidEnumValue("transport"@, v))
        }
    }

    pub fn to_cbor(self) -> (value: CborValue)
        ensures
            value@ == Item::Uint(self.code()),
    {
        match self {
            Transport::Quic => CborValue::uint(0),
            Transport::WebRtc => CborValue::uint(1),
        }
    }

    pub fn from_u64(v: u64) -> (r: Result<Self, ProtoError>)
        ensures
            reader::outcome(r) == Transport::of_code(v),
    {
        match v {
            0 => Ok(Transport::Quic),
            1 => Ok(Transport::WebRtc),
            other => Err(ProtoError::InvalidEnumValue("transport", other)),
        }
    }
}

// ---- the offer ----

/// The client's connect offer: its reply subject, its ICE credentials, and the fingerprint of its
/// session certificate. Candidates are trickled separately.
#[derive(Debug, Clone, PartialEq, Eq)]
pub struct OfferPayload {
    pub inbox: String,
    pub transport: Transport,
    pub ufrag: String,
    pub pwd: String,
    pub cert_fp: [u8; 32],
}

/// The field names of an offer.
pub const OFFER_FIELDS: [&'static str; 5] = ["inbox", "transport", "ufrag", "pwd", "cert_fp"];

/// The contents of an offer.
pub struct OfferModel {
    pub inbox: Seq<char>,
    pub transport: Transport,
    pub ufrag: Seq<char>,
    pub pwd: Seq<char>,
    pub cert_fp: Seq<u8>,
}

impl View for OfferPayload {
    type V = OfferModel;

    open spec fn view(&self) -> OfferModel {
        OfferModel {
            inbox: self.inbox@,
            transport: self.transport,
            ufrag: self.ufrag@,
            pwd: self.pwd@,
            cert_fp: self.cert_fp@,
        }
    }
}

impl OfferModel {
    /// The texts are within their caps, and the fingerprint has its length.
    pub open spec fn valid(self) -> bool {
        &&& encode_utf8(self.inbox).len() <= MAX_INBOX_LEN
        &&& encode_utf8(self.ufrag).len() <= MAX_UFRAG_LEN
        &&& encode_utf8(self.pwd).len() <= MAX_PWD_LEN
        &&& self.cert_fp.len() == CERT_FP_LEN
    }

    /// All fields.
    pub open spec fn fields(self) -> Seq<(Seq<char>, Item)> {
        seq![
            ("inbox"@, Item::Text(self.inbox)),
            ("transport"@, Item::Uint(self.transport.code())),
            ("ufrag"@, Item::Text(self.ufrag)),
            ("pwd"@, Item::Text(self.pwd)),
            ("cert_fp"@, Item::Bytes(self.cert_fp)),
        ]
    }

    /// The canonical bytes of the offer.
    pub open spec fn bytes(self) -> Seq<u8> {
        item::encoding(item::record(self.fields()))
    }

    /// The offer that an item stands for.
    pub open spec fn read(item: Item) -> Result<OfferModel, SignalingFault> {
        match lift(reader::closed_map(item, reader::names(OFFER_FIELDS@))) {
            Err(f) => Err(f),
            Ok(m) => {
                let inbox = capped_text_field(m, "inbox"@, MAX_INBOX_LEN);
                let transport = transport_field(m);
                let ufrag = capped_text_field(m, "ufrag"@, MAX_UFRAG_LEN);
                let pwd = capped_text_field(m, "pwd"@, MAX_PWD_LEN);
                let cert_fp = cert_fp_field(m);
                let found = reader::fault(inbox);
                let found = reader::first(found, reader::fault(transport));
                let found = reader::first(found, reader::fault(ufrag));
                let found = reader::first(found, reader::fault(pwd));
                let found = reader::first(found, reader::fault(cert_fp));
                reader::unless(
                    found,
                    OfferModel {
                        inbox: inbox->Ok_0,
                        transport: transport->Ok_0,
                        ufrag: ufrag->Ok_0,
                        pwd: pwd->Ok_0,
                        cert_fp: cert_fp->Ok_0,
                    },
                )
            },
        }
    }

    /// The offer that canonical bytes stand for.
    pub open spec fn parse(bytes: Seq<u8>) -> Result<OfferModel, SignalingFault> {
        match canonical::decoding(bytes) {
            Err(e) => Err(SignalingFault::Proto(Fault::Cbor(e))),
            Ok(item) => OfferModel::read(item),
        }
    }
}

proof fn lemma_offer_fields(m: OfferModel)
    ensures
        record::names_distinct(m.fields()),
        record::values_unique(m.fields()),
        record::values_nest(m.fields(), MAX_NESTING_DEPTH - 1),
        record::names_among(m.fields(), reader::names(OFFER_FIELDS@)),
        m.valid() ==> item::lengths_fit(item::record(m.fields())),
{
    reveal_strlit("inbox");
    reveal_strlit("transport");
    reveal_strlit("ufrag");
    reveal_strlit("pwd");
    reveal_strlit("cert_fp");
    assert("inbox"@.len() == 5);
    assert("transport"@.len() == 9);
    assert("ufrag"@.len() == 5);
    assert("pwd"@.len() == 3);
    assert("cert_fp"@.len() == 7);
    assert("inbox"@[0] != "ufrag"@[0]);
    let listed = reader::names(OFFER_FIELDS@);
    let fields = m.fields();
    assert forall|i: int| 0 <= i < fields.len() implies listed.contains((#[trigger] fields[i]).0) by {
        assert(fields[i].0 == listed[i]);
    }
    if m.valid() {
        record::lemma_names_short(fields, 9);
        record::lemma_record_fits(fields);
    }
}

impl OfferPayload {
    pub fn to_cbor(&self) -> (value: CborValue)
        ensures
            value@ == item::record(self@.fields()),
    {
        let entries: Vec<(&'static str, CborValue)> = vec![
            ("inbox", CborValue::text(self.inbox.as_str())),
            ("transport", self.transport.to_cbor()),
            ("ufrag", CborValue::text(self.ufrag.as_str())),
            ("pwd", CborValue::text(self.pwd.as_str())),
            ("cert_fp", CborValue::bytes(self.cert_fp.as_slice())),
        ];
        assert(canonical::fields_of(entries@) =~= self@.fields());
        CborValue::map(entries)
    }

    pub fn to_canonical_bytes(&self) -> (bytes: Vec<u8>)
        ensures
            bytes@ == self@.bytes(),
    {
        proof {
            lemma_offer_fields(self@);
            record::lemma_record_unique(self@.fields());
        }
        canonical_encode(&self.to_cbor())
    }

    pub fn from_cbor(v: &CborValue) -> (r: Result<Self, SignalingError>)
        ensures
            seen(r) == OfferModel::read(v@),
    {
        let m = open_closed_map(v, OFFER_FIELDS.as_slice())?;
        Ok(
            OfferPayload {
                inbox: read_capped_text(&m, "inbox", MAX_INBOX_LEN)?,
                transport: read_transport(&m)?,
                ufrag: read_capped_text(&m, "ufrag", MAX_UFRAG_LEN)?,
                pwd: read_capped_text(&m, "pwd", MAX_PWD_LEN)?,
                cert_fp: read_cert_fp(&m)?,
            },
        )
    }

    pub fn from_canonical_bytes(bytes: &[u8]) -> (r: Result<Self, SignalingError>)
        ensures
            seen(r) == OfferModel::parse(bytes@),
    {
        match canonical_decode(bytes) {
            Ok(value) => Self::from_cbor(&value),
            Err(e) => Err(SignalingError::Proto(ProtoError::Cbor(e))),
        }
    }
}

/// Parsing the canonical bytes of an offer within the caps gives the offer back.
pub proof fn law_offer_round_trip(m: OfferModel)
    requires
        m.valid(),
    ensures
        OfferModel::parse(m.bytes()) == Ok::<OfferModel, SignalingFault>(m),
{
    let fields = m.fields();
    lemma_offer_fields(m);
    record::lemma_record_unique(fields);
    record::lemma_record_nests(fields, MAX_NESTING_DEPTH as int);
    roundtrip::law_decode_of_encode(item::record(fields));
    let entries = record::lemma_canonical_record_closed(fields, reader::names(OFFER_FIELDS@));
    assert(fields[0].0 == "inbox"@);
    assert(fields[1].0 == "transport"@);
    assert(fields[2].0 == "ufrag"@);
    assert(fields[3].0 == "pwd"@);
    assert(fields[4].0 == "cert_fp"@);
    assert(OfferModel::read(Item::Mapping(entries)) == Ok::<OfferModel, SignalingFault>(m));
}

/// Bytes that parse as an offer are its canonical bytes, and the offer is within the caps.
pub proof fn law_offer_unique_bytes(bytes: Seq<u8>)
    ensures
        OfferModel::parse(bytes) matches Ok(m) ==> m.bytes() == bytes && m.valid(),
{
    if let Ok(m) = OfferModel::parse(bytes) {
        roundtrip::law_encode_of_decode(bytes);
        let entries = canonical::decoding(bytes)->Ok_0->Mapping_0;
        let fields = m.fields();
        lemma_offer_fields(m);
        assert(fields[0].0 == "inbox"@);
        assert(fields[1].0 == "transport"@);
        assert(fields[2].0 == "ufrag"@);
        assert(fields[3].0 == "pwd"@);
        assert(fields[4].0 == "cert_fp"@);
        assert(record::agrees(entries, fields, "inbox"@));
        assert(record::agrees(entries, fields, "transport"@));
        assert(record::agrees(entries, fields, "ufrag"@));
        assert(record::agrees(entries, fields, "pwd"@));
        assert(record::agrees(entries, fields, "cert_fp"@));
        record::lemma_record_rebuilt(entries, fields, reader::names(OFFER_FIELDS@));
        record::lemma_record_unique(fields);
        roundtrip::law_canonical_form_same_bytes(item::record(fields));
    }
}

// ---- the answer ----

/// The host's connect answer: its ICE credentials and the fingerprint of its session certificate,
/// and the member capability that the host issues where the connect redeemed an invite. It is
/// delivered as the reply to the offer and needs no reply subject of its own.
#[derive(Debug, Clone, PartialEq, Eq)]
pub struct AnswerPayload {
    pub transport: Transport,
    pub ufrag: String,
    pub pwd: String,
    pub cert_fp: [u8; 32],
    pub member_cap: Option<Capability>,
}

/// The field names of an answer.
pub const ANSWER_FIELDS: [&'static str; 5] = [
    "transport",
    "ufrag",
    "pwd",
    "cert_fp",
    "member_cap",
];

/// The contents of an answer.
pub struct AnswerModel {
    pub transport: Transport,
    pub ufrag: Seq<char>,
    pub pwd: Seq<char>,
    pub cert_fp: Seq<u8>,
    pub member_cap: Option<CapabilityModel>,
}

impl View for AnswerPayload {
    type V = AnswerModel;

    open spec fn view(&self) -> AnswerModel {
        AnswerModel {
            transport: self.transport,
            ufrag: self.ufrag@,
            pwd: self.pwd@,
            cert_fp: self.cert_fp@,
            member_cap: opt_capability(self.member_cap),
        }
    }
}

impl AnswerModel {
    /// The texts are within their caps, the fingerprint has its length, and the lengths in the
    /// capability can be encoded.
    pub open spec fn valid(self) -> bool {
        &&& encode_utf8(self.ufrag).len() <= MAX_UFRAG_LEN
        &&& encode_utf8(self.pwd).len() <= MAX_PWD_LEN
        &&& self.cert_fp.len() == CERT_FP_LEN
        &&& self.member_cap matches Some(cap) ==> item::lengths_fit(item::record(cap.fields()))
    }

    /// All fields. A capability that is not there has no field.
    pub open spec fn fields(self) -> Seq<(Seq<char>, Item)> {
        let fields = seq![
            ("transport"@, Item::Uint(self.transport.code())),
            ("ufrag"@, Item::Text(self.ufrag)),
            ("pwd"@, Item::Text(self.pwd)),
            ("cert_fp"@, Item::Bytes(self.cert_fp)),
        ];
        match self.member_cap {
            Some(cap) => fields.push(("member_cap"@, item::record(cap.fields()))),
            None => fields,
        }
    }

    /// The canonical bytes of the answer.
    pub open spec fn bytes(self) -> Seq<u8> {
        item::encoding(item::record(self.fields()))
    }

    /// The answer that an item stands for.
    pub open spec fn read(item: Item) -> Result<AnswerModel, SignalingFault> {
        match lift(reader::closed_map(item, reader::names(ANSWER_FIELDS@))) {
            Err(f) => Err(f),
            Ok(m) => {
                let transport = transport_field(m);
                let ufrag = capped_text_field(m, "ufrag"@, MAX_UFRAG_LEN);
                let pwd = capped_text_field(m, "pwd"@, MAX_PWD_LEN);
                let cert_fp = cert_fp_field(m);
                let member_cap = member_cap_field(m);
                let found = reader::fault(transport);
                let found = reader::first(found, reader::fault(ufrag));
                let found = reader::first(found, reader::fault(pwd));
                let found = reader::first(found, reader::fault(cert_fp));
                let found = reader::first(found, reader::fault(member_cap));
                reader::unless(
                    found,
                    AnswerModel {
                        transport: transport->Ok_0,
                        ufrag: ufrag->Ok_0,
                        pwd: pwd->Ok_0,
                        cert_fp: cert_fp->Ok_0,
                        member_cap: member_cap->Ok_0,
                    },
                )
            },
        }
    }

    /// The answer that canonical bytes stand for.
    pub open spec fn parse(bytes: Seq<u8>) -> Result<AnswerModel, SignalingFault> {
        match canonical::decoding(bytes) {
            Err(e) => Err(SignalingFault::Proto(Fault::Cbor(e))),
            Ok(item) => AnswerModel::read(item),
        }
    }
}

proof fn lemma_answer_fields(m: AnswerModel)
    ensures
        record::names_distinct(m.fields()),
        record::values_unique(m.fields()),
        record::values_nest(m.fields(), MAX_NESTING_DEPTH - 1),
        record::names_among(m.fields(), reader::names(ANSWER_FIELDS@)),
        m.valid() ==> item::lengths_fit(item::record(m.fields())),
        m.member_cap is None ==> record::not_named(m.fields(), "member_cap"@),
{
    reveal_strlit("transport");
    reveal_strlit("ufrag");
    reveal_strlit("pwd");
    reveal_strlit("cert_fp");
    reveal_strlit("member_cap");
    assert("transport"@.len() == 9);
    assert("ufrag"@.len() == 5);
    assert("pwd"@.len() == 3);
    assert("cert_fp"@.len() == 7);
    assert("member_cap"@.len() == 10);
    let listed = reader::names(ANSWER_FIELDS@);
    let fields = m.fields();
    assert forall|i: int| 0 <= i < fields.len() implies listed.contains((#[trigger] fields[i]).0) by {
        assert(fields[i].0 == listed[i]);
    }
    if let Some(cap) = m.member_cap {
        capability::lemma_record_of(cap);
        item::lemma_nests_more(item::record(cap.fields()), 1, MAX_NESTING_DEPTH - 1);
    }
    if m.valid() {
        record::lemma_names_short(fields, 10);
        record::lemma_record_fits(fields);
    }
}

/// Reads the member capability.
fn read_member_cap(m: &MapReader<'_>) -> (r: Result<Option<Capability>, SignalingError>)
    ensures
        match r {
            Ok(cap) => member_cap_field(m@) == Ok::<Option<CapabilityModel>, SignalingFault>(
                opt_capability(cap),
            ),
            Err(e) => member_cap_field(m@) == Err::<Option<CapabilityModel>, SignalingFault>(e@),
        },
{
    match m.get("member_cap") {
        None => Ok(None),
        Some(value) => match Capability::from_cbor(value) {
            Err(e) => Err(SignalingError::Proto(e)),
            Ok(cap) => Ok(Some(cap)),
        },
    }
}

impl AnswerPayload {
    pub fn to_cbor(&self) -> (value: CborValue)
        ensures
            value@ == item::record(self@.fields()),
    {
        let mut entries: Vec<(&'static str, CborValue)> = vec![
            ("transport", self.transport.to_cbor()),
            ("ufrag", CborValue::text(self.ufrag.as_str())),
            ("pwd", CborValue::text(self.pwd.as_str())),
            ("cert_fp", CborValue::bytes(self.cert_fp.as_slice())),
        ];
        if let Some(cap) = &self.member_cap {
            entries.push(("member_cap", cap.to_cbor()));
        }
        assert(canonical::fields_of(entries@) =~= self@.fields());
        CborValue::map(entries)
    }

    pub fn to_canonical_bytes(&self) -> (bytes: Vec<u8>)
        ensures
            bytes@ == self@.bytes(),
            item::lengths_fit(item::record(self@.fields())),
    {
        proof {
            lemma_answer_fields(self@);
            record::lemma_record_unique(self@.fields());
        }
        canonical_encode(&self.to_cbor())
    }

    pub fn from_cbor(v: &CborValue) -> (r: Result<Self, SignalingError>)
        ensures
            seen(r) == AnswerModel::read(v@),
    {
        let m = open_closed_map(v, ANSWER_FIELDS.as_slice())?;
        Ok(
            AnswerPayload {
                transport: read_transport(&m)?,
                ufrag: read_capped_text(&m, "ufrag", MAX_UFRAG_LEN)?,
                pwd: read_capped_text(&m, "pwd", MAX_PWD_LEN)?,
                cert_fp: read_cert_fp(&m)?,
                member_cap: read_member_cap(&m)?,
            },
        )
    }

    pub fn from_canonical_bytes(bytes: &[u8]) -> (r: Result<Self, SignalingError>)
        ensures
            seen(r) == AnswerModel::parse(bytes@),
    {
        match canonical_decode(bytes) {
            Ok(value) => Self::from_cbor(&value),
            Err(e) => Err(SignalingError::Proto(ProtoError::Cbor(e))),
        }
    }
}

/// Parsing the canonical bytes of an answer within the caps gives the answer back.
pub proof fn law_answer_round_trip(m: AnswerModel)
    requires
        m.valid(),
    ensures
        AnswerModel::parse(m.bytes()) == Ok::<AnswerModel, SignalingFault>(m),
{
    let fields = m.fields();
    lemma_answer_fields(m);
    record::lemma_record_unique(fields);
    record::lemma_record_nests(fields, MAX_NESTING_DEPTH as int);
    roundtrip::law_decode_of_encode(item::record(fields));
    let entries = record::lemma_canonical_record_closed(fields, reader::names(ANSWER_FIELDS@));
    assert(fields[0].0 == "transport"@);
    assert(fields[1].0 == "ufrag"@);
    assert(fields[2].0 == "pwd"@);
    assert(fields[3].0 == "cert_fp"@);
    match m.member_cap {
        Some(cap) => {
            assert(fields[4].0 == "member_cap"@);
            capability::lemma_record_of(cap);
        },
        None => {
            assert(reader::find_field(entries, "member_cap"@) is None);
        },
    }
    assert(AnswerModel::read(Item::Mapping(entries)) == Ok::<AnswerModel, SignalingFault>(m));
}

/// Bytes that parse as an answer are its canonical bytes, and the answer is within the caps.
pub proof fn law_answer_unique_bytes(bytes: Seq<u8>)
    ensures
        AnswerModel::parse(bytes) matches Ok(m) ==> m.bytes() == bytes && m.valid(),
{
    if let Ok(m) = AnswerModel::parse(bytes) {
        roundtrip::law_encode_of_decode(bytes);
        let entries = canonical::decoding(bytes)->Ok_0->Mapping_0;
        let fields = m.fields();
        lemma_answer_fields(m);
        assert(fields[0].0 == "transport"@);
        assert(fields[1].0 == "ufrag"@);
        assert(fields[2].0 == "pwd"@);
        assert(fields[3].0 == "cert_fp"@);
        record::lemma_found_in_order(entries, "member_cap"@);
        if let Some(cap) = m.member_cap {
            assert(fields[4].0 == "member_cap"@);
            capability::lemma_item_of(reader::find_field(entries, "member_cap"@)->Some_0);
        }
        assert(record::agrees(entries, fields, "transport"@));
        assert(record::agrees(entries, fields, "ufrag"@));
        assert(record::agrees(entries, fields, "pwd"@));
        assert(record::agrees(entries, fields, "cert_fp"@));
        assert(record::agrees(entries, fields, "member_cap"@));
        record::lemma_record_rebuilt(entries, fields, reader::names(ANSWER_FIELDS@));
        record::lemma_record_unique(fields);
        roundtrip::lemma_canonical_form_fits(item::record(fields));
        if let Some(cap) = m.member_cap {
            let last = item::record_entries(fields)[4];
            assert(item::lengths_fit(last.1));
        }
        roundtrip::law_canonical_form_same_bytes(item::record(fields));
    }
}

// ---- the ICE message ----

/// One trickled ICE message: a candidate line, or the marker that no more will follow. Every
/// combination of the two is accepted.
#[derive(Debug, Clone, PartialEq, Eq)]
pub struct IcePayload {
    pub candidate: Option<String>,
    pub end_of_candidates: bool,
}

/// The field names of an ICE message.
pub const ICE_FIELDS: [&'static str; 2] = ["candidate", "end_of_candidates"];

/// The contents of an ICE message.
pub struct IceModel {
    pub candidate: Option<Seq<char>>,
    pub end_of_candidates: bool,
}

impl View for IcePayload {
    type V = IceModel;

    open spec fn view(&self) -> IceModel {
        IceModel {
            candidate: opt_text(self.candidate),
            end_of_candidates: self.end_of_candidates,
        }
    }
}

impl IceModel {
    /// The candidate is within its cap.
    pub open spec fn valid(self) -> bool {
        self.candidate matches Some(c) ==> encode_utf8(c).len() <= MAX_CANDIDATE_LEN
    }

    /// All fields. A candidate that is not there has no field.
    pub open spec fn fields(self) -> Seq<(Seq<char>, Item)> {
        let end = ("end_of_candidates"@, Item::Bool(self.end_of_candidates));
        match self.candidate {
            Some(c) => seq![("candidate"@, Item::Text(c)), end],
            None => seq![end],
        }
    }

    /// The canonical bytes of the message.
    pub open spec fn bytes(self) -> Seq<u8> {
        item::encoding(item::record(self.fields()))
    }

    /// The message that an item stands for.
    pub open spec fn read(item: Item) -> Result<IceModel, SignalingFault> {
        match lift(reader::closed_map(item, reader::names(ICE_FIELDS@))) {
            Err(f) => Err(f),
            Ok(m) => {
                let candidate = candidate_field(m);
                let end_of_candidates = lift(reader::bool_field(m, "end_of_candidates"@));
                let found = reader::fault(candidate);
                let found = reader::first(found, reader::fault(end_of_candidates));
                reader::unless(
                    found,
                    IceModel {
                        candidate: candidate->Ok_0,
                        end_of_candidates: end_of_candidates->Ok_0,
                    },
                )
            },
        }
    }

    /// The message that canonical bytes stand for.
    pub open spec fn parse(bytes: Seq<u8>) -> Result<IceModel, SignalingFault> {
        match canonical::decoding(bytes) {
            Err(e) => Err(SignalingFault::Proto(Fault::Cbor(e))),
            Ok(item) => IceModel::read(item),
        }
    }
}

proof fn lemma_ice_fields(m: IceModel)
    ensures
        record::names_distinct(m.fields()),
        record::values_unique(m.fields()),
        record::values_nest(m.fields(), MAX_NESTING_DEPTH - 1),
        record::names_among(m.fields(), reader::names(ICE_FIELDS@)),
        m.valid() ==> item::lengths_fit(item::record(m.fields())),
        m.candidate is None ==> record::not_named(m.fields(), "candidate"@),
{
    reveal_strlit("candidate");
    reveal_strlit("end_of_candidates");
    assert("candidate"@.len() == 9);
    assert("end_of_candidates"@.len() == 17);
    let listed = reader::names(ICE_FIELDS@);
    let fields = m.fields();
    assert(listed[0] == "candidate"@);
    assert(listed[1] == "end_of_candidates"@);
    assert forall|i: int| 0 <= i < fields.len() implies listed.contains((#[trigger] fields[i]).0) by {
        assert(fields[i].0 == listed[0] || fields[i].0 == listed[1]);
    }
    if m.valid() {
        record::lemma_names_short(fields, 17);
        record::lemma_record_fits(fields);
    }
}

/// Reads the candidate line.
fn read_candidate(m: &MapReader<'_>) -> (r: Result<Option<String>, SignalingError>)
    ensures
        match r {
            Ok(c) => candidate_field(m@) == Ok::<Option<Seq<char>>, SignalingFault>(opt_text(c)),
            Err(e) => candidate_field(m@) == Err::<Option<Seq<char>>, SignalingFault>(e@),
        },
{
    match m.get("candidate") {
        None => Ok(None),
        Some(value) => match value.as_text() {
            None => Err(SignalingError::Proto(ProtoError::WrongType("candidate"))),
            Some(s) => match check_max_len("candidate", s, MAX_CANDIDATE_LEN) {
                Err(e) => Err(e),
                Ok(_) => Ok(Some(String::from_str(s))),
            },
        },
    }
}

impl IcePayload {
    pub fn to_cbor(&self) -> (value: CborValue)
        ensures
            value@ == item::record(self@.fields()),
    {
        let mut entries: Vec<(&'static str, CborValue)> = Vec::with_capacity(2);
        if let Some(c) = &self.candidate {
            entries.push(("candidate", CborValue::text(c.as_str())));
        }
        entries.push(("end_of_candidates", CborValue::Bool(self.end_of_candidates)));
        assert(canonical::fields_of(entries@) =~= self@.fields());
        CborValue::map(entries)
    }

    pub fn to_canonical_bytes(&self) -> (bytes: Vec<u8>)
        ensures
            bytes@ == self@.bytes(),
            item::lengths_fit(item::record(self@.fields())),
    {
        proof {
            lemma_ice_fields(self@);
            record::lemma_record_unique(self@.fields());
        }
        canonical_encode(&self.to_cbor())
    }

    pub fn from_cbor(v: &CborValue) -> (r: Result<Self, SignalingError>)
        ensures
            seen(r) == IceModel::read(v@),
    {
        let m = open_closed_map(v, ICE_FIELDS.as_slice())?;
        let candidate = read_candidate(&m)?;
        match m.bool("end_of_candidates") {
            Err(e) => Err(SignalingError::Proto(e)),
            Ok(end_of_candidates) => Ok(IcePayload { candidate, end_of_candidates }),
        }
    }

    pub fn from_canonical_bytes(bytes: &[u8]) -> (r: Result<Self, SignalingError>)
        ensures
            seen(r) == IceModel::parse(bytes@),
    {
        match canonical_decode(bytes) {
            Ok(value) => Self::from_cbor(&value),
            Err(e) => Err(SignalingError::Proto(ProtoError::Cbor(e))),
        }
    }
}

/// Parsing the canonical bytes of an ICE message within the cap gives the message back.
pub proof fn law_ice_round_trip(m: IceModel)
    requires
        m.valid(),
    ensures
        IceModel::parse(m.bytes()) == Ok::<IceModel, SignalingFault>(m),
{
    let fields = m.fields();
    lemma_ice_fields(m);
    record::lemma_record_unique(fields);
    record::lemma_record_nests(fields, MAX_NESTING_DEPTH as int);
    roundtrip::law_decode_of_encode(item::record(fields));
    let entries = record::lemma_canonical_record_closed(fields, reader::names(ICE_FIELDS@));
    match m.candidate {
        Some(_) => {
            assert(fields[0].0 == "candidate"@);
            assert(fields[1].0 == "end_of_candidates"@);
        },
        None => {
            assert(fields[0].0 == "end_of_candidates"@);
            assert(reader::find_field(entries, "candidate"@) is None);
        },
    }
    assert(IceModel::read(Item::Mapping(entries)) == Ok::<IceModel, SignalingFault>(m));
}

/// Bytes that parse as an ICE message are its canonical bytes, and the candidate is within its cap.
pub proof fn law_ice_unique_bytes(bytes: Seq<u8>)
    ensures
        IceModel::parse(bytes) matches Ok(m) ==> m.bytes() == bytes && m.valid(),
{
    if let Ok(m) = IceModel::parse(bytes) {
        roundtrip::law_encode_of_decode(bytes);
        let entries = canonical::decoding(bytes)->Ok_0->Mapping_0;
        let fields = m.fields();
        lemma_ice_fields(m);
        match m.candidate {
            Some(_) => {
                assert(fields[0].0 == "candidate"@);
                assert(fields[1].0 == "end_of_candidates"@);
            },
            None => {
                assert(fields[0].0 == "end_of_candidates"@);
            },
        }
        assert(record::agrees(entries, fields, "candidate"@));
        assert(record::agrees(entries, fields, "end_of_candidates"@));
        record::lemma_record_rebuilt(entries, fields, reader::names(ICE_FIELDS@));
        record::lemma_record_unique(fields);
        roundtrip::law_canonical_form_same_bytes(item::record(fields));
    }
}

// ---- the names on the wire ----

/// What stands on the wire: an item is the same as an offer exactly where it is a map with nothing
/// but these names, and under each of them what the value holds there.
pub proof fn law_offer_wire(v: Item, e: OfferPayload)
    requires
        item::keys_unique(v),
    ensures
        item::same_item(v, item::record(e@.fields())) <==> {
            &&& record::is_map_of(v, 5)
            &&& record::holds(v, "inbox"@, Item::Text(e.inbox@))
            &&& record::holds(v, "transport"@,
                Item::Uint(if e.transport is WebRtc { 1 } else { 0 }))
            &&& record::holds(v, "ufrag"@, Item::Text(e.ufrag@))
            &&& record::holds(v, "pwd"@, Item::Text(e.pwd@))
            &&& record::holds(v, "cert_fp"@, Item::Bytes(e.cert_fp@))
        },
        e@.bytes() == item::encoding(item::record(e@.fields())),
{
    let fields = e@.fields();
    lemma_offer_fields(e@);
    record::lemma_holds_all(v, fields);
    assert(fields[0] == ("inbox"@, Item::Text(e.inbox@)));
    assert(fields[1] == ("transport"@, Item::Uint(if e.transport is WebRtc { 1 } else { 0 })));
    assert(fields[2] == ("ufrag"@, Item::Text(e.ufrag@)));
    assert(fields[3] == ("pwd"@, Item::Text(e.pwd@)));
    assert(fields[4] == ("cert_fp"@, Item::Bytes(e.cert_fp@)));
}

/// What is read: every part of an offer is what stood under its name.
pub proof fn law_offer_read(v: Item, e: OfferPayload)
    requires
        OfferModel::read(v) == Ok::<OfferModel, SignalingFault>(e@),
    ensures
        record::holds(v, "inbox"@, Item::Text(e.inbox@)),
        record::holds(v, "transport"@, Item::Uint(if e.transport is WebRtc { 1 } else { 0 })),
        record::holds(v, "ufrag"@, Item::Text(e.ufrag@)),
        record::holds(v, "pwd"@, Item::Text(e.pwd@)),
        record::holds(v, "cert_fp"@, Item::Bytes(e.cert_fp@)),
{
    let entries = v->Mapping_0;
    record::lemma_found_holds(entries, "inbox"@);
    record::lemma_found_holds(entries, "transport"@);
    record::lemma_found_holds(entries, "ufrag"@);
    record::lemma_found_holds(entries, "pwd"@);
    record::lemma_found_holds(entries, "cert_fp"@);
}

/// What stands on the wire: an item is the same as an answer exactly where it is a map with nothing
/// but these names, and under each of them what the value holds there.
pub proof fn law_answer_wire(v: Item, e: AnswerPayload)
    requires
        item::keys_unique(v),
    ensures
        item::same_item(v, item::record(e@.fields())) <==> {
            &&& record::is_map_of(v, (4 + (if e.member_cap is Some { 1nat } else { 0nat })) as nat)
            &&& record::holds(v, "transport"@,
                Item::Uint(if e.transport is WebRtc { 1 } else { 0 }))
            &&& record::holds(v, "ufrag"@, Item::Text(e.ufrag@))
            &&& record::holds(v, "pwd"@, Item::Text(e.pwd@))
            &&& record::holds(v, "cert_fp"@, Item::Bytes(e.cert_fp@))
            &&& e.member_cap is Some ==> record::holds(v, "member_cap"@,
                item::record(e.member_cap->0@.fields()))
        },
        e@.bytes() == item::encoding(item::record(e@.fields())),
{
    let fields = e@.fields();
    lemma_answer_fields(e@);
    record::lemma_holds_all(v, fields);
    assert(fields[0] == ("transport"@, Item::Uint(if e.transport is WebRtc { 1 } else { 0 })));
    assert(fields[1] == ("ufrag"@, Item::Text(e.ufrag@)));
    assert(fields[2] == ("pwd"@, Item::Text(e.pwd@)));
    assert(fields[3] == ("cert_fp"@, Item::Bytes(e.cert_fp@)));
    if e.member_cap is Some {
        assert(fields[4] == ("member_cap"@, item::record(e.member_cap->0@.fields())));
    }
}

/// What is read: every part of an answer is what stood under its name.
pub proof fn law_answer_read(v: Item, e: AnswerPayload)
    requires
        AnswerModel::read(v) == Ok::<AnswerModel, SignalingFault>(e@),
    ensures
        record::holds(v, "transport"@, Item::Uint(if e.transport is WebRtc { 1 } else { 0 })),
        record::holds(v, "ufrag"@, Item::Text(e.ufrag@)),
        record::holds(v, "pwd"@, Item::Text(e.pwd@)),
        record::holds(v, "cert_fp"@, Item::Bytes(e.cert_fp@)),
{
    let entries = v->Mapping_0;
    record::lemma_found_holds(entries, "transport"@);
    record::lemma_found_holds(entries, "ufrag"@);
    record::lemma_found_holds(entries, "pwd"@);
    record::lemma_found_holds(entries, "cert_fp"@);
}

/// What stands on the wire: an item is the same as an ICE message exactly where it is a map with
/// nothing but these names, and under each of them what the value holds there.
pub proof fn law_ice_wire(v: Item, e: IcePayload)
    requires
        item::keys_unique(v),
    ensures
        item::same_item(v, item::record(e@.fields())) <==> {
            &&& record::is_map_of(v, (1 + (if e.candidate is Some { 1nat } else { 0nat })) as nat)
            &&& record::holds(v, "end_of_candidates"@, Item::Bool(e.end_of_candidates))
            &&& e.candidate is Some ==> record::holds(v, "candidate"@, Item::Text(e.candidate->0@))
        },
        e@.bytes() == item::encoding(item::record(e@.fields())),
{
    let fields = e@.fields();
    lemma_ice_fields(e@);
    record::lemma_holds_all(v, fields);
    if e.candidate is Some {
        assert(fields[0] == ("candidate"@, Item::Text(e.candidate->0@)));
    }
    assert(fields[fields.len() - 1] == ("end_of_candidates"@, Item::Bool(e.end_of_candidates)));
}

/// What is read: every part of an ICE message is what stood under its name.
pub proof fn law_ice_read(v: Item, e: IcePayload)
    requires
        IceModel::read(v) == Ok::<IceModel, SignalingFault>(e@),
    ensures
        record::holds(v, "end_of_candidates"@, Item::Bool(e.end_of_candidates)),
        e.candidate is Some ==> record::holds(v, "candidate"@, Item::Text(e.candidate->0@)),
{
    let entries = v->Mapping_0;
    record::lemma_found_holds(entries, "end_of_candidates"@);
    record::lemma_found_holds(entries, "candidate"@);
}

/// An item without duplicate keys is read as an offer exactly where it is the record of it, up to
/// the order of its entries, and within the limits: nothing is missing, and nothing else is there.
pub proof fn law_offer_values(v: Item, m: OfferModel)
    requires
        item::keys_unique(v),
    ensures
        OfferModel::read(v) == Ok::<OfferModel, SignalingFault>(m)
            <==> encode_utf8(m.inbox).len() <= 256 && encode_utf8(m.ufrag).len() <= 256
            && encode_utf8(m.pwd).len() <= 256 && m.cert_fp.len() == 32 && item::same_item(
            v,
            item::record(m.fields()),
        ),
{
    if let Item::Mapping(entries) = v {
        let fields = m.fields();
        let listed = reader::names(OFFER_FIELDS@);
        lemma_offer_fields(m);
        record::lemma_field_values(fields);
        assert(listed[0] == "inbox"@);
        assert(listed[1] == "transport"@);
        assert(listed[2] == "ufrag"@);
        assert(listed[3] == "pwd"@);
        assert(listed[4] == "cert_fp"@);
        assert(fields[0].0 == "inbox"@);
        assert(fields[1].0 == "transport"@);
        assert(fields[2].0 == "ufrag"@);
        assert(fields[3].0 == "pwd"@);
        assert(fields[4].0 == "cert_fp"@);
        assert(OfferModel::read(v) == Ok::<OfferModel, SignalingFault>(m)
            <==> encode_utf8(m.inbox).len() <= 256 && encode_utf8(m.ufrag).len() <= 256
            && encode_utf8(m.pwd).len() <= 256 && m.cert_fp.len() == 32 && record::stands_for(
            entries,
            fields,
            listed,
        ));
        record::lemma_stands_for(entries, fields, listed);
    }
}

/// An item without duplicate keys is read as an answer exactly where it is the record of it, up to
/// the order of its entries, and within the limits: nothing is missing, and nothing else is there.
pub proof fn law_answer_values(v: Item, m: AnswerModel)
    requires
        item::keys_unique(v),
    ensures
        AnswerModel::read(v) == Ok::<AnswerModel, SignalingFault>(m)
            <==> encode_utf8(m.ufrag).len() <= 256 && encode_utf8(m.pwd).len() <= 256
            && m.cert_fp.len() == 32 && item::same_item(
            v,
            item::record(m.fields()),
        ),
{
    if let Item::Mapping(entries) = v {
        let fields = m.fields();
        let listed = reader::names(ANSWER_FIELDS@);
        lemma_answer_fields(m);
        record::lemma_field_values(fields);
        assert(listed[0] == "transport"@);
        assert(listed[1] == "ufrag"@);
        assert(listed[2] == "pwd"@);
        assert(listed[3] == "cert_fp"@);
        assert(listed[4] == "member_cap"@);
        assert(fields[0].0 == "transport"@);
        assert(fields[1].0 == "ufrag"@);
        assert(fields[2].0 == "pwd"@);
        assert(fields[3].0 == "cert_fp"@);
        match m.member_cap {
            Some(cap) => {
                assert(fields[4].0 == "member_cap"@);
                if let Some(found) = reader::find_field(entries, "member_cap"@) {
                    record::lemma_find_some(entries, "member_cap"@);
                    capability::law_capability_values(found, cap);
                }
            },
            None => {
                assert(record::not_named(fields, "member_cap"@));
            },
        }
        assert(AnswerModel::read(v) == Ok::<AnswerModel, SignalingFault>(m)
            <==> encode_utf8(m.ufrag).len() <= 256 && encode_utf8(m.pwd).len() <= 256
            && m.cert_fp.len() == 32 && record::stands_for(
            entries,
            fields,
            listed,
        ));
        record::lemma_stands_for(entries, fields, listed);
    }
}

/// An item without duplicate keys is read as an ICE message exactly where it is the record of it,
/// up to the order of its entries, and within the limits: nothing is missing, and nothing else is
/// there.
pub proof fn law_ice_values(v: Item, m: IceModel)
    requires
        item::keys_unique(v),
    ensures
        IceModel::read(v) == Ok::<IceModel, SignalingFault>(m) <==> (m.candidate is Some
            ==> encode_utf8(m.candidate->0).len() <= 1024)
            && item::same_item(
            v,
            item::record(m.fields()),
        ),
{
    if let Item::Mapping(entries) = v {
        let fields = m.fields();
        let listed = reader::names(ICE_FIELDS@);
        lemma_ice_fields(m);
        record::lemma_field_values(fields);
        assert(listed[0] == "candidate"@);
        assert(listed[1] == "end_of_candidates"@);
        match m.candidate {
            Some(_) => {
                assert(fields[0].0 == "candidate"@);
                assert(fields[1].0 == "end_of_candidates"@);
            },
            None => {
                assert(fields[0].0 == "end_of_candidates"@);
                assert(record::not_named(fields, "candidate"@));
            },
        }
        assert(IceModel::read(v) == Ok::<IceModel, SignalingFault>(m) <==> (m.candidate is Some
            ==> encode_utf8(m.candidate->0).len() <= 1024)
            && record::stands_for(
            entries,
            fields,
            listed,
        ));
        record::lemma_stands_for(entries, fields, listed);
    }
}

/// A text that is too long, or bytes of the wrong length, are named with their length and the
/// limit.
pub proof fn law_limits_are_named(e: SignalingFault)
    ensures
        e.message() == match e {
            SignalingFault::Proto(f) => f.message(),
            SignalingFault::TooLong { field, max, actual } => "field `"@ + field + "` is "@
                + text::decimal(actual) + " bytes long, exceeding the "@ + text::decimal(max)
                + "-byte cap"@,
            SignalingFault::WrongLength { field, expected, actual } => "field `"@ + field
                + "` is "@ + text::decimal(actual) + " bytes long, expected exactly "@
                + text::decimal(expected),
        },
{
}

/// The numbers of the transports, and that there are no others.
pub proof fn law_transport_numbers(v: u64)
    ensures
        Transport::Quic.code() == 0,
        Transport::of_code(0) == Ok::<Transport, Fault>(Transport::Quic),
        Transport::WebRtc.code() == 1,
        Transport::of_code(1) == Ok::<Transport, Fault>(Transport::WebRtc),
        v >= 2 ==> Transport::of_code(v) == Err::<Transport, Fault>(
            Fault::InvalidEnumValue("transport"@, v),
        ),
{
}

/// An error says the fault of its own kind, of the same field and with the same numbers.
pub proof fn law_error_is_its_fault(e: SignalingError)
    ensures
        match e {
            SignalingError::Proto(p) => e@ == SignalingFault::Proto(p@),
            SignalingError::TooLong { field, max, actual } => e@ matches SignalingFault::TooLong {
                field: f,
                max: m,
                actual: a,
            } && f == field@ && m == max && a == actual,
            SignalingError::WrongLength { field, expected, actual } => e@
                matches SignalingFault::WrongLength { field: f, expected: x, actual: a } && f
                == field@ && x == expected && a == actual,
        },
{
}

/// What is wrong with a field of a message: what is wrong with any field of its type, or, of a text
/// that is too long and of a fingerprint of another length, how long it is and how long it may be.
pub proof fn law_limits_of_fields(entries: Seq<(Item, Item)>, field: Seq<char>, max: usize)
    ensures
        match reader::text_field(entries, field) {
            Err(f) => capped_text_field(entries, field, max) == Err::<Seq<char>, SignalingFault>(
                SignalingFault::Proto(f),
            ),
            Ok(s) => capped_text_field(entries, field, max) == if encode_utf8(s).len() <= max {
                Ok::<Seq<char>, SignalingFault>(s)
            } else {
                Err(
                    SignalingFault::TooLong {
                        field,
                        max: max as nat,
                        actual: encode_utf8(s).len(),
                    },
                )
            },
        },
        match reader::bytes_field(entries, "cert_fp"@) {
            Err(f) => cert_fp_field(entries) == Err::<Seq<u8>, SignalingFault>(
                SignalingFault::Proto(f),
            ),
            Ok(b) => cert_fp_field(entries) == if b.len() == 32 {
                Ok::<Seq<u8>, SignalingFault>(b)
            } else {
                Err(
                    SignalingFault::WrongLength {
                        field: "cert_fp"@,
                        expected: 32,
                        actual: b.len(),
                    },
                )
            },
        },
        match reader::find_field(entries, "candidate"@) {
            None => candidate_field(entries) == Ok::<Option<Seq<char>>, SignalingFault>(None),
            Some(Item::Text(s)) => candidate_field(entries) == if encode_utf8(s).len() <= 1024 {
                Ok::<Option<Seq<char>>, SignalingFault>(Some(s))
            } else {
                Err(
                    SignalingFault::TooLong {
                        field: "candidate"@,
                        max: 1024,
                        actual: encode_utf8(s).len(),
                    },
                )
            },
            Some(_) => candidate_field(entries) == Err::<Option<Seq<char>>, SignalingFault>(
                SignalingFault::Proto(Fault::WrongType("candidate"@)),
            ),
        },
{
}

/// The fields are looked at in this order, once no foreign name is there, and the first that is
/// missing or wrong is the one that is named.
pub proof fn law_offer_first_fault(entries: Seq<(Item, Item)>)
    ensures
        ({
            let r = OfferModel::read(Item::Mapping(entries));
            if let Some(g) = reader::foreign_key(entries, reader::names(OFFER_FIELDS@)) {
                r matches Err(f) && f == SignalingFault::Proto(g)
            } else {
                if capped_text_field(entries, "inbox"@, 256) is Err {
                    r matches Err(f) && f == capped_text_field(entries, "inbox"@, 256)->Err_0
                } else if transport_field(entries) is Err {
                    r matches Err(f) && f == transport_field(entries)->Err_0
                } else if capped_text_field(entries, "ufrag"@, 256) is Err {
                    r matches Err(f) && f == capped_text_field(entries, "ufrag"@, 256)->Err_0
                } else if capped_text_field(entries, "pwd"@, 256) is Err {
                    r matches Err(f) && f == capped_text_field(entries, "pwd"@, 256)->Err_0
                } else if cert_fp_field(entries) is Err {
                    r matches Err(f) && f == cert_fp_field(entries)->Err_0
                } else {
                    r is Ok
                }
            }
        }),
{
}

/// The fields are looked at in this order, once no foreign name is there, and the first that is
/// missing or wrong is the one that is named.
pub proof fn law_answer_first_fault(entries: Seq<(Item, Item)>)
    ensures
        ({
            let r = AnswerModel::read(Item::Mapping(entries));
            if let Some(g) = reader::foreign_key(entries, reader::names(ANSWER_FIELDS@)) {
                r matches Err(f) && f == SignalingFault::Proto(g)
            } else {
                if transport_field(entries) is Err {
                    r matches Err(f) && f == transport_field(entries)->Err_0
                } else if capped_text_field(entries, "ufrag"@, 256) is Err {
                    r matches Err(f) && f == capped_text_field(entries, "ufrag"@, 256)->Err_0
                } else if capped_text_field(entries, "pwd"@, 256) is Err {
                    r matches Err(f) && f == capped_text_field(entries, "pwd"@, 256)->Err_0
                } else if cert_fp_field(entries) is Err {
                    r matches Err(f) && f == cert_fp_field(entries)->Err_0
                } else if member_cap_field(entries) is Err {
                    r matches Err(f) && f == member_cap_field(entries)->Err_0
                } else {
                    r is Ok
                }
            }
        }),
{
}

/// The fields are looked at in this order, once no foreign name is there, and the first that is
/// missing or wrong is the one that is named.
pub proof fn law_ice_first_fault(entries: Seq<(Item, Item)>)
    ensures
        ({
            let r = IceModel::read(Item::Mapping(entries));
            if let Some(g) = reader::foreign_key(entries, reader::names(ICE_FIELDS@)) {
                r matches Err(f) && f == SignalingFault::Proto(g)
            } else {
                if candidate_field(entries) is Err {
                    r matches Err(f) && f == candidate_field(entries)->Err_0
                } else if reader::bool_field(entries, "end_of_candidates"@) is Err {
                    r matches Err(f) && f == SignalingFault::Proto(reader::bool_field(entries,
                        "end_of_candidates"@)->Err_0)
                } else {
                    r is Ok
                }
            }
        }),
{
}

} // verus!
