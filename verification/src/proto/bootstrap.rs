//! The device bootstrap bundle: what a new device is handed when it joins by scanning a QR code.
//!
//! The bundle is not signed. It travels over the same local channel that conveys the root identity,
//! and the one field that bears weight, `member_cap`, verifies on its own. It must not be sent over
//! any other channel. Neither the host's nor the device's fingerprint is carried: both are derived
//! from the keys, so no field of an entry can disagree with another.
use crate::proto::artifacts::capability;
use crate::proto::artifacts::capability::{Capability, CapabilityModel};
use crate::proto::canonical;
use crate::proto::canonical::{
    canonical_decode, canonical_encode, CborError, CborValue, MAX_NESTING_DEPTH,
};
use crate::proto::item;
use crate::proto::item::Item;
use crate::proto::reader;
use crate::proto::reader::{Fault, MapReader, ProtoError};
use crate::proto::record;
use crate::proto::roundtrip;
use crate::text;
use vstd::prelude::*;
use vstd::utf8::encode_utf8;

verus! {

/// The lowest `v` that a consumer should accept. Decoding carries `v` without judging it.
pub const BUNDLE_MIN_V: u8 = 1;

/// The `v` of the bundles that are made.
pub const BUNDLE_CURRENT_V: u8 = 1;

/// Longest `registry`, in bytes.
pub const MAX_REGISTRY_LEN: usize = 256;

/// The most entries in one bundle.
pub const MAX_BUNDLE_ENTRIES: usize = 32;

/// Bytes that a QR code of version 40 holds at error correction level L (ISO/IEC 18004).
pub const QR_V40_L_CAPACITY_BYTES: usize = 2953;

/// Bytes that a QR code of version 40 holds at error correction level M (ISO/IEC 18004).
pub const QR_V40_M_CAPACITY_BYTES: usize = 2331;

/// What one entry takes with real keys, times and a nonce of 32 bytes: 424 bytes of capability and
/// two keys of 32 bytes. A figure for planning; a fit check measures the bundle itself.
pub const MEASURED_ENTRY_BYTES: usize = 521;

/// Errors of the conversion from CBOR items and bytes to bootstrap bundles. No message quotes the
/// registry or an entry.
#[derive(Debug, Clone, PartialEq, Eq)]
pub enum BundleWireError {
    /// Every rejection that all wire types share.
    Proto(ProtoError),
    /// `registry` is longer, in bytes, than its cap.
    RegistryTooLong { max: usize, actual: usize },
    /// There are more entries than the cap allows.
    TooManyEntries { max: usize, actual: usize },
}

/// What a [`BundleWireError`] reports.
pub enum BundleFault {
    Proto(Fault),
    RegistryTooLong { max: nat, actual: nat },
    TooManyEntries { max: nat, actual: nat },
}

impl View for BundleWireError {
    type V = BundleFault;

    open spec fn view(&self) -> BundleFault {
        match *self {
            BundleWireError::Proto(e) => BundleFault::Proto(e@),
            BundleWireError::RegistryTooLong { max, actual } => BundleFault::RegistryTooLong {
                max: max as nat,
                actual: actual as nat,
            },
            BundleWireError::TooManyEntries { max, actual } => BundleFault::TooManyEntries {
                max: max as nat,
                actual: actual as nat,
            },
        }
    }
}

impl BundleFault {
    /// The message of the error.
    pub open spec fn message(self) -> Seq<char> {
        match self {
            BundleFault::Proto(f) => f.message(),
            BundleFault::RegistryTooLong { max, actual } => "field `registry` is "@
                + text::decimal(actual) + " bytes long, exceeding the "@ + text::decimal(max)
                + "-byte cap"@,
            BundleFault::TooManyEntries { max, actual } => "bundle has "@ + text::decimal(actual)
                + " entries, exceeding the "@ + text::decimal(max) + "-entry cap"@,
        }
    }

    /// The message with everything that a peer chose replaced by its size.
    pub open spec fn redacted_message(self) -> Seq<char> {
        match self {
            BundleFault::Proto(f) => f.redacted_message(),
            _ => self.message(),
        }
    }
}

impl BundleWireError {
    /// The message of the error.
    pub fn to_string(&self) -> (message: String)
        ensures
            message@ == self@.message(),
    {
        match self {
            BundleWireError::Proto(e) => e.to_string(),
            BundleWireError::RegistryTooLong { max, actual } => {
                let mut message = text::around(
                    "field `registry` is ",
                    *actual as u64,
                    " bytes long, exceeding the ",
                );
                text::push_decimal(&mut message, *max as u64);
                message.append("-byte cap");
                message
            },
            BundleWireError::TooManyEntries { max, actual } => {
                let mut message = text::around(
                    "bundle has ",
                    *actual as u64,
                    " entries, exceeding the ",
                );
                text::push_decimal(&mut message, *max as u64);
                message.append("-entry cap");
                message
            },
        }
    }

    /// The error for use in logs, where nothing that a peer chose may appear.
    pub fn redacted(&self) -> (view: RedactedBundleWireError<'_>)
        ensures
            view.0@ == self@,
    {
        RedactedBundleWireError(self)
    }
}

/// A [`BundleWireError`] whose message replaces everything that a peer chose by its size.
#[derive(Debug, Clone, Copy)]
pub struct RedactedBundleWireError<'a>(pub &'a BundleWireError);

impl<'a> RedactedBundleWireError<'a> {
    /// The message of the error.
    pub fn to_string(&self) -> (message: String)
        ensures
            message@ == self.0@.redacted_message(),
    {
        match self.0 {
            BundleWireError::Proto(e) => e.redacted().to_string(),
            _ => self.0.to_string(),
        }
    }
}

impl From<ProtoError> for BundleWireError {
    fn from(e: ProtoError) -> (r: Self) {
        BundleWireError::Proto(e)
    }
}

impl vstd::std_specs::convert::FromSpecImpl<ProtoError> for BundleWireError {
    open spec fn obeys_from_spec() -> bool {
        true
    }

    open spec fn from_spec(e: ProtoError) -> BundleWireError {
        BundleWireError::Proto(e)
    }
}

impl From<CborError> for BundleWireError {
    fn from(e: CborError) -> (r: Self) {
        BundleWireError::Proto(ProtoError::Cbor(e))
    }
}

impl vstd::std_specs::convert::FromSpecImpl<CborError> for BundleWireError {
    open spec fn obeys_from_spec() -> bool {
        true
    }

    open spec fn from_spec(e: CborError) -> BundleWireError {
        BundleWireError::Proto(ProtoError::Cbor(e))
    }
}

/// A result of the shared reader with its fault as a bundle fault.
pub open spec fn lift<T>(r: Result<T, Fault>) -> Result<T, BundleFault> {
    match r {
        Ok(v) => Ok(v),
        Err(f) => Err(BundleFault::Proto(f)),
    }
}

/// A result with its value taken by its view and its error as a fault.
pub open spec fn seen<T: View>(r: Result<T, BundleWireError>) -> Result<T::V, BundleFault> {
    match r {
        Ok(v) => Ok(v@),
        Err(e) => Err(e@),
    }
}

// ---- one entry ----

/// `{sign_pk, agree_pk, member_cap}`: a host's envelope keys and the capability that makes the
/// device's owner a member there.
#[derive(Debug, Clone, PartialEq, Eq)]
pub struct BundleEntry {
    /// The host's envelope verifying key.
    pub sign_pk: Vec<u8>,
    /// The host's envelope agreement key.
    pub agree_pk: Vec<u8>,
    /// The membership capability, as a nested map.
    pub member_cap: Capability,
}

/// The field names of an entry. No fingerprint is among them.
pub const BUNDLE_ENTRY_FIELDS: [&'static str; 3] = ["sign_pk", "agree_pk", "member_cap"];

/// The contents of an entry.
pub struct BundleEntryModel {
    pub sign_pk: Seq<u8>,
    pub agree_pk: Seq<u8>,
    pub member_cap: CapabilityModel,
}

impl View for BundleEntry {
    type V = BundleEntryModel;

    open spec fn view(&self) -> BundleEntryModel {
        BundleEntryModel {
            sign_pk: self.sign_pk@,
            agree_pk: self.agree_pk@,
            member_cap: self.member_cap@,
        }
    }
}

/// The capability in the mandatory `member_cap` field.
pub open spec fn member_cap_field(m: Seq<(Item, Item)>) -> Result<CapabilityModel, Fault> {
    match reader::required(m, "member_cap"@) {
        Err(f) => Err(f),
        Ok(value) => CapabilityModel::read(value),
    }
}

impl BundleEntryModel {
    /// All fields.
    pub open spec fn fields(self) -> Seq<(Seq<char>, Item)> {
        seq![
            ("sign_pk"@, Item::Bytes(self.sign_pk)),
            ("agree_pk"@, Item::Bytes(self.agree_pk)),
            ("member_cap"@, item::record(self.member_cap.fields())),
        ]
    }

    /// The canonical bytes of the entry.
    pub open spec fn bytes(self) -> Seq<u8> {
        item::encoding(item::record(self.fields()))
    }

    /// The entry that an item stands for.
    pub open spec fn read(item: Item) -> Result<BundleEntryModel, Fault> {
        match reader::closed_map(item, reader::names(BUNDLE_ENTRY_FIELDS@)) {
            Err(f) => Err(f),
            Ok(m) => {
                let sign_pk = reader::bytes_field(m, "sign_pk"@);
                let agree_pk = reader::bytes_field(m, "agree_pk"@);
                let member_cap = member_cap_field(m);
                let found = reader::fault(sign_pk);
                let found = reader::first(found, reader::fault(agree_pk));
                let found = reader::first(found, reader::fault(member_cap));
                reader::unless(
                    found,
                    BundleEntryModel {
                        sign_pk: sign_pk->Ok_0,
                        agree_pk: agree_pk->Ok_0,
                        member_cap: member_cap->Ok_0,
                    },
                )
            },
        }
    }

    /// The entry that canonical bytes stand for.
    pub open spec fn parse(bytes: Seq<u8>) -> Result<BundleEntryModel, Fault> {
        match canonical::decoding(bytes) {
            Err(e) => Err(Fault::Cbor(e)),
            Ok(item) => BundleEntryModel::read(item),
        }
    }
}

proof fn lemma_entry_fields(m: BundleEntryModel)
    ensures
        record::names_distinct(m.fields()),
        record::values_unique(m.fields()),
        record::values_nest(m.fields(), 1),
        record::values_nest(m.fields(), MAX_NESTING_DEPTH - 1),
        record::names_among(m.fields(), reader::names(BUNDLE_ENTRY_FIELDS@)),
{
    reveal_strlit("sign_pk");
    reveal_strlit("agree_pk");
    reveal_strlit("member_cap");
    assert("sign_pk"@.len() == 7);
    assert("agree_pk"@.len() == 8);
    assert("member_cap"@.len() == 10);
    let listed = reader::names(BUNDLE_ENTRY_FIELDS@);
    let fields = m.fields();
    assert forall|i: int| 0 <= i < fields.len() implies listed.contains((#[trigger] fields[i]).0) by {
        assert(fields[i].0 == listed[i]);
    }
    capability::lemma_record_of(m.member_cap);
    item::lemma_nests_more(item::record(m.member_cap.fields()), 1, MAX_NESTING_DEPTH - 1);
}

/// Reads an entry; every error is one that all wire types share.
fn read_entry(v: &CborValue) -> (r: Result<BundleEntry, ProtoError>)
    ensures
        reader::seen(r) == BundleEntryModel::read(v@),
{
    let m = MapReader::new(v)?;
    m.deny_unknown_fields(BUNDLE_ENTRY_FIELDS.as_slice())?;
    Ok(
        BundleEntry {
            sign_pk: m.bytes("sign_pk")?,
            agree_pk: m.bytes("agree_pk")?,
            member_cap: Capability::from_cbor(m.require("member_cap")?)?,
        },
    )
}

impl BundleEntry {
    pub fn to_cbor(&self) -> (value: CborValue)
        ensures
            value@ == item::record(self@.fields()),
    {
        let entries: Vec<(&'static str, CborValue)> = vec![
            ("sign_pk", CborValue::bytes(self.sign_pk.as_slice())),
            ("agree_pk", CborValue::bytes(self.agree_pk.as_slice())),
            ("member_cap", self.member_cap.to_cbor()),
        ];
        assert(canonical::fields_of(entries@) =~= self@.fields());
        CborValue::map(entries)
    }

    pub fn to_canonical_bytes(&self) -> (bytes: Vec<u8>)
        ensures
            bytes@ == self@.bytes(),
            item::lengths_fit(item::record(self@.fields())),
    {
        proof {
            lemma_entry_fields(self@);
            record::lemma_record_unique(self@.fields());
        }
        canonical_encode(&self.to_cbor())
    }

    pub fn from_cbor(v: &CborValue) -> (r: Result<Self, BundleWireError>)
        ensures
            seen(r) == lift(BundleEntryModel::read(v@)),
    {
        match read_entry(v) {
            Ok(entry) => Ok(entry),
            Err(e) => Err(BundleWireError::Proto(e)),
        }
    }

    pub fn from_canonical_bytes(bytes: &[u8]) -> (r: Result<Self, BundleWireError>)
        ensures
            seen(r) == lift(BundleEntryModel::parse(bytes@)),
    {
        match canonical_decode(bytes) {
            Ok(value) => Self::from_cbor(&value),
            Err(e) => Err(BundleWireError::Proto(ProtoError::Cbor(e))),
        }
    }
}

/// The record of an entry is well formed, nests two levels deep, and is read back as the entry.
proof fn lemma_record_of(m: BundleEntryModel)
    ensures
        item::keys_unique(item::record(m.fields())),
        item::nests_within(item::record(m.fields()), 2),
        BundleEntryModel::read(item::canonical_form(item::record(m.fields()))) == Ok::<
            BundleEntryModel,
            Fault,
        >(m),
{
    let fields = m.fields();
    lemma_entry_fields(m);
    record::lemma_record_unique(fields);
    record::lemma_record_nests(fields, 2);
    let entries = record::lemma_canonical_record_closed(
        fields,
        reader::names(BUNDLE_ENTRY_FIELDS@),
    );
    assert(fields[0].0 == "sign_pk"@);
    assert(fields[1].0 == "agree_pk"@);
    assert(fields[2].0 == "member_cap"@);
    capability::lemma_record_of(m.member_cap);
    assert(BundleEntryModel::read(Item::Mapping(entries)) == Ok::<BundleEntryModel, Fault>(m));
}

/// An item in canonical order that is read as an entry is the canonical form of its record.
proof fn lemma_item_of(item: Item)
    requires
        item::in_order(item),
    ensures
        BundleEntryModel::read(item) matches Ok(m) ==> item::canonical_form(
            item::record(m.fields()),
        ) == item,
{
    if let Ok(m) = BundleEntryModel::read(item) {
        let entries = item->Mapping_0;
        let fields = m.fields();
        lemma_entry_fields(m);
        record::lemma_found_in_order(entries, "member_cap"@);
        capability::lemma_item_of(reader::find_field(entries, "member_cap"@)->Some_0);
        assert(fields[0].0 == "sign_pk"@);
        assert(fields[1].0 == "agree_pk"@);
        assert(fields[2].0 == "member_cap"@);
        assert(record::agrees(entries, fields, "sign_pk"@));
        assert(record::agrees(entries, fields, "agree_pk"@));
        assert(record::agrees(entries, fields, "member_cap"@));
        record::lemma_record_rebuilt(entries, fields, reader::names(BUNDLE_ENTRY_FIELDS@));
    }
}

/// Parsing the canonical bytes of an entry gives the entry back.
pub proof fn law_bundle_entry_round_trip(m: BundleEntryModel)
    requires
        item::lengths_fit(item::record(m.fields())),
    ensures
        BundleEntryModel::parse(m.bytes()) == Ok::<BundleEntryModel, Fault>(m),
{
    lemma_record_of(m);
    lemma_entry_fields(m);
    record::lemma_record_nests(m.fields(), MAX_NESTING_DEPTH as int);
    roundtrip::law_decode_of_encode(item::record(m.fields()));
}

/// Bytes that parse as an entry are its canonical bytes: it has one encoding only.
pub proof fn law_bundle_entry_unique_bytes(bytes: Seq<u8>)
    ensures
        BundleEntryModel::parse(bytes) matches Ok(m) ==> m.bytes() == bytes && item::lengths_fit(
            item::record(m.fields()),
        ),
{
    if let Ok(m) = BundleEntryModel::parse(bytes) {
        roundtrip::law_encode_of_decode(bytes);
        lemma_item_of(canonical::decoding(bytes)->Ok_0);
        lemma_record_of(m);
        roundtrip::lemma_canonical_form_fits(item::record(m.fields()));
        roundtrip::law_canonical_form_same_bytes(item::record(m.fields()));
    }
}

// ---- lists of entries ----

/// The contents of each entry of a list.
pub open spec fn models(list: Seq<BundleEntry>) -> Seq<BundleEntryModel> {
    Seq::new(list.len(), |i: int| list[i]@)
}

/// The array that a list of entries is encoded as.
pub open spec fn list_item(list: Seq<BundleEntryModel>) -> Item {
    Item::Array(Seq::new(list.len(), |i: int| item::record(list[i].fields())))
}

/// The entries that an array stands for, or what is wrong with the first that stands for none.
pub open spec fn read_list(items: Seq<Item>) -> Result<Seq<BundleEntryModel>, Fault>
    decreases items.len(),
{
    if items.len() == 0 {
        Ok(Seq::empty())
    } else {
        match read_list(items.drop_last()) {
            Err(f) => Err(f),
            Ok(list) => match BundleEntryModel::read(items.last()) {
                Err(f) => Err(f),
                Ok(entry) => Ok(list.push(entry)),
            },
        }
    }
}

/// A fault in the first items of an array is the fault of the array.
proof fn lemma_first_fault(items: Seq<Item>, n: int)
    requires
        0 <= n <= items.len(),
        read_list(items.take(n)) is Err,
    ensures
        read_list(items) == read_list(items.take(n)),
    decreases items.len() - n,
{
    if n < items.len() {
        let more = items.take(n + 1);
        assert(more.drop_last() =~= items.take(n));
        lemma_first_fault(items, n + 1);
    } else {
        assert(items.take(n) =~= items);
    }
}

/// The array of the entries of a list.
fn entries_to_cbor(list: &Vec<BundleEntry>) -> (value: CborValue)
    ensures
        value@ == list_item(models(list@)),
{
    let mut values: Vec<CborValue> = Vec::new();
    let total: usize = list.len();
    let mut i: usize = 0;
    while i < total
        invariant
            i <= total == list@.len(),
            values@.len() == i,
            forall|j: int|
                0 <= j < i ==> (#[trigger] values@[j])@ == item::record(list@[j]@.fields()),
        decreases total - i,
    {
        values.push(list[i].to_cbor());
        i += 1;
    }
    assert(canonical::items_of(values@) =~= Seq::new(
        models(list@).len(),
        |j: int| item::record(models(list@)[j].fields()),
    ));
    CborValue::array(values)
}

/// Reads a list of entries.
fn entries_from_cbor(values: &[CborValue]) -> (r: Result<Vec<BundleEntry>, ProtoError>)
    ensures
        match r {
            Ok(list) => read_list(canonical::items_of(values@)) == Ok::<
                Seq<BundleEntryModel>,
                Fault,
            >(models(list@)),
            Err(e) => read_list(canonical::items_of(values@)) == Err::<
                Seq<BundleEntryModel>,
                Fault,
            >(e@),
        },
{
    let ghost items = canonical::items_of(values@);
    let mut list: Vec<BundleEntry> = Vec::new();
    let total: usize = values.len();
    let mut i: usize = 0;
    assert(models(list@) =~= Seq::empty());
    while i < total
        invariant
            i <= total == values@.len(),
            items == canonical::items_of(values@),
            read_list(items.take(i as int)) == Ok::<Seq<BundleEntryModel>, Fault>(models(list@)),
        decreases total - i,
    {
        let ghost more = items.take(i + 1);
        assert(more.drop_last() =~= items.take(i as int));
        assert(more.last() == values@[i as int]@);
        match read_entry(&values[i]) {
            Ok(entry) => {
                let ghost before = models(list@);
                list.push(entry);
                assert(models(list@) =~= before.push(entry@));
            },
            Err(e) => {
                proof {
                    lemma_first_fault(items, i + 1);
                }
                return Err(e);
            },
        }
        i += 1;
    }
    assert(items.take(total as int) =~= items);
    Ok(list)
}

proof fn lemma_read_list(list: Seq<BundleEntryModel>, items: Seq<Item>)
    requires
        items.len() == list.len(),
        forall|i: int|
            0 <= i < items.len() ==> #[trigger] items[i] == item::canonical_form(
                item::record(list[i].fields()),
            ),
    ensures
        read_list(items) == Ok::<Seq<BundleEntryModel>, Fault>(list),
    decreases list.len(),
{
    if list.len() > 0 {
        let front = list.drop_last();
        assert forall|i: int| 0 <= i < items.drop_last().len() implies (
        #[trigger] items.drop_last()[i]) == item::canonical_form(item::record(front[i].fields())) by {
            assert(items[i] == item::canonical_form(item::record(list[i].fields())));
        }
        lemma_read_list(front, items.drop_last());
        lemma_record_of(list.last());
        assert(items.last() == item::canonical_form(item::record(list.last().fields())));
        assert(front.push(list.last()) =~= list);
    } else {
        assert(list =~= Seq::empty());
    }
}

/// The array of a list of entries is well formed, nests three levels deep, and is read back as the
/// list.
proof fn lemma_list_item(list: Seq<BundleEntryModel>)
    ensures
        item::keys_unique(list_item(list)),
        item::nests_within(list_item(list), 3),
        item::canonical_form(list_item(list)) is Array,
        item::canonical_form(list_item(list))->Array_0.len() == list.len(),
        read_list(item::canonical_form(list_item(list))->Array_0) == Ok::<
            Seq<BundleEntryModel>,
            Fault,
        >(list),
{
    let items = list_item(list)->Array_0;
    assert forall|i: int| 0 <= i < items.len() implies item::keys_unique(#[trigger] items[i])
        && item::nests_within(items[i], 2) by {
        lemma_record_of(list[i]);
    }
    item::lemma_canonical_items(items);
    lemma_read_list(list, item::canonical_items(items));
}

proof fn lemma_read_each(items: Seq<Item>)
    ensures
        read_list(items) matches Ok(list) ==> list.len() == items.len() && forall|i: int|
            0 <= i < items.len() ==> BundleEntryModel::read(#[trigger] items[i]) == Ok::<
                BundleEntryModel,
                Fault,
            >(list[i]),
    decreases items.len(),
{
    if items.len() > 0 {
        lemma_read_each(items.drop_last());
        if let Ok(list) = read_list(items) {
            assert forall|i: int| 0 <= i < items.len() implies BundleEntryModel::read(
                #[trigger] items[i],
            ) == Ok::<BundleEntryModel, Fault>(list[i]) by {
                if i < items.len() - 1 {
                    assert(items.drop_last()[i] == items[i]);
                }
            }
        }
    }
}

/// An array in canonical order that is read as a list of entries is the canonical form of the
/// array of the list.
proof fn lemma_items_of(items: Seq<Item>)
    requires
        item::in_order(Item::Array(items)),
    ensures
        read_list(items) matches Ok(list) ==> list.len() == items.len() && item::canonical_form(
            list_item(list),
        ) == Item::Array(items),
{
    if let Ok(list) = read_list(items) {
        lemma_read_each(items);
        let written = list_item(list)->Array_0;
        item::lemma_canonical_items(written);
        assert forall|i: int| 0 <= i < items.len() implies item::canonical_items(written)[i]
            == #[trigger] items[i] by {
            assert(item::in_order(items[i]));
            lemma_item_of(items[i]);
            assert(written[i] == item::record(list[i].fields()));
        }
        assert(item::canonical_items(written) =~= items);
    }
}

// ---- the bundle ----

/// A registry endpoint and one entry for each host that the primary device belongs to.
#[derive(Debug, Clone, PartialEq, Eq)]
pub struct DeviceBootstrapBundle {
    /// The version of the bundle, carried without judging it.
    pub v: u8,
    /// The registry endpoint, at most [`MAX_REGISTRY_LEN`] bytes.
    pub registry: String,
    /// At most [`MAX_BUNDLE_ENTRIES`] entries.
    pub entries: Vec<BundleEntry>,
}

/// The field names of a bundle.
pub const BUNDLE_FIELDS: [&'static str; 3] = ["v", "registry", "entries"];

/// The contents of a bundle.
pub struct BundleModel {
    pub v: u8,
    pub registry: Seq<char>,
    pub entries: Seq<BundleEntryModel>,
}

impl View for DeviceBootstrapBundle {
    type V = BundleModel;

    open spec fn view(&self) -> BundleModel {
        BundleModel { v: self.v, registry: self.registry@, entries: models(self.entries@) }
    }
}

/// The registry in the `registry` field.
pub open spec fn registry_field(m: Seq<(Item, Item)>) -> Result<Seq<char>, BundleFault> {
    match reader::text_field(m, "registry"@) {
        Err(f) => Err(BundleFault::Proto(f)),
        Ok(s) => if encode_utf8(s).len() > MAX_REGISTRY_LEN {
            Err(
                BundleFault::RegistryTooLong {
                    max: MAX_REGISTRY_LEN as nat,
                    actual: encode_utf8(s).len(),
                },
            )
        } else {
            Ok(s)
        },
    }
}

/// The entries in the `entries` field. Their number is judged before any of them is read.
pub open spec fn entries_field(m: Seq<(Item, Item)>) -> Result<
    Seq<BundleEntryModel>,
    BundleFault,
> {
    match reader::array_field(m, "entries"@) {
        Err(f) => Err(BundleFault::Proto(f)),
        Ok(items) => if items.len() > MAX_BUNDLE_ENTRIES {
            Err(
                BundleFault::TooManyEntries {
                    max: MAX_BUNDLE_ENTRIES as nat,
                    actual: items.len(),
                },
            )
        } else {
            lift(read_list(items))
        },
    }
}

impl BundleModel {
    /// The registry and the number of entries are within their caps.
    pub open spec fn valid(self) -> bool {
        &&& encode_utf8(self.registry).len() <= MAX_REGISTRY_LEN
        &&& self.entries.len() <= MAX_BUNDLE_ENTRIES
    }

    /// All fields.
    pub open spec fn fields(self) -> Seq<(Seq<char>, Item)> {
        seq![
            ("v"@, Item::Uint(self.v as u64)),
            ("registry"@, Item::Text(self.registry)),
            ("entries"@, list_item(self.entries)),
        ]
    }

    /// The canonical bytes of the bundle.
    pub open spec fn bytes(self) -> Seq<u8> {
        item::encoding(item::record(self.fields()))
    }

    /// The bundle that an item stands for.
    pub open spec fn read(item: Item) -> Result<BundleModel, BundleFault> {
        match lift(reader::closed_map(item, reader::names(BUNDLE_FIELDS@))) {
            Err(f) => Err(f),
            Ok(m) => {
                let v = lift(reader::u8_field(m, "v"@));
                let registry = registry_field(m);
                let entries = entries_field(m);
                let found = reader::fault(v);
                let found = reader::first(found, reader::fault(registry));
                let found = reader::first(found, reader::fault(entries));
                reader::unless(
                    found,
                    BundleModel {
                        v: v->Ok_0,
                        registry: registry->Ok_0,
                        entries: entries->Ok_0,
                    },
                )
            },
        }
    }

    /// The bundle that canonical bytes stand for.
    pub open spec fn parse(bytes: Seq<u8>) -> Result<BundleModel, BundleFault> {
        match canonical::decoding(bytes) {
            Err(e) => Err(BundleFault::Proto(Fault::Cbor(e))),
            Ok(item) => BundleModel::read(item),
        }
    }
}

proof fn lemma_bundle_fields(m: BundleModel)
    ensures
        record::names_distinct(m.fields()),
        record::values_unique(m.fields()),
        record::values_nest(m.fields(), MAX_NESTING_DEPTH - 1),
        record::names_among(m.fields(), reader::names(BUNDLE_FIELDS@)),
{
    reveal_strlit("v");
    reveal_strlit("registry");
    reveal_strlit("entries");
    assert("v"@.len() == 1);
    assert("registry"@.len() == 8);
    assert("entries"@.len() == 7);
    let listed = reader::names(BUNDLE_FIELDS@);
    let fields = m.fields();
    assert forall|i: int| 0 <= i < fields.len() implies listed.contains((#[trigger] fields[i]).0) by {
        assert(fields[i].0 == listed[i]);
    }
    lemma_list_item(m.entries);
    item::lemma_nests_more(list_item(m.entries), 3, MAX_NESTING_DEPTH - 1);
}

impl DeviceBootstrapBundle {
    pub fn to_cbor(&self) -> (value: CborValue)
        ensures
            value@ == item::record(self@.fields()),
    {
        let entries: Vec<(&'static str, CborValue)> = vec![
            ("v", CborValue::uint(self.v as u64)),
            ("registry", CborValue::text(self.registry.as_str())),
            ("entries", entries_to_cbor(&self.entries)),
        ];
        assert(canonical::fields_of(entries@) =~= self@.fields());
        CborValue::map(entries)
    }

    pub fn to_canonical_bytes(&self) -> (bytes: Vec<u8>)
        ensures
            bytes@ == self@.bytes(),
            item::lengths_fit(item::record(self@.fields())),
    {
        proof {
            lemma_bundle_fields(self@);
            record::lemma_record_unique(self@.fields());
        }
        canonical_encode(&self.to_cbor())
    }

    pub fn from_cbor(v: &CborValue) -> (r: Result<Self, BundleWireError>)
        ensures
            seen(r) == BundleModel::read(v@),
    {
        let m = match MapReader::new(v) {
            Ok(m) => m,
            Err(e) => {
                return Err(BundleWireError::Proto(e));
            },
        };
        if let Err(e) = m.deny_unknown_fields(BUNDLE_FIELDS.as_slice()) {
            return Err(BundleWireError::Proto(e));
        }
        let version: u8 = match m.u8("v") {
            Ok(version) => version,
            Err(e) => {
                return Err(BundleWireError::Proto(e));
            },
        };
        let registry = match m.text("registry") {
            Ok(registry) => registry,
            Err(e) => {
                return Err(BundleWireError::Proto(e));
            },
        };
        let registry_len: usize = registry.as_str().as_bytes().len();
        if registry_len > MAX_REGISTRY_LEN {
            return Err(
                BundleWireError::RegistryTooLong { max: MAX_REGISTRY_LEN, actual: registry_len },
            );
        }
        let raw_entries = match m.array("entries") {
            Ok(raw_entries) => raw_entries,
            Err(e) => {
                return Err(BundleWireError::Proto(e));
            },
        };
        let count: usize = raw_entries.len();
        if count > MAX_BUNDLE_ENTRIES {
            return Err(BundleWireError::TooManyEntries { max: MAX_BUNDLE_ENTRIES, actual: count });
        }
        match entries_from_cbor(raw_entries) {
            Ok(entries) => Ok(DeviceBootstrapBundle { v: version, registry, entries }),
            Err(e) => Err(BundleWireError::Proto(e)),
        }
    }

    pub fn from_canonical_bytes(bytes: &[u8]) -> (r: Result<Self, BundleWireError>)
        ensures
            seen(r) == BundleModel::parse(bytes@),
    {
        match canonical_decode(bytes) {
            Ok(value) => Self::from_cbor(&value),
            Err(e) => Err(BundleWireError::Proto(ProtoError::Cbor(e))),
        }
    }
}

/// Parsing the canonical bytes of a bundle within the caps gives the bundle back.
pub proof fn law_bundle_round_trip(m: BundleModel)
    requires
        m.valid(),
        item::lengths_fit(item::record(m.fields())),
    ensures
        BundleModel::parse(m.bytes()) == Ok::<BundleModel, BundleFault>(m),
{
    let fields = m.fields();
    lemma_bundle_fields(m);
    record::lemma_record_unique(fields);
    record::lemma_record_nests(fields, MAX_NESTING_DEPTH as int);
    roundtrip::law_decode_of_encode(item::record(fields));
    let entries = record::lemma_canonical_record_closed(fields, reader::names(BUNDLE_FIELDS@));
    assert(fields[0].0 == "v"@);
    assert(fields[1].0 == "registry"@);
    assert(fields[2].0 == "entries"@);
    lemma_list_item(m.entries);
    assert(BundleModel::read(Item::Mapping(entries)) == Ok::<BundleModel, BundleFault>(m));
}

/// Bytes that parse as a bundle are its canonical bytes, and the bundle is within the caps.
pub proof fn law_bundle_unique_bytes(bytes: Seq<u8>)
    ensures
        BundleModel::parse(bytes) matches Ok(m) ==> m.bytes() == bytes && m.valid()
            && item::lengths_fit(item::record(m.fields())),
{
    if let Ok(m) = BundleModel::parse(bytes) {
        roundtrip::law_encode_of_decode(bytes);
        let entries = canonical::decoding(bytes)->Ok_0->Mapping_0;
        let fields = m.fields();
        lemma_bundle_fields(m);
        record::lemma_found_in_order(entries, "entries"@);
        lemma_items_of(reader::array_field(entries, "entries"@)->Ok_0);
        assert(fields[0].0 == "v"@);
        assert(fields[1].0 == "registry"@);
        assert(fields[2].0 == "entries"@);
        assert(record::agrees(entries, fields, "v"@));
        assert(record::agrees(entries, fields, "registry"@));
        assert(record::agrees(entries, fields, "entries"@));
        record::lemma_record_rebuilt(entries, fields, reader::names(BUNDLE_FIELDS@));
        record::lemma_record_unique(fields);
        roundtrip::lemma_canonical_form_fits(item::record(fields));
        roundtrip::law_canonical_form_same_bytes(item::record(fields));
    }
}

// ---- the names on the wire ----

/// What stands on the wire: an item is the same as an entry of a bundle exactly where it is a map
/// with nothing but these names, and under each of them what the value holds there.
pub proof fn law_bundle_entry_wire(v: Item, e: BundleEntry)
    requires
        item::keys_unique(v),
    ensures
        item::same_item(v, item::record(e@.fields())) <==> {
            &&& record::is_map_of(v, 3)
            &&& record::holds(v, "sign_pk"@, Item::Bytes(e.sign_pk@))
            &&& record::holds(v, "agree_pk"@, Item::Bytes(e.agree_pk@))
            &&& record::holds(v, "member_cap"@, item::record(e.member_cap@.fields()))
        },
        e@.bytes() == item::encoding(item::record(e@.fields())),
{
    let fields = e@.fields();
    lemma_entry_fields(e@);
    record::lemma_holds_all(v, fields);
    assert(fields[0] == ("sign_pk"@, Item::Bytes(e.sign_pk@)));
    assert(fields[1] == ("agree_pk"@, Item::Bytes(e.agree_pk@)));
    assert(fields[2] == ("member_cap"@, item::record(e.member_cap@.fields())));
}

/// What is read: every part of an entry of a bundle is what stood under its name.
pub proof fn law_bundle_entry_read(v: Item, e: BundleEntry)
    requires
        BundleEntryModel::read(v) == Ok::<BundleEntryModel, Fault>(e@),
    ensures
        record::holds(v, "sign_pk"@, Item::Bytes(e.sign_pk@)),
        record::holds(v, "agree_pk"@, Item::Bytes(e.agree_pk@)),
        exists|cap: Item| #[trigger]
            record::holds(v, "member_cap"@, cap) && CapabilityModel::read(cap) == Ok::<
                CapabilityModel,
                Fault,
            >(e.member_cap@),
{
    let entries = v->Mapping_0;
    record::lemma_found_holds(entries, "sign_pk"@);
    record::lemma_found_holds(entries, "agree_pk"@);
    record::lemma_found_holds(entries, "member_cap"@);
}

/// What stands on the wire: an item is the same as a bundle exactly where it is a map with nothing
/// but these names, and under each of them what the value holds there.
pub proof fn law_bundle_wire(v: Item, e: DeviceBootstrapBundle)
    requires
        item::keys_unique(v),
    ensures
        item::same_item(v, item::record(e@.fields())) <==> {
            &&& record::is_map_of(v, 3)
            &&& record::holds(v, "v"@, Item::Uint(e.v as u64))
            &&& record::holds(v, "registry"@, Item::Text(e.registry@))
            &&& record::holds(v, "entries"@, Item::Array(Seq::new(e.entries@.len(),
                |i: int| item::record(e.entries@[i]@.fields()))))
        },
        e@.bytes() == item::encoding(item::record(e@.fields())),
{
    let fields = e@.fields();
    lemma_bundle_fields(e@);
    record::lemma_holds_all(v, fields);
    assert(fields[0] == ("v"@, Item::Uint(e.v as u64)));
    assert(fields[1] == ("registry"@, Item::Text(e.registry@)));
    assert(fields[2].0 == "entries"@);
    assert(fields[2].1->Array_0 =~= (Item::Array(Seq::new(e.entries@.len(),
        |i: int| item::record(e.entries@[i]@.fields()))))->Array_0);
}

/// What is read: every part of a bundle is what stood under its name.
pub proof fn law_bundle_read(v: Item, e: DeviceBootstrapBundle)
    requires
        BundleModel::read(v) == Ok::<BundleModel, BundleFault>(e@),
    ensures
        record::holds(v, "v"@, Item::Uint(e.v as u64)),
        record::holds(v, "registry"@, Item::Text(e.registry@)),
{
    let entries = v->Mapping_0;
    record::lemma_found_holds(entries, "v"@);
    record::lemma_found_holds(entries, "registry"@);
}

/// An item without duplicate keys is read as an entry of a bundle exactly where it is the record of
/// it, up to the order of its entries: nothing is missing, and nothing else is there.
pub proof fn law_bundle_entry_values(v: Item, m: BundleEntryModel)
    requires
        item::keys_unique(v),
    ensures
        BundleEntryModel::read(v) == Ok::<BundleEntryModel, Fault>(m) <==> item::same_item(
            v,
            item::record(m.fields()),
        ),
{
    if let Item::Mapping(entries) = v {
        let fields = m.fields();
        let listed = reader::names(BUNDLE_ENTRY_FIELDS@);
        lemma_entry_fields(m);
        record::lemma_field_values(fields);
        assert(listed[0] == "sign_pk"@);
        assert(listed[1] == "agree_pk"@);
        assert(listed[2] == "member_cap"@);
        assert(fields[0].0 == "sign_pk"@);
        assert(fields[1].0 == "agree_pk"@);
        assert(fields[2].0 == "member_cap"@);
        if let Some(found) = reader::find_field(entries, "member_cap"@) {
            record::lemma_find_some(entries, "member_cap"@);
            capability::law_capability_values(found, m.member_cap);
        }
        assert(BundleEntryModel::read(v) == Ok::<BundleEntryModel, Fault>(m)
            <==> record::stands_for(
            entries,
            fields,
            listed,
        ));
        record::lemma_stands_for(entries, fields, listed);
    }
}

proof fn lemma_each_read(items: Seq<Item>, list: Seq<BundleEntryModel>)
    requires
        items.len() == list.len(),
        forall|i: int|
            0 <= i < items.len() ==> BundleEntryModel::read(#[trigger] items[i]) == Ok::<
                BundleEntryModel,
                Fault,
            >(list[i]),
    ensures
        read_list(items) == Ok::<Seq<BundleEntryModel>, Fault>(list),
    decreases items.len(),
{
    if items.len() > 0 {
        let (front, rest) = (items.drop_last(), list.drop_last());
        assert forall|i: int| 0 <= i < front.len() implies BundleEntryModel::read(
            #[trigger] front[i],
        ) == Ok::<BundleEntryModel, Fault>(rest[i]) by {
            assert(front[i] == items[i]);
        }
        lemma_each_read(front, rest);
        assert(BundleEntryModel::read(items[items.len() - 1]) == Ok::<BundleEntryModel, Fault>(
            list.last(),
        ));
        assert(rest.push(list.last()) =~= list);
    } else {
        assert(list =~= Seq::empty());
    }
}

proof fn lemma_list_values(items: Seq<Item>, list: Seq<BundleEntryModel>)
    requires
        item::keys_unique(Item::Array(items)),
    ensures
        read_list(items) == Ok::<Seq<BundleEntryModel>, Fault>(list) <==> item::same_item(
            Item::Array(items),
            list_item(list),
        ),
{
    let written = list_item(list)->Array_0;
    if read_list(items) == Ok::<Seq<BundleEntryModel>, Fault>(list) {
        lemma_read_each(items);
        assert forall|i: int| 0 <= i < items.len() implies item::same_item(
            #[trigger] items[i],
            written[i],
        ) by {
            law_bundle_entry_values(items[i], list[i]);
        }
    }
    if item::same_item(Item::Array(items), list_item(list)) {
        assert forall|i: int| 0 <= i < items.len() implies BundleEntryModel::read(
            #[trigger] items[i],
        ) == Ok::<BundleEntryModel, Fault>(list[i]) by {
            assert(item::same_item(items[i], written[i]));
            law_bundle_entry_values(items[i], list[i]);
        }
        lemma_each_read(items, list);
    }
}

/// An item without duplicate keys is read as a bundle exactly where it is the record of it, up to
/// the order of its entries, and within the limits: nothing is missing, and nothing else is there.
pub proof fn law_bundle_values(v: Item, m: BundleModel)
    requires
        item::keys_unique(v),
    ensures
        BundleModel::read(v) == Ok::<BundleModel, BundleFault>(m) <==> encode_utf8(
            m.registry,
        ).len() <= 256 && m.entries.len() <= 32 && item::same_item(v, item::record(m.fields())),
{
    if let Item::Mapping(entries) = v {
        let fields = m.fields();
        let listed = reader::names(BUNDLE_FIELDS@);
        lemma_bundle_fields(m);
        record::lemma_field_values(fields);
        assert(listed[0] == "v"@);
        assert(listed[1] == "registry"@);
        assert(listed[2] == "entries"@);
        assert(fields[0].0 == "v"@);
        assert(fields[1].0 == "registry"@);
        assert(fields[2].0 == "entries"@);
        record::lemma_find_some(entries, "entries"@);
        if let Ok(items) = reader::array_field(entries, "entries"@) {
            lemma_list_values(items, m.entries);
        }
        assert(BundleModel::read(v) == Ok::<BundleModel, BundleFault>(m) <==> encode_utf8(
            m.registry,
        ).len() <= 256 && m.entries.len() <= 32 && record::stands_for(entries, fields, listed));
        record::lemma_stands_for(entries, fields, listed);
    }
}

/// A registry that is too long, or entries that are too many, are named with their number and the
/// limit.
pub proof fn law_limits_are_named(e: BundleFault)
    ensures
        e.message() == match e {
            BundleFault::Proto(f) => f.message(),
            BundleFault::RegistryTooLong { max, actual } => "field `registry` is "@
                + text::decimal(actual) + " bytes long, exceeding the "@ + text::decimal(max)
                + "-byte cap"@,
            BundleFault::TooManyEntries { max, actual } => "bundle has "@ + text::decimal(actual)
                + " entries, exceeding the "@ + text::decimal(max) + "-entry cap"@,
        },
{
}

/// An error says the fault of its own kind, with the same numbers.
pub proof fn law_error_is_its_fault(e: BundleWireError)
    ensures
        match e {
            BundleWireError::Proto(p) => e@ == BundleFault::Proto(p@),
            BundleWireError::RegistryTooLong { max, actual } => e@
                matches BundleFault::RegistryTooLong { max: m, actual: a } && m == max && a
                == actual,
            BundleWireError::TooManyEntries { max, actual } => e@
                matches BundleFault::TooManyEntries { max: m, actual: a } && m == max && a
                == actual,
        },
{
}

/// A registry of more than 256 bytes, or more than 32 entries, are refused with their number, the
/// entries before any of them is read.
pub proof fn law_limits_of_fields(m: Seq<(Item, Item)>)
    ensures
        match reader::text_field(m, "registry"@) {
            Err(f) => registry_field(m) == Err::<Seq<char>, BundleFault>(BundleFault::Proto(f)),
            Ok(s) => registry_field(m) == if encode_utf8(s).len() <= 256 {
                Ok::<Seq<char>, BundleFault>(s)
            } else {
                Err(BundleFault::RegistryTooLong { max: 256, actual: encode_utf8(s).len() })
            },
        },
        match reader::array_field(m, "entries"@) {
            Err(f) => entries_field(m) == Err::<Seq<BundleEntryModel>, BundleFault>(
                BundleFault::Proto(f),
            ),
            Ok(items) => if items.len() > 32 {
                entries_field(m) == Err::<Seq<BundleEntryModel>, BundleFault>(
                    BundleFault::TooManyEntries { max: 32, actual: items.len() },
                )
            } else {
                match read_list(items) {
                    Ok(list) => entries_field(m) == Ok::<Seq<BundleEntryModel>, BundleFault>(list),
                    Err(f) => entries_field(m) == Err::<Seq<BundleEntryModel>, BundleFault>(
                        BundleFault::Proto(f),
                    ),
                }
            },
        },
{
}

/// The fields are looked at in this order, once no foreign name is there, and the first that is
/// missing or wrong is the one that is named.
pub proof fn law_bundle_entry_first_fault(entries: Seq<(Item, Item)>)
    ensures
        ({
            let r = BundleEntryModel::read(Item::Mapping(entries));
            if let Some(g) = reader::foreign_key(entries, reader::names(BUNDLE_ENTRY_FIELDS@)) {
                r matches Err(f) && f == g
            } else {
                if reader::bytes_field(entries, "sign_pk"@) is Err {
                    r matches Err(f) && f == reader::bytes_field(entries, "sign_pk"@)->Err_0
                } else if reader::bytes_field(entries, "agree_pk"@) is Err {
                    r matches Err(f) && f == reader::bytes_field(entries, "agree_pk"@)->Err_0
                } else if member_cap_field(entries) is Err {
                    r matches Err(f) && f == member_cap_field(entries)->Err_0
                } else {
                    r is Ok
                }
            }
        }),
{
}

/// The fields are looked at in this order, once no foreign name is there, and the first that is
/// missing or wrong is the one that is named.
pub proof fn law_bundle_first_fault(entries: Seq<(Item, Item)>)
    ensures
        ({
            let r = BundleModel::read(Item::Mapping(entries));
            if let Some(g) = reader::foreign_key(entries, reader::names(BUNDLE_FIELDS@)) {
                r matches Err(f) && f == BundleFault::Proto(g)
            } else {
                if reader::u8_field(entries, "v"@) is Err {
                    r matches Err(f) && f == BundleFault::Proto(reader::u8_field(entries,
                        "v"@)->Err_0)
                } else if registry_field(entries) is Err {
                    r matches Err(f) && f == registry_field(entries)->Err_0
                } else if entries_field(entries) is Err {
                    r matches Err(f) && f == entries_field(entries)->Err_0
                } else {
                    r is Ok
                }
            }
        }),
{
}

} // verus!
