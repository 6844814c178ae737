//! Canonical CBOR (RFC 8949 section 4.2.1): a deliberately small encoder and a strict decoder.
//!
//! Two different byte strings must never decode to the same item, because signatures are made
//! over encoded bytes. So the decoder takes nothing but the one canonical encoding of an item:
//! - integers, lengths and counts in the shortest form;
//! - byte strings, UTF-8 text, arrays and maps of definite length only;
//! - map keys in strictly increasing bytewise order of their own encodings, which rules out
//!   duplicates too;
//! - of the simple values only `false`, `true` and `null`; no floats and no tags;
//! - at most [`MAX_NESTING_DEPTH`] levels of nesting.
use crate::octets;
use crate::order;
use crate::proto::item;
use crate::proto::item::Item;
use crate::text;
use vstd::prelude::*;
use vstd::utf8::{decode_utf8, valid_utf8};

verus! {

/// The number of arrays and maps that a decoded item may sit inside. The decoder recurses once per
/// level, so without a ceiling a small hostile input would exhaust the stack.
pub const MAX_NESTING_DEPTH: usize = 32;

/// A canonical CBOR data item.
///
/// `NegInt(n)` is the negative integer `-1 - n`. `Mapping` holds key/value pairs in insertion
/// order; the encoder sorts them, and the decoder only ever produces sorted ones.
#[derive(Debug)]
pub enum CborValue {
    Uint(u64),
    NegInt(u64),
    Bytes(Vec<u8>),
    Text(String),
    Array(Vec<CborValue>),
    Mapping(Vec<(CborValue, CborValue)>),
    Bool(bool),
    Null,
}

/// The decoder's errors, each with the byte offset at which the violation was found.
#[derive(Debug, Clone, PartialEq, Eq)]
pub enum CborError {
    /// The input ended before a complete item could be read.
    UnexpectedEof { offset: usize },
    /// An item of indefinite length, or a `break` stop code.
    IndefiniteLength { offset: usize },
    /// An integer, length or count that is not in the shortest form.
    NonShortestForm { offset: usize },
    /// Additional information 28 to 30, which is reserved.
    ReservedAdditionalInfo { offset: usize },
    /// A floating-point item.
    FloatNotAllowed { offset: usize },
    /// A tagged item.
    TagNotAllowed { offset: usize },
    /// A simple value other than `false`, `true` and `null`.
    SimpleNotAllowed { offset: usize },
    /// A text string that is not valid UTF-8.
    InvalidUtf8 { offset: usize },
    /// A map key that does not come strictly after the key before it.
    MapKeyOrder { offset: usize },
    /// Bytes left over behind the top-level item.
    TrailingBytes { offset: usize },
    /// An item inside more than [`MAX_NESTING_DEPTH`] arrays and maps.
    DepthLimitExceeded { offset: usize },
}

/// The item that a value stands for.
pub open spec fn item_of(value: CborValue) -> Item
    decreases value,
{
    match value {
        CborValue::Uint(n) => Item::Uint(n),
        CborValue::NegInt(n) => Item::NegInt(n),
        CborValue::Bytes(b) => Item::Bytes(b@),
        CborValue::Text(s) => Item::Text(s@),
        CborValue::Array(items) => Item::Array(
            Seq::new(
                items@.len(),
                |i: int|
                    if 0 <= i < items@.len() {
                        item_of(items@[i])
                    } else {
                        Item::Null
                    },
            ),
        ),
        CborValue::Mapping(entries) => Item::Mapping(
            Seq::new(
                entries@.len(),
                |i: int|
                    if 0 <= i < entries@.len() {
                        (item_of(entries@[i].0), item_of(entries@[i].1))
                    } else {
                        (Item::Null, Item::Null)
                    },
            ),
        ),
        CborValue::Bool(b) => Item::Bool(b),
        CborValue::Null => Item::Null,
    }
}

impl View for CborValue {
    type V = Item;

    open spec fn view(&self) -> Item {
        item_of(*self)
    }
}

/// The items that a list of values stands for.
pub open spec fn items_of(values: Seq<CborValue>) -> Seq<Item> {
    Seq::new(values.len(), |i: int| values[i]@)
}

/// The entries that a list of key/value pairs stands for.
pub open spec fn entries_of(pairs: Seq<(CborValue, CborValue)>) -> Seq<(Item, Item)> {
    Seq::new(pairs.len(), |i: int| (pairs[i].0@, pairs[i].1@))
}

pub proof fn lemma_view_array(items: Vec<CborValue>)
    ensures
        CborValue::Array(items)@ == Item::Array(items_of(items@)),
{
    assert(CborValue::Array(items)@->Array_0 =~= items_of(items@));
}

pub proof fn lemma_view_mapping(entries: Vec<(CborValue, CborValue)>)
    ensures
        CborValue::Mapping(entries)@ == Item::Mapping(entries_of(entries@)),
{
    assert(CborValue::Mapping(entries)@->Mapping_0 =~= entries_of(entries@));
}

/// A text that can become a [`CborValue::Text`].
pub trait IntoText: Sized {
    /// The characters of the text.
    spec fn characters(self) -> Seq<char>;

    fn into_text(self) -> (text: String)
        ensures
            text@ == self.characters(),
    ;
}

impl IntoText for String {
    open spec fn characters(self) -> Seq<char> {
        self@
    }

    fn into_text(self) -> (text: String) {
        self
    }
}

impl<'a> IntoText for &'a str {
    open spec fn characters(self) -> Seq<char> {
        self@
    }

    fn into_text(self) -> (text: String) {
        String::from_str(self)
    }
}

/// A byte string that can become a [`CborValue::Bytes`].
pub trait IntoBytes: Sized {
    /// The bytes of the string.
    spec fn octets(self) -> Seq<u8>;

    fn into_bytes_vec(self) -> (bytes: Vec<u8>)
        ensures
            bytes@ == self.octets(),
    ;
}

impl IntoBytes for Vec<u8> {
    open spec fn octets(self) -> Seq<u8> {
        self@
    }

    fn into_bytes_vec(self) -> (bytes: Vec<u8>) {
        self
    }
}

impl<'a> IntoBytes for &'a [u8] {
    open spec fn octets(self) -> Seq<u8> {
        self@
    }

    fn into_bytes_vec(self) -> (bytes: Vec<u8>) {
        octets::copy_bytes(self)
    }
}

/// The names and items of a record under construction.
pub open spec fn fields_of(entries: Seq<(&str, CborValue)>) -> Seq<(Seq<char>, Item)> {
    Seq::new(entries.len(), |i: int| (entries[i].0@, entries[i].1@))
}

impl CborValue {
    pub fn uint(v: u64) -> (value: Self)
        ensures
            value@ == Item::Uint(v),
    {
        CborValue::Uint(v)
    }

    pub fn bytes<T: IntoBytes>(v: T) -> (value: Self)
        ensures
            value@ == Item::Bytes(v.octets()),
    {
        CborValue::Bytes(v.into_bytes_vec())
    }

    pub fn text<T: IntoText>(v: T) -> (value: Self)
        ensures
            value@ == Item::Text(v.characters()),
    {
        CborValue::Text(v.into_text())
    }

    pub fn array(v: Vec<CborValue>) -> (value: Self)
        ensures
            value@ == Item::Array(items_of(v@)),
    {
        proof {
            lemma_view_array(v);
        }
        CborValue::Array(v)
    }

    /// A map from field names, which become text keys, to values. The entries may come in any
    /// order: the encoder sorts them.
    pub fn map(entries: Vec<(&str, CborValue)>) -> (value: Self)
        ensures
            value@ == item::record(fields_of(entries@)),
    {
        let ghost fields = fields_of(entries@);
        let mut pairs: Vec<(CborValue, CborValue)> = Vec::new();
        for entry in it: entries
            invariant
                it.seq() == entries@,
                pairs@.len() == it.index(),
                forall|i: int|
                    0 <= i < pairs@.len() ==> (#[trigger] pairs@[i]).0@ == Item::Text(
                        entries@[i].0@,
                    ) && pairs@[i].1@ == entries@[i].1@,
        {
            pairs.push((CborValue::Text(String::from_str(entry.0)), entry.1));
        }
        proof {
            lemma_view_mapping(pairs);
            assert(entries_of(pairs@) =~= item::record_entries(fields));
        }
        CborValue::Mapping(pairs)
    }

    pub fn as_uint(&self) -> (v: Option<u64>)
        ensures
            match v {
                Some(n) => self@ == Item::Uint(n),
                None => !(self@ is Uint),
            },
    {
        match self {
            CborValue::Uint(v) => Some(*v),
            _ => None,
        }
    }

    pub fn as_bytes(&self) -> (v: Option<&[u8]>)
        ensures
            match v {
                Some(b) => self@ == Item::Bytes(b@),
                None => !(self@ is Bytes),
            },
    {
        match self {
            CborValue::Bytes(b) => Some(b.as_slice()),
            _ => None,
        }
    }

    pub fn as_text(&self) -> (v: Option<&str>)
        ensures
            match v {
                Some(s) => self@ == Item::Text(s@),
                None => !(self@ is Text),
            },
    {
        match self {
            CborValue::Text(s) => Some(s.as_str()),
            _ => None,
        }
    }

    pub fn as_array(&self) -> (v: Option<&[CborValue]>)
        ensures
            match v {
                Some(a) => self@ == Item::Array(items_of(a@)),
                None => !(self@ is Array),
            },
    {
        match self {
            CborValue::Array(a) => {
                proof {
                    lemma_view_array(*a);
                }
                Some(a.as_slice())
            },
            _ => None,
        }
    }

    pub fn as_map(&self) -> (v: Option<&[(CborValue, CborValue)]>)
        ensures
            match v {
                Some(m) => self@ == Item::Mapping(entries_of(m@)),
                None => !(self@ is Mapping),
            },
    {
        match self {
            CborValue::Mapping(m) => {
                proof {
                    lemma_view_mapping(*m);
                }
                Some(m.as_slice())
            },
            _ => None,
        }
    }
}

/// Whether two values are equal; the order of map entries does not count.
fn same_value(a: &CborValue, b: &CborValue) -> (same: bool)
    ensures
        same == item::same_item(a@, b@),
    decreases a,
{
    match (a, b) {
        (CborValue::Uint(x), CborValue::Uint(y)) => *x == *y,
        (CborValue::NegInt(x), CborValue::NegInt(y)) => *x == *y,
        (CborValue::Bytes(x), CborValue::Bytes(y)) => octets::same_bytes(
            x.as_slice(),
            y.as_slice(),
        ),
        (CborValue::Text(x), CborValue::Text(y)) => text::same_text(x.as_str(), y.as_str()),
        (CborValue::Array(x), CborValue::Array(y)) => {
            proof {
                lemma_view_array(*x);
                lemma_view_array(*y);
                assert(decreases_to!(*a => a->Array_0));
            }
            same_list(x, y)
        },
        (CborValue::Mapping(x), CborValue::Mapping(y)) => {
            proof {
                lemma_view_mapping(*x);
                lemma_view_mapping(*y);
                assert(decreases_to!(*a => a->Mapping_0));
            }
            same_entries(x, y)
        },
        (CborValue::Bool(x), CborValue::Bool(y)) => *x == *y,
        (CborValue::Null, CborValue::Null) => true,
        _ => false,
    }
}

fn same_list(x: &Vec<CborValue>, y: &Vec<CborValue>) -> (same: bool)
    ensures
        same == item::same_item(Item::Array(items_of(x@)), Item::Array(items_of(y@))),
    decreases x,
{
    let ghost xs = items_of(x@);
    let ghost ys = items_of(y@);
    if x.len() != y.len() {
        return false;
    }
    let mut i: usize = 0;
    while i < x.len()
        invariant
            i <= x@.len() == y@.len(),
            xs == items_of(x@),
            ys == items_of(y@),
            forall|k: int| 0 <= k < i ==> item::same_item(#[trigger] xs[k], ys[k]),
        decreases x.len() - i,
    {
        assert(decreases_to!(*x => x@[i as int]));
        assert(xs[i as int] == x@[i as int]@);
        if !same_value(&x[i], &y[i]) {
            return false;
        }
        i += 1;
    }
    true
}

fn same_entries(x: &Vec<(CborValue, CborValue)>, y: &Vec<(CborValue, CborValue)>) -> (same: bool)
    ensures
        same == item::same_item(Item::Mapping(entries_of(x@)), Item::Mapping(entries_of(y@))),
    decreases x,
{
    let ghost xs = entries_of(x@);
    let ghost ys = entries_of(y@);
    if x.len() != y.len() {
        return false;
    }
    let mut i: usize = 0;
    while i < x.len()
        invariant
            i <= x@.len() == y@.len(),
            xs == entries_of(x@),
            ys == entries_of(y@),
            forall|k: int| 0 <= k < i ==> item::is_among(#[trigger] xs[k], ys),
        decreases x.len() - i,
    {
        assert(decreases_to!(*x => x@[i as int]));
        let mut found: bool = false;
        let mut j: usize = 0;
        while j < y.len() && !found
            invariant
                i < x@.len() == y@.len(),
                j <= y@.len(),
                xs == entries_of(x@),
                ys == entries_of(y@),
                decreases_to!(*x => x@[i as int]),
                !found ==> forall|k: int|
                    0 <= k < j ==> !(item::same_item(xs[i as int].0, (#[trigger] ys[k]).0)
                        && item::same_item(xs[i as int].1, ys[k].1)),
                found ==> item::is_among(xs[i as int], ys),
            decreases y.len() - j,
        {
            found = same_value(&x[i].0, &y[j].0) && same_value(&x[i].1, &y[j].1);
            assert(ys[j as int] == (y@[j as int].0@, y@[j as int].1@));
            j += 1;
        }
        if !found {
            assert(!item::is_among(xs[i as int], ys));
            return false;
        }
        i += 1;
    }
    let mut j: usize = 0;
    while j < y.len()
        invariant
            j <= y@.len() == x@.len(),
            xs == entries_of(x@),
            ys == entries_of(y@),
            forall|k: int| 0 <= k < xs.len() ==> item::is_among(#[trigger] xs[k], ys),
            forall|k: int| 0 <= k < j ==> item::has_among(xs, #[trigger] ys[k]),
        decreases y.len() - j,
    {
        let mut found: bool = false;
        let mut m: usize = 0;
        while m < x.len() && !found
            invariant
                j < y@.len() == x@.len(),
                m <= x@.len(),
                xs == entries_of(x@),
                ys == entries_of(y@),
                !found ==> forall|k: int|
                    0 <= k < m ==> !(item::same_item((#[trigger] xs[k]).0, ys[j as int].0)
                        && item::same_item(xs[k].1, ys[j as int].1)),
                found ==> item::has_among(xs, ys[j as int]),
            decreases x.len() - m,
        {
            assert(decreases_to!(*x => x@[m as int]));
            found = same_value(&x[m].0, &y[j].0) && same_value(&x[m].1, &y[j].1);
            assert(xs[m as int] == (x@[m as int].0@, x@[m as int].1@));
            m += 1;
        }
        if !found {
            assert(!item::has_among(xs, ys[j as int]));
            return false;
        }
        j += 1;
    }
    true
}

impl PartialEq for CborValue {
    fn eq(&self, other: &Self) -> (same: bool) {
        same_value(self, other)
    }
}

impl vstd::std_specs::cmp::PartialEqSpecImpl for CborValue {
    open spec fn obeys_eq_spec() -> bool {
        true
    }

    open spec fn eq_spec(&self, other: &Self) -> bool {
        item::same_item(self@, other@)
    }
}

impl Clone for CborValue {
    fn clone(&self) -> (copy: Self)
        ensures
            copy@ == self@,
        decreases self,
    {
        match self {
            CborValue::Uint(n) => CborValue::Uint(*n),
            CborValue::NegInt(n) => CborValue::NegInt(*n),
            CborValue::Bytes(b) => CborValue::Bytes(octets::copy_bytes(b.as_slice())),
            CborValue::Text(s) => CborValue::Text(s.clone()),
            CborValue::Array(items) => {
                let mut copies: Vec<CborValue> = Vec::new();
                let mut i: usize = 0;
                while i < items.len()
                    invariant
                        *self == CborValue::Array(*items),
                        i == copies@.len() <= items@.len(),
                        forall|j: int|
                            0 <= j < i ==> (#[trigger] copies@[j])@ == items@[j]@,
                    decreases items.len() - i,
                {
                    proof {
                        assert(decreases_to!(*items => items@[i as int]));
                        assert(decreases_to!(*self => self->Array_0));
                        assert(decreases_to!(*self => items@[i as int]));
                    }
                    copies.push(items[i].clone());
                    i += 1;
                }
                proof {
                    lemma_view_array(*items);
                    lemma_view_array(copies);
                    assert(items_of(copies@) =~= items_of(items@));
                }
                CborValue::Array(copies)
            },
            CborValue::Mapping(entries) => {
                let mut copies: Vec<(CborValue, CborValue)> = Vec::new();
                let mut i: usize = 0;
                while i < entries.len()
                    invariant
                        *self == CborValue::Mapping(*entries),
                        i == copies@.len() <= entries@.len(),
                        forall|j: int|
                            0 <= j < i ==> (#[trigger] copies@[j]).0@ == entries@[j].0@
                                && copies@[j].1@ == entries@[j].1@,
                    decreases entries.len() - i,
                {
                    proof {
                        assert(decreases_to!(*entries => entries@[i as int]));
                        assert(decreases_to!(*self => self->Mapping_0));
                        assert(decreases_to!(*self => entries@[i as int]));
                    }
                    let entry = &entries[i];
                    copies.push((entry.0.clone(), entry.1.clone()));
                    i += 1;
                }
                proof {
                    lemma_view_mapping(*entries);
                    lemma_view_mapping(copies);
                    assert(entries_of(copies@) =~= entries_of(entries@));
                }
                CborValue::Mapping(copies)
            },
            CborValue::Bool(b) => CborValue::Bool(*b),
            CborValue::Null => CborValue::Null,
        }
    }
}

impl CborError {
    /// The message that describes the violation.
    pub open spec fn message(self) -> Seq<char> {
        match self {
            CborError::UnexpectedEof { offset } => "unexpected end of input at offset "@
                + text::decimal(offset as nat) + ""@,
            CborError::IndefiniteLength { offset } =>
                "indefinite-length items are not allowed in canonical CBOR (offset "@
                + text::decimal(offset as nat) + ")"@,
            CborError::NonShortestForm { offset } =>
                "integer/length not encoded in shortest form (offset "@ + text::decimal(
                offset as nat,
            ) + ")"@,
            CborError::ReservedAdditionalInfo { offset } =>
                "reserved additional-info value (offset "@ + text::decimal(offset as nat) + ")"@,
            CborError::FloatNotAllowed { offset } =>
                "floating-point values are not allowed (offset "@ + text::decimal(offset as nat)
                + ")"@,
            CborError::TagNotAllowed { offset } => "CBOR tags are not allowed (offset "@
                + text::decimal(offset as nat) + ")"@,
            CborError::SimpleNotAllowed { offset } => "simple value not allowed (offset "@
                + text::decimal(offset as nat) + ")"@,
            CborError::InvalidUtf8 { offset } => "invalid UTF-8 in text string (offset "@
                + text::decimal(offset as nat) + ")"@,
            CborError::MapKeyOrder { offset } =>
                "map keys are not in strictly increasing canonical order (offset "@
                + text::decimal(offset as nat) + ")"@,
            CborError::TrailingBytes { offset } => "trailing bytes after top-level item (offset "@
                + text::decimal(offset as nat) + ")"@,
            CborError::DepthLimitExceeded { offset } =>
                "nesting deeper than 32 levels (offset "@ + text::decimal(offset as nat) + ")"@,
        }
    }

    /// The message that describes the violation.
    pub fn to_string(&self) -> (message: String)
        ensures
            message@ == self.message(),
    {
        match self {
            CborError::UnexpectedEof { offset } => text::around(
                "unexpected end of input at offset ",
                *offset as u64,
                "",
            ),
            CborError::IndefiniteLength { offset } => text::around(
                "indefinite-length items are not allowed in canonical CBOR (offset ",
                *offset as u64,
                ")",
            ),
            CborError::NonShortestForm { offset } => text::around(
                "integer/length not encoded in shortest form (offset ",
                *offset as u64,
                ")",
            ),
            CborError::ReservedAdditionalInfo { offset } => text::around(
                "reserved additional-info value (offset ",
                *offset as u64,
                ")",
            ),
            CborError::FloatNotAllowed { offset } => text::around(
                "floating-point values are not allowed (offset ",
                *offset as u64,
                ")",
            ),
            CborError::TagNotAllowed { offset } => text::around(
                "CBOR tags are not allowed (offset ",
                *offset as u64,
                ")",
            ),
            CborError::SimpleNotAllowed { offset } => text::around(
                "simple value not allowed (offset ",
                *offset as u64,
                ")",
            ),
            CborError::InvalidUtf8 { offset } => text::around(
                "invalid UTF-8 in text string (offset ",
                *offset as u64,
                ")",
            ),
            CborError::MapKeyOrder { offset } => text::around(
                "map keys are not in strictly increasing canonical order (offset ",
                *offset as u64,
                ")",
            ),
            CborError::TrailingBytes { offset } => text::around(
                "trailing bytes after top-level item (offset ",
                *offset as u64,
                ")",
            ),
            CborError::DepthLimitExceeded { offset } => text::around(
                "nesting deeper than 32 levels (offset ",
                *offset as u64,
                ")",
            ),
        }
    }
}

// ---- encode ----

/// Appends the head of an item.
pub fn write_header(out: &mut Vec<u8>, major: u8, value: u64)
    requires
        major < 8,
    ensures
        final(out)@ == old(out)@ + item::header(major as nat, value as nat),
{
    let high: u8 = major * 32;
    if value < 24 {
        out.push(high + value as u8);
    } else if value <= 0xFF {
        out.push(high + 24);
        octets::push_be(out, value, 1);
    } else if value <= 0xFFFF {
        out.push(high + 25);
        octets::push_be(out, value, 2);
    } else if value <= 0xFFFF_FFFF {
        out.push(high + 26);
        octets::push_be(out, value, 4);
    } else {
        out.push(high + 27);
        octets::push_be(out, value, 8);
    }
    assert(out@ =~= old(out)@ + item::header(major as nat, value as nat));
}

/// Appends the canonical encoding of `value`.
pub fn encode_into(value: &CborValue, out: &mut Vec<u8>)
    requires
        item::keys_unique(value@),
    ensures
        final(out)@ == old(out)@ + item::encoding(value@),
        item::lengths_fit(value@),
    decreases value,
{
    let ghost start = out@;
    match value {
        CborValue::Uint(n) => write_header(out, 0, *n),
        CborValue::NegInt(n) => write_header(out, 1, *n),
        CborValue::Bytes(b) => {
            write_header(out, 2, b.len() as u64);
            octets::push_bytes(out, b.as_slice());
            assert(out@ =~= start + item::encoding(value@));
        },
        CborValue::Text(s) => {
            let utf8 = s.as_str().as_bytes();
            write_header(out, 3, utf8.len() as u64);
            octets::push_bytes(out, utf8);
            assert(out@ =~= start + item::encoding(value@));
        },
        CborValue::Array(items) => {
            write_header(out, 4, items.len() as u64);
            let ghost head = out@;
            let ghost all = items_of(items@);
            proof {
                lemma_view_array(*items);
                item::lemma_encodings(all);
                assert(all.take(0) =~= Seq::<Item>::empty());
                assert(out@ =~= head + item::join(item::encodings(all.take(0))));
            }
            let mut i: usize = 0;
            while i < items.len()
                invariant
                    *value == CborValue::Array(*items),
                    value@ == Item::Array(all),
                    all == items_of(items@),
                    item::keys_unique(value@),
                    i <= items@.len(),
                    forall|j: int| 0 <= j < i ==> item::lengths_fit(#[trigger] all[j]),
                    out@ == head + item::join(item::encodings(all.take(i as int))),
                decreases items.len() - i,
            {
                proof {
                    assert(decreases_to!(*value => items@[i as int]));
                    assert(all[i as int] == items@[i as int]@);
                    assert(all.take(i + 1).drop_last() =~= all.take(i as int));
                    assert(item::encodings(all.take(i + 1)).drop_last() =~= item::encodings(
                        all.take(i as int),
                    ));
                }
                encode_into(&items[i], out);
                i += 1;
                assert(out@ =~= head + item::join(item::encodings(all.take(i as int))));
            }
            proof {
                assert(all.take(i as int) =~= all);
                assert(out@ =~= start + item::encoding(value@));
            }
        },
        CborValue::Mapping(entries) => {
            let ghost all = entries_of(entries@);
            proof {
                lemma_view_mapping(*entries);
                assert(all.take(0) =~= Seq::<(Item, Item)>::empty());
            }
            let mut encoded: Vec<(Vec<u8>, Vec<u8>)> = Vec::new();
            assert(order::pairs_of(encoded@) =~= order::sort_keyed(
                item::encoded_pairs(all.take(0)),
            ));
            let mut i: usize = 0;
            while i < entries.len()
                invariant
                    *value == CborValue::Mapping(*entries),
                    value@ == Item::Mapping(all),
                    all == entries_of(entries@),
                    item::keys_unique(value@),
                    i <= entries@.len(),
                    forall|j: int|
                        0 <= j < i ==> item::lengths_fit((#[trigger] all[j]).0)
                            && item::lengths_fit(all[j].1),
                    order::pairs_of(encoded@) == order::sort_keyed(
                        item::encoded_pairs(all.take(i as int)),
                    ),
                decreases entries.len() - i,
            {
                proof {
                    assert(decreases_to!(*entries => entries@[i as int]));
                    assert(decreases_to!(*value => value->Mapping_0));
                    assert(decreases_to!(*value => entries@[i as int]));
                    assert(all[i as int] == (entries@[i as int].0@, entries@[i as int].1@));
                    assert(all.take(i + 1).drop_last() =~= all.take(i as int));
                    assert(item::encoded_pairs(all.take(i + 1)).drop_last()
                        =~= item::encoded_pairs(all.take(i as int)));
                }
                let entry = &entries[i];
                let mut key: Vec<u8> = Vec::new();
                encode_into(&entry.0, &mut key);
                let mut val: Vec<u8> = Vec::new();
                encode_into(&entry.1, &mut val);
                assert(key@ =~= item::encoding(all[i as int].0));
                assert(val@ =~= item::encoding(all[i as int].1));
                order::insert_sorted(&mut encoded, key, val);
                i += 1;
            }
            proof {
                assert(all.take(i as int) =~= all);
                item::lemma_encoded_pairs(all);
                order::lemma_sort_len(item::encoded_pairs(all));
            }
            write_header(out, 5, encoded.len() as u64);
            let ghost head = out@;
            let ghost sorted = order::pairs_of(encoded@);
            let ghost parts = item::pair_parts(sorted);
            proof {
                assert(parts.take(0) =~= Seq::<Seq<u8>>::empty());
                assert(out@ =~= head + item::join(parts.take(0)));
            }
            let mut j: usize = 0;
            while j < encoded.len()
                invariant
                    j <= encoded@.len(),
                    sorted == order::pairs_of(encoded@),
                    parts == item::pair_parts(sorted),
                    out@ == head + item::join(parts.take(j as int)),
                decreases encoded.len() - j,
            {
                octets::push_bytes(out, encoded[j].0.as_slice());
                octets::push_bytes(out, encoded[j].1.as_slice());
                j += 1;
                proof {
                    assert(parts.take(j as int).drop_last() =~= parts.take(j - 1));
                    assert(out@ =~= head + item::join(parts.take(j as int)));
                }
            }
            proof {
                assert(parts.take(j as int) =~= parts);
                assert(out@ =~= start + item::encoding(value@));
            }
        },
        CborValue::Bool(b) => {
            if *b {
                out.push(0xf5);
            } else {
                out.push(0xf4);
            }
            assert(out@ =~= start + item::encoding(value@));
        },
        CborValue::Null => {
            out.push(0xf6);
            assert(out@ =~= start + item::encoding(value@));
        },
    }
}

/// The canonical CBOR bytes of `value`.
///
/// A map with two entries of the same key has no canonical encoding; such a value must not be
/// passed.
pub fn canonical_encode(value: &CborValue) -> (bytes: Vec<u8>)
    requires
        item::keys_unique(value@),
    ensures
        bytes@ == item::encoding(value@),
        item::lengths_fit(value@),
{
    let mut out: Vec<u8> = Vec::new();
    encode_into(value, &mut out);
    assert(out@ =~= item::encoding(value@));
    out
}

// ---- decode ----

/// The number of bytes that carry the argument under additional information 24 to 27.
pub open spec fn arg_width(info: nat) -> nat {
    if info == 24 {
        1
    } else if info == 25 {
        2
    } else if info == 26 {
        4
    } else {
        8
    }
}

/// The least argument that needs that many bytes.
pub open spec fn arg_floor(info: nat) -> nat {
    if info == 24 {
        24
    } else if info == 25 {
        0x100
    } else if info == 26 {
        0x1_0000
    } else {
        0x1_0000_0000
    }
}

/// The argument of the item whose initial byte stands at `head` and has additional information
/// `info`, and the offset behind it.
pub open spec fn arg_at(bytes: Seq<u8>, head: int, info: nat) -> Result<(nat, int), CborError> {
    let offset = head + 1;
    if info < 24 {
        Ok((info, offset))
    } else if info <= 27 {
        let end = offset + arg_width(info);
        if end > bytes.len() {
            Err(CborError::UnexpectedEof { offset: offset as usize })
        } else {
            let value = octets::be_value(bytes.subrange(offset, end));
            if value < arg_floor(info) {
                Err(CborError::NonShortestForm { offset: head as usize })
            } else {
                Ok((value, end))
            }
        }
    } else if info <= 30 {
        Err(CborError::ReservedAdditionalInfo { offset: head as usize })
    } else {
        Err(CborError::IndefiniteLength { offset: head as usize })
    }
}

/// The item that starts at `offset` inside `depth` arrays and maps, and the offset behind it; or
/// the first violation met on the way.
pub open spec fn item_at(bytes: Seq<u8>, offset: int, depth: nat) -> Result<(Item, int), CborError>
    decreases MAX_NESTING_DEPTH + 2 - depth, 0nat,
{
    if depth > MAX_NESTING_DEPTH {
        Err(CborError::DepthLimitExceeded { offset: offset as usize })
    } else if offset >= bytes.len() {
        Err(CborError::UnexpectedEof { offset: offset as usize })
    } else {
        let major = bytes[offset] as nat / 32;
        let info = bytes[offset] as nat % 32;
        if major == 6 {
            Err(CborError::TagNotAllowed { offset: offset as usize })
        } else if major == 7 {
            simple_at(offset, info)
        } else {
            match arg_at(bytes, offset, info) {
                Err(e) => Err(e),
                Ok((arg, body)) => {
                    let left = bytes.len() - body;
                    if major == 0 {
                        Ok((Item::Uint(arg as u64), body))
                    } else if major == 1 {
                        Ok((Item::NegInt(arg as u64), body))
                    } else if arg > left || (major == 5 && arg > left / 2) {
                        Err(CborError::UnexpectedEof { offset: body as usize })
                    } else if major == 2 {
                        Ok((Item::Bytes(bytes.subrange(body, body + arg)), body + arg))
                    } else if major == 3 {
                        let utf8 = bytes.subrange(body, body + arg);
                        if valid_utf8(utf8) {
                            Ok((Item::Text(decode_utf8(utf8)), body + arg))
                        } else {
                            Err(CborError::InvalidUtf8 { offset: body as usize })
                        }
                    } else if major == 4 {
                        match items_at(bytes, body, depth + 1, arg) {
                            Err(e) => Err(e),
                            Ok((items, end)) => Ok((Item::Array(items), end)),
                        }
                    } else {
                        match entries_at(bytes, body, depth + 1, arg) {
                            Err(e) => Err(e),
                            Ok((entries, end, _)) => Ok((Item::Mapping(entries), end)),
                        }
                    }
                },
            }
        }
    }
}

/// The simple value with additional information `info`, its initial byte at `head`.
pub open spec fn simple_at(head: int, info: nat) -> Result<(Item, int), CborError> {
    let offset = head as usize;
    if info == 20 {
        Ok((Item::Bool(false), head + 1))
    } else if info == 21 {
        Ok((Item::Bool(true), head + 1))
    } else if info == 22 {
        Ok((Item::Null, head + 1))
    } else if info <= 24 {
        Err(CborError::SimpleNotAllowed { offset })
    } else if info <= 27 {
        Err(CborError::FloatNotAllowed { offset })
    } else if info <= 30 {
        Err(CborError::ReservedAdditionalInfo { offset })
    } else {
        Err(CborError::IndefiniteLength { offset })
    }
}

/// `count` items one behind the other, from `offset` on.
pub open spec fn items_at(bytes: Seq<u8>, offset: int, depth: nat, count: nat) -> Result<
    (Seq<Item>, int),
    CborError,
>
    decreases MAX_NESTING_DEPTH + 2 - depth, count + 1,
{
    if count == 0 {
        Ok((Seq::empty(), offset))
    } else {
        match items_at(bytes, offset, depth, (count - 1) as nat) {
            Err(e) => Err(e),
            Ok((items, start)) => match item_at(bytes, start, depth) {
                Err(e) => Err(e),
                Ok((item, end)) => Ok((items.push(item), end)),
            },
        }
    }
}

/// `count` map entries one behind the other, from `offset` on, and the bytes of the last key.
pub open spec fn entries_at(bytes: Seq<u8>, offset: int, depth: nat, count: nat) -> Result<
    (Seq<(Item, Item)>, int, Seq<u8>),
    CborError,
>
    decreases MAX_NESTING_DEPTH + 2 - depth, count + 1,
{
    if count == 0 {
        Ok((Seq::empty(), offset, Seq::empty()))
    } else {
        match entries_at(bytes, offset, depth, (count - 1) as nat) {
            Err(e) => Err(e),
            Ok((entries, start, last_key)) => match item_at(bytes, start, depth) {
                Err(e) => Err(e),
                Ok((key, middle)) => {
                    let key_bytes = bytes.subrange(start, middle);
                    if count > 1 && !octets::bytes_before(last_key, key_bytes) {
                        Err(CborError::MapKeyOrder { offset: start as usize })
                    } else {
                        match item_at(bytes, middle, depth) {
                            Err(e) => Err(e),
                            Ok((value, end)) => Ok((entries.push((key, value)), end, key_bytes)),
                        }
                    }
                },
            },
        }
    }
}

/// The item that `bytes` is the canonical encoding of, or the first violation.
pub open spec fn decoding(bytes: Seq<u8>) -> Result<Item, CborError> {
    match item_at(bytes, 0, 0) {
        Err(e) => Err(e),
        Ok((item, end)) => if end != bytes.len() {
            Err(CborError::TrailingBytes { offset: end as usize })
        } else {
            Ok(item)
        },
    }
}

/// What the decoder returned, as items and integers.
pub open spec fn decoded_item(r: Result<(CborValue, usize), CborError>) -> Result<
    (Item, int),
    CborError,
> {
    match r {
        Ok((value, end)) => Ok((value@, end as int)),
        Err(e) => Err(e),
    }
}

/// An item that was read lies inside the input and is not empty.
pub proof fn lemma_item_extent(bytes: Seq<u8>, offset: int, depth: nat)
    requires
        0 <= offset,
    ensures
        item_at(bytes, offset, depth) matches Ok((_, end)) ==> offset < end <= bytes.len(),
    decreases MAX_NESTING_DEPTH + 2 - depth, 0nat,
{
    if depth <= MAX_NESTING_DEPTH && offset < bytes.len() {
        let major = bytes[offset] as nat / 32;
        let info = bytes[offset] as nat % 32;
        if let Ok((arg, body)) = arg_at(bytes, offset, info) {
            if major == 4 {
                lemma_items_extent(bytes, body, depth + 1, arg);
            } else if major == 5 {
                lemma_entries_extent(bytes, body, depth + 1, arg);
            }
        }
    }
}

pub proof fn lemma_items_extent(bytes: Seq<u8>, offset: int, depth: nat, count: nat)
    requires
        0 <= offset <= bytes.len(),
    ensures
        items_at(bytes, offset, depth, count) matches Ok((items, end)) ==> {
            &&& offset + count <= end <= bytes.len()
            &&& items.len() == count
        },
    decreases MAX_NESTING_DEPTH + 2 - depth, count + 1,
{
    if count > 0 {
        lemma_items_extent(bytes, offset, depth, (count - 1) as nat);
        if let Ok((_, start)) = items_at(bytes, offset, depth, (count - 1) as nat) {
            lemma_item_extent(bytes, start, depth);
        }
    }
}

pub proof fn lemma_entries_extent(bytes: Seq<u8>, offset: int, depth: nat, count: nat)
    requires
        0 <= offset <= bytes.len(),
    ensures
        entries_at(bytes, offset, depth, count) matches Ok((entries, end, _)) ==> {
            &&& offset + 2 * count <= end <= bytes.len()
            &&& entries.len() == count
        },
    decreases MAX_NESTING_DEPTH + 2 - depth, count + 1,
{
    if count > 0 {
        lemma_entries_extent(bytes, offset, depth, (count - 1) as nat);
        if let Ok((_, start, _)) = entries_at(bytes, offset, depth, (count - 1) as nat) {
            lemma_item_extent(bytes, start, depth);
            if let Ok((_, middle)) = item_at(bytes, start, depth) {
                lemma_item_extent(bytes, middle, depth);
            }
        }
    }
}

/// A violation among the first items is the violation of the whole run.
pub proof fn lemma_items_error(bytes: Seq<u8>, offset: int, depth: nat, part: nat, count: nat)
    requires
        part <= count,
        items_at(bytes, offset, depth, part) is Err,
    ensures
        items_at(bytes, offset, depth, count) == items_at(bytes, offset, depth, part),
    decreases count,
{
    if part < count {
        lemma_items_error(bytes, offset, depth, part, (count - 1) as nat);
    }
}

pub proof fn lemma_entries_error(bytes: Seq<u8>, offset: int, depth: nat, part: nat, count: nat)
    requires
        part <= count,
        entries_at(bytes, offset, depth, part) is Err,
    ensures
        entries_at(bytes, offset, depth, count) == entries_at(bytes, offset, depth, part),
    decreases count,
{
    if part < count {
        lemma_entries_error(bytes, offset, depth, part, (count - 1) as nat);
    }
}

/// Reads the argument of the item whose initial byte, with additional information `info`, stands
/// at `head`.
pub fn read_arg(bytes: &[u8], head: usize, info: u8) -> (r: Result<(u64, usize), CborError>)
    requires
        head < bytes@.len(),
        info < 32,
    ensures
        match r {
            Ok((value, end)) => {
                &&& arg_at(bytes@, head as int, info as nat) == Ok::<(nat, int), CborError>(
                    (value as nat, end as int),
                )
                &&& head < end <= bytes@.len()
            },
            Err(e) => arg_at(bytes@, head as int, info as nat) == Err::<(nat, int), CborError>(e),
        },
{
    let total: usize = bytes.len();
    let offset: usize = head + 1;
    if info < 24 {
        return Ok((info as u64, offset));
    }
    if info > 30 {
        return Err(CborError::IndefiniteLength { offset: head });
    }
    if info > 27 {
        return Err(CborError::ReservedAdditionalInfo { offset: head });
    }
    let width: usize = if info == 24 {
        1
    } else if info == 25 {
        2
    } else if info == 26 {
        4
    } else {
        8
    };
    let floor: u64 = if info == 24 {
        24
    } else if info == 25 {
        0x100
    } else if info == 26 {
        0x1_0000
    } else {
        0x1_0000_0000
    };
    if total - offset < width {
        return Err(CborError::UnexpectedEof { offset });
    }
    let value: u64 = octets::read_be(bytes, offset, width);
    if value < floor {
        return Err(CborError::NonShortestForm { offset: head });
    }
    Ok((value, offset + width))
}

/// Decodes the item that starts at `offset` inside `depth` arrays and maps.
pub fn decode_one(bytes: &[u8], offset: usize, depth: usize) -> (r: Result<
    (CborValue, usize),
    CborError,
>)
    ensures
        decoded_item(r) == item_at(bytes@, offset as int, depth as nat),
        r matches Ok((_, end)) ==> offset < end <= bytes@.len(),
    decreases MAX_NESTING_DEPTH + 1 - depth,
{
    if depth > MAX_NESTING_DEPTH {
        return Err(CborError::DepthLimitExceeded { offset });
    }
    let total: usize = bytes.len();
    if offset >= total {
        return Err(CborError::UnexpectedEof { offset });
    }
    let head: usize = offset;
    let initial: u8 = bytes[head];
    let major: u8 = initial / 32;
    let info: u8 = initial % 32;
    if major == 6 {
        return Err(CborError::TagNotAllowed { offset: head });
    }
    if major == 7 {
        return if info == 20 {
            Ok((CborValue::Bool(false), head + 1))
        } else if info == 21 {
            Ok((CborValue::Bool(true), head + 1))
        } else if info == 22 {
            Ok((CborValue::Null, head + 1))
        } else if info <= 24 {
            Err(CborError::SimpleNotAllowed { offset: head })
        } else if info <= 27 {
            Err(CborError::FloatNotAllowed { offset: head })
        } else if info <= 30 {
            Err(CborError::ReservedAdditionalInfo { offset: head })
        } else {
            Err(CborError::IndefiniteLength { offset: head })
        };
    }
    let (arg, body) = match read_arg(bytes, head, info) {
        Ok(found) => found,
        Err(e) => {
            return Err(e);
        },
    };
    if major == 0 {
        return Ok((CborValue::Uint(arg), body));
    }
    if major == 1 {
        return Ok((CborValue::NegInt(arg), body));
    }
    // Lengths and counts are bounded by the input before anything is allocated for them. An item
    // takes one byte at least, a map entry two.
    let left: usize = total - body;
    if arg > left as u64 || (major == 5 && arg > (left / 2) as u64) {
        return Err(CborError::UnexpectedEof { offset: body });
    }
    let count: usize = arg as usize;
    if major == 2 {
        return Ok((CborValue::Bytes(octets::copy_range(bytes, body, body + count)), body + count));
    }
    if major == 3 {
        let utf8 = octets::copy_range(bytes, body, body + count);
        return match text::utf8_text(utf8.as_slice()) {
            Some(s) => {
                proof {
                    vstd::utf8::encode_utf8_decode_utf8(s@);
                }
                Ok((CborValue::Text(s), body + count))
            },
            None => Err(CborError::InvalidUtf8 { offset: body }),
        };
    }
    if major == 4 {
        let mut items: Vec<CborValue> = Vec::new();
        let mut at: usize = body;
        let mut done: usize = 0;
        assert(items_of(items@) =~= Seq::<Item>::empty());
        while done < count
            invariant
                done <= count,
                depth <= MAX_NESTING_DEPTH,
                body <= at <= bytes@.len(),
                items_at(bytes@, body as int, (depth + 1) as nat, done as nat) == Ok::<
                    (Seq<Item>, int),
                    CborError,
                >((items_of(items@), at as int)),
                item_at(bytes@, offset as int, depth as nat) == (match items_at(
                    bytes@,
                    body as int,
                    (depth + 1) as nat,
                    count as nat,
                ) {
                    Err(e) => Err(e),
                    Ok((all, end)) => Ok((Item::Array(all), end)),
                }),
            decreases count - done,
        {
            match decode_one(bytes, at, depth + 1) {
                Ok((value, next)) => {
                    let ghost before = items_of(items@);
                    items.push(value);
                    at = next;
                    assert(items_of(items@) =~= before.push(value@));
                },
                Err(e) => {
                    proof {
                        lemma_items_error(
                            bytes@,
                            body as int,
                            (depth + 1) as nat,
                            (done + 1) as nat,
                            count as nat,
                        );
                    }
                    return Err(e);
                },
            }
            done += 1;
        }
        proof {
            lemma_view_array(items);
            lemma_item_extent(bytes@, offset as int, depth as nat);
        }
        return Ok((CborValue::Array(items), at));
    }
    let mut entries: Vec<(CborValue, CborValue)> = Vec::new();
    let mut at: usize = body;
    let mut key_start: usize = body;
    let mut key_end: usize = body;
    let mut done: usize = 0;
    proof {
        assert(entries_of(entries@) =~= Seq::<(Item, Item)>::empty());
        assert(bytes@.subrange(body as int, body as int) =~= Seq::<u8>::empty());
    }
    while done < count
        invariant
            done <= count,
            depth <= MAX_NESTING_DEPTH,
            body <= at <= bytes@.len(),
            key_start <= key_end <= bytes@.len(),
            entries_at(bytes@, body as int, (depth + 1) as nat, done as nat) == Ok::<
                (Seq<(Item, Item)>, int, Seq<u8>),
                CborError,
            >(
                (
                    entries_of(entries@),
                    at as int,
                    bytes@.subrange(key_start as int, key_end as int),
                ),
            ),
            item_at(bytes@, offset as int, depth as nat) == (match entries_at(
                bytes@,
                body as int,
                (depth + 1) as nat,
                count as nat,
            ) {
                Err(e) => Err(e),
                Ok((all, end, _)) => Ok((Item::Mapping(all), end)),
            }),
        decreases count - done,
    {
        proof {
            if entries_at(bytes@, body as int, (depth + 1) as nat, (done + 1) as nat) is Err {
                lemma_entries_error(
                    bytes@,
                    body as int,
                    (depth + 1) as nat,
                    (done + 1) as nat,
                    count as nat,
                );
            }
        }
        let (key, middle) = match decode_one(bytes, at, depth + 1) {
            Ok(found) => found,
            Err(e) => {
                return Err(e);
            },
        };
        if done > 0 {
            let last_key = octets::copy_range(bytes, key_start, key_end);
            let this_key = octets::copy_range(bytes, at, middle);
            if !octets::is_before(last_key.as_slice(), this_key.as_slice()) {
                return Err(CborError::MapKeyOrder { offset: at });
            }
        }
        let (value, next) = match decode_one(bytes, middle, depth + 1) {
            Ok(found) => found,
            Err(e) => {
                return Err(e);
            },
        };
        let ghost before = entries_of(entries@);
        let ghost pair = (key@, value@);
        entries.push((key, value));
        key_start = at;
        key_end = middle;
        at = next;
        done += 1;
        assert(entries_of(entries@) =~= before.push(pair));
    }
    proof {
        lemma_view_mapping(entries);
        lemma_item_extent(bytes@, offset as int, depth as nat);
    }
    Ok((CborValue::Mapping(entries), at))
}

/// Decodes exactly one canonical CBOR item; anything that is not fully canonical is rejected, and
/// so are trailing bytes.
pub fn canonical_decode(bytes: &[u8]) -> (r: Result<CborValue, CborError>)
    ensures
        match r {
            Ok(value) => decoding(bytes@) == Ok::<Item, CborError>(value@),
            Err(e) => decoding(bytes@) == Err::<Item, CborError>(e),
        },
{
    match decode_one(bytes, 0, 0) {
        Ok((value, consumed)) => {
            if consumed != bytes.len() {
                return Err(CborError::TrailingBytes { offset: consumed });
            }
            Ok(value)
        },
        Err(e) => Err(e),
    }
}

/// A value stands for the item of its own kind that holds the same.
pub proof fn law_value_is_its_item(v: CborValue)
    ensures
        match v {
            CborValue::Uint(n) => v@ == Item::Uint(n),
            CborValue::NegInt(n) => v@ == Item::NegInt(n),
            CborValue::Bytes(b) => v@ == Item::Bytes(b@),
            CborValue::Text(s) => v@ == Item::Text(s@),
            CborValue::Array(items) => v@ matches Item::Array(inside) && inside.len()
                == items@.len() && forall|i: int|
                0 <= i < items@.len() ==> #[trigger] inside[i] == items@[i]@,
            CborValue::Mapping(entries) => v@ matches Item::Mapping(inside) && inside.len()
                == entries@.len() && forall|i: int|
                0 <= i < entries@.len() ==> #[trigger] inside[i] == (
                    entries@[i].0@,
                    entries@[i].1@,
                ),
            CborValue::Bool(b) => v@ == Item::Bool(b),
            CborValue::Null => v@ == Item::Null,
        },
{
}

/// At most 32 levels are read: an item that nests deeper has an encoding, but no bytes are read as
/// it.
pub proof fn law_depth_is_limited(bytes: Seq<u8>, offset: int, depth: nat)
    requires
        depth > 32,
    ensures
        item_at(bytes, offset, depth) is Err,
{
}

/// Every violation has a message of its own, which names the place.
pub proof fn law_violations_are_named(e: CborError)
    ensures
        e.message() == match e {
            CborError::UnexpectedEof { offset } => "unexpected end of input at offset "@
                + text::decimal(offset as nat) + ""@,
            CborError::IndefiniteLength { offset } =>
                "indefinite-length items are not allowed in canonical CBOR (offset "@
                + text::decimal(offset as nat) + ")"@,
            CborError::NonShortestForm { offset } =>
                "integer/length not encoded in shortest form (offset "@ + text::decimal(
                offset as nat,
            ) + ")"@,
            CborError::ReservedAdditionalInfo { offset } =>
                "reserved additional-info value (offset "@ + text::decimal(offset as nat) + ")"@,
            CborError::FloatNotAllowed { offset } =>
                "floating-point values are not allowed (offset "@ + text::decimal(offset as nat)
                + ")"@,
            CborError::TagNotAllowed { offset } => "CBOR tags are not allowed (offset "@
                + text::decimal(offset as nat) + ")"@,
            CborError::SimpleNotAllowed { offset } => "simple value not allowed (offset "@
                + text::decimal(offset as nat) + ")"@,
            CborError::InvalidUtf8 { offset } => "invalid UTF-8 in text string (offset "@
                + text::decimal(offset as nat) + ")"@,
            CborError::MapKeyOrder { offset } =>
                "map keys are not in strictly increasing canonical order (offset "@
                + text::decimal(offset as nat) + ")"@,
            CborError::TrailingBytes { offset } => "trailing bytes after top-level item (offset "@
                + text::decimal(offset as nat) + ")"@,
            CborError::DepthLimitExceeded { offset } =>
                "nesting deeper than 32 levels (offset "@ + text::decimal(offset as nat) + ")"@,
        },
{
}

/// What no item may begin with, by the first byte: a tag, a simple value other than the three, a
/// float, a length that is reserved or indefinite. Nor may the input end there. The place is that
/// of the byte.
pub proof fn law_refused_by_first_byte(bytes: Seq<u8>, offset: int, depth: nat)
    requires
        0 <= offset <= bytes.len(),
        depth <= 32,
    ensures
        offset == bytes.len() ==> item_at(bytes, offset, depth) == Err::<(Item, int), CborError>(
            CborError::UnexpectedEof { offset: offset as usize },
        ),
        offset < bytes.len() ==> {
            let b = bytes[offset];
            let got = item_at(bytes, offset, depth);
            let at = offset as usize;
            &&& 192 <= b < 224 ==> got == Err::<(Item, int), CborError>(
                CborError::TagNotAllowed { offset: at },
            )
            &&& b < 192 && 28 <= b % 32 <= 30 || 252 <= b <= 254 ==> got == Err::<
                (Item, int),
                CborError,
            >(CborError::ReservedAdditionalInfo { offset: at })
            &&& b < 192 && b % 32 == 31 || b == 255 ==> got == Err::<(Item, int), CborError>(
                CborError::IndefiniteLength { offset: at },
            )
            &&& 224 <= b < 244 || b == 247 || b == 248 ==> got == Err::<(Item, int), CborError>(
                CborError::SimpleNotAllowed { offset: at },
            )
            &&& 249 <= b <= 251 ==> got == Err::<(Item, int), CborError>(
                CborError::FloatNotAllowed { offset: at },
            )
            &&& b == 244 ==> got == Ok::<(Item, int), CborError>((Item::Bool(false), offset + 1))
            &&& b == 245 ==> got == Ok::<(Item, int), CborError>((Item::Bool(true), offset + 1))
            &&& b == 246 ==> got == Ok::<(Item, int), CborError>((Item::Null, offset + 1))
        },
{
}

/// An argument that would fit in fewer bytes is refused, at the place of the item; one that is cut
/// off, at the place behind the first byte.
pub proof fn law_argument_is_shortest(bytes: Seq<u8>, head: int, info: nat)
    requires
        0 <= head < bytes.len(),
        24 <= info <= 27,
    ensures
        ({
            let width: int = if info == 24 {
                1
            } else if info == 25 {
                2
            } else if info == 26 {
                4
            } else {
                8
            };
            let value = octets::be_value(bytes.subrange(head + 1, head + 1 + width));
            let fewest: int = if info == 24 {
                24
            } else if info == 25 {
                0x100
            } else if info == 26 {
                0x1_0000
            } else {
                0x1_0000_0000
            };
            arg_at(bytes, head, info) == if head + 1 + width > bytes.len() {
                Err::<(nat, int), CborError>(
                    CborError::UnexpectedEof { offset: (head + 1) as usize },
                )
            } else if value < fewest {
                Err(CborError::NonShortestForm { offset: head as usize })
            } else {
                Ok((value, head + 1 + width))
            }
        }),
{
}

/// What follows the one item is refused, at the place where it begins.
pub proof fn law_nothing_may_follow(bytes: Seq<u8>)
    ensures
        item_at(bytes, 0, 0) matches Ok((item, end)) ==> decoding(bytes) == if end < bytes.len() {
            Err::<Item, CborError>(CborError::TrailingBytes { offset: end as usize })
        } else {
            Ok(item)
        },
        item_at(bytes, 0, 0) matches Err(e) ==> decoding(bytes) == Err::<Item, CborError>(e),
{
    lemma_item_extent(bytes, 0, 0);
}

} // verus!
