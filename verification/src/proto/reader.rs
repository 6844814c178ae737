//! Reading typed fields out of a decoded map: the closed-schema check and one accessor per field
//! type, all with the errors that the wire types report.
use crate::octets;
use crate::proto::canonical;
use crate::proto::canonical::{CborError, CborValue};
use crate::proto::item::Item;
use crate::text;
use vstd::prelude::*;

verus! {

/// Errors of the conversion from CBOR items and bytes to wire types.
#[derive(Debug, Clone, PartialEq, Eq)]
pub enum ProtoError {
    /// The top-level item is not a map.
    NotAMap,
    /// A mandatory field is absent.
    MissingField(&'static str),
    /// A key outside the declared field set is present.
    UnknownField(String),
    /// A map key is not a text string.
    KeyNotText,
    /// A field's value has the wrong shape.
    WrongType(&'static str),
    /// An integer field's value does not fit its type.
    IntOutOfRange(&'static str),
    /// An enum-valued field holds a value outside its known set.
    InvalidEnumValue(&'static str, u64),
    /// The bytes are not canonical CBOR.
    Cbor(CborError),
}

/// What a [`ProtoError`] reports.
pub enum Fault {
    NotAMap,
    MissingField(Seq<char>),
    UnknownField(Seq<char>),
    KeyNotText,
    WrongType(Seq<char>),
    IntOutOfRange(Seq<char>),
    InvalidEnumValue(Seq<char>, u64),
    Cbor(CborError),
}

impl View for ProtoError {
    type V = Fault;

    open spec fn view(&self) -> Fault {
        match *self {
            ProtoError::NotAMap => Fault::NotAMap,
            ProtoError::MissingField(name) => Fault::MissingField(name@),
            ProtoError::UnknownField(name) => Fault::UnknownField(name@),
            ProtoError::KeyNotText => Fault::KeyNotText,
            ProtoError::WrongType(name) => Fault::WrongType(name@),
            ProtoError::IntOutOfRange(name) => Fault::IntOutOfRange(name@),
            ProtoError::InvalidEnumValue(name, v) => Fault::InvalidEnumValue(name@, v),
            ProtoError::Cbor(e) => Fault::Cbor(e),
        }
    }
}

impl Fault {
    /// The message of the error.
    pub open spec fn message(self) -> Seq<char> {
        match self {
            Fault::NotAMap => "top-level CBOR item is not a map"@,
            Fault::MissingField(name) => "missing required field `"@ + name + "`"@,
            Fault::UnknownField(name) => "unknown field `"@ + name + "`"@,
            Fault::KeyNotText => "map key is not a text string"@,
            Fault::WrongType(name) => "field `"@ + name + "` has the wrong CBOR type"@,
            Fault::IntOutOfRange(name) => "field `"@ + name + "` integer value is out of range"@,
            Fault::InvalidEnumValue(name, v) => "field `"@ + name
                + "` has unrecognized enum value "@ + text::decimal(v as nat),
            Fault::Cbor(e) => e.message(),
        }
    }

    /// The message with everything that a peer chose replaced by its size.
    pub open spec fn redacted_message(self) -> Seq<char> {
        match self {
            Fault::UnknownField(name) => "unknown field (name withheld: "@ + text::decimal(
                vstd::utf8::encode_utf8(name).len(),
            ) + " bytes)"@,
            _ => self.message(),
        }
    }
}

impl ProtoError {
    /// The message of the error.
    pub fn to_string(&self) -> (message: String)
        ensures
            message@ == self@.message(),
    {
        match self {
            ProtoError::NotAMap => String::from_str("top-level CBOR item is not a map"),
            ProtoError::MissingField(name) => text::between("missing required field `", name, "`"),
            ProtoError::UnknownField(name) => text::between("unknown field `", name.as_str(), "`"),
            ProtoError::KeyNotText => String::from_str("map key is not a text string"),
            ProtoError::WrongType(name) => text::between(
                "field `",
                name,
                "` has the wrong CBOR type",
            ),
            ProtoError::IntOutOfRange(name) => text::between(
                "field `",
                name,
                "` integer value is out of range",
            ),
            ProtoError::InvalidEnumValue(name, v) => {
                let mut message = text::between("field `", name, "` has unrecognized enum value ");
                text::push_decimal(&mut message, *v);
                message
            },
            ProtoError::Cbor(e) => e.to_string(),
        }
    }

    /// A view of this error that is safe to log.
    pub fn redacted(&self) -> (view: RedactedProtoError<'_>)
        ensures
            view.0 == self,
    {
        RedactedProtoError(self)
    }
}

/// A [`ProtoError`] that renders without the bytes that a peer chose: the name of an unknown field
/// is a map key taken verbatim from the peer's input, so only its length is shown.
#[derive(Debug, Clone, Copy)]
pub struct RedactedProtoError<'a>(pub &'a ProtoError);

impl<'a> RedactedProtoError<'a> {
    /// The message, without anything that a peer chose.
    pub fn to_string(&self) -> (message: String)
        ensures
            message@ == self.0@.redacted_message(),
    {
        match self.0 {
            ProtoError::UnknownField(name) => text::around(
                "unknown field (name withheld: ",
                name.as_str().as_bytes().len() as u64,
                " bytes)",
            ),
            safe => safe.to_string(),
        }
    }
}

impl From<CborError> for ProtoError {
    fn from(e: CborError) -> (r: Self) {
        ProtoError::Cbor(e)
    }
}

impl vstd::std_specs::convert::FromSpecImpl<CborError> for ProtoError {
    open spec fn obeys_from_spec() -> bool {
        true
    }

    open spec fn from_spec(e: CborError) -> ProtoError {
        ProtoError::Cbor(e)
    }
}

// ---- what the fields of a map are ----

/// The value under the first key `name`.
pub open spec fn find_field(entries: Seq<(Item, Item)>, name: Seq<char>) -> Option<Item>
    decreases entries.len(),
{
    if entries.len() == 0 {
        None
    } else if entries[0].0 == Item::Text(name) {
        Some(entries[0].1)
    } else {
        find_field(entries.drop_first(), name)
    }
}

/// What is wrong with the first key that is not one of the `allowed` names.
pub open spec fn foreign_key(entries: Seq<(Item, Item)>, allowed: Seq<Seq<char>>) -> Option<Fault>
    decreases entries.len(),
{
    if entries.len() == 0 {
        None
    } else {
        match entries[0].0 {
            Item::Text(name) => if allowed.contains(name) {
                foreign_key(entries.drop_first(), allowed)
            } else {
                Some(Fault::UnknownField(name))
            },
            _ => Some(Fault::KeyNotText),
        }
    }
}

/// The first of two faults, where there is one.
pub open spec fn first<E>(a: Option<E>, b: Option<E>) -> Option<E> {
    match a {
        Some(_) => a,
        None => b,
    }
}

/// The fault that a read ended in.
pub open spec fn fault<T, E>(r: Result<T, E>) -> Option<E> {
    match r {
        Ok(_) => None,
        Err(f) => Some(f),
    }
}

/// `value`, unless there was a fault on the way to it.
pub open spec fn unless<T, E>(found: Option<E>, value: T) -> Result<T, E> {
    match found {
        Some(f) => Err(f),
        None => Ok(value),
    }
}

/// The entries of a map whose keys are all among the `allowed` names.
pub open spec fn closed_map(item: Item, allowed: Seq<Seq<char>>) -> Result<
    Seq<(Item, Item)>,
    Fault,
> {
    match item {
        Item::Mapping(entries) => unless(foreign_key(entries, allowed), entries),
        _ => Err(Fault::NotAMap),
    }
}

pub open spec fn required(entries: Seq<(Item, Item)>, name: Seq<char>) -> Result<Item, Fault> {
    match find_field(entries, name) {
        None => Err(Fault::MissingField(name)),
        Some(value) => Ok(value),
    }
}

pub open spec fn bytes_field(entries: Seq<(Item, Item)>, name: Seq<char>) -> Result<
    Seq<u8>,
    Fault,
> {
    match required(entries, name) {
        Err(f) => Err(f),
        Ok(Item::Bytes(b)) => Ok(b),
        Ok(_) => Err(Fault::WrongType(name)),
    }
}

pub open spec fn text_field(entries: Seq<(Item, Item)>, name: Seq<char>) -> Result<
    Seq<char>,
    Fault,
> {
    match required(entries, name) {
        Err(f) => Err(f),
        Ok(Item::Text(s)) => Ok(s),
        Ok(_) => Err(Fault::WrongType(name)),
    }
}

pub open spec fn uint_field(entries: Seq<(Item, Item)>, name: Seq<char>) -> Result<u64, Fault> {
    match required(entries, name) {
        Err(f) => Err(f),
        Ok(Item::Uint(n)) => Ok(n),
        Ok(_) => Err(Fault::WrongType(name)),
    }
}

pub open spec fn u8_field(entries: Seq<(Item, Item)>, name: Seq<char>) -> Result<u8, Fault> {
    match uint_field(entries, name) {
        Err(f) => Err(f),
        Ok(n) => if n <= u8::MAX {
            Ok(n as u8)
        } else {
            Err(Fault::IntOutOfRange(name))
        },
    }
}

pub open spec fn u16_field(entries: Seq<(Item, Item)>, name: Seq<char>) -> Result<u16, Fault> {
    match uint_field(entries, name) {
        Err(f) => Err(f),
        Ok(n) => if n <= u16::MAX {
            Ok(n as u16)
        } else {
            Err(Fault::IntOutOfRange(name))
        },
    }
}

pub open spec fn u32_field(entries: Seq<(Item, Item)>, name: Seq<char>) -> Result<u32, Fault> {
    match uint_field(entries, name) {
        Err(f) => Err(f),
        Ok(n) => if n <= u32::MAX {
            Ok(n as u32)
        } else {
            Err(Fault::IntOutOfRange(name))
        },
    }
}

pub open spec fn bool_field(entries: Seq<(Item, Item)>, name: Seq<char>) -> Result<bool, Fault> {
    match required(entries, name) {
        Err(f) => Err(f),
        Ok(Item::Bool(b)) => Ok(b),
        Ok(_) => Err(Fault::WrongType(name)),
    }
}

pub open spec fn array_field(entries: Seq<(Item, Item)>, name: Seq<char>) -> Result<
    Seq<Item>,
    Fault,
> {
    match required(entries, name) {
        Err(f) => Err(f),
        Ok(Item::Array(items)) => Ok(items),
        Ok(_) => Err(Fault::WrongType(name)),
    }
}

pub open spec fn bytes_array_field(entries: Seq<(Item, Item)>, name: Seq<char>) -> Result<
    Seq<Seq<u8>>,
    Fault,
> {
    match array_field(entries, name) {
        Err(f) => Err(f),
        Ok(items) => if forall|i: int| 0 <= i < items.len() ==> (#[trigger] items[i]) is Bytes {
            Ok(Seq::new(items.len(), |i: int| items[i]->Bytes_0))
        } else {
            Err(Fault::WrongType(name))
        },
    }
}

pub open spec fn text_array_field(entries: Seq<(Item, Item)>, name: Seq<char>) -> Result<
    Seq<Seq<char>>,
    Fault,
> {
    match array_field(entries, name) {
        Err(f) => Err(f),
        Ok(items) => if forall|i: int| 0 <= i < items.len() ==> (#[trigger] items[i]) is Text {
            Ok(Seq::new(items.len(), |i: int| items[i]->Text_0))
        } else {
            Err(Fault::WrongType(name))
        },
    }
}

pub open spec fn optional_bytes_field(entries: Seq<(Item, Item)>, name: Seq<char>) -> Result<
    Option<Seq<u8>>,
    Fault,
> {
    match find_field(entries, name) {
        None => Ok(None),
        Some(Item::Bytes(b)) => Ok(Some(b)),
        Some(_) => Err(Fault::WrongType(name)),
    }
}

pub open spec fn optional_u32_field(entries: Seq<(Item, Item)>, name: Seq<char>) -> Result<
    Option<u32>,
    Fault,
> {
    match find_field(entries, name) {
        None => Ok(None),
        Some(Item::Uint(n)) => if n <= u32::MAX {
            Ok(Some(n as u32))
        } else {
            Err(Fault::IntOutOfRange(name))
        },
        Some(_) => Err(Fault::WrongType(name)),
    }
}

// ---- views of what the accessors return ----

/// A result with its error as a fault.
pub open spec fn outcome<T>(r: Result<T, ProtoError>) -> Result<T, Fault> {
    match r {
        Ok(v) => Ok(v),
        Err(e) => Err(e@),
    }
}

/// A result with its value taken by its view and its error as a fault.
pub open spec fn seen<T: View>(r: Result<T, ProtoError>) -> Result<T::V, Fault> {
    match r {
        Ok(v) => Ok(v@),
        Err(e) => Err(e@),
    }
}

/// The bytes of an optional byte string.
pub open spec fn opt_bytes(o: Option<Vec<u8>>) -> Option<Seq<u8>> {
    match o {
        Some(b) => Some(b@),
        None => None,
    }
}

/// The bytes of each string of a list.
pub open spec fn byte_strings(list: Seq<Vec<u8>>) -> Seq<Seq<u8>> {
    Seq::new(list.len(), |i: int| list[i]@)
}

/// The characters of each text of a list.
pub open spec fn texts(list: Seq<String>) -> Seq<Seq<char>> {
    Seq::new(list.len(), |i: int| list[i]@)
}

/// The characters of each name of a list.
pub open spec fn names(list: Seq<&str>) -> Seq<Seq<char>> {
    Seq::new(list.len(), |i: int| list[i]@)
}

/// Reads the fields of a map.
pub struct MapReader<'a> {
    entries: &'a [(CborValue, CborValue)],
}

impl<'a> View for MapReader<'a> {
    type V = Seq<(Item, Item)>;

    closed spec fn view(&self) -> Seq<(Item, Item)> {
        canonical::entries_of(self.entries@)
    }
}

impl<'a> MapReader<'a> {
    /// A reader of the map `v`.
    pub fn new(v: &'a CborValue) -> (r: Result<Self, ProtoError>)
        ensures
            match r {
                Ok(m) => v@ == Item::Mapping(m@),
                Err(e) => !(v@ is Mapping) && e@ == Fault::NotAMap,
            },
    {
        match v.as_map() {
            Some(entries) => Ok(MapReader { entries }),
            None => Err(ProtoError::NotAMap),
        }
    }

    /// Rejects the map if it holds a key outside `allowed`.
    pub fn deny_unknown_fields(&self, allowed: &[&str]) -> (r: Result<(), ProtoError>)
        ensures
            outcome(r) == unless(foreign_key(self@, names(allowed@)), ()),
    {
        let mut i: usize = 0;
        let ghost all = self@;
        let ghost listed = names(allowed@);
        assert(all.skip(0) =~= all);
        while i < self.entries.len()
            invariant
                i <= self.entries@.len() == all.len(),
                all == self@,
                listed == names(allowed@),
                foreign_key(all, listed) == foreign_key(all.skip(i as int), listed),
            decreases self.entries.len() - i,
        {
            let entry = &self.entries[i];
            assert(all.skip(i as int)[0] == (entry.0@, entry.1@));
            assert(all.skip(i as int).drop_first() =~= all.skip(i + 1));
            match entry.0.as_text() {
                None => {
                    return Err(ProtoError::KeyNotText);
                },
                Some(key) => {
                    if !lists(allowed, key) {
                        return Err(ProtoError::UnknownField(String::from_str(key)));
                    }
                },
            }
            i += 1;
        }
        Ok(())
    }

    /// The value under the first key `key`.
    pub fn get(&self, key: &str) -> (v: Option<&'a CborValue>)
        ensures
            match v {
                Some(value) => find_field(self@, key@) == Some(value@),
                None => find_field(self@, key@) is None,
            },
    {
        let mut i: usize = 0;
        let ghost all = self@;
        assert(all.skip(0) =~= all);
        while i < self.entries.len()
            invariant
                i <= self.entries@.len() == all.len(),
                all == self@,
                find_field(all, key@) == find_field(all.skip(i as int), key@),
            decreases self.entries.len() - i,
        {
            let entry = &self.entries[i];
            assert(all.skip(i as int)[0] == (entry.0@, entry.1@));
            assert(all.skip(i as int).drop_first() =~= all.skip(i + 1));
            if let Some(name) = entry.0.as_text() {
                if text::same_text(name, key) {
                    return Some(&entry.1);
                }
            }
            i += 1;
        }
        None
    }

    /// The value of a mandatory field.
    pub fn require(&self, key: &'static str) -> (r: Result<&'a CborValue, ProtoError>)
        ensures
            match r {
                Ok(v) => required(self@, key@) == Ok::<Item, Fault>(v@),
                Err(e) => required(self@, key@) == Err::<Item, Fault>(e@),
            },
    {
        match self.get(key) {
            Some(v) => Ok(v),
            None => Err(ProtoError::MissingField(key)),
        }
    }

    pub fn bytes(&self, key: &'static str) -> (r: Result<Vec<u8>, ProtoError>)
        ensures
            seen(r) == bytes_field(self@, key@),
    {
        match self.require(key)?.as_bytes() {
            Some(b) => Ok(octets::copy_bytes(b)),
            None => Err(ProtoError::WrongType(key)),
        }
    }

    pub fn text(&self, key: &'static str) -> (r: Result<String, ProtoError>)
        ensures
            seen(r) == text_field(self@, key@),
    {
        match self.require(key)?.as_text() {
            Some(s) => Ok(String::from_str(s)),
            None => Err(ProtoError::WrongType(key)),
        }
    }

    pub fn u64(&self, key: &'static str) -> (r: Result<u64, ProtoError>)
        ensures
            outcome(r) == uint_field(self@, key@),
    {
        match self.require(key)?.as_uint() {
            Some(n) => Ok(n),
            None => Err(ProtoError::WrongType(key)),
        }
    }

    pub fn u8(&self, key: &'static str) -> (r: Result<u8, ProtoError>)
        ensures
            outcome(r) == u8_field(self@, key@),
    {
        let n: u64 = self.u64(key)?;
        if n <= u8::MAX as u64 {
            Ok(n as u8)
        } else {
            Err(ProtoError::IntOutOfRange(key))
        }
    }

    pub fn u16(&self, key: &'static str) -> (r: Result<u16, ProtoError>)
        ensures
            outcome(r) == u16_field(self@, key@),
    {
        let n: u64 = self.u64(key)?;
        if n <= u16::MAX as u64 {
            Ok(n as u16)
        } else {
            Err(ProtoError::IntOutOfRange(key))
        }
    }

    pub fn u32(&self, key: &'static str) -> (r: Result<u32, ProtoError>)
        ensures
            outcome(r) == u32_field(self@, key@),
    {
        let n: u64 = self.u64(key)?;
        if n <= u32::MAX as u64 {
            Ok(n as u32)
        } else {
            Err(ProtoError::IntOutOfRange(key))
        }
    }

    pub fn bool(&self, key: &'static str) -> (r: Result<bool, ProtoError>)
        ensures
            outcome(r) == bool_field(self@, key@),
    {
        match self.require(key)? {
            CborValue::Bool(b) => Ok(*b),
            _ => Err(ProtoError::WrongType(key)),
        }
    }

    /// The items of a mandatory array.
    pub fn array(&self, key: &'static str) -> (r: Result<&'a [CborValue], ProtoError>)
        ensures
            match r {
                Ok(items) => array_field(self@, key@) == Ok::<Seq<Item>, Fault>(
                    canonical::items_of(items@),
                ),
                Err(e) => array_field(self@, key@) == Err::<Seq<Item>, Fault>(e@),
            },
    {
        match self.require(key)?.as_array() {
            Some(items) => Ok(items),
            None => Err(ProtoError::WrongType(key)),
        }
    }

    pub fn bytes_array(&self, key: &'static str) -> (r: Result<Vec<Vec<u8>>, ProtoError>)
        ensures
            match r {
                Ok(list) => bytes_array_field(self@, key@) == Ok::<Seq<Seq<u8>>, Fault>(
                    byte_strings(list@),
                ),
                Err(e) => bytes_array_field(self@, key@) == Err::<Seq<Seq<u8>>, Fault>(e@),
            },
    {
        let values = self.array(key)?;
        let ghost items = canonical::items_of(values@);
        let mut list: Vec<Vec<u8>> = Vec::new();
        let mut i: usize = 0;
        while i < values.len()
            invariant
                i == list@.len() <= values@.len(),
                items == canonical::items_of(values@),
                array_field(self@, key@) == Ok::<Seq<Item>, Fault>(items),
                forall|j: int|
                    0 <= j < i ==> (#[trigger] items[j]) == Item::Bytes(list@[j]@),
            decreases values.len() - i,
        {
            assert(items[i as int] == values@[i as int]@);
            match values[i].as_bytes() {
                Some(b) => list.push(octets::copy_bytes(b)),
                None => {
                    return Err(ProtoError::WrongType(key));
                },
            }
            i += 1;
        }
        assert(byte_strings(list@) =~= Seq::new(items.len(), |j: int| items[j]->Bytes_0));
        Ok(list)
    }

    pub fn text_array(&self, key: &'static str) -> (r: Result<Vec<String>, ProtoError>)
        ensures
            match r {
                Ok(list) => text_array_field(self@, key@) == Ok::<Seq<Seq<char>>, Fault>(
                    texts(list@),
                ),
                Err(e) => text_array_field(self@, key@) == Err::<Seq<Seq<char>>, Fault>(e@),
            },
    {
        let values = self.array(key)?;
        let ghost items = canonical::items_of(values@);
        let mut list: Vec<String> = Vec::new();
        let mut i: usize = 0;
        while i < values.len()
            invariant
                i == list@.len() <= values@.len(),
                items == canonical::items_of(values@),
                array_field(self@, key@) == Ok::<Seq<Item>, Fault>(items),
                forall|j: int| 0 <= j < i ==> (#[trigger] items[j]) == Item::Text(list@[j]@),
            decreases values.len() - i,
        {
            assert(items[i as int] == values@[i as int]@);
            match values[i].as_text() {
                Some(s) => list.push(String::from_str(s)),
                None => {
                    return Err(ProtoError::WrongType(key));
                },
            }
            i += 1;
        }
        assert(texts(list@) =~= Seq::new(items.len(), |j: int| items[j]->Text_0));
        Ok(list)
    }

    pub fn optional_bytes(&self, key: &'static str) -> (r: Result<Option<Vec<u8>>, ProtoError>)
        ensures
            match r {
                Ok(o) => optional_bytes_field(self@, key@) == Ok::<Option<Seq<u8>>, Fault>(
                    opt_bytes(o),
                ),
                Err(e) => optional_bytes_field(self@, key@) == Err::<Option<Seq<u8>>, Fault>(e@),
            },
    {
        match self.get(key) {
            None => Ok(None),
            Some(v) => match v.as_bytes() {
                Some(b) => Ok(Some(octets::copy_bytes(b))),
                None => Err(ProtoError::WrongType(key)),
            },
        }
    }

    pub fn optional_u32(&self, key: &'static str) -> (r: Result<Option<u32>, ProtoError>)
        ensures
            outcome(r) == optional_u32_field(self@, key@),
    {
        match self.get(key) {
            None => Ok(None),
            Some(v) => match v.as_uint() {
                None => Err(ProtoError::WrongType(key)),
                Some(n) => if n <= u32::MAX as u64 {
                    Ok(Some(n as u32))
                } else {
                    Err(ProtoError::IntOutOfRange(key))
                },
            },
        }
    }
}

/// Whether `allowed` lists `key`.
fn lists(allowed: &[&str], key: &str) -> (listed: bool)
    ensures
        listed == names(allowed@).contains(key@),
{
    let ghost all = names(allowed@);
    let mut i: usize = 0;
    while i < allowed.len()
        invariant
            i <= allowed@.len(),
            all == names(allowed@),
            forall|j: int| 0 <= j < i ==> #[trigger] all[j] != key@,
        decreases allowed.len() - i,
    {
        if text::same_text(allowed[i], key) {
            assert(all[i as int] == key@);
            return true;
        }
        i += 1;
    }
    false
}

/// Every fault has a message of its own, which names the field.
pub proof fn law_faults_are_named(e: Fault)
    ensures
        e.message() == match e {
            Fault::NotAMap => "top-level CBOR item is not a map"@,
            Fault::MissingField(name) => "missing required field `"@ + name + "`"@,
            Fault::UnknownField(name) => "unknown field `"@ + name + "`"@,
            Fault::KeyNotText => "map key is not a text string"@,
            Fault::WrongType(name) => "field `"@ + name + "` has the wrong CBOR type"@,
            Fault::IntOutOfRange(name) => "field `"@ + name + "` integer value is out of range"@,
            Fault::InvalidEnumValue(name, v) => "field `"@ + name
                + "` has unrecognized enum value "@ + text::decimal(v as nat),
            Fault::Cbor(e) => e.message(),
        },
{
}

/// The name of an unknown field is withheld, and nothing else.
pub proof fn law_unknown_names_are_withheld(e: Fault)
    ensures
        e.redacted_message() == match e {
            Fault::UnknownField(name) => "unknown field (name withheld: "@ + text::decimal(
                vstd::utf8::encode_utf8(name).len(),
            ) + " bytes)"@,
            _ => e.message(),
        },
{
}

/// What is read of a field: what stands under the first key with its name, where that is of the
/// type and the size that are asked for. Otherwise the field is missing, of the wrong type, or out
/// of range, and its name is given.
pub proof fn law_fields_are_read_by_type(entries: Seq<(Item, Item)>, name: Seq<char>)
    ensures
        match find_field(entries, name) {
            None => {
                &&& required(entries, name) == Err::<Item, Fault>(Fault::MissingField(name))
                &&& bytes_field(entries, name) == Err::<Seq<u8>, Fault>(Fault::MissingField(name))
                &&& text_field(entries, name) == Err::<Seq<char>, Fault>(Fault::MissingField(name))
                &&& uint_field(entries, name) == Err::<u64, Fault>(Fault::MissingField(name))
                &&& u8_field(entries, name) == Err::<u8, Fault>(Fault::MissingField(name))
                &&& u16_field(entries, name) == Err::<u16, Fault>(Fault::MissingField(name))
                &&& u32_field(entries, name) == Err::<u32, Fault>(Fault::MissingField(name))
                &&& bool_field(entries, name) == Err::<bool, Fault>(Fault::MissingField(name))
                &&& array_field(entries, name) == Err::<Seq<Item>, Fault>(
                    Fault::MissingField(name),
                )
                &&& optional_bytes_field(entries, name) == Ok::<Option<Seq<u8>>, Fault>(None)
                &&& optional_u32_field(entries, name) == Ok::<Option<u32>, Fault>(None)
            },
            Some(v) => {
                &&& required(entries, name) == Ok::<Item, Fault>(v)
                &&& bytes_field(entries, name) == if v is Bytes {
                    Ok::<Seq<u8>, Fault>(v->Bytes_0)
                } else {
                    Err(Fault::WrongType(name))
                }
                &&& text_field(entries, name) == if v is Text {
                    Ok::<Seq<char>, Fault>(v->Text_0)
                } else {
                    Err(Fault::WrongType(name))
                }
                &&& uint_field(entries, name) == if v is Uint {
                    Ok::<u64, Fault>(v->Uint_0)
                } else {
                    Err(Fault::WrongType(name))
                }
                &&& u8_field(entries, name) == if !(v is Uint) {
                    Err::<u8, Fault>(Fault::WrongType(name))
                } else if v->Uint_0 < 0x100 {
                    Ok(v->Uint_0 as u8)
                } else {
                    Err(Fault::IntOutOfRange(name))
                }
                &&& u16_field(entries, name) == if !(v is Uint) {
                    Err::<u16, Fault>(Fault::WrongType(name))
                } else if v->Uint_0 < 0x1_0000 {
                    Ok(v->Uint_0 as u16)
                } else {
                    Err(Fault::IntOutOfRange(name))
                }
                &&& u32_field(entries, name) == if !(v is Uint) {
                    Err::<u32, Fault>(Fault::WrongType(name))
                } else if v->Uint_0 < 0x1_0000_0000 {
                    Ok(v->Uint_0 as u32)
                } else {
                    Err(Fault::IntOutOfRange(name))
                }
                &&& bool_field(entries, name) == if v is Bool {
                    Ok::<bool, Fault>(v->Bool_0)
                } else {
                    Err(Fault::WrongType(name))
                }
                &&& array_field(entries, name) == if v is Array {
                    Ok::<Seq<Item>, Fault>(v->Array_0)
                } else {
                    Err(Fault::WrongType(name))
                }
                &&& optional_bytes_field(entries, name) == if v is Bytes {
                    Ok::<Option<Seq<u8>>, Fault>(Some(v->Bytes_0))
                } else {
                    Err(Fault::WrongType(name))
                }
                &&& optional_u32_field(entries, name) == if !(v is Uint) {
                    Err::<Option<u32>, Fault>(Fault::WrongType(name))
                } else if v->Uint_0 < 0x1_0000_0000 {
                    Ok(Some(v->Uint_0 as u32))
                } else {
                    Err(Fault::IntOutOfRange(name))
                }
            },
        },
{
}

/// The value under a name is that of the first entry whose key is the name, and there is none where
/// no key is.
pub proof fn law_first_of_its_name(entries: Seq<(Item, Item)>, name: Seq<char>)
    ensures
        match find_field(entries, name) {
            None => forall|i: int|
                0 <= i < entries.len() ==> (#[trigger] entries[i]).0 != Item::Text(name),
            Some(v) => exists|i: int|
                0 <= i < entries.len() && #[trigger] entries[i] == (Item::Text(name), v)
                    && forall|j: int|
                    0 <= j < i ==> (#[trigger] entries[j]).0 != Item::Text(name),
        },
    decreases entries.len(),
{
    if entries.len() > 0 {
        if entries[0].0 == Item::Text(name) {
            assert(entries[0] == (Item::Text(name), entries[0].1));
        } else {
            let rest = entries.drop_first();
            law_first_of_its_name(rest, name);
            match find_field(rest, name) {
                None => {
                    assert forall|i: int| 0 <= i < entries.len() implies (
                    #[trigger] entries[i]).0 != Item::Text(name) by {
                        if i > 0 {
                            assert(entries[i] == rest[i - 1]);
                        }
                    }
                },
                Some(v) => {
                    let at = choose|i: int|
                        0 <= i < rest.len() && #[trigger] rest[i] == (Item::Text(name), v)
                            && forall|j: int|
                            0 <= j < i ==> (#[trigger] rest[j]).0 != Item::Text(name);
                    assert(entries[at + 1] == (Item::Text(name), v));
                    assert forall|j: int| 0 <= j < at + 1 implies (#[trigger] entries[j]).0
                        != Item::Text(name) by {
                        if j > 0 {
                            assert(entries[j] == rest[j - 1]);
                        }
                    }
                },
            }
        }
    }
}

/// A map with a key that is no allowed name is refused for the first such key: by its name where it
/// is a text, and otherwise for not being one. What is no map is refused as such.
pub proof fn law_refused_for_the_first_foreign_key(item: Item, allowed: Seq<Seq<char>>)
    ensures
        match closed_map(item, allowed) {
            Ok(entries) => item == Item::Mapping(entries) && forall|i: int|
                0 <= i < entries.len() ==> (#[trigger] entries[i]).0 is Text && allowed.contains(
                    entries[i].0->Text_0,
                ),
            Err(f) => match item {
                Item::Mapping(entries) => exists|i: int|
                    0 <= i < entries.len() && is_foreign(#[trigger] entries[i].0, allowed, f)
                        && forall|j: int|
                        0 <= j < i ==> (#[trigger] entries[j]).0 is Text && allowed.contains(
                            entries[j].0->Text_0,
                        ),
                _ => f == Fault::NotAMap,
            },
        },
{
    if let Item::Mapping(entries) = item {
        lemma_foreign(entries, allowed);
    }
}

/// The key is no allowed name, and the fault says so.
pub open spec fn is_foreign(key: Item, allowed: Seq<Seq<char>>, f: Fault) -> bool {
    match key {
        Item::Text(name) => !allowed.contains(name) && f == Fault::UnknownField(name),
        _ => f == Fault::KeyNotText,
    }
}

proof fn lemma_foreign(entries: Seq<(Item, Item)>, allowed: Seq<Seq<char>>)
    ensures
        match foreign_key(entries, allowed) {
            None => forall|i: int|
                0 <= i < entries.len() ==> (#[trigger] entries[i]).0 is Text && allowed.contains(
                    entries[i].0->Text_0,
                ),
            Some(f) => exists|i: int|
                0 <= i < entries.len() && is_foreign(#[trigger] entries[i].0, allowed, f)
                    && forall|j: int|
                    0 <= j < i ==> (#[trigger] entries[j]).0 is Text && allowed.contains(
                        entries[j].0->Text_0,
                    ),
        },
    decreases entries.len(),
{
    if entries.len() > 0 {
        let rest = entries.drop_first();
        lemma_foreign(rest, allowed);
        if entries[0].0 is Text && allowed.contains(entries[0].0->Text_0) {
            match foreign_key(rest, allowed) {
                None => {
                    assert forall|i: int| 0 <= i < entries.len() implies (
                    #[trigger] entries[i]).0 is Text && allowed.contains(entries[i].0->Text_0) by {
                        if i > 0 {
                            assert(entries[i] == rest[i - 1]);
                        }
                    }
                },
                Some(f) => {
                    let at = choose|i: int|
                        0 <= i < rest.len() && is_foreign(#[trigger] rest[i].0, allowed, f)
                            && forall|j: int|
                            0 <= j < i ==> (#[trigger] rest[j]).0 is Text && allowed.contains(
                                rest[j].0->Text_0,
                            );
                    assert(is_foreign(entries[at + 1].0, allowed, f));
                    assert forall|j: int| 0 <= j < at + 1 implies (#[trigger] entries[j]).0 is Text
                        && allowed.contains(entries[j].0->Text_0) by {
                        if j > 0 {
                            assert(entries[j] == rest[j - 1]);
                        }
                    }
                },
            }
        } else {
            assert(is_foreign(entries[0].0, allowed, foreign_key(entries, allowed)->0));
        }
    }
}

/// An error says the fault of its own kind, of the same field.
pub proof fn law_error_is_its_fault(e: ProtoError)
    ensures
        match e {
            ProtoError::NotAMap => e@ == Fault::NotAMap,
            ProtoError::MissingField(name) => e@ == Fault::MissingField(name@),
            ProtoError::UnknownField(name) => e@ == Fault::UnknownField(name@),
            ProtoError::KeyNotText => e@ == Fault::KeyNotText,
            ProtoError::WrongType(name) => e@ == Fault::WrongType(name@),
            ProtoError::IntOutOfRange(name) => e@ == Fault::IntOutOfRange(name@),
            ProtoError::InvalidEnumValue(name, v) => e@ == Fault::InvalidEnumValue(name@, v),
            ProtoError::Cbor(c) => e@ == Fault::Cbor(c),
        },
{
}

} // verus!
