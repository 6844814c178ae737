//! The parts that vector files are made of.
use crate::proto::canonical;
use crate::proto::canonical::CborValue;
use crate::proto::item;
use crate::proto::item::Item;
use crate::text;
use crate::text::same_text;
use crate::vectors::json;
use crate::vectors::json::{Json, JsonItem};
use crate::vectors::mirror;
use crate::vectors::mirror::cbor_to_json;
use vstd::prelude::*;
use vstd::utf8::{decode_utf8, valid_utf8};

verus! {

/// One byte, again and again.
pub open spec fn repeated(byte: u8, len: nat) -> Seq<u8> {
    Seq::new(len, |i: int| byte)
}

/// One byte, again and again: a stand-in for a key, a fingerprint or a signature that is easy to
/// recognize.
pub fn rep(byte: u8, len: usize) -> (bytes: Vec<u8>)
    ensures
        bytes@ == repeated(byte, len as nat),
{
    let mut bytes: Vec<u8> = Vec::new();
    let mut i: usize = 0;
    while i < len
        invariant
            i <= len,
            bytes@ == repeated(byte, i as nat),
        decreases len - i,
    {
        bytes.push(byte);
        i += 1;
        assert(bytes@ =~= repeated(byte, i as nat));
    }
    assert(bytes@ =~= repeated(byte, len as nat));
    bytes
}

/// A value that needs no type beside it: numbers as numbers, byte strings as digits, texts as texts,
/// and anything else spelled out.
pub open spec fn plain(item: Item) -> JsonItem {
    match item {
        Item::Uint(n) => JsonItem::UInt(n),
        Item::Bytes(b) => json::hex_item(b),
        Item::Text(s) => JsonItem::Str(s),
        _ => mirror::mirror(item),
    }
}

/// The value of a field as a vector shows it. The arguments of an admin command are open, so they
/// are spelled out; an array is shown as an array.
pub open spec fn shown(name: Seq<char>, item: Item) -> JsonItem {
    if name == "args"@ {
        mirror::mirror(item)
    } else {
        match item {
            Item::Array(items) => JsonItem::Arr(Seq::new(items.len(), |i: int| plain(items[i]))),
            _ => plain(item),
        }
    }
}

/// The fields of a message as a vector shows them.
pub open spec fn shown_fields(fields: Seq<(Seq<char>, Item)>) -> JsonItem {
    JsonItem::Obj(
        Seq::new(fields.len(), |i: int| (fields[i].0, shown(fields[i].0, fields[i].1))),
    )
}

fn plain_json(v: &CborValue) -> (r: Json)
    ensures
        r@ == plain(v@),
{
    match v {
        CborValue::Uint(n) => Json::UInt(*n),
        CborValue::Bytes(b) => Json::hex(b.as_slice()),
        CborValue::Text(s) => Json::text(s.as_str()),
        _ => cbor_to_json(v),
    }
}

fn shown_json(name: &str, v: &CborValue) -> (r: Json)
    ensures
        r@ == shown(name@, v@),
{
    if same_text(name, "args") {
        return cbor_to_json(v);
    }
    match v {
        CborValue::Array(items) => {
            let mut values: Vec<Json> = Vec::new();
            let total: usize = items.len();
            let mut i: usize = 0;
            while i < total
                invariant
                    i <= total == items@.len(),
                    values@.len() == i,
                    forall|j: int| 0 <= j < i ==> (#[trigger] values@[j])@ == plain(items@[j]@),
                decreases total - i,
            {
                values.push(plain_json(&items[i]));
                i += 1;
            }
            proof {
                canonical::lemma_view_array(*items);
                let inside = canonical::items_of(items@);
                assert(json::values_of(values@) =~= Seq::new(
                    inside.len(),
                    |j: int| plain(inside[j]),
                ));
            }
            Json::array(values)
        },
        _ => plain_json(v),
    }
}

/// The fields of a message as a vector shows them.
pub fn decoded(entries: &Vec<(&'static str, CborValue)>) -> (r: Json)
    ensures
        r@ == shown_fields(canonical::fields_of(entries@)),
{
    let ghost fields = canonical::fields_of(entries@);
    let mut members: Vec<(&'static str, Json)> = Vec::new();
    let total: usize = entries.len();
    let mut i: usize = 0;
    while i < total
        invariant
            i <= total == entries@.len(),
            fields == canonical::fields_of(entries@),
            members@.len() == i,
            forall|j: int|
                0 <= j < i ==> (#[trigger] members@[j]).0@ == fields[j].0 && members@[j].1@
                    == shown(fields[j].0, fields[j].1),
        decreases total - i,
    {
        members.push((entries[i].0, shown_json(entries[i].0, &entries[i].1)));
        i += 1;
    }
    assert(json::members_of(members@) =~= shown_fields(fields)->Obj_0);
    Json::object(members)
}

/// One case of a signed message: a name and a description, the fields, the canonical bytes and what
/// is signed.
pub open spec fn signed_case(
    labels: Seq<&str>,
    fields: Seq<(Seq<char>, Item)>,
    bytes: Seq<u8>,
    input: Seq<u8>,
) -> JsonItem {
    JsonItem::Obj(
        seq![
            ("name"@, JsonItem::Str(labels[0]@)),
            ("description"@, JsonItem::Str(labels[1]@)),
            ("decoded"@, shown_fields(fields)),
            ("canonical_cbor_hex"@, json::hex_item(bytes)),
            ("signing_input_hex"@, json::hex_item(input)),
        ],
    )
}

/// One case of a signed message, from a name and a description.
pub fn case(
    labels: [&'static str; 2],
    entries: &Vec<(&'static str, CborValue)>,
    canonical_cbor: &[u8],
    signing_input: &[u8],
) -> (r: Json)
    ensures
        r@ == signed_case(
            labels@,
            canonical::fields_of(entries@),
            canonical_cbor@,
            signing_input@,
        ),
{
    let members: Vec<(&'static str, Json)> = vec![
        ("name", Json::text(labels[0])),
        ("description", Json::text(labels[1])),
        ("decoded", decoded(entries)),
        ("canonical_cbor_hex", Json::hex(canonical_cbor)),
        ("signing_input_hex", Json::hex(signing_input)),
    ];
    assert(json::members_of(members@) =~= signed_case(
        labels@,
        canonical::fields_of(entries@),
        canonical_cbor@,
        signing_input@,
    )->Obj_0);
    Json::object(members)
}

/// The text of a tag.
pub open spec fn tag_text(tag: Seq<u8>) -> Seq<char> {
    if valid_utf8(tag) {
        decode_utf8(tag)
    } else {
        Seq::empty()
    }
}

/// The file of one kind of signed message.
pub open spec fn signed_file(artifact: Seq<char>, tag: Seq<u8>, cases: Seq<JsonItem>) -> JsonItem {
    JsonItem::Obj(
        seq![
            ("artifact"@, JsonItem::Str(artifact)),
            ("domain_tag"@, JsonItem::Str(tag_text(tag))),
            ("cases"@, JsonItem::Arr(cases)),
        ],
    )
}

/// The file of one kind of signed message.
pub fn artifact_file(artifact: &'static str, tag: &[u8], cases: Vec<Json>) -> (r: Json)
    ensures
        r@ == signed_file(artifact@, tag@, json::values_of(cases@)),
{
    let shown_tag = match text::utf8_text(tag) {
        Some(s) => {
            proof {
                vstd::utf8::encode_utf8_decode_utf8(s@);
            }
            s
        },
        None => String::new(),
    };
    assert(shown_tag@ =~= tag_text(tag@));
    let ghost listed = json::values_of(cases@);
    let members: Vec<(&'static str, Json)> = vec![
        ("artifact", Json::text(artifact)),
        ("domain_tag", Json::Str(shown_tag)),
        ("cases", Json::array(cases)),
    ];
    assert(json::members_of(members@) =~= signed_file(artifact@, tag@, listed)->Obj_0);
    Json::object(members)
}

/// One case of an item or an unsigned message.
pub open spec fn unsigned_case(labels: Seq<&str>, shown_as: Seq<char>, item: Item, bytes: Seq<
    u8,
>) -> JsonItem {
    JsonItem::Obj(
        seq![
            ("name"@, JsonItem::Str(labels[0]@)),
            ("description"@, JsonItem::Str(labels[1]@)),
            (shown_as, mirror::mirror(item)),
            ("canonical_cbor_hex"@, json::hex_item(bytes)),
        ],
    )
}

// ---- what a case shows ----

/// One byte, again and again.
pub proof fn law_repeated(byte: u8, len: nat)
    ensures
        repeated(byte, len).len() == len,
        forall|i: int| 0 <= i < len ==> #[trigger] repeated(byte, len)[i] == byte,
{
}

/// What is shown of an item tells the item: a number is shown as itself, a text as itself, bytes as
/// their digits, and anything else spelled out.
pub proof fn law_plain_tells_the_item(item: Item)
    ensures
        match item {
            Item::Uint(n) => plain(item) == JsonItem::UInt(n),
            Item::Text(s) => plain(item) == JsonItem::Str(s),
            Item::Bytes(b) => plain(item) matches JsonItem::Str(digits) && mirror::unhex(digits)
                == b,
            _ => mirror::rebuilt(plain(item)) == Some(item),
        },
{
    match item {
        Item::Bytes(b) => mirror::law_unhex(b),
        _ => mirror::law_rebuilt(item),
    }
}

/// The fields of a message are shown one by one, in their order and each under its name: arguments
/// spelled out, an array as an array, and anything else plainly.
pub proof fn law_fields_are_shown(fields: Seq<(Seq<char>, Item)>, i: int)
    requires
        0 <= i < fields.len(),
    ensures
        shown_fields(fields) matches JsonItem::Obj(members) && members.len() == fields.len()
            && members[i].0 == fields[i].0 && if fields[i].0 == "args"@ {
            mirror::rebuilt(members[i].1) == Some(fields[i].1)
        } else {
            match fields[i].1 {
                Item::Array(items) => members[i].1 matches JsonItem::Arr(values) && values.len()
                    == items.len() && forall|k: int|
                    0 <= k < items.len() ==> #[trigger] values[k] == plain(items[k]),
                _ => members[i].1 == plain(fields[i].1),
            }
        },
{
    mirror::law_rebuilt(fields[i].1);
}

/// A case of a signed message shows its name, its fields, its canonical bytes and what is signed,
/// the bytes as digits that stand for them.
pub proof fn law_signed_case_shows(
    labels: Seq<&str>,
    fields: Seq<(Seq<char>, Item)>,
    bytes: Seq<u8>,
    input: Seq<u8>,
)
    ensures
        signed_case(labels, fields, bytes, input) matches JsonItem::Obj(members) && {
            &&& members.len() == 5
            &&& members[0] == ("name"@, JsonItem::Str(labels[0]@))
            &&& members[1] == ("description"@, JsonItem::Str(labels[1]@))
            &&& members[2] == ("decoded"@, shown_fields(fields))
            &&& members[3].0 == "canonical_cbor_hex"@
            &&& members[3].1 matches JsonItem::Str(digits) && mirror::unhex(digits) == bytes
            &&& members[4].0 == "signing_input_hex"@
            &&& members[4].1 matches JsonItem::Str(digits) && mirror::unhex(digits) == input
        },
{
    mirror::law_unhex(bytes);
    mirror::law_unhex(input);
}

/// The file of a signed message names it, spells its tag and lists its cases.
pub proof fn law_signed_file_shows(artifact: Seq<char>, tag: Seq<u8>, cases: Seq<JsonItem>)
    ensures
        signed_file(artifact, tag, cases) matches JsonItem::Obj(members) && {
            &&& members.len() == 3
            &&& members[0] == ("artifact"@, JsonItem::Str(artifact))
            &&& members[1].0 == "domain_tag"@
            &&& members[1].1 matches JsonItem::Str(spelled) && (valid_utf8(tag)
                ==> vstd::utf8::encode_utf8(spelled) == tag)
            &&& members[2] == ("cases"@, JsonItem::Arr(cases))
        },
{
    if valid_utf8(tag) {
        vstd::utf8::decode_utf8_encode_utf8(tag);
    }
}

/// The case has this name, shows this item under `shown_as`, and holds the canonical bytes of the
/// item.
pub open spec fn shows(case: JsonItem, name: Seq<char>, shown_as: Seq<char>, value: Item) -> bool {
    case matches JsonItem::Obj(members) && {
        &&& members.len() == 4
        &&& members[0] == ("name"@, JsonItem::Str(name))
        &&& members[1].0 == "description"@
        &&& members[2].0 == shown_as
        &&& mirror::rebuilt(members[2].1) == Some(value)
        &&& members[3].0 == "canonical_cbor_hex"@
        &&& members[3].1 matches JsonItem::Str(digits) && mirror::unhex(digits) == item::encoding(
            value,
        )
    }
}

/// A case of an item shows the item and holds its canonical bytes.
pub proof fn law_unsigned_case_shows(labels: Seq<&str>, shown_as: Seq<char>, value: Item)
    ensures
        shows(
            unsigned_case(labels, shown_as, value, item::encoding(value)),
            labels[0]@,
            shown_as,
            value,
        ),
{
    mirror::law_rebuilt(value);
    mirror::law_unhex(item::encoding(value));
}

} // verus!
