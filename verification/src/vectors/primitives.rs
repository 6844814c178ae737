//! Vectors of single CBOR items, for checking a canonical encoder byte by byte.
use crate::proto::canonical;
use crate::proto::canonical::{canonical_encode, CborValue};
use crate::proto::item;
use crate::proto::item::Item;
use crate::proto::record;
use crate::vectors::cases;
use crate::vectors::json;
use crate::vectors::json::{Json, JsonItem};
use crate::vectors::mirror::cbor_to_json;
use vstd::prelude::*;

verus! {

/// What the file is about.
pub const ABOUT: &'static str = "Primitive canonical-CBOR encoding cases (RFC 8949 §4.2.1), independent of any Spindle artifact type — for validating a canonical CBOR encoder at the byte level.";

/// Name and description of the case.
pub const UINT_0: [&'static str; 2] = [
    "uint_0",
    "Smallest uint; fits in the initial byte.",
];

/// Name and description of the case.
pub const UINT_23: [&'static str; 2] = [
    "uint_23",
    "Largest uint that fits in the initial byte (additional info 0-23).",
];

/// Name and description of the case.
pub const UINT_24: [&'static str; 2] = [
    "uint_24",
    "Smallest uint requiring the 1-byte-argument form (additional info 24).",
];

/// Name and description of the case.
pub const UINT_255: [&'static str; 2] = [
    "uint_255",
    "Largest uint fitting the 1-byte-argument form.",
];

/// Name and description of the case.
pub const UINT_256: [&'static str; 2] = [
    "uint_256",
    "Smallest uint requiring the 2-byte-argument form (additional info 25).",
];

/// Name and description of the case.
pub const UINT_65535: [&'static str; 2] = [
    "uint_65535",
    "Largest uint fitting the 2-byte-argument form.",
];

/// Name and description of the case.
pub const UINT_65536: [&'static str; 2] = [
    "uint_65536",
    "Smallest uint requiring the 4-byte-argument form (additional info 26).",
];

/// Name and description of the case.
pub const UINT_4294967295: [&'static str; 2] = [
    "uint_4294967295",
    "Largest uint fitting the 4-byte-argument form.",
];

/// Name and description of the case.
pub const UINT_4294967296: [&'static str; 2] = [
    "uint_4294967296",
    "Smallest uint requiring the 8-byte-argument form (additional info 27).",
];

/// Name and description of the case.
pub const NEGINT_MINUS_1: [&'static str; 2] = [
    "negint_minus_1",
    "Smallest-magnitude negative integer: CBOR major type 1, argument 0, logical value -1.",
];

/// Name and description of the case.
pub const NEGINT_MINUS_100: [&'static str; 2] = [
    "negint_minus_100",
    "A negative integer requiring the 1-byte-argument form (magnitude 99, logical value -100).",
];

/// Name and description of the case.
pub const BYTE_STRING_EMPTY: [&'static str; 2] = [
    "byte_string_empty",
    "Zero-length byte string.",
];

/// Name and description of the case.
pub const BYTE_STRING_SHORT: [&'static str; 2] = [
    "byte_string_short",
    "A short byte string.",
];

/// Name and description of the case.
pub const TEXT_STRING: [&'static str; 2] = [
    "text_string",
    "A short UTF-8 text string.",
];

/// Name and description of the case.
pub const ARRAY_OF_UINTS: [&'static str; 2] = [
    "array_of_uints",
    "A definite-length array of three small unsigned integers.",
];

/// Name and description of the case.
pub const ARRAY_EMPTY: [&'static str; 2] = [
    "array_empty",
    "Zero-length array.",
];

/// Name and description of the case.
pub const MAP_KEY_ORDERING_BY_LENGTH: [&'static str; 2] = [
    "map_key_ordering_by_length",
    "Map with keys \"aa\" and \"z\", constructed in that insertion order. Canonical order sorts by each key's own encoded bytes, so the shorter key \"z\" (1-byte header) is emitted before the longer key \"aa\" (2-byte header) even though \"aa\" < \"z\" lexicographically — this is the encoder reordering entries, not an input error.",
];

/// Name and description of the case.
pub const MAP_KEY_ORDERING_SAME_LENGTH: [&'static str; 2] = [
    "map_key_ordering_same_length",
    "Map with same-length keys \"bb\" and \"ac\", constructed out of canonical order; canonical order falls back to byte-lexicographic comparison of the key content, so \"ac\" sorts before \"bb\".",
];

/// Name and description of the case.
pub const MAP_NESTED: [&'static str; 2] = [
    "map_nested",
    "A map whose value is itself an array and whose value is itself a map, exercising recursive canonical encoding.",
];

/// Name and description of the case.
pub const BOOL_TRUE: [&'static str; 2] = [
    "bool_true",
    "The simple value `true`.",
];

/// Name and description of the case.
pub const BOOL_FALSE: [&'static str; 2] = [
    "bool_false",
    "The simple value `false`.",
];

/// Name and description of the case.
pub const NULL: [&'static str; 2] = [
    "null",
    "The simple value `null`.",
];

/// One case: the item spelled out, and its canonical bytes.
pub open spec fn item_case(labels: Seq<&str>, value: Item) -> JsonItem {
    cases::unsigned_case(labels, "value"@, value, item::encoding(value))
}

fn prim_case(labels: [&'static str; 2], v: CborValue) -> (r: Json)
    requires
        item::keys_unique(v@),
    ensures
        r@ == item_case(labels@, v@),
{
    let bytes = canonical_encode(&v);
    let members: Vec<(&'static str, Json)> = vec![
        ("name", Json::text(labels[0])),
        ("description", Json::text(labels[1])),
        ("value", cbor_to_json(&v)),
        ("canonical_cbor_hex", Json::hex(bytes.as_slice())),
    ];
    assert(json::members_of(members@) =~= item_case(labels@, v@)->Obj_0);
    Json::object(members)
}

/// The item of the case.
pub open spec fn byte_string_empty() -> Item {
    Item::Bytes(Seq::empty())
}

fn make_byte_string_empty() -> (v: CborValue)
    ensures
        v@ == byte_string_empty(),
        item::keys_unique(v@),
{
    let bytes: Vec<u8> = Vec::new();
    assert(bytes@ =~= Seq::<u8>::empty());
    CborValue::bytes(bytes)
}

/// The item of the case.
pub open spec fn byte_string_short() -> Item {
    Item::Bytes(seq![0xdeu8, 0xadu8, 0xbeu8, 0xefu8])
}

fn make_byte_string_short() -> (v: CborValue)
    ensures
        v@ == byte_string_short(),
        item::keys_unique(v@),
{
    let bytes: Vec<u8> = vec![0xde, 0xad, 0xbe, 0xef];
    assert(bytes@ =~= seq![0xdeu8, 0xadu8, 0xbeu8, 0xefu8]);
    CborValue::bytes(bytes)
}

/// The item of the case.
pub open spec fn array_of_uints() -> Item {
    Item::Array(seq![Item::Uint(1), Item::Uint(2), Item::Uint(3)])
}

fn make_array_of_uints() -> (v: CborValue)
    ensures
        v@ == array_of_uints(),
        item::keys_unique(v@),
{
    let items: Vec<CborValue> = vec![CborValue::uint(1), CborValue::uint(2), CborValue::uint(3)];
    let ghost inside = seq![Item::Uint(1), Item::Uint(2), Item::Uint(3)];
    assert(canonical::items_of(items@) =~= inside);
    assert forall|i: int| 0 <= i < inside.len() implies item::keys_unique(#[trigger] inside[i]) by {}
    assert(item::keys_unique(Item::Array(inside)));
    CborValue::array(items)
}

/// The item of the case.
pub open spec fn array_empty() -> Item {
    Item::Array(Seq::empty())
}

fn make_array_empty() -> (v: CborValue)
    ensures
        v@ == array_empty(),
        item::keys_unique(v@),
{
    let items: Vec<CborValue> = Vec::new();
    let ghost inside = Seq::<Item>::empty();
    assert(canonical::items_of(items@) =~= inside);
    assert forall|i: int| 0 <= i < inside.len() implies item::keys_unique(#[trigger] inside[i]) by {}
    assert(item::keys_unique(Item::Array(inside)));
    CborValue::array(items)
}

/// The item of the case.
pub open spec fn map_key_ordering_by_length() -> Item {
    item::record(seq![("aa"@, Item::Uint(1)), ("z"@, Item::Uint(2))])
}

fn make_map_key_ordering_by_length() -> (v: CborValue)
    ensures
        v@ == map_key_ordering_by_length(),
        item::keys_unique(v@),
{
    let entries: Vec<(&'static str, CborValue)> = vec![("aa", CborValue::uint(1)), ("z", CborValue::uint(2))];
    let ghost fields = seq![("aa"@, Item::Uint(1)), ("z"@, Item::Uint(2))];
    assert(canonical::fields_of(entries@) =~= fields);
    proof {
        reveal_strlit("aa");
        reveal_strlit("z");
        assert("aa"@.len() == 2);
        assert("z"@.len() == 1);
        record::lemma_record_unique(fields);
    }
    CborValue::map(entries)
}

/// The item of the case.
pub open spec fn map_key_ordering_same_length() -> Item {
    item::record(seq![("bb"@, Item::Uint(1)), ("ac"@, Item::Uint(2))])
}

fn make_map_key_ordering_same_length() -> (v: CborValue)
    ensures
        v@ == map_key_ordering_same_length(),
        item::keys_unique(v@),
{
    let entries: Vec<(&'static str, CborValue)> = vec![("bb", CborValue::uint(1)), ("ac", CborValue::uint(2))];
    let ghost fields = seq![("bb"@, Item::Uint(1)), ("ac"@, Item::Uint(2))];
    assert(canonical::fields_of(entries@) =~= fields);
    proof {
        reveal_strlit("bb");
        reveal_strlit("ac");
        assert("bb"@.len() == 2);
        assert("ac"@.len() == 2);
        assert("bb"@[0] != "ac"@[0]);
        record::lemma_record_unique(fields);
    }
    CborValue::map(entries)
}

/// The item of the case.
pub open spec fn map_nested() -> Item {
    item::record(seq![("items"@, Item::Array(seq![item::record(seq![("id"@, Item::Uint(1))]), item::record(seq![("id"@, Item::Uint(2))])]))])
}

fn make_map_nested() -> (v: CborValue)
    ensures
        v@ == map_nested(),
        item::keys_unique(v@),
{
    let first: Vec<(&'static str, CborValue)> = vec![("id", CborValue::uint(1))];
    let second: Vec<(&'static str, CborValue)> = vec![("id", CborValue::uint(2))];
    let ghost one = seq![("id"@, Item::Uint(1))];
    let ghost two = seq![("id"@, Item::Uint(2))];
    assert(canonical::fields_of(first@) =~= one);
    assert(canonical::fields_of(second@) =~= two);
    let items: Vec<CborValue> = vec![CborValue::map(first), CborValue::map(second)];
    let ghost inside = seq![item::record(one), item::record(two)];
    assert(canonical::items_of(items@) =~= inside);
    let entries: Vec<(&'static str, CborValue)> = vec![("items", CborValue::array(items))];
    let ghost fields = seq![("items"@, Item::Array(inside))];
    assert(canonical::fields_of(entries@) =~= fields);
    proof {
        record::lemma_record_unique(one);
        record::lemma_record_unique(two);
        assert(item::keys_unique(inside[0]) && item::keys_unique(inside[1]));
        assert(item::keys_unique(Item::Array(inside)));
        record::lemma_record_unique(fields);
    }
    CborValue::map(entries)
}

/// The cases.
pub open spec fn item_cases() -> Seq<JsonItem> {
    seq![
        item_case(UINT_0@, Item::Uint(0)),
        item_case(UINT_23@, Item::Uint(23)),
        item_case(UINT_24@, Item::Uint(24)),
        item_case(UINT_255@, Item::Uint(255)),
        item_case(UINT_256@, Item::Uint(256)),
        item_case(UINT_65535@, Item::Uint(65535)),
        item_case(UINT_65536@, Item::Uint(65536)),
        item_case(UINT_4294967295@, Item::Uint(4_294_967_295)),
        item_case(UINT_4294967296@, Item::Uint(4_294_967_296)),
        item_case(NEGINT_MINUS_1@, Item::NegInt(0)),
        item_case(NEGINT_MINUS_100@, Item::NegInt(99)),
        item_case(BYTE_STRING_EMPTY@, byte_string_empty()),
        item_case(BYTE_STRING_SHORT@, byte_string_short()),
        item_case(TEXT_STRING@, Item::Text("spindle"@)),
        item_case(ARRAY_OF_UINTS@, array_of_uints()),
        item_case(ARRAY_EMPTY@, array_empty()),
        item_case(MAP_KEY_ORDERING_BY_LENGTH@, map_key_ordering_by_length()),
        item_case(MAP_KEY_ORDERING_SAME_LENGTH@, map_key_ordering_same_length()),
        item_case(MAP_NESTED@, map_nested()),
        item_case(BOOL_TRUE@, Item::Bool(true)),
        item_case(BOOL_FALSE@, Item::Bool(false)),
        item_case(NULL@, Item::Null),
    ]
}

/// The file.
pub open spec fn item_file() -> JsonItem {
    JsonItem::Obj(
        seq![("description"@, JsonItem::Str(ABOUT@)), ("cases"@, JsonItem::Arr(item_cases()))],
    )
}

/// The vectors of single items.
pub fn canonical_cbor_vectors() -> (r: Json)
    ensures
        r@ == item_file(),
{
    let listed: Vec<Json> = vec![
        prim_case(UINT_0, CborValue::uint(0)),
        prim_case(UINT_23, CborValue::uint(23)),
        prim_case(UINT_24, CborValue::uint(24)),
        prim_case(UINT_255, CborValue::uint(255)),
        prim_case(UINT_256, CborValue::uint(256)),
        prim_case(UINT_65535, CborValue::uint(65535)),
        prim_case(UINT_65536, CborValue::uint(65536)),
        prim_case(UINT_4294967295, CborValue::uint(4_294_967_295)),
        prim_case(UINT_4294967296, CborValue::uint(4_294_967_296)),
        prim_case(NEGINT_MINUS_1, CborValue::NegInt(0)),
        prim_case(NEGINT_MINUS_100, CborValue::NegInt(99)),
        prim_case(BYTE_STRING_EMPTY, make_byte_string_empty()),
        prim_case(BYTE_STRING_SHORT, make_byte_string_short()),
        prim_case(TEXT_STRING, CborValue::text("spindle")),
        prim_case(ARRAY_OF_UINTS, make_array_of_uints()),
        prim_case(ARRAY_EMPTY, make_array_empty()),
        prim_case(MAP_KEY_ORDERING_BY_LENGTH, make_map_key_ordering_by_length()),
        prim_case(MAP_KEY_ORDERING_SAME_LENGTH, make_map_key_ordering_same_length()),
        prim_case(MAP_NESTED, make_map_nested()),
        prim_case(BOOL_TRUE, CborValue::Bool(true)),
        prim_case(BOOL_FALSE, CborValue::Bool(false)),
        prim_case(NULL, CborValue::Null),
    ];
    assert(json::values_of(listed@) =~= item_cases());
    let members: Vec<(&'static str, Json)> = vec![
        ("description", Json::text(ABOUT)),
        ("cases", Json::array(listed)),
    ];
    assert(json::members_of(members@) =~= item_file()->Obj_0);
    Json::object(members)
}

/// The cases, by name and item. A case that is named after a number holds that number.
pub proof fn law_item_cases_show()
    ensures
        item_cases().len() == 22,
        cases::shows(
            item_cases()[0],
            "uint_0"@,
            "value"@,
            Item::Uint(0),
        ),
        cases::shows(
            item_cases()[1],
            "uint_23"@,
            "value"@,
            Item::Uint(23),
        ),
        cases::shows(
            item_cases()[2],
            "uint_24"@,
            "value"@,
            Item::Uint(24),
        ),
        cases::shows(
            item_cases()[3],
            "uint_255"@,
            "value"@,
            Item::Uint(255),
        ),
        cases::shows(
            item_cases()[4],
            "uint_256"@,
            "value"@,
            Item::Uint(256),
        ),
        cases::shows(
            item_cases()[5],
            "uint_65535"@,
            "value"@,
            Item::Uint(65535),
        ),
        cases::shows(
            item_cases()[6],
            "uint_65536"@,
            "value"@,
            Item::Uint(65536),
        ),
        cases::shows(
            item_cases()[7],
            "uint_4294967295"@,
            "value"@,
            Item::Uint(4_294_967_295),
        ),
        cases::shows(
            item_cases()[8],
            "uint_4294967296"@,
            "value"@,
            Item::Uint(4_294_967_296),
        ),
        cases::shows(
            item_cases()[9],
            "negint_minus_1"@,
            "value"@,
            Item::NegInt(0),
        ),
        cases::shows(
            item_cases()[10],
            "negint_minus_100"@,
            "value"@,
            Item::NegInt(99),
        ),
        cases::shows(
            item_cases()[11],
            "byte_string_empty"@,
            "value"@,
            Item::Bytes(Seq::empty()),
        ),
        cases::shows(
            item_cases()[12],
            "byte_string_short"@,
            "value"@,
            Item::Bytes(seq![0xdeu8, 0xadu8, 0xbeu8, 0xefu8]),
        ),
        cases::shows(
            item_cases()[13],
            "text_string"@,
            "value"@,
            Item::Text("spindle"@),
        ),
        cases::shows(
            item_cases()[14],
            "array_of_uints"@,
            "value"@,
            Item::Array(seq![Item::Uint(1), Item::Uint(2), Item::Uint(3)]),
        ),
        cases::shows(
            item_cases()[15],
            "array_empty"@,
            "value"@,
            Item::Array(Seq::empty()),
        ),
        cases::shows(
            item_cases()[16],
            "map_key_ordering_by_length"@,
            "value"@,
            item::record(seq![("aa"@, Item::Uint(1)), ("z"@, Item::Uint(2))]),
        ),
        cases::shows(
            item_cases()[17],
            "map_key_ordering_same_length"@,
            "value"@,
            item::record(seq![("bb"@, Item::Uint(1)), ("ac"@, Item::Uint(2))]),
        ),
        cases::shows(
            item_cases()[18],
            "map_nested"@,
            "value"@,
            item::record(
                seq![
                    (
                        "items"@,
                        Item::Array(
                            seq![
                                item::record(seq![("id"@, Item::Uint(1))]),
                                item::record(seq![("id"@, Item::Uint(2))]),
                            ],
                        ),
                    ),
                ],
            ),
        ),
        cases::shows(
            item_cases()[19],
            "bool_true"@,
            "value"@,
            Item::Bool(true),
        ),
        cases::shows(
            item_cases()[20],
            "bool_false"@,
            "value"@,
            Item::Bool(false),
        ),
        cases::shows(
            item_cases()[21],
            "null"@,
            "value"@,
            Item::Null,
        ),
{
    cases::law_unsigned_case_shows(
        UINT_0@,
        "value"@,
        Item::Uint(0),
    );
    cases::law_unsigned_case_shows(
        UINT_23@,
        "value"@,
        Item::Uint(23),
    );
    cases::law_unsigned_case_shows(
        UINT_24@,
        "value"@,
        Item::Uint(24),
    );
    cases::law_unsigned_case_shows(
        UINT_255@,
        "value"@,
        Item::Uint(255),
    );
    cases::law_unsigned_case_shows(
        UINT_256@,
        "value"@,
        Item::Uint(256),
    );
    cases::law_unsigned_case_shows(
        UINT_65535@,
        "value"@,
        Item::Uint(65535),
    );
    cases::law_unsigned_case_shows(
        UINT_65536@,
        "value"@,
        Item::Uint(65536),
    );
    cases::law_unsigned_case_shows(
        UINT_4294967295@,
        "value"@,
        Item::Uint(4_294_967_295),
    );
    cases::law_unsigned_case_shows(
        UINT_4294967296@,
        "value"@,
        Item::Uint(4_294_967_296),
    );
    cases::law_unsigned_case_shows(
        NEGINT_MINUS_1@,
        "value"@,
        Item::NegInt(0),
    );
    cases::law_unsigned_case_shows(
        NEGINT_MINUS_100@,
        "value"@,
        Item::NegInt(99),
    );
    cases::law_unsigned_case_shows(
        BYTE_STRING_EMPTY@,
        "value"@,
        Item::Bytes(Seq::empty()),
    );
    cases::law_unsigned_case_shows(
        BYTE_STRING_SHORT@,
        "value"@,
        Item::Bytes(seq![0xdeu8, 0xadu8, 0xbeu8, 0xefu8]),
    );
    cases::law_unsigned_case_shows(
        TEXT_STRING@,
        "value"@,
        Item::Text("spindle"@),
    );
    cases::law_unsigned_case_shows(
        ARRAY_OF_UINTS@,
        "value"@,
        Item::Array(seq![Item::Uint(1), Item::Uint(2), Item::Uint(3)]),
    );
    cases::law_unsigned_case_shows(
        ARRAY_EMPTY@,
        "value"@,
        Item::Array(Seq::empty()),
    );
    cases::law_unsigned_case_shows(
        MAP_KEY_ORDERING_BY_LENGTH@,
        "value"@,
        item::record(seq![("aa"@, Item::Uint(1)), ("z"@, Item::Uint(2))]),
    );
    cases::law_unsigned_case_shows(
        MAP_KEY_ORDERING_SAME_LENGTH@,
        "value"@,
        item::record(seq![("bb"@, Item::Uint(1)), ("ac"@, Item::Uint(2))]),
    );
    cases::law_unsigned_case_shows(
        MAP_NESTED@,
        "value"@,
        item::record(
            seq![
                (
                    "items"@,
                    Item::Array(
                        seq![
                            item::record(seq![("id"@, Item::Uint(1))]),
                            item::record(seq![("id"@, Item::Uint(2))]),
                        ],
                    ),
                ),
            ],
        ),
    );
    cases::law_unsigned_case_shows(
        BOOL_TRUE@,
        "value"@,
        Item::Bool(true),
    );
    cases::law_unsigned_case_shows(
        BOOL_FALSE@,
        "value"@,
        Item::Bool(false),
    );
    cases::law_unsigned_case_shows(
        NULL@,
        "value"@,
        Item::Null,
    );
}

/// The file says what it is about and lists the cases.
pub proof fn law_item_file_shows()
    ensures
        item_file() matches JsonItem::Obj(members) && {
            &&& members.len() == 2
            &&& members[0] == ("description"@, JsonItem::Str(ABOUT@))
            &&& members[1] == ("cases"@, JsonItem::Arr(item_cases()))
        },
{
}

} // verus!
