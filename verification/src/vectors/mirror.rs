//! CBOR items as JSON, with their types spelled out.
use crate::proto::canonical;
use crate::proto::canonical::CborValue;
use crate::proto::item::Item;
use crate::text;
use crate::vectors::json;
use crate::vectors::json::{Json, JsonItem};
use vstd::prelude::*;

verus! {

/// `{"type": .., "value": ..}`.
pub open spec fn typed(name: Seq<char>, value: JsonItem) -> JsonItem {
    JsonItem::Obj(seq![("type"@, JsonItem::Str(name)), ("value"@, value)])
}

/// The number that a negative item stands for. Below the smallest signed 64-bit number it wraps.
pub open spec fn logical(n: u64) -> i64 {
    (-1 - (n as i64)) as i64
}

/// An item as JSON: its type is named, so that it can be rebuilt from JSON's looser types.
pub open spec fn mirror(item: Item) -> JsonItem
    decreases item,
{
    match item {
        Item::Uint(n) => typed("uint"@, JsonItem::UInt(n)),
        Item::NegInt(n) => JsonItem::Obj(
            seq![
                ("type"@, JsonItem::Str("negint"@)),
                ("magnitude"@, JsonItem::UInt(n)),
                ("value"@, JsonItem::SInt(logical(n))),
            ],
        ),
        Item::Bytes(b) => typed("bytes"@, json::hex_item(b)),
        Item::Text(s) => typed("text"@, JsonItem::Str(s)),
        Item::Array(items) => typed("array"@, JsonItem::Arr(mirror_items(items))),
        Item::Mapping(entries) => typed("map"@, JsonItem::Arr(mirror_entries(entries))),
        Item::Bool(b) => typed("bool"@, JsonItem::Bool(b)),
        Item::Null => JsonItem::Obj(seq![("type"@, JsonItem::Str("null"@))]),
    }
}

/// The items of an array as JSON.
pub open spec fn mirror_items(items: Seq<Item>) -> Seq<JsonItem>
    decreases items,
{
    if items.len() == 0 {
        Seq::empty()
    } else {
        mirror_items(items.drop_last()).push(mirror(items.last()))
    }
}

/// The entries of a map as JSON, as `{"key": .., "value": ..}`.
pub open spec fn mirror_entries(entries: Seq<(Item, Item)>) -> Seq<JsonItem>
    decreases entries,
{
    if entries.len() == 0 {
        Seq::empty()
    } else {
        mirror_entries(entries.drop_last()).push(
            JsonItem::Obj(
                seq![
                    ("key"@, mirror(entries.last().0)),
                    ("value"@, mirror(entries.last().1)),
                ],
            ),
        )
    }
}

fn typed_json(name: &str, value: Json) -> (r: Json)
    ensures
        r@ == typed(name@, value@),
{
    let entries: Vec<(&'static str, Json)> = vec![("type", Json::text(name)), ("value", value)];
    assert(json::members_of(entries@) =~= typed(name@, value@)->Obj_0);
    Json::object(entries)
}

/// An item as JSON.
pub fn cbor_to_json(v: &CborValue) -> (r: Json)
    ensures
        r@ == mirror(v@),
    decreases *v,
{
    match v {
        CborValue::Uint(n) => typed_json("uint", Json::UInt(*n)),
        CborValue::NegInt(n) => {
            let value: i64 = -1i64 - (*n as i64);
            let entries: Vec<(&'static str, Json)> = vec![
                ("type", Json::text("negint")),
                ("magnitude", Json::UInt(*n)),
                ("value", Json::SInt(value)),
            ];
            assert(json::members_of(entries@) =~= mirror(v@)->Obj_0);
            Json::object(entries)
        },
        CborValue::Bytes(b) => typed_json("bytes", Json::hex(b.as_slice())),
        CborValue::Text(s) => typed_json("text", Json::text(s.as_str())),
        CborValue::Array(items) => {
            let ghost inside = canonical::items_of(items@);
            let mut values: Vec<Json> = Vec::new();
            let total: usize = items.len();
            let mut i: usize = 0;
            assert(json::values_of(values@) =~= mirror_items(inside.take(0)));
            while i < total
                invariant
                    i <= total == items@.len(),
                    *v == CborValue::Array(*items),
                    inside == canonical::items_of(items@),
                    json::values_of(values@) == mirror_items(inside.take(i as int)),
                decreases total - i,
            {
                assert(decreases_to!(*v => v->Array_0));
                assert(decreases_to!(*items => items@[i as int]));
                assert(decreases_to!(*v => items@[i as int]));
                let ghost before = json::values_of(values@);
                let value = cbor_to_json(&items[i]);
                values.push(value);
                assert(json::values_of(values@) =~= before.push(value@));
                assert(inside.take(i + 1).drop_last() =~= inside.take(i as int));
                assert(inside.take(i + 1).last() == items@[i as int]@);
                i += 1;
            }
            assert(inside.take(total as int) =~= inside);
            proof {
                canonical::lemma_view_array(*items);
            }
            typed_json("array", Json::array(values))
        },
        CborValue::Mapping(entries) => {
            let ghost inside = canonical::entries_of(entries@);
            let mut values: Vec<Json> = Vec::new();
            let total: usize = entries.len();
            let mut i: usize = 0;
            assert(json::values_of(values@) =~= mirror_entries(inside.take(0)));
            while i < total
                invariant
                    i <= total == entries@.len(),
                    *v == CborValue::Mapping(*entries),
                    inside == canonical::entries_of(entries@),
                    json::values_of(values@) == mirror_entries(inside.take(i as int)),
                decreases total - i,
            {
                assert(decreases_to!(*v => v->Mapping_0));
                assert(decreases_to!(*entries => entries@[i as int]));
                assert(decreases_to!(*v => entries@[i as int]));
                assert(decreases_to!(entries@[i as int] => entries@[i as int].0));
                assert(decreases_to!(entries@[i as int] => entries@[i as int].1));
                assert(decreases_to!(*v => entries@[i as int].0));
                assert(decreases_to!(*v => entries@[i as int].1));
                let ghost before = json::values_of(values@);
                let ghost last = inside.take(i + 1).last();
                let pair: Vec<(&'static str, Json)> = vec![
                    ("key", cbor_to_json(&entries[i].0)),
                    ("value", cbor_to_json(&entries[i].1)),
                ];
                assert(last == (entries@[i as int].0@, entries@[i as int].1@));
                assert(json::members_of(pair@) =~= seq![
                    ("key"@, mirror(last.0)),
                    ("value"@, mirror(last.1)),
                ]);
                let value = Json::object(pair);
                values.push(value);
                assert(json::values_of(values@) =~= before.push(value@));
                assert(inside.take(i + 1).drop_last() =~= inside.take(i as int));
                i += 1;
            }
            assert(inside.take(total as int) =~= inside);
            proof {
                canonical::lemma_view_mapping(*entries);
            }
            typed_json("map", Json::array(values))
        },
        CborValue::Bool(b) => typed_json("bool", Json::Bool(*b)),
        CborValue::Null => {
            let entries: Vec<(&'static str, Json)> = vec![("type", Json::text("null"))];
            assert(json::members_of(entries@) =~= mirror(v@)->Obj_0);
            Json::object(entries)
        },
    }
}

// ---- an item rebuilt from its JSON ----

/// The number of a hexadecimal digit.
pub open spec fn nibble(c: char) -> int {
    if '0' <= c <= '9' {
        c as int - 48
    } else {
        c as int - 97 + 10
    }
}

/// The bytes that hexadecimal digits stand for, the high half of a byte first.
pub open spec fn unhex(digits: Seq<char>) -> Seq<u8> {
    Seq::new(
        digits.len() / 2,
        |i: int| (16 * nibble(digits[2 * i]) + nibble(digits[2 * i + 1])) as u8,
    )
}

/// The item that JSON with its type spelled out stands for. It is read off the JSON alone.
pub open spec fn rebuilt(j: JsonItem) -> Option<Item>
    decreases j,
{
    match j {
        JsonItem::Obj(members) => if members.len() == 0 || members[0].0 != "type"@ {
            None
        } else if members.len() == 1 {
            if members[0].1 == JsonItem::Str("null"@) {
                Some(Item::Null)
            } else {
                None
            }
        } else if members.len() == 2 && members[1].0 == "value"@ {
            match (members[0].1, members[1].1) {
                (JsonItem::Str(name), JsonItem::UInt(n)) => if name == "uint"@ {
                    Some(Item::Uint(n))
                } else {
                    None
                },
                (JsonItem::Str(name), JsonItem::Bool(b)) => if name == "bool"@ {
                    Some(Item::Bool(b))
                } else {
                    None
                },
                (JsonItem::Str(name), JsonItem::Str(text)) => if name == "text"@ {
                    Some(Item::Text(text))
                } else if name == "bytes"@ {
                    Some(Item::Bytes(unhex(text)))
                } else {
                    None
                },
                (JsonItem::Str(name), JsonItem::Arr(values)) => {
                    proof {
                        assert(decreases_to!(j => members));
                        assert(decreases_to!(members => members[1]));
                        assert(decreases_to!(members[1] => members[1].1));
                        assert(decreases_to!(members[1].1 => values));
                    }
                    if name == "array"@ {
                        match rebuilt_items(values) {
                            Some(items) => Some(Item::Array(items)),
                            None => None,
                        }
                    } else if name == "map"@ {
                        match rebuilt_entries(values) {
                            Some(entries) => Some(Item::Mapping(entries)),
                            None => None,
                        }
                    } else {
                        None
                    }
                },
                _ => None,
            }
        } else if members.len() == 3 && members[1].0 == "magnitude"@ && members[2].0 == "value"@ {
            match (members[0].1, members[1].1, members[2].1) {
                (JsonItem::Str(name), JsonItem::UInt(n), JsonItem::SInt(value)) => if name
                    == "negint"@ && (value == -1 - n || value == 0x1_0000_0000_0000_0000 - 1 - n) {
                    Some(Item::NegInt(n))
                } else {
                    None
                },
                _ => None,
            }
        } else {
            None
        },
        _ => None,
    }
}

/// The items that the values of a JSON array stand for.
pub open spec fn rebuilt_items(values: Seq<JsonItem>) -> Option<Seq<Item>>
    decreases values,
{
    if values.len() == 0 {
        Some(Seq::empty())
    } else {
        match (rebuilt_items(values.drop_last()), rebuilt(values.last())) {
            (Some(items), Some(item)) => Some(items.push(item)),
            _ => None,
        }
    }
}

/// The entries that the values of a JSON array stand for: each is an object of a key and a value.
pub open spec fn rebuilt_entries(values: Seq<JsonItem>) -> Option<Seq<(Item, Item)>>
    decreases values,
{
    if values.len() == 0 {
        Some(Seq::empty())
    } else {
        match values.last() {
            JsonItem::Obj(pair) => if pair.len() == 2 && pair[0].0 == "key"@ && pair[1].0
                == "value"@ {
                proof {
                    assert(decreases_to!(values => values.last()));
                    assert(decreases_to!(values.last() => pair));
                    assert(decreases_to!(pair => pair[0]));
                    assert(decreases_to!(pair[0] => pair[0].1));
                    assert(decreases_to!(pair => pair[1]));
                    assert(decreases_to!(pair[1] => pair[1].1));
                }
                match (
                    rebuilt_entries(values.drop_last()),
                    rebuilt(pair[0].1),
                    rebuilt(pair[1].1),
                ) {
                    (Some(entries), Some(key), Some(value)) => Some(entries.push((key, value))),
                    _ => None,
                }
            } else {
                None
            },
            _ => None,
        }
    }
}

/// The digits of bytes stand for those bytes.
pub proof fn law_unhex(bytes: Seq<u8>)
    ensures
        unhex(text::hex(bytes)) == bytes,
{
    let digits = text::hex(bytes);
    assert forall|i: int| 0 <= i < bytes.len() implies #[trigger] unhex(digits)[i] == bytes[i] by {
        let b = bytes[i] as nat;
        assert((2 * i) / 2 == i && (2 * i) % 2 == 0);
        assert((2 * i + 1) / 2 == i && (2 * i + 1) % 2 == 1);
        assert(digits[2 * i] == text::digit_char(b / 16));
        assert(digits[2 * i + 1] == text::digit_char(b % 16));
        assert(nibble(text::digit_char(b / 16)) == b / 16);
        assert(nibble(text::digit_char(b % 16)) == b % 16);
    }
    assert(unhex(digits) =~= bytes);
}

/// The number in the JSON of a negative item is the one that it stands for, or, where a signed
/// 64-bit number cannot hold that, the one that it wraps to.
pub proof fn law_logical(n: u64)
    ensures
        n <= i64::MAX ==> logical(n) == -1 - n,
        n > i64::MAX ==> logical(n) == 0x1_0000_0000_0000_0000 - 1 - n,
{
    if n > i64::MAX {
        assert((n as i64) as int == n as int - 0x1_0000_0000_0000_0000) by (bit_vector)
            requires
                n > 0x7fff_ffff_ffff_ffff,
        ;
    }
}

/// An item can be rebuilt from its JSON.
pub proof fn law_rebuilt(item: Item)
    ensures
        rebuilt(mirror(item)) == Some(item),
    decreases item,
{
    reveal_strlit("uint");
    reveal_strlit("negint");
    reveal_strlit("bytes");
    reveal_strlit("text");
    reveal_strlit("array");
    reveal_strlit("map");
    let j = mirror(item);
    match item {
        Item::NegInt(n) => {
            law_logical(n);
        },
        Item::Bytes(b) => {
            assert("bytes"@.len() != "text"@.len());
            law_unhex(b);
        },
        Item::Array(items) => {
            law_rebuilt_items(items);
            assert(j->Obj_0[1].1 == JsonItem::Arr(mirror_items(items)));
        },
        Item::Mapping(entries) => {
            assert("array"@.len() != "map"@.len());
            law_rebuilt_entries(entries);
            assert(j->Obj_0[1].1 == JsonItem::Arr(mirror_entries(entries)));
        },
        _ => {},
    }
}

/// So can the items of an array, in their order.
pub proof fn law_rebuilt_items(items: Seq<Item>)
    ensures
        rebuilt_items(mirror_items(items)) == Some(items),
    decreases items,
{
    if items.len() > 0 {
        law_rebuilt_items(items.drop_last());
        law_rebuilt(items.last());
        let values = mirror_items(items);
        assert(values.drop_last() =~= mirror_items(items.drop_last()));
        assert(items =~= items.drop_last().push(items.last()));
    } else {
        assert(items =~= Seq::empty());
    }
}

/// And the entries of a map, in theirs.
pub proof fn law_rebuilt_entries(entries: Seq<(Item, Item)>)
    ensures
        rebuilt_entries(mirror_entries(entries)) == Some(entries),
    decreases entries,
{
    if entries.len() > 0 {
        assert(decreases_to!(entries => entries.last()));
        assert(decreases_to!(entries.last() => entries.last().0));
        assert(decreases_to!(entries.last() => entries.last().1));
        law_rebuilt_entries(entries.drop_last());
        law_rebuilt(entries.last().0);
        law_rebuilt(entries.last().1);
        let values = mirror_entries(entries);
        assert(values.drop_last() =~= mirror_entries(entries.drop_last()));
        assert(entries =~= entries.drop_last().push(entries.last()));
    } else {
        assert(entries =~= Seq::empty());
    }
}

} // verus!
