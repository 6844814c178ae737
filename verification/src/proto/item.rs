//! The mathematical model of a CBOR data item, and its canonical encoding (RFC 8949 section
//! 4.2.1).
use crate::octets;
use crate::order;
use vstd::prelude::*;
use vstd::utf8::encode_utf8;

verus! {

/// A CBOR data item of the supported subset.
pub enum Item {
    Uint(u64),
    /// The integer `-1 - n`.
    NegInt(u64),
    Bytes(Seq<u8>),
    Text(Seq<char>),
    Array(Seq<Item>),
    /// Key/value pairs, in some order.
    Mapping(Seq<(Item, Item)>),
    Bool(bool),
    Null,
}

/// The head of an item: its major type and its argument, the argument in the shortest form.
pub open spec fn header(major: nat, argument: nat) -> Seq<u8> {
    if argument < 24 {
        seq![(major * 32 + argument) as u8]
    } else if argument <= 0xFF {
        seq![(major * 32 + 24) as u8] + octets::be_bytes(argument, 1)
    } else if argument <= 0xFFFF {
        seq![(major * 32 + 25) as u8] + octets::be_bytes(argument, 2)
    } else if argument <= 0xFFFF_FFFF {
        seq![(major * 32 + 26) as u8] + octets::be_bytes(argument, 4)
    } else {
        seq![(major * 32 + 27) as u8] + octets::be_bytes(argument, 8)
    }
}

/// The parts, one behind the other.
pub open spec fn join(parts: Seq<Seq<u8>>) -> Seq<u8>
    decreases parts.len(),
{
    if parts.len() == 0 {
        Seq::empty()
    } else {
        join(parts.drop_last()) + parts.last()
    }
}

/// Each pair as its key followed by its value.
pub open spec fn pair_parts(pairs: Seq<(Seq<u8>, Seq<u8>)>) -> Seq<Seq<u8>> {
    Seq::new(pairs.len(), |i: int| pairs[i].0 + pairs[i].1)
}

/// The canonical bytes of an item. The entries of a mapping are written by the bytewise order of
/// their encoded keys, whatever order they are listed in.
pub open spec fn encoding(item: Item) -> Seq<u8>
    decreases item,
{
    match item {
        Item::Uint(n) => header(0, n as nat),
        Item::NegInt(n) => header(1, n as nat),
        Item::Bytes(b) => header(2, b.len()) + b,
        Item::Text(s) => header(3, encode_utf8(s).len()) + encode_utf8(s),
        Item::Array(items) => header(4, items.len()) + join(encodings(items)),
        Item::Mapping(entries) => header(5, entries.len()) + join(
            pair_parts(order::sort_keyed(encoded_pairs(entries))),
        ),
        Item::Bool(false) => seq![0xf4u8],
        Item::Bool(true) => seq![0xf5u8],
        Item::Null => seq![0xf6u8],
    }
}

/// The encodings of the items of an array.
pub open spec fn encodings(items: Seq<Item>) -> Seq<Seq<u8>>
    decreases items,
{
    if items.len() == 0 {
        Seq::empty()
    } else {
        encodings(items.drop_last()).push(encoding(items.last()))
    }
}

/// The encoded entries of a mapping, in the order in which the mapping lists them.
pub open spec fn encoded_pairs(entries: Seq<(Item, Item)>) -> Seq<(Seq<u8>, Seq<u8>)>
    decreases entries,
{
    if entries.len() == 0 {
        Seq::empty()
    } else {
        encoded_pairs(entries.drop_last()).push(
            (encoding(entries.last().0), encoding(entries.last().1)),
        )
    }
}

/// The entries of a mapping, each under its encoded key.
pub open spec fn keyed(entries: Seq<(Item, Item)>) -> Seq<(Seq<u8>, (Item, Item))> {
    Seq::new(entries.len(), |i: int| (encoding(entries[i].0), entries[i]))
}

/// The entries without their keys.
pub open spec fn unkeyed<T>(entries: Seq<(Seq<u8>, T)>) -> Seq<T> {
    Seq::new(entries.len(), |i: int| entries[i].1)
}

/// The item with the entries of every mapping in canonical order.
pub open spec fn canonical_form(item: Item) -> Item
    decreases item,
{
    match item {
        Item::Array(items) => Item::Array(canonical_items(items)),
        Item::Mapping(entries) => Item::Mapping(
            unkeyed(order::sort_keyed(canonical_entries(entries))),
        ),
        _ => item,
    }
}

/// The canonical forms of the items of an array.
pub open spec fn canonical_items(items: Seq<Item>) -> Seq<Item>
    decreases items,
{
    if items.len() == 0 {
        Seq::empty()
    } else {
        canonical_items(items.drop_last()).push(canonical_form(items.last()))
    }
}

/// The canonical forms of the entries of a mapping, each under its encoded key, in the order in
/// which the mapping lists them.
pub open spec fn canonical_entries(entries: Seq<(Item, Item)>) -> Seq<(Seq<u8>, (Item, Item))>
    decreases entries,
{
    if entries.len() == 0 {
        Seq::empty()
    } else {
        canonical_entries(entries.drop_last()).push(
            (
                encoding(entries.last().0),
                (canonical_form(entries.last().0), canonical_form(entries.last().1)),
            ),
        )
    }
}

/// The entries of a record: a mapping from field names to values.
pub open spec fn record_entries(fields: Seq<(Seq<char>, Item)>) -> Seq<(Item, Item)> {
    Seq::new(fields.len(), |i: int| (Item::Text(fields[i].0), fields[i].1))
}

/// A mapping from field names to values.
pub open spec fn record(fields: Seq<(Seq<char>, Item)>) -> Item {
    Item::Mapping(record_entries(fields))
}

/// Equality of items up to the order of the entries of mappings: two mappings of the same size are
/// equal where each entry of the one has an equal entry in the other.
pub open spec fn same_item(a: Item, b: Item) -> bool
    decreases a,
{
    match (a, b) {
        (Item::Uint(x), Item::Uint(y)) => x == y,
        (Item::NegInt(x), Item::NegInt(y)) => x == y,
        (Item::Bytes(x), Item::Bytes(y)) => x == y,
        (Item::Text(x), Item::Text(y)) => x == y,
        (Item::Array(x), Item::Array(y)) => {
            &&& x.len() == y.len()
            &&& forall|i: int| 0 <= i < x.len() ==> same_item(#[trigger] x[i], y[i])
        },
        (Item::Mapping(x), Item::Mapping(y)) => {
            &&& x.len() == y.len()
            &&& forall|i: int| 0 <= i < x.len() ==> is_among(#[trigger] x[i], y)
            &&& forall|j: int| 0 <= j < y.len() ==> has_among(x, #[trigger] y[j])
        },
        (Item::Bool(x), Item::Bool(y)) => x == y,
        (Item::Null, Item::Null) => true,
        _ => false,
    }
}

/// `entry` is equal to some entry of `list`.
pub open spec fn is_among(entry: (Item, Item), list: Seq<(Item, Item)>) -> bool
    decreases entry,
{
    exists|j: int|
        #![trigger list[j]]
        0 <= j < list.len() && same_item(entry.0, list[j].0) && same_item(entry.1, list[j].1)
}

/// Some entry of `list` is equal to `entry`.
pub open spec fn has_among(list: Seq<(Item, Item)>, entry: (Item, Item)) -> bool
    decreases list,
{
    exists|i: int|
        #![trigger list[i]]
        0 <= i < list.len() && same_item(list[i].0, entry.0) && same_item(list[i].1, entry.1)
}

/// No mapping in the item has two entries whose keys are encoded alike.
pub open spec fn keys_unique(item: Item) -> bool
    decreases item,
{
    match item {
        Item::Array(items) => {
            &&& items.len() >= 0
            &&& forall|i: int| 0 <= i < items.len() ==> keys_unique(#[trigger] items[i])
        },
        Item::Mapping(entries) => {
            &&& order::keys_distinct(keyed(entries))
            &&& forall|i: int|
                0 <= i < entries.len() ==> keys_unique((#[trigger] entries[i]).0) && keys_unique(
                    entries[i].1,
                )
        },
        _ => true,
    }
}

/// The entries of every mapping in the item are listed by strictly increasing encoded key.
pub open spec fn in_order(item: Item) -> bool
    decreases item,
{
    match item {
        Item::Array(items) => {
            &&& items.len() >= 0
            &&& forall|i: int| 0 <= i < items.len() ==> in_order(#[trigger] items[i])
        },
        Item::Mapping(entries) => {
            &&& order::keys_increasing(keyed(entries))
            &&& forall|i: int|
                0 <= i < entries.len() ==> in_order((#[trigger] entries[i]).0) && in_order(
                    entries[i].1,
                )
        },
        _ => true,
    }
}

/// Every length and count in the item can be written as an item's argument, which has 64 bits.
pub open spec fn lengths_fit(item: Item) -> bool
    decreases item,
{
    match item {
        Item::Bytes(b) => b.len() <= u64::MAX,
        Item::Text(s) => encode_utf8(s).len() <= u64::MAX,
        Item::Array(items) => {
            &&& items.len() <= u64::MAX
            &&& forall|i: int| 0 <= i < items.len() ==> lengths_fit(#[trigger] items[i])
        },
        Item::Mapping(entries) => {
            &&& entries.len() <= u64::MAX
            &&& forall|i: int|
                0 <= i < entries.len() ==> lengths_fit((#[trigger] entries[i]).0) && lengths_fit(
                    entries[i].1,
                )
        },
        _ => true,
    }
}

/// Nothing in the item sits inside more than `levels` arrays and mappings of it.
pub open spec fn nests_within(item: Item, levels: int) -> bool
    decreases item,
{
    match item {
        Item::Array(items) => items.len() > 0 ==> {
            &&& levels > 0
            &&& forall|i: int|
                0 <= i < items.len() ==> nests_within(#[trigger] items[i], levels - 1)
        },
        Item::Mapping(entries) => entries.len() > 0 ==> {
            &&& levels > 0
            &&& forall|i: int|
                0 <= i < entries.len() ==> nests_within((#[trigger] entries[i]).0, levels - 1)
                    && nests_within(entries[i].1, levels - 1)
        },
        _ => true,
    }
}

/// What nests within a bound nests within a larger one.
pub proof fn lemma_nests_more(item: Item, levels: int, more: int)
    requires
        nests_within(item, levels),
        levels <= more,
    ensures
        nests_within(item, more),
    decreases item,
{
    match item {
        Item::Array(items) => {
            assert forall|i: int| 0 <= i < items.len() implies nests_within(
                #[trigger] items[i],
                more - 1,
            ) by {
                lemma_nests_more(items[i], levels - 1, more - 1);
            }
        },
        Item::Mapping(entries) => {
            assert forall|i: int| 0 <= i < entries.len() implies nests_within(
                (#[trigger] entries[i]).0,
                more - 1,
            ) && nests_within(entries[i].1, more - 1) by {
                lemma_nests_more(entries[i].0, levels - 1, more - 1);
                lemma_nests_more(entries[i].1, levels - 1, more - 1);
            }
        },
        _ => {},
    }
}

pub proof fn lemma_encodings(items: Seq<Item>)
    ensures
        encodings(items).len() == items.len(),
        forall|i: int| 0 <= i < items.len() ==> #[trigger] encodings(items)[i] == encoding(items[i]),
    decreases items.len(),
{
    if items.len() > 0 {
        lemma_encodings(items.drop_last());
    }
}

pub proof fn lemma_encoded_pairs(entries: Seq<(Item, Item)>)
    ensures
        encoded_pairs(entries).len() == entries.len(),
        forall|i: int|
            0 <= i < entries.len() ==> #[trigger] encoded_pairs(entries)[i] == (
                encoding(entries[i].0),
                encoding(entries[i].1),
            ),
    decreases entries.len(),
{
    if entries.len() > 0 {
        lemma_encoded_pairs(entries.drop_last());
    }
}

pub proof fn lemma_canonical_items(items: Seq<Item>)
    ensures
        canonical_items(items).len() == items.len(),
        forall|i: int|
            0 <= i < items.len() ==> #[trigger] canonical_items(items)[i] == canonical_form(
                items[i],
            ),
    decreases items.len(),
{
    if items.len() > 0 {
        lemma_canonical_items(items.drop_last());
    }
}

pub proof fn lemma_canonical_entries(entries: Seq<(Item, Item)>)
    ensures
        canonical_entries(entries).len() == entries.len(),
        forall|i: int|
            0 <= i < entries.len() ==> #[trigger] canonical_entries(entries)[i] == (
                encoding(entries[i].0),
                (canonical_form(entries[i].0), canonical_form(entries[i].1)),
            ),
    decreases entries.len(),
{
    if entries.len() > 0 {
        lemma_canonical_entries(entries.drop_last());
    }
}

// ---- the bytes of an item ----

/// The head of an item: three bits of major type, then the argument, in as few bytes as will do.
pub proof fn law_head_bytes(major: nat, argument: nat)
    requires
        major < 8,
        argument <= u64::MAX,
    ensures
        ({
            let head = header(major, argument);
            &&& head[0] / 32 == major
            &&& if argument < 24 {
                head.len() == 1 && head[0] % 32 == argument
            } else if argument < 0x100 {
                head.len() == 2 && head[0] % 32 == 24 && head[1] == argument
            } else if argument < 0x1_0000 {
                head.len() == 3 && head[0] % 32 == 25 && 0x100 * head[1] + head[2] == argument
            } else if argument < 0x1_0000_0000 {
                head.len() == 5 && head[0] % 32 == 26 && 0x100_0000 * head[1] + 0x1_0000 * head[2]
                    + 0x100 * head[3] + head[4] == argument
            } else {
                head.len() == 9 && head[0] % 32 == 27 && 0x100_0000_0000_0000 * head[1]
                    + 0x1_0000_0000_0000 * head[2] + 0x100_0000_0000 * head[3] + 0x1_0000_0000
                    * head[4] + 0x100_0000 * head[5] + 0x1_0000 * head[6] + 0x100 * head[7]
                    + head[8] == argument
            }
        }),
{
    octets::law_most_significant_first(argument);
}

/// The major type of every kind of item, and what follows its head: nothing for a number, the bytes
/// or the UTF-8 of a string, the items of an array one behind the other. The simple values are one
/// byte.
pub proof fn law_item_bytes(n: u64, b: Seq<u8>, s: Seq<char>, items: Seq<Item>, more: Item)
    ensures
        encoding(Item::Uint(n)) == header(0, n as nat),
        encoding(Item::NegInt(n)) == header(1, n as nat),
        encoding(Item::Bytes(b)) == header(2, b.len()) + b,
        encoding(Item::Text(s)) == header(3, encode_utf8(s).len()) + encode_utf8(s),
        encoding(Item::Array(items)) == header(4, items.len()) + join(encodings(items)),
        join(encodings(Seq::<Item>::empty())) == Seq::<u8>::empty(),
        join(encodings(items.push(more))) == join(encodings(items)) + encoding(more),
        encoding(Item::Bool(false)) == seq![244u8],
        encoding(Item::Bool(true)) == seq![245u8],
        encoding(Item::Null) == seq![246u8],
{
    assert(items.push(more).drop_last() =~= items);
    assert(encodings(items.push(more)).drop_last() =~= encodings(items));
}

/// A map is its number of entries under major type 5, and then every entry once, key before value,
/// by the bytewise order of the encoded keys.
pub proof fn law_map_bytes(entries: Seq<(Item, Item)>) -> (sorted: Seq<(Seq<u8>, Seq<u8>)>)
    requires
        keys_unique(Item::Mapping(entries)),
    ensures
        encoding(Item::Mapping(entries)) == header(5, entries.len()) + join(
            Seq::new(sorted.len(), |i: int| sorted[i].0 + sorted[i].1),
        ),
        sorted.len() == entries.len(),
        forall|i: int, j: int|
            0 <= i < j < sorted.len() ==> octets::bytes_before(
                (#[trigger] sorted[i]).0,
                (#[trigger] sorted[j]).0,
            ),
        forall|i: int|
            0 <= i < entries.len() ==> sorted.contains(
                (encoding((#[trigger] entries[i]).0), encoding(entries[i].1)),
            ),
{
    let listed = encoded_pairs(entries);
    lemma_encoded_pairs(entries);
    assert forall|i: int, j: int| 0 <= i < j < listed.len() implies (#[trigger] listed[i]).0 != (
    #[trigger] listed[j]).0 by {
        assert(keyed(entries)[i].0 != keyed(entries)[j].0);
    }
    order::lemma_sort_keyed(listed);
    let sorted = order::sort_keyed(listed);
    assert(pair_parts(sorted) =~= Seq::new(sorted.len(), |i: int| sorted[i].0 + sorted[i].1));
    assert forall|i: int| 0 <= i < entries.len() implies sorted.contains(
        (encoding((#[trigger] entries[i]).0), encoding(entries[i].1)),
    ) by {
        assert(listed.contains(listed[i]));
    }
    sorted
}

} // verus!
