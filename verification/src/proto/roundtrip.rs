//! What the canonical codec promises as a whole: decoding gives back what was encoded, and there
//! is only one byte string for every item.
use crate::octets;
use crate::order;
use crate::proto::canonical;
use crate::proto::canonical::{CborError, MAX_NESTING_DEPTH};
use crate::proto::item;
use crate::proto::item::Item;
use vstd::prelude::*;
use vstd::utf8::encode_utf8;

verus! {

// ---- heads ----

proof fn lemma_header_read(bytes: Seq<u8>, offset: int, major: nat, arg: nat)
    requires
        0 <= offset,
        major < 8,
        arg <= u64::MAX,
        offset + item::header(major, arg).len() <= bytes.len(),
        bytes.subrange(offset, offset + item::header(major, arg).len()) == item::header(major, arg),
    ensures
        item::header(major, arg).len() >= 1,
        bytes[offset] as nat / 32 == major,
        canonical::arg_at(bytes, offset, bytes[offset] as nat % 32) == Ok::<(nat, int), CborError>(
            (arg, offset + item::header(major, arg).len()),
        ),
{
    let head = item::header(major, arg);
    octets::lemma_be_limits();
    let width: nat = if arg <= 0xFF {
        1
    } else if arg <= 0xFFFF {
        2
    } else if arg <= 0xFFFF_FFFF {
        4
    } else {
        8
    };
    octets::lemma_be_round_trip(arg, width);
    assert(bytes[offset] == bytes.subrange(offset, offset + head.len())[0]);
    if arg >= 24 {
        assert(bytes.subrange(offset + 1, offset + 1 + width) =~= octets::be_bytes(arg, width)) by {
            assert(head.skip(1) =~= octets::be_bytes(arg, width));
            assert(bytes.subrange(offset, offset + head.len()).skip(1) =~= bytes.subrange(
                offset + 1,
                offset + head.len(),
            ));
        }
    }
}

proof fn lemma_header_written(bytes: Seq<u8>, offset: int)
    requires
        0 <= offset < bytes.len(),
    ensures
        canonical::arg_at(bytes, offset, bytes[offset] as nat % 32) matches Ok((arg, body)) ==> {
            &&& arg <= u64::MAX
            &&& offset < body <= bytes.len()
            &&& bytes.subrange(offset, body) == item::header(bytes[offset] as nat / 32, arg)
        },
{
    let major = bytes[offset] as nat / 32;
    let info = bytes[offset] as nat % 32;
    if let Ok((arg, body)) = canonical::arg_at(bytes, offset, info) {
        octets::lemma_be_limits();
        if info >= 24 {
            let digits = bytes.subrange(offset + 1, body);
            octets::lemma_be_value_bound(digits);
            octets::lemma_be_digits_round_trip(digits);
        }
        assert(bytes.subrange(offset, body) =~= item::header(major, arg));
    }
}

// ---- joined parts ----

/// Where the parts of a joined byte string lie.
proof fn lemma_join_part(parts: Seq<Seq<u8>>, k: int)
    requires
        0 <= k < parts.len(),
    ensures
        item::join(parts.take(k)).len() + parts[k].len() == item::join(parts.take(k + 1)).len(),
        item::join(parts.take(k + 1)).len() <= item::join(parts).len(),
        item::join(parts).subrange(
            item::join(parts.take(k)).len() as int,
            item::join(parts.take(k + 1)).len() as int,
        ) == parts[k],
    decreases parts.len(),
{
    let front = parts.drop_last();
    assert(parts.take(k + 1).drop_last() =~= parts.take(k));
    if k < front.len() {
        lemma_join_part(front, k);
        assert(front.take(k) =~= parts.take(k));
        assert(front.take(k + 1) =~= parts.take(k + 1));
        let lo = item::join(parts.take(k)).len() as int;
        let hi = item::join(parts.take(k + 1)).len() as int;
        assert(item::join(parts).subrange(lo, hi) =~= item::join(front).subrange(lo, hi));
    } else {
        assert(parts.take(k) =~= front);
        assert(parts.take(k + 1) =~= parts);
        assert(item::join(parts).subrange(
            item::join(front).len() as int,
            item::join(parts).len() as int,
        ) =~= parts[k]);
    }
}

proof fn lemma_join_len(parts: Seq<Seq<u8>>, least: nat)
    requires
        forall|i: int| 0 <= i < parts.len() ==> (#[trigger] parts[i]).len() >= least,
    ensures
        item::join(parts).len() >= least * parts.len(),
    decreases parts.len(),
{
    if parts.len() > 0 {
        let front = parts.drop_last();
        assert forall|i: int| 0 <= i < front.len() implies (#[trigger] front[i]).len() >= least by {
            assert(parts[i].len() >= least);
        }
        lemma_join_len(front, least);
        assert(parts.last().len() >= least);
        assert(least * parts.len() == least * front.len() + least) by (nonlinear_arith)
            requires
                parts.len() == front.len() + 1,
        ;
    }
}

/// No item is encoded as nothing.
pub proof fn lemma_encoding_nonempty(x: Item)
    ensures
        item::encoding(x).len() >= 1,
{
}

// ---- the order of a mapping's entries ----

/// The entries of a mapping in canonical order, each under its encoded key.
pub open spec fn sorted_entries(entries: Seq<(Item, Item)>) -> Seq<(Seq<u8>, (Item, Item))> {
    order::sort_keyed(item::keyed(entries))
}

pub proof fn lemma_sorted_entries(entries: Seq<(Item, Item)>)
    requires
        order::keys_distinct(item::keyed(entries)),
    ensures
        sorted_entries(entries).len() == entries.len(),
        order::keys_increasing(sorted_entries(entries)),
        forall|i: int|
            0 <= i < entries.len() ==> {
                let e = #[trigger] sorted_entries(entries)[i];
                e.0 == item::encoding(e.1.0) && entries.contains(e.1)
            },
        order::sort_keyed(item::encoded_pairs(entries)).len() == entries.len(),
        forall|i: int|
            0 <= i < entries.len() ==> #[trigger] order::sort_keyed(item::encoded_pairs(entries))[i]
                == (
                item::encoding(sorted_entries(entries)[i].1.0),
                item::encoding(sorted_entries(entries)[i].1.1),
            ),
        order::sort_keyed(item::canonical_entries(entries)).len() == entries.len(),
        forall|i: int|
            0 <= i < entries.len() ==> (#[trigger] order::sort_keyed(
                item::canonical_entries(entries),
            )[i]).1 == (
                item::canonical_form(sorted_entries(entries)[i].1.0),
                item::canonical_form(sorted_entries(entries)[i].1.1),
            ),
{
    let listed = item::keyed(entries);
    let sorted = sorted_entries(entries);
    order::lemma_sort_keyed(listed);
    assert forall|i: int| 0 <= i < entries.len() implies {
        let e = #[trigger] sorted[i];
        e.0 == item::encoding(e.1.0) && entries.contains(e.1)
    } by {
        assert(sorted.contains(sorted[i]));
        assert(listed.contains(sorted[i]));
        let k = choose|k: int| 0 <= k < listed.len() && listed[k] == sorted[i];
        assert(entries[k] == sorted[i].1);
    }
    let value_bytes = |e: (Item, Item)| item::encoding(e.1);
    item::lemma_encoded_pairs(entries);
    assert(item::encoded_pairs(entries) =~= order::map_keyed(listed, value_bytes));
    order::lemma_sort_map(listed, value_bytes);
    let forms = |e: (Item, Item)| (item::canonical_form(e.0), item::canonical_form(e.1));
    item::lemma_canonical_entries(entries);
    assert(item::canonical_entries(entries) =~= order::map_keyed(listed, forms));
    order::lemma_sort_map(listed, forms);
}

// ---- encode, then decode ----

/// Where an item's canonical encoding stands in the input, the decoder reads its canonical form.
pub proof fn lemma_read_back(bytes: Seq<u8>, offset: int, depth: nat, x: Item)
    requires
        0 <= offset,
        depth <= MAX_NESTING_DEPTH,
        item::keys_unique(x),
        item::lengths_fit(x),
        item::nests_within(x, MAX_NESTING_DEPTH - depth),
        offset + item::encoding(x).len() <= bytes.len(),
        bytes.subrange(offset, offset + item::encoding(x).len()) == item::encoding(x),
    ensures
        canonical::item_at(bytes, offset, depth) == Ok::<(Item, int), CborError>(
            (item::canonical_form(x), offset + item::encoding(x).len()),
        ),
    decreases x, 0nat,
{
    let whole = item::encoding(x);
    let end = offset + whole.len();
    lemma_encoding_nonempty(x);
    assert(bytes[offset] == bytes.subrange(offset, end)[0]);
    match x {
        Item::Bool(b) => {
            assert(whole == if b { seq![0xf5u8] } else { seq![0xf4u8] });
        },
        Item::Null => {},
        _ => {
            let (major, arg): (nat, nat) = match x {
                Item::Uint(n) => (0, n as nat),
                Item::NegInt(n) => (1, n as nat),
                Item::Bytes(b) => (2, b.len()),
                Item::Text(s) => (3, encode_utf8(s).len()),
                Item::Array(items) => (4, items.len()),
                Item::Mapping(entries) => (5, entries.len()),
                _ => (7, 0),
            };
            let head = item::header(major, arg);
            let body = offset + head.len();
            assert(bytes.subrange(offset, body) =~= head) by {
                assert(bytes.subrange(offset, end).take(head.len() as int) =~= bytes.subrange(
                    offset,
                    body,
                ));
                assert(whole.take(head.len() as int) =~= head);
            }
            lemma_header_read(bytes, offset, major, arg);
            let rest = whole.skip(head.len() as int);
            assert(bytes.subrange(body, end) =~= rest) by {
                assert(bytes.subrange(offset, end).skip(head.len() as int) =~= bytes.subrange(
                    body,
                    end,
                ));
            }
            match x {
                Item::Bytes(b) => {
                    assert(rest =~= b);
                },
                Item::Text(s) => {
                    assert(rest =~= encode_utf8(s));
                    vstd::utf8::encode_utf8_valid_utf8(s);
                    vstd::utf8::encode_utf8_decode_utf8(s);
                },
                Item::Array(items) => {
                    let parts = item::encodings(items);
                    item::lemma_encodings(items);
                    assert(rest =~= item::join(parts));
                    lemma_join_len(parts, 1);
                    lemma_read_back_items(bytes, body, depth + 1, items, items.len());
                    assert(items.take(items.len() as int) =~= items);
                    assert(parts.take(items.len() as int) =~= parts);
                },
                Item::Mapping(entries) => {
                    lemma_sorted_entries(entries);
                    let pairs = order::sort_keyed(item::encoded_pairs(entries));
                    let parts = item::pair_parts(pairs);
                    assert(rest =~= item::join(parts));
                    assert forall|i: int| 0 <= i < parts.len() implies (#[trigger] parts[i]).len()
                        >= 2 by {
                        lemma_encoding_nonempty(sorted_entries(entries)[i].1.0);
                        lemma_encoding_nonempty(sorted_entries(entries)[i].1.1);
                        assert(pairs[i].0.len() >= 1 && pairs[i].1.len() >= 1);
                    }
                    lemma_join_len(parts, 2);
                    lemma_read_back_entries(bytes, body, depth + 1, entries, entries.len());
                    let forms = item::unkeyed(
                        order::sort_keyed(item::canonical_entries(entries)),
                    );
                    assert(forms.take(entries.len() as int) =~= forms);
                    assert(parts.take(entries.len() as int) =~= parts);
                },
                _ => {},
            }
        },
    }
}

proof fn lemma_read_back_items(bytes: Seq<u8>, body: int, depth: nat, items: Seq<Item>, count: nat)
    requires
        0 <= body,
        count <= items.len(),
        count > 0 ==> depth <= MAX_NESTING_DEPTH,
        item::keys_unique(Item::Array(items)),
        item::lengths_fit(Item::Array(items)),
        item::nests_within(Item::Array(items), MAX_NESTING_DEPTH - depth + 1),
        body + item::join(item::encodings(items)).len() <= bytes.len(),
        bytes.subrange(body, body + item::join(item::encodings(items)).len()) == item::join(
            item::encodings(items),
        ),
    ensures
        canonical::items_at(bytes, body, depth, count) == Ok::<(Seq<Item>, int), CborError>(
            (
                item::canonical_items(items.take(count as int)),
                body + item::join(item::encodings(items).take(count as int)).len(),
            ),
        ),
    decreases items, count,
{
    let parts = item::encodings(items);
    item::lemma_encodings(items);
    if count == 0 {
        assert(parts.take(0) =~= Seq::<Seq<u8>>::empty());
        assert(items.take(0) =~= Seq::<Item>::empty());
    } else {
        let k = count - 1;
        lemma_read_back_items(bytes, body, depth, items, k as nat);
        lemma_join_part(parts, k);
        let lo = item::join(parts.take(k)).len() as int;
        let hi = item::join(parts.take(k + 1)).len() as int;
        assert(bytes.subrange(body + lo, body + hi) =~= parts[k]) by {
            assert(bytes.subrange(body, body + item::join(parts).len()).subrange(lo, hi)
                =~= bytes.subrange(body + lo, body + hi));
        }
        assert(item::keys_unique(items[k]));
        assert(item::lengths_fit(items[k]));
        assert(item::nests_within(items[k], MAX_NESTING_DEPTH - depth));
        assert(decreases_to!(items => items[k]));
        lemma_read_back(bytes, body + lo, depth, items[k]);
        assert(items.take(k + 1).drop_last() =~= items.take(k));
    }
}

proof fn lemma_read_back_entries(
    bytes: Seq<u8>,
    body: int,
    depth: nat,
    entries: Seq<(Item, Item)>,
    count: nat,
)
    requires
        0 <= body,
        count <= entries.len(),
        count > 0 ==> depth <= MAX_NESTING_DEPTH,
        item::keys_unique(Item::Mapping(entries)),
        item::lengths_fit(Item::Mapping(entries)),
        item::nests_within(Item::Mapping(entries), MAX_NESTING_DEPTH - depth + 1),
        ({
            let all = item::join(
                item::pair_parts(order::sort_keyed(item::encoded_pairs(entries))),
            );
            &&& body + all.len() <= bytes.len()
            &&& bytes.subrange(body, body + all.len()) == all
        }),
    ensures
        ({
            let parts = item::pair_parts(order::sort_keyed(item::encoded_pairs(entries)));
            let forms = item::unkeyed(order::sort_keyed(item::canonical_entries(entries)));
            canonical::entries_at(bytes, body, depth, count) == Ok::<
                (Seq<(Item, Item)>, int, Seq<u8>),
                CborError,
            >(
                (
                    forms.take(count as int),
                    body + item::join(parts.take(count as int)).len(),
                    if count == 0 {
                        Seq::empty()
                    } else {
                        sorted_entries(entries)[count - 1].0
                    },
                ),
            )
        }),
    decreases entries, count,
{
    let pairs = order::sort_keyed(item::encoded_pairs(entries));
    let parts = item::pair_parts(pairs);
    let forms = item::unkeyed(order::sort_keyed(item::canonical_entries(entries)));
    let sorted = sorted_entries(entries);
    lemma_sorted_entries(entries);
    if count == 0 {
        assert(parts.take(0) =~= Seq::<Seq<u8>>::empty());
        assert(forms.take(0) =~= Seq::<(Item, Item)>::empty());
    } else {
        let k = count - 1;
        lemma_read_back_entries(bytes, body, depth, entries, k as nat);
        lemma_join_part(parts, k);
        let lo = item::join(parts.take(k)).len() as int;
        let hi = item::join(parts.take(k + 1)).len() as int;
        let entry = sorted[k].1;
        let j = choose|j: int| 0 <= j < entries.len() && entries[j] == entry;
        assert(entries[j] == entry);
        assert(item::keys_unique(entries[j].0) && item::keys_unique(entries[j].1));
        assert(item::lengths_fit(entries[j].0) && item::lengths_fit(entries[j].1));
        assert(item::nests_within(entries[j].0, MAX_NESTING_DEPTH - depth)
            && item::nests_within(entries[j].1, MAX_NESTING_DEPTH - depth));
        assert(decreases_to!(entries => entries[j]));
        let key_bytes = item::encoding(entry.0);
        let value_bytes = item::encoding(entry.1);
        assert(pairs[k] == (key_bytes, value_bytes));
        assert(parts[k] == key_bytes + value_bytes);
        let start = body + lo;
        let middle = start + key_bytes.len();
        let end = middle + value_bytes.len();
        assert(end == body + hi);
        assert(bytes.subrange(start, end) =~= parts[k]) by {
            assert(bytes.subrange(body, body + item::join(parts).len()).subrange(lo, hi)
                =~= bytes.subrange(start, end));
        }
        assert(bytes.subrange(start, middle) =~= key_bytes) by {
            assert(parts[k].take(key_bytes.len() as int) =~= key_bytes);
            assert(bytes.subrange(start, end).take(key_bytes.len() as int) =~= bytes.subrange(
                start,
                middle,
            ));
        }
        assert(bytes.subrange(middle, end) =~= value_bytes) by {
            assert(parts[k].skip(key_bytes.len() as int) =~= value_bytes);
            assert(bytes.subrange(start, end).skip(key_bytes.len() as int) =~= bytes.subrange(
                middle,
                end,
            ));
        }
        lemma_read_back(bytes, start, depth, entry.0);
        lemma_read_back(bytes, middle, depth, entry.1);
        if k > 0 {
            assert(octets::bytes_before(sorted[k - 1].0, sorted[k].0));
        }
        assert(forms[k] == (item::canonical_form(entry.0), item::canonical_form(entry.1)));
        assert(forms.take(k).push(forms[k]) =~= forms.take(k + 1));
    }
}

// ---- decode, then encode ----

/// What the decoder reads is the canonical form of an item, and the bytes it read are that item's
/// canonical encoding.
proof fn lemma_written_back(bytes: Seq<u8>, offset: int, depth: nat)
    requires
        0 <= offset,
    ensures
        canonical::item_at(bytes, offset, depth) matches Ok((x, end)) ==> {
            &&& offset < end <= bytes.len()
            &&& bytes.subrange(offset, end) == item::encoding(x)
            &&& item::in_order(x)
            &&& item::canonical_form(x) == x
            &&& item::keys_unique(x)
            &&& item::lengths_fit(x)
            &&& item::nests_within(x, MAX_NESTING_DEPTH - depth)
        },
    decreases MAX_NESTING_DEPTH + 2 - depth, 0nat,
{
    canonical::lemma_item_extent(bytes, offset, depth);
    if let Ok((x, end)) = canonical::item_at(bytes, offset, depth) {
        let major = bytes[offset] as nat / 32;
        let info = bytes[offset] as nat % 32;
        assert(bytes.subrange(offset, offset + 1) =~= seq![bytes[offset]]);
        if major != 7 {
            lemma_header_written(bytes, offset);
            let (arg, body) = canonical::arg_at(bytes, offset, info)->Ok_0;
            let head = item::header(major, arg);
            if major == 4 {
                canonical::lemma_items_extent(bytes, body, depth + 1, arg);
            } else if major == 5 {
                canonical::lemma_entries_extent(bytes, body, depth + 1, arg);
            }
            assert(bytes.subrange(offset, end) =~= head + bytes.subrange(body, end)) by {
                assert(bytes.subrange(offset, end) =~= bytes.subrange(offset, body)
                    + bytes.subrange(body, end));
            }
            if major == 0 || major == 1 {
                assert(bytes.subrange(offset, end) =~= head);
            } else if major == 3 {
                vstd::utf8::decode_utf8_encode_utf8(bytes.subrange(body, end));
            } else if major == 4 {
                lemma_written_back_items(bytes, body, depth + 1, arg);
                let items = x->Array_0;
                item::lemma_canonical_items(items);
                assert(item::canonical_items(items) =~= items);
            } else if major == 5 {
                lemma_written_back_entries(bytes, body, depth + 1, arg);
                lemma_increasing_mapping(x->Mapping_0);
            }
        }
    }
}

/// A mapping whose entries are in order and in canonical form is in canonical form itself, and is
/// written in the order in which it is listed.
proof fn lemma_increasing_mapping(entries: Seq<(Item, Item)>)
    requires
        order::keys_increasing(item::keyed(entries)),
        forall|i: int|
            0 <= i < entries.len() ==> item::canonical_form((#[trigger] entries[i]).0) == entries[i].0
                && item::canonical_form(entries[i].1) == entries[i].1,
    ensures
        order::keys_distinct(item::keyed(entries)),
        item::canonical_form(Item::Mapping(entries)) == Item::Mapping(entries),
        order::sort_keyed(item::encoded_pairs(entries)) == item::encoded_pairs(entries),
{
    let listed = item::keyed(entries);
    assert forall|i: int, j: int| 0 <= i < j < listed.len() implies (#[trigger] listed[i]).0 != (
    #[trigger] listed[j]).0 by {
        octets::lemma_bytes_before_asymmetric(listed[i].0, listed[j].0);
    }
    item::lemma_encoded_pairs(entries);
    let pairs = item::encoded_pairs(entries);
    assert forall|i: int, j: int| 0 <= i < j < pairs.len() implies octets::bytes_before(
        (#[trigger] pairs[i]).0,
        (#[trigger] pairs[j]).0,
    ) by {
        assert(octets::bytes_before(listed[i].0, listed[j].0));
    }
    order::lemma_sort_of_increasing(pairs);
    item::lemma_canonical_entries(entries);
    assert(item::canonical_entries(entries) =~= listed);
    order::lemma_sort_of_increasing(listed);
    assert(item::unkeyed(listed) =~= entries);
}

proof fn lemma_written_back_items(bytes: Seq<u8>, body: int, depth: nat, count: nat)
    requires
        0 <= body <= bytes.len(),
    ensures
        canonical::items_at(bytes, body, depth, count) matches Ok((items, end)) ==> {
            &&& items.len() == count
            &&& count > 0 ==> depth <= MAX_NESTING_DEPTH
            &&& bytes.subrange(body, end) == item::join(item::encodings(items))
            &&& forall|i: int|
                0 <= i < items.len() ==> {
                    let x = #[trigger] items[i];
                    &&& item::in_order(x)
                    &&& item::canonical_form(x) == x
                    &&& item::keys_unique(x)
                    &&& item::lengths_fit(x)
                    &&& item::nests_within(x, MAX_NESTING_DEPTH - depth)
                }
        },
    decreases MAX_NESTING_DEPTH + 2 - depth, count + 1,
{
    if count == 0 {
        assert(bytes.subrange(body, body) =~= item::join(item::encodings(Seq::empty())));
    } else if let Ok((items, end)) = canonical::items_at(bytes, body, depth, count) {
        let front = canonical::items_at(bytes, body, depth, (count - 1) as nat)->Ok_0;
        canonical::lemma_items_extent(bytes, body, depth, (count - 1) as nat);
        lemma_written_back_items(bytes, body, depth, (count - 1) as nat);
        lemma_written_back(bytes, front.1, depth);
        assert(items.drop_last() =~= front.0);
        assert(bytes.subrange(body, end) =~= bytes.subrange(body, front.1) + bytes.subrange(
            front.1,
            end,
        ));
        assert(item::encodings(items).drop_last() =~= item::encodings(front.0));
        assert forall|i: int| 0 <= i < items.len() implies {
            let x = #[trigger] items[i];
            &&& item::in_order(x)
            &&& item::canonical_form(x) == x
            &&& item::keys_unique(x)
            &&& item::lengths_fit(x)
            &&& item::nests_within(x, MAX_NESTING_DEPTH - depth)
        } by {
            if i < front.0.len() {
                assert(items[i] == front.0[i]);
            }
        }
    }
}

proof fn lemma_written_back_entries(bytes: Seq<u8>, body: int, depth: nat, count: nat)
    requires
        0 <= body <= bytes.len(),
    ensures
        canonical::entries_at(bytes, body, depth, count) matches Ok((entries, end, last_key)) ==> {
            &&& entries.len() == count
            &&& count > 0 ==> depth <= MAX_NESTING_DEPTH
            &&& count > 0 ==> last_key == item::encoding(entries.last().0)
            &&& bytes.subrange(body, end) == item::join(
                item::pair_parts(item::encoded_pairs(entries)),
            )
            &&& order::keys_increasing(item::keyed(entries))
            &&& forall|i: int|
                0 <= i < entries.len() ==> {
                    let e = #[trigger] entries[i];
                    &&& item::in_order(e.0)
                    &&& item::in_order(e.1)
                    &&& item::canonical_form(e.0) == e.0
                    &&& item::canonical_form(e.1) == e.1
                    &&& item::keys_unique(e.0)
                    &&& item::keys_unique(e.1)
                    &&& item::lengths_fit(e.0)
                    &&& item::lengths_fit(e.1)
                    &&& item::nests_within(e.0, MAX_NESTING_DEPTH - depth)
                    &&& item::nests_within(e.1, MAX_NESTING_DEPTH - depth)
                }
        },
    decreases MAX_NESTING_DEPTH + 2 - depth, count + 1,
{
    if count == 0 {
        let none = Seq::<(Item, Item)>::empty();
        assert(item::pair_parts(item::encoded_pairs(none)) =~= Seq::empty());
        assert(bytes.subrange(body, body) =~= item::join(Seq::empty()));
    } else if let Ok((entries, end, last_key)) = canonical::entries_at(bytes, body, depth, count) {
        let (front, start, front_key) = canonical::entries_at(
            bytes,
            body,
            depth,
            (count - 1) as nat,
        )->Ok_0;
        canonical::lemma_entries_extent(bytes, body, depth, (count - 1) as nat);
        lemma_written_back_entries(bytes, body, depth, (count - 1) as nat);
        lemma_written_back(bytes, start, depth);
        let (key, middle) = canonical::item_at(bytes, start, depth)->Ok_0;
        lemma_written_back(bytes, middle, depth);
        let value = entries.last().1;
        assert(entries.drop_last() =~= front);
        let parts = item::pair_parts(item::encoded_pairs(entries));
        item::lemma_encoded_pairs(entries);
        item::lemma_encoded_pairs(front);
        assert(parts.drop_last() =~= item::pair_parts(item::encoded_pairs(front)));
        assert(parts.last() =~= item::encoding(key) + item::encoding(value));
        assert(bytes.subrange(body, end) =~= bytes.subrange(body, start) + (bytes.subrange(
            start,
            middle,
        ) + bytes.subrange(middle, end)));
        let listed = item::keyed(entries);
        let front_listed = item::keyed(front);
        assert forall|i: int, j: int| 0 <= i < j < listed.len() implies octets::bytes_before(
            (#[trigger] listed[i]).0,
            (#[trigger] listed[j]).0,
        ) by {
            assert(listed[i] == front_listed[i]);
            if j < front.len() {
                assert(listed[j] == front_listed[j]);
            } else {
                let last = front.len() - 1;
                assert(front_listed[last].0 == front_key);
                if i < last {
                    assert(octets::bytes_before(front_listed[i].0, front_listed[last].0));
                    octets::lemma_bytes_before_transitive(
                        front_listed[i].0,
                        front_key,
                        listed[j].0,
                    );
                }
            }
        }
        assert forall|i: int| 0 <= i < entries.len() implies {
            let e = #[trigger] entries[i];
            &&& item::in_order(e.0)
            &&& item::in_order(e.1)
            &&& item::canonical_form(e.0) == e.0
            &&& item::canonical_form(e.1) == e.1
            &&& item::keys_unique(e.0)
            &&& item::keys_unique(e.1)
            &&& item::lengths_fit(e.0)
            &&& item::lengths_fit(e.1)
            &&& item::nests_within(e.0, MAX_NESTING_DEPTH - depth)
            &&& item::nests_within(e.1, MAX_NESTING_DEPTH - depth)
        } by {
            if i < front.len() {
                assert(entries[i] == front[i]);
            }
        }
    }
}

// ---- one item for one encoding ----

/// `part` stands in the input at `offset`.
spec fn stands(bytes: Seq<u8>, offset: int, part: Seq<u8>) -> bool {
    offset + part.len() <= bytes.len() && bytes.subrange(offset, offset + part.len()) == part
}

/// What stands in the input in a row stands in it piece by piece.
proof fn lemma_stands_apart(bytes: Seq<u8>, offset: int, a: Seq<u8>, b: Seq<u8>)
    requires
        0 <= offset,
        stands(bytes, offset, a + b),
    ensures
        stands(bytes, offset, a),
        stands(bytes, offset + a.len(), b),
{
    let all = bytes.subrange(offset, offset + (a + b).len());
    assert(all.take(a.len() as int) =~= bytes.subrange(offset, offset + a.len()));
    assert((a + b).take(a.len() as int) =~= a);
    assert(all.skip(a.len() as int) =~= bytes.subrange(
        offset + a.len(),
        offset + a.len() + b.len(),
    ));
    assert((a + b).skip(a.len() as int) =~= b);
}

/// Each of the parts that stand in the input in a row stands behind those before it.
proof fn lemma_part_stands(bytes: Seq<u8>, offset: int, parts: Seq<Seq<u8>>, k: int)
    requires
        0 <= offset,
        0 <= k < parts.len(),
        stands(bytes, offset, item::join(parts)),
    ensures
        stands(bytes, offset + item::join(parts.take(k)).len(), parts[k]),
        item::join(parts.take(k + 1)).len() == item::join(parts.take(k)).len() + parts[k].len(),
{
    lemma_join_part(parts, k);
    let lo = item::join(parts.take(k)).len() as int;
    let hi = item::join(parts.take(k + 1)).len() as int;
    assert(bytes.subrange(offset, offset + item::join(parts).len()).subrange(lo, hi)
        =~= bytes.subrange(offset + lo, offset + hi));
}

/// The major type and the argument in the head of an item, unless it is a simple value.
spec fn head_of(x: Item) -> Option<(nat, nat)> {
    match x {
        Item::Uint(n) => Some((0, n as nat)),
        Item::NegInt(n) => Some((1, n as nat)),
        Item::Bytes(b) => Some((2, b.len())),
        Item::Text(s) => Some((3, encode_utf8(s).len())),
        Item::Array(items) => Some((4, items.len())),
        Item::Mapping(entries) => Some((5, entries.len())),
        Item::Bool(_) => None,
        Item::Null => None,
    }
}

/// What follows the head of an item.
spec fn body_of(x: Item) -> Seq<u8> {
    match x {
        Item::Bytes(b) => b,
        Item::Text(s) => encode_utf8(s),
        Item::Array(items) => item::join(item::encodings(items)),
        Item::Mapping(entries) => item::join(
            item::pair_parts(order::sort_keyed(item::encoded_pairs(entries))),
        ),
        _ => Seq::empty(),
    }
}

/// What can be told of an item from where its encoding stands.
proof fn lemma_head_stands(bytes: Seq<u8>, offset: int, x: Item)
    requires
        0 <= offset,
        item::lengths_fit(x),
        stands(bytes, offset, item::encoding(x)),
    ensures
        offset < bytes.len(),
        match head_of(x) {
            Some((major, arg)) => {
                let head = item::header(major, arg);
                &&& bytes[offset] as nat / 32 == major
                &&& canonical::arg_at(bytes, offset, bytes[offset] as nat % 32) == Ok::<
                    (nat, int),
                    CborError,
                >((arg, offset + head.len()))
                &&& item::encoding(x) == head + body_of(x)
                &&& stands(bytes, offset + head.len(), body_of(x))
            },
            None => {
                &&& item::encoding(x) == seq![bytes[offset]]
                &&& bytes[offset] as nat / 32 == 7
                &&& x == if bytes[offset] == 0xf4 {
                    Item::Bool(false)
                } else if bytes[offset] == 0xf5 {
                    Item::Bool(true)
                } else {
                    Item::Null
                }
            },
        },
{
    let whole = item::encoding(x);
    lemma_encoding_nonempty(x);
    assert(bytes[offset] == bytes.subrange(offset, offset + whole.len())[0]);
    match head_of(x) {
        Some((major, arg)) => {
            let head = item::header(major, arg);
            assert(whole =~= head + body_of(x));
            lemma_stands_apart(bytes, offset, head, body_of(x));
            lemma_header_read(bytes, offset, major, arg);
        },
        None => {
            assert(whole =~= seq![bytes[offset]]);
        },
    }
}

/// Where the encodings of two items stand in the same place, the items are the same up to the order
/// of the entries of mappings, however deep they nest.
proof fn lemma_alike(bytes: Seq<u8>, offset: int, x: Item, y: Item)
    requires
        0 <= offset,
        item::keys_unique(x),
        item::keys_unique(y),
        item::lengths_fit(x),
        item::lengths_fit(y),
        stands(bytes, offset, item::encoding(x)),
        stands(bytes, offset, item::encoding(y)),
    ensures
        item::encoding(x) == item::encoding(y),
        item::canonical_form(x) == item::canonical_form(y),
    decreases x, 0nat,
{
    lemma_head_stands(bytes, offset, x);
    lemma_head_stands(bytes, offset, y);
    if let Some((major, arg)) = head_of(x) {
        let body = offset + item::header(major, arg).len();
        match (x, y) {
            (Item::Text(s), Item::Text(t)) => {
                vstd::utf8::encode_utf8_decode_utf8(s);
                vstd::utf8::encode_utf8_decode_utf8(t);
            },
            (Item::Array(xs), Item::Array(ys)) => {
                lemma_alike_items(bytes, body, xs, ys, xs.len());
                item::lemma_encodings(xs);
                item::lemma_encodings(ys);
                item::lemma_canonical_items(xs);
                item::lemma_canonical_items(ys);
                assert(item::encodings(xs) =~= item::encodings(ys));
                assert(item::canonical_items(xs) =~= item::canonical_items(ys));
            },
            (Item::Mapping(xs), Item::Mapping(ys)) => {
                lemma_alike_entries(bytes, body, xs, ys, xs.len());
                lemma_sorted_entries(xs);
                lemma_sorted_entries(ys);
                assert(order::sort_keyed(item::encoded_pairs(xs)) =~= order::sort_keyed(
                    item::encoded_pairs(ys),
                ));
                assert(item::unkeyed(order::sort_keyed(item::canonical_entries(xs)))
                    =~= item::unkeyed(order::sort_keyed(item::canonical_entries(ys))));
            },
            _ => {},
        }
    }
}

proof fn lemma_alike_items(bytes: Seq<u8>, body: int, xs: Seq<Item>, ys: Seq<Item>, count: nat)
    requires
        0 <= body,
        count <= xs.len() == ys.len(),
        item::keys_unique(Item::Array(xs)),
        item::keys_unique(Item::Array(ys)),
        item::lengths_fit(Item::Array(xs)),
        item::lengths_fit(Item::Array(ys)),
        stands(bytes, body, item::join(item::encodings(xs))),
        stands(bytes, body, item::join(item::encodings(ys))),
    ensures
        item::join(item::encodings(xs).take(count as int)).len() == item::join(
            item::encodings(ys).take(count as int),
        ).len(),
        forall|i: int|
            0 <= i < count ==> item::encoding(#[trigger] xs[i]) == item::encoding(ys[i])
                && item::canonical_form(xs[i]) == item::canonical_form(ys[i]),
    decreases xs, count,
{
    let px = item::encodings(xs);
    let py = item::encodings(ys);
    item::lemma_encodings(xs);
    item::lemma_encodings(ys);
    if count == 0 {
        assert(px.take(0) =~= py.take(0));
    } else {
        let k = count - 1;
        lemma_alike_items(bytes, body, xs, ys, k as nat);
        lemma_part_stands(bytes, body, px, k);
        lemma_part_stands(bytes, body, py, k);
        assert(item::keys_unique(xs[k]) && item::keys_unique(ys[k]));
        assert(item::lengths_fit(xs[k]) && item::lengths_fit(ys[k]));
        assert(decreases_to!(xs => xs[k]));
        lemma_alike(bytes, body + item::join(px.take(k)).len(), xs[k], ys[k]);
    }
}

proof fn lemma_alike_entries(
    bytes: Seq<u8>,
    body: int,
    xs: Seq<(Item, Item)>,
    ys: Seq<(Item, Item)>,
    count: nat,
)
    requires
        0 <= body,
        count <= xs.len() == ys.len(),
        item::keys_unique(Item::Mapping(xs)),
        item::keys_unique(Item::Mapping(ys)),
        item::lengths_fit(Item::Mapping(xs)),
        item::lengths_fit(Item::Mapping(ys)),
        stands(bytes, body, body_of(Item::Mapping(xs))),
        stands(bytes, body, body_of(Item::Mapping(ys))),
    ensures
        item::join(
            item::pair_parts(order::sort_keyed(item::encoded_pairs(xs))).take(count as int),
        ).len() == item::join(
            item::pair_parts(order::sort_keyed(item::encoded_pairs(ys))).take(count as int),
        ).len(),
        forall|i: int|
            0 <= i < count ==> {
                let a = (#[trigger] sorted_entries(xs)[i]).1;
                let b = sorted_entries(ys)[i].1;
                &&& item::encoding(a.0) == item::encoding(b.0)
                &&& item::encoding(a.1) == item::encoding(b.1)
                &&& item::canonical_form(a.0) == item::canonical_form(b.0)
                &&& item::canonical_form(a.1) == item::canonical_form(b.1)
            },
    decreases xs, count,
{
    let px = item::pair_parts(order::sort_keyed(item::encoded_pairs(xs)));
    let py = item::pair_parts(order::sort_keyed(item::encoded_pairs(ys)));
    lemma_sorted_entries(xs);
    lemma_sorted_entries(ys);
    if count == 0 {
        assert(px.take(0) =~= py.take(0));
    } else {
        let k = count - 1;
        lemma_alike_entries(bytes, body, xs, ys, k as nat);
        lemma_part_stands(bytes, body, px, k);
        lemma_part_stands(bytes, body, py, k);
        let a = sorted_entries(xs)[k].1;
        let b = sorted_entries(ys)[k].1;
        let i = choose|i: int| 0 <= i < xs.len() && xs[i] == a;
        let j = choose|j: int| 0 <= j < ys.len() && ys[j] == b;
        assert(xs[i] == a && ys[j] == b);
        assert(decreases_to!(xs => xs[i]));
        let start = body + item::join(px.take(k)).len();
        assert(px[k] == item::encoding(a.0) + item::encoding(a.1));
        assert(py[k] == item::encoding(b.0) + item::encoding(b.1));
        lemma_stands_apart(bytes, start, item::encoding(a.0), item::encoding(a.1));
        lemma_stands_apart(bytes, start, item::encoding(b.0), item::encoding(b.1));
        lemma_alike(bytes, start, a.0, b.0);
        lemma_alike(bytes, start + item::encoding(a.0).len(), a.1, b.1);
    }
}

/// Items with the same canonical form are the same up to the order of the entries of mappings.
pub proof fn lemma_same_form(x: Item, y: Item)
    requires
        item::keys_unique(x),
        item::keys_unique(y),
        item::canonical_form(x) == item::canonical_form(y),
    ensures
        item::same_item(x, y),
    decreases x,
{
    match (x, y) {
        (Item::Array(xs), Item::Array(ys)) => {
            item::lemma_canonical_items(xs);
            item::lemma_canonical_items(ys);
            assert forall|i: int| 0 <= i < xs.len() implies item::same_item(#[trigger] xs[i], ys[i]) by {
                assert(item::canonical_items(xs)[i] == item::canonical_items(ys)[i]);
                assert(item::keys_unique(xs[i]) && item::keys_unique(ys[i]));
                assert(decreases_to!(xs => xs[i]));
                lemma_same_form(xs[i], ys[i]);
            }
        },
        (Item::Mapping(xs), Item::Mapping(ys)) => {
            let sx = sorted_entries(xs);
            let sy = sorted_entries(ys);
            let fx = item::unkeyed(order::sort_keyed(item::canonical_entries(xs)));
            let fy = item::unkeyed(order::sort_keyed(item::canonical_entries(ys)));
            lemma_sorted_entries(xs);
            lemma_sorted_entries(ys);
            assert(fx.len() == fy.len());
            order::lemma_sort_keyed(item::keyed(xs));
            order::lemma_sort_keyed(item::keyed(ys));
            assert forall|i: int| 0 <= i < xs.len() implies item::is_among(#[trigger] xs[i], ys) by {
                assert(item::keyed(xs).contains(item::keyed(xs)[i]));
                assert(sx.contains(item::keyed(xs)[i]));
                let p = choose|p: int| 0 <= p < sx.len() && sx[p] == item::keyed(xs)[i];
                let j = choose|j: int| 0 <= j < ys.len() && ys[j] == sy[p].1;
                lemma_same_form_entry(xs, ys, p, i, j);
            }
            assert forall|j: int| 0 <= j < ys.len() implies item::has_among(xs, #[trigger] ys[j]) by {
                assert(item::keyed(ys).contains(item::keyed(ys)[j]));
                assert(sy.contains(item::keyed(ys)[j]));
                let p = choose|p: int| 0 <= p < sy.len() && sy[p] == item::keyed(ys)[j];
                let i = choose|i: int| 0 <= i < xs.len() && xs[i] == sx[p].1;
                lemma_same_form_entry(xs, ys, p, i, j);
            }
        },
        _ => {},
    }
}

/// The entries at the same place in two mappings with the same canonical form are the same.
proof fn lemma_same_form_entry(
    xs: Seq<(Item, Item)>,
    ys: Seq<(Item, Item)>,
    p: int,
    i: int,
    j: int,
)
    requires
        item::keys_unique(Item::Mapping(xs)),
        item::keys_unique(Item::Mapping(ys)),
        item::canonical_form(Item::Mapping(xs)) == item::canonical_form(Item::Mapping(ys)),
        0 <= p < xs.len() == ys.len(),
        0 <= i < xs.len(),
        0 <= j < ys.len(),
        sorted_entries(xs)[p].1 == xs[i],
        sorted_entries(ys)[p].1 == ys[j],
    ensures
        item::same_item(xs[i].0, ys[j].0),
        item::same_item(xs[i].1, ys[j].1),
    decreases xs,
{
    lemma_sorted_entries(xs);
    lemma_sorted_entries(ys);
    let fx = item::unkeyed(order::sort_keyed(item::canonical_entries(xs)));
    let fy = item::unkeyed(order::sort_keyed(item::canonical_entries(ys)));
    assert(fx[p] == fy[p]);
    assert(item::keys_unique(xs[i].0) && item::keys_unique(xs[i].1));
    assert(item::keys_unique(ys[j].0) && item::keys_unique(ys[j].1));
    assert(decreases_to!(xs => xs[i]));
    lemma_same_form(xs[i].0, ys[j].0);
    lemma_same_form(xs[i].1, ys[j].1);
}

// ---- laws ----

/// Decoding the canonical bytes of an item gives the item back, with the entries of its mappings
/// in canonical order.
pub proof fn law_decode_of_encode(x: Item)
    requires
        item::keys_unique(x),
        item::lengths_fit(x),
        item::nests_within(x, MAX_NESTING_DEPTH as int),
    ensures
        canonical::decoding(item::encoding(x)) == Ok::<Item, CborError>(item::canonical_form(x)),
{
    let bytes = item::encoding(x);
    assert(bytes.subrange(0, bytes.len() as int) =~= bytes);
    lemma_read_back(bytes, 0, 0, x);
}

/// Re-encoding what was decoded reproduces the bytes, and what was decoded is a well-formed item
/// in canonical form. So the decoder accepts nothing but canonical encodings.
pub proof fn law_encode_of_decode(bytes: Seq<u8>)
    ensures
        canonical::decoding(bytes) matches Ok(x) ==> {
            &&& item::encoding(x) == bytes
            &&& item::in_order(x)
            &&& item::canonical_form(x) == x
            &&& item::keys_unique(x)
            &&& item::lengths_fit(x)
            &&& item::nests_within(x, MAX_NESTING_DEPTH as int)
        },
{
    lemma_written_back(bytes, 0, 0);
    if let Ok((x, end)) = canonical::item_at(bytes, 0, 0) {
        if end == bytes.len() {
            assert(bytes.subrange(0, end) =~= bytes);
        }
    }
}

/// Two byte strings that decode to the same item are the same byte string.
pub proof fn law_decode_injective(a: Seq<u8>, b: Seq<u8>)
    requires
        canonical::decoding(a) is Ok,
        canonical::decoding(a) == canonical::decoding(b),
    ensures
        a == b,
{
    law_encode_of_decode(a);
    law_encode_of_decode(b);
}

/// Items with the same canonical bytes are the same up to the order of the entries of mappings,
/// however deep they nest: the encoding has no bound on that, though the decoder has.
pub proof fn law_encode_injective(x: Item, y: Item)
    requires
        item::keys_unique(x),
        item::keys_unique(y),
        item::lengths_fit(x),
        item::lengths_fit(y),
        item::encoding(x) == item::encoding(y),
    ensures
        item::same_item(x, y),
        item::canonical_form(x) == item::canonical_form(y),
{
    let bytes = item::encoding(x);
    assert(bytes.subrange(0, bytes.len() as int) =~= bytes);
    lemma_alike(bytes, 0, x, y);
    lemma_same_form(x, y);
}

/// Exactly the canonical encodings of well-formed items are accepted.
pub proof fn law_accepted_bytes(bytes: Seq<u8>)
    ensures
        canonical::decoding(bytes) is Ok <==> exists|x: Item|
            {
                &&& #[trigger] item::encoding(x) == bytes
                &&& item::keys_unique(x)
                &&& item::lengths_fit(x)
                &&& item::nests_within(x, MAX_NESTING_DEPTH as int)
            },
{
    if canonical::decoding(bytes) is Ok {
        law_encode_of_decode(bytes);
        let x = canonical::decoding(bytes)->Ok_0;
        assert(item::encoding(x) == bytes);
    }
    if exists|x: Item|
        {
            &&& #[trigger] item::encoding(x) == bytes
            &&& item::keys_unique(x)
            &&& item::lengths_fit(x)
            &&& item::nests_within(x, MAX_NESTING_DEPTH as int)
        } {
        let x = choose|x: Item|
            {
                &&& #[trigger] item::encoding(x) == bytes
                &&& item::keys_unique(x)
                &&& item::lengths_fit(x)
                &&& item::nests_within(x, MAX_NESTING_DEPTH as int)
            };
        law_decode_of_encode(x);
    }
}

/// An item and its canonical form are equal: they differ in the order of map entries alone. So
/// what [`law_decode_of_encode`] says is read back is equal to what was written.
pub proof fn law_canonical_form_is_same(x: Item)
    requires
        item::keys_unique(x),
    ensures
        item::same_item(item::canonical_form(x), x),
    decreases x,
{
    match x {
        Item::Array(items) => {
            item::lemma_canonical_items(items);
            let forms = item::canonical_items(items);
            assert forall|i: int| 0 <= i < forms.len() implies item::same_item(
                #[trigger] forms[i],
                items[i],
            ) by {
                assert(decreases_to!(items => items[i]));
                law_canonical_form_is_same(items[i]);
            }
        },
        Item::Mapping(entries) => {
            lemma_sorted_entries(entries);
            let listed = item::keyed(entries);
            let sorted = sorted_entries(entries);
            order::lemma_sort_keyed(listed);
            let forms = item::unkeyed(order::sort_keyed(item::canonical_entries(entries)));
            assert forall|i: int| 0 <= i < forms.len() implies item::is_among(
                #[trigger] forms[i],
                entries,
            ) by {
                let j = choose|j: int| 0 <= j < entries.len() && entries[j] == sorted[i].1;
                assert(entries[j] == sorted[i].1);
                assert(decreases_to!(entries => entries[j]));
                law_canonical_form_is_same(entries[j].0);
                law_canonical_form_is_same(entries[j].1);
            }
            assert forall|j: int| 0 <= j < entries.len() implies item::has_among(
                forms,
                #[trigger] entries[j],
            ) by {
                assert(listed[j].1 == entries[j]);
                assert(listed.contains(listed[j]));
                assert(sorted.contains(listed[j]));
                let i = choose|i: int| 0 <= i < sorted.len() && sorted[i] == listed[j];
                assert(sorted[i].1 == entries[j]);
                assert(decreases_to!(entries => entries[j]));
                law_canonical_form_is_same(entries[j].0);
                law_canonical_form_is_same(entries[j].1);
                assert(forms[i] == (
                    item::canonical_form(entries[j].0),
                    item::canonical_form(entries[j].1),
                ));
            }
        },
        _ => {},
    }
}

/// The canonical form of an item is well formed, and is its own canonical form.
pub proof fn lemma_canonical_form_unique(x: Item)
    requires
        item::keys_unique(x),
    ensures
        item::keys_unique(item::canonical_form(x)),
    decreases x,
{
    match x {
        Item::Array(items) => {
            item::lemma_canonical_items(items);
            let forms = item::canonical_items(items);
            assert forall|i: int| 0 <= i < forms.len() implies item::keys_unique(
                #[trigger] forms[i],
            ) by {
                assert(decreases_to!(items => items[i]));
                lemma_canonical_form_unique(items[i]);
            }
        },
        Item::Mapping(entries) => {
            lemma_sorted_entries(entries);
            let sorted = sorted_entries(entries);
            let forms = item::unkeyed(order::sort_keyed(item::canonical_entries(entries)));
            let listed = item::keyed(forms);
            assert forall|i: int| 0 <= i < forms.len() implies item::keys_unique(
                (#[trigger] forms[i]).0,
            ) && item::keys_unique(forms[i].1) && item::encoding(forms[i].0) == sorted[i].0 by {
                let j = choose|j: int| 0 <= j < entries.len() && entries[j] == sorted[i].1;
                assert(entries[j] == sorted[i].1);
                assert(decreases_to!(entries => entries[j]));
                lemma_canonical_form_unique(entries[j].0);
                lemma_canonical_form_unique(entries[j].1);
                law_canonical_form_is_same(entries[j].0);
                law_same_items_same_bytes(item::canonical_form(entries[j].0), entries[j].0);
            }
            assert forall|i: int, j: int| 0 <= i < j < listed.len() implies (#[trigger] listed[i]).0
                != (#[trigger] listed[j]).0 by {
                assert(forms[i].0 == forms[i].0 && forms[j].0 == forms[j].0);
                assert(octets::bytes_before(sorted[i].0, sorted[j].0));
                octets::lemma_bytes_before_asymmetric(sorted[i].0, sorted[j].0);
            }
        },
        _ => {},
    }
}

/// The lengths in an item fit where those in its canonical form do.
pub proof fn lemma_canonical_form_fits(x: Item)
    requires
        item::keys_unique(x),
        item::lengths_fit(item::canonical_form(x)),
    ensures
        item::lengths_fit(x),
    decreases x,
{
    match x {
        Item::Array(items) => {
            item::lemma_canonical_items(items);
            let forms = item::canonical_items(items);
            assert forall|i: int| 0 <= i < items.len() implies item::lengths_fit(
                #[trigger] items[i],
            ) by {
                assert(decreases_to!(items => items[i]));
                assert(item::lengths_fit(forms[i]));
                lemma_canonical_form_fits(items[i]);
            }
        },
        Item::Mapping(entries) => {
            lemma_sorted_entries(entries);
            let listed = item::keyed(entries);
            let sorted = sorted_entries(entries);
            order::lemma_sort_keyed(listed);
            let forms = item::unkeyed(order::sort_keyed(item::canonical_entries(entries)));
            assert forall|j: int| 0 <= j < entries.len() implies item::lengths_fit(
                (#[trigger] entries[j]).0,
            ) && item::lengths_fit(entries[j].1) by {
                assert(listed[j].1 == entries[j]);
                assert(listed.contains(listed[j]));
                assert(sorted.contains(listed[j]));
                let i = choose|i: int| 0 <= i < sorted.len() && sorted[i] == listed[j];
                assert(sorted[i].1 == entries[j]);
                assert(forms[i] == (
                    item::canonical_form(entries[j].0),
                    item::canonical_form(entries[j].1),
                ));
                assert(decreases_to!(entries => entries[j]));
                lemma_canonical_form_fits(entries[j].0);
                lemma_canonical_form_fits(entries[j].1);
            }
        },
        _ => {},
    }
}

/// The lengths in an item fit where those in an equal one do.
pub proof fn lemma_same_fits(x: Item, y: Item)
    requires
        item::same_item(x, y),
        item::lengths_fit(x),
    ensures
        item::lengths_fit(y),
    decreases x,
{
    match (x, y) {
        (Item::Array(xs), Item::Array(ys)) => {
            assert forall|i: int| 0 <= i < ys.len() implies item::lengths_fit(#[trigger] ys[i]) by {
                assert(item::same_item(xs[i], ys[i]));
                assert(item::lengths_fit(xs[i]));
                assert(decreases_to!(xs => xs[i]));
                lemma_same_fits(xs[i], ys[i]);
            }
        },
        (Item::Mapping(xs), Item::Mapping(ys)) => {
            assert forall|j: int| 0 <= j < ys.len() implies item::lengths_fit((#[trigger] ys[j]).0)
                && item::lengths_fit(ys[j].1) by {
                assert(item::has_among(xs, ys[j]));
                let i = choose|i: int|
                    #![trigger xs[i]]
                    0 <= i < xs.len() && item::same_item(xs[i].0, ys[j].0) && item::same_item(
                        xs[i].1,
                        ys[j].1,
                    );
                assert(decreases_to!(xs => xs[i]));
                lemma_same_fits(xs[i].0, ys[j].0);
                lemma_same_fits(xs[i].1, ys[j].1);
            }
        },
        _ => {},
    }
}

/// An item and its canonical form have the same bytes.
pub proof fn law_canonical_form_same_bytes(x: Item)
    requires
        item::keys_unique(x),
    ensures
        item::encoding(item::canonical_form(x)) == item::encoding(x),
{
    lemma_canonical_form_unique(x);
    law_canonical_form_is_same(x);
    law_same_items_same_bytes(item::canonical_form(x), x);
}

/// An item whose mappings are in order is its own canonical form.
pub proof fn lemma_in_order_is_canonical(x: Item)
    requires
        item::in_order(x),
    ensures
        item::canonical_form(x) == x,
        item::keys_unique(x),
    decreases x,
{
    match x {
        Item::Array(items) => {
            item::lemma_canonical_items(items);
            assert forall|i: int| 0 <= i < items.len() implies item::canonical_form(
                #[trigger] items[i],
            ) == items[i] && item::keys_unique(items[i]) by {
                assert(decreases_to!(items => items[i]));
                lemma_in_order_is_canonical(items[i]);
            }
            assert(item::canonical_items(items) =~= items);
        },
        Item::Mapping(entries) => {
            assert forall|i: int| 0 <= i < entries.len() implies item::canonical_form(
                (#[trigger] entries[i]).0,
            ) == entries[i].0 && item::canonical_form(entries[i].1) == entries[i].1
                && item::keys_unique(entries[i].0) && item::keys_unique(entries[i].1) by {
                assert(decreases_to!(entries => entries[i]));
                lemma_in_order_is_canonical(entries[i].0);
                lemma_in_order_is_canonical(entries[i].1);
            }
            lemma_increasing_mapping(entries);
        },
        _ => {},
    }
}

/// Equal items have the same canonical bytes: the insertion order of map entries leaves no trace
/// in the encoding.
pub proof fn law_same_items_same_bytes(x: Item, y: Item)
    requires
        item::same_item(x, y),
        item::keys_unique(x),
        item::keys_unique(y),
    ensures
        item::encoding(x) == item::encoding(y),
    decreases x,
{
    match (x, y) {
        (Item::Array(xs), Item::Array(ys)) => {
            item::lemma_encodings(xs);
            item::lemma_encodings(ys);
            assert forall|i: int| 0 <= i < xs.len() implies #[trigger] item::encodings(xs)[i]
                == item::encodings(ys)[i] by {
                assert(item::same_item(xs[i], ys[i]));
                assert(item::keys_unique(xs[i]) && item::keys_unique(ys[i]));
                assert(decreases_to!(xs => xs[i]));
                law_same_items_same_bytes(xs[i], ys[i]);
            }
            assert(item::encodings(xs) =~= item::encodings(ys));
        },
        (Item::Mapping(xs), Item::Mapping(ys)) => {
            let px = item::encoded_pairs(xs);
            let py = item::encoded_pairs(ys);
            item::lemma_encoded_pairs(xs);
            item::lemma_encoded_pairs(ys);
            lemma_pairs_distinct(xs);
            lemma_pairs_distinct(ys);
            order::lemma_sort_keyed(px);
            order::lemma_sort_keyed(py);
            assert forall|p: (Seq<u8>, Seq<u8>)| px.contains(p) implies py.contains(p) by {
                let i = choose|i: int| 0 <= i < px.len() && px[i] == p;
                assert(item::is_among(xs[i], ys));
                let j = choose|j: int|
                    #![trigger ys[j]]
                    0 <= j < ys.len() && item::same_item(xs[i].0, ys[j].0) && item::same_item(
                        xs[i].1,
                        ys[j].1,
                    );
                lemma_same_entry_same_bytes(xs, ys, i, j);
                assert(py[j] == p);
            }
            assert forall|p: (Seq<u8>, Seq<u8>)| py.contains(p) implies px.contains(p) by {
                let j = choose|j: int| 0 <= j < py.len() && py[j] == p;
                assert(item::has_among(xs, ys[j]));
                let i = choose|i: int|
                    #![trigger xs[i]]
                    0 <= i < xs.len() && item::same_item(xs[i].0, ys[j].0) && item::same_item(
                        xs[i].1,
                        ys[j].1,
                    );
                lemma_same_entry_same_bytes(xs, ys, i, j);
                assert(px[i] == p);
            }
            assert forall|p: (Seq<u8>, Seq<u8>)| #[trigger]
                order::sort_keyed(px).contains(p) <==> #[trigger] order::sort_keyed(py).contains(
                    p,
                ) by {
                assert(px.contains(p) <==> py.contains(p));
            }
            order::lemma_increasing_unique(order::sort_keyed(px), order::sort_keyed(py));
        },
        _ => {},
    }
}

proof fn lemma_same_entry_same_bytes(
    xs: Seq<(Item, Item)>,
    ys: Seq<(Item, Item)>,
    i: int,
    j: int,
)
    requires
        0 <= i < xs.len(),
        0 <= j < ys.len(),
        item::keys_unique(Item::Mapping(xs)),
        item::keys_unique(Item::Mapping(ys)),
        item::same_item(xs[i].0, ys[j].0),
        item::same_item(xs[i].1, ys[j].1),
    ensures
        item::encoding(xs[i].0) == item::encoding(ys[j].0),
        item::encoding(xs[i].1) == item::encoding(ys[j].1),
    decreases xs,
{
    assert(decreases_to!(xs => xs[i]));
    assert(item::keys_unique(xs[i].0) && item::keys_unique(xs[i].1));
    assert(item::keys_unique(ys[j].0) && item::keys_unique(ys[j].1));
    law_same_items_same_bytes(xs[i].0, ys[j].0);
    law_same_items_same_bytes(xs[i].1, ys[j].1);
}

proof fn lemma_pairs_distinct(entries: Seq<(Item, Item)>)
    requires
        item::keys_unique(Item::Mapping(entries)),
    ensures
        order::keys_distinct(item::encoded_pairs(entries)),
{
    let listed = item::keyed(entries);
    let pairs = item::encoded_pairs(entries);
    item::lemma_encoded_pairs(entries);
    assert forall|i: int, j: int| 0 <= i < j < pairs.len() implies (#[trigger] pairs[i]).0 != (
    #[trigger] pairs[j]).0 by {
        assert(listed[i].0 != listed[j].0);
    }
}

} // verus!
