//! Records: maps from distinct field names to values, which every wire type is encoded as.
//!
//! The reader looks fields up by name and the encoder sorts them, so the order in which a type
//! lists its fields never matters; these lemmas say so once for all types.
use crate::octets;
use crate::order;
use crate::proto::item;
use crate::proto::item::Item;
use crate::proto::reader;
use crate::proto::roundtrip;
use vstd::prelude::*;
use vstd::utf8::encode_utf8;

verus! {

/// No field name occurs twice.
pub open spec fn names_distinct(fields: Seq<(Seq<char>, Item)>) -> bool {
    forall|i: int, j: int|
        0 <= i < j < fields.len() ==> (#[trigger] fields[i]).0 != (#[trigger] fields[j]).0
}

/// The field values are well formed themselves.
pub open spec fn values_unique(fields: Seq<(Seq<char>, Item)>) -> bool {
    forall|i: int| 0 <= i < fields.len() ==> item::keys_unique((#[trigger] fields[i]).1)
}

/// Nothing in a field value sits inside more than `levels` arrays and mappings of it.
pub open spec fn values_nest(fields: Seq<(Seq<char>, Item)>, levels: int) -> bool {
    forall|i: int| 0 <= i < fields.len() ==> item::nests_within((#[trigger] fields[i]).1, levels)
}

/// Every field name is one of `allowed`.
pub open spec fn names_among(fields: Seq<(Seq<char>, Item)>, allowed: Seq<Seq<char>>) -> bool {
    forall|i: int| 0 <= i < fields.len() ==> allowed.contains((#[trigger] fields[i]).0)
}

/// `name` is not the name of a field.
pub open spec fn not_named(fields: Seq<(Seq<char>, Item)>, name: Seq<char>) -> bool {
    forall|i: int| 0 <= i < fields.len() ==> (#[trigger] fields[i]).0 != name
}

/// What the reader finds under `name` is the canonical form of the field of that name.
pub open spec fn agrees(
    entries: Seq<(Item, Item)>,
    fields: Seq<(Seq<char>, Item)>,
    name: Seq<char>,
) -> bool {
    match reader::find_field(entries, name) {
        None => not_named(fields, name),
        Some(value) => exists|i: int|
            0 <= i < fields.len() && (#[trigger] fields[i]).0 == name && value
                == item::canonical_form(fields[i].1),
    }
}

/// Different texts have different encodings.
pub proof fn lemma_text_encoding_injective(a: Seq<char>, b: Seq<char>)
    requires
        item::encoding(Item::Text(a)) == item::encoding(Item::Text(b)),
    ensures
        a == b,
{
    let ua = encode_utf8(a);
    let ub = encode_utf8(b);
    let ha = item::header(3, ua.len());
    let hb = item::header(3, ub.len());
    octets::lemma_be_bytes_len(ua.len(), 1);
    octets::lemma_be_bytes_len(ua.len(), 2);
    octets::lemma_be_bytes_len(ua.len(), 4);
    octets::lemma_be_bytes_len(ua.len(), 8);
    octets::lemma_be_bytes_len(ub.len(), 1);
    octets::lemma_be_bytes_len(ub.len(), 2);
    octets::lemma_be_bytes_len(ub.len(), 4);
    octets::lemma_be_bytes_len(ub.len(), 8);
    assert((ha + ua).len() == (hb + ub).len());
    assert(ua.len() == ub.len());
    assert((ha + ua).skip(ha.len() as int) =~= ua);
    assert((hb + ub).skip(hb.len() as int) =~= ub);
    vstd::utf8::encode_utf8_decode_utf8(a);
    vstd::utf8::encode_utf8_decode_utf8(b);
}

/// A record with distinct names and well-formed values is well formed.
pub proof fn lemma_record_unique(fields: Seq<(Seq<char>, Item)>)
    requires
        names_distinct(fields),
        values_unique(fields),
    ensures
        item::keys_unique(item::record(fields)),
{
    let entries = item::record_entries(fields);
    let listed = item::keyed(entries);
    assert forall|i: int, j: int| 0 <= i < j < listed.len() implies (#[trigger] listed[i]).0 != (
    #[trigger] listed[j]).0 by {
        assert(fields[i].0 != fields[j].0);
        if listed[i].0 == listed[j].0 {
            lemma_text_encoding_injective(fields[i].0, fields[j].0);
        }
    }
    assert forall|i: int| 0 <= i < entries.len() implies item::keys_unique((#[trigger] entries[i]).0)
        && item::keys_unique(entries[i].1) by {
        assert(item::keys_unique(fields[i].1));
    }
}

/// A record adds one level of nesting to its values.
pub proof fn lemma_record_nests(fields: Seq<(Seq<char>, Item)>, levels: int)
    requires
        levels > 0,
        values_nest(fields, levels - 1),
    ensures
        item::nests_within(item::record(fields), levels),
{
    let entries = item::record_entries(fields);
    assert forall|i: int| 0 <= i < entries.len() implies item::nests_within(
        (#[trigger] entries[i]).0,
        levels - 1,
    ) && item::nests_within(entries[i].1, levels - 1) by {
        assert(item::nests_within(fields[i].1, levels - 1));
    }
}

/// The lengths in a record fit where those of its names and values do.
pub proof fn lemma_record_fits(fields: Seq<(Seq<char>, Item)>)
    requires
        fields.len() <= u64::MAX,
        forall|i: int|
            0 <= i < fields.len() ==> encode_utf8((#[trigger] fields[i]).0).len() <= u64::MAX
                && item::lengths_fit(fields[i].1),
    ensures
        item::lengths_fit(item::record(fields)),
{
    let entries = item::record_entries(fields);
    assert forall|i: int| 0 <= i < entries.len() implies item::lengths_fit(
        (#[trigger] entries[i]).0,
    ) && item::lengths_fit(entries[i].1) by {
        assert(item::lengths_fit(fields[i].1));
    }
}

/// UTF-8 takes at most four bytes per character.
pub proof fn lemma_utf8_len(s: Seq<char>)
    ensures
        encode_utf8(s).len() <= 4 * s.len(),
    decreases s.len(),
{
    if s.len() > 0 {
        lemma_utf8_len(s.drop_first());
    }
}

pub proof fn lemma_names_short(fields: Seq<(Seq<char>, Item)>, longest: nat)
    requires
        longest <= 0x1000_0000,
        forall|i: int| 0 <= i < fields.len() ==> (#[trigger] fields[i]).0.len() <= longest,
    ensures
        forall|i: int|
            0 <= i < fields.len() ==> encode_utf8((#[trigger] fields[i]).0).len() <= u64::MAX,
{
    assert forall|i: int| 0 <= i < fields.len() implies encode_utf8((#[trigger] fields[i]).0).len()
        <= u64::MAX by {
        lemma_utf8_len(fields[i].0);
    }
}

/// The reader finds the first entry under a name.
pub proof fn lemma_find_at(entries: Seq<(Item, Item)>, name: Seq<char>, at: int)
    requires
        0 <= at < entries.len(),
        entries[at].0 == Item::Text(name),
        forall|j: int| 0 <= j < at ==> (#[trigger] entries[j]).0 != Item::Text(name),
    ensures
        reader::find_field(entries, name) == Some(entries[at].1),
    decreases entries.len(),
{
    if at > 0 {
        assert(entries[0].0 != Item::Text(name));
        let rest = entries.drop_first();
        assert forall|j: int| 0 <= j < at - 1 implies (#[trigger] rest[j]).0 != Item::Text(name) by {
            assert(entries[j + 1].0 != Item::Text(name));
        }
        lemma_find_at(rest, name, at - 1);
    }
}

pub proof fn lemma_find_none(entries: Seq<(Item, Item)>, name: Seq<char>)
    requires
        forall|j: int| 0 <= j < entries.len() ==> (#[trigger] entries[j]).0 != Item::Text(name),
    ensures
        reader::find_field(entries, name) is None,
    decreases entries.len(),
{
    if entries.len() > 0 {
        assert(entries[0].0 != Item::Text(name));
        let rest = entries.drop_first();
        assert forall|j: int| 0 <= j < rest.len() implies (#[trigger] rest[j]).0 != Item::Text(
            name,
        ) by {
            assert(entries[j + 1].0 != Item::Text(name));
        }
        lemma_find_none(rest, name);
    }
}

/// What the reader found is an entry of the map.
pub proof fn lemma_find_some(entries: Seq<(Item, Item)>, name: Seq<char>)
    ensures
        reader::find_field(entries, name) matches Some(value) ==> exists|i: int|
            0 <= i < entries.len() && #[trigger] entries[i] == (Item::Text(name), value),
    decreases entries.len(),
{
    if entries.len() > 0 {
        if entries[0].0 == Item::Text(name) {
            assert(entries[0] == (Item::Text(name), entries[0].1));
        } else {
            let rest = entries.drop_first();
            lemma_find_some(rest, name);
            if let Some(value) = reader::find_field(rest, name) {
                let i = choose|i: int|
                    0 <= i < rest.len() && #[trigger] rest[i] == (Item::Text(name), value);
                assert(entries[i + 1] == (Item::Text(name), value));
            }
        }
    }
}

/// The closed-schema check passes exactly where every key is an allowed name.
pub proof fn lemma_foreign_key(entries: Seq<(Item, Item)>, allowed: Seq<Seq<char>>)
    ensures
        reader::foreign_key(entries, allowed) is None <==> forall|i: int|
            0 <= i < entries.len() ==> (#[trigger] entries[i]).0 is Text && allowed.contains(
                entries[i].0->Text_0,
            ),
    decreases entries.len(),
{
    if entries.len() > 0 {
        let rest = entries.drop_first();
        lemma_foreign_key(rest, allowed);
        if reader::foreign_key(entries, allowed) is None {
            assert forall|i: int| 0 <= i < entries.len() implies (#[trigger] entries[i]).0 is Text
                && allowed.contains(entries[i].0->Text_0) by {
                if i > 0 {
                    assert(entries[i] == rest[i - 1]);
                }
            }
        } else if forall|i: int|
            0 <= i < entries.len() ==> (#[trigger] entries[i]).0 is Text && allowed.contains(
                entries[i].0->Text_0,
            ) {
            assert(entries[0].0 is Text);
            assert forall|i: int| 0 <= i < rest.len() implies (#[trigger] rest[i]).0 is Text
                && allowed.contains(rest[i].0->Text_0) by {
                assert(rest[i] == entries[i + 1]);
            }
        }
    }
}

/// The canonical form of a record is a map with the same fields, each in canonical form, in
/// canonical order.
pub proof fn lemma_canonical_record(fields: Seq<(Seq<char>, Item)>) -> (entries: Seq<(Item, Item)>)
    requires
        names_distinct(fields),
        values_unique(fields),
    ensures
        item::canonical_form(item::record(fields)) == Item::Mapping(entries),
        order::keys_increasing(item::keyed(entries)),
        forall|i: int|
            0 <= i < fields.len() ==> reader::find_field(entries, (#[trigger] fields[i]).0)
                == Some(item::canonical_form(fields[i].1)),
        forall|name: Seq<char>|
            not_named(fields, name) ==> #[trigger] reader::find_field(entries, name) is None,
        forall|k: int|
            0 <= k < entries.len() ==> exists|i: int|
                0 <= i < fields.len() && #[trigger] fields[i].0 == (
                #[trigger] entries[k]).0->Text_0 && entries[k] == (
                    Item::Text(fields[i].0),
                    item::canonical_form(fields[i].1),
                ),
{
    let listed_entries = item::record_entries(fields);
    let listed = item::keyed(listed_entries);
    lemma_record_unique(fields);
    roundtrip::lemma_sorted_entries(listed_entries);
    let sorted = roundtrip::sorted_entries(listed_entries);
    order::lemma_sort_keyed(listed);
    let entries = item::unkeyed(order::sort_keyed(item::canonical_entries(listed_entries)));
    assert forall|k: int| 0 <= k < entries.len() implies exists|i: int|
        0 <= i < fields.len() && #[trigger] fields[i].0 == (#[trigger] entries[k]).0->Text_0
            && entries[k] == (Item::Text(fields[i].0), item::canonical_form(fields[i].1)) by {
        let i = choose|i: int|
            0 <= i < listed_entries.len() && listed_entries[i] == sorted[k].1;
        assert(listed_entries[i] == sorted[k].1);
        assert(fields[i].0 == entries[k].0->Text_0);
    }
    assert forall|i: int, j: int|
        0 <= i < j < item::keyed(entries).len() implies octets::bytes_before(
        (#[trigger] item::keyed(entries)[i]).0,
        (#[trigger] item::keyed(entries)[j]).0,
    ) by {
        assert(octets::bytes_before(sorted[i].0, sorted[j].0));
        assert(entries[i].0 == sorted[i].1.0);
        assert(entries[j].0 == sorted[j].1.0);
    }
    assert forall|i: int| 0 <= i < fields.len() implies reader::find_field(
        entries,
        (#[trigger] fields[i]).0,
    ) == Some(item::canonical_form(fields[i].1)) by {
        assert(listed[i].1 == listed_entries[i]);
        assert(listed.contains(listed[i]));
        assert(sorted.contains(listed[i]));
        let k = choose|k: int| 0 <= k < sorted.len() && sorted[k] == listed[i];
        assert(entries[k] == (Item::Text(fields[i].0), item::canonical_form(fields[i].1)));
        assert forall|j: int| 0 <= j < k implies (#[trigger] entries[j]).0 != Item::Text(
            fields[i].0,
        ) by {
            assert(octets::bytes_before(item::keyed(entries)[j].0, item::keyed(entries)[k].0));
            octets::lemma_bytes_before_asymmetric(
                item::keyed(entries)[j].0,
                item::keyed(entries)[k].0,
            );
        }
        lemma_find_at(entries, fields[i].0, k);
    }
    assert forall|name: Seq<char>| not_named(fields, name) implies #[trigger] reader::find_field(
        entries,
        name,
    ) is None by {
        assert forall|j: int| 0 <= j < entries.len() implies (#[trigger] entries[j]).0
            != Item::Text(name) by {
            let i = choose|i: int|
                0 <= i < fields.len() && #[trigger] fields[i].0 == entries[j].0->Text_0
                    && entries[j] == (Item::Text(fields[i].0), item::canonical_form(fields[i].1));
            assert(fields[i].0 != name);
        }
        lemma_find_none(entries, name);
    }
    entries
}

/// The closed-schema check passes on a record whose names are all allowed.
pub proof fn lemma_canonical_record_closed(
    fields: Seq<(Seq<char>, Item)>,
    allowed: Seq<Seq<char>>,
) -> (entries: Seq<(Item, Item)>)
    requires
        names_distinct(fields),
        values_unique(fields),
        names_among(fields, allowed),
    ensures
        item::canonical_form(item::record(fields)) == Item::Mapping(entries),
        reader::foreign_key(entries, allowed) is None,
        forall|i: int|
            0 <= i < fields.len() ==> reader::find_field(entries, (#[trigger] fields[i]).0)
                == Some(item::canonical_form(fields[i].1)),
        forall|name: Seq<char>|
            not_named(fields, name) ==> #[trigger] reader::find_field(entries, name) is None,
{
    let entries = lemma_canonical_record(fields);
    assert forall|k: int| 0 <= k < entries.len() implies (#[trigger] entries[k]).0 is Text
        && allowed.contains(entries[k].0->Text_0) by {
        let i = choose|i: int|
            0 <= i < fields.len() && #[trigger] fields[i].0 == entries[k].0->Text_0 && entries[k]
                == (Item::Text(fields[i].0), item::canonical_form(fields[i].1));
        assert(allowed.contains(fields[i].0));
    }
    lemma_foreign_key(entries, allowed);
    entries
}

/// A map in canonical order that passes the closed-schema check, and in which the reader finds
/// the canonical form of every field and nothing else, is the canonical form of the record.
pub proof fn lemma_record_rebuilt(
    entries: Seq<(Item, Item)>,
    fields: Seq<(Seq<char>, Item)>,
    allowed: Seq<Seq<char>>,
)
    requires
        order::keys_increasing(item::keyed(entries)),
        reader::foreign_key(entries, allowed) is None,
        names_distinct(fields),
        values_unique(fields),
        names_among(fields, allowed),
        forall|k: int|
            0 <= k < allowed.len() ==> agrees(entries, fields, #[trigger] allowed[k]),
    ensures
        item::canonical_form(item::record(fields)) == Item::Mapping(entries),
{
    let rebuilt = lemma_canonical_record(fields);
    lemma_foreign_key(entries, allowed);
    let a = item::keyed(entries);
    let b = item::keyed(rebuilt);
    assert forall|x: (Seq<u8>, (Item, Item))| #[trigger] a.contains(x) implies #[trigger] b.contains(
        x,
    ) by {
        let p = choose|p: int| 0 <= p < a.len() && a[p] == x;
        let name = entries[p].0->Text_0;
        assert forall|j: int| 0 <= j < p implies (#[trigger] entries[j]).0 != Item::Text(name) by {
            assert(octets::bytes_before(a[j].0, a[p].0));
            octets::lemma_bytes_before_asymmetric(a[j].0, a[p].0);
        }
        lemma_find_at(entries, name, p);
        let k = choose|k: int| 0 <= k < allowed.len() && allowed[k] == name;
        assert(agrees(entries, fields, allowed[k]));
        let i = choose|i: int|
            0 <= i < fields.len() && (#[trigger] fields[i]).0 == name && entries[p].1
                == item::canonical_form(fields[i].1);
        assert(reader::find_field(rebuilt, fields[i].0) == Some(entries[p].1));
        lemma_find_some(rebuilt, name);
        let q = choose|q: int|
            0 <= q < rebuilt.len() && #[trigger] rebuilt[q] == (Item::Text(name), entries[p].1);
        assert(b[q] == x);
    }
    assert forall|x: (Seq<u8>, (Item, Item))| #[trigger] b.contains(x) implies #[trigger] a.contains(
        x,
    ) by {
        let q = choose|q: int| 0 <= q < b.len() && b[q] == x;
        let i = choose|i: int|
            0 <= i < fields.len() && #[trigger] fields[i].0 == rebuilt[q].0->Text_0 && rebuilt[q]
                == (Item::Text(fields[i].0), item::canonical_form(fields[i].1));
        let name = fields[i].0;
        assert(allowed.contains(name));
        let k = choose|k: int| 0 <= k < allowed.len() && allowed[k] == name;
        assert(agrees(entries, fields, allowed[k]));
        assert(reader::find_field(entries, name) is Some);
        let value = reader::find_field(entries, name)->0;
        let m = choose|m: int|
            0 <= m < fields.len() && (#[trigger] fields[m]).0 == name && value
                == item::canonical_form(fields[m].1);
        if m < i {
            assert(fields[m].0 != fields[i].0);
        } else if i < m {
            assert(fields[i].0 != fields[m].0);
        }
        lemma_find_some(entries, name);
        let p = choose|p: int|
            0 <= p < entries.len() && #[trigger] entries[p] == (Item::Text(name), value);
        assert(a[p] == x);
    }
    order::lemma_increasing_unique(a, b);
    assert(item::unkeyed(a) =~= entries);
    assert(item::unkeyed(b) =~= rebuilt);
}

/// What the reader finds in a map whose entries are in order is in order too.
pub proof fn lemma_found_in_order(entries: Seq<(Item, Item)>, name: Seq<char>)
    requires
        item::in_order(Item::Mapping(entries)),
    ensures
        reader::find_field(entries, name) matches Some(value) ==> item::in_order(value)
            && item::canonical_form(value) == value,
{
    lemma_find_some(entries, name);
    if let Some(value) = reader::find_field(entries, name) {
        let i = choose|i: int|
            0 <= i < entries.len() && #[trigger] entries[i] == (Item::Text(name), value);
        assert(item::in_order(entries[i].1));
        roundtrip::lemma_in_order_is_canonical(value);
    }
}

/// Records with the same canonical form have the same names, with the same values up to order.
pub proof fn lemma_records_agree(a: Seq<(Seq<char>, Item)>, b: Seq<(Seq<char>, Item)>)
    requires
        names_distinct(a),
        names_distinct(b),
        values_unique(a),
        values_unique(b),
        item::canonical_form(item::record(a)) == item::canonical_form(item::record(b)),
    ensures
        forall|i: int, j: int|
            0 <= i < a.len() && 0 <= j < b.len() && (#[trigger] a[i]).0 == (#[trigger] b[j]).0
                ==> item::canonical_form(a[i].1) == item::canonical_form(b[j].1),
        forall|name: Seq<char>| #[trigger] not_named(a, name) == not_named(b, name),
{
    let ea = lemma_canonical_record(a);
    let eb = lemma_canonical_record(b);
    assert(ea == eb);
    assert forall|name: Seq<char>| #[trigger] not_named(a, name) == not_named(b, name) by {
        assert(not_named(a, name) == (reader::find_field(ea, name) is None));
        assert(not_named(b, name) == (reader::find_field(eb, name) is None));
    }
}

/// Records whose fields have the same names, with the same values, are the same.
pub proof fn lemma_records_same(a: Seq<(Seq<char>, Item)>, b: Seq<(Seq<char>, Item)>)
    requires
        a.len() == b.len(),
        forall|i: int|
            0 <= i < a.len() ==> (#[trigger] a[i]).0 == b[i].0 && item::same_item(a[i].1, b[i].1),
    ensures
        item::same_item(item::record(a), item::record(b)),
{
    let ea = item::record_entries(a);
    let eb = item::record_entries(b);
    assert forall|i: int| 0 <= i < ea.len() implies item::is_among(#[trigger] ea[i], eb)
        && item::has_among(ea, eb[i]) by {
        assert(a[i].0 == b[i].0 && item::same_item(a[i].1, b[i].1));
        assert(item::same_item(ea[i].0, eb[i].0) && item::same_item(ea[i].1, eb[i].1));
    }
    assert forall|j: int| 0 <= j < eb.len() implies item::has_among(ea, #[trigger] eb[j]) by {
        assert(item::is_among(ea[j], eb));
    }
}

/// Records that are signed under the same tag, with the same bytes, have the same names and values.
pub proof fn lemma_signed_alike(
    tag: Seq<u8>,
    a: Seq<(Seq<char>, Item)>,
    b: Seq<(Seq<char>, Item)>,
)
    requires
        names_distinct(a),
        names_distinct(b),
        values_unique(a),
        values_unique(b),
        item::lengths_fit(item::record(a)),
        item::lengths_fit(item::record(b)),
        tag + item::encoding(item::record(a)) == tag + item::encoding(item::record(b)),
    ensures
        forall|i: int, j: int|
            0 <= i < a.len() && 0 <= j < b.len() && (#[trigger] a[i]).0 == (#[trigger] b[j]).0
                ==> item::canonical_form(a[i].1) == item::canonical_form(b[j].1),
{
    let x = item::encoding(item::record(a));
    let y = item::encoding(item::record(b));
    assert(x =~= (tag + x).skip(tag.len() as int));
    assert(y =~= (tag + y).skip(tag.len() as int));
    lemma_record_unique(a);
    lemma_record_unique(b);
    roundtrip::law_encode_injective(item::record(a), item::record(b));
    lemma_records_agree(a, b);
}

// ---- records up to the order of their entries ----

/// The reader finds the same under `name` in a map as in a record: the same value, or nothing.
pub open spec fn found_same(
    entries: Seq<(Item, Item)>,
    fields: Seq<(Seq<char>, Item)>,
    name: Seq<char>,
) -> bool {
    match (
        reader::find_field(entries, name),
        reader::find_field(item::record_entries(fields), name),
    ) {
        (Some(value), Some(field)) => item::same_item(value, field),
        (None, None) => true,
        _ => false,
    }
}

/// A map passes the closed-schema check, and the reader finds the same in it as in a record.
pub open spec fn stands_for(
    entries: Seq<(Item, Item)>,
    fields: Seq<(Seq<char>, Item)>,
    allowed: Seq<Seq<char>>,
) -> bool {
    &&& reader::foreign_key(entries, allowed) is None
    &&& forall|k: int| 0 <= k < allowed.len() ==> found_same(entries, fields, #[trigger] allowed[k])
}

/// What the reader finds in a record.
pub proof fn lemma_field_values(fields: Seq<(Seq<char>, Item)>)
    requires
        names_distinct(fields),
    ensures
        forall|i: int|
            0 <= i < fields.len() ==> reader::find_field(
                item::record_entries(fields),
                (#[trigger] fields[i]).0,
            ) == Some(fields[i].1),
        forall|name: Seq<char>|
            not_named(fields, name) ==> #[trigger] reader::find_field(
                item::record_entries(fields),
                name,
            ) is None,
{
    let entries = item::record_entries(fields);
    assert forall|i: int| 0 <= i < fields.len() implies reader::find_field(
        entries,
        (#[trigger] fields[i]).0,
    ) == Some(fields[i].1) by {
        assert forall|j: int| 0 <= j < i implies (#[trigger] entries[j]).0 != Item::Text(
            fields[i].0,
        ) by {
            assert(fields[j].0 != fields[i].0);
        }
        lemma_find_at(entries, fields[i].0, i);
    }
    assert forall|name: Seq<char>| not_named(fields, name) implies #[trigger] reader::find_field(
        entries,
        name,
    ) is None by {
        assert forall|j: int| 0 <= j < entries.len() implies (#[trigger] entries[j]).0
            != Item::Text(name) by {
            assert(fields[j].0 != name);
        }
        lemma_find_none(entries, name);
    }
}

/// The reader finds every entry of a map without duplicate keys under its own name.
proof fn lemma_find_each(entries: Seq<(Item, Item)>, at: int, name: Seq<char>)
    requires
        item::keys_unique(Item::Mapping(entries)),
        0 <= at < entries.len(),
        entries[at].0 == Item::Text(name),
    ensures
        reader::find_field(entries, name) == Some(entries[at].1),
{
    let listed = item::keyed(entries);
    assert forall|j: int| 0 <= j < at implies (#[trigger] entries[j]).0 != Item::Text(name) by {
        assert(listed[j].0 != listed[at].0);
    }
    lemma_find_at(entries, name, at);
}

/// A map without duplicate keys stands for a record exactly where it is the same as the record, up
/// to the order of the entries.
pub proof fn lemma_stands_for(
    entries: Seq<(Item, Item)>,
    fields: Seq<(Seq<char>, Item)>,
    allowed: Seq<Seq<char>>,
)
    requires
        item::keys_unique(Item::Mapping(entries)),
        names_distinct(fields),
        names_among(fields, allowed),
    ensures
        stands_for(entries, fields, allowed) <==> item::same_item(
            Item::Mapping(entries),
            item::record(fields),
        ),
{
    if stands_for(entries, fields, allowed) {
        lemma_same_as_record(entries, fields, allowed);
    }
    if item::same_item(Item::Mapping(entries), item::record(fields)) {
        lemma_record_stands(entries, fields, allowed);
    }
}

/// The field that an entry of a map stands for.
proof fn lemma_field_of(
    entries: Seq<(Item, Item)>,
    fields: Seq<(Seq<char>, Item)>,
    allowed: Seq<Seq<char>>,
    i: int,
) -> (j: int)
    requires
        item::keys_unique(Item::Mapping(entries)),
        stands_for(entries, fields, allowed),
        0 <= i < entries.len(),
    ensures
        0 <= j < fields.len(),
        entries[i].0 == Item::Text(fields[j].0),
        item::same_item(entries[i].1, fields[j].1),
{
    let rec = item::record_entries(fields);
    lemma_foreign_key(entries, allowed);
    let name = entries[i].0->Text_0;
    lemma_find_each(entries, i, name);
    let k = choose|k: int| 0 <= k < allowed.len() && allowed[k] == name;
    assert(found_same(entries, fields, allowed[k]));
    lemma_find_some(rec, name);
    let field = reader::find_field(rec, name)->0;
    choose|j: int| 0 <= j < rec.len() && #[trigger] rec[j] == (Item::Text(name), field)
}

/// The entry that stands for a field.
proof fn lemma_entry_of(
    entries: Seq<(Item, Item)>,
    fields: Seq<(Seq<char>, Item)>,
    allowed: Seq<Seq<char>>,
    j: int,
) -> (i: int)
    requires
        names_distinct(fields),
        names_among(fields, allowed),
        stands_for(entries, fields, allowed),
        0 <= j < fields.len(),
    ensures
        0 <= i < entries.len(),
        entries[i].0 == Item::Text(fields[j].0),
        item::same_item(entries[i].1, fields[j].1),
{
    lemma_field_values(fields);
    let name = fields[j].0;
    assert(allowed.contains(fields[j].0));
    let k = choose|k: int| 0 <= k < allowed.len() && allowed[k] == name;
    assert(found_same(entries, fields, allowed[k]));
    lemma_find_some(entries, name);
    let value = reader::find_field(entries, name)->0;
    choose|i: int| 0 <= i < entries.len() && #[trigger] entries[i] == (Item::Text(name), value)
}

/// Lists of the same names, without duplicates, have the same length.
proof fn lemma_same_count(a: Seq<Seq<char>>, b: Seq<Seq<char>>)
    requires
        a.no_duplicates(),
        b.no_duplicates(),
        forall|i: int| 0 <= i < a.len() ==> b.contains(#[trigger] a[i]),
        forall|j: int| 0 <= j < b.len() ==> a.contains(#[trigger] b[j]),
    ensures
        a.len() == b.len(),
{
    assert(a.to_set() =~= b.to_set());
    a.unique_seq_to_set();
    b.unique_seq_to_set();
}

proof fn lemma_same_as_record(
    entries: Seq<(Item, Item)>,
    fields: Seq<(Seq<char>, Item)>,
    allowed: Seq<Seq<char>>,
)
    requires
        item::keys_unique(Item::Mapping(entries)),
        names_distinct(fields),
        names_among(fields, allowed),
        stands_for(entries, fields, allowed),
    ensures
        item::same_item(Item::Mapping(entries), item::record(fields)),
{
    let rec = item::record_entries(fields);
    let listed = item::keyed(entries);
    let own = Seq::new(entries.len(), |i: int| entries[i].0->Text_0);
    let named = Seq::new(fields.len(), |i: int| fields[i].0);
    assert forall|i: int| 0 <= i < own.len() implies named.contains(#[trigger] own[i]) by {
        let j = lemma_field_of(entries, fields, allowed, i);
        assert(named[j] == own[i]);
    }
    assert forall|j: int| 0 <= j < named.len() implies own.contains(#[trigger] named[j]) by {
        let i = lemma_entry_of(entries, fields, allowed, j);
        assert(own[i] == named[j]);
    }
    assert forall|i: int, j: int| 0 <= i < own.len() && 0 <= j < own.len() && i != j implies own[i]
        != own[j] by {
        let p = lemma_field_of(entries, fields, allowed, i);
        let q = lemma_field_of(entries, fields, allowed, j);
        if i < j {
            assert(listed[i].0 != listed[j].0);
        } else {
            assert(listed[j].0 != listed[i].0);
        }
    }
    lemma_same_count(own, named);
    assert forall|i: int| 0 <= i < entries.len() implies item::is_among(
        #[trigger] entries[i],
        rec,
    ) by {
        let j = lemma_field_of(entries, fields, allowed, i);
        assert(item::same_item(entries[i].0, rec[j].0) && item::same_item(entries[i].1, rec[j].1));
    }
    assert forall|j: int| 0 <= j < rec.len() implies item::has_among(entries, #[trigger] rec[j]) by {
        let i = lemma_entry_of(entries, fields, allowed, j);
        assert(item::same_item(entries[i].0, rec[j].0) && item::same_item(entries[i].1, rec[j].1));
    }
}

proof fn lemma_record_stands(
    entries: Seq<(Item, Item)>,
    fields: Seq<(Seq<char>, Item)>,
    allowed: Seq<Seq<char>>,
)
    requires
        item::keys_unique(Item::Mapping(entries)),
        names_distinct(fields),
        names_among(fields, allowed),
        item::same_item(Item::Mapping(entries), item::record(fields)),
    ensures
        stands_for(entries, fields, allowed),
{
    let rec = item::record_entries(fields);
    lemma_field_values(fields);
    assert forall|i: int| 0 <= i < entries.len() implies (#[trigger] entries[i]).0 is Text
        && allowed.contains(entries[i].0->Text_0) && !not_named(fields, entries[i].0->Text_0) by {
        assert(item::is_among(entries[i], rec));
        let j = choose|j: int|
            #![trigger rec[j]]
            0 <= j < rec.len() && item::same_item(entries[i].0, rec[j].0) && item::same_item(
                entries[i].1,
                rec[j].1,
            );
        assert(rec[j].0 == Item::Text(fields[j].0));
        assert(allowed.contains(fields[j].0));
    }
    lemma_foreign_key(entries, allowed);
    assert forall|k: int| 0 <= k < allowed.len() implies found_same(
        entries,
        fields,
        #[trigger] allowed[k],
    ) by {
        let name = allowed[k];
        if not_named(fields, name) {
            lemma_find_some(entries, name);
            if let Some(value) = reader::find_field(entries, name) {
                let i = choose|i: int|
                    0 <= i < entries.len() && #[trigger] entries[i] == (Item::Text(name), value);
                assert(!not_named(fields, entries[i].0->Text_0));
            }
        } else {
            let j = choose|j: int| 0 <= j < fields.len() && (#[trigger] fields[j]).0 == name;
            assert(item::has_among(entries, rec[j]));
            let i = choose|i: int|
                #![trigger entries[i]]
                0 <= i < entries.len() && item::same_item(entries[i].0, rec[j].0)
                    && item::same_item(entries[i].1, rec[j].1);
            assert(entries[i].0 is Text);
            lemma_find_each(entries, i, name);
        }
    }
}

// ---- what stands under a name ----

/// The item is a map of `count` entries.
pub open spec fn is_map_of(v: Item, count: nat) -> bool {
    v matches Item::Mapping(m) && m.len() == count
}

/// The item is a map that has `value` under the text key `name`, up to the order of the entries of
/// maps in the value.
pub open spec fn holds(v: Item, name: Seq<char>, value: Item) -> bool {
    v matches Item::Mapping(m) && exists|i: int|
        0 <= i < m.len() && (#[trigger] m[i]).0 == Item::Text(name) && item::same_item(
            m[i].1,
            value,
        )
}

/// Every item is the same as itself.
pub proof fn lemma_same_as_itself(x: Item)
    ensures
        item::same_item(x, x),
    decreases x,
{
    match x {
        Item::Array(items) => {
            assert forall|i: int| 0 <= i < items.len() implies item::same_item(
                #[trigger] items[i],
                items[i],
            ) by {
                assert(decreases_to!(items => items[i]));
                lemma_same_as_itself(items[i]);
            }
        },
        Item::Mapping(entries) => {
            assert forall|i: int| 0 <= i < entries.len() implies item::is_among(
                #[trigger] entries[i],
                entries,
            ) && item::has_among(entries, entries[i]) by {
                assert(decreases_to!(entries => entries[i]));
                lemma_same_as_itself(entries[i].0);
                lemma_same_as_itself(entries[i].1);
            }
        },
        _ => {},
    }
}

/// What the reader found stands under the name.
pub proof fn lemma_found_holds(entries: Seq<(Item, Item)>, name: Seq<char>)
    ensures
        reader::find_field(entries, name) matches Some(value) ==> holds(
            Item::Mapping(entries),
            name,
            value,
        ),
{
    lemma_find_some(entries, name);
    if let Some(value) = reader::find_field(entries, name) {
        lemma_same_as_itself(value);
        let i = choose|i: int|
            0 <= i < entries.len() && #[trigger] entries[i] == (Item::Text(name), value);
        assert(entries[i].0 == Item::Text(name) && item::same_item(entries[i].1, value));
    }
}

/// An item is the same as a record exactly where it is a map of as many entries and every field
/// stands in it under its name.
pub proof fn lemma_holds_all(v: Item, fields: Seq<(Seq<char>, Item)>)
    requires
        item::keys_unique(v),
        names_distinct(fields),
    ensures
        item::same_item(v, item::record(fields)) <==> is_map_of(v, fields.len()) && forall|i: int|
            0 <= i < fields.len() ==> holds(v, (#[trigger] fields[i]).0, fields[i].1),
{
    let rec = item::record_entries(fields);
    if item::same_item(v, item::record(fields)) {
        let entries = v->Mapping_0;
        assert forall|j: int| 0 <= j < fields.len() implies holds(
            v,
            (#[trigger] fields[j]).0,
            fields[j].1,
        ) by {
            assert(item::has_among(entries, rec[j]));
            let i = choose|i: int|
                #![trigger entries[i]]
                0 <= i < entries.len() && item::same_item(entries[i].0, rec[j].0)
                    && item::same_item(entries[i].1, rec[j].1);
            assert(entries[i].0 == Item::Text(fields[j].0));
        }
    }
    if is_map_of(v, fields.len()) && forall|i: int|
        0 <= i < fields.len() ==> holds(v, (#[trigger] fields[i]).0, fields[i].1) {
        lemma_all_held(v->Mapping_0, fields);
    }
}

proof fn lemma_all_held(entries: Seq<(Item, Item)>, fields: Seq<(Seq<char>, Item)>)
    requires
        item::keys_unique(Item::Mapping(entries)),
        names_distinct(fields),
        entries.len() == fields.len(),
        forall|i: int|
            0 <= i < fields.len() ==> holds(
                Item::Mapping(entries),
                (#[trigger] fields[i]).0,
                fields[i].1,
            ),
    ensures
        item::same_item(Item::Mapping(entries), item::record(fields)),
{
    let rec = item::record_entries(fields);
    let listed = item::keyed(entries);
    let own = Seq::new(entries.len(), |i: int| entries[i].0);
    let named = Seq::new(fields.len(), |i: int| Item::Text(fields[i].0));
    assert forall|j: int| 0 <= j < rec.len() implies item::has_among(entries, #[trigger] rec[j])
        && own.contains(named[j]) by {
        assert(holds(Item::Mapping(entries), fields[j].0, fields[j].1));
        let i = choose|i: int|
            0 <= i < entries.len() && (#[trigger] entries[i]).0 == Item::Text(fields[j].0)
                && item::same_item(entries[i].1, fields[j].1);
        assert(own[i] == named[j]);
        assert(item::same_item(entries[i].0, rec[j].0) && item::same_item(entries[i].1, rec[j].1));
    }
    assert forall|i: int, j: int| 0 <= i < own.len() && 0 <= j < own.len() && i != j implies own[i]
        != own[j] by {
        if i < j {
            assert(listed[i].0 != listed[j].0);
        } else {
            assert(listed[j].0 != listed[i].0);
        }
    }
    assert forall|i: int, j: int| 0 <= i < named.len() && 0 <= j < named.len() && i
        != j implies named[i] != named[j] by {
        if i < j {
            assert(fields[i].0 != fields[j].0);
        } else {
            assert(fields[j].0 != fields[i].0);
        }
    }
    own.unique_seq_to_set();
    named.unique_seq_to_set();
    assert(named.to_set().subset_of(own.to_set())) by {
        assert forall|k: Item| named.to_set().contains(k) implies own.to_set().contains(k) by {
            let j = choose|j: int| 0 <= j < named.len() && named[j] == k;
            assert(item::has_among(entries, rec[j]) && own.contains(named[j]));
        }
    }
    vstd::set_lib::lemma_subset_equality(named.to_set(), own.to_set());
    assert forall|i: int| 0 <= i < entries.len() implies item::is_among(
        #[trigger] entries[i],
        rec,
    ) by {
        assert(own.to_set().contains(own[i]));
        assert(named.to_set().contains(own[i]));
        let j = choose|j: int| 0 <= j < named.len() && named[j] == own[i];
        assert(holds(Item::Mapping(entries), fields[j].0, fields[j].1));
        let k = choose|k: int|
            0 <= k < entries.len() && (#[trigger] entries[k]).0 == Item::Text(fields[j].0)
                && item::same_item(entries[k].1, fields[j].1);
        assert(own[k] == own[i]);
        assert(item::same_item(entries[i].0, rec[j].0) && item::same_item(entries[i].1, rec[j].1));
    }
}

/// An array of byte strings.
pub open spec fn bytes_list(list: Seq<Seq<u8>>) -> Item {
    Item::Array(Seq::new(list.len(), |i: int| Item::Bytes(list[i])))
}

/// An array of byte strings is well formed, and is its own canonical form.
pub proof fn lemma_bytes_list(list: Seq<Seq<u8>>)
    ensures
        item::in_order(bytes_list(list)),
        item::canonical_form(bytes_list(list)) == bytes_list(list),
        item::keys_unique(bytes_list(list)),
        forall|levels: int| levels > 0 ==> #[trigger] item::nests_within(bytes_list(list), levels),
{
    let items = bytes_list(list)->Array_0;
    assert forall|i: int| 0 <= i < items.len() implies item::in_order(#[trigger] items[i]) by {}
    roundtrip::lemma_in_order_is_canonical(bytes_list(list));
    assert forall|levels: int| levels > 0 implies #[trigger] item::nests_within(
        bytes_list(list),
        levels,
    ) by {
        assert forall|i: int| 0 <= i < items.len() implies item::nests_within(
            #[trigger] items[i],
            levels - 1,
        ) by {}
    }
}

/// An array of texts.
pub open spec fn text_list(list: Seq<Seq<char>>) -> Item {
    Item::Array(Seq::new(list.len(), |i: int| Item::Text(list[i])))
}

/// An array of texts is well formed, and is its own canonical form.
pub proof fn lemma_text_list(list: Seq<Seq<char>>)
    ensures
        item::in_order(text_list(list)),
        item::canonical_form(text_list(list)) == text_list(list),
        item::keys_unique(text_list(list)),
        forall|levels: int| levels > 0 ==> #[trigger] item::nests_within(text_list(list), levels),
{
    let items = text_list(list)->Array_0;
    assert forall|i: int| 0 <= i < items.len() implies item::in_order(#[trigger] items[i]) by {}
    roundtrip::lemma_in_order_is_canonical(text_list(list));
    assert forall|levels: int| levels > 0 implies #[trigger] item::nests_within(
        text_list(list),
        levels,
    ) by {
        assert forall|i: int| 0 <= i < items.len() implies item::nests_within(
            #[trigger] items[i],
            levels - 1,
        ) by {}
    }
}

/// An array is the array of some texts exactly where it holds these texts.
pub proof fn lemma_text_values(items: Seq<Item>, list: Seq<Seq<char>>)
    ensures
        item::same_item(Item::Array(items), text_list(list)) <==> (forall|i: int|
            0 <= i < items.len() ==> (#[trigger] items[i]) is Text) && Seq::new(
            items.len(),
            |i: int| items[i]->Text_0,
        ) == list,
{
    let written = text_list(list)->Array_0;
    let found = Seq::new(items.len(), |i: int| items[i]->Text_0);
    if item::same_item(Item::Array(items), text_list(list)) {
        assert forall|i: int| 0 <= i < items.len() implies (#[trigger] items[i]) is Text
            && items[i]->Text_0 == list[i] by {
            assert(item::same_item(items[i], written[i]));
        }
        assert(found =~= list);
    }
    if (forall|i: int| 0 <= i < items.len() ==> (#[trigger] items[i]) is Text) && found == list {
        assert forall|i: int| 0 <= i < items.len() implies item::same_item(
            #[trigger] items[i],
            written[i],
        ) by {
            assert(found[i] == list[i]);
        }
    }
}

/// An array is the array of some byte strings exactly where it holds these byte strings.
pub proof fn lemma_bytes_values(items: Seq<Item>, list: Seq<Seq<u8>>)
    ensures
        item::same_item(Item::Array(items), bytes_list(list)) <==> (forall|i: int|
            0 <= i < items.len() ==> (#[trigger] items[i]) is Bytes) && Seq::new(
            items.len(),
            |i: int| items[i]->Bytes_0,
        ) == list,
{
    let written = bytes_list(list)->Array_0;
    let found = Seq::new(items.len(), |i: int| items[i]->Bytes_0);
    if item::same_item(Item::Array(items), bytes_list(list)) {
        assert forall|i: int| 0 <= i < items.len() implies (#[trigger] items[i]) is Bytes
            && items[i]->Bytes_0 == list[i] by {
            assert(item::same_item(items[i], written[i]));
        }
        assert(found =~= list);
    }
    if (forall|i: int| 0 <= i < items.len() ==> (#[trigger] items[i]) is Bytes) && found == list {
        assert forall|i: int| 0 <= i < items.len() implies item::same_item(
            #[trigger] items[i],
            written[i],
        ) by {
            assert(found[i] == list[i]);
        }
    }
}

} // verus!
