//! One entry of a directory listing.
use crate::proto::canonical;
use crate::proto::canonical::CborValue;
use crate::proto::item;
use crate::proto::item::Item;
use crate::proto::reader;
use crate::proto::reader::{Fault, MapReader, ProtoError};
use crate::proto::record;
use crate::proto::vfs_rpc::perms;
use crate::proto::vfs_rpc::perms::{perms_from_reader, VfsPerms, MAX_VALID};
use vstd::prelude::*;

verus! {

/// What a directory entry is.
#[derive(Debug, Clone, Copy, PartialEq, Eq, Structural)]
pub enum EntryKind {
    File,
    Dir,
}

impl EntryKind {
    /// The number that stands for the kind on the wire.
    pub open spec fn code(self) -> u64 {
        match self {
            EntryKind::File => 0,
            EntryKind::Dir => 1,
        }
    }

    /// The kind that a number stands for.
    pub open spec fn of_code(v: u64) -> Result<EntryKind, Fault> {
        if v == 0 {
            Ok(EntryKind::File)
        } else if v == 1 {
            Ok(EntryKind::Dir)
        } else {
            Err(Fault::InvalidEnumValue("kind"@, v))
        }
    }

    pub fn to_cbor(self) -> (value: CborValue)
        ensures
            value@ == Item::Uint(self.code()),
    {
        match self {
            EntryKind::File => CborValue::uint(0),
            EntryKind::Dir => CborValue::uint(1),
        }
    }

    pub fn from_u64(v: u64) -> (r: Result<Self, ProtoError>)
        ensures
            reader::outcome(r) == EntryKind::of_code(v),
    {
        match v {
            0 => Ok(EntryKind::File),
            1 => Ok(EntryKind::Dir),
            other => Err(ProtoError::InvalidEnumValue("kind", other)),
        }
    }
}

/// The kind in the `kind` field.
pub open spec fn kind_field(m: Seq<(Item, Item)>) -> Result<EntryKind, Fault> {
    match reader::uint_field(m, "kind"@) {
        Err(f) => Err(f),
        Ok(n) => EntryKind::of_code(n),
    }
}

/// `{name, kind, size, mtime, perms_here}`.
#[derive(Debug, Clone, PartialEq, Eq)]
pub struct DirEntry {
    pub name: String,
    pub kind: EntryKind,
    pub size: u64,
    pub mtime: u64,
    pub perms_here: VfsPerms,
}

/// The field names of a directory entry.
pub const DIR_ENTRY_FIELDS: [&'static str; 5] = ["name", "kind", "size", "mtime", "perms_here"];

/// The contents of a directory entry.
pub struct DirEntryModel {
    pub name: Seq<char>,
    pub kind: EntryKind,
    pub size: u64,
    pub mtime: u64,
    pub perms_here: u8,
}

impl View for DirEntry {
    type V = DirEntryModel;

    open spec fn view(&self) -> DirEntryModel {
        DirEntryModel {
            name: self.name@,
            kind: self.kind,
            size: self.size,
            mtime: self.mtime,
            perms_here: self.perms_here@,
        }
    }
}

impl DirEntryModel {
    /// The permission bits stand for permissions.
    pub open spec fn valid(self) -> bool {
        self.perms_here <= MAX_VALID
    }

    /// All fields.
    pub open spec fn fields(self) -> Seq<(Seq<char>, Item)> {
        seq![
            ("name"@, Item::Text(self.name)),
            ("kind"@, Item::Uint(self.kind.code())),
            ("size"@, Item::Uint(self.size)),
            ("mtime"@, Item::Uint(self.mtime)),
            ("perms_here"@, Item::Uint(self.perms_here as u64)),
        ]
    }

    /// The entry that an item stands for.
    pub open spec fn read(item: Item) -> Result<DirEntryModel, Fault> {
        match reader::closed_map(item, reader::names(DIR_ENTRY_FIELDS@)) {
            Err(f) => Err(f),
            Ok(m) => {
                let name = reader::text_field(m, "name"@);
                let kind = kind_field(m);
                let size = reader::uint_field(m, "size"@);
                let mtime = reader::uint_field(m, "mtime"@);
                let perms_here = perms::perms_field(m, "perms_here"@);
                let found = reader::fault(name);
                let found = reader::first(found, reader::fault(kind));
                let found = reader::first(found, reader::fault(size));
                let found = reader::first(found, reader::fault(mtime));
                let found = reader::first(found, reader::fault(perms_here));
                reader::unless(
                    found,
                    DirEntryModel {
                        name: name->Ok_0,
                        kind: kind->Ok_0,
                        size: size->Ok_0,
                        mtime: mtime->Ok_0,
                        perms_here: perms_here->Ok_0,
                    },
                )
            },
        }
    }
}

impl DirEntry {
    pub fn to_cbor(&self) -> (value: CborValue)
        ensures
            value@ == item::record(self@.fields()),
            self@.valid(),
    {
        let entries: Vec<(&'static str, CborValue)> = vec![
            ("name", CborValue::text(self.name.as_str())),
            ("kind", self.kind.to_cbor()),
            ("size", CborValue::uint(self.size)),
            ("mtime", CborValue::uint(self.mtime)),
            ("perms_here", CborValue::uint(self.perms_here.bits() as u64)),
        ];
        assert(canonical::fields_of(entries@) =~= self@.fields());
        CborValue::map(entries)
    }

    pub fn from_cbor(v: &CborValue) -> (r: Result<Self, ProtoError>)
        ensures
            reader::seen(r) == DirEntryModel::read(v@),
    {
        let m = MapReader::new(v)?;
        m.deny_unknown_fields(DIR_ENTRY_FIELDS.as_slice())?;
        Ok(
            DirEntry {
                name: m.text("name")?,
                kind: EntryKind::from_u64(m.u64("kind")?)?,
                size: m.u64("size")?,
                mtime: m.u64("mtime")?,
                perms_here: perms_from_reader(&m, "perms_here")?,
            },
        )
    }
}

proof fn lemma_fields(m: DirEntryModel)
    ensures
        record::names_distinct(m.fields()),
        record::values_unique(m.fields()),
        record::values_nest(m.fields(), 0),
        record::names_among(m.fields(), reader::names(DIR_ENTRY_FIELDS@)),
{
    reveal_strlit("name");
    reveal_strlit("kind");
    reveal_strlit("size");
    reveal_strlit("mtime");
    reveal_strlit("perms_here");
    assert("name"@.len() == 4);
    assert("kind"@.len() == 4);
    assert("size"@.len() == 4);
    assert("mtime"@.len() == 5);
    assert("perms_here"@.len() == 10);
    assert("name"@[0] != "kind"@[0]);
    assert("name"@[0] != "size"@[0]);
    assert("kind"@[0] != "size"@[0]);
    let listed = reader::names(DIR_ENTRY_FIELDS@);
    let fields = m.fields();
    assert forall|i: int| 0 <= i < fields.len() implies listed.contains((#[trigger] fields[i]).0) by {
        assert(fields[i].0 == listed[i]);
    }
}

/// The record of a directory entry is well formed and holds no nested map.
pub proof fn lemma_record_of(m: DirEntryModel)
    ensures
        item::keys_unique(item::record(m.fields())),
        item::nests_within(item::record(m.fields()), 1),
{
    lemma_fields(m);
    record::lemma_record_unique(m.fields());
    record::lemma_record_nests(m.fields(), 1);
}

/// An item without duplicate keys is read as a directory entry exactly where it is the record of the
/// entry, up to the order of its entries, and the permission bits stand for permissions.
pub proof fn law_dir_entry_values(v: Item, m: DirEntryModel)
    requires
        item::keys_unique(v),
    ensures
        DirEntryModel::read(v) == Ok::<DirEntryModel, Fault>(m) <==> m.valid() && item::same_item(
            v,
            item::record(m.fields()),
        ),
{
    if let Item::Mapping(entries) = v {
        let fields = m.fields();
        let listed = reader::names(DIR_ENTRY_FIELDS@);
        lemma_fields(m);
        record::lemma_field_values(fields);
        assert(listed[0] == "name"@);
        assert(listed[1] == "kind"@);
        assert(listed[2] == "size"@);
        assert(listed[3] == "mtime"@);
        assert(listed[4] == "perms_here"@);
        assert(fields[0].0 == "name"@);
        assert(fields[1].0 == "kind"@);
        assert(fields[2].0 == "size"@);
        assert(fields[3].0 == "mtime"@);
        assert(fields[4].0 == "perms_here"@);
        assert(DirEntryModel::read(v) == Ok::<DirEntryModel, Fault>(m) <==> m.valid()
            && record::stands_for(entries, fields, listed));
        record::lemma_stands_for(entries, fields, listed);
    }
}

// ---- lists of entries ----

/// The contents of each entry of a list.
pub open spec fn models(list: Seq<DirEntry>) -> Seq<DirEntryModel> {
    Seq::new(list.len(), |i: int| list[i]@)
}

/// Every entry of a list is valid.
pub open spec fn all_valid(list: Seq<DirEntryModel>) -> bool {
    forall|i: int| 0 <= i < list.len() ==> (#[trigger] list[i]).valid()
}

/// The array that a list of entries is encoded as.
pub open spec fn list_item(list: Seq<DirEntryModel>) -> Item {
    Item::Array(Seq::new(list.len(), |i: int| item::record(list[i].fields())))
}

/// The entries that an array stands for, or what is wrong with the first that stands for none.
pub open spec fn read_list(items: Seq<Item>) -> Result<Seq<DirEntryModel>, Fault>
    decreases items.len(),
{
    if items.len() == 0 {
        Ok(Seq::empty())
    } else {
        match read_list(items.drop_last()) {
            Err(f) => Err(f),
            Ok(list) => match DirEntryModel::read(items.last()) {
                Err(f) => Err(f),
                Ok(entry) => Ok(list.push(entry)),
            },
        }
    }
}

/// A fault in the first items of an array is the fault of the array.
proof fn lemma_first_fault(items: Seq<Item>, n: int)
    requires
        0 <= n <= items.len(),
        read_list(items.take(n)) is Err,
    ensures
        read_list(items) == read_list(items.take(n)),
    decreases items.len() - n,
{
    if n < items.len() {
        let more = items.take(n + 1);
        assert(more.drop_last() =~= items.take(n));
        lemma_first_fault(items, n + 1);
    } else {
        assert(items.take(n) =~= items);
    }
}

/// The array of the entries of a list.
pub fn entries_to_cbor(list: &Vec<DirEntry>) -> (value: CborValue)
    ensures
        value@ == list_item(models(list@)),
        all_valid(models(list@)),
{
    let mut values: Vec<CborValue> = Vec::new();
    let total: usize = list.len();
    let mut i: usize = 0;
    while i < total
        invariant
            i <= total == list@.len(),
            values@.len() == i,
            forall|j: int|
                0 <= j < i ==> (#[trigger] values@[j])@ == item::record(list@[j]@.fields())
                    && list@[j]@.valid(),
        decreases total - i,
    {
        values.push(list[i].to_cbor());
        i += 1;
    }
    proof {
        assert forall|j: int| 0 <= j < models(list@).len() implies (#[trigger] models(
            list@,
        )[j]).valid() by {
            assert(values@[j]@ == item::record(list@[j]@.fields()));
        }
        assert(Item::Array(canonical::items_of(values@)) == list_item(models(list@))) by {
            assert(canonical::items_of(values@) =~= Seq::new(
                models(list@).len(),
                |j: int| item::record(models(list@)[j].fields()),
            ));
        }
    }
    CborValue::array(values)
}

/// Reads a list of entries.
pub fn entries_from_cbor(values: &[CborValue]) -> (r: Result<Vec<DirEntry>, ProtoError>)
    ensures
        match r {
            Ok(list) => read_list(canonical::items_of(values@)) == Ok::<Seq<DirEntryModel>, Fault>(
                models(list@),
            ),
            Err(e) => read_list(canonical::items_of(values@)) == Err::<Seq<DirEntryModel>, Fault>(
                e@,
            ),
        },
{
    let ghost items = canonical::items_of(values@);
    let mut list: Vec<DirEntry> = Vec::new();
    let total: usize = values.len();
    let mut i: usize = 0;
    assert(models(list@) =~= Seq::empty());
    while i < total
        invariant
            i <= total == values@.len(),
            items == canonical::items_of(values@),
            read_list(items.take(i as int)) == Ok::<Seq<DirEntryModel>, Fault>(models(list@)),
        decreases total - i,
    {
        let ghost more = items.take(i + 1);
        assert(more.drop_last() =~= items.take(i as int));
        assert(more.last() == values@[i as int]@);
        match DirEntry::from_cbor(&values[i]) {
            Ok(entry) => {
                let ghost before = models(list@);
                list.push(entry);
                assert(models(list@) =~= before.push(entry@));
            },
            Err(e) => {
                proof {
                    lemma_first_fault(items, i + 1);
                }
                return Err(e);
            },
        }
        i += 1;
    }
    assert(items.take(total as int) =~= items);
    Ok(list)
}

/// The array of a list of entries is well formed and nests two levels deep.
pub proof fn lemma_list_item(list: Seq<DirEntryModel>)
    ensures
        item::keys_unique(list_item(list)),
        item::nests_within(list_item(list), 2),
{
    let items = list_item(list)->Array_0;
    assert forall|i: int| 0 <= i < items.len() implies item::keys_unique(#[trigger] items[i])
        && item::nests_within(items[i], 1) by {
        lemma_record_of(list[i]);
    }
}

/// An array without duplicate keys is read as a list of entries exactly where it is the array of the
/// list, up to the order of the entries of its maps.
pub proof fn lemma_list_values(items: Seq<Item>, list: Seq<DirEntryModel>)
    requires
        item::keys_unique(Item::Array(items)),
    ensures
        read_list(items) == Ok::<Seq<DirEntryModel>, Fault>(list) <==> all_valid(list)
            && item::same_item(Item::Array(items), list_item(list)),
{
    let written = list_item(list)->Array_0;
    if read_list(items) == Ok::<Seq<DirEntryModel>, Fault>(list) {
        lemma_read_each(items);
        assert forall|i: int| 0 <= i < items.len() implies item::same_item(
            #[trigger] items[i],
            written[i],
        ) && list[i].valid() by {
            law_dir_entry_values(items[i], list[i]);
        }
        assert forall|i: int| 0 <= i < list.len() implies (#[trigger] list[i]).valid() by {
            assert(item::same_item(items[i], written[i]));
        }
    }
    if all_valid(list) && item::same_item(Item::Array(items), list_item(list)) {
        assert forall|i: int| 0 <= i < items.len() implies DirEntryModel::read(#[trigger] items[i])
            == Ok::<DirEntryModel, Fault>(list[i]) by {
            assert(item::same_item(items[i], written[i]));
            assert(list[i].valid());
            law_dir_entry_values(items[i], list[i]);
        }
        lemma_each_read(items, list);
    }
}

/// An array whose items are read as the entries of a list is read as the list.
proof fn lemma_each_read(items: Seq<Item>, list: Seq<DirEntryModel>)
    requires
        items.len() == list.len(),
        forall|i: int|
            0 <= i < items.len() ==> DirEntryModel::read(#[trigger] items[i]) == Ok::<
                DirEntryModel,
                Fault,
            >(list[i]),
    ensures
        read_list(items) == Ok::<Seq<DirEntryModel>, Fault>(list),
    decreases items.len(),
{
    if items.len() > 0 {
        assert forall|i: int| 0 <= i < items.drop_last().len() implies DirEntryModel::read(
            #[trigger] items.drop_last()[i],
        ) == Ok::<DirEntryModel, Fault>(list.drop_last()[i]) by {
            assert(items.drop_last()[i] == items[i]);
        }
        lemma_each_read(items.drop_last(), list.drop_last());
        assert(DirEntryModel::read(items[items.len() - 1]) == Ok::<DirEntryModel, Fault>(
            list.last(),
        ));
        assert(list.drop_last().push(list.last()) =~= list);
    } else {
        assert(list =~= Seq::empty());
    }
}

proof fn lemma_read_each(items: Seq<Item>)
    ensures
        read_list(items) matches Ok(list) ==> list.len() == items.len() && forall|i: int|
            0 <= i < items.len() ==> DirEntryModel::read(#[trigger] items[i]) == Ok::<
                DirEntryModel,
                Fault,
            >(list[i]),
    decreases items.len(),
{
    if items.len() > 0 {
        lemma_read_each(items.drop_last());
        if let Ok(list) = read_list(items) {
            let front = read_list(items.drop_last())->Ok_0;
            assert forall|i: int| 0 <= i < items.len() implies DirEntryModel::read(
                #[trigger] items[i],
            ) == Ok::<DirEntryModel, Fault>(list[i]) by {
                if i < items.len() - 1 {
                    assert(items.drop_last()[i] == items[i]);
                }
            }
        }
    }
}

// ---- the names and numbers on the wire ----

/// What stands on the wire: an item without duplicate keys is read as a directory entry exactly
/// where it is a map with these names and nothing else, under each what the entry holds there, with
/// no bit set that stands for no permission.
pub proof fn law_dir_entry_wire(v: Item, e: DirEntry)
    requires
        item::keys_unique(v),
    ensures
        DirEntryModel::read(v) == Ok::<DirEntryModel, Fault>(e@) <==> {
            &&& record::is_map_of(v, 5)
            &&& record::holds(v, "name"@, Item::Text(e.name@))
            &&& record::holds(v, "kind"@, Item::Uint(if e.kind is Dir { 1 } else { 0 }))
            &&& record::holds(v, "size"@, Item::Uint(e.size))
            &&& record::holds(v, "mtime"@, Item::Uint(e.mtime))
            &&& record::holds(v, "perms_here"@, Item::Uint(e.perms_here@ as u64))
            &&& e.perms_here@ <= 15
        },
{
    let fields = e@.fields();
    law_dir_entry_values(v, e@);
    lemma_fields(e@);
    record::lemma_holds_all(v, fields);
    assert(fields[0] == ("name"@, Item::Text(e.name@)));
    assert(fields[1] == ("kind"@, Item::Uint(if e.kind is Dir { 1 } else { 0 })));
    assert(fields[2] == ("size"@, Item::Uint(e.size)));
    assert(fields[3] == ("mtime"@, Item::Uint(e.mtime)));
    assert(fields[4] == ("perms_here"@, Item::Uint(e.perms_here@ as u64)));
}

/// The numbers of the kinds, and that there are no others.
pub proof fn law_kind_numbers(v: u64)
    ensures
        EntryKind::File.code() == 0,
        EntryKind::of_code(0) == Ok::<EntryKind, Fault>(EntryKind::File),
        EntryKind::Dir.code() == 1,
        EntryKind::of_code(1) == Ok::<EntryKind, Fault>(EntryKind::Dir),
        v >= 2 ==> EntryKind::of_code(v) == Err::<EntryKind, Fault>(
            Fault::InvalidEnumValue("kind"@, v),
        ),
{
}

/// The fields are looked at in this order, once no foreign name is there, and the first that is
/// missing or wrong is the one that is named.
pub proof fn law_dir_entry_first_fault(entries: Seq<(Item, Item)>)
    ensures
        ({
            let r = DirEntryModel::read(Item::Mapping(entries));
            if let Some(g) = reader::foreign_key(entries, reader::names(DIR_ENTRY_FIELDS@)) {
                r matches Err(f) && f == g
            } else {
                if reader::text_field(entries, "name"@) is Err {
                    r matches Err(f) && f == reader::text_field(entries, "name"@)->Err_0
                } else if kind_field(entries) is Err {
                    r matches Err(f) && f == kind_field(entries)->Err_0
                } else if reader::uint_field(entries, "size"@) is Err {
                    r matches Err(f) && f == reader::uint_field(entries, "size"@)->Err_0
                } else if reader::uint_field(entries, "mtime"@) is Err {
                    r matches Err(f) && f == reader::uint_field(entries, "mtime"@)->Err_0
                } else if perms::perms_field(entries, "perms_here"@) is Err {
                    r matches Err(f) && f == perms::perms_field(entries, "perms_here"@)->Err_0
                } else {
                    r is Ok
                }
            }
        }),
{
}

} // verus!
