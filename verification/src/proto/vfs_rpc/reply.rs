//! VFS RPC replies.
use crate::proto::canonical;
use crate::proto::canonical::{canonical_decode, canonical_encode, CborValue, MAX_NESTING_DEPTH};
use crate::proto::item;
use crate::proto::item::Item;
use crate::proto::reader;
use crate::proto::reader::{Fault, MapReader, ProtoError};
use crate::proto::record;
use crate::proto::roundtrip;
use crate::proto::vfs_rpc::dir_entry;
use crate::proto::vfs_rpc::dir_entry::{
    entries_from_cbor, entries_to_cbor, DirEntry, DirEntryModel, EntryKind,
};
use crate::proto::vfs_rpc::perms;
use crate::proto::vfs_rpc::perms::{perms_from_reader, VfsPerms, MAX_VALID};
use vstd::prelude::*;

verus! {

/// Why an operation was refused.
#[derive(Debug, Clone, Copy, PartialEq, Eq, Structural)]
pub enum VfsErrorCode {
    /// The path does not exist, or the caller may not see it: both look the same.
    NotFound,
    /// A quota was exceeded.
    QuotaExceeded,
    /// The caller's grants changed during the operation.
    GrantsChanged,
    /// The upload session expired or is not known.
    ResumeExpired,
    /// The uploaded file was rejected.
    UploadRejected,
    /// The host is out of space.
    StorageFull,
    /// A rate limit was hit.
    Throttled,
    /// The request's version is below the server's minimum.
    UnsupportedVersion,
    /// The name is taken and the caller may not overwrite it.
    AlreadyExists,
    /// The file is not what it was when the operation was planned.
    FileChanged,
}

impl VfsErrorCode {
    /// The number that stands for the code on the wire.
    pub open spec fn code(self) -> u64 {
        match self {
            VfsErrorCode::NotFound => 0,
            VfsErrorCode::QuotaExceeded => 1,
            VfsErrorCode::GrantsChanged => 2,
            VfsErrorCode::ResumeExpired => 3,
            VfsErrorCode::UploadRejected => 4,
            VfsErrorCode::StorageFull => 5,
            VfsErrorCode::Throttled => 6,
            VfsErrorCode::UnsupportedVersion => 7,
            VfsErrorCode::AlreadyExists => 8,
            VfsErrorCode::FileChanged => 9,
        }
    }

    /// The code that a number stands for.
    pub open spec fn of_code(v: u64) -> Result<VfsErrorCode, Fault> {
        match v {
            0 => Ok(VfsErrorCode::NotFound),
            1 => Ok(VfsErrorCode::QuotaExceeded),
            2 => Ok(VfsErrorCode::GrantsChanged),
            3 => Ok(VfsErrorCode::ResumeExpired),
            4 => Ok(VfsErrorCode::UploadRejected),
            5 => Ok(VfsErrorCode::StorageFull),
            6 => Ok(VfsErrorCode::Throttled),
            7 => Ok(VfsErrorCode::UnsupportedVersion),
            8 => Ok(VfsErrorCode::AlreadyExists),
            9 => Ok(VfsErrorCode::FileChanged),
            _ => Err(Fault::InvalidEnumValue("code"@, v)),
        }
    }

    pub fn to_cbor(self) -> (value: CborValue)
        ensures
            value@ == Item::Uint(self.code()),
    {
        match self {
            VfsErrorCode::NotFound => CborValue::uint(0),
            VfsErrorCode::QuotaExceeded => CborValue::uint(1),
            VfsErrorCode::GrantsChanged => CborValue::uint(2),
            VfsErrorCode::ResumeExpired => CborValue::uint(3),
            VfsErrorCode::UploadRejected => CborValue::uint(4),
            VfsErrorCode::StorageFull => CborValue::uint(5),
            VfsErrorCode::Throttled => CborValue::uint(6),
            VfsErrorCode::UnsupportedVersion => CborValue::uint(7),
            VfsErrorCode::AlreadyExists => CborValue::uint(8),
            VfsErrorCode::FileChanged => CborValue::uint(9),
        }
    }

    pub fn from_u64(v: u64) -> (r: Result<Self, ProtoError>)
        ensures
            reader::outcome(r) == VfsErrorCode::of_code(v),
    {
        match v {
            0 => Ok(VfsErrorCode::NotFound),
            1 => Ok(VfsErrorCode::QuotaExceeded),
            2 => Ok(VfsErrorCode::GrantsChanged),
            3 => Ok(VfsErrorCode::ResumeExpired),
            4 => Ok(VfsErrorCode::UploadRejected),
            5 => Ok(VfsErrorCode::StorageFull),
            6 => Ok(VfsErrorCode::Throttled),
            7 => Ok(VfsErrorCode::UnsupportedVersion),
            8 => Ok(VfsErrorCode::AlreadyExists),
            9 => Ok(VfsErrorCode::FileChanged),
            other => Err(ProtoError::InvalidEnumValue("code", other)),
        }
    }
}

/// The error code in the `code` field.
pub open spec fn code_field(m: Seq<(Item, Item)>) -> Result<VfsErrorCode, Fault> {
    match reader::uint_field(m, "code"@) {
        Err(f) => Err(f),
        Ok(n) => VfsErrorCode::of_code(n),
    }
}

/// The directory entries in the `entries` field.
pub open spec fn entries_field(m: Seq<(Item, Item)>) -> Result<Seq<DirEntryModel>, Fault> {
    match reader::array_field(m, "entries"@) {
        Err(f) => Err(f),
        Ok(items) => dir_entry::read_list(items),
    }
}

/// The operation that a reply answers, or that it was refused.
#[derive(Debug, Clone, Copy, PartialEq, Eq, Structural)]
pub enum ReplyOp {
    List,
    Stat,
    Read,
    Mkdir,
    Delete,
    Whoami,
    UploadOpen,
    UploadChunk,
    UploadCommit,
    UploadAbort,
    Error,
}

impl ReplyOp {
    /// The number that stands for the operation on the wire.
    pub open spec fn code(self) -> u64 {
        match self {
            ReplyOp::List => 0,
            ReplyOp::Stat => 1,
            ReplyOp::Read => 2,
            ReplyOp::Mkdir => 3,
            ReplyOp::Delete => 4,
            ReplyOp::Whoami => 5,
            ReplyOp::UploadOpen => 6,
            ReplyOp::UploadChunk => 7,
            ReplyOp::UploadCommit => 8,
            ReplyOp::UploadAbort => 9,
            ReplyOp::Error => 10,
        }
    }

    /// The operation that a number stands for.
    pub open spec fn of_code(v: u64) -> Result<ReplyOp, Fault> {
        match v {
            0 => Ok(ReplyOp::List),
            1 => Ok(ReplyOp::Stat),
            2 => Ok(ReplyOp::Read),
            3 => Ok(ReplyOp::Mkdir),
            4 => Ok(ReplyOp::Delete),
            5 => Ok(ReplyOp::Whoami),
            6 => Ok(ReplyOp::UploadOpen),
            7 => Ok(ReplyOp::UploadChunk),
            8 => Ok(ReplyOp::UploadCommit),
            9 => Ok(ReplyOp::UploadAbort),
            10 => Ok(ReplyOp::Error),
            _ => Err(Fault::InvalidEnumValue("op"@, v)),
        }
    }

    /// The names of the fields that a message of this operation may have.
    pub open spec fn names(self) -> Seq<Seq<char>> {
        match self {
            ReplyOp::List => reader::names(LIST_REPLY_FIELDS@),
            ReplyOp::Stat => reader::names(STAT_REPLY_FIELDS@),
            ReplyOp::Read => reader::names(READ_REPLY_FIELDS@),
            ReplyOp::Mkdir => reader::names(MKDIR_REPLY_FIELDS@),
            ReplyOp::Delete => reader::names(DELETE_REPLY_FIELDS@),
            ReplyOp::Whoami => reader::names(WHOAMI_REPLY_FIELDS@),
            ReplyOp::UploadOpen => reader::names(UPLOAD_OPEN_REPLY_FIELDS@),
            ReplyOp::UploadChunk => reader::names(UPLOAD_CHUNK_REPLY_FIELDS@),
            ReplyOp::UploadCommit => reader::names(UPLOAD_COMMIT_REPLY_FIELDS@),
            ReplyOp::UploadAbort => reader::names(UPLOAD_ABORT_REPLY_FIELDS@),
            ReplyOp::Error => reader::names(ERROR_REPLY_FIELDS@),
        }
    }

    pub fn to_cbor(self) -> (value: CborValue)
        ensures
            value@ == Item::Uint(self.code()),
    {
        match self {
            ReplyOp::List => CborValue::uint(0),
            ReplyOp::Stat => CborValue::uint(1),
            ReplyOp::Read => CborValue::uint(2),
            ReplyOp::Mkdir => CborValue::uint(3),
            ReplyOp::Delete => CborValue::uint(4),
            ReplyOp::Whoami => CborValue::uint(5),
            ReplyOp::UploadOpen => CborValue::uint(6),
            ReplyOp::UploadChunk => CborValue::uint(7),
            ReplyOp::UploadCommit => CborValue::uint(8),
            ReplyOp::UploadAbort => CborValue::uint(9),
            ReplyOp::Error => CborValue::uint(10),
        }
    }

    pub fn from_u64(v: u64) -> (r: Result<Self, ProtoError>)
        ensures
            reader::outcome(r) == ReplyOp::of_code(v),
    {
        match v {
            0 => Ok(ReplyOp::List),
            1 => Ok(ReplyOp::Stat),
            2 => Ok(ReplyOp::Read),
            3 => Ok(ReplyOp::Mkdir),
            4 => Ok(ReplyOp::Delete),
            5 => Ok(ReplyOp::Whoami),
            6 => Ok(ReplyOp::UploadOpen),
            7 => Ok(ReplyOp::UploadChunk),
            8 => Ok(ReplyOp::UploadCommit),
            9 => Ok(ReplyOp::UploadAbort),
            10 => Ok(ReplyOp::Error),
            other => Err(ProtoError::InvalidEnumValue("op", other)),
        }
    }
}

pub const LIST_REPLY_FIELDS: [&'static str; 3] = ["op", "entries", "next_cursor"];

pub const STAT_REPLY_FIELDS: [&'static str; 5] = ["op", "kind", "size", "mtime", "perms_here"];

pub const READ_REPLY_FIELDS: [&'static str; 3] = ["op", "data", "eof"];

pub const MKDIR_REPLY_FIELDS: [&'static str; 1] = ["op"];

pub const DELETE_REPLY_FIELDS: [&'static str; 1] = ["op"];

pub const WHOAMI_REPLY_FIELDS: [&'static str; 3] = ["op", "member_display", "effective_paths"];

pub const UPLOAD_OPEN_REPLY_FIELDS: [&'static str; 3] = ["op", "session_id", "offset"];

pub const UPLOAD_CHUNK_REPLY_FIELDS: [&'static str; 2] = ["op", "offset"];

pub const UPLOAD_COMMIT_REPLY_FIELDS: [&'static str; 1] = ["op"];

pub const UPLOAD_ABORT_REPLY_FIELDS: [&'static str; 1] = ["op"];

pub const ERROR_REPLY_FIELDS: [&'static str; 2] = ["op", "code"];

/// A reply.
#[derive(Debug, Clone, PartialEq, Eq)]
pub enum VfsReply {
    /// A page of directory entries, and where the next one starts if there is one.
    List { entries: Vec<DirEntry>, next_cursor: Option<Vec<u8>> },
    /// What an entry is.
    Stat { kind: EntryKind, size: u64, mtime: u64, perms_here: VfsPerms },
    /// Bytes of a file, and whether they are its last.
    Read { data: Vec<u8>, eof: bool },
    /// The directory was made.
    Mkdir,
    /// The entry was removed.
    Delete,
    /// The caller's name and the paths that the caller can browse.
    Whoami { member_display: String, effective_paths: Vec<String> },
    /// The session and the next offset that it expects.
    UploadOpen { session_id: Vec<u8>, offset: u64 },
    /// The next offset that the session expects.
    UploadChunk { offset: u64 },
    /// The upload is in place.
    UploadCommit,
    /// The upload was discarded.
    UploadAbort,
    /// The operation was refused.
    Error { code: VfsErrorCode },
}

/// The contents of a reply.
pub enum ReplyModel {
    List { entries: Seq<DirEntryModel>, next_cursor: Option<Seq<u8>> },
    Stat { kind: EntryKind, size: u64, mtime: u64, perms_here: u8 },
    Read { data: Seq<u8>, eof: bool },
    Mkdir,
    Delete,
    Whoami { member_display: Seq<char>, effective_paths: Seq<Seq<char>> },
    UploadOpen { session_id: Seq<u8>, offset: u64 },
    UploadChunk { offset: u64 },
    UploadCommit,
    UploadAbort,
    Error { code: VfsErrorCode },
}

impl View for VfsReply {
    type V = ReplyModel;

    open spec fn view(&self) -> ReplyModel {
        match *self {
            VfsReply::List { entries, next_cursor } => ReplyModel::List {
                entries: dir_entry::models(entries@),
                next_cursor: reader::opt_bytes(next_cursor),
            },
            VfsReply::Stat { kind, size, mtime, perms_here } => ReplyModel::Stat {
                kind: kind,
                size: size,
                mtime: mtime,
                perms_here: perms_here@,
            },
            VfsReply::Read { data, eof } => ReplyModel::Read {
                data: data@,
                eof: eof,
            },
            VfsReply::Mkdir => ReplyModel::Mkdir,
            VfsReply::Delete => ReplyModel::Delete,
            VfsReply::Whoami { member_display, effective_paths } => ReplyModel::Whoami {
                member_display: member_display@,
                effective_paths: reader::texts(effective_paths@),
            },
            VfsReply::UploadOpen { session_id, offset } => ReplyModel::UploadOpen {
                session_id: session_id@,
                offset: offset,
            },
            VfsReply::UploadChunk { offset } => ReplyModel::UploadChunk {
                offset: offset,
            },
            VfsReply::UploadCommit => ReplyModel::UploadCommit,
            VfsReply::UploadAbort => ReplyModel::UploadAbort,
            VfsReply::Error { code } => ReplyModel::Error {
                code: code,
            },
        }
    }
}

/// The operation in the `op` field.
pub open spec fn op_field(m: Seq<(Item, Item)>) -> Result<ReplyOp, Fault> {
    match reader::uint_field(m, "op"@) {
        Err(f) => Err(f),
        Ok(n) => ReplyOp::of_code(n),
    }
}

impl ReplyModel {
    /// The operation.
    pub open spec fn op(self) -> ReplyOp {
        match self {
            ReplyModel::List { .. } => ReplyOp::List,
            ReplyModel::Stat { .. } => ReplyOp::Stat,
            ReplyModel::Read { .. } => ReplyOp::Read,
            ReplyModel::Mkdir => ReplyOp::Mkdir,
            ReplyModel::Delete => ReplyOp::Delete,
            ReplyModel::Whoami { .. } => ReplyOp::Whoami,
            ReplyModel::UploadOpen { .. } => ReplyOp::UploadOpen,
            ReplyModel::UploadChunk { .. } => ReplyOp::UploadChunk,
            ReplyModel::UploadCommit => ReplyOp::UploadCommit,
            ReplyModel::UploadAbort => ReplyOp::UploadAbort,
            ReplyModel::Error { .. } => ReplyOp::Error,
        }
    }

    /// The permission bits stand for permissions.
    pub open spec fn valid(self) -> bool {
        match self {
            ReplyModel::List { entries, .. } => dir_entry::all_valid(entries),
            ReplyModel::Stat { perms_here, .. } => perms_here <= MAX_VALID,
            _ => true,
        }
    }

    /// All fields. An optional field that is not there has no entry.
    pub open spec fn fields(self) -> Seq<(Seq<char>, Item)> {
        match self {
            ReplyModel::List { entries, next_cursor } => {
                let fields = seq![
                    ("op"@, Item::Uint(ReplyOp::List.code())),
                    ("entries"@, dir_entry::list_item(entries)),
                ];
                match next_cursor {
                    Some(x) => fields.push(("next_cursor"@, Item::Bytes(x))),
                    None => fields,
                }
            },
            ReplyModel::Stat { kind, size, mtime, perms_here } => seq![
                ("op"@, Item::Uint(ReplyOp::Stat.code())),
                ("kind"@, Item::Uint(kind.code())),
                ("size"@, Item::Uint(size)),
                ("mtime"@, Item::Uint(mtime)),
                ("perms_here"@, Item::Uint(perms_here as u64)),
            ],
            ReplyModel::Read { data, eof } => seq![
                ("op"@, Item::Uint(ReplyOp::Read.code())),
                ("data"@, Item::Bytes(data)),
                ("eof"@, Item::Bool(eof)),
            ],
            ReplyModel::Mkdir => seq![("op"@, Item::Uint(ReplyOp::Mkdir.code()))],
            ReplyModel::Delete => seq![("op"@, Item::Uint(ReplyOp::Delete.code()))],
            ReplyModel::Whoami { member_display, effective_paths } => seq![
                ("op"@, Item::Uint(ReplyOp::Whoami.code())),
                ("member_display"@, Item::Text(member_display)),
                ("effective_paths"@, record::text_list(effective_paths)),
            ],
            ReplyModel::UploadOpen { session_id, offset } => seq![
                ("op"@, Item::Uint(ReplyOp::UploadOpen.code())),
                ("session_id"@, Item::Bytes(session_id)),
                ("offset"@, Item::Uint(offset)),
            ],
            ReplyModel::UploadChunk { offset } => seq![
                ("op"@, Item::Uint(ReplyOp::UploadChunk.code())),
                ("offset"@, Item::Uint(offset)),
            ],
            ReplyModel::UploadCommit => seq![("op"@, Item::Uint(ReplyOp::UploadCommit.code()))],
            ReplyModel::UploadAbort => seq![("op"@, Item::Uint(ReplyOp::UploadAbort.code()))],
            ReplyModel::Error { code } => seq![
                ("op"@, Item::Uint(ReplyOp::Error.code())),
                ("code"@, Item::Uint(code.code())),
            ],
        }
    }

    /// The canonical bytes of the reply.
    pub open spec fn bytes(self) -> Seq<u8> {
        item::encoding(item::record(self.fields()))
    }

    /// The reply of operation `op` that the entries of a map stand for.
    pub open spec fn read_fields(op: ReplyOp, m: Seq<(Item, Item)>) -> Result<ReplyModel, Fault> {
        match reader::foreign_key(m, op.names()) {
            Some(f) => Err(f),
            None => match op {
                ReplyOp::List => {
                    let entries = entries_field(m);
                    let next_cursor = reader::optional_bytes_field(m, "next_cursor"@);
                    let found = reader::fault(entries);
                    let found = reader::first(found, reader::fault(next_cursor));
                    reader::unless(
                        found,
                        ReplyModel::List {
                            entries: entries->Ok_0,
                            next_cursor: next_cursor->Ok_0,
                        },
                    )
                },
                ReplyOp::Stat => {
                    let kind = dir_entry::kind_field(m);
                    let size = reader::uint_field(m, "size"@);
                    let mtime = reader::uint_field(m, "mtime"@);
                    let perms_here = perms::perms_field(m, "perms_here"@);
                    let found = reader::fault(kind);
                    let found = reader::first(found, reader::fault(size));
                    let found = reader::first(found, reader::fault(mtime));
                    let found = reader::first(found, reader::fault(perms_here));
                    reader::unless(
                        found,
                        ReplyModel::Stat {
                            kind: kind->Ok_0,
                            size: size->Ok_0,
                            mtime: mtime->Ok_0,
                            perms_here: perms_here->Ok_0,
                        },
                    )
                },
                ReplyOp::Read => {
                    let data = reader::bytes_field(m, "data"@);
                    let eof = reader::bool_field(m, "eof"@);
                    let found = reader::fault(data);
                    let found = reader::first(found, reader::fault(eof));
                    reader::unless(
                        found,
                        ReplyModel::Read {
                            data: data->Ok_0,
                            eof: eof->Ok_0,
                        },
                    )
                },
                ReplyOp::Mkdir => Ok(ReplyModel::Mkdir),
                ReplyOp::Delete => Ok(ReplyModel::Delete),
                ReplyOp::Whoami => {
                    let effective_paths = reader::text_array_field(m, "effective_paths"@);
                    let member_display = reader::text_field(m, "member_display"@);
                    let found = reader::fault(effective_paths);
                    let found = reader::first(found, reader::fault(member_display));
                    reader::unless(
                        found,
                        ReplyModel::Whoami {
                            member_display: member_display->Ok_0,
                            effective_paths: effective_paths->Ok_0,
                        },
                    )
                },
                ReplyOp::UploadOpen => {
                    let session_id = reader::bytes_field(m, "session_id"@);
                    let offset = reader::uint_field(m, "offset"@);
                    let found = reader::fault(session_id);
                    let found = reader::first(found, reader::fault(offset));
                    reader::unless(
                        found,
                        ReplyModel::UploadOpen {
                            session_id: session_id->Ok_0,
                            offset: offset->Ok_0,
                        },
                    )
                },
                ReplyOp::UploadChunk => {
                    let offset = reader::uint_field(m, "offset"@);
                    let found = reader::fault(offset);
                    reader::unless(
                        found,
                        ReplyModel::UploadChunk {
                            offset: offset->Ok_0,
                        },
                    )
                },
                ReplyOp::UploadCommit => Ok(ReplyModel::UploadCommit),
                ReplyOp::UploadAbort => Ok(ReplyModel::UploadAbort),
                ReplyOp::Error => {
                    let code = code_field(m);
                    let found = reader::fault(code);
                    reader::unless(
                        found,
                        ReplyModel::Error {
                            code: code->Ok_0,
                        },
                    )
                },
            },
        }
    }

    /// The reply that an item stands for.
    pub open spec fn read(item: Item) -> Result<ReplyModel, Fault> {
        match item {
            Item::Mapping(m) => match op_field(m) {
                Err(f) => Err(f),
                Ok(op) => ReplyModel::read_fields(op, m),
            },
            _ => Err(Fault::NotAMap),
        }
    }

    /// The reply that canonical bytes stand for.
    pub open spec fn parse(bytes: Seq<u8>) -> Result<ReplyModel, Fault> {
        match canonical::decoding(bytes) {
            Err(e) => Err(Fault::Cbor(e)),
            Ok(item) => ReplyModel::read(item),
        }
    }
}

/// The array of the texts of a list.
fn text_array_value(list: &Vec<String>) -> (value: CborValue)
    ensures
        value@ == record::text_list(reader::texts(list@)),
{
    let mut values: Vec<CborValue> = Vec::new();
    let total: usize = list.len();
    let mut i: usize = 0;
    while i < total
        invariant
            i <= total == list@.len(),
            values@.len() == i,
            forall|j: int| 0 <= j < i ==> (#[trigger] values@[j])@ == Item::Text(list@[j]@),
        decreases total - i,
    {
        values.push(CborValue::text(list[i].as_str()));
        i += 1;
    }
    proof {
        let listed = reader::texts(list@);
        assert(canonical::items_of(values@) =~= Seq::new(
            listed.len(),
            |j: int| Item::Text(listed[j]),
        ));
    }
    CborValue::array(values)
}

proof fn lemma_fields(m: ReplyModel)
    ensures
        record::names_distinct(m.fields()),
        record::values_unique(m.fields()),
        record::values_nest(m.fields(), MAX_NESTING_DEPTH - 1),
        record::names_among(m.fields(), m.op().names()),
        m matches ReplyModel::List { next_cursor, .. } && next_cursor is None ==> record::not_named(
            m.fields(),
            "next_cursor"@,
        ),
{
    reveal_strlit("op");
    reveal_strlit("entries");
    reveal_strlit("next_cursor");
    reveal_strlit("kind");
    reveal_strlit("size");
    reveal_strlit("mtime");
    reveal_strlit("perms_here");
    reveal_strlit("data");
    reveal_strlit("eof");
    reveal_strlit("member_display");
    reveal_strlit("effective_paths");
    reveal_strlit("session_id");
    reveal_strlit("offset");
    reveal_strlit("code");
    assert("op"@.len() == 2);
    assert("entries"@.len() == 7);
    assert("next_cursor"@.len() == 11);
    assert("kind"@.len() == 4);
    assert("size"@.len() == 4);
    assert("mtime"@.len() == 5);
    assert("perms_here"@.len() == 10);
    assert("data"@.len() == 4);
    assert("eof"@.len() == 3);
    assert("member_display"@.len() == 14);
    assert("effective_paths"@.len() == 15);
    assert("session_id"@.len() == 10);
    assert("offset"@.len() == 6);
    assert("code"@.len() == 4);
    assert("kind"@[0] != "size"@[0]);
    let fields = m.fields();
    let listed = m.op().names();
    match m {
        ReplyModel::List { entries, next_cursor } => {
            dir_entry::lemma_list_item(entries);
            item::lemma_nests_more(dir_entry::list_item(entries), 2, MAX_NESTING_DEPTH - 1);
            assert(listed[0] == "op"@);
            assert(listed[1] == "entries"@);
            assert(listed[2] == "next_cursor"@);
            assert forall|i: int| 0 <= i < fields.len() implies listed.contains(
                (#[trigger] fields[i]).0,
            ) by {
                assert(fields[i].0 == listed[0] || fields[i].0 == listed[1] || fields[i].0 == listed[2]);
            }
        },
        ReplyModel::Stat { .. } => {
            assert forall|i: int| 0 <= i < fields.len() implies listed.contains(
                (#[trigger] fields[i]).0,
            ) by {
                assert(fields[i].0 == listed[i]);
            }
        },
        ReplyModel::Read { .. } => {
            assert forall|i: int| 0 <= i < fields.len() implies listed.contains(
                (#[trigger] fields[i]).0,
            ) by {
                assert(fields[i].0 == listed[i]);
            }
        },
        ReplyModel::Mkdir => {
            assert forall|i: int| 0 <= i < fields.len() implies listed.contains(
                (#[trigger] fields[i]).0,
            ) by {
                assert(fields[i].0 == listed[i]);
            }
        },
        ReplyModel::Delete => {
            assert forall|i: int| 0 <= i < fields.len() implies listed.contains(
                (#[trigger] fields[i]).0,
            ) by {
                assert(fields[i].0 == listed[i]);
            }
        },
        ReplyModel::Whoami { effective_paths, .. } => {
            record::lemma_text_list(effective_paths);
            assert forall|i: int| 0 <= i < fields.len() implies listed.contains(
                (#[trigger] fields[i]).0,
            ) by {
                assert(fields[i].0 == listed[i]);
            }
        },
        ReplyModel::UploadOpen { .. } => {
            assert forall|i: int| 0 <= i < fields.len() implies listed.contains(
                (#[trigger] fields[i]).0,
            ) by {
                assert(fields[i].0 == listed[i]);
            }
        },
        ReplyModel::UploadChunk { .. } => {
            assert forall|i: int| 0 <= i < fields.len() implies listed.contains(
                (#[trigger] fields[i]).0,
            ) by {
                assert(fields[i].0 == listed[i]);
            }
        },
        ReplyModel::UploadCommit => {
            assert forall|i: int| 0 <= i < fields.len() implies listed.contains(
                (#[trigger] fields[i]).0,
            ) by {
                assert(fields[i].0 == listed[i]);
            }
        },
        ReplyModel::UploadAbort => {
            assert forall|i: int| 0 <= i < fields.len() implies listed.contains(
                (#[trigger] fields[i]).0,
            ) by {
                assert(fields[i].0 == listed[i]);
            }
        },
        ReplyModel::Error { .. } => {
            assert forall|i: int| 0 <= i < fields.len() implies listed.contains(
                (#[trigger] fields[i]).0,
            ) by {
                assert(fields[i].0 == listed[i]);
            }
        },
    }
}

impl VfsReply {
    pub fn to_cbor(&self) -> (value: CborValue)
        ensures
            value@ == item::record(self@.fields()),
            self@.valid(),
    {
        let entries: Vec<(&'static str, CborValue)> = match self {
            VfsReply::List { entries, next_cursor } => {
                let mut e = vec![("op", ReplyOp::List.to_cbor()), ("entries", entries_to_cbor(entries))];
                if let Some(x) = next_cursor {
                    e.push(("next_cursor", CborValue::bytes(x.as_slice())));
                }
                e
            },
            VfsReply::Stat { kind, size, mtime, perms_here } => vec![
                ("op", ReplyOp::Stat.to_cbor()),
                ("kind", kind.to_cbor()),
                ("size", CborValue::uint(*size)),
                ("mtime", CborValue::uint(*mtime)),
                ("perms_here", CborValue::uint(perms_here.bits() as u64)),
            ],
            VfsReply::Read { data, eof } => vec![
                ("op", ReplyOp::Read.to_cbor()),
                ("data", CborValue::bytes(data.as_slice())),
                ("eof", CborValue::Bool(*eof)),
            ],
            VfsReply::Mkdir => vec![("op", ReplyOp::Mkdir.to_cbor())],
            VfsReply::Delete => vec![("op", ReplyOp::Delete.to_cbor())],
            VfsReply::Whoami { member_display, effective_paths } => vec![
                ("op", ReplyOp::Whoami.to_cbor()),
                ("member_display", CborValue::text(member_display.as_str())),
                ("effective_paths", text_array_value(effective_paths)),
            ],
            VfsReply::UploadOpen { session_id, offset } => vec![
                ("op", ReplyOp::UploadOpen.to_cbor()),
                ("session_id", CborValue::bytes(session_id.as_slice())),
                ("offset", CborValue::uint(*offset)),
            ],
            VfsReply::UploadChunk { offset } => vec![("op", ReplyOp::UploadChunk.to_cbor()), ("offset", CborValue::uint(*offset))],
            VfsReply::UploadCommit => vec![("op", ReplyOp::UploadCommit.to_cbor())],
            VfsReply::UploadAbort => vec![("op", ReplyOp::UploadAbort.to_cbor())],
            VfsReply::Error { code } => vec![("op", ReplyOp::Error.to_cbor()), ("code", code.to_cbor())],
        };
        assert(canonical::fields_of(entries@) =~= self@.fields());
        CborValue::map(entries)
    }

    pub fn to_canonical_bytes(&self) -> (bytes: Vec<u8>)
        ensures
            bytes@ == self@.bytes(),
            item::lengths_fit(item::record(self@.fields())),
            self@.valid(),
    {
        proof {
            lemma_fields(self@);
            record::lemma_record_unique(self@.fields());
        }
        canonical_encode(&self.to_cbor())
    }

    /// Reads the reply of operation `op`.
    fn read_reply(op: ReplyOp, m: &MapReader<'_>) -> (r: Result<VfsReply, ProtoError>)
        ensures
            reader::seen(r) == ReplyModel::read_fields(op, m@),
    {
        match op {
            ReplyOp::List => {
                m.deny_unknown_fields(LIST_REPLY_FIELDS.as_slice())?;
                Ok(
                    VfsReply::List {
                        entries: entries_from_cbor(m.array("entries")?)?,
                        next_cursor: m.optional_bytes("next_cursor")?,
                    },
                )
            },
            ReplyOp::Stat => {
                m.deny_unknown_fields(STAT_REPLY_FIELDS.as_slice())?;
                Ok(
                    VfsReply::Stat {
                        kind: EntryKind::from_u64(m.u64("kind")?)?,
                        size: m.u64("size")?,
                        mtime: m.u64("mtime")?,
                        perms_here: perms_from_reader(m, "perms_here")?,
                    },
                )
            },
            ReplyOp::Read => {
                m.deny_unknown_fields(READ_REPLY_FIELDS.as_slice())?;
                Ok(
                    VfsReply::Read {
                        data: m.bytes("data")?,
                        eof: m.bool("eof")?,
                    },
                )
            },
            ReplyOp::Mkdir => {
                m.deny_unknown_fields(MKDIR_REPLY_FIELDS.as_slice())?;
                Ok(VfsReply::Mkdir)
            },
            ReplyOp::Delete => {
                m.deny_unknown_fields(DELETE_REPLY_FIELDS.as_slice())?;
                Ok(VfsReply::Delete)
            },
            ReplyOp::Whoami => {
                m.deny_unknown_fields(WHOAMI_REPLY_FIELDS.as_slice())?;
                let effective_paths = m.text_array("effective_paths")?;
                let member_display = m.text("member_display")?;
                Ok(VfsReply::Whoami { member_display, effective_paths })
            },
            ReplyOp::UploadOpen => {
                m.deny_unknown_fields(UPLOAD_OPEN_REPLY_FIELDS.as_slice())?;
                Ok(
                    VfsReply::UploadOpen {
                        session_id: m.bytes("session_id")?,
                        offset: m.u64("offset")?,
                    },
                )
            },
            ReplyOp::UploadChunk => {
                m.deny_unknown_fields(UPLOAD_CHUNK_REPLY_FIELDS.as_slice())?;
                Ok(
                    VfsReply::UploadChunk {
                        offset: m.u64("offset")?,
                    },
                )
            },
            ReplyOp::UploadCommit => {
                m.deny_unknown_fields(UPLOAD_COMMIT_REPLY_FIELDS.as_slice())?;
                Ok(VfsReply::UploadCommit)
            },
            ReplyOp::UploadAbort => {
                m.deny_unknown_fields(UPLOAD_ABORT_REPLY_FIELDS.as_slice())?;
                Ok(VfsReply::UploadAbort)
            },
            ReplyOp::Error => {
                m.deny_unknown_fields(ERROR_REPLY_FIELDS.as_slice())?;
                Ok(
                    VfsReply::Error {
                        code: VfsErrorCode::from_u64(m.u64("code")?)?,
                    },
                )
            },
        }
    }

    pub fn from_cbor(v: &CborValue) -> (r: Result<Self, ProtoError>)
        ensures
            reader::seen(r) == ReplyModel::read(v@),
    {
        let m = MapReader::new(v)?;
        let op = ReplyOp::from_u64(m.u64("op")?)?;
        Self::read_reply(op, &m)
    }

    pub fn from_canonical_bytes(bytes: &[u8]) -> (r: Result<Self, ProtoError>)
        ensures
            reader::seen(r) == ReplyModel::parse(bytes@),
    {
        match canonical_decode(bytes) {
            Ok(value) => Self::from_cbor(&value),
            Err(e) => Err(ProtoError::Cbor(e)),
        }
    }
}

/// The record of a reply is well formed.
pub proof fn lemma_record_of(m: ReplyModel)
    ensures
        item::keys_unique(item::record(m.fields())),
{
    lemma_fields(m);
    record::lemma_record_unique(m.fields());
}

/// A map is read as a reply exactly where the reader finds in it what it finds in the record of the
/// reply, and the permission bits of the reply stand for permissions.
spec fn read_alike(m: ReplyModel, entries: Seq<(Item, Item)>) -> bool {
    ReplyModel::read(Item::Mapping(entries)) == Ok::<ReplyModel, Fault>(m) <==> m.valid()
        && record::stands_for(entries, m.fields(), m.op().names())
}

proof fn lemma_read_list(m: ReplyModel, entries: Seq<(Item, Item)>)
    requires
        m is List,
        item::keys_unique(Item::Mapping(entries)),
    ensures
        read_alike(m, entries),
{
    let fields = m.fields();
    let listed = m.op().names();
    lemma_fields(m);
    record::lemma_field_values(fields);
    assert(listed[0] == "op"@);
    assert(listed[1] == "entries"@);
    assert(listed[2] == "next_cursor"@);
    assert(fields[0].0 == "op"@);
    assert(fields[1].0 == "entries"@);
    if m->next_cursor is Some {
        assert(fields[2].0 == "next_cursor"@);
    }
    if let Ok(items) = reader::array_field(entries, "entries"@) {
        record::lemma_find_some(entries, "entries"@);
        dir_entry::lemma_list_values(items, m->entries);
    }
}

proof fn lemma_read_stat(m: ReplyModel, entries: Seq<(Item, Item)>)
    requires
        m is Stat,
    ensures
        read_alike(m, entries),
{
    let fields = m.fields();
    let listed = m.op().names();
    lemma_fields(m);
    record::lemma_field_values(fields);
    assert(listed[0] == "op"@);
    assert(listed[1] == "kind"@);
    assert(listed[2] == "size"@);
    assert(listed[3] == "mtime"@);
    assert(listed[4] == "perms_here"@);
    assert(fields[0].0 == "op"@);
    assert(fields[1].0 == "kind"@);
    assert(fields[2].0 == "size"@);
    assert(fields[3].0 == "mtime"@);
    assert(fields[4].0 == "perms_here"@);
}

proof fn lemma_read_read(m: ReplyModel, entries: Seq<(Item, Item)>)
    requires
        m is Read,
    ensures
        read_alike(m, entries),
{
    let fields = m.fields();
    let listed = m.op().names();
    lemma_fields(m);
    record::lemma_field_values(fields);
    assert(listed[0] == "op"@);
    assert(listed[1] == "data"@);
    assert(listed[2] == "eof"@);
    assert(fields[0].0 == "op"@);
    assert(fields[1].0 == "data"@);
    assert(fields[2].0 == "eof"@);
}

proof fn lemma_read_mkdir(m: ReplyModel, entries: Seq<(Item, Item)>)
    requires
        m is Mkdir,
    ensures
        read_alike(m, entries),
{
    let fields = m.fields();
    let listed = m.op().names();
    lemma_fields(m);
    record::lemma_field_values(fields);
    assert(listed[0] == "op"@);
    assert(fields[0].0 == "op"@);
}

proof fn lemma_read_delete(m: ReplyModel, entries: Seq<(Item, Item)>)
    requires
        m is Delete,
    ensures
        read_alike(m, entries),
{
    let fields = m.fields();
    let listed = m.op().names();
    lemma_fields(m);
    record::lemma_field_values(fields);
    assert(listed[0] == "op"@);
    assert(fields[0].0 == "op"@);
}

proof fn lemma_read_whoami(m: ReplyModel, entries: Seq<(Item, Item)>)
    requires
        m is Whoami,
    ensures
        read_alike(m, entries),
{
    let fields = m.fields();
    let listed = m.op().names();
    lemma_fields(m);
    record::lemma_field_values(fields);
    assert(listed[0] == "op"@);
    assert(listed[1] == "member_display"@);
    assert(listed[2] == "effective_paths"@);
    assert(fields[0].0 == "op"@);
    assert(fields[1].0 == "member_display"@);
    assert(fields[2].0 == "effective_paths"@);
    if let Ok(items) = reader::array_field(entries, "effective_paths"@) {
        record::lemma_text_values(items, m->effective_paths);
    }
}

proof fn lemma_read_upload_open(m: ReplyModel, entries: Seq<(Item, Item)>)
    requires
        m is UploadOpen,
    ensures
        read_alike(m, entries),
{
    let fields = m.fields();
    let listed = m.op().names();
    lemma_fields(m);
    record::lemma_field_values(fields);
    assert(listed[0] == "op"@);
    assert(listed[1] == "session_id"@);
    assert(listed[2] == "offset"@);
    assert(fields[0].0 == "op"@);
    assert(fields[1].0 == "session_id"@);
    assert(fields[2].0 == "offset"@);
}

proof fn lemma_read_upload_chunk(m: ReplyModel, entries: Seq<(Item, Item)>)
    requires
        m is UploadChunk,
    ensures
        read_alike(m, entries),
{
    let fields = m.fields();
    let listed = m.op().names();
    lemma_fields(m);
    record::lemma_field_values(fields);
    assert(listed[0] == "op"@);
    assert(listed[1] == "offset"@);
    assert(fields[0].0 == "op"@);
    assert(fields[1].0 == "offset"@);
}

proof fn lemma_read_upload_commit(m: ReplyModel, entries: Seq<(Item, Item)>)
    requires
        m is UploadCommit,
    ensures
        read_alike(m, entries),
{
    let fields = m.fields();
    let listed = m.op().names();
    lemma_fields(m);
    record::lemma_field_values(fields);
    assert(listed[0] == "op"@);
    assert(fields[0].0 == "op"@);
}

proof fn lemma_read_upload_abort(m: ReplyModel, entries: Seq<(Item, Item)>)
    requires
        m is UploadAbort,
    ensures
        read_alike(m, entries),
{
    let fields = m.fields();
    let listed = m.op().names();
    lemma_fields(m);
    record::lemma_field_values(fields);
    assert(listed[0] == "op"@);
    assert(fields[0].0 == "op"@);
}

proof fn lemma_read_error(m: ReplyModel, entries: Seq<(Item, Item)>)
    requires
        m is Error,
    ensures
        read_alike(m, entries),
{
    let fields = m.fields();
    let listed = m.op().names();
    lemma_fields(m);
    record::lemma_field_values(fields);
    assert(listed[0] == "op"@);
    assert(listed[1] == "code"@);
    assert(fields[0].0 == "op"@);
    assert(fields[1].0 == "code"@);
}

/// An item without duplicate keys is read as a reply exactly where it is the record of the reply, up
/// to the order of its entries and of those of the maps in it, and the permission bits stand for
/// permissions: nothing is missing, nothing is added, and nothing is replaced.
pub proof fn law_reply_values(v: Item, m: ReplyModel)
    requires
        item::keys_unique(v),
    ensures
        ReplyModel::read(v) == Ok::<ReplyModel, Fault>(m) <==> m.valid() && item::same_item(
            v,
            item::record(m.fields()),
        ),
{
    if let Item::Mapping(entries) = v {
        match m {
            ReplyModel::List { .. } => lemma_read_list(m, entries),
            ReplyModel::Stat { .. } => lemma_read_stat(m, entries),
            ReplyModel::Read { .. } => lemma_read_read(m, entries),
            ReplyModel::Mkdir => lemma_read_mkdir(m, entries),
            ReplyModel::Delete => lemma_read_delete(m, entries),
            ReplyModel::Whoami { .. } => lemma_read_whoami(m, entries),
            ReplyModel::UploadOpen { .. } => lemma_read_upload_open(m, entries),
            ReplyModel::UploadChunk { .. } => lemma_read_upload_chunk(m, entries),
            ReplyModel::UploadCommit => lemma_read_upload_commit(m, entries),
            ReplyModel::UploadAbort => lemma_read_upload_abort(m, entries),
            ReplyModel::Error { .. } => lemma_read_error(m, entries),
        }
        lemma_fields(m);
        record::lemma_stands_for(entries, m.fields(), m.op().names());
    }
}

/// Parsing the canonical bytes of a reply gives the reply back.
pub proof fn law_reply_round_trip(m: ReplyModel)
    requires
        item::lengths_fit(item::record(m.fields())),
        m.valid(),
    ensures
        ReplyModel::parse(m.bytes()) == Ok::<ReplyModel, Fault>(m),
{
    let written = item::record(m.fields());
    lemma_fields(m);
    record::lemma_record_unique(m.fields());
    record::lemma_record_nests(m.fields(), MAX_NESTING_DEPTH as int);
    roundtrip::law_decode_of_encode(written);
    roundtrip::law_canonical_form_is_same(written);
    roundtrip::lemma_canonical_form_unique(written);
    law_reply_values(item::canonical_form(written), m);
}

/// Bytes that parse as a reply are its canonical bytes: it has one encoding only.
pub proof fn law_reply_unique_bytes(bytes: Seq<u8>)
    ensures
        ReplyModel::parse(bytes) matches Ok(m) ==> m.bytes() == bytes && item::lengths_fit(
            item::record(m.fields()),
        ) && m.valid(),
{
    if let Ok(m) = ReplyModel::parse(bytes) {
        let read = canonical::decoding(bytes)->Ok_0;
        roundtrip::law_encode_of_decode(bytes);
        law_reply_values(read, m);
        lemma_record_of(m);
        roundtrip::law_same_items_same_bytes(read, item::record(m.fields()));
        roundtrip::lemma_same_fits(read, item::record(m.fields()));
    }
}

// ---- the names and numbers on the wire ----

/// What stands on the wire: an item without duplicate keys is read as a reply exactly where it is a
/// map with the names of the operation and nothing else, the operation's number under `op`, and
/// under every other name what the reply holds there, with no bit set that stands for no
/// permission.
pub proof fn law_reply_wire(v: Item, e: VfsReply)
    requires
        item::keys_unique(v),
    ensures
        ReplyModel::read(v) == Ok::<ReplyModel, Fault>(e@) <==> match e {
            VfsReply::List { entries, next_cursor } => {
                &&& record::is_map_of(v, (2 + (if next_cursor is Some { 1nat } else { 0nat })) as nat)
                &&& record::holds(v, "op"@, Item::Uint(0))
                &&& record::holds(v, "entries"@, Item::Array(Seq::new(entries@.len(),
                    |i: int| item::record(entries@[i]@.fields()))))
                &&& next_cursor is Some ==> record::holds(v, "next_cursor"@,
                    Item::Bytes(next_cursor->0@))
                &&& forall|i: int|
                    0 <= i < entries@.len() ==> (#[trigger] entries@[i]).perms_here@ <= 15
            },
            VfsReply::Stat { kind, size, mtime, perms_here } => {
                &&& record::is_map_of(v, 5)
                &&& record::holds(v, "op"@, Item::Uint(1))
                &&& record::holds(v, "kind"@, Item::Uint(if kind is Dir { 1 } else { 0 }))
                &&& record::holds(v, "size"@, Item::Uint(size))
                &&& record::holds(v, "mtime"@, Item::Uint(mtime))
                &&& record::holds(v, "perms_here"@, Item::Uint(perms_here@ as u64))
                &&& perms_here@ <= 15
            },
            VfsReply::Read { data, eof } => {
                &&& record::is_map_of(v, 3)
                &&& record::holds(v, "op"@, Item::Uint(2))
                &&& record::holds(v, "data"@, Item::Bytes(data@))
                &&& record::holds(v, "eof"@, Item::Bool(eof))
            },
            VfsReply::Mkdir => {
                &&& record::is_map_of(v, 1)
                &&& record::holds(v, "op"@, Item::Uint(3))
            },
            VfsReply::Delete => {
                &&& record::is_map_of(v, 1)
                &&& record::holds(v, "op"@, Item::Uint(4))
            },
            VfsReply::Whoami { member_display, effective_paths } => {
                &&& record::is_map_of(v, 3)
                &&& record::holds(v, "op"@, Item::Uint(5))
                &&& record::holds(v, "member_display"@, Item::Text(member_display@))
                &&& record::holds(v, "effective_paths"@,
                    Item::Array(Seq::new(effective_paths@.len(),
                    |i: int| Item::Text(effective_paths@[i]@))))
            },
            VfsReply::UploadOpen { session_id, offset } => {
                &&& record::is_map_of(v, 3)
                &&& record::holds(v, "op"@, Item::Uint(6))
                &&& record::holds(v, "session_id"@, Item::Bytes(session_id@))
                &&& record::holds(v, "offset"@, Item::Uint(offset))
            },
            VfsReply::UploadChunk { offset } => {
                &&& record::is_map_of(v, 2)
                &&& record::holds(v, "op"@, Item::Uint(7))
                &&& record::holds(v, "offset"@, Item::Uint(offset))
            },
            VfsReply::UploadCommit => {
                &&& record::is_map_of(v, 1)
                &&& record::holds(v, "op"@, Item::Uint(8))
            },
            VfsReply::UploadAbort => {
                &&& record::is_map_of(v, 1)
                &&& record::holds(v, "op"@, Item::Uint(9))
            },
            VfsReply::Error { code } => {
                &&& record::is_map_of(v, 2)
                &&& record::holds(v, "op"@, Item::Uint(10))
                &&& record::holds(v, "code"@, Item::Uint(
                            match code {
                                VfsErrorCode::NotFound => 0,
                                VfsErrorCode::QuotaExceeded => 1,
                                VfsErrorCode::GrantsChanged => 2,
                                VfsErrorCode::ResumeExpired => 3,
                                VfsErrorCode::UploadRejected => 4,
                                VfsErrorCode::StorageFull => 5,
                                VfsErrorCode::Throttled => 6,
                                VfsErrorCode::UnsupportedVersion => 7,
                                VfsErrorCode::AlreadyExists => 8,
                                VfsErrorCode::FileChanged => 9,
                            },
                        ))
            },
        },
        e@.bytes() == item::encoding(item::record(e@.fields())),
{
    let fields = e@.fields();
    law_reply_values(v, e@);
    lemma_fields(e@);
    record::lemma_holds_all(v, fields);
    match e {
        VfsReply::List { entries, next_cursor } => {
            assert(fields[0] == ("op"@, Item::Uint(0)));
            assert(fields[1].0 == "entries"@);
            assert(fields[1].1->Array_0 =~= (Item::Array(Seq::new(entries@.len(),
                |i: int| item::record(entries@[i]@.fields()))))->Array_0);
            if next_cursor is Some {
                assert(fields[2] == ("next_cursor"@, Item::Bytes(next_cursor->0@)));
            }
            assert forall|i: int| 0 <= i < entries@.len() implies e@->entries[i].perms_here
                == (#[trigger] entries@[i]).perms_here@ by {}
        },
        VfsReply::Stat { kind, size, mtime, perms_here } => {
            assert(fields[0] == ("op"@, Item::Uint(1)));
            assert(fields[1] == ("kind"@, Item::Uint(if kind is Dir { 1 } else { 0 })));
            assert(fields[2] == ("size"@, Item::Uint(size)));
            assert(fields[3] == ("mtime"@, Item::Uint(mtime)));
            assert(fields[4] == ("perms_here"@, Item::Uint(perms_here@ as u64)));
        },
        VfsReply::Read { data, eof } => {
            assert(fields[0] == ("op"@, Item::Uint(2)));
            assert(fields[1] == ("data"@, Item::Bytes(data@)));
            assert(fields[2] == ("eof"@, Item::Bool(eof)));
        },
        VfsReply::Mkdir => {
            assert(fields[0] == ("op"@, Item::Uint(3)));
        },
        VfsReply::Delete => {
            assert(fields[0] == ("op"@, Item::Uint(4)));
        },
        VfsReply::Whoami { member_display, effective_paths } => {
            assert(fields[0] == ("op"@, Item::Uint(5)));
            assert(fields[1] == ("member_display"@, Item::Text(member_display@)));
            assert(fields[2].0 == "effective_paths"@);
            assert(fields[2].1->Array_0 =~= (Item::Array(Seq::new(effective_paths@.len(),
                |i: int| Item::Text(effective_paths@[i]@))))->Array_0);
        },
        VfsReply::UploadOpen { session_id, offset } => {
            assert(fields[0] == ("op"@, Item::Uint(6)));
            assert(fields[1] == ("session_id"@, Item::Bytes(session_id@)));
            assert(fields[2] == ("offset"@, Item::Uint(offset)));
        },
        VfsReply::UploadChunk { offset } => {
            assert(fields[0] == ("op"@, Item::Uint(7)));
            assert(fields[1] == ("offset"@, Item::Uint(offset)));
        },
        VfsReply::UploadCommit => {
            assert(fields[0] == ("op"@, Item::Uint(8)));
        },
        VfsReply::UploadAbort => {
            assert(fields[0] == ("op"@, Item::Uint(9)));
        },
        VfsReply::Error { code } => {
            assert(fields[0] == ("op"@, Item::Uint(10)));
            assert(fields[1] == ("code"@, Item::Uint(
                            match code {
                                VfsErrorCode::NotFound => 0,
                                VfsErrorCode::QuotaExceeded => 1,
                                VfsErrorCode::GrantsChanged => 2,
                                VfsErrorCode::ResumeExpired => 3,
                                VfsErrorCode::UploadRejected => 4,
                                VfsErrorCode::StorageFull => 5,
                                VfsErrorCode::Throttled => 6,
                                VfsErrorCode::UnsupportedVersion => 7,
                                VfsErrorCode::AlreadyExists => 8,
                                VfsErrorCode::FileChanged => 9,
                            },
                        )));
        },
    }
}

/// The numbers of the operations, and that there are no others.
pub proof fn law_operation_numbers(v: u64)
    ensures
        ReplyOp::List.code() == 0,
        ReplyOp::of_code(0) == Ok::<ReplyOp, Fault>(ReplyOp::List),
        ReplyOp::Stat.code() == 1,
        ReplyOp::of_code(1) == Ok::<ReplyOp, Fault>(ReplyOp::Stat),
        ReplyOp::Read.code() == 2,
        ReplyOp::of_code(2) == Ok::<ReplyOp, Fault>(ReplyOp::Read),
        ReplyOp::Mkdir.code() == 3,
        ReplyOp::of_code(3) == Ok::<ReplyOp, Fault>(ReplyOp::Mkdir),
        ReplyOp::Delete.code() == 4,
        ReplyOp::of_code(4) == Ok::<ReplyOp, Fault>(ReplyOp::Delete),
        ReplyOp::Whoami.code() == 5,
        ReplyOp::of_code(5) == Ok::<ReplyOp, Fault>(ReplyOp::Whoami),
        ReplyOp::UploadOpen.code() == 6,
        ReplyOp::of_code(6) == Ok::<ReplyOp, Fault>(ReplyOp::UploadOpen),
        ReplyOp::UploadChunk.code() == 7,
        ReplyOp::of_code(7) == Ok::<ReplyOp, Fault>(ReplyOp::UploadChunk),
        ReplyOp::UploadCommit.code() == 8,
        ReplyOp::of_code(8) == Ok::<ReplyOp, Fault>(ReplyOp::UploadCommit),
        ReplyOp::UploadAbort.code() == 9,
        ReplyOp::of_code(9) == Ok::<ReplyOp, Fault>(ReplyOp::UploadAbort),
        ReplyOp::Error.code() == 10,
        ReplyOp::of_code(10) == Ok::<ReplyOp, Fault>(ReplyOp::Error),
        v >= 11 ==> ReplyOp::of_code(v) == Err::<ReplyOp, Fault>(
            Fault::InvalidEnumValue("op"@, v),
        ),
{
}

/// The numbers of the error codes, and that there are no others.
pub proof fn law_error_numbers(v: u64)
    ensures
        VfsErrorCode::NotFound.code() == 0,
        VfsErrorCode::of_code(0) == Ok::<VfsErrorCode, Fault>(VfsErrorCode::NotFound),
        VfsErrorCode::QuotaExceeded.code() == 1,
        VfsErrorCode::of_code(1) == Ok::<VfsErrorCode, Fault>(VfsErrorCode::QuotaExceeded),
        VfsErrorCode::GrantsChanged.code() == 2,
        VfsErrorCode::of_code(2) == Ok::<VfsErrorCode, Fault>(VfsErrorCode::GrantsChanged),
        VfsErrorCode::ResumeExpired.code() == 3,
        VfsErrorCode::of_code(3) == Ok::<VfsErrorCode, Fault>(VfsErrorCode::ResumeExpired),
        VfsErrorCode::UploadRejected.code() == 4,
        VfsErrorCode::of_code(4) == Ok::<VfsErrorCode, Fault>(VfsErrorCode::UploadRejected),
        VfsErrorCode::StorageFull.code() == 5,
        VfsErrorCode::of_code(5) == Ok::<VfsErrorCode, Fault>(VfsErrorCode::StorageFull),
        VfsErrorCode::Throttled.code() == 6,
        VfsErrorCode::of_code(6) == Ok::<VfsErrorCode, Fault>(VfsErrorCode::Throttled),
        VfsErrorCode::UnsupportedVersion.code() == 7,
        VfsErrorCode::of_code(7) == Ok::<VfsErrorCode, Fault>(VfsErrorCode::UnsupportedVersion),
        VfsErrorCode::AlreadyExists.code() == 8,
        VfsErrorCode::of_code(8) == Ok::<VfsErrorCode, Fault>(VfsErrorCode::AlreadyExists),
        VfsErrorCode::FileChanged.code() == 9,
        VfsErrorCode::of_code(9) == Ok::<VfsErrorCode, Fault>(VfsErrorCode::FileChanged),
        v >= 10 ==> VfsErrorCode::of_code(v) == Err::<VfsErrorCode, Fault>(
            Fault::InvalidEnumValue("code"@, v),
        ),
{
}

/// The fields of every operation are looked at in this order, once no foreign name is there, and
/// the first that is missing or wrong is the one that is named.
pub proof fn law_reply_first_fault(op: ReplyOp, entries: Seq<(Item, Item)>)
    ensures
        ({
            let r = ReplyModel::read_fields(op, entries);
            if let Some(g) = reader::foreign_key(entries, op.names()) {
                r matches Err(f) && f == g
            } else {
                match op {
                    ReplyOp::List => if entries_field(entries) is Err {
                        r matches Err(f) && f == entries_field(entries)->Err_0
                    } else if reader::optional_bytes_field(entries, "next_cursor"@) is Err {
                        r matches Err(f) && f == reader::optional_bytes_field(entries,
                            "next_cursor"@)->Err_0
                    } else {
                        r is Ok
                    },
                    ReplyOp::Stat => if dir_entry::kind_field(entries) is Err {
                        r matches Err(f) && f == dir_entry::kind_field(entries)->Err_0
                    } else if reader::uint_field(entries, "size"@) is Err {
                        r matches Err(f) && f == reader::uint_field(entries, "size"@)->Err_0
                    } else if reader::uint_field(entries, "mtime"@) is Err {
                        r matches Err(f) && f == reader::uint_field(entries, "mtime"@)->Err_0
                    } else if perms::perms_field(entries, "perms_here"@) is Err {
                        r matches Err(f) && f == perms::perms_field(entries, "perms_here"@)->Err_0
                    } else {
                        r is Ok
                    },
                    ReplyOp::Read => if reader::bytes_field(entries, "data"@) is Err {
                        r matches Err(f) && f == reader::bytes_field(entries, "data"@)->Err_0
                    } else if reader::bool_field(entries, "eof"@) is Err {
                        r matches Err(f) && f == reader::bool_field(entries, "eof"@)->Err_0
                    } else {
                        r is Ok
                    },
                    ReplyOp::Mkdir => r is Ok,
                    ReplyOp::Delete => r is Ok,
                    ReplyOp::Whoami => if reader::text_array_field(entries,
                        "effective_paths"@) is Err {
                        r matches Err(f) && f == reader::text_array_field(entries,
                            "effective_paths"@)->Err_0
                    } else if reader::text_field(entries, "member_display"@) is Err {
                        r matches Err(f) && f == reader::text_field(entries,
                            "member_display"@)->Err_0
                    } else {
                        r is Ok
                    },
                    ReplyOp::UploadOpen => if reader::bytes_field(entries, "session_id"@) is Err {
                        r matches Err(f) && f == reader::bytes_field(entries, "session_id"@)->Err_0
                    } else if reader::uint_field(entries, "offset"@) is Err {
                        r matches Err(f) && f == reader::uint_field(entries, "offset"@)->Err_0
                    } else {
                        r is Ok
                    },
                    ReplyOp::UploadChunk => if reader::uint_field(entries, "offset"@) is Err {
                        r matches Err(f) && f == reader::uint_field(entries, "offset"@)->Err_0
                    } else {
                        r is Ok
                    },
                    ReplyOp::UploadCommit => r is Ok,
                    ReplyOp::UploadAbort => r is Ok,
                    ReplyOp::Error => if code_field(entries) is Err {
                        r matches Err(f) && f == code_field(entries)->Err_0
                    } else {
                        r is Ok
                    },
                }
            }
        }),
{
}

} // verus!
