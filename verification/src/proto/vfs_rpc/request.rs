//! VFS RPC requests.
use crate::proto::canonical;
use crate::proto::canonical::{canonical_decode, canonical_encode, CborValue, MAX_NESTING_DEPTH};
use crate::proto::item;
use crate::proto::item::Item;
use crate::proto::reader;
use crate::proto::reader::{Fault, MapReader, ProtoError};
use crate::proto::record;
use crate::proto::roundtrip;
use vstd::prelude::*;

verus! {

/// The operation of a request.
#[derive(Debug, Clone, Copy, PartialEq, Eq, Structural)]
pub enum ReqOp {
    List,
    Stat,
    Read,
    Mkdir,
    Delete,
    Whoami,
    UploadOpen,
    UploadChunk,
    UploadCommit,
    UploadAbort,
}

impl ReqOp {
    /// The number that stands for the operation on the wire.
    pub open spec fn code(self) -> u64 {
        match self {
            ReqOp::List => 0,
            ReqOp::Stat => 1,
            ReqOp::Read => 2,
            ReqOp::Mkdir => 3,
            ReqOp::Delete => 4,
            ReqOp::Whoami => 5,
            ReqOp::UploadOpen => 6,
            ReqOp::UploadChunk => 7,
            ReqOp::UploadCommit => 8,
            ReqOp::UploadAbort => 9,
        }
    }

    /// The operation that a number stands for.
    pub open spec fn of_code(v: u64) -> Result<ReqOp, Fault> {
        match v {
            0 => Ok(ReqOp::List),
            1 => Ok(ReqOp::Stat),
            2 => Ok(ReqOp::Read),
            3 => Ok(ReqOp::Mkdir),
            4 => Ok(ReqOp::Delete),
            5 => Ok(ReqOp::Whoami),
            6 => Ok(ReqOp::UploadOpen),
            7 => Ok(ReqOp::UploadChunk),
            8 => Ok(ReqOp::UploadCommit),
            9 => Ok(ReqOp::UploadAbort),
            _ => Err(Fault::InvalidEnumValue("op"@, v)),
        }
    }

    /// The names of the fields that a message of this operation may have.
    pub open spec fn names(self) -> Seq<Seq<char>> {
        match self {
            ReqOp::List => reader::names(LIST_REQ_FIELDS@),
            ReqOp::Stat => reader::names(STAT_REQ_FIELDS@),
            ReqOp::Read => reader::names(READ_REQ_FIELDS@),
            ReqOp::Mkdir => reader::names(MKDIR_REQ_FIELDS@),
            ReqOp::Delete => reader::names(DELETE_REQ_FIELDS@),
            ReqOp::Whoami => reader::names(WHOAMI_REQ_FIELDS@),
            ReqOp::UploadOpen => reader::names(UPLOAD_OPEN_REQ_FIELDS@),
            ReqOp::UploadChunk => reader::names(UPLOAD_CHUNK_REQ_FIELDS@),
            ReqOp::UploadCommit => reader::names(UPLOAD_COMMIT_REQ_FIELDS@),
            ReqOp::UploadAbort => reader::names(UPLOAD_ABORT_REQ_FIELDS@),
        }
    }

    pub fn to_cbor(self) -> (value: CborValue)
        ensures
            value@ == Item::Uint(self.code()),
    {
        match self {
            ReqOp::List => CborValue::uint(0),
            ReqOp::Stat => CborValue::uint(1),
            ReqOp::Read => CborValue::uint(2),
            ReqOp::Mkdir => CborValue::uint(3),
            ReqOp::Delete => CborValue::uint(4),
            ReqOp::Whoami => CborValue::uint(5),
            ReqOp::UploadOpen => CborValue::uint(6),
            ReqOp::UploadChunk => CborValue::uint(7),
            ReqOp::UploadCommit => CborValue::uint(8),
            ReqOp::UploadAbort => CborValue::uint(9),
        }
    }

    pub fn from_u64(v: u64) -> (r: Result<Self, ProtoError>)
        ensures
            reader::outcome(r) == ReqOp::of_code(v),
    {
        match v {
            0 => Ok(ReqOp::List),
            1 => Ok(ReqOp::Stat),
            2 => Ok(ReqOp::Read),
            3 => Ok(ReqOp::Mkdir),
            4 => Ok(ReqOp::Delete),
            5 => Ok(ReqOp::Whoami),
            6 => Ok(ReqOp::UploadOpen),
            7 => Ok(ReqOp::UploadChunk),
            8 => Ok(ReqOp::UploadCommit),
            9 => Ok(ReqOp::UploadAbort),
            other => Err(ProtoError::InvalidEnumValue("op", other)),
        }
    }
}

pub const LIST_REQ_FIELDS: [&'static str; 5] = ["v", "op", "path", "cursor", "limit"];

pub const STAT_REQ_FIELDS: [&'static str; 3] = ["v", "op", "path"];

pub const READ_REQ_FIELDS: [&'static str; 5] = ["v", "op", "path", "offset", "len"];

pub const MKDIR_REQ_FIELDS: [&'static str; 3] = ["v", "op", "path"];

pub const DELETE_REQ_FIELDS: [&'static str; 3] = ["v", "op", "path"];

pub const WHOAMI_REQ_FIELDS: [&'static str; 2] = ["v", "op"];

pub const UPLOAD_OPEN_REQ_FIELDS: [&'static str; 6] = [
    "v",
    "op",
    "path",
    "size",
    "hash",
    "manifest_sig",
];

pub const UPLOAD_CHUNK_REQ_FIELDS: [&'static str; 5] = ["v", "op", "session_id", "offset", "data"];

pub const UPLOAD_COMMIT_REQ_FIELDS: [&'static str; 3] = ["v", "op", "session_id"];

pub const UPLOAD_ABORT_REQ_FIELDS: [&'static str; 3] = ["v", "op", "session_id"];

/// A request. Paths are virtual and `/`-separated; cursors and session identifiers are opaque.
#[derive(Debug, Clone, PartialEq, Eq)]
pub enum VfsRequest {
    /// Lists a directory, from `cursor` on, at most `limit` entries.
    List { path: String, cursor: Option<Vec<u8>>, limit: Option<u32> },
    /// Describes one entry.
    Stat { path: String },
    /// Reads up to `len` bytes of a file from `offset` on.
    Read { path: String, offset: u64, len: u32 },
    /// Makes a directory.
    Mkdir { path: String },
    /// Removes an entry.
    Delete { path: String },
    /// Asks for the name and the paths of the caller.
    Whoami,
    /// Opens, or resumes, the upload of a file with the given size, hash and signed manifest.
    UploadOpen { path: String, size: u64, hash: Vec<u8>, manifest_sig: Vec<u8> },
    /// Appends bytes to an upload; `offset` is the next one that the session expects.
    UploadChunk { session_id: Vec<u8>, offset: u64, data: Vec<u8> },
    /// Moves a complete upload into place.
    UploadCommit { session_id: Vec<u8> },
    /// Discards an upload.
    UploadAbort { session_id: Vec<u8> },
}

/// The contents of a request.
pub enum RequestModel {
    List { path: Seq<char>, cursor: Option<Seq<u8>>, limit: Option<u32> },
    Stat { path: Seq<char> },
    Read { path: Seq<char>, offset: u64, len: u32 },
    Mkdir { path: Seq<char> },
    Delete { path: Seq<char> },
    Whoami,
    UploadOpen { path: Seq<char>, size: u64, hash: Seq<u8>, manifest_sig: Seq<u8> },
    UploadChunk { session_id: Seq<u8>, offset: u64, data: Seq<u8> },
    UploadCommit { session_id: Seq<u8> },
    UploadAbort { session_id: Seq<u8> },
}

impl View for VfsRequest {
    type V = RequestModel;

    open spec fn view(&self) -> RequestModel {
        match *self {
            VfsRequest::List { path, cursor, limit } => RequestModel::List {
                path: path@,
                cursor: reader::opt_bytes(cursor),
                limit: limit,
            },
            VfsRequest::Stat { path } => RequestModel::Stat {
                path: path@,
            },
            VfsRequest::Read { path, offset, len } => RequestModel::Read {
                path: path@,
                offset: offset,
                len: len,
            },
            VfsRequest::Mkdir { path } => RequestModel::Mkdir {
                path: path@,
            },
            VfsRequest::Delete { path } => RequestModel::Delete {
                path: path@,
            },
            VfsRequest::Whoami => RequestModel::Whoami,
            VfsRequest::UploadOpen { path, size, hash, manifest_sig } => RequestModel::UploadOpen {
                path: path@,
                size: size,
                hash: hash@,
                manifest_sig: manifest_sig@,
            },
            VfsRequest::UploadChunk { session_id, offset, data } => RequestModel::UploadChunk {
                session_id: session_id@,
                offset: offset,
                data: data@,
            },
            VfsRequest::UploadCommit { session_id } => RequestModel::UploadCommit {
                session_id: session_id@,
            },
            VfsRequest::UploadAbort { session_id } => RequestModel::UploadAbort {
                session_id: session_id@,
            },
        }
    }
}

/// A request with the protocol version that it is made under.
#[derive(Debug, Clone, PartialEq, Eq)]
pub struct VfsRequestEnvelope {
    pub v: u8,
    pub request: VfsRequest,
}

/// The contents of a versioned request.
pub struct VfsRequestModel {
    pub v: u8,
    pub request: RequestModel,
}

impl View for VfsRequestEnvelope {
    type V = VfsRequestModel;

    open spec fn view(&self) -> VfsRequestModel {
        VfsRequestModel { v: self.v, request: self.request@ }
    }
}

/// The operation in the `op` field.
pub open spec fn op_field(m: Seq<(Item, Item)>) -> Result<ReqOp, Fault> {
    match reader::uint_field(m, "op"@) {
        Err(f) => Err(f),
        Ok(n) => ReqOp::of_code(n),
    }
}

impl RequestModel {
    /// The request of operation `op` that the entries of a map stand for.
    pub open spec fn read(op: ReqOp, m: Seq<(Item, Item)>) -> Result<RequestModel, Fault> {
        match reader::foreign_key(m, op.names()) {
            Some(f) => Err(f),
            None => match op {
                ReqOp::List => {
                    let path = reader::text_field(m, "path"@);
                    let cursor = reader::optional_bytes_field(m, "cursor"@);
                    let limit = reader::optional_u32_field(m, "limit"@);
                    let found = reader::fault(path);
                    let found = reader::first(found, reader::fault(cursor));
                    let found = reader::first(found, reader::fault(limit));
                    reader::unless(
                        found,
                        RequestModel::List {
                            path: path->Ok_0,
                            cursor: cursor->Ok_0,
                            limit: limit->Ok_0,
                        },
                    )
                },
                ReqOp::Stat => {
                    let path = reader::text_field(m, "path"@);
                    let found = reader::fault(path);
                    reader::unless(
                        found,
                        RequestModel::Stat {
                            path: path->Ok_0,
                        },
                    )
                },
                ReqOp::Read => {
                    let path = reader::text_field(m, "path"@);
                    let offset = reader::uint_field(m, "offset"@);
                    let len = reader::u32_field(m, "len"@);
                    let found = reader::fault(path);
                    let found = reader::first(found, reader::fault(offset));
                    let found = reader::first(found, reader::fault(len));
                    reader::unless(
                        found,
                        RequestModel::Read {
                            path: path->Ok_0,
                            offset: offset->Ok_0,
                            len: len->Ok_0,
                        },
                    )
                },
                ReqOp::Mkdir => {
                    let path = reader::text_field(m, "path"@);
                    let found = reader::fault(path);
                    reader::unless(
                        found,
                        RequestModel::Mkdir {
                            path: path->Ok_0,
                        },
                    )
                },
                ReqOp::Delete => {
                    let path = reader::text_field(m, "path"@);
                    let found = reader::fault(path);
                    reader::unless(
                        found,
                        RequestModel::Delete {
                            path: path->Ok_0,
                        },
                    )
                },
                ReqOp::Whoami => Ok(RequestModel::Whoami),
                ReqOp::UploadOpen => {
                    let path = reader::text_field(m, "path"@);
                    let size = reader::uint_field(m, "size"@);
                    let hash = reader::bytes_field(m, "hash"@);
                    let manifest_sig = reader::bytes_field(m, "manifest_sig"@);
                    let found = reader::fault(path);
                    let found = reader::first(found, reader::fault(size));
                    let found = reader::first(found, reader::fault(hash));
                    let found = reader::first(found, reader::fault(manifest_sig));
                    reader::unless(
                        found,
                        RequestModel::UploadOpen {
                            path: path->Ok_0,
                            size: size->Ok_0,
                            hash: hash->Ok_0,
                            manifest_sig: manifest_sig->Ok_0,
                        },
                    )
                },
                ReqOp::UploadChunk => {
                    let session_id = reader::bytes_field(m, "session_id"@);
                    let offset = reader::uint_field(m, "offset"@);
                    let data = reader::bytes_field(m, "data"@);
                    let found = reader::fault(session_id);
                    let found = reader::first(found, reader::fault(offset));
                    let found = reader::first(found, reader::fault(data));
                    reader::unless(
                        found,
                        RequestModel::UploadChunk {
                            session_id: session_id->Ok_0,
                            offset: offset->Ok_0,
                            data: data->Ok_0,
                        },
                    )
                },
                ReqOp::UploadCommit => {
                    let session_id = reader::bytes_field(m, "session_id"@);
                    let found = reader::fault(session_id);
                    reader::unless(
                        found,
                        RequestModel::UploadCommit {
                            session_id: session_id->Ok_0,
                        },
                    )
                },
                ReqOp::UploadAbort => {
                    let session_id = reader::bytes_field(m, "session_id"@);
                    let found = reader::fault(session_id);
                    reader::unless(
                        found,
                        RequestModel::UploadAbort {
                            session_id: session_id->Ok_0,
                        },
                    )
                },
            },
        }
    }
}

impl VfsRequestModel {
    /// The operation.
    pub open spec fn op(self) -> ReqOp {
        match self.request {
            RequestModel::List { .. } => ReqOp::List,
            RequestModel::Stat { .. } => ReqOp::Stat,
            RequestModel::Read { .. } => ReqOp::Read,
            RequestModel::Mkdir { .. } => ReqOp::Mkdir,
            RequestModel::Delete { .. } => ReqOp::Delete,
            RequestModel::Whoami => ReqOp::Whoami,
            RequestModel::UploadOpen { .. } => ReqOp::UploadOpen,
            RequestModel::UploadChunk { .. } => ReqOp::UploadChunk,
            RequestModel::UploadCommit { .. } => ReqOp::UploadCommit,
            RequestModel::UploadAbort { .. } => ReqOp::UploadAbort,
        }
    }

    /// All fields. An optional field that is not there has no entry.
    pub open spec fn fields(self) -> Seq<(Seq<char>, Item)> {
        let v = self.v;
        match self.request {
            RequestModel::List { path, cursor, limit } => {
                let fields = seq![
                    ("v"@, Item::Uint(v as u64)),
                    ("op"@, Item::Uint(ReqOp::List.code())),
                    ("path"@, Item::Text(path)),
                ];
                let fields = match cursor {
                    Some(x) => fields.push(("cursor"@, Item::Bytes(x))),
                    None => fields,
                };
                match limit {
                    Some(x) => fields.push(("limit"@, Item::Uint(x as u64))),
                    None => fields,
                }
            },
            RequestModel::Stat { path } => seq![
                ("v"@, Item::Uint(v as u64)),
                ("op"@, Item::Uint(ReqOp::Stat.code())),
                ("path"@, Item::Text(path)),
            ],
            RequestModel::Read { path, offset, len } => seq![
                ("v"@, Item::Uint(v as u64)),
                ("op"@, Item::Uint(ReqOp::Read.code())),
                ("path"@, Item::Text(path)),
                ("offset"@, Item::Uint(offset)),
                ("len"@, Item::Uint(len as u64)),
            ],
            RequestModel::Mkdir { path } => seq![
                ("v"@, Item::Uint(v as u64)),
                ("op"@, Item::Uint(ReqOp::Mkdir.code())),
                ("path"@, Item::Text(path)),
            ],
            RequestModel::Delete { path } => seq![
                ("v"@, Item::Uint(v as u64)),
                ("op"@, Item::Uint(ReqOp::Delete.code())),
                ("path"@, Item::Text(path)),
            ],
            RequestModel::Whoami => seq![
                ("v"@, Item::Uint(v as u64)),
                ("op"@, Item::Uint(ReqOp::Whoami.code())),
            ],
            RequestModel::UploadOpen { path, size, hash, manifest_sig } => seq![
                ("v"@, Item::Uint(v as u64)),
                ("op"@, Item::Uint(ReqOp::UploadOpen.code())),
                ("path"@, Item::Text(path)),
                ("size"@, Item::Uint(size)),
                ("hash"@, Item::Bytes(hash)),
                ("manifest_sig"@, Item::Bytes(manifest_sig)),
            ],
            RequestModel::UploadChunk { session_id, offset, data } => seq![
                ("v"@, Item::Uint(v as u64)),
                ("op"@, Item::Uint(ReqOp::UploadChunk.code())),
                ("session_id"@, Item::Bytes(session_id)),
                ("offset"@, Item::Uint(offset)),
                ("data"@, Item::Bytes(data)),
            ],
            RequestModel::UploadCommit { session_id } => seq![
                ("v"@, Item::Uint(v as u64)),
                ("op"@, Item::Uint(ReqOp::UploadCommit.code())),
                ("session_id"@, Item::Bytes(session_id)),
            ],
            RequestModel::UploadAbort { session_id } => seq![
                ("v"@, Item::Uint(v as u64)),
                ("op"@, Item::Uint(ReqOp::UploadAbort.code())),
                ("session_id"@, Item::Bytes(session_id)),
            ],
        }
    }

    /// The canonical bytes of the request.
    pub open spec fn bytes(self) -> Seq<u8> {
        item::encoding(item::record(self.fields()))
    }

    /// The request that an item stands for.
    pub open spec fn read(item: Item) -> Result<VfsRequestModel, Fault> {
        match item {
            Item::Mapping(m) => {
                let v = reader::u8_field(m, "v"@);
                let op = op_field(m);
                match reader::first(reader::fault(v), reader::fault(op)) {
                    Some(f) => Err(f),
                    None => match RequestModel::read(op->Ok_0, m) {
                        Err(f) => Err(f),
                        Ok(request) => Ok(VfsRequestModel { v: v->Ok_0, request }),
                    },
                }
            },
            _ => Err(Fault::NotAMap),
        }
    }

    /// The request that canonical bytes stand for.
    pub open spec fn parse(bytes: Seq<u8>) -> Result<VfsRequestModel, Fault> {
        match canonical::decoding(bytes) {
            Err(e) => Err(Fault::Cbor(e)),
            Ok(item) => VfsRequestModel::read(item),
        }
    }
}

proof fn lemma_fields(m: VfsRequestModel)
    ensures
        record::names_distinct(m.fields()),
        record::values_unique(m.fields()),
        record::values_nest(m.fields(), MAX_NESTING_DEPTH - 1),
        record::names_among(m.fields(), m.op().names()),
        m.request matches RequestModel::List { cursor, .. } && cursor is None ==> record::not_named(
            m.fields(),
            "cursor"@,
        ),
        m.request matches RequestModel::List { limit, .. } && limit is None ==> record::not_named(
            m.fields(),
            "limit"@,
        ),
{
    reveal_strlit("v");
    reveal_strlit("op");
    reveal_strlit("path");
    reveal_strlit("cursor");
    reveal_strlit("limit");
    reveal_strlit("offset");
    reveal_strlit("len");
    reveal_strlit("size");
    reveal_strlit("hash");
    reveal_strlit("manifest_sig");
    reveal_strlit("session_id");
    reveal_strlit("data");
    assert("v"@.len() == 1);
    assert("op"@.len() == 2);
    assert("path"@.len() == 4);
    assert("cursor"@.len() == 6);
    assert("limit"@.len() == 5);
    assert("offset"@.len() == 6);
    assert("len"@.len() == 3);
    assert("size"@.len() == 4);
    assert("hash"@.len() == 4);
    assert("manifest_sig"@.len() == 12);
    assert("session_id"@.len() == 10);
    assert("data"@.len() == 4);
    assert("path"@[0] != "size"@[0]);
    assert("path"@[0] != "hash"@[0]);
    assert("size"@[0] != "hash"@[0]);
    let fields = m.fields();
    let listed = m.op().names();
    match m.request {
        RequestModel::List { cursor, limit, .. } => {
            assert(listed[0] == "v"@);
            assert(listed[1] == "op"@);
            assert(listed[2] == "path"@);
            assert(listed[3] == "cursor"@);
            assert(listed[4] == "limit"@);
            assert forall|i: int| 0 <= i < fields.len() implies listed.contains(
                (#[trigger] fields[i]).0,
            ) by {
                assert(fields[i].0 == listed[0] || fields[i].0 == listed[1] || fields[i].0 == listed[2] || fields[i].0 == listed[3] || fields[i].0 == listed[4]);
            }
        },
        RequestModel::Stat { .. } => {
            assert forall|i: int| 0 <= i < fields.len() implies listed.contains(
                (#[trigger] fields[i]).0,
            ) by {
                assert(fields[i].0 == listed[i]);
            }
        },
        RequestModel::Read { .. } => {
            assert forall|i: int| 0 <= i < fields.len() implies listed.contains(
                (#[trigger] fields[i]).0,
            ) by {
                assert(fields[i].0 == listed[i]);
            }
        },
        RequestModel::Mkdir { .. } => {
            assert forall|i: int| 0 <= i < fields.len() implies listed.contains(
                (#[trigger] fields[i]).0,
            ) by {
                assert(fields[i].0 == listed[i]);
            }
        },
        RequestModel::Delete { .. } => {
            assert forall|i: int| 0 <= i < fields.len() implies listed.contains(
                (#[trigger] fields[i]).0,
            ) by {
                assert(fields[i].0 == listed[i]);
            }
        },
        RequestModel::Whoami => {
            assert forall|i: int| 0 <= i < fields.len() implies listed.contains(
                (#[trigger] fields[i]).0,
            ) by {
                assert(fields[i].0 == listed[i]);
            }
        },
        RequestModel::UploadOpen { .. } => {
            assert forall|i: int| 0 <= i < fields.len() implies listed.contains(
                (#[trigger] fields[i]).0,
            ) by {
                assert(fields[i].0 == listed[i]);
            }
        },
        RequestModel::UploadChunk { .. } => {
            assert forall|i: int| 0 <= i < fields.len() implies listed.contains(
                (#[trigger] fields[i]).0,
            ) by {
                assert(fields[i].0 == listed[i]);
            }
        },
        RequestModel::UploadCommit { .. } => {
            assert forall|i: int| 0 <= i < fields.len() implies listed.contains(
                (#[trigger] fields[i]).0,
            ) by {
                assert(fields[i].0 == listed[i]);
            }
        },
        RequestModel::UploadAbort { .. } => {
            assert forall|i: int| 0 <= i < fields.len() implies listed.contains(
                (#[trigger] fields[i]).0,
            ) by {
                assert(fields[i].0 == listed[i]);
            }
        },
    }
}

impl VfsRequestEnvelope {
    pub fn to_cbor(&self) -> (value: CborValue)
        ensures
            value@ == item::record(self@.fields()),
    {
        let v_entry: (&'static str, CborValue) = ("v", CborValue::uint(self.v as u64));
        let entries: Vec<(&'static str, CborValue)> = match &self.request {
            VfsRequest::List { path, cursor, limit } => {
                let mut e = vec![
                    v_entry,
                    ("op", ReqOp::List.to_cbor()),
                    ("path", CborValue::text(path.as_str())),
                ];
                if let Some(x) = cursor {
                    e.push(("cursor", CborValue::bytes(x.as_slice())));
                }
                if let Some(x) = limit {
                    e.push(("limit", CborValue::uint(*x as u64)));
                }
                e
            },
            VfsRequest::Stat { path } => vec![
                v_entry,
                ("op", ReqOp::Stat.to_cbor()),
                ("path", CborValue::text(path.as_str())),
            ],
            VfsRequest::Read { path, offset, len } => vec![
                v_entry,
                ("op", ReqOp::Read.to_cbor()),
                ("path", CborValue::text(path.as_str())),
                ("offset", CborValue::uint(*offset)),
                ("len", CborValue::uint(*len as u64)),
            ],
            VfsRequest::Mkdir { path } => vec![
                v_entry,
                ("op", ReqOp::Mkdir.to_cbor()),
                ("path", CborValue::text(path.as_str())),
            ],
            VfsRequest::Delete { path } => vec![
                v_entry,
                ("op", ReqOp::Delete.to_cbor()),
                ("path", CborValue::text(path.as_str())),
            ],
            VfsRequest::Whoami => vec![v_entry, ("op", ReqOp::Whoami.to_cbor())],
            VfsRequest::UploadOpen { path, size, hash, manifest_sig } => vec![
                v_entry,
                ("op", ReqOp::UploadOpen.to_cbor()),
                ("path", CborValue::text(path.as_str())),
                ("size", CborValue::uint(*size)),
                ("hash", CborValue::bytes(hash.as_slice())),
                ("manifest_sig", CborValue::bytes(manifest_sig.as_slice())),
            ],
            VfsRequest::UploadChunk { session_id, offset, data } => vec![
                v_entry,
                ("op", ReqOp::UploadChunk.to_cbor()),
                ("session_id", CborValue::bytes(session_id.as_slice())),
                ("offset", CborValue::uint(*offset)),
                ("data", CborValue::bytes(data.as_slice())),
            ],
            VfsRequest::UploadCommit { session_id } => vec![
                v_entry,
                ("op", ReqOp::UploadCommit.to_cbor()),
                ("session_id", CborValue::bytes(session_id.as_slice())),
            ],
            VfsRequest::UploadAbort { session_id } => vec![
                v_entry,
                ("op", ReqOp::UploadAbort.to_cbor()),
                ("session_id", CborValue::bytes(session_id.as_slice())),
            ],
        };
        assert(canonical::fields_of(entries@) =~= self@.fields());
        CborValue::map(entries)
    }

    pub fn to_canonical_bytes(&self) -> (bytes: Vec<u8>)
        ensures
            bytes@ == self@.bytes(),
            item::lengths_fit(item::record(self@.fields())),
    {
        proof {
            lemma_fields(self@);
            record::lemma_record_unique(self@.fields());
        }
        canonical_encode(&self.to_cbor())
    }

    /// Reads the request of operation `op`.
    fn read_request(op: ReqOp, m: &MapReader<'_>) -> (r: Result<VfsRequest, ProtoError>)
        ensures
            reader::seen(r) == RequestModel::read(op, m@),
    {
        match op {
            ReqOp::List => {
                m.deny_unknown_fields(LIST_REQ_FIELDS.as_slice())?;
                Ok(
                    VfsRequest::List {
                        path: m.text("path")?,
                        cursor: m.optional_bytes("cursor")?,
                        limit: m.optional_u32("limit")?,
                    },
                )
            },
            ReqOp::Stat => {
                m.deny_unknown_fields(STAT_REQ_FIELDS.as_slice())?;
                Ok(
                    VfsRequest::Stat {
                        path: m.text("path")?,
                    },
                )
            },
            ReqOp::Read => {
                m.deny_unknown_fields(READ_REQ_FIELDS.as_slice())?;
                Ok(
                    VfsRequest::Read {
                        path: m.text("path")?,
                        offset: m.u64("offset")?,
                        len: m.u32("len")?,
                    },
                )
            },
            ReqOp::Mkdir => {
                m.deny_unknown_fields(MKDIR_REQ_FIELDS.as_slice())?;
                Ok(
                    VfsRequest::Mkdir {
                        path: m.text("path")?,
                    },
                )
            },
            ReqOp::Delete => {
                m.deny_unknown_fields(DELETE_REQ_FIELDS.as_slice())?;
                Ok(
                    VfsRequest::Delete {
                        path: m.text("path")?,
                    },
                )
            },
            ReqOp::Whoami => {
                m.deny_unknown_fields(WHOAMI_REQ_FIELDS.as_slice())?;
                Ok(VfsRequest::Whoami)
            },
            ReqOp::UploadOpen => {
                m.deny_unknown_fields(UPLOAD_OPEN_REQ_FIELDS.as_slice())?;
                Ok(
                    VfsRequest::UploadOpen {
                        path: m.text("path")?,
                        size: m.u64("size")?,
                        hash: m.bytes("hash")?,
                        manifest_sig: m.bytes("manifest_sig")?,
                    },
                )
            },
            ReqOp::UploadChunk => {
                m.deny_unknown_fields(UPLOAD_CHUNK_REQ_FIELDS.as_slice())?;
                Ok(
                    VfsRequest::UploadChunk {
                        session_id: m.bytes("session_id")?,
                        offset: m.u64("offset")?,
                        data: m.bytes("data")?,
                    },
                )
            },
            ReqOp::UploadCommit => {
                m.deny_unknown_fields(UPLOAD_COMMIT_REQ_FIELDS.as_slice())?;
                Ok(
                    VfsRequest::UploadCommit {
                        session_id: m.bytes("session_id")?,
                    },
                )
            },
            ReqOp::UploadAbort => {
                m.deny_unknown_fields(UPLOAD_ABORT_REQ_FIELDS.as_slice())?;
                Ok(
                    VfsRequest::UploadAbort {
                        session_id: m.bytes("session_id")?,
                    },
                )
            },
        }
    }

    pub fn from_cbor(v: &CborValue) -> (r: Result<Self, ProtoError>)
        ensures
            reader::seen(r) == VfsRequestModel::read(v@),
    {
        let m = MapReader::new(v)?;
        let ver: u8 = m.u8("v")?;
        let op = ReqOp::from_u64(m.u64("op")?)?;
        let request = Self::read_request(op, &m)?;
        Ok(VfsRequestEnvelope { v: ver, request })
    }

    pub fn from_canonical_bytes(bytes: &[u8]) -> (r: Result<Self, ProtoError>)
        ensures
            reader::seen(r) == VfsRequestModel::parse(bytes@),
    {
        match canonical_decode(bytes) {
            Ok(value) => Self::from_cbor(&value),
            Err(e) => Err(ProtoError::Cbor(e)),
        }
    }
}

/// The record of a request is well formed.
pub proof fn lemma_record_of(m: VfsRequestModel)
    ensures
        item::keys_unique(item::record(m.fields())),
{
    lemma_fields(m);
    record::lemma_record_unique(m.fields());
}

/// A map is read as a request exactly where the reader finds in it what it finds in the record of the
/// request.
spec fn read_alike(m: VfsRequestModel, entries: Seq<(Item, Item)>) -> bool {
    VfsRequestModel::read(Item::Mapping(entries)) == Ok::<VfsRequestModel, Fault>(m)
        <==> record::stands_for(entries, m.fields(), m.op().names())
}

proof fn lemma_read_list(m: VfsRequestModel, entries: Seq<(Item, Item)>)
    requires
        m.request is List,
    ensures
        read_alike(m, entries),
{
    let fields = m.fields();
    let listed = m.op().names();
    lemma_fields(m);
    record::lemma_field_values(fields);
    assert(listed[0] == "v"@);
    assert(listed[1] == "op"@);
    assert(listed[2] == "path"@);
    assert(listed[3] == "cursor"@);
    assert(listed[4] == "limit"@);
    assert(fields[0].0 == "v"@);
    assert(fields[1].0 == "op"@);
    assert(fields[2].0 == "path"@);
    let after = if m.request->cursor is Some {
        assert(fields[3].0 == "cursor"@);
        4int
    } else {
        3int
    };
    if m.request->limit is Some {
        assert(fields[after].0 == "limit"@);
    }
}

proof fn lemma_read_stat(m: VfsRequestModel, entries: Seq<(Item, Item)>)
    requires
        m.request is Stat,
    ensures
        read_alike(m, entries),
{
    let fields = m.fields();
    let listed = m.op().names();
    lemma_fields(m);
    record::lemma_field_values(fields);
    assert(listed[0] == "v"@);
    assert(listed[1] == "op"@);
    assert(listed[2] == "path"@);
    assert(fields[0].0 == "v"@);
    assert(fields[1].0 == "op"@);
    assert(fields[2].0 == "path"@);
}

proof fn lemma_read_read(m: VfsRequestModel, entries: Seq<(Item, Item)>)
    requires
        m.request is Read,
    ensures
        read_alike(m, entries),
{
    let fields = m.fields();
    let listed = m.op().names();
    lemma_fields(m);
    record::lemma_field_values(fields);
    assert(listed[0] == "v"@);
    assert(listed[1] == "op"@);
    assert(listed[2] == "path"@);
    assert(listed[3] == "offset"@);
    assert(listed[4] == "len"@);
    assert(fields[0].0 == "v"@);
    assert(fields[1].0 == "op"@);
    assert(fields[2].0 == "path"@);
    assert(fields[3].0 == "offset"@);
    assert(fields[4].0 == "len"@);
}

proof fn lemma_read_mkdir(m: VfsRequestModel, entries: Seq<(Item, Item)>)
    requires
        m.request is Mkdir,
    ensures
        read_alike(m, entries),
{
    let fields = m.fields();
    let listed = m.op().names();
    lemma_fields(m);
    record::lemma_field_values(fields);
    assert(listed[0] == "v"@);
    assert(listed[1] == "op"@);
    assert(listed[2] == "path"@);
    assert(fields[0].0 == "v"@);
    assert(fields[1].0 == "op"@);
    assert(fields[2].0 == "path"@);
}

proof fn lemma_read_delete(m: VfsRequestModel, entries: Seq<(Item, Item)>)
    requires
        m.request is Delete,
    ensures
        read_alike(m, entries),
{
    let fields = m.fields();
    let listed = m.op().names();
    lemma_fields(m);
    record::lemma_field_values(fields);
    assert(listed[0] == "v"@);
    assert(listed[1] == "op"@);
    assert(listed[2] == "path"@);
    assert(fields[0].0 == "v"@);
    assert(fields[1].0 == "op"@);
    assert(fields[2].0 == "path"@);
}

proof fn lemma_read_whoami(m: VfsRequestModel, entries: Seq<(Item, Item)>)
    requires
        m.request is Whoami,
    ensures
        read_alike(m, entries),
{
    let fields = m.fields();
    let listed = m.op().names();
    lemma_fields(m);
    record::lemma_field_values(fields);
    assert(listed[0] == "v"@);
    assert(listed[1] == "op"@);
    assert(fields[0].0 == "v"@);
    assert(fields[1].0 == "op"@);
}

proof fn lemma_read_upload_open(m: VfsRequestModel, entries: Seq<(Item, Item)>)
    requires
        m.request is UploadOpen,
    ensures
        read_alike(m, entries),
{
    let fields = m.fields();
    let listed = m.op().names();
    lemma_fields(m);
    record::lemma_field_values(fields);
    assert(listed[0] == "v"@);
    assert(listed[1] == "op"@);
    assert(listed[2] == "path"@);
    assert(listed[3] == "size"@);
    assert(listed[4] == "hash"@);
    assert(listed[5] == "manifest_sig"@);
    assert(fields[0].0 == "v"@);
    assert(fields[1].0 == "op"@);
    assert(fields[2].0 == "path"@);
    assert(fields[3].0 == "size"@);
    assert(fields[4].0 == "hash"@);
    assert(fields[5].0 == "manifest_sig"@);
}

proof fn lemma_read_upload_chunk(m: VfsRequestModel, entries: Seq<(Item, Item)>)
    requires
        m.request is UploadChunk,
    ensures
        read_alike(m, entries),
{
    let fields = m.fields();
    let listed = m.op().names();
    lemma_fields(m);
    record::lemma_field_values(fields);
    assert(listed[0] == "v"@);
    assert(listed[1] == "op"@);
    assert(listed[2] == "session_id"@);
    assert(listed[3] == "offset"@);
    assert(listed[4] == "data"@);
    assert(fields[0].0 == "v"@);
    assert(fields[1].0 == "op"@);
    assert(fields[2].0 == "session_id"@);
    assert(fields[3].0 == "offset"@);
    assert(fields[4].0 == "data"@);
}

proof fn lemma_read_upload_commit(m: VfsRequestModel, entries: Seq<(Item, Item)>)
    requires
        m.request is UploadCommit,
    ensures
        read_alike(m, entries),
{
    let fields = m.fields();
    let listed = m.op().names();
    lemma_fields(m);
    record::lemma_field_values(fields);
    assert(listed[0] == "v"@);
    assert(listed[1] == "op"@);
    assert(listed[2] == "session_id"@);
    assert(fields[0].0 == "v"@);
    assert(fields[1].0 == "op"@);
    assert(fields[2].0 == "session_id"@);
}

proof fn lemma_read_upload_abort(m: VfsRequestModel, entries: Seq<(Item, Item)>)
    requires
        m.request is UploadAbort,
    ensures
        read_alike(m, entries),
{
    let fields = m.fields();
    let listed = m.op().names();
    lemma_fields(m);
    record::lemma_field_values(fields);
    assert(listed[0] == "v"@);
    assert(listed[1] == "op"@);
    assert(listed[2] == "session_id"@);
    assert(fields[0].0 == "v"@);
    assert(fields[1].0 == "op"@);
    assert(fields[2].0 == "session_id"@);
}

/// An item without duplicate keys is read as a request exactly where it is the record of the request,
/// up to the order of its entries: nothing is missing, nothing is added, and nothing is replaced.
pub proof fn law_request_values(v: Item, m: VfsRequestModel)
    requires
        item::keys_unique(v),
    ensures
        VfsRequestModel::read(v) == Ok::<VfsRequestModel, Fault>(m) <==> item::same_item(
            v,
            item::record(m.fields()),
        ),
{
    if let Item::Mapping(entries) = v {
        match m.request {
            RequestModel::List { .. } => lemma_read_list(m, entries),
            RequestModel::Stat { .. } => lemma_read_stat(m, entries),
            RequestModel::Read { .. } => lemma_read_read(m, entries),
            RequestModel::Mkdir { .. } => lemma_read_mkdir(m, entries),
            RequestModel::Delete { .. } => lemma_read_delete(m, entries),
            RequestModel::Whoami => lemma_read_whoami(m, entries),
            RequestModel::UploadOpen { .. } => lemma_read_upload_open(m, entries),
            RequestModel::UploadChunk { .. } => lemma_read_upload_chunk(m, entries),
            RequestModel::UploadCommit { .. } => lemma_read_upload_commit(m, entries),
            RequestModel::UploadAbort { .. } => lemma_read_upload_abort(m, entries),
        }
        lemma_fields(m);
        record::lemma_stands_for(entries, m.fields(), m.op().names());
    }
}

/// Parsing the canonical bytes of a request gives the request back.
pub proof fn law_request_round_trip(m: VfsRequestModel)
    requires
        item::lengths_fit(item::record(m.fields())),
    ensures
        VfsRequestModel::parse(m.bytes()) == Ok::<VfsRequestModel, Fault>(m),
{
    let written = item::record(m.fields());
    lemma_fields(m);
    record::lemma_record_unique(m.fields());
    record::lemma_record_nests(m.fields(), MAX_NESTING_DEPTH as int);
    roundtrip::law_decode_of_encode(written);
    roundtrip::law_canonical_form_is_same(written);
    roundtrip::lemma_canonical_form_unique(written);
    law_request_values(item::canonical_form(written), m);
}

/// Bytes that parse as a request are its canonical bytes: it has one encoding only.
pub proof fn law_request_unique_bytes(bytes: Seq<u8>)
    ensures
        VfsRequestModel::parse(bytes) matches Ok(m) ==> m.bytes() == bytes && item::lengths_fit(
            item::record(m.fields()),
        ),
{
    if let Ok(m) = VfsRequestModel::parse(bytes) {
        let read = canonical::decoding(bytes)->Ok_0;
        roundtrip::law_encode_of_decode(bytes);
        law_request_values(read, m);
        lemma_record_of(m);
        roundtrip::law_same_items_same_bytes(read, item::record(m.fields()));
        roundtrip::lemma_same_fits(read, item::record(m.fields()));
    }
}

// ---- the names and numbers on the wire ----

/// What stands on the wire: an item without duplicate keys is read as a request exactly where it is
/// a map with the names of the operation and nothing else, the operation's number under `op`, and
/// under every other name what the request holds there.
pub proof fn law_request_wire(v: Item, e: VfsRequestEnvelope)
    requires
        item::keys_unique(v),
    ensures
        VfsRequestModel::read(v) == Ok::<VfsRequestModel, Fault>(e@) <==> match e.request {
            VfsRequest::List { path, cursor, limit } => {
                &&& record::is_map_of(v, (3 + (if cursor is Some { 1nat } else { 0nat })
                    + (if limit is Some { 1nat } else { 0nat })) as nat)
                &&& record::holds(v, "v"@, Item::Uint(e.v as u64))
                &&& record::holds(v, "op"@, Item::Uint(0))
                &&& record::holds(v, "path"@, Item::Text(path@))
                &&& cursor is Some ==> record::holds(v, "cursor"@, Item::Bytes(cursor->0@))
                &&& limit is Some ==> record::holds(v, "limit"@, Item::Uint(limit->0 as u64))
            },
            VfsRequest::Stat { path } => {
                &&& record::is_map_of(v, 3)
                &&& record::holds(v, "v"@, Item::Uint(e.v as u64))
                &&& record::holds(v, "op"@, Item::Uint(1))
                &&& record::holds(v, "path"@, Item::Text(path@))
            },
            VfsRequest::Read { path, offset, len } => {
                &&& record::is_map_of(v, 5)
                &&& record::holds(v, "v"@, Item::Uint(e.v as u64))
                &&& record::holds(v, "op"@, Item::Uint(2))
                &&& record::holds(v, "path"@, Item::Text(path@))
                &&& record::holds(v, "offset"@, Item::Uint(offset))
                &&& record::holds(v, "len"@, Item::Uint(len as u64))
            },
            VfsRequest::Mkdir { path } => {
                &&& record::is_map_of(v, 3)
                &&& record::holds(v, "v"@, Item::Uint(e.v as u64))
                &&& record::holds(v, "op"@, Item::Uint(3))
                &&& record::holds(v, "path"@, Item::Text(path@))
            },
            VfsRequest::Delete { path } => {
                &&& record::is_map_of(v, 3)
                &&& record::holds(v, "v"@, Item::Uint(e.v as u64))
                &&& record::holds(v, "op"@, Item::Uint(4))
                &&& record::holds(v, "path"@, Item::Text(path@))
            },
            VfsRequest::Whoami => {
                &&& record::is_map_of(v, 2)
                &&& record::holds(v, "v"@, Item::Uint(e.v as u64))
                &&& record::holds(v, "op"@, Item::Uint(5))
            },
            VfsRequest::UploadOpen { path, size, hash, manifest_sig } => {
                &&& record::is_map_of(v, 6)
                &&& record::holds(v, "v"@, Item::Uint(e.v as u64))
                &&& record::holds(v, "op"@, Item::Uint(6))
                &&& record::holds(v, "path"@, Item::Text(path@))
                &&& record::holds(v, "size"@, Item::Uint(size))
                &&& record::holds(v, "hash"@, Item::Bytes(hash@))
                &&& record::holds(v, "manifest_sig"@, Item::Bytes(manifest_sig@))
            },
            VfsRequest::UploadChunk { session_id, offset, data } => {
                &&& record::is_map_of(v, 5)
                &&& record::holds(v, "v"@, Item::Uint(e.v as u64))
                &&& record::holds(v, "op"@, Item::Uint(7))
                &&& record::holds(v, "session_id"@, Item::Bytes(session_id@))
                &&& record::holds(v, "offset"@, Item::Uint(offset))
                &&& record::holds(v, "data"@, Item::Bytes(data@))
            },
            VfsRequest::UploadCommit { session_id } => {
                &&& record::is_map_of(v, 3)
                &&& record::holds(v, "v"@, Item::Uint(e.v as u64))
                &&& record::holds(v, "op"@, Item::Uint(8))
                &&& record::holds(v, "session_id"@, Item::Bytes(session_id@))
            },
            VfsRequest::UploadAbort { session_id } => {
                &&& record::is_map_of(v, 3)
                &&& record::holds(v, "v"@, Item::Uint(e.v as u64))
                &&& record::holds(v, "op"@, Item::Uint(9))
                &&& record::holds(v, "session_id"@, Item::Bytes(session_id@))
            },
        },
        e@.bytes() == item::encoding(item::record(e@.fields())),
{
    let fields = e@.fields();
    law_request_values(v, e@);
    lemma_fields(e@);
    record::lemma_holds_all(v, fields);
    match e.request {
        VfsRequest::List { path, cursor, limit } => {
            assert(fields[0] == ("v"@, Item::Uint(e.v as u64)));
            assert(fields[1] == ("op"@, Item::Uint(0)));
            assert(fields[2] == ("path"@, Item::Text(path@)));
            if cursor is Some {
                assert(fields[3] == ("cursor"@, Item::Bytes(cursor->0@)));
            }
            if limit is Some {
                assert(fields[fields.len() - 1] == ("limit"@, Item::Uint(limit->0 as u64)));
            }
        },
        VfsRequest::Stat { path } => {
            assert(fields[0] == ("v"@, Item::Uint(e.v as u64)));
            assert(fields[1] == ("op"@, Item::Uint(1)));
            assert(fields[2] == ("path"@, Item::Text(path@)));
        },
        VfsRequest::Read { path, offset, len } => {
            assert(fields[0] == ("v"@, Item::Uint(e.v as u64)));
            assert(fields[1] == ("op"@, Item::Uint(2)));
            assert(fields[2] == ("path"@, Item::Text(path@)));
            assert(fields[3] == ("offset"@, Item::Uint(offset)));
            assert(fields[4] == ("len"@, Item::Uint(len as u64)));
        },
        VfsRequest::Mkdir { path } => {
            assert(fields[0] == ("v"@, Item::Uint(e.v as u64)));
            assert(fields[1] == ("op"@, Item::Uint(3)));
            assert(fields[2] == ("path"@, Item::Text(path@)));
        },
        VfsRequest::Delete { path } => {
            assert(fields[0] == ("v"@, Item::Uint(e.v as u64)));
            assert(fields[1] == ("op"@, Item::Uint(4)));
            assert(fields[2] == ("path"@, Item::Text(path@)));
        },
        VfsRequest::Whoami => {
            assert(fields[0] == ("v"@, Item::Uint(e.v as u64)));
            assert(fields[1] == ("op"@, Item::Uint(5)));
        },
        VfsRequest::UploadOpen { path, size, hash, manifest_sig } => {
            assert(fields[0] == ("v"@, Item::Uint(e.v as u64)));
            assert(fields[1] == ("op"@, Item::Uint(6)));
            assert(fields[2] == ("path"@, Item::Text(path@)));
            assert(fields[3] == ("size"@, Item::Uint(size)));
            assert(fields[4] == ("hash"@, Item::Bytes(hash@)));
            assert(fields[5] == ("manifest_sig"@, Item::Bytes(manifest_sig@)));
        },
        VfsRequest::UploadChunk { session_id, offset, data } => {
            assert(fields[0] == ("v"@, Item::Uint(e.v as u64)));
            assert(fields[1] == ("op"@, Item::Uint(7)));
            assert(fields[2] == ("session_id"@, Item::Bytes(session_id@)));
            assert(fields[3] == ("offset"@, Item::Uint(offset)));
            assert(fields[4] == ("data"@, Item::Bytes(data@)));
        },
        VfsRequest::UploadCommit { session_id } => {
            assert(fields[0] == ("v"@, Item::Uint(e.v as u64)));
            assert(fields[1] == ("op"@, Item::Uint(8)));
            assert(fields[2] == ("session_id"@, Item::Bytes(session_id@)));
        },
        VfsRequest::UploadAbort { session_id } => {
            assert(fields[0] == ("v"@, Item::Uint(e.v as u64)));
            assert(fields[1] == ("op"@, Item::Uint(9)));
            assert(fields[2] == ("session_id"@, Item::Bytes(session_id@)));
        },
    }
}

/// The numbers of the operations, and that there are no others.
pub proof fn law_operation_numbers(v: u64)
    ensures
        ReqOp::List.code() == 0,
        ReqOp::of_code(0) == Ok::<ReqOp, Fault>(ReqOp::List),
        ReqOp::Stat.code() == 1,
        ReqOp::of_code(1) == Ok::<ReqOp, Fault>(ReqOp::Stat),
        ReqOp::Read.code() == 2,
        ReqOp::of_code(2) == Ok::<ReqOp, Fault>(ReqOp::Read),
        ReqOp::Mkdir.code() == 3,
        ReqOp::of_code(3) == Ok::<ReqOp, Fault>(ReqOp::Mkdir),
        ReqOp::Delete.code() == 4,
        ReqOp::of_code(4) == Ok::<ReqOp, Fault>(ReqOp::Delete),
        ReqOp::Whoami.code() == 5,
        ReqOp::of_code(5) == Ok::<ReqOp, Fault>(ReqOp::Whoami),
        ReqOp::UploadOpen.code() == 6,
        ReqOp::of_code(6) == Ok::<ReqOp, Fault>(ReqOp::UploadOpen),
        ReqOp::UploadChunk.code() == 7,
        ReqOp::of_code(7) == Ok::<ReqOp, Fault>(ReqOp::UploadChunk),
        ReqOp::UploadCommit.code() == 8,
        ReqOp::of_code(8) == Ok::<ReqOp, Fault>(ReqOp::UploadCommit),
        ReqOp::UploadAbort.code() == 9,
        ReqOp::of_code(9) == Ok::<ReqOp, Fault>(ReqOp::UploadAbort),
        v >= 10 ==> ReqOp::of_code(v) == Err::<ReqOp, Fault>(
            Fault::InvalidEnumValue("op"@, v),
        ),
{
}

/// The fields of every operation are looked at in this order, once no foreign name is there, and
/// the first that is missing or wrong is the one that is named.
pub proof fn law_request_first_fault(op: ReqOp, entries: Seq<(Item, Item)>)
    ensures
        ({
            let r = RequestModel::read(op, entries);
            if let Some(g) = reader::foreign_key(entries, op.names()) {
                r matches Err(f) && f == g
            } else {
                match op {
                    ReqOp::List => if reader::text_field(entries, "path"@) is Err {
                        r matches Err(f) && f == reader::text_field(entries, "path"@)->Err_0
                    } else if reader::optional_bytes_field(entries, "cursor"@) is Err {
                        r matches Err(f) && f == reader::optional_bytes_field(entries,
                            "cursor"@)->Err_0
                    } else if reader::optional_u32_field(entries, "limit"@) is Err {
                        r matches Err(f) && f == reader::optional_u32_field(entries,
                            "limit"@)->Err_0
                    } else {
                        r is Ok
                    },
                    ReqOp::Stat => if reader::text_field(entries, "path"@) is Err {
                        r matches Err(f) && f == reader::text_field(entries, "path"@)->Err_0
                    } else {
                        r is Ok
                    },
                    ReqOp::Read => if reader::text_field(entries, "path"@) is Err {
                        r matches Err(f) && f == reader::text_field(entries, "path"@)->Err_0
                    } else if reader::uint_field(entries, "offset"@) is Err {
                        r matches Err(f) && f == reader::uint_field(entries, "offset"@)->Err_0
                    } else if reader::u32_field(entries, "len"@) is Err {
                        r matches Err(f) && f == reader::u32_field(entries, "len"@)->Err_0
                    } else {
                        r is Ok
                    },
                    ReqOp::Mkdir => if reader::text_field(entries, "path"@) is Err {
                        r matches Err(f) && f == reader::text_field(entries, "path"@)->Err_0
                    } else {
                        r is Ok
                    },
                    ReqOp::Delete => if reader::text_field(entries, "path"@) is Err {
                        r matches Err(f) && f == reader::text_field(entries, "path"@)->Err_0
                    } else {
                        r is Ok
                    },
                    ReqOp::Whoami => r is Ok,
                    ReqOp::UploadOpen => if reader::text_field(entries, "path"@) is Err {
                        r matches Err(f) && f == reader::text_field(entries, "path"@)->Err_0
                    } else if reader::uint_field(entries, "size"@) is Err {
                        r matches Err(f) && f == reader::uint_field(entries, "size"@)->Err_0
                    } else if reader::bytes_field(entries, "hash"@) is Err {
                        r matches Err(f) && f == reader::bytes_field(entries, "hash"@)->Err_0
                    } else if reader::bytes_field(entries, "manifest_sig"@) is Err {
                        r matches Err(f) && f == reader::bytes_field(entries,
                            "manifest_sig"@)->Err_0
                    } else {
                        r is Ok
                    },
                    ReqOp::UploadChunk => if reader::bytes_field(entries, "session_id"@) is Err {
                        r matches Err(f) && f == reader::bytes_field(entries, "session_id"@)->Err_0
                    } else if reader::uint_field(entries, "offset"@) is Err {
                        r matches Err(f) && f == reader::uint_field(entries, "offset"@)->Err_0
                    } else if reader::bytes_field(entries, "data"@) is Err {
                        r matches Err(f) && f == reader::bytes_field(entries, "data"@)->Err_0
                    } else {
                        r is Ok
                    },
                    ReqOp::UploadCommit => if reader::bytes_field(entries, "session_id"@) is Err {
                        r matches Err(f) && f == reader::bytes_field(entries, "session_id"@)->Err_0
                    } else {
                        r is Ok
                    },
                    ReqOp::UploadAbort => if reader::bytes_field(entries, "session_id"@) is Err {
                        r matches Err(f) && f == reader::bytes_field(entries, "session_id"@)->Err_0
                    } else {
                        r is Ok
                    },
                }
            }
        }),
{
}

} // verus!
