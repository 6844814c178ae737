//! Vectors of the VFS RPC messages. They are not signed, so there is no tag and no signing input.
use crate::proto::canonical::{canonical_encode, CborValue};
use crate::proto::item;
use crate::proto::item::Item;
use crate::proto::record;
use crate::proto::vfs_rpc::dir_entry;
use crate::proto::vfs_rpc::dir_entry::{DirEntry, DirEntryModel, EntryKind};
use crate::proto::vfs_rpc::perms::VfsPerms;
use crate::proto::vfs_rpc::reply;
use crate::proto::vfs_rpc::reply::{ReplyModel, VfsErrorCode, VfsReply};
use crate::proto::vfs_rpc::request;
use crate::proto::vfs_rpc::request::{
    RequestModel, VfsRequest, VfsRequestEnvelope, VfsRequestModel,
};
use crate::vectors::cases;
use crate::vectors::cases::rep;
use crate::vectors::json;
use crate::vectors::json::{Json, JsonItem};
use crate::vectors::mirror::cbor_to_json;
use vstd::prelude::*;

verus! {

/// What the file is about.
pub const ABOUT: &'static str = "VFS RPC wire types (DESIGN.md §A8), Stage 6 slice 3: request/reply CBOR shapes for list/stat/read/mkdir/delete/whoami and the typed error-code model. Not A7b signed artifacts — no domain tag, no signing input.";

/// Name and description of the case.
pub const LIST_ROOT_NO_CURSOR: [&'static str; 2] = [
    "list_root_no_cursor",
    "`list` at the share-root-relative virtual path \"Photos\", first page (no cursor, server-default limit).",
];

/// Name and description of the case.
pub const LIST_WITH_CURSOR_AND_LIMIT: [&'static str; 2] = [
    "list_with_cursor_and_limit",
    "`list` continuing from an opaque cursor, with an explicit page-size limit.",
];

/// Name and description of the case.
pub const STAT: [&'static str; 2] = [
    "stat",
    "`stat` a single virtual path.",
];

/// Name and description of the case.
pub const READ_ONE_CHUNK: [&'static str; 2] = [
    "read_one_chunk",
    "`read` one 64 KiB chunk starting at offset 65536 (DESIGN.md §A8 max chunk size).",
];

/// Name and description of the case.
pub const MKDIR: [&'static str; 2] = [
    "mkdir",
    "`mkdir` a new virtual directory.",
];

/// Name and description of the case.
pub const DELETE: [&'static str; 2] = [
    "delete",
    "`delete` a virtual path.",
];

/// Name and description of the case.
pub const WHOAMI: [&'static str; 2] = [
    "whoami",
    "`whoami` — no fields beyond the shared `v`/`op` envelope.",
];

/// Name and description of the case.
pub const LIST_REPLY_ONE_ENTRY_MORE_PAGES: [&'static str; 2] = [
    "list_reply_one_entry_more_pages",
    "`list` reply with one directory entry and a continuation cursor.",
];

/// Name and description of the case.
pub const LIST_REPLY_EMPTY_LAST_PAGE: [&'static str; 2] = [
    "list_reply_empty_last_page",
    "`list` reply with zero entries and no continuation cursor (end of listing) — also exercises the empty-array canonical encoding edge case for this schema.",
];

/// Name and description of the case.
pub const STAT_REPLY_FILE: [&'static str; 2] = [
    "stat_reply_file",
    "`stat` reply for a regular file with browse+download granted here.",
];

/// Name and description of the case.
pub const READ_REPLY_PARTIAL_CHUNK: [&'static str; 2] = [
    "read_reply_partial_chunk",
    "`read` reply carrying one chunk of file data, more remaining (`eof: false`).",
];

/// Name and description of the case.
pub const READ_REPLY_FINAL_CHUNK: [&'static str; 2] = [
    "read_reply_final_chunk",
    "`read` reply carrying the last chunk of a file (`eof: true`), including the zero-length-at-exact-boundary case.",
];

/// Name and description of the case.
pub const MKDIR_REPLY: [&'static str; 2] = [
    "mkdir_reply",
    "`mkdir` success acknowledgement.",
];

/// Name and description of the case.
pub const DELETE_REPLY: [&'static str; 2] = [
    "delete_reply",
    "`delete` success acknowledgement.",
];

/// Name and description of the case.
pub const WHOAMI_REPLY: [&'static str; 2] = [
    "whoami_reply",
    "`whoami` reply — trimmed per DESIGN.md §A4b/A12 #32: display name and effective paths only, no group names.",
];

/// Name and description of the case.
pub const ERROR_REPLY: [&'static str; 2] = [
    "error_reply",
    "One of the eight typed VFS error codes (DESIGN.md §A8's seven, plus this crate's UnsupportedVersion addition — see `spindle_proto::vfs_rpc`'s schema-choices table).",
];

/// One case: the message spelled out, and its canonical bytes.
pub open spec fn message_case(labels: Seq<&str>, message: Item) -> JsonItem {
    cases::unsigned_case(labels, "decoded"@, message, item::encoding(message))
}

fn vfs_rpc_case(labels: [&'static str; 2], cbor: CborValue) -> (r: Json)
    requires
        item::keys_unique(cbor@),
    ensures
        r@ == message_case(labels@, cbor@),
{
    let bytes = canonical_encode(&cbor);
    let members: Vec<(&'static str, Json)> = vec![
        ("name", Json::text(labels[0])),
        ("description", Json::text(labels[1])),
        ("decoded", cbor_to_json(&cbor)),
        ("canonical_cbor_hex", Json::hex(bytes.as_slice())),
    ];
    assert(json::members_of(members@) =~= message_case(labels@, cbor@)->Obj_0);
    Json::object(members)
}

// ---- requests ----

/// One case of a request.
pub open spec fn request_case(labels: Seq<&str>, m: VfsRequestModel) -> JsonItem {
    message_case(labels, item::record(m.fields()))
}

fn request_json(labels: [&'static str; 2], request: VfsRequest) -> (r: Json)
    ensures
        r@ == request_case(labels@, VfsRequestModel { v: 1, request: request@ }),
{
    let envelope = VfsRequestEnvelope { v: 1, request };
    proof {
        request::lemma_record_of(envelope@);
    }
    vfs_rpc_case(labels, envelope.to_cbor())
}

/// The cases of requests.
pub open spec fn request_cases() -> Seq<JsonItem> {
    seq![
        request_case(
            LIST_ROOT_NO_CURSOR@,
            VfsRequestModel { v: 1, request: RequestModel::List { path: "Photos"@, cursor: None, limit: None } },
        ),
        request_case(
            LIST_WITH_CURSOR_AND_LIMIT@,
            VfsRequestModel { v: 1, request: RequestModel::List { path: "Photos"@, cursor: Some(cases::repeated(0x01, 4)), limit: Some(50) } },
        ),
        request_case(
            STAT@,
            VfsRequestModel { v: 1, request: RequestModel::Stat { path: "Photos/Vacation/img.jpg"@ } },
        ),
        request_case(
            READ_ONE_CHUNK@,
            VfsRequestModel { v: 1, request: RequestModel::Read { path: "Photos/Vacation/img.jpg"@, offset: 65536, len: 65536 } },
        ),
        request_case(
            MKDIR@,
            VfsRequestModel { v: 1, request: RequestModel::Mkdir { path: "Photos/NewAlbum"@ } },
        ),
        request_case(
            DELETE@,
            VfsRequestModel { v: 1, request: RequestModel::Delete { path: "Photos/old.jpg"@ } },
        ),
        request_case(
            WHOAMI@,
            VfsRequestModel { v: 1, request: RequestModel::Whoami },
        ),
    ]
}

fn request_list() -> (listed: Vec<Json>)
    ensures
        json::values_of(listed@) == request_cases(),
{
    let listed: Vec<Json> = vec![
        request_json(LIST_ROOT_NO_CURSOR, VfsRequest::List { path: String::from_str("Photos"), cursor: None, limit: None }),
        request_json(LIST_WITH_CURSOR_AND_LIMIT, VfsRequest::List { path: String::from_str("Photos"), cursor: Some(rep(0x01, 4)), limit: Some(50) }),
        request_json(STAT, VfsRequest::Stat { path: String::from_str("Photos/Vacation/img.jpg") }),
        request_json(READ_ONE_CHUNK, VfsRequest::Read { path: String::from_str("Photos/Vacation/img.jpg"), offset: 65536, len: 65536 }),
        request_json(MKDIR, VfsRequest::Mkdir { path: String::from_str("Photos/NewAlbum") }),
        request_json(DELETE, VfsRequest::Delete { path: String::from_str("Photos/old.jpg") }),
        request_json(WHOAMI, VfsRequest::Whoami),
    ];
    assert(json::values_of(listed@) =~= request_cases());
    listed
}

// ---- replies ----

/// One case of a reply.
pub open spec fn reply_case(labels: Seq<&str>, m: ReplyModel) -> JsonItem {
    message_case(labels, item::record(m.fields()))
}

fn reply_json(labels: [&'static str; 2], reply: VfsReply) -> (r: Json)
    ensures
        r@ == reply_case(labels@, reply@),
{
    proof {
        reply::lemma_record_of(reply@);
    }
    vfs_rpc_case(labels, reply.to_cbor())
}

/// The entry of the case with one entry.
pub open spec fn vacation() -> DirEntryModel {
    DirEntryModel {
        name: "Vacation"@,
        kind: EntryKind::Dir,
        size: 0,
        mtime: 1_755_907_200,
        perms_here: 1,
    }
}

fn make_vacation() -> (entry: DirEntry)
    ensures
        entry@ == vacation(),
{
    DirEntry {
        name: String::from_str("Vacation"),
        kind: EntryKind::Dir,
        size: 0,
        mtime: 1_755_907_200,
        perms_here: VfsPerms::browse(),
    }
}

/// The reply of the case.
pub open spec fn list_reply_one_entry_more_pages() -> ReplyModel {
    ReplyModel::List { entries: seq![vacation()], next_cursor: Some(cases::repeated(0x02, 4)) }
}

fn make_list_reply_one_entry_more_pages() -> (made: VfsReply)
    ensures
        made@ == list_reply_one_entry_more_pages(),
{
    let made = VfsReply::List { entries: vec![make_vacation()], next_cursor: Some(rep(0x02, 4)) };
    assert(made@->entries =~= seq![vacation()]);
    made
}

/// The reply of the case.
pub open spec fn list_reply_empty_last_page() -> ReplyModel {
    ReplyModel::List { entries: Seq::empty(), next_cursor: None }
}

fn make_list_reply_empty_last_page() -> (made: VfsReply)
    ensures
        made@ == list_reply_empty_last_page(),
{
    let made = VfsReply::List { entries: Vec::new(), next_cursor: None };
    assert(made@->entries =~= Seq::<DirEntryModel>::empty());
    made
}

/// The reply of the case.
pub open spec fn stat_reply_file() -> ReplyModel {
    ReplyModel::Stat { kind: EntryKind::File, size: 4_194_304, mtime: 1_755_907_200, perms_here: 1u8 | 2u8 }
}

fn make_stat_reply_file() -> (made: VfsReply)
    ensures
        made@ == stat_reply_file(),
{
    let made = VfsReply::Stat { kind: EntryKind::File, size: 4_194_304, mtime: 1_755_907_200, perms_here: VfsPerms::browse().union(VfsPerms::download()) };
    made
}

/// The reply of the case.
pub open spec fn read_reply_partial_chunk() -> ReplyModel {
    ReplyModel::Read { data: cases::repeated(0xab, 128), eof: false }
}

fn make_read_reply_partial_chunk() -> (made: VfsReply)
    ensures
        made@ == read_reply_partial_chunk(),
{
    let made = VfsReply::Read { data: rep(0xab, 128), eof: false };
    made
}

/// The reply of the case.
pub open spec fn read_reply_final_chunk() -> ReplyModel {
    ReplyModel::Read { data: Seq::empty(), eof: true }
}

fn make_read_reply_final_chunk() -> (made: VfsReply)
    ensures
        made@ == read_reply_final_chunk(),
{
    let made = VfsReply::Read { data: Vec::new(), eof: true };
    assert(made@->data =~= Seq::<u8>::empty());
    made
}

/// The reply of the case.
pub open spec fn mkdir_reply() -> ReplyModel {
    ReplyModel::Mkdir
}

fn make_mkdir_reply() -> (made: VfsReply)
    ensures
        made@ == mkdir_reply(),
{
    let made = VfsReply::Mkdir;
    made
}

/// The reply of the case.
pub open spec fn delete_reply() -> ReplyModel {
    ReplyModel::Delete
}

fn make_delete_reply() -> (made: VfsReply)
    ensures
        made@ == delete_reply(),
{
    let made = VfsReply::Delete;
    made
}

/// The reply of the case.
pub open spec fn whoami_reply() -> ReplyModel {
    ReplyModel::Whoami { member_display: "Alex"@, effective_paths: seq!["Photos/Vacation"@, "Drop"@] }
}

fn make_whoami_reply() -> (made: VfsReply)
    ensures
        made@ == whoami_reply(),
{
    let made = VfsReply::Whoami { member_display: String::from_str("Alex"), effective_paths: vec![String::from_str("Photos/Vacation"), String::from_str("Drop")] };
    assert(made@->effective_paths =~= seq!["Photos/Vacation"@, "Drop"@]);
    made
}

/// The codes that have a case.
pub open spec fn shown_codes() -> Seq<VfsErrorCode> {
    seq![
        VfsErrorCode::NotFound,
        VfsErrorCode::QuotaExceeded,
        VfsErrorCode::GrantsChanged,
        VfsErrorCode::ResumeExpired,
        VfsErrorCode::UploadRejected,
        VfsErrorCode::StorageFull,
        VfsErrorCode::Throttled,
        VfsErrorCode::UnsupportedVersion,
    ]
}

/// The cases of error replies.
pub open spec fn error_cases() -> Seq<JsonItem> {
    Seq::new(
        shown_codes().len(),
        |i: int| reply_case(ERROR_REPLY@, ReplyModel::Error { code: shown_codes()[i] }),
    )
}

/// The cases of replies.
pub open spec fn reply_cases() -> Seq<JsonItem> {
    seq![
        reply_case(LIST_REPLY_ONE_ENTRY_MORE_PAGES@, list_reply_one_entry_more_pages()),
        reply_case(LIST_REPLY_EMPTY_LAST_PAGE@, list_reply_empty_last_page()),
        reply_case(STAT_REPLY_FILE@, stat_reply_file()),
        reply_case(READ_REPLY_PARTIAL_CHUNK@, read_reply_partial_chunk()),
        reply_case(READ_REPLY_FINAL_CHUNK@, read_reply_final_chunk()),
        reply_case(MKDIR_REPLY@, mkdir_reply()),
        reply_case(DELETE_REPLY@, delete_reply()),
        reply_case(WHOAMI_REPLY@, whoami_reply()),
    ] + error_cases()
}

fn reply_list() -> (listed: Vec<Json>)
    ensures
        json::values_of(listed@) == reply_cases(),
{
    let mut listed: Vec<Json> = vec![
        reply_json(LIST_REPLY_ONE_ENTRY_MORE_PAGES, make_list_reply_one_entry_more_pages()),
        reply_json(LIST_REPLY_EMPTY_LAST_PAGE, make_list_reply_empty_last_page()),
        reply_json(STAT_REPLY_FILE, make_stat_reply_file()),
        reply_json(READ_REPLY_PARTIAL_CHUNK, make_read_reply_partial_chunk()),
        reply_json(READ_REPLY_FINAL_CHUNK, make_read_reply_final_chunk()),
        reply_json(MKDIR_REPLY, make_mkdir_reply()),
        reply_json(DELETE_REPLY, make_delete_reply()),
        reply_json(WHOAMI_REPLY, make_whoami_reply()),
    ];
    let ghost head = json::values_of(listed@);
    assert(head =~= reply_cases().take(8));
    let codes: Vec<VfsErrorCode> = vec![
        VfsErrorCode::NotFound,
        VfsErrorCode::QuotaExceeded,
        VfsErrorCode::GrantsChanged,
        VfsErrorCode::ResumeExpired,
        VfsErrorCode::UploadRejected,
        VfsErrorCode::StorageFull,
        VfsErrorCode::Throttled,
        VfsErrorCode::UnsupportedVersion,
    ];
    assert(codes@ =~= shown_codes());
    let total: usize = codes.len();
    let mut i: usize = 0;
    assert(json::values_of(listed@) =~= head + error_cases().take(0));
    while i < total
        invariant
            i <= total == codes@.len(),
            codes@ == shown_codes(),
            json::values_of(listed@) == head + error_cases().take(i as int),
        decreases total - i,
    {
        let ghost before = json::values_of(listed@);
        let one = reply_json(ERROR_REPLY, VfsReply::Error { code: codes[i] });
        listed.push(one);
        assert(json::values_of(listed@) =~= before.push(one@));
        assert(one@ == error_cases()[i as int]);
        i += 1;
        assert(json::values_of(listed@) =~= head + error_cases().take(i as int));
    }
    assert(error_cases().take(total as int) =~= error_cases());
    assert(json::values_of(listed@) =~= reply_cases());
    listed
}

/// The file.
pub open spec fn message_file() -> JsonItem {
    JsonItem::Obj(
        seq![
            ("description"@, JsonItem::Str(ABOUT@)),
            ("requests"@, JsonItem::Arr(request_cases())),
            ("replies"@, JsonItem::Arr(reply_cases())),
        ],
    )
}

/// The vectors of the VFS RPC messages.
pub fn vfs_rpc_vectors() -> (r: Json)
    ensures
        r@ == message_file(),
{
    let members: Vec<(&'static str, Json)> = vec![
        ("description", Json::text(ABOUT)),
        ("requests", Json::array(request_list())),
        ("replies", Json::array(reply_list())),
    ];
    assert(json::members_of(members@) =~= message_file()->Obj_0);
    Json::object(members)
}

// ---- what the cases show ----

/// The cases of requests, by name and contents.
pub proof fn law_request_cases_show()
    ensures
        request_cases().len() == 7,
        cases::shows(
            request_cases()[0],
            "list_root_no_cursor"@,
            "decoded"@,
            item::record(
                seq![
                    ("v"@, Item::Uint(1)),
                    ("op"@, Item::Uint(0)),
                    ("path"@, Item::Text("Photos"@)),
                ],
            ),
        ),
        cases::shows(
            request_cases()[1],
            "list_with_cursor_and_limit"@,
            "decoded"@,
            item::record(
                seq![
                    ("v"@, Item::Uint(1)),
                    ("op"@, Item::Uint(0)),
                    ("path"@, Item::Text("Photos"@)),
                    ("cursor"@, Item::Bytes(cases::repeated(0x01, 4))),
                    ("limit"@, Item::Uint(50)),
                ],
            ),
        ),
        cases::shows(
            request_cases()[2],
            "stat"@,
            "decoded"@,
            item::record(
                seq![
                    ("v"@, Item::Uint(1)),
                    ("op"@, Item::Uint(1)),
                    ("path"@, Item::Text("Photos/Vacation/img.jpg"@)),
                ],
            ),
        ),
        cases::shows(
            request_cases()[3],
            "read_one_chunk"@,
            "decoded"@,
            item::record(
                seq![
                    ("v"@, Item::Uint(1)),
                    ("op"@, Item::Uint(2)),
                    ("path"@, Item::Text("Photos/Vacation/img.jpg"@)),
                    ("offset"@, Item::Uint(65536)),
                    ("len"@, Item::Uint(65536)),
                ],
            ),
        ),
        cases::shows(
            request_cases()[4],
            "mkdir"@,
            "decoded"@,
            item::record(
                seq![
                    ("v"@, Item::Uint(1)),
                    ("op"@, Item::Uint(3)),
                    ("path"@, Item::Text("Photos/NewAlbum"@)),
                ],
            ),
        ),
        cases::shows(
            request_cases()[5],
            "delete"@,
            "decoded"@,
            item::record(
                seq![
                    ("v"@, Item::Uint(1)),
                    ("op"@, Item::Uint(4)),
                    ("path"@, Item::Text("Photos/old.jpg"@)),
                ],
            ),
        ),
        cases::shows(
            request_cases()[6],
            "whoami"@,
            "decoded"@,
            item::record(
                seq![
                    ("v"@, Item::Uint(1)),
                    ("op"@, Item::Uint(5)),
                ],
            ),
        ),
{
    let fields = seq![
        ("v"@, Item::Uint(1)),
        ("op"@, Item::Uint(0)),
        ("path"@, Item::Text("Photos"@)),
    ];
    assert((VfsRequestModel { v: 1, request: RequestModel::List { path: "Photos"@, cursor: None,
        limit: None } }).fields() =~= fields);
    cases::law_unsigned_case_shows(LIST_ROOT_NO_CURSOR@, "decoded"@, item::record(fields));
    let fields = seq![
        ("v"@, Item::Uint(1)),
        ("op"@, Item::Uint(0)),
        ("path"@, Item::Text("Photos"@)),
        ("cursor"@, Item::Bytes(cases::repeated(0x01, 4))),
        ("limit"@, Item::Uint(50)),
    ];
    assert((VfsRequestModel { v: 1, request: RequestModel::List { path: "Photos"@,
        cursor: Some(cases::repeated(0x01, 4)), limit: Some(50) } }).fields() =~= fields);
    cases::law_unsigned_case_shows(LIST_WITH_CURSOR_AND_LIMIT@, "decoded"@, item::record(fields));
    let fields = seq![
        ("v"@, Item::Uint(1)),
        ("op"@, Item::Uint(1)),
        ("path"@, Item::Text("Photos/Vacation/img.jpg"@)),
    ];
    assert((VfsRequestModel { v: 1,
        request: RequestModel::Stat { path: "Photos/Vacation/img.jpg"@ } }).fields() =~= fields);
    cases::law_unsigned_case_shows(STAT@, "decoded"@, item::record(fields));
    let fields = seq![
        ("v"@, Item::Uint(1)),
        ("op"@, Item::Uint(2)),
        ("path"@, Item::Text("Photos/Vacation/img.jpg"@)),
        ("offset"@, Item::Uint(65536)),
        ("len"@, Item::Uint(65536)),
    ];
    assert((VfsRequestModel { v: 1, request: RequestModel::Read { path: "Photos/Vacation/img.jpg"@,
        offset: 65536, len: 65536 } }).fields() =~= fields);
    cases::law_unsigned_case_shows(READ_ONE_CHUNK@, "decoded"@, item::record(fields));
    let fields = seq![
        ("v"@, Item::Uint(1)),
        ("op"@, Item::Uint(3)),
        ("path"@, Item::Text("Photos/NewAlbum"@)),
    ];
    assert((VfsRequestModel { v: 1,
        request: RequestModel::Mkdir { path: "Photos/NewAlbum"@ } }).fields() =~= fields);
    cases::law_unsigned_case_shows(MKDIR@, "decoded"@, item::record(fields));
    let fields = seq![
        ("v"@, Item::Uint(1)),
        ("op"@, Item::Uint(4)),
        ("path"@, Item::Text("Photos/old.jpg"@)),
    ];
    assert((VfsRequestModel { v: 1,
        request: RequestModel::Delete { path: "Photos/old.jpg"@ } }).fields() =~= fields);
    cases::law_unsigned_case_shows(DELETE@, "decoded"@, item::record(fields));
    let fields = seq![
        ("v"@, Item::Uint(1)),
        ("op"@, Item::Uint(5)),
    ];
    assert((VfsRequestModel { v: 1, request: RequestModel::Whoami }).fields() =~= fields);
    cases::law_unsigned_case_shows(WHOAMI@, "decoded"@, item::record(fields));
}

proof fn lemma_list_reply_one_entry_more_pages_shows()
    ensures
        cases::shows(
            reply_case(LIST_REPLY_ONE_ENTRY_MORE_PAGES@, list_reply_one_entry_more_pages()),
            "list_reply_one_entry_more_pages"@,
            "decoded"@,
            item::record(
                seq![
                    ("op"@, Item::Uint(0)),
                    ("entries"@, Item::Array(seq![item::record(
                                    seq![
                                        ("name"@, Item::Text("Vacation"@)),
                                        ("kind"@, Item::Uint(1)),
                                        ("size"@, Item::Uint(0)),
                                        ("mtime"@, Item::Uint(1_755_907_200)),
                                        ("perms_here"@, Item::Uint(1)),
                                    ],
                                )])),
                    ("next_cursor"@, Item::Bytes(cases::repeated(0x02, 4))),
                ],
            ),
        ),
{
    let fields = seq![
        ("op"@, Item::Uint(0)),
        ("entries"@, Item::Array(seq![item::record(
                                seq![
                                    ("name"@, Item::Text("Vacation"@)),
                                    ("kind"@, Item::Uint(1)),
                                    ("size"@, Item::Uint(0)),
                                    ("mtime"@, Item::Uint(1_755_907_200)),
                                    ("perms_here"@, Item::Uint(1)),
                                ],
                            )])),
        ("next_cursor"@, Item::Bytes(cases::repeated(0x02, 4))),
    ];
    assert(dir_entry::list_item(seq![vacation()])->Array_0 =~= fields[1].1->Array_0) by {
        assert(vacation().fields() =~= seq![
            ("name"@, Item::Text("Vacation"@)),
            ("kind"@, Item::Uint(1)),
            ("size"@, Item::Uint(0)),
            ("mtime"@, Item::Uint(1_755_907_200)),
            ("perms_here"@, Item::Uint(1)),
        ]);
    }
    assert(list_reply_one_entry_more_pages().fields() =~= fields);
    cases::law_unsigned_case_shows(LIST_REPLY_ONE_ENTRY_MORE_PAGES@, "decoded"@,
        item::record(fields));
}

proof fn lemma_list_reply_empty_last_page_shows()
    ensures
        cases::shows(
            reply_case(LIST_REPLY_EMPTY_LAST_PAGE@, list_reply_empty_last_page()),
            "list_reply_empty_last_page"@,
            "decoded"@,
            item::record(
                seq![
                    ("op"@, Item::Uint(0)),
                    ("entries"@, Item::Array(Seq::empty())),
                ],
            ),
        ),
{
    let fields = seq![
        ("op"@, Item::Uint(0)),
        ("entries"@, Item::Array(Seq::empty())),
    ];
    assert(dir_entry::list_item(Seq::empty())->Array_0 =~= Seq::empty());
    assert(list_reply_empty_last_page().fields() =~= fields);
    cases::law_unsigned_case_shows(LIST_REPLY_EMPTY_LAST_PAGE@, "decoded"@, item::record(fields));
}

proof fn lemma_stat_reply_file_shows()
    ensures
        cases::shows(
            reply_case(STAT_REPLY_FILE@, stat_reply_file()),
            "stat_reply_file"@,
            "decoded"@,
            item::record(
                seq![
                    ("op"@, Item::Uint(1)),
                    ("kind"@, Item::Uint(0)),
                    ("size"@, Item::Uint(4_194_304)),
                    ("mtime"@, Item::Uint(1_755_907_200)),
                    ("perms_here"@, Item::Uint(3)),
                ],
            ),
        ),
{
    let fields = seq![
        ("op"@, Item::Uint(1)),
        ("kind"@, Item::Uint(0)),
        ("size"@, Item::Uint(4_194_304)),
        ("mtime"@, Item::Uint(1_755_907_200)),
        ("perms_here"@, Item::Uint(3)),
    ];
    assert(1u8 | 2u8 == 3u8) by (bit_vector);
    assert(stat_reply_file().fields() =~= fields);
    cases::law_unsigned_case_shows(STAT_REPLY_FILE@, "decoded"@, item::record(fields));
}

proof fn lemma_read_reply_partial_chunk_shows()
    ensures
        cases::shows(
            reply_case(READ_REPLY_PARTIAL_CHUNK@, read_reply_partial_chunk()),
            "read_reply_partial_chunk"@,
            "decoded"@,
            item::record(
                seq![
                    ("op"@, Item::Uint(2)),
                    ("data"@, Item::Bytes(cases::repeated(0xab, 128))),
                    ("eof"@, Item::Bool(false)),
                ],
            ),
        ),
{
    let fields = seq![
        ("op"@, Item::Uint(2)),
        ("data"@, Item::Bytes(cases::repeated(0xab, 128))),
        ("eof"@, Item::Bool(false)),
    ];
    assert(read_reply_partial_chunk().fields() =~= fields);
    cases::law_unsigned_case_shows(READ_REPLY_PARTIAL_CHUNK@, "decoded"@, item::record(fields));
}

proof fn lemma_read_reply_final_chunk_shows()
    ensures
        cases::shows(
            reply_case(READ_REPLY_FINAL_CHUNK@, read_reply_final_chunk()),
            "read_reply_final_chunk"@,
            "decoded"@,
            item::record(
                seq![
                    ("op"@, Item::Uint(2)),
                    ("data"@, Item::Bytes(Seq::empty())),
                    ("eof"@, Item::Bool(true)),
                ],
            ),
        ),
{
    let fields = seq![
        ("op"@, Item::Uint(2)),
        ("data"@, Item::Bytes(Seq::empty())),
        ("eof"@, Item::Bool(true)),
    ];
    assert(read_reply_final_chunk().fields() =~= fields);
    cases::law_unsigned_case_shows(READ_REPLY_FINAL_CHUNK@, "decoded"@, item::record(fields));
}

proof fn lemma_mkdir_reply_shows()
    ensures
        cases::shows(
            reply_case(MKDIR_REPLY@, mkdir_reply()),
            "mkdir_reply"@,
            "decoded"@,
            item::record(
                seq![
                    ("op"@, Item::Uint(3)),
                ],
            ),
        ),
{
    let fields = seq![
        ("op"@, Item::Uint(3)),
    ];
    assert(mkdir_reply().fields() =~= fields);
    cases::law_unsigned_case_shows(MKDIR_REPLY@, "decoded"@, item::record(fields));
}

proof fn lemma_delete_reply_shows()
    ensures
        cases::shows(
            reply_case(DELETE_REPLY@, delete_reply()),
            "delete_reply"@,
            "decoded"@,
            item::record(
                seq![
                    ("op"@, Item::Uint(4)),
                ],
            ),
        ),
{
    let fields = seq![
        ("op"@, Item::Uint(4)),
    ];
    assert(delete_reply().fields() =~= fields);
    cases::law_unsigned_case_shows(DELETE_REPLY@, "decoded"@, item::record(fields));
}

proof fn lemma_whoami_reply_shows()
    ensures
        cases::shows(
            reply_case(WHOAMI_REPLY@, whoami_reply()),
            "whoami_reply"@,
            "decoded"@,
            item::record(
                seq![
                    ("op"@, Item::Uint(5)),
                    ("member_display"@, Item::Text("Alex"@)),
                    ("effective_paths"@, Item::Array(seq![Item::Text("Photos/Vacation"@),
                        Item::Text("Drop"@)])),
                ],
            ),
        ),
{
    let fields = seq![
        ("op"@, Item::Uint(5)),
        ("member_display"@, Item::Text("Alex"@)),
        ("effective_paths"@, Item::Array(seq![Item::Text("Photos/Vacation"@),
            Item::Text("Drop"@)])),
    ];
    assert(record::text_list(seq!["Photos/Vacation"@, "Drop"@])->Array_0 =~= fields[2].1->Array_0);
    assert(whoami_reply().fields() =~= fields);
    cases::law_unsigned_case_shows(WHOAMI_REPLY@, "decoded"@, item::record(fields));
}

/// The cases of replies that are no errors, by name and contents.
pub proof fn law_reply_cases_show()
    ensures
        reply_cases().len() == 16,
        cases::shows(
            reply_cases()[0],
            "list_reply_one_entry_more_pages"@,
            "decoded"@,
            item::record(
                seq![
                    ("op"@, Item::Uint(0)),
                    ("entries"@, Item::Array(seq![item::record(
                                    seq![
                                        ("name"@, Item::Text("Vacation"@)),
                                        ("kind"@, Item::Uint(1)),
                                        ("size"@, Item::Uint(0)),
                                        ("mtime"@, Item::Uint(1_755_907_200)),
                                        ("perms_here"@, Item::Uint(1)),
                                    ],
                                )])),
                    ("next_cursor"@, Item::Bytes(cases::repeated(0x02, 4))),
                ],
            ),
        ),
        cases::shows(
            reply_cases()[1],
            "list_reply_empty_last_page"@,
            "decoded"@,
            item::record(
                seq![
                    ("op"@, Item::Uint(0)),
                    ("entries"@, Item::Array(Seq::empty())),
                ],
            ),
        ),
        cases::shows(
            reply_cases()[2],
            "stat_reply_file"@,
            "decoded"@,
            item::record(
                seq![
                    ("op"@, Item::Uint(1)),
                    ("kind"@, Item::Uint(0)),
                    ("size"@, Item::Uint(4_194_304)),
                    ("mtime"@, Item::Uint(1_755_907_200)),
                    ("perms_here"@, Item::Uint(3)),
                ],
            ),
        ),
        cases::shows(
            reply_cases()[3],
            "read_reply_partial_chunk"@,
            "decoded"@,
            item::record(
                seq![
                    ("op"@, Item::Uint(2)),
                    ("data"@, Item::Bytes(cases::repeated(0xab, 128))),
                    ("eof"@, Item::Bool(false)),
                ],
            ),
        ),
        cases::shows(
            reply_cases()[4],
            "read_reply_final_chunk"@,
            "decoded"@,
            item::record(
                seq![
                    ("op"@, Item::Uint(2)),
                    ("data"@, Item::Bytes(Seq::empty())),
                    ("eof"@, Item::Bool(true)),
                ],
            ),
        ),
        cases::shows(
            reply_cases()[5],
            "mkdir_reply"@,
            "decoded"@,
            item::record(
                seq![
                    ("op"@, Item::Uint(3)),
                ],
            ),
        ),
        cases::shows(
            reply_cases()[6],
            "delete_reply"@,
            "decoded"@,
            item::record(
                seq![
                    ("op"@, Item::Uint(4)),
                ],
            ),
        ),
        cases::shows(
            reply_cases()[7],
            "whoami_reply"@,
            "decoded"@,
            item::record(
                seq![
                    ("op"@, Item::Uint(5)),
                    ("member_display"@, Item::Text("Alex"@)),
                    ("effective_paths"@, Item::Array(seq![Item::Text("Photos/Vacation"@),
                        Item::Text("Drop"@)])),
                ],
            ),
        ),
{
    lemma_list_reply_one_entry_more_pages_shows();
    lemma_list_reply_empty_last_page_shows();
    lemma_stat_reply_file_shows();
    lemma_read_reply_partial_chunk_shows();
    lemma_read_reply_final_chunk_shows();
    lemma_mkdir_reply_shows();
    lemma_delete_reply_shows();
    lemma_whoami_reply_shows();
}

/// Behind them, one case for each of eight error codes.
pub proof fn law_error_cases_show(i: int)
    requires
        8 <= i < 16,
    ensures
        reply_cases().len() == 16,
        cases::shows(
            reply_cases()[i],
            "error_reply"@,
            "decoded"@,
            item::record(seq![("op"@, Item::Uint(10)), ("code"@, Item::Uint((i - 8) as u64))]),
        ),
{
    let code = shown_codes()[i - 8];
    assert(reply_cases()[i] == error_cases()[i - 8]);
    let fields = seq![("op"@, Item::Uint(10)), ("code"@, Item::Uint((i - 8) as u64))];
    assert((ReplyModel::Error { code }).fields() =~= fields);
    cases::law_unsigned_case_shows(ERROR_REPLY@, "decoded"@, item::record(fields));
}

/// The file says what it is about and lists the requests and then the replies.
pub proof fn law_message_file_shows()
    ensures
        message_file() matches JsonItem::Obj(members) && {
            &&& members.len() == 3
            &&& members[0] == ("description"@, JsonItem::Str(ABOUT@))
            &&& members[1] == ("requests"@, JsonItem::Arr(request_cases()))
            &&& members[2] == ("replies"@, JsonItem::Arr(reply_cases()))
        },
{
}

} // verus!
