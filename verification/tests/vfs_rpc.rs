//! The file requests and replies.
use spindle::proto::artifacts::ProtoError;
use spindle::proto::canonical::{canonical_encode, CborValue};
use spindle::proto::vfs_rpc::{
    DirEntry, EntryKind, VfsErrorCode, VfsPerms, VfsReply, VfsRequest, VfsRequestEnvelope,
    MAX_READ_CHUNK, MAX_UPLOAD_CHUNK, UPLOAD_SESSION_TTL_SECS,
};

fn rt_req(env: &VfsRequestEnvelope) {
    let bytes = env.to_canonical_bytes();
    let decoded = VfsRequestEnvelope::from_canonical_bytes(&bytes).expect("decode");
    assert_eq!(&decoded, env);
}

fn rt_reply(reply: &VfsReply) {
    let bytes = reply.to_canonical_bytes();
    let decoded = VfsReply::from_canonical_bytes(&bytes).expect("decode");
    assert_eq!(&decoded, reply);
}

#[test]
fn round_trips_every_request_variant() {
    rt_req(&VfsRequestEnvelope {
        v: 1,
        request: VfsRequest::List {
            path: "Photos/Vacation".to_string(),
            cursor: None,
            limit: None,
        },
    });
    rt_req(&VfsRequestEnvelope {
        v: 1,
        request: VfsRequest::List {
            path: "Photos".to_string(),
            cursor: Some(vec![1, 2, 3]),
            limit: Some(50),
        },
    });
    rt_req(&VfsRequestEnvelope {
        v: 1,
        request: VfsRequest::Stat {
            path: "Photos/img.jpg".to_string(),
        },
    });
    rt_req(&VfsRequestEnvelope {
        v: 1,
        request: VfsRequest::Read {
            path: "Photos/img.jpg".to_string(),
            offset: 65536,
            len: 65536,
        },
    });
    rt_req(&VfsRequestEnvelope {
        v: 1,
        request: VfsRequest::Mkdir {
            path: "Photos/NewAlbum".to_string(),
        },
    });
    rt_req(&VfsRequestEnvelope {
        v: 1,
        request: VfsRequest::Delete {
            path: "Photos/old.jpg".to_string(),
        },
    });
    rt_req(&VfsRequestEnvelope {
        v: 1,
        request: VfsRequest::Whoami,
    });
    rt_req(&VfsRequestEnvelope {
        v: 1,
        request: VfsRequest::UploadOpen {
            path: "Drop/incoming.bin".to_string(),
            size: 1_048_576,
            hash: vec![0xAA; 32],
            manifest_sig: vec![0xBB; 64],
        },
    });
    rt_req(&VfsRequestEnvelope {
        v: 1,
        request: VfsRequest::UploadChunk {
            session_id: vec![1, 2, 3, 4],
            offset: 65536,
            data: vec![0xCC; 4096],
        },
    });
    rt_req(&VfsRequestEnvelope {
        v: 1,
        request: VfsRequest::UploadCommit {
            session_id: vec![1, 2, 3, 4],
        },
    });
    rt_req(&VfsRequestEnvelope {
        v: 1,
        request: VfsRequest::UploadAbort {
            session_id: vec![1, 2, 3, 4],
        },
    });
}

#[test]
fn round_trips_every_reply_variant() {
    rt_reply(&VfsReply::List {
        entries: vec![DirEntry {
            name: "Vacation".to_string(),
            kind: EntryKind::Dir,
            size: 0,
            mtime: 1000,
            perms_here: VfsPerms::browse(),
        }],
        next_cursor: Some(vec![9, 9]),
    });
    rt_reply(&VfsReply::List {
        entries: vec![],
        next_cursor: None,
    });
    rt_reply(&VfsReply::Stat {
        kind: EntryKind::File,
        size: 4096,
        mtime: 2000,
        perms_here: VfsPerms::browse().union(VfsPerms::download()),
    });
    rt_reply(&VfsReply::Read {
        data: vec![0xAB; 128],
        eof: true,
    });
    rt_reply(&VfsReply::Mkdir);
    rt_reply(&VfsReply::Delete);
    rt_reply(&VfsReply::Whoami {
        member_display: "Alex".to_string(),
        effective_paths: vec!["Photos/Vacation".to_string(), "Drop".to_string()],
    });
    rt_reply(&VfsReply::UploadOpen {
        session_id: vec![1, 2, 3, 4],
        offset: 0,
    });
    rt_reply(&VfsReply::UploadOpen {
        session_id: vec![1, 2, 3, 4],
        offset: 65536,
    });
    rt_reply(&VfsReply::UploadChunk { offset: 131072 });
    rt_reply(&VfsReply::UploadCommit);
    rt_reply(&VfsReply::UploadAbort);
    for code in all_error_codes() {
        rt_reply(&VfsReply::Error { code });
    }
}

fn all_error_codes() -> [VfsErrorCode; 10] {
    [
        VfsErrorCode::NotFound,
        VfsErrorCode::QuotaExceeded,
        VfsErrorCode::GrantsChanged,
        VfsErrorCode::ResumeExpired,
        VfsErrorCode::UploadRejected,
        VfsErrorCode::StorageFull,
        VfsErrorCode::Throttled,
        VfsErrorCode::UnsupportedVersion,
        VfsErrorCode::AlreadyExists,
        VfsErrorCode::FileChanged,
    ]
}

#[test]
fn rejects_unknown_field() {
    let mut cbor = VfsRequestEnvelope {
        v: 1,
        request: VfsRequest::Whoami,
    }
    .to_cbor();
    if let CborValue::Mapping(entries) = &mut cbor {
        entries.push((CborValue::text("bogus"), CborValue::uint(1)));
    }
    let bytes = canonical_encode(&cbor);
    let err = VfsRequestEnvelope::from_canonical_bytes(&bytes).unwrap_err();
    assert_eq!(err, ProtoError::UnknownField("bogus".to_string()));
}

#[test]
fn vfs_rpc_rejects_missing_required_field() {
    let mut cbor = VfsRequestEnvelope {
        v: 1,
        request: VfsRequest::Stat {
            path: "x".to_string(),
        },
    }
    .to_cbor();
    if let CborValue::Mapping(entries) = &mut cbor {
        entries.retain(|(k, _)| k.as_text() != Some("path"));
    }
    let bytes = canonical_encode(&cbor);
    let err = VfsRequestEnvelope::from_canonical_bytes(&bytes).unwrap_err();
    assert_eq!(err, ProtoError::MissingField("path"));
}

#[test]
fn rejects_invalid_op_and_error_code() {
    let bad_op = CborValue::map(vec![("v", CborValue::uint(1)), ("op", CborValue::uint(99))]);
    let bytes = canonical_encode(&bad_op);
    let err = VfsRequestEnvelope::from_canonical_bytes(&bytes).unwrap_err();
    assert_eq!(err, ProtoError::InvalidEnumValue("op", 99));

    let bad_code = CborValue::map(vec![
        ("op", CborValue::uint(10)),
        ("code", CborValue::uint(99)),
    ]);
    let bytes = canonical_encode(&bad_code);
    let err = VfsReply::from_canonical_bytes(&bytes).unwrap_err();
    assert_eq!(err, ProtoError::InvalidEnumValue("code", 99));
}

#[test]
fn rejects_out_of_range_perms_bitset() {
    let cbor = CborValue::map(vec![
        ("op", CborValue::uint(1)),
        ("kind", CborValue::uint(0)),
        ("size", CborValue::uint(0)),
        ("mtime", CborValue::uint(0)),
        ("perms_here", CborValue::uint(0xff)),
    ]);
    let bytes = canonical_encode(&cbor);
    let err = VfsReply::from_canonical_bytes(&bytes).unwrap_err();
    assert_eq!(err, ProtoError::IntOutOfRange("perms_here"));
}

#[test]
fn all_error_codes_distinct_and_round_trip_u64() {
    for (i, c) in all_error_codes().iter().enumerate() {
        assert_eq!(*c as u64, i as u64);
    }
}

#[test]
fn max_read_chunk_is_64_kib() {
    assert_eq!(MAX_READ_CHUNK, 65536);
}

#[test]
fn max_upload_chunk_matches_max_read_chunk() {
    assert_eq!(MAX_UPLOAD_CHUNK, MAX_READ_CHUNK);
}

#[test]
fn upload_session_ttl_is_48_hours() {
    assert_eq!(UPLOAD_SESSION_TTL_SECS, 48 * 60 * 60);
}

#[test]
fn rejects_unknown_field_on_upload_open() {
    let mut cbor = VfsRequestEnvelope {
        v: 1,
        request: VfsRequest::UploadOpen {
            path: "x".to_string(),
            size: 1,
            hash: vec![0],
            manifest_sig: vec![0],
        },
    }
    .to_cbor();
    if let CborValue::Mapping(entries) = &mut cbor {
        entries.push((CborValue::text("bogus"), CborValue::uint(1)));
    }
    let bytes = canonical_encode(&cbor);
    let err = VfsRequestEnvelope::from_canonical_bytes(&bytes).unwrap_err();
    assert_eq!(err, ProtoError::UnknownField("bogus".to_string()));
}

/// The map with its entries the other way round, and those of the maps in its arrays too.
fn turned(v: CborValue) -> CborValue {
    match v {
        CborValue::Mapping(entries) => {
            let turned_entries = entries.into_iter().rev().map(|(k, v)| (k, turned(v)));
            CborValue::Mapping(turned_entries.collect())
        }
        CborValue::Array(items) => CborValue::Array(items.into_iter().map(turned).collect()),
        other => other,
    }
}

fn with_entry(v: CborValue, key: &str) -> CborValue {
    match v {
        CborValue::Mapping(mut entries) => {
            entries.push((CborValue::text(key), CborValue::Null));
            CborValue::Mapping(entries)
        }
        other => other,
    }
}

#[test]
fn the_order_of_entries_does_not_matter_and_nothing_else_is_let_through() {
    let request = VfsRequestEnvelope {
        v: 1,
        request: VfsRequest::Read { path: "/a".to_string(), offset: 7, len: u32::MAX },
    };
    assert_eq!(turned(request.to_cbor()), request.to_cbor());
    assert_eq!(VfsRequestEnvelope::from_cbor(&turned(request.to_cbor())), Ok(request.clone()));
    assert_eq!(
        VfsRequestEnvelope::from_cbor(&with_entry(request.to_cbor(), "cursor")),
        Err(ProtoError::UnknownField("cursor".to_string()))
    );
    let reply = VfsReply::List {
        entries: vec![
            DirEntry {
                name: "one".to_string(),
                kind: EntryKind::File,
                size: 1,
                mtime: 2,
                perms_here: VfsPerms::browse(),
            },
            DirEntry {
                name: "two".to_string(),
                kind: EntryKind::Dir,
                size: 0,
                mtime: 3,
                perms_here: VfsPerms::none(),
            },
        ],
        next_cursor: Some(vec![9]),
    };
    assert_eq!(VfsReply::from_cbor(&turned(reply.to_cbor())), Ok(reply.clone()));
    assert_eq!(
        VfsReply::from_cbor(&with_entry(reply.to_cbor(), "eof")),
        Err(ProtoError::UnknownField("eof".to_string()))
    );
}
