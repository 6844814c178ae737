//! VFS RPC messages: the ten file operations of an authenticated session, and their replies.
//!
//! The session already guarantees integrity, so these messages carry no signature. Every message
//! is one map with a numeric `op`; requests carry the protocol version in `v` as well.
pub mod dir_entry;
pub mod perms;
pub mod reply;
pub mod request;

pub use crate::proto::vfs_rpc::dir_entry::{DirEntry, EntryKind};
pub use crate::proto::vfs_rpc::perms::VfsPerms;
pub use crate::proto::vfs_rpc::reply::{VfsErrorCode, VfsReply};
pub use crate::proto::vfs_rpc::request::{VfsRequest, VfsRequestEnvelope};
use vstd::prelude::*;

verus! {

/// The lowest protocol version that a server accepts.
pub const MIN_PROTOCOL_VERSION: u8 = 1;

/// The protocol version of these messages.
pub const CURRENT_PROTOCOL_VERSION: u8 = 1;

/// The most entries in one `list` reply. A larger `limit` is clamped by the server.
pub const MAX_LIST_PAGE: u32 = 500;

/// The most bytes in one `read` reply.
pub const MAX_READ_CHUNK: u32 = 65536;

/// The most bytes in one `upload_chunk` request: as many as in a `read` reply.
pub const MAX_UPLOAD_CHUNK: u32 = 65536;

/// How long an upload session lives, in seconds: 48 hours.
pub const UPLOAD_SESSION_TTL_SECS: u64 = 172800;

} // verus!
