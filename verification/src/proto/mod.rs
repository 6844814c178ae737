//! The wire contract: canonical CBOR and the message types built on it.
pub mod artifacts;
pub mod bootstrap;
pub mod canonical;
pub mod item;
pub mod reader;
pub mod record;
pub mod roundtrip;
pub mod signaling;
pub mod tags;
pub mod vfs_rpc;

pub use crate::proto::artifacts::{
    AdminCommand, AdmissionToken, CapKind, Capability, DeviceCertificate, Envelope, HostDeviceCert,
    HostOpKeyCert, ProtoError, RevocationRecord,
};
pub use crate::proto::canonical::{canonical_decode, canonical_encode, CborError, CborValue};
pub use crate::proto::signaling::{
    AnswerPayload, IcePayload, OfferPayload, SignalingError, Transport, CERT_FP_LEN, KIND_ANSWER,
    KIND_ICE, KIND_OFFER, MAX_CANDIDATE_LEN, MAX_INBOX_LEN, MAX_PWD_LEN, MAX_UFRAG_LEN,
};
pub use crate::proto::vfs_rpc::{
    DirEntry, EntryKind, VfsErrorCode, VfsPerms, VfsReply, VfsRequest, VfsRequestEnvelope,
    CURRENT_PROTOCOL_VERSION, MAX_LIST_PAGE, MAX_READ_CHUNK, MAX_UPLOAD_CHUNK,
    MIN_PROTOCOL_VERSION, UPLOAD_SESSION_TTL_SECS,
};
