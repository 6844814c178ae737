//! The signed artifacts.
pub mod admin_command;
pub mod admission_token;
pub mod capability;
pub mod device_certificate;
pub mod envelope;
pub mod host_device_cert;
pub mod host_op_key_cert;
pub mod revocation_record;

pub use crate::proto::artifacts::admin_command::AdminCommand;
pub use crate::proto::artifacts::admission_token::AdmissionToken;
pub use crate::proto::artifacts::capability::{CapKind, Capability, CAPABILITY_CURRENT_V};
pub use crate::proto::artifacts::device_certificate::DeviceCertificate;
pub use crate::proto::artifacts::envelope::Envelope;
pub use crate::proto::artifacts::host_device_cert::HostDeviceCert;
pub use crate::proto::artifacts::host_op_key_cert::HostOpKeyCert;
pub use crate::proto::artifacts::revocation_record::RevocationRecord;
pub use crate::proto::reader::{MapReader, ProtoError, RedactedProtoError};
