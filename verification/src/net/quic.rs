//! Certificate pinning for the QUIC control stream.
//!
//! Each side makes a self-signed certificate for one session and learns the other's fingerprint, the
//! SHA-256 digest of its DER encoding, from signaling. A handshake is accepted exactly where the
//! certificate that the peer presents has that fingerprint: there is no authority, no host name
//! check and no trust on first use, in either direction.
use crate::octets::{copy_bytes, copy_range, same_bytes};
use crate::text;
use crate::text::to_hex;
use vstd::prelude::*;

verus! {

/// The protocol token of the control stream: `spindle-vfs/1`.
pub const ALPN: [u8; 13] = [115, 112, 105, 110, 100, 108, 101, 45, 118, 102, 115, 47, 49];

/// The name in every certificate. Pinning ignores it.
pub const SERVER_NAME: &'static str = "localhost";

/// How many bytes of a fingerprint a message shows.
pub const SHOWN_FP_BYTES: usize = 4;

/// The SHA-256 digest of a byte string.
pub uninterp spec fn sha256_of(bytes: Seq<u8>) -> Seq<u8>;

/// `Sha256::digest` of the `sha2` crate: the digest depends on the bytes alone.
#[verifier::external_body]
pub(crate) fn sha256(bytes: &[u8]) -> (digest: [u8; 32])
    ensures
        digest@ == sha256_of(bytes@),
{
    <sha2::Sha256 as sha2::Digest>::digest(bytes).into()
}

/// `rcgen::generate_simple_self_signed` makes a key pair and a certificate for it, or fails with a
/// message. The DER encoding of the certificate and the PKCS#8 encoding of the key each begin with
/// a tag, so neither is empty. Both are fresh each time, and no more is claimed of them.
#[verifier::external_body]
fn self_signed(name: &str) -> (r: Result<(Vec<u8>, Vec<u8>), String>)
    ensures
        r matches Ok((cert, key)) ==> cert@.len() > 0 && key@.len() > 0,
{
    match rcgen::generate_simple_self_signed(vec![name.to_string()]) {
        Ok(made) => Ok((made.cert.der().to_vec(), made.key_pair.serialize_der())),
        Err(e) => Err(e.to_string()),
    }
}

/// Why a connection was lost.
#[derive(Debug, Clone, PartialEq, Eq)]
pub enum ConnectionFault {
    /// The peer closed it, for a reason of its own choice.
    ApplicationClosed { code: u64, reason: Vec<u8> },
    /// The peer's stack aborted it, for a reason of its own choice.
    ConnectionClosed { code: String, reason: Vec<u8> },
    /// Anything else, with its message. It holds nothing that a peer chose.
    Other(String),
}

impl ConnectionFault {
    /// The reason that the peer gave; empty where it gave none.
    pub open spec fn reason(self) -> Seq<u8> {
        match self {
            ConnectionFault::ApplicationClosed { reason, .. } => reason@,
            ConnectionFault::ConnectionClosed { reason, .. } => reason@,
            ConnectionFault::Other(_) => Seq::empty(),
        }
    }

    /// What the message says where the peer's reason is shown as `shown`.
    pub open spec fn message_showing(self, shown: Seq<char>) -> Seq<char> {
        match self {
            ConnectionFault::ApplicationClosed { code, reason } => if reason@.len() == 0 {
                "closed by peer: "@ + text::decimal(code as nat)
            } else {
                "closed by peer: "@ + shown + " (code "@ + text::decimal(code as nat) + ")"@
            },
            ConnectionFault::ConnectionClosed { code, reason } => if reason@.len() == 0 {
                "aborted by peer: "@ + code@
            } else {
                "aborted by peer: "@ + code@ + ": "@ + shown
            },
            ConnectionFault::Other(e) => e@,
        }
    }

    /// What the message says. It quotes the peer's reason.
    pub open spec fn message(self) -> Seq<char> {
        self.message_showing(text::lossy(self.reason()))
    }

    /// The message of the error, with the peer's reason shown as `shown`.
    pub fn to_string_showing(&self, shown: &str) -> (message: String)
        ensures
            message@ == self.message_showing(shown@),
    {
        match self {
            ConnectionFault::ApplicationClosed { code, reason } => {
                let mut message = String::from_str("closed by peer: ");
                if reason.len() == 0 {
                    text::push_decimal(&mut message, *code);
                } else {
                    message.append(shown);
                    message.append(" (code ");
                    text::push_decimal(&mut message, *code);
                    message.append(")");
                }
                message
            },
            ConnectionFault::ConnectionClosed { code, reason } => {
                let mut message = String::from_str("aborted by peer: ");
                message.append(code.as_str());
                if reason.len() > 0 {
                    message.append(": ");
                    message.append(shown);
                }
                message
            },
            ConnectionFault::Other(e) => e.clone(),
        }
    }

    /// The message of the error.
    pub fn to_string(&self) -> (message: String)
        ensures
            message@ == self.message(),
    {
        match self {
            ConnectionFault::ApplicationClosed { reason, .. } => {
                self.to_string_showing(text::lossy_text(reason.as_slice()).as_str())
            },
            ConnectionFault::ConnectionClosed { reason, .. } => {
                self.to_string_showing(text::lossy_text(reason.as_slice()).as_str())
            },
            ConnectionFault::Other(e) => e.clone(),
        }
    }
}

/// Everything that can go wrong with a QUIC session. Errors of the transport carry its message.
#[derive(Debug, Clone, PartialEq, Eq)]
pub enum QuicError {
    /// The session certificate could not be made.
    CertGen(String),
    /// The TLS configuration was refused.
    Tls(String),
    /// The TLS configuration does not suit QUIC.
    NoInitialCipherSuite(String),
    /// The local socket could not be bound.
    Io(String),
    /// The connection could not be started.
    Connect(String),
    /// The handshake or the connection failed; a pinning mismatch shows up here.
    Connection(ConnectionFault),
    /// The endpoint was closed before a connection arrived.
    EndpointClosed,
}

impl QuicError {
    /// What the message says.
    pub open spec fn message(self) -> Seq<char> {
        match self {
            QuicError::CertGen(e) => "generating self-signed session certificate: "@ + e@,
            QuicError::Tls(e) => "building rustls TLS config: "@ + e@,
            QuicError::NoInitialCipherSuite(e) => "wrapping TLS config for QUIC: "@ + e@,
            QuicError::Io(e) => "binding QUIC endpoint: "@ + e@,
            QuicError::Connect(e) => "starting QUIC connection: "@ + e@,
            QuicError::Connection(e) => "QUIC connection error: "@ + e.message(),
            QuicError::EndpointClosed => "QUIC endpoint closed before a connection arrived"@,
        }
    }

    /// The message of the error.
    pub fn to_string(&self) -> (message: String)
        ensures
            message@ == self.message(),
    {
        match self {
            QuicError::CertGen(e) => text::after(
                "generating self-signed session certificate: ",
                e.as_str(),
            ),
            QuicError::Tls(e) => text::after("building rustls TLS config: ", e.as_str()),
            QuicError::NoInitialCipherSuite(e) => text::after(
                "wrapping TLS config for QUIC: ",
                e.as_str(),
            ),
            QuicError::Io(e) => text::after("binding QUIC endpoint: ", e.as_str()),
            QuicError::Connect(e) => text::after("starting QUIC connection: ", e.as_str()),
            QuicError::Connection(e) => text::after(
                "QUIC connection error: ",
                e.to_string().as_str(),
            ),
            QuicError::EndpointClosed => String::from_str(
                "QUIC endpoint closed before a connection arrived",
            ),
        }
    }
}

// ---- the session certificate ----

/// A self-signed certificate for one session, its key, and its fingerprint.
pub struct SessionCert {
    cert_der: Vec<u8>,
    key_pkcs8_der: Vec<u8>,
    fingerprint: [u8; 32],
}

impl SessionCert {
    /// The DER encoding of the certificate.
    pub closed spec fn der(self) -> Seq<u8> {
        self.cert_der@
    }

    /// The PKCS#8 encoding of the key.
    pub closed spec fn key(self) -> Seq<u8> {
        self.key_pkcs8_der@
    }

    /// The fingerprint is that of the certificate.
    #[verifier::type_invariant]
    spec fn well_formed(self) -> bool {
        self.fingerprint@ == sha256_of(self.cert_der@)
    }

    /// Makes a fresh certificate.
    pub fn generate() -> (r: Result<Self, QuicError>)
        ensures
            match r {
                Ok(cert) => cert.der().len() > 0 && cert.key().len() > 0,
                Err(e) => e is CertGen,
            },
    {
        Self::of_issued(self_signed(SERVER_NAME))
    }

    /// The session certificate with the encodings that were issued, the certificate's first and the
    /// key's second, or the error with the message of the generator.
    pub fn of_issued(made: Result<(Vec<u8>, Vec<u8>), String>) -> (r: Result<Self, QuicError>)
        ensures
            match (made, r) {
                (Ok(p), Ok(cert)) => cert.der() == p.0@ && cert.key() == p.1@,
                (Err(m), Err(QuicError::CertGen(e))) => e@ == m@,
                _ => false,
            },
    {
        match made {
            Ok((cert_der, key_pkcs8_der)) => Ok(Self::from_der(cert_der, key_pkcs8_der)),
            Err(e) => Err(QuicError::CertGen(e)),
        }
    }

    /// The session certificate with the given encodings.
    pub fn from_der(cert_der: Vec<u8>, key_pkcs8_der: Vec<u8>) -> (cert: Self)
        ensures
            cert.der() == cert_der@,
            cert.key() == key_pkcs8_der@,
    {
        let fingerprint = sha256(cert_der.as_slice());
        SessionCert { cert_der, key_pkcs8_der, fingerprint }
    }

    /// The fingerprint that the peer pins.
    pub fn fingerprint(&self) -> (fp: [u8; 32])
        ensures
            fp@ == sha256_of(self.der()),
    {
        proof {
            use_type_invariant(self);
        }
        self.fingerprint
    }

    /// The DER encoding of the certificate.
    pub fn cert_der(&self) -> (der: Vec<u8>)
        ensures
            der@ == self.der(),
    {
        copy_bytes(self.cert_der.as_slice())
    }

    /// The PKCS#8 encoding of the key.
    pub fn key_der(&self) -> (der: Vec<u8>)
        ensures
            der@ == self.key(),
    {
        copy_bytes(self.key_pkcs8_der.as_slice())
    }
}

// ---- pinning ----

/// The certificate with this encoding has the expected fingerprint.
pub open spec fn pinned(expected: Seq<u8>, cert_der: Seq<u8>) -> bool {
    sha256_of(cert_der) == expected
}

/// What the message about a mismatch says: the beginnings of both fingerprints, never the whole.
pub open spec fn mismatch_text(side: Seq<char>, expected: Seq<u8>, actual: Seq<u8>) -> Seq<char> {
    side + " certificate fingerprint mismatch: expected sha256:"@ + text::hex(
        expected.take(SHOWN_FP_BYTES as int),
    ) + ", got sha256:"@ + text::hex(actual.take(SHOWN_FP_BYTES as int))
}

/// The lower-case hexadecimal digits of `bytes`.
pub fn hex(bytes: &[u8]) -> (digits: String)
    ensures
        digits@ == text::hex(bytes@),
{
    to_hex(bytes)
}

/// Accepts the fingerprint of the `side` certificate exactly where it is the expected one.
pub fn verify_fingerprint(side: &str, expected: &[u8; 32], actual: &[u8; 32]) -> (r: Result<
    (),
    String,
>)
    ensures
        match r {
            Ok(_) => actual@ == expected@,
            Err(e) => actual@ != expected@ && e@ == mismatch_text(side@, expected@, actual@),
        },
{
    if same_bytes(actual.as_slice(), expected.as_slice()) {
        return Ok(());
    }
    let wanted = copy_range(expected.as_slice(), 0, SHOWN_FP_BYTES);
    let got = copy_range(actual.as_slice(), 0, SHOWN_FP_BYTES);
    assert(wanted@ =~= expected@.take(4));
    assert(got@ =~= actual@.take(4));
    let mut message = text::after(side, " certificate fingerprint mismatch: expected sha256:");
    message.append(hex(wanted.as_slice()).as_str());
    message.append(", got sha256:");
    message.append(hex(got.as_slice()).as_str());
    Err(message)
}

/// The client's judgement of the certificate that a server presents.
pub fn verify_server_cert(expected: &[u8; 32], end_entity: &[u8]) -> (r: Result<(), String>)
    ensures
        match r {
            Ok(_) => pinned(expected@, end_entity@),
            Err(e) => !pinned(expected@, end_entity@) && e@ == mismatch_text(
                "server"@,
                expected@,
                sha256_of(end_entity@),
            ),
        },
{
    verify_fingerprint("server", expected, &sha256(end_entity))
}

/// The server's judgement of the certificate that a client presents.
pub fn verify_client_cert(expected: &[u8; 32], end_entity: &[u8]) -> (r: Result<(), String>)
    ensures
        match r {
            Ok(_) => pinned(expected@, end_entity@),
            Err(e) => !pinned(expected@, end_entity@) && e@ == mismatch_text(
                "client"@,
                expected@,
                sha256_of(end_entity@),
            ),
        },
{
    verify_fingerprint("client", expected, &sha256(end_entity))
}

/// A certificate is accepted exactly where its digest is the fingerprint that was expected of it.
pub proof fn law_pinned_is_its_digest(expected: Seq<u8>, cert_der: Seq<u8>)
    ensures
        pinned(expected, cert_der) <==> expected == sha256_of(cert_der),
{
}

/// A message about a mismatch shows four bytes of either fingerprint: two pairs that begin alike
/// give the same message.
pub proof fn law_mismatch_shows_four_bytes(
    side: Seq<char>,
    expected: Seq<u8>,
    actual: Seq<u8>,
    other: Seq<u8>,
    another: Seq<u8>,
)
    requires
        expected.take(4) == other.take(4),
        actual.take(4) == another.take(4),
    ensures
        mismatch_text(side, expected, actual) == mismatch_text(side, other, another),
        mismatch_text(side, expected, actual) == side
            + " certificate fingerprint mismatch: expected sha256:"@ + text::hex(expected.take(4))
            + ", got sha256:"@ + text::hex(actual.take(4)),
{
}

/// Who closed a connection, with which code, and for which reason where there is one.
pub proof fn law_lost_connections_are_named(e: ConnectionFault, shown: Seq<char>)
    ensures
        e.message_showing(shown) == match e {
            ConnectionFault::ApplicationClosed { code, reason } => if reason@.len() == 0 {
                "closed by peer: "@ + text::decimal(code as nat)
            } else {
                "closed by peer: "@ + shown + " (code "@ + text::decimal(code as nat) + ")"@
            },
            ConnectionFault::ConnectionClosed { code, reason } => if reason@.len() == 0 {
                "aborted by peer: "@ + code@
            } else {
                "aborted by peer: "@ + code@ + ": "@ + shown
            },
            ConnectionFault::Other(e) => e@,
        },
{
}

/// Every failure has a message of its own, with that of the transport.
pub proof fn law_failures_are_named(e: QuicError)
    ensures
        e.message() == match e {
            QuicError::CertGen(e) => "generating self-signed session certificate: "@ + e@,
            QuicError::Tls(e) => "building rustls TLS config: "@ + e@,
            QuicError::NoInitialCipherSuite(e) => "wrapping TLS config for QUIC: "@ + e@,
            QuicError::Io(e) => "binding QUIC endpoint: "@ + e@,
            QuicError::Connect(e) => "starting QUIC connection: "@ + e@,
            QuicError::Connection(e) => "QUIC connection error: "@ + e.message(),
            QuicError::EndpointClosed => "QUIC endpoint closed before a connection arrived"@,
        },
{
}

/// The reason in a message is what the peer gave, as text.
pub proof fn law_reason_is_the_peers(e: ConnectionFault)
    ensures
        e.message() == e.message_showing(
            text::lossy(
                match e {
                    ConnectionFault::ApplicationClosed { reason, .. } => reason@,
                    ConnectionFault::ConnectionClosed { reason, .. } => reason@,
                    ConnectionFault::Other(_) => Seq::empty(),
                },
            ),
        ),
{
}

} // verus!
