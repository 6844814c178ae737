//! Every failure of signaling.
//!
//! A message may quote what a peer chose, or a subject with whole fingerprints in it. Logs take the
//! redacted message, which replaces both by their size.
use crate::net::fingerprint::{FingerprintError, FINGERPRINT_LEN};
use crate::net::quic::{ConnectionFault, QuicError};
use crate::proto::reader::{Fault, ProtoError};
use crate::proto::signaling;
use crate::proto::signaling::Transport;
use crate::text;
use vstd::prelude::*;
use vstd::utf8::encode_utf8;

verus! {

/// Every failure of signaling. Errors of the transport and of the cipher carry their messages.
#[derive(Debug, Clone, PartialEq, Eq)]
pub enum SignalingError {
    /// A check on the envelope failed: signature, recipient, session, sequence number, clock, kind,
    /// version, or the ciphertext itself.
    Envelope(String),
    /// The envelope was in order, but what it carries is not a well-formed payload.
    Payload(signaling::SignalingError),
    /// The bytes are not an envelope.
    EnvelopeDecode(ProtoError),
    /// A fingerprint field does not have the length of a fingerprint.
    Fingerprint(FingerprintError),
    /// An offer or answer carries no ephemeral key.
    MissingEphPk,
    /// The ephemeral key does not have the length of a key.
    BadEphPk(usize),
    /// The reply subject is missing or is not one of the sender's own.
    BadReplyPrefix,
    /// The reply subject is not the one that the sender signed.
    ReplyInboxMismatch,
    /// Nobody is subscribed to the connect subject.
    HostOffline,
    /// A message arrived on a subject other than that of the session that it belongs to.
    SubjectMismatch { subject: String },
    /// A subject is not that of any session.
    BadSubject(String),
    /// The sender may not connect.
    Denied,
    /// The peer asked for a transport that is not implemented.
    UnsupportedTransport(Transport),
    /// Every candidate pair was tried and none works.
    IceFailed,
    /// The ICE agent failed.
    Ice(String),
    /// Something did not happen in time.
    Timeout(&'static str),
    /// The QUIC session failed.
    Quic(QuicError),
    /// A publish, subscribe or flush failed.
    Nats(String),
    /// A local operation failed.
    Io(String),
}

/// The name of a transport in a message.
pub open spec fn transport_name(transport: Transport) -> Seq<char> {
    match transport {
        Transport::Quic => "Quic"@,
        Transport::WebRtc => "WebRtc"@,
    }
}

/// What the message about a fingerprint says.
pub open spec fn fingerprint_message(e: FingerprintError) -> Seq<char> {
    "fingerprint must be exactly "@ + text::decimal(FINGERPRINT_LEN as nat) + " bytes, got "@
        + text::decimal(e.actual as nat)
}

impl SignalingError {
    /// What the message says where the subject of the error is shown as `shown`.
    pub open spec fn message_showing(self, shown: Seq<char>) -> Seq<char> {
        match self {
            SignalingError::Envelope(e) => "envelope rejected: "@ + e@,
            SignalingError::Payload(e) => "signaling payload decode failed: "@ + e@.message(),
            SignalingError::EnvelopeDecode(e) => "envelope decode failed: "@ + e@.message(),
            SignalingError::Fingerprint(e) => "malformed fingerprint: "@ + fingerprint_message(e),
            SignalingError::MissingEphPk => "envelope is missing the required eph_pk field"@,
            SignalingError::BadEphPk(n) => "eph_pk must be exactly 32 bytes, got "@ + text::decimal(
                n as nat,
            ),
            SignalingError::BadReplyPrefix =>
                "reply subject missing or does not start with the required _INBOX_<from_fp>. prefix"@,
            SignalingError::ReplyInboxMismatch =>
                "offer's signed inbox does not match the NATS reply subject"@,
            SignalingError::HostOffline =>
                "host is offline: no responders on the connect subject"@,
            SignalingError::SubjectMismatch { .. } => "subject "@ + shown
                + " does not match the expected session (host/client/sid/direction)"@,
            SignalingError::BadSubject(_) => "malformed session subject "@ + shown,
            SignalingError::Denied => "connect offer denied: sender is not an authorized member"@,
            SignalingError::UnsupportedTransport(t) => "unsupported transport "@ + transport_name(t)
                + " (this crate only implements Transport::Quic)"@,
            SignalingError::IceFailed =>
                "ICE connectivity checks failed: connectivity checks exhausted with no pair selected"@,
            SignalingError::Ice(e) => "ICE agent error: "@ + e@,
            SignalingError::Timeout(what) => what@ + " timed out"@,
            SignalingError::Quic(e) => "QUIC error: "@ + e.message(),
            SignalingError::Nats(e) => "NATS error: "@ + e@,
            SignalingError::Io(e) => "I/O error: "@ + e@,
        }
    }

    /// The subject that the error is about; empty where it is about none.
    pub open spec fn subject(self) -> Seq<char> {
        match self {
            SignalingError::SubjectMismatch { subject } => subject@,
            SignalingError::BadSubject(subject) => subject@,
            _ => Seq::empty(),
        }
    }

    /// What the message says. It quotes the subject.
    pub open spec fn message(self) -> Seq<char> {
        self.message_showing(text::quoted(self.subject()))
    }

    /// What the redacted message says: nothing that a peer chose, and no whole fingerprint.
    pub open spec fn redacted_message(self) -> Seq<char> {
        match self {
            SignalingError::EnvelopeDecode(e) => "envelope decode failed: "@
                + e@.redacted_message(),
            SignalingError::Payload(e) => "signaling payload decode failed: "@
                + e@.redacted_message(),
            SignalingError::SubjectMismatch { subject } => "subject (withheld: "@ + text::decimal(
                encode_utf8(subject@).len(),
            )
                + " bytes naming host_fp/client_fp/sid) does not match the expected session (host/client/sid/direction)"@,
            SignalingError::BadSubject(subject) => "malformed session subject (withheld: "@
                + text::decimal(encode_utf8(subject@).len()) + " bytes)"@,
            SignalingError::Quic(
                QuicError::Connection(ConnectionFault::ApplicationClosed { code, reason }),
            ) => "closed by peer: code "@ + text::decimal(code as nat) + " (reason withheld: "@
                + text::decimal(reason@.len()) + " bytes of peer-supplied text)"@,
            SignalingError::Quic(
                QuicError::Connection(ConnectionFault::ConnectionClosed { code, reason }),
            ) => "aborted by peer: code "@ + code@ + " (reason withheld: "@ + text::decimal(
                reason@.len(),
            ) + " bytes of peer-supplied text)"@,
            _ => self.message(),
        }
    }

    /// The message of the error.
    pub fn to_string(&self) -> (message: String)
        ensures
            message@ == self.message(),
    {
        let subject = match self {
            SignalingError::SubjectMismatch { subject } => subject.as_str(),
            SignalingError::BadSubject(subject) => subject.as_str(),
            _ => {
                proof {
                    reveal_strlit("");
                    assert(""@ =~= Seq::<char>::empty());
                }
                ""
            },
        };
        self.to_string_showing(text::quoted_text(subject).as_str())
    }

    /// The message of the error, with its subject shown as `shown`.
    pub fn to_string_showing(&self, shown: &str) -> (message: String)
        ensures
            message@ == self.message_showing(shown@),
    {
        match self {
            SignalingError::Envelope(e) => text::after("envelope rejected: ", e.as_str()),
            SignalingError::Payload(e) => text::after(
                "signaling payload decode failed: ",
                e.to_string().as_str(),
            ),
            SignalingError::EnvelopeDecode(e) => text::after(
                "envelope decode failed: ",
                e.to_string().as_str(),
            ),
            SignalingError::Fingerprint(e) => {
                let mut message = text::around(
                    "fingerprint must be exactly ",
                    FINGERPRINT_LEN as u64,
                    " bytes, got ",
                );
                text::push_decimal(&mut message, e.actual as u64);
                text::after("malformed fingerprint: ", message.as_str())
            },
            SignalingError::MissingEphPk => String::from_str(
                "envelope is missing the required eph_pk field",
            ),
            SignalingError::BadEphPk(n) => {
                let mut message = String::from_str("eph_pk must be exactly 32 bytes, got ");
                text::push_decimal(&mut message, *n as u64);
                message
            },
            SignalingError::BadReplyPrefix => String::from_str(
                "reply subject missing or does not start with the required _INBOX_<from_fp>. prefix",
            ),
            SignalingError::ReplyInboxMismatch => String::from_str(
                "offer's signed inbox does not match the NATS reply subject",
            ),
            SignalingError::HostOffline => String::from_str(
                "host is offline: no responders on the connect subject",
            ),
            SignalingError::SubjectMismatch { .. } => text::between(
                "subject ",
                shown,
                " does not match the expected session (host/client/sid/direction)",
            ),
            SignalingError::BadSubject(_) => text::after("malformed session subject ", shown),
            SignalingError::Denied => String::from_str(
                "connect offer denied: sender is not an authorized member",
            ),
            SignalingError::UnsupportedTransport(t) => {
                let name = match t {
                    Transport::Quic => "Quic",
                    Transport::WebRtc => "WebRtc",
                };
                text::between(
                    "unsupported transport ",
                    name,
                    " (this crate only implements Transport::Quic)",
                )
            },
            SignalingError::IceFailed => String::from_str(
                "ICE connectivity checks failed: connectivity checks exhausted with no pair selected",
            ),
            SignalingError::Ice(e) => text::after("ICE agent error: ", e.as_str()),
            SignalingError::Timeout(what) => text::after(what, " timed out"),
            SignalingError::Quic(e) => text::after("QUIC error: ", e.to_string().as_str()),
            SignalingError::Nats(e) => text::after("NATS error: ", e.as_str()),
            SignalingError::Io(e) => text::after("I/O error: ", e.as_str()),
        }
    }

    /// The error for use in logs, where nothing that a peer chose and no whole fingerprint may
    /// appear.
    pub fn redacted(&self) -> (view: RedactedSignalingError<'_>)
        ensures
            view.message() == self.redacted_message(),
    {
        RedactedSignalingError(self)
    }
}

/// A [`SignalingError`] whose message is redacted.
#[derive(Debug, Clone, Copy)]
pub struct RedactedSignalingError<'a>(&'a SignalingError);

impl<'a> RedactedSignalingError<'a> {
    /// What the message says.
    pub closed spec fn message(self) -> Seq<char> {
        self.0.redacted_message()
    }

    /// The message of the error.
    pub fn to_string(&self) -> (message: String)
        ensures
            message@ == self.message(),
    {
        match self.0 {
            SignalingError::EnvelopeDecode(e) => text::after(
                "envelope decode failed: ",
                e.redacted().to_string().as_str(),
            ),
            SignalingError::Payload(signaling::SignalingError::Proto(e)) => text::after(
                "signaling payload decode failed: ",
                e.redacted().to_string().as_str(),
            ),
            SignalingError::SubjectMismatch { subject } => text::around(
                "subject (withheld: ",
                subject.as_str().as_bytes().len() as u64,
                " bytes naming host_fp/client_fp/sid) does not match the expected session (host/client/sid/direction)",
            ),
            SignalingError::BadSubject(subject) => text::around(
                "malformed session subject (withheld: ",
                subject.as_str().as_bytes().len() as u64,
                " bytes)",
            ),
            SignalingError::Quic(
                QuicError::Connection(ConnectionFault::ApplicationClosed { code, reason }),
            ) => {
                let mut message = text::around(
                    "closed by peer: code ",
                    *code,
                    " (reason withheld: ",
                );
                text::push_decimal(&mut message, reason.len() as u64);
                message.append(" bytes of peer-supplied text)");
                message
            },
            SignalingError::Quic(
                QuicError::Connection(ConnectionFault::ConnectionClosed { code, reason }),
            ) => {
                let mut message = text::between(
                    "aborted by peer: code ",
                    code.as_str(),
                    " (reason withheld: ",
                );
                text::push_decimal(&mut message, reason.len() as u64);
                message.append(" bytes of peer-supplied text)");
                message
            },
            safe => safe.to_string(),
        }
    }
}

/// The variants whose messages can hold what a peer chose, or a whole fingerprint.
pub open spec fn is_sensitive(e: SignalingError) -> bool {
    match e {
        SignalingError::EnvelopeDecode(p) => p@ is UnknownField,
        SignalingError::Payload(p) => p@ matches signaling::SignalingFault::Proto(f) && f
            is UnknownField,
        SignalingError::SubjectMismatch { .. } => true,
        SignalingError::BadSubject(_) => true,
        SignalingError::Quic(QuicError::Connection(c)) => !(c is Other),
        _ => false,
    }
}

/// Redaction changes the message of no other error.
pub proof fn law_redaction_keeps_the_rest(e: SignalingError)
    requires
        !is_sensitive(e),
    ensures
        e.redacted_message() == e.message(),
{
}

/// A redacted message does not depend on the subject, the field name or the close reason in the
/// error, but for its size.
pub proof fn law_redaction_shows_sizes_only(a: SignalingError, b: SignalingError)
    requires
        match (a, b) {
            (SignalingError::EnvelopeDecode(p), SignalingError::EnvelopeDecode(q)) => {
                match (p@, q@) {
                    (Fault::UnknownField(m), Fault::UnknownField(n)) => encode_utf8(m).len() == encode_utf8(n).len(),
                    _ => false,
                }
            },
            (SignalingError::Payload(p), SignalingError::Payload(q)) => {
                match (p@, q@) {
                    (
                        signaling::SignalingFault::Proto(Fault::UnknownField(m)),
                        signaling::SignalingFault::Proto(Fault::UnknownField(n)),
                    ) => encode_utf8(m).len() == encode_utf8(n).len(),
                    _ => false,
                }
            },
            (
                SignalingError::SubjectMismatch { subject: s },
                SignalingError::SubjectMismatch { subject: t },
            ) => encode_utf8(s@).len() == encode_utf8(t@).len(),
            (SignalingError::BadSubject(s), SignalingError::BadSubject(t)) => encode_utf8(s@).len()
                == encode_utf8(t@).len(),
            (
                SignalingError::Quic(
                    QuicError::Connection(
                        ConnectionFault::ApplicationClosed { code: c, reason: r },
                    ),
                ),
                SignalingError::Quic(
                    QuicError::Connection(
                        ConnectionFault::ApplicationClosed { code: d, reason: s },
                    ),
                ),
            ) => c == d && r@.len() == s@.len(),
            (
                SignalingError::Quic(
                    QuicError::Connection(
                        ConnectionFault::ConnectionClosed { code: c, reason: r },
                    ),
                ),
                SignalingError::Quic(
                    QuicError::Connection(
                        ConnectionFault::ConnectionClosed { code: d, reason: s },
                    ),
                ),
            ) => c@ == d@ && r@.len() == s@.len(),
            _ => false,
        },
    ensures
        a.redacted_message() == b.redacted_message(),
{
}

/// Every failure has a message of its own.
pub proof fn law_failures_are_named(e: SignalingError, shown: Seq<char>)
    ensures
        e.message_showing(shown) == match e {
            SignalingError::Envelope(e) => "envelope rejected: "@ + e@,
            SignalingError::Payload(e) => "signaling payload decode failed: "@ + e@.message(),
            SignalingError::EnvelopeDecode(e) => "envelope decode failed: "@ + e@.message(),
            SignalingError::Fingerprint(e) => "malformed fingerprint: "@ + fingerprint_message(e),
            SignalingError::MissingEphPk => "envelope is missing the required eph_pk field"@,
            SignalingError::BadEphPk(n) => "eph_pk must be exactly 32 bytes, got "@ + text::decimal(
                n as nat,
            ),
            SignalingError::BadReplyPrefix =>
                "reply subject missing or does not start with the required _INBOX_<from_fp>. prefix"@,
            SignalingError::ReplyInboxMismatch =>
                "offer's signed inbox does not match the NATS reply subject"@,
            SignalingError::HostOffline =>
                "host is offline: no responders on the connect subject"@,
            SignalingError::SubjectMismatch { .. } => "subject "@ + shown
                + " does not match the expected session (host/client/sid/direction)"@,
            SignalingError::BadSubject(_) => "malformed session subject "@ + shown,
            SignalingError::Denied => "connect offer denied: sender is not an authorized member"@,
            SignalingError::UnsupportedTransport(t) => "unsupported transport "@ + transport_name(t)
                + " (this crate only implements Transport::Quic)"@,
            SignalingError::IceFailed =>
                "ICE connectivity checks failed: connectivity checks exhausted with no pair selected"@,
            SignalingError::Ice(e) => "ICE agent error: "@ + e@,
            SignalingError::Timeout(what) => what@ + " timed out"@,
            SignalingError::Quic(e) => "QUIC error: "@ + e.message(),
            SignalingError::Nats(e) => "NATS error: "@ + e@,
            SignalingError::Io(e) => "I/O error: "@ + e@,
        },
{
}

/// So has every failure in a log.
pub proof fn law_redacted_failures_are_named(e: SignalingError)
    ensures
        e.redacted_message() == match e {
            SignalingError::EnvelopeDecode(e) => "envelope decode failed: "@
                + e@.redacted_message(),
            SignalingError::Payload(e) => "signaling payload decode failed: "@
                + e@.redacted_message(),
            SignalingError::SubjectMismatch { subject } => "subject (withheld: "@ + text::decimal(
                encode_utf8(subject@).len(),
            )
                + " bytes naming host_fp/client_fp/sid) does not match the expected session (host/client/sid/direction)"@,
            SignalingError::BadSubject(subject) => "malformed session subject (withheld: "@
                + text::decimal(encode_utf8(subject@).len()) + " bytes)"@,
            SignalingError::Quic(
                QuicError::Connection(ConnectionFault::ApplicationClosed { code, reason }),
            ) => "closed by peer: code "@ + text::decimal(code as nat) + " (reason withheld: "@
                + text::decimal(reason@.len()) + " bytes of peer-supplied text)"@,
            SignalingError::Quic(
                QuicError::Connection(ConnectionFault::ConnectionClosed { code, reason }),
            ) => "aborted by peer: code "@ + code@ + " (reason withheld: "@ + text::decimal(
                reason@.len(),
            ) + " bytes of peer-supplied text)"@,
            _ => e.message(),
        },
{
}

/// The names in messages: of a transport, and of the length that a fingerprint has.
pub proof fn law_names_in_messages(e: SignalingError, actual: usize)
    ensures
        transport_name(Transport::Quic) == "Quic"@,
        transport_name(Transport::WebRtc) == "WebRtc"@,
        fingerprint_message(FingerprintError { actual }) == "fingerprint must be exactly "@
            + text::decimal(32) + " bytes, got "@ + text::decimal(actual as nat),
        e.message() == e.message_showing(
            text::quoted(
                match e {
                    SignalingError::SubjectMismatch { subject } => subject@,
                    SignalingError::BadSubject(subject) => subject@,
                    _ => Seq::empty(),
                },
            ),
        ),
{
}

} // verus!
