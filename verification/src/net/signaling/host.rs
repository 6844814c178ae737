//! The host's side of a connect.
//!
//! An offer goes through four judgements, each on what the one before has established: it must be an
//! envelope whose reply subject is one of its sender's own; the sender must be a member; the cipher
//! must open it and the reply subject must be the one that was signed; and the host must still want
//! it. Whatever fails, the offer is dropped without a reply.
use crate::net::fingerprint::{Fingerprint, FINGERPRINT_LEN};
use crate::net::signaling::authorize::{ConnectDecision, VerifiedDecision};
use crate::net::signaling::error::SignalingError;
use crate::net::signaling::subject;
use crate::net::signaling::subject::{reply_prefix_ok, session_subject, IceDirection};
use crate::net::signaling::wire;
use crate::net::signaling::wire::{
    eph_pk_of, open_offer, open_offer_request, IceSession, KeyInputs, KeyModel, OpenRequest,
    OpenedOffer,
};
use crate::octets::copy_bytes;
use crate::proto::artifacts::capability::Capability;
use crate::proto::artifacts::envelope::{Envelope, EnvelopeModel};
use crate::proto::signaling;
use crate::proto::signaling::{AnswerModel, AnswerPayload, OfferModel, Transport, KIND_OFFER};
use crate::text::same_text;
use vstd::prelude::*;

verus! {

/// How long to wait for ICE to select a pair unless told otherwise, in seconds.
pub const DEFAULT_ICE_TIMEOUT_SECS: u64 = 10;

/// How long to wait for the peer to close a session that is over, in seconds. A connection that is
/// dropped sooner can take with it what the peer has not read yet.
pub const DEFAULT_SESSION_CLOSE_TIMEOUT_SECS: u64 = 5;

/// How many offers are handled at once unless told otherwise. One more is dropped without a reply,
/// as any other that is refused: to queue it would only move the pile.
pub const DEFAULT_MAX_CONCURRENT_CONNECTS: usize = 64;

/// The answer to an offer.
pub fn build_answer_payload(
    ufrag: String,
    pwd: String,
    cert_fp: [u8; 32],
    member_cap: Option<Capability>,
) -> (answer: AnswerPayload)
    ensures
        answer@ == (AnswerModel {
            transport: Transport::Quic,
            ufrag: ufrag@,
            pwd: pwd@,
            cert_fp: cert_fp@,
            member_cap: signaling::opt_capability(member_cap),
        }),
{
    AnswerPayload { transport: Transport::Quic, ufrag, pwd, cert_fp, member_cap }
}

/// An offer whose reply subject is one of its sender's own. Nothing else is known of it: the sender
/// is who the envelope says.
pub struct ReceivedOffer {
    pub env: Envelope,
    pub from_fp: Fingerprint,
    pub reply: String,
}

impl ReceivedOffer {
    /// What was established of the offer.
    pub open spec fn wf(self) -> bool {
        &&& self.env@.from_fp == self.from_fp@
        &&& subject::is_own_inbox(Some(self.reply@), self.from_fp@)
    }
}

/// Takes in an offer. The sender is not asked about before the reply subject is in order.
pub fn receive_offer(payload: &[u8], reply: Option<&str>) -> (r: Result<
    ReceivedOffer,
    SignalingError,
>)
    ensures
        match EnvelopeModel::parse(payload@) {
            Err(f) => r matches Err(e) && (e matches SignalingError::EnvelopeDecode(p) && p@ == f),
            Ok(env) => if env.from_fp.len() != FINGERPRINT_LEN {
                r matches Err(e) && (e matches SignalingError::Fingerprint(p) && p.actual
                    == env.from_fp.len())
            } else if !subject::is_own_inbox(subject::opt_chars(reply), env.from_fp) {
                r matches Err(e) && e is BadReplyPrefix
            } else {
                r matches Ok(o) && o.wf() && o.env@ == env && Some(o.reply@) == subject::opt_chars(
                    reply,
                )
            },
        },
{
    let env = match Envelope::from_canonical_bytes(payload) {
        Ok(env) => env,
        Err(e) => {
            return Err(SignalingError::EnvelopeDecode(e));
        },
    };
    let from_fp = match Fingerprint::from_slice(env.from_fp.as_slice()) {
        Ok(fp) => fp,
        Err(e) => {
            return Err(SignalingError::Fingerprint(e));
        },
    };
    if !reply_prefix_ok(reply, &from_fp) {
        return Err(SignalingError::BadReplyPrefix);
    }
    match reply {
        None => Err(SignalingError::BadReplyPrefix),
        Some(r) => Ok(ReceivedOffer { env, from_fp, reply: String::from_str(r) }),
    }
}

/// An offer that a member may have sent: these keys will tell.
pub struct AuthorizedOffer {
    pub env: Envelope,
    pub from_fp: Fingerprint,
    pub reply: String,
    pub eph_pk_c: [u8; 32],
    pub sign_pk: [u8; 32],
    pub agree_pk: [u8; 32],
}

impl AuthorizedOffer {
    /// What was established of the offer.
    pub open spec fn wf(self) -> bool {
        &&& self.env@.from_fp == self.from_fp@
        &&& subject::is_own_inbox(Some(self.reply@), self.from_fp@)
        &&& self.env@.eph_pk == Some(self.eph_pk_c@)
    }

    /// What to ask the cipher, given what the host's device key agrees on with the ephemeral key in
    /// the offer and with the sender's own.
    pub fn open_request(
        &self,
        eph_dh: [u8; 32],
        dev_dh: [u8; 32],
        host_device_fp: Fingerprint,
        now: u64,
    ) -> (r: (KeyInputs, OpenRequest))
        ensures
            r.0@ == (KeyModel {
                eph_dh: eph_dh@,
                dev_dh: dev_dh@,
                sid: self.env@.sid,
                client_fp: self.from_fp@,
                host_fp: host_device_fp@,
            }),
            r.1@ == wire::open_model(host_device_fp@, self.env@.sid, None, None, now, KIND_OFFER),
    {
        open_offer_request(&self.env, self.from_fp, eph_dh, dev_dh, host_device_fp, now)
    }

    /// Takes the cipher's reply. The reply subject must be the one that the sender signed: another
    /// of its own subjects is not good enough.
    pub fn opened(self, dev_dh: [u8; 32], opened: Result<Vec<u8>, String>) -> (r: Result<
        VerifiedOffer,
        SignalingError,
    >)
        requires
            self.wf(),
        ensures
            is_opened(self, dev_dh, opened, r),
    {
        let opened = open_offer(
            &self.env,
            self.from_fp,
            self.eph_pk_c,
            dev_dh,
            self.sign_pk,
            opened,
        )?;
        if !same_text(self.reply.as_str(), opened.offer.inbox.as_str()) {
            return Err(SignalingError::ReplyInboxMismatch);
        }
        Ok(VerifiedOffer { opened, reply: self.reply })
    }
}

/// What the decision about the sender makes of an offer.
pub open spec fn is_authorized(
    offer: ReceivedOffer,
    decision: ConnectDecision,
    r: Result<AuthorizedOffer, SignalingError>,
) -> bool {
    match decision {
        ConnectDecision::Deny => r matches Err(e) && e is Denied,
        ConnectDecision::Allow { sign_pk, agree_pk } => match r {
            Err(e) => wire::bad_eph_pk(offer.env@.eph_pk, e),
            Ok(o) => {
                &&& o.wf()
                &&& o.env@ == offer.env@
                &&& o.from_fp == offer.from_fp
                &&& o.reply@ == offer.reply@
                &&& o.sign_pk == sign_pk
                &&& o.agree_pk == agree_pk
            },
        },
    }
}

/// What the cipher's reply makes of an offer.
pub open spec fn is_opened(
    offer: AuthorizedOffer,
    dev_dh: [u8; 32],
    opened: Result<Vec<u8>, String>,
    r: Result<VerifiedOffer, SignalingError>,
) -> bool {
    match opened {
        Err(said) => r matches Err(e) && wire::refused(said, e),
        Ok(plaintext) => match OfferModel::parse(plaintext@) {
            Err(f) => r matches Err(e) && wire::bad_payload(f, e),
            Ok(m) => if m.inbox != offer.reply@ {
                r matches Err(e) && e is ReplyInboxMismatch
            } else {
                r matches Ok(v) && {
                    &&& v.wf()
                    &&& v.reply@ == offer.reply@
                    &&& v.opened.offer@ == m
                    &&& v.opened.from_fp == offer.from_fp
                    &&& v.opened.sid@ == offer.env@.sid
                    &&& v.opened.sender_sign_pk == offer.sign_pk
                    &&& v.opened.dev_dh == dev_dh
                    &&& v.opened.eph_pk_c == offer.eph_pk_c
                }
            },
        },
    }
}

/// What the host's decision makes of an offer.
pub open spec fn is_decided(
    offer: VerifiedOffer,
    decision: VerifiedDecision,
    r: Result<AcceptedOffer, SignalingError>,
) -> bool {
    match decision {
        VerifiedDecision::Drop => r matches Err(e) && e is Denied,
        VerifiedDecision::Proceed { member_cap } => if offer.opened.offer.transport
            != Transport::Quic {
            r matches Err(e) && e == SignalingError::UnsupportedTransport(
                offer.opened.offer.transport,
            )
        } else {
            r matches Ok(a) && {
                &&& a.wf()
                &&& a.opened == offer.opened
                &&& a.reply == offer.reply
                &&& a.member_cap == member_cap
            }
        },
    }
}

impl ReceivedOffer {
    /// Takes the decision about the sender.
    pub fn authorized(self, decision: ConnectDecision) -> (r: Result<
        AuthorizedOffer,
        SignalingError,
    >)
        requires
            self.wf(),
        ensures
            is_authorized(self, decision, r),
    {
        match decision {
            ConnectDecision::Deny => Err(SignalingError::Denied),
            ConnectDecision::Allow { sign_pk, agree_pk } => match eph_pk_of(&self.env) {
                Err(e) => Err(e),
                Ok(eph_pk_c) => Ok(
                    AuthorizedOffer {
                        env: self.env,
                        from_fp: self.from_fp,
                        reply: self.reply,
                        eph_pk_c,
                        sign_pk,
                        agree_pk,
                    },
                ),
            },
        }
    }
}

/// An offer that its sender signed and that arrived the way the sender meant it to.
pub struct VerifiedOffer {
    pub opened: OpenedOffer,
    pub reply: String,
}

impl VerifiedOffer {
    /// The reply subject belongs to the sender and is the one that it signed.
    pub open spec fn wf(self) -> bool {
        &&& subject::is_own_inbox(Some(self.reply@), self.opened.from_fp@)
        &&& self.opened.offer@.inbox == self.reply@
    }

    /// Takes the host's decision. The transport must be one that the host implements.
    pub fn decided(self, decision: VerifiedDecision) -> (r: Result<AcceptedOffer, SignalingError>)
        requires
            self.wf(),
        ensures
            is_decided(self, decision, r),
    {
        match decision {
            VerifiedDecision::Drop => Err(SignalingError::Denied),
            VerifiedDecision::Proceed { member_cap } => {
                if self.opened.offer.transport != Transport::Quic {
                    return Err(SignalingError::UnsupportedTransport(self.opened.offer.transport));
                }
                Ok(AcceptedOffer { opened: self.opened, reply: self.reply, member_cap })
            },
        }
    }
}

/// An offer that the host answers.
pub struct AcceptedOffer {
    pub opened: OpenedOffer,
    pub reply: String,
    pub member_cap: Option<Capability>,
}

impl AcceptedOffer {
    /// What was established of an offer that the host answers.
    pub open spec fn wf(self) -> bool {
        &&& subject::is_own_inbox(Some(self.reply@), self.opened.from_fp@)
        &&& self.opened.offer@.inbox == self.reply@
        &&& self.opened.offer.transport == Transport::Quic
    }

    /// The answer, with the host's ICE credentials and the fingerprint of its session certificate.
    /// The capability goes into every answer, and is relayed as it is.
    pub fn answer(&self, ufrag: String, pwd: String, cert_fp: [u8; 32]) -> (answer: AnswerPayload)
        ensures
            answer@ == (AnswerModel {
                transport: Transport::Quic,
                ufrag: ufrag@,
                pwd: pwd@,
                cert_fp: cert_fp@,
                member_cap: signaling::opt_capability(self.member_cap),
            }),
    {
        let member_cap = match &self.member_cap {
            Some(cap) => Some(cap.copy()),
            None => None,
        };
        build_answer_payload(ufrag, pwd, cert_fp, member_cap)
    }

    /// The subject of ICE messages that go the given way. It names the host's root fingerprint.
    pub fn ice_subject(&self, host_fp: &Fingerprint, direction: IceDirection) -> (subject: String)
        ensures
            subject@ == subject::session_text(
                host_fp@,
                self.opened.from_fp@,
                self.opened.sid@,
                direction,
            ),
    {
        session_subject(host_fp, &self.opened.from_fp, self.opened.sid.as_slice(), direction)
    }

    /// The ICE messages to expect from the client.
    pub fn ice_session(&self, host_fp: Fingerprint, device_fp: Fingerprint) -> (session: IceSession)
        ensures
            session.host_fp == host_fp,
            session.client_fp == self.opened.from_fp,
            session.sid@ == self.opened.sid@,
            session.direction == IceDirection::ClientToHost,
            session.self_fp == device_fp,
            session.peer_fp == self.opened.from_fp,
    {
        IceSession {
            host_fp,
            client_fp: self.opened.from_fp,
            sid: copy_bytes(self.opened.sid.as_slice()),
            direction: IceDirection::ClientToHost,
            self_fp: device_fp,
            peer_fp: self.opened.from_fp,
        }
    }
}

/// An offer is answered only where its reply subject belongs to its sender alone and is the very one
/// that the sender signed, and its transport is QUIC.
pub proof fn law_answered_where_the_sender_meant(a: AcceptedOffer, other: Seq<u8>)
    requires
        a.wf(),
        other.len() == FINGERPRINT_LEN,
    ensures
        a.reply@ == a.opened.offer@.inbox,
        subject::is_own_inbox(Some(a.reply@), other) <==> other == a.opened.from_fp@,
        a.opened.offer@.transport == Transport::Quic,
{
    if subject::is_own_inbox(Some(a.reply@), other) {
        subject::law_inbox_owner_unique(Some(a.reply@), other, a.opened.from_fp@);
    }
}

} // verus!
