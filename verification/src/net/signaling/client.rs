//! The client's side of a connect.
use crate::net::fingerprint::Fingerprint;
use crate::net::signaling::error::SignalingError;
use crate::net::signaling::subject;
use crate::net::signaling::subject::{connect_subject, session_subject, IceDirection};
use crate::net::signaling::wire;
use crate::net::signaling::wire::{
    open_answer, open_answer_request, IceSession, KeyInputs, KeyModel, OfferContext, OpenRequest,
};
use crate::octets::copy_bytes;
use crate::proto::artifacts::capability::Capability;
use crate::proto::artifacts::envelope::{Envelope, EnvelopeModel};
use crate::proto::signaling;
use crate::proto::signaling::{
    AnswerModel, AnswerPayload, OfferModel, OfferPayload, Transport, KIND_ANSWER,
};
use vstd::prelude::*;

verus! {

/// The status of a reply that says that nobody is subscribed to the subject of the request.
pub const NO_RESPONDERS: u16 = 503;

/// How long to wait for ICE to select a pair unless told otherwise, in seconds.
pub const DEFAULT_ICE_TIMEOUT_SECS: u64 = 10;

/// How long to wait for the answer unless told otherwise, in seconds.
pub const DEFAULT_ANSWER_TIMEOUT_SECS: u64 = 5;

/// The user fragment in the offer of a refresh, which never gets to ICE.
pub const REFRESH_ONLY_UFRAG: &'static str = "refresh-only-ufrag";

/// The password in the offer of a refresh.
pub const REFRESH_ONLY_PWD: &'static str = "refresh-only-password-placeholder";

/// The host to connect to, as the caller knows it.
///
/// A host has two fingerprints, and they are never equal: subjects are scoped by that of its root
/// key, envelopes are sealed to that of its device key.
#[derive(Debug, Clone, Copy, PartialEq, Eq)]
pub struct HostIdentity {
    /// The root fingerprint. It appears in subjects only.
    pub host_fp: Fingerprint,
    /// The device fingerprint. It appears in envelopes only.
    pub device_fp: Fingerprint,
    pub sign_pk: [u8; 32],
    pub agree_pk: [u8; 32],
}

/// How long the phases of a connect took, in nanoseconds, from the moment the offer was published.
#[derive(Debug, Clone, Copy, PartialEq, Eq, Structural)]
pub struct ConnectTimings {
    /// Until the answer was there and verified.
    pub offer_to_answer: u64,
    /// From then until ICE had selected a pair.
    pub answer_to_ice_selected: u64,
    /// From then until the handshake was complete.
    pub ice_selected_to_quic: u64,
    /// From the offer until the handshake was complete.
    pub offer_to_quic_complete: u64,
}

/// The time between two moments, zero where they are the wrong way round.
pub open spec fn elapsed(from: u64, to: u64) -> u64 {
    if to > from {
        (to - from) as u64
    } else {
        0
    }
}

fn elapsed_nanos(from: u64, to: u64) -> (nanos: u64)
    ensures
        nanos == elapsed(from, to),
{
    if to > from {
        to - from
    } else {
        0
    }
}

impl ConnectTimings {
    /// The timings of a connect from the moments at which its phases ended.
    pub fn from_moments(
        offer_sent: u64,
        answer_opened: u64,
        ice_selected: u64,
        quic_complete: u64,
    ) -> (timings: ConnectTimings)
        ensures
            timings.offer_to_answer == elapsed(offer_sent, answer_opened),
            timings.answer_to_ice_selected == elapsed(answer_opened, ice_selected),
            timings.ice_selected_to_quic == elapsed(ice_selected, quic_complete),
            timings.offer_to_quic_complete == elapsed(offer_sent, quic_complete),
    {
        ConnectTimings {
            offer_to_answer: elapsed_nanos(offer_sent, answer_opened),
            answer_to_ice_selected: elapsed_nanos(answer_opened, ice_selected),
            ice_selected_to_quic: elapsed_nanos(ice_selected, quic_complete),
            offer_to_quic_complete: elapsed_nanos(offer_sent, quic_complete),
        }
    }
}

/// The phases of a connect add up to the whole.
pub proof fn law_phases_add_up(
    offer_sent: u64,
    answer_opened: u64,
    ice_selected: u64,
    quic_complete: u64,
)
    requires
        offer_sent <= answer_opened <= ice_selected <= quic_complete,
    ensures
        elapsed(offer_sent, quic_complete) == elapsed(offer_sent, answer_opened) + elapsed(
            answer_opened,
            ice_selected,
        ) + elapsed(ice_selected, quic_complete),
{
}

/// The offer of a connect. The reply subject in it is the one that the client listens on.
pub fn offer_payload(inbox: String, ufrag: String, pwd: String, cert_fp: [u8; 32]) -> (offer:
    OfferPayload)
    ensures
        offer@ == (OfferModel {
            inbox: inbox@,
            transport: Transport::Quic,
            ufrag: ufrag@,
            pwd: pwd@,
            cert_fp: cert_fp@,
        }),
{
    OfferPayload { inbox, transport: Transport::Quic, ufrag, pwd, cert_fp }
}

/// Whether the reply says that the host is offline. Such a reply comes at once, so there is no need
/// to wait for a timeout.
pub fn reject_no_responders(status: Option<u16>) -> (r: Result<(), SignalingError>)
    ensures
        match r {
            Ok(_) => status != Some(NO_RESPONDERS),
            Err(e) => status == Some(NO_RESPONDERS) && e is HostOffline,
        },
{
    match status {
        Some(code) => if code == NO_RESPONDERS {
            Err(SignalingError::HostOffline)
        } else {
            Ok(())
        },
        None => Ok(()),
    }
}

/// What a client works with in one connect.
pub struct ClientSession {
    pub host: HostIdentity,
    pub device_fp: Fingerprint,
    pub ctx: OfferContext,
}

impl ClientSession {
    /// The subject to publish the offer on.
    pub fn connect_subject(&self) -> (subject: String)
        ensures
            subject@ == subject::connect_text(self.host.host_fp@),
    {
        connect_subject(&self.host.host_fp)
    }

    /// The subject of ICE messages that go the given way.
    pub fn ice_subject(&self, direction: IceDirection) -> (subject: String)
        ensures
            subject@ == subject::session_text(
                self.host.host_fp@,
                self.device_fp@,
                self.ctx.sid@,
                direction,
            ),
    {
        session_subject(
            &self.host.host_fp,
            &self.device_fp,
            self.ctx.sid.as_slice(),
            direction,
        )
    }

    /// The ICE messages to expect from the host.
    pub fn ice_session(&self) -> (session: IceSession)
        ensures
            session.host_fp == self.host.host_fp,
            session.client_fp == self.device_fp,
            session.sid@ == self.ctx.sid@,
            session.direction == IceDirection::HostToClient,
            session.self_fp == self.device_fp,
            session.peer_fp == self.host.device_fp,
    {
        IceSession {
            host_fp: self.host.host_fp,
            client_fp: self.device_fp,
            sid: copy_bytes(self.ctx.sid.as_slice()),
            direction: IceDirection::HostToClient,
            self_fp: self.device_fp,
            peer_fp: self.host.device_fp,
        }
    }

    /// The envelope in the reply to the offer, and what to ask the cipher about it.
    pub fn on_reply(
        &self,
        status: Option<u16>,
        payload: &[u8],
        dev_dh: [u8; 32],
        now: u64,
    ) -> (r: Result<(Envelope, KeyInputs, OpenRequest), SignalingError>)
        ensures
            if status == Some(NO_RESPONDERS) {
                r matches Err(e) && e is HostOffline
            } else {
                match EnvelopeModel::parse(payload@) {
                    Err(f) => r matches Err(e) && (e matches SignalingError::EnvelopeDecode(p)
                        && p@ == f),
                    Ok(env) => match r {
                        Err(e) => wire::bad_eph_pk(env.eph_pk, e),
                        Ok((found, key, request)) => {
                            &&& found@ == env
                            &&& env.eph_pk matches Some(eph_pk) && eph_pk.len()
                                == wire::EPH_PK_LEN && key@ == (KeyModel {
                                eph_dh: crate::net::agreement::shared_of(
                                    self.ctx.eph_c.secret(),
                                    eph_pk,
                                ),
                                dev_dh: dev_dh@,
                                sid: self.ctx.sid@,
                                client_fp: self.device_fp@,
                                host_fp: self.host.device_fp@,
                            })
                            &&& request@ == wire::open_model(
                                self.device_fp@,
                                self.ctx.sid@,
                                Some(self.host.device_fp@),
                                None,
                                now,
                                KIND_ANSWER,
                            )
                        },
                    },
                }
            },
    {
        reject_no_responders(status)?;
        match Envelope::from_canonical_bytes(payload) {
            Err(e) => Err(SignalingError::EnvelopeDecode(e)),
            Ok(env) => {
                let (key, request) = open_answer_request(
                    &env,
                    &self.ctx,
                    dev_dh,
                    self.device_fp,
                    self.host.device_fp,
                    now,
                )?;
                Ok((env, key, request))
            },
        }
    }

    /// The answer, from the cipher's reply. Its transport must be the one that was asked for.
    pub fn on_opened(&self, opened: Result<Vec<u8>, String>) -> (r: Result<
        AnswerPayload,
        SignalingError,
    >)
        ensures
            match opened {
                Err(said) => r matches Err(e) && wire::refused(said, e),
                Ok(plaintext) => match AnswerModel::parse(plaintext@) {
                    Err(f) => r matches Err(e) && wire::bad_payload(f, e),
                    Ok(m) => if m.transport == Transport::Quic {
                        r matches Ok(answer) && answer@ == m
                    } else {
                        r == Err::<AnswerPayload, SignalingError>(
                            SignalingError::UnsupportedTransport(m.transport),
                        )
                    },
                },
            },
    {
        let answer = open_answer(opened)?;
        if answer.transport != Transport::Quic {
            return Err(SignalingError::UnsupportedTransport(answer.transport));
        }
        Ok(answer)
    }
}

/// What a refresh is for: the capability in the answer, none where the host has no key to issue one
/// with.
pub fn refreshed_capability(answer: AnswerPayload) -> (cap: Option<Capability>)
    ensures
        signaling::opt_capability(cap) == answer@.member_cap,
{
    answer.member_cap
}

/// The time between two moments is their difference, and there is none before the first.
pub proof fn law_elapsed_is_the_difference(from: u64, to: u64)
    ensures
        from <= to ==> from + elapsed(from, to) == to,
        to <= from ==> elapsed(from, to) == 0,
{
}

/// An answer is waited for half as long as a pair, and only one status of a reply means that nobody
/// is there.
pub proof fn law_times_are_in_proportion()
    ensures
        DEFAULT_ICE_TIMEOUT_SECS == 2 * DEFAULT_ANSWER_TIMEOUT_SECS,
        DEFAULT_ANSWER_TIMEOUT_SECS == 5,
        NO_RESPONDERS == 503,
{
}

} // verus!
