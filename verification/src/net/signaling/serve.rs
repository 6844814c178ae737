//! A host's answer to an offer, turn by turn.
//!
//! Whoever owns the connection performs an action, and hands back what came of it; the answer is the
//! next action. Whatever fails, the offer is dropped without a reply.
use crate::net::agreement::EphemeralKey;
use crate::net::fingerprint;
use crate::net::fingerprint::{Fingerprint, FINGERPRINT_LEN};
use crate::net::signaling::authorize::{ConnectDecision, VerifiedDecision};
use crate::net::signaling::connect::LocalSide;
use crate::net::signaling::error::SignalingError;
use crate::net::signaling::host;
use crate::net::signaling::host::{
    receive_offer, AcceptedOffer, AuthorizedOffer, ReceivedOffer, VerifiedOffer,
};
use crate::net::signaling::subject;
use crate::net::signaling::subject::IceDirection;
use crate::net::signaling::trickle;
use crate::net::signaling::trickle::own_ice_messages;
use crate::net::signaling::wire;
use crate::net::signaling::wire::{
    IceSession, KeyInputs, KeyModel, OpenRequest, SealModel, SealRequest, ENVELOPE_V1,
};
use crate::proto::artifacts::envelope::EnvelopeModel;
use crate::proto::signaling;
use crate::proto::signaling::{
    AnswerModel, IceModel, OfferModel, Transport, KIND_ANSWER, KIND_OFFER,
};
use crate::text;
use vstd::prelude::*;

verus! {

/// What does not change from offer to offer.
pub struct Host {
    /// The root fingerprint. It appears in subjects only.
    pub host_fp: Fingerprint,
    /// The device fingerprint. It appears in envelopes only.
    pub device_fp: Fingerprint,
    pub alg_id: u8,
}

/// What has been accomplished.
pub enum ServeState {
    /// The reply subject is one of the sender's own.
    Received(ReceivedOffer),
    /// The sender may be a member.
    Authorized(AuthorizedOffer),
    /// The offer is with the cipher, and this is what the devices' own keys agree on.
    Opening(AuthorizedOffer, [u8; 32]),
    /// The sender signed the offer.
    Verified(VerifiedOffer),
    /// The host wants the session.
    Accepted(AcceptedOffer),
    /// The session certificate and the local candidate are there.
    Prepared(AcceptedOffer, LocalSide),
    /// The client's ICE messages are subscribed to, and the answer is on its way, under the key of
    /// the session.
    Answering(AcceptedOffer, LocalSide, KeyInputs),
    /// The answer is out.
    Answered(AcceptedOffer, KeyInputs),
    /// The local candidate is out.
    Trickled(AcceptedOffer),
    /// ICE has selected a pair.
    Punched(AcceptedOffer),
    /// The session is being served.
    Serving,
    /// The session is over, but the peer may still be reading.
    Leaving,
    Finished,
}

/// What came of the last action.
pub enum ServeEvent {
    Decision(ConnectDecision),
    /// What the host's device key agrees on with the two keys.
    Agreed { eph_dh: [u8; 32], dev_dh: [u8; 32] },
    /// What the cipher says to the offer.
    Opened(Result<Vec<u8>, String>),
    Verdict(VerifiedDecision),
    Prepared(LocalSide),
    /// The subscription is there, and so is a fresh key for the session.
    Subscribed(EphemeralKey),
    Published,
    Punched,
    Handshaken,
    Served,
    Closed,
}

/// What to do next.
pub enum ServeAction {
    /// Find out about the sender. Nobody has proven to be it yet.
    Authorize(Fingerprint),
    /// Agree with the ephemeral key in the offer, and with the sender's own.
    Agree { eph_pk: [u8; 32], agree_pk: [u8; 32] },
    /// Have the cipher open the offer, under the sender's signing key.
    OpenOffer { key: KeyInputs, request: OpenRequest, sign_pk: [u8; 32] },
    /// Ask whether to go on. The sender is proven.
    Consult(Fingerprint),
    /// Make the session certificate and gather the local candidate.
    Prepare,
    /// Subscribe to this subject, and make a fresh key.
    SubscribeIce(String),
    /// Seal the answer and publish it on the reply subject.
    PublishAnswer { reply: String, key: KeyInputs, request: SealRequest },
    /// Seal both messages and publish them.
    PublishIce { subject: String, key: KeyInputs, candidate: SealRequest, end: SealRequest },
    /// Drive ICE to a pair, with these credentials and the messages of this session, which the
    /// cipher opens under this key and the sender's signing key.
    Punch {
        ufrag: String,
        pwd: String,
        session: IceSession,
        key: KeyInputs,
        sign_pk: [u8; 32],
    },
    /// Complete the handshake on the punched socket, pinned to this fingerprint.
    Handshake { cert_fp: [u8; 32] },
    /// Serve the session of this device.
    Serve(Fingerprint),
    /// Wait for the peer to close, so that what was written last is not lost.
    AwaitClose,
    Finish,
}

/// A turn: on to the next action, or the end of it.
pub enum ServeStep {
    Next(ServeState, ServeAction),
    Failed(SignalingError),
    /// The event is not one of the last action; nothing has changed.
    Unexpected(ServeState),
}

impl ServeState {
    /// What was established of the offer.
    pub open spec fn wf(self) -> bool {
        match self {
            ServeState::Received(o) => o.wf(),
            ServeState::Authorized(o) => o.wf(),
            ServeState::Opening(o, _) => o.wf(),
            ServeState::Verified(o) => o.wf(),
            ServeState::Accepted(o) => o.wf(),
            ServeState::Prepared(o, _) => o.wf(),
            ServeState::Answering(o, _, _) => o.wf(),
            ServeState::Answered(o, _) => o.wf(),
            ServeState::Trickled(o) => o.wf(),
            ServeState::Punched(o) => o.wf(),
            _ => true,
        }
    }

    /// The device that the offer comes from, as long as there is an offer.
    pub open spec fn sender(self) -> Option<Fingerprint> {
        match self {
            ServeState::Received(o) => Some(o.from_fp),
            ServeState::Authorized(o) => Some(o.from_fp),
            ServeState::Opening(o, _) => Some(o.from_fp),
            ServeState::Verified(o) => Some(o.opened.from_fp),
            ServeState::Accepted(o) => Some(o.opened.from_fp),
            ServeState::Prepared(o, _) => Some(o.opened.from_fp),
            ServeState::Answering(o, _, _) => Some(o.opened.from_fp),
            ServeState::Answered(o, _) => Some(o.opened.from_fp),
            ServeState::Trickled(o) => Some(o.opened.from_fp),
            ServeState::Punched(o) => Some(o.opened.from_fp),
            _ => None,
        }
    }

    /// The key that the sender signs with, from when it is known to when it is last needed.
    pub open spec fn sign_pk(self) -> Option<[u8; 32]> {
        match self {
            ServeState::Authorized(o) => Some(o.sign_pk),
            ServeState::Opening(o, _) => Some(o.sign_pk),
            ServeState::Verified(o) => Some(o.opened.sender_sign_pk),
            ServeState::Accepted(o) => Some(o.opened.sender_sign_pk),
            ServeState::Prepared(o, _) => Some(o.opened.sender_sign_pk),
            ServeState::Answering(o, _, _) => Some(o.opened.sender_sign_pk),
            ServeState::Answered(o, _) => Some(o.opened.sender_sign_pk),
            _ => None,
        }
    }
}

/// The key and the contents of the answer that is published.
pub open spec fn is_answer(
    h: Host,
    offer: AcceptedOffer,
    local: LocalSide,
    eph_h: EphemeralKey,
    now: u64,
    key: KeyInputs,
    request: SealRequest,
) -> bool {
    &&& key@ == offer.opened.session_key(eph_h, h.device_fp@)
    &&& request@ == (SealModel {
        v: ENVELOPE_V1,
        alg_id: h.alg_id,
        from_fp: h.device_fp@,
        to_fp: offer.opened.from_fp@,
        sid: offer.opened.sid@,
        kind: KIND_ANSWER,
        seq: 0,
        ts: now,
        eph_pk: Some(eph_h.public()),
        plaintext: (AnswerModel {
            transport: Transport::Quic,
            ufrag: local.ufrag@,
            pwd: local.pwd@,
            cert_fp: local.cert_fp@,
            member_cap: signaling::opt_capability(offer.member_cap),
        }).bytes(),
    })
}

/// The subject of ICE messages that go the given way.
pub open spec fn ice_text(h: Host, offer: AcceptedOffer, direction: IceDirection) -> Seq<char> {
    subject::session_text(h.host_fp@, offer.opened.from_fp@, offer.opened.sid@, direction)
}

/// The ICE messages that the host sends.
pub open spec fn are_own_messages(
    h: Host,
    offer: AcceptedOffer,
    local: LocalSide,
    now: u64,
    candidate: SealRequest,
    end: SealRequest,
) -> bool {
    &&& candidate@ == trickle::ice_message(
        h.alg_id,
        h.device_fp@,
        offer.opened.from_fp@,
        offer.opened.sid@,
        trickle::FIRST_ICE_SEQ,
        now,
        IceModel { candidate: Some(local.candidate_line@), end_of_candidates: false },
    )
    &&& end@ == trickle::ice_message(
        h.alg_id,
        h.device_fp@,
        offer.opened.from_fp@,
        offer.opened.sid@,
        (trickle::FIRST_ICE_SEQ + 1) as u64,
        now,
        IceModel { candidate: None, end_of_candidates: true },
    )
}

/// The ICE messages that the host expects.
pub open spec fn expects(h: Host, offer: AcceptedOffer, session: IceSession) -> bool {
    &&& session.host_fp == h.host_fp
    &&& session.client_fp == offer.opened.from_fp
    &&& session.sid@ == offer.opened.sid@
    &&& session.direction == IceDirection::ClientToHost
    &&& session.self_fp == h.device_fp
    &&& session.peer_fp == offer.opened.from_fp
}

/// What an event leads to.
#[verifier::opaque]
pub open spec fn is_step(
    h: Host,
    state: ServeState,
    event: ServeEvent,
    now: u64,
    r: ServeStep,
) -> bool {
    match (state, event) {
        (ServeState::Received(o), ServeEvent::Decision(decision)) => match r {
            ServeStep::Next(ServeState::Authorized(a), ServeAction::Agree { eph_pk, agree_pk }) => {
                &&& host::is_authorized(o, decision, Ok(a))
                &&& eph_pk == a.eph_pk_c
                &&& agree_pk == a.agree_pk
            },
            ServeStep::Failed(e) => host::is_authorized(o, decision, Err(e)),
            _ => false,
        },
        (ServeState::Authorized(a), ServeEvent::Agreed { eph_dh, dev_dh }) => {
            r matches ServeStep::Next(
                ServeState::Opening(kept, shared),
                ServeAction::OpenOffer { key, request, sign_pk },
            ) && {
                &&& kept == a
                &&& shared == dev_dh
                &&& sign_pk == a.sign_pk
                &&& key@ == (KeyModel {
                    eph_dh: eph_dh@,
                    dev_dh: dev_dh@,
                    sid: a.env@.sid,
                    client_fp: a.from_fp@,
                    host_fp: h.device_fp@,
                })
                &&& request@ == wire::open_model(
                    h.device_fp@,
                    a.env@.sid,
                    None,
                    None,
                    now,
                    KIND_OFFER,
                )
            }
        },
        (ServeState::Opening(a, dev_dh), ServeEvent::Opened(opened)) => match r {
            ServeStep::Next(ServeState::Verified(v), ServeAction::Consult(fp)) => {
                &&& host::is_opened(a, dev_dh, opened, Ok(v))
                &&& fp == v.opened.from_fp
            },
            ServeStep::Failed(e) => host::is_opened(a, dev_dh, opened, Err(e)),
            _ => false,
        },
        (ServeState::Verified(v), ServeEvent::Verdict(decision)) => match r {
            ServeStep::Next(ServeState::Accepted(o), ServeAction::Prepare) => host::is_decided(
                v,
                decision,
                Ok(o),
            ),
            ServeStep::Failed(e) => host::is_decided(v, decision, Err(e)),
            _ => false,
        },
        (ServeState::Accepted(o), ServeEvent::Prepared(local)) => {
            r matches ServeStep::Next(
                ServeState::Prepared(kept, side),
                ServeAction::SubscribeIce(subject),
            ) && kept == o && side == local && subject@ == ice_text(
                h,
                o,
                IceDirection::ClientToHost,
            )
        },
        (ServeState::Prepared(o, local), ServeEvent::Subscribed(eph_h)) => {
            r matches ServeStep::Next(
                ServeState::Answering(kept, side, held),
                ServeAction::PublishAnswer { reply, key, request },
            ) && {
                &&& kept == o
                &&& side == local
                &&& held@ == key@
                &&& reply@ == o.reply@
                &&& is_answer(h, o, local, eph_h, now, key, request)
            }
        },
        (ServeState::Answering(o, local, held), ServeEvent::Published) => {
            r matches ServeStep::Next(
                ServeState::Answered(kept, still_held),
                ServeAction::PublishIce { subject, key, candidate, end },
            ) && {
                &&& kept == o
                &&& still_held@ == held@
                &&& key@ == held@
                &&& subject@ == ice_text(h, o, IceDirection::HostToClient)
                &&& are_own_messages(h, o, local, now, candidate, end)
            }
        },
        (ServeState::Answered(o, held), ServeEvent::Published) => {
            r matches ServeStep::Next(
                ServeState::Trickled(kept),
                ServeAction::Punch { ufrag, pwd, session, key, sign_pk },
            ) && {
                &&& kept == o
                &&& key@ == held@
                &&& sign_pk == o.opened.sender_sign_pk
                &&& ufrag@ == o.opened.offer.ufrag@
                &&& pwd@ == o.opened.offer.pwd@
                &&& expects(h, o, session)
            }
        },
        (ServeState::Trickled(o), ServeEvent::Punched) => {
            r == ServeStep::Next(
                ServeState::Punched(o),
                ServeAction::Handshake { cert_fp: o.opened.offer.cert_fp },
            )
        },
        (ServeState::Punched(o), ServeEvent::Handshaken) => {
            r == ServeStep::Next(ServeState::Serving, ServeAction::Serve(o.opened.from_fp))
        },
        (ServeState::Serving, ServeEvent::Served) => {
            r == ServeStep::Next(ServeState::Leaving, ServeAction::AwaitClose)
        },
        (ServeState::Leaving, ServeEvent::Closed) => {
            r == ServeStep::Next(ServeState::Finished, ServeAction::Finish)
        },
        _ => r == ServeStep::Unexpected(state),
    }
}

/// Whether the time goes into what an event leads to: into a message that is sealed, or into the
/// request to open one.
pub open spec fn reads_clock(state: ServeState, event: ServeEvent) -> bool {
    match (state, event) {
        (ServeState::Authorized(_), ServeEvent::Agreed { .. }) => true,
        (ServeState::Prepared(_, _), ServeEvent::Subscribed(_)) => true,
        (ServeState::Answering(_, _, _), ServeEvent::Published) => true,
        _ => false,
    }
}

/// The action of a step holds the time that the step was taken at.
pub open spec fn holds_time(step: ServeStep) -> bool {
    step matches ServeStep::Next(_, action) && (action is OpenOffer || action is PublishAnswer
        || action is PublishIce)
}

/// The time is held exactly where it is read, and where it is not, a step is the same at any time.
proof fn lemma_clock(h: Host, state: ServeState, event: ServeEvent, now: u64, r: ServeStep)
    requires
        is_step(h, state, event, now, r),
    ensures
        holds_time(r) == reads_clock(state, event),
        !reads_clock(state, event) ==> forall|then: u64| is_step(h, state, event, then, r),
{
    reveal(is_step);
}

impl Host {
    /// Takes in an offer. One that nobody waits for a reply to is not even read, and the sender is
    /// not asked about before the reply subject is in order.
    pub fn receive(&self, payload: &[u8], reply: Option<&str>) -> (r: Result<
        (ServeState, ServeAction),
        SignalingError,
    >)
        ensures
            reply is None ==> (r matches Err(e) && e is BadReplyPrefix),
            reply is Some ==> match EnvelopeModel::parse(payload@) {
                Err(f) => r matches Err(e) && (e matches SignalingError::EnvelopeDecode(p) && p@
                    == f),
                Ok(env) => if env.from_fp.len() != FINGERPRINT_LEN {
                    r matches Err(e) && (e matches SignalingError::Fingerprint(p) && p.actual
                        == env.from_fp.len())
                } else if !subject::is_own_inbox(subject::opt_chars(reply), env.from_fp) {
                    r matches Err(e) && e is BadReplyPrefix
                } else {
                    r matches Ok((ServeState::Received(o), ServeAction::Authorize(fp))) && {
                        &&& o.wf()
                        &&& o.env@ == env
                        &&& Some(o.reply@) == subject::opt_chars(reply)
                        &&& fp == o.from_fp
                    }
                },
            },
    {
        if reply.is_none() {
            return Err(SignalingError::BadReplyPrefix);
        }
        let offer = receive_offer(payload, reply)?;
        let from_fp = offer.from_fp;
        Ok((ServeState::Received(offer), ServeAction::Authorize(from_fp)))
    }

    /// Takes what came of the last action, by the system's clock, and says what to do next; none
    /// where the time goes into it and the clock is set before 1970.
    pub fn advance(&self, state: ServeState, event: ServeEvent) -> (r: Option<ServeStep>)
        requires
            state.wf(),
        ensures
            match r {
                Some(step) => if reads_clock(state, event) {
                    exists|now: u64| is_step(*self, state, event, now, step)
                } else {
                    forall|now: u64| is_step(*self, state, event, now, step)
                },
                None => reads_clock(state, event),
            },
            r matches Some(ServeStep::Next(next, _)) ==> next.wf(),
    {
        let clock = wire::now();
        let r = self.step_by(state, event, clock);
        proof {
            if clock is Some {
                lemma_clock(*self, state, event, clock->0, r->0);
            }
        }
        r
    }

    /// Takes what came of the last action, by the given clock, and says what to do next. A clock
    /// that shows no time is enough where none goes into it.
    pub fn step_by(&self, state: ServeState, event: ServeEvent, clock: Option<u64>) -> (r: Option<
        ServeStep,
    >)
        requires
            state.wf(),
        ensures
            match (clock, r) {
                (Some(now), Some(step)) => is_step(*self, state, event, now, step),
                (Some(_), None) => false,
                (None, Some(step)) => !reads_clock(state, event) && forall|now: u64|
                    is_step(*self, state, event, now, step),
                (None, None) => reads_clock(state, event),
            },
            r matches Some(ServeStep::Next(next, _)) ==> next.wf(),
    {
        match clock {
            Some(now) => Some(self.step(state, event, now)),
            None => {
                let step = self.step(state, event, 0);
                proof {
                    lemma_clock(*self, state, event, 0, step);
                }
                match step {
                    ServeStep::Next(_, ServeAction::OpenOffer { .. }) => None,
                    ServeStep::Next(_, ServeAction::PublishAnswer { .. }) => None,
                    ServeStep::Next(_, ServeAction::PublishIce { .. }) => None,
                    timeless => Some(timeless),
                }
            },
        }
    }

    /// Takes what came of the last action, at the given time, and says what to do next.
    pub fn step(&self, state: ServeState, event: ServeEvent, now: u64) -> (r: ServeStep)
        requires
            state.wf(),
        ensures
            is_step(*self, state, event, now, r),
            r matches ServeStep::Next(next, _) ==> next.wf(),
    {
        reveal(is_step);
        match (state, event) {
            (ServeState::Received(o), ServeEvent::Decision(decision)) => {
                match o.authorized(decision) {
                    Err(e) => ServeStep::Failed(e),
                    Ok(a) => {
                        let eph_pk = a.eph_pk_c;
                        let agree_pk = a.agree_pk;
                        ServeStep::Next(
                            ServeState::Authorized(a),
                            ServeAction::Agree { eph_pk, agree_pk },
                        )
                    },
                }
            },
            (ServeState::Authorized(a), ServeEvent::Agreed { eph_dh, dev_dh }) => {
                let (key, request) = a.open_request(eph_dh, dev_dh, self.device_fp, now);
                let sign_pk = a.sign_pk;
                ServeStep::Next(
                    ServeState::Opening(a, dev_dh),
                    ServeAction::OpenOffer { key, request, sign_pk },
                )
            },
            (ServeState::Opening(a, dev_dh), ServeEvent::Opened(opened)) => {
                match a.opened(dev_dh, opened) {
                    Err(e) => ServeStep::Failed(e),
                    Ok(v) => {
                        let from_fp = v.opened.from_fp;
                        ServeStep::Next(ServeState::Verified(v), ServeAction::Consult(from_fp))
                    },
                }
            },
            (ServeState::Verified(v), ServeEvent::Verdict(decision)) => {
                match v.decided(decision) {
                    Err(e) => ServeStep::Failed(e),
                    Ok(o) => ServeStep::Next(ServeState::Accepted(o), ServeAction::Prepare),
                }
            },
            (ServeState::Accepted(o), ServeEvent::Prepared(local)) => {
                let subject = o.ice_subject(&self.host_fp, IceDirection::ClientToHost);
                ServeStep::Next(
                    ServeState::Prepared(o, local),
                    ServeAction::SubscribeIce(subject),
                )
            },
            (ServeState::Prepared(o, local), ServeEvent::Subscribed(eph_h)) => {
                let answer = o.answer(
                    String::from_str(local.ufrag.as_str()),
                    String::from_str(local.pwd.as_str()),
                    local.cert_fp,
                );
                let (key, request) = o.opened.seal_answer_with(
                    &eph_h,
                    self.alg_id,
                    self.device_fp,
                    now,
                    &answer,
                );
                let reply = String::from_str(o.reply.as_str());
                let held = key.copy();
                ServeStep::Next(
                    ServeState::Answering(o, local, held),
                    ServeAction::PublishAnswer { reply, key, request },
                )
            },
            (ServeState::Answering(o, local, held), ServeEvent::Published) => {
                let (candidate, end) = own_ice_messages(
                    self.alg_id,
                    self.device_fp,
                    o.opened.from_fp,
                    o.opened.sid.as_slice(),
                    now,
                    local.candidate_line.as_str(),
                );
                let subject = o.ice_subject(&self.host_fp, IceDirection::HostToClient);
                let key = held.copy();
                ServeStep::Next(
                    ServeState::Answered(o, held),
                    ServeAction::PublishIce { subject, key, candidate, end },
                )
            },
            (ServeState::Answered(o, key), ServeEvent::Published) => {
                let ufrag = String::from_str(o.opened.offer.ufrag.as_str());
                let pwd = String::from_str(o.opened.offer.pwd.as_str());
                let session = o.ice_session(self.host_fp, self.device_fp);
                let sign_pk = o.opened.sender_sign_pk;
                ServeStep::Next(
                    ServeState::Trickled(o),
                    ServeAction::Punch { ufrag, pwd, session, key, sign_pk },
                )
            },
            (ServeState::Trickled(o), ServeEvent::Punched) => {
                let cert_fp = o.opened.offer.cert_fp;
                ServeStep::Next(ServeState::Punched(o), ServeAction::Handshake { cert_fp })
            },
            (ServeState::Punched(o), ServeEvent::Handshaken) => ServeStep::Next(
                ServeState::Serving,
                ServeAction::Serve(o.opened.from_fp),
            ),
            (ServeState::Serving, ServeEvent::Served) => ServeStep::Next(
                ServeState::Leaving,
                ServeAction::AwaitClose,
            ),
            (ServeState::Leaving, ServeEvent::Closed) => ServeStep::Next(
                ServeState::Finished,
                ServeAction::Finish,
            ),
            (state, _) => ServeStep::Unexpected(state),
        }
    }
}

/// One turn of a run.
pub struct Turn {
    pub event: ServeEvent,
    pub now: u64,
    pub state: ServeState,
    pub action: ServeAction,
}

/// The state before turn `i`.
pub open spec fn before(start: ServeState, run: Seq<Turn>, i: int) -> ServeState {
    if i == 0 {
        start
    } else {
        run[i - 1].state
    }
}

/// The turns follow from each other.
pub open spec fn is_run(h: Host, start: ServeState, run: Seq<Turn>) -> bool {
    forall|i: int|
        0 <= i < run.len() ==> is_step(
            h,
            before(start, run, i),
            (#[trigger] run[i]).event,
            run[i].now,
            ServeStep::Next(run[i].state, run[i].action),
        )
}

/// How many turns lead to a state.
pub open spec fn turns_to(state: ServeState) -> int {
    match state {
        ServeState::Received(_) => 0,
        ServeState::Authorized(_) => 1,
        ServeState::Opening(_, _) => 2,
        ServeState::Verified(_) => 3,
        ServeState::Accepted(_) => 4,
        ServeState::Prepared(_, _) => 5,
        ServeState::Answering(_, _, _) => 6,
        ServeState::Answered(_, _) => 7,
        ServeState::Trickled(_) => 8,
        ServeState::Punched(_) => 9,
        ServeState::Serving => 10,
        ServeState::Leaving => 11,
        ServeState::Finished => 12,
    }
}

/// What a turn says of the states around it.
proof fn lemma_turn(
    h: Host,
    state: ServeState,
    event: ServeEvent,
    now: u64,
    next: ServeState,
    action: ServeAction,
)
    requires
        state.wf(),
        is_step(h, state, event, now, ServeStep::Next(next, action)),
    ensures
        next.wf(),
        turns_to(next) == turns_to(state) + 1,
        next.sender() is Some ==> next.sender() == state.sender(),
        action is Consult <==> state is Opening,
        state is Opening ==> event is Opened && event->Opened_0 is Ok,
        action is SubscribeIce <==> state is Accepted,
        action is PublishAnswer <==> state is Prepared,
        state is Prepared ==> event is Subscribed && action->reply@ == state->Prepared_0.reply@,
        action is OpenOffer <==> state is Authorized,
        action is OpenOffer ==> Some(action->OpenOffer_sign_pk) == next.sign_pk(),
        state.sign_pk() is Some && next.sign_pk() is Some ==> next.sign_pk() == state.sign_pk(),
        state is Prepared ==> next is Answering && next->Answering_2@ == action->PublishAnswer_key@,
        action is PublishIce <==> state is Answering,
        state is Answering ==> next is Answered && action->PublishIce_key@ == state->Answering_2@
            && next->Answered_1@ == state->Answering_2@,
        action is Punch <==> state is Answered,
        state is Answered ==> action->Punch_key@ == state->Answered_1@ && Some(
            action->Punch_sign_pk,
        ) == state.sign_pk(),
        action is Serve <==> state is Punched,
        state is Punched ==> event is Handshaken && Some(action->Serve_0) == state.sender(),
        action is AwaitClose <==> state is Serving,
{
    reveal(is_step);
}

/// What turn `i` of a run says.
proof fn lemma_turn_of(h: Host, start: ServeState, run: Seq<Turn>, i: int)
    requires
        start is Received,
        start.wf(),
        is_run(h, start, run),
        0 <= i < run.len(),
    ensures
        run[i].state.wf(),
        before(start, run, i).wf(),
        turns_to(before(start, run, i)) == i,
        turns_to(run[i].state) == i + 1,
        before(start, run, i).sender() is Some ==> before(start, run, i).sender() == start.sender(),
        run[i].state.sender() is Some ==> run[i].state.sender() == start.sender(),
        run[i].action is Consult <==> i == 2,
        i == 2 ==> run[i].event is Opened && run[i].event->Opened_0 is Ok,
        run[i].action is SubscribeIce <==> i == 4,
        run[i].action is PublishAnswer <==> i == 5,
        i == 5 ==> run[i].event is Subscribed && before(start, run, i) is Prepared
            && run[i].action->reply@ == before(start, run, i)->Prepared_0.reply@,
        run[i].action is OpenOffer <==> i == 1,
        1 <= i < 7 ==> run[i].state.sign_pk() == Some(run[1].action->OpenOffer_sign_pk),
        i == 5 ==> run[i].state->Answering_2@ == run[i].action->PublishAnswer_key@,
        run[i].action is PublishIce <==> i == 6,
        i == 6 ==> run[i].action->PublishIce_key@ == run[i - 1].state->Answering_2@
            && run[i].state->Answered_1@ == run[i - 1].state->Answering_2@,
        run[i].action is Punch <==> i == 7,
        i == 7 ==> run[i].action->Punch_key@ == run[i - 1].state->Answered_1@ && Some(
            run[i].action->Punch_sign_pk,
        ) == run[i - 1].state.sign_pk(),
        run[i].action is Serve <==> i == 9,
        i == 9 ==> run[i].event is Handshaken && Some(run[i].action->Serve_0) == start.sender(),
        run[i].action is AwaitClose <==> i == 10,
    decreases i,
{
    if i > 0 {
        lemma_turn_of(h, start, run, i - 1);
    }
    let state = before(start, run, i);
    assert(is_step(
        h,
        state,
        run[i].event,
        run[i].now,
        ServeStep::Next(run[i].state, run[i].action),
    ));
    lemma_turn(h, state, run[i].event, run[i].now, run[i].state, run[i].action);
}

/// An answer is published only once the cipher has opened the offer and the client's ICE messages
/// are subscribed to. It goes to a reply subject that belongs to the sender alone.
pub proof fn law_answers_a_proven_sender(h: Host, start: ServeState, run: Seq<Turn>, i: int)
    requires
        start is Received,
        start.wf(),
        is_run(h, start, run),
        0 <= i < run.len(),
        run[i].action is PublishAnswer,
    ensures
        i == 5,
        run[2].event is Opened,
        run[2].event->Opened_0 is Ok,
        run[4].action is SubscribeIce,
        run[5].event is Subscribed,
        subject::is_own_inbox(Some(run[5].action->reply@), start->Received_0.from_fp@),
{
    lemma_turn_of(h, start, run, i);
    lemma_turn_of(h, start, run, 2);
    lemma_turn_of(h, start, run, 4);
}

/// The ICE messages, both ways, go under the key that the answer was sealed under, and those of the
/// client under the signing key that the offer had to be signed with.
pub proof fn law_trickles_under_the_answers_key(h: Host, start: ServeState, run: Seq<Turn>, i: int)
    requires
        start is Received,
        start.wf(),
        is_run(h, start, run),
        0 <= i < run.len(),
        run[i].action is PublishIce || run[i].action is Punch,
    ensures
        i > 5,
        run[1].action is OpenOffer,
        run[5].action is PublishAnswer,
        run[i].action matches ServeAction::PublishIce { key, .. } ==> key@
            == run[5].action->PublishAnswer_key@,
        run[i].action matches ServeAction::Punch { key, sign_pk, .. } ==> key@
            == run[5].action->PublishAnswer_key@ && sign_pk == run[1].action->OpenOffer_sign_pk,
{
    lemma_turn_of(h, start, run, i);
    lemma_turn_of(h, start, run, 1);
    lemma_turn_of(h, start, run, 5);
    lemma_turn_of(h, start, run, 6);
}

/// A session is served only under the fingerprint of the device that signed the offer, after the
/// handshake, and the host lets go of it only after it has waited for the peer.
pub proof fn law_serves_whoever_signed(h: Host, start: ServeState, run: Seq<Turn>, i: int)
    requires
        start is Received,
        start.wf(),
        is_run(h, start, run),
        0 <= i < run.len(),
        run[i].action is Serve,
    ensures
        i == 9,
        run[i].action->Serve_0 == start->Received_0.from_fp,
        run[2].event is Opened,
        run[2].event->Opened_0 is Ok,
        run[i].event is Handshaken,
        i + 1 < run.len() ==> run[i + 1].action is AwaitClose,
{
    lemma_turn_of(h, start, run, i);
    lemma_turn_of(h, start, run, 2);
    if i + 1 < run.len() {
        lemma_turn_of(h, start, run, i + 1);
    }
}

// ---- what is said to whom ----

impl ServeState {
    /// The offer that is answered, from when the host wants it to when it is last needed.
    pub open spec fn accepted(self) -> Option<AcceptedOffer> {
        match self {
            ServeState::Accepted(o) => Some(o),
            ServeState::Prepared(o, _) => Some(o),
            ServeState::Answering(o, _, _) => Some(o),
            ServeState::Answered(o, _) => Some(o),
            ServeState::Trickled(o) => Some(o),
            ServeState::Punched(o) => Some(o),
            _ => None,
        }
    }

    /// The local side, from when it is there to when it is last needed.
    pub open spec fn local(self) -> Option<LocalSide> {
        match self {
            ServeState::Prepared(_, local) => Some(local),
            ServeState::Answering(_, local, _) => Some(local),
            _ => None,
        }
    }
}

proof fn lemma_kept(
    h: Host,
    state: ServeState,
    event: ServeEvent,
    now: u64,
    next: ServeState,
    action: ServeAction,
)
    requires
        is_step(h, state, event, now, ServeStep::Next(next, action)),
    ensures
        state.accepted() is Some && next.accepted() is Some ==> next.accepted()
            == state.accepted(),
        state.local() is Some && next.local() is Some ==> next.local() == state.local(),
        state is Accepted ==> event is Prepared && next.local() == Some(event->Prepared_0),
{
    reveal(is_step);
}

proof fn lemma_authorizes(
    h: Host,
    state: ServeState,
    event: ServeEvent,
    now: u64,
    next: ServeState,
    action: ServeAction,
)
    requires
        is_step(h, state, event, now, ServeStep::Next(next, action)),
        state is Received,
    ensures
        next is Authorized,
        next->Authorized_0.env@ == state->Received_0.env@,
        next->Authorized_0.from_fp == state->Received_0.from_fp,
        next->Authorized_0.reply@ == state->Received_0.reply@,
        state->Received_0.env@.eph_pk == Some(next->Authorized_0.eph_pk_c@),
        event is Decision,
        event->Decision_0 is Allow,
        next->Authorized_0.sign_pk == event->Decision_0->sign_pk,
        action is Agree,
        action->eph_pk == next->Authorized_0.eph_pk_c,
        action->agree_pk == event->Decision_0->agree_pk,
{
    reveal(is_step);
}

proof fn lemma_opens(
    h: Host,
    state: ServeState,
    event: ServeEvent,
    now: u64,
    next: ServeState,
    action: ServeAction,
)
    requires
        is_step(h, state, event, now, ServeStep::Next(next, action)),
        state is Authorized,
    ensures
        next is Opening,
        next->Opening_0 == state->Authorized_0,
        event is Agreed,
        next->Opening_1 == event->Agreed_dev_dh,
        action is OpenOffer,
        action->OpenOffer_sign_pk == state->Authorized_0.sign_pk,
        action->OpenOffer_key@ == (KeyModel {
            eph_dh: event->Agreed_eph_dh@,
            dev_dh: event->Agreed_dev_dh@,
            sid: state->Authorized_0.env@.sid,
            client_fp: state->Authorized_0.from_fp.bytes@,
            host_fp: h.device_fp.bytes@,
        }),
        action->OpenOffer_request@ == (wire::OpenModel {
            self_fp: h.device_fp.bytes@,
            expected_sid: state->Authorized_0.env@.sid,
            bound_from_fp: None,
            min_seq_exclusive: None,
            now,
            min_v: 1,
            min_alg_id: 1,
            expected_kind: 1,
            sender_revoked: false,
        }),
{
    reveal(is_step);
}

proof fn lemma_verifies(
    h: Host,
    state: ServeState,
    event: ServeEvent,
    now: u64,
    next: ServeState,
    action: ServeAction,
)
    requires
        is_step(h, state, event, now, ServeStep::Next(next, action)),
        state is Opening,
    ensures
        next is Verified,
        event matches ServeEvent::Opened(Ok(plaintext)) && OfferModel::parse(plaintext@) == Ok::<
            OfferModel,
            signaling::SignalingFault,
        >(next->Verified_0.opened.offer@),
        next->Verified_0.opened.offer@.inbox == state->Opening_0.reply@,
        next->Verified_0.reply@ == state->Opening_0.reply@,
        next->Verified_0.opened.from_fp == state->Opening_0.from_fp,
        next->Verified_0.opened.sid@ == state->Opening_0.env@.sid,
        next->Verified_0.opened.sender_sign_pk == state->Opening_0.sign_pk,
        next->Verified_0.opened.dev_dh == state->Opening_1,
        next->Verified_0.opened.eph_pk_c == state->Opening_0.eph_pk_c,
        action == ServeAction::Consult(state->Opening_0.from_fp),
{
    reveal(is_step);
}

proof fn lemma_accepts(
    h: Host,
    state: ServeState,
    event: ServeEvent,
    now: u64,
    next: ServeState,
    action: ServeAction,
)
    requires
        is_step(h, state, event, now, ServeStep::Next(next, action)),
        state is Verified,
    ensures
        next is Accepted,
        event matches ServeEvent::Verdict(VerifiedDecision::Proceed { member_cap }) && member_cap
            == next->Accepted_0.member_cap,
        next->Accepted_0.opened == state->Verified_0.opened,
        next->Accepted_0.opened.offer.transport == Transport::Quic,
        next->Accepted_0.reply == state->Verified_0.reply,
        action is Prepare,
{
    reveal(is_step);
}

/// Every turn of a run is a step from the state before it.
proof fn lemma_step(h: Host, start: ServeState, run: Seq<Turn>, i: int)
    requires
        start is Received,
        start.wf(),
        is_run(h, start, run),
        0 <= i < run.len(),
    ensures
        is_step(
            h,
            before(start, run, i),
            run[i].event,
            run[i].now,
            ServeStep::Next(run[i].state, run[i].action),
        ),
{
    assert(0 <= i < run.len() && run[i] == run[i]);
}

/// What the accepted offer holds, all the way from the message that it came in.
proof fn lemma_accepted(h: Host, start: ServeState, run: Seq<Turn>, i: int)
    requires
        start is Received,
        start.wf(),
        is_run(h, start, run),
        0 <= i < run.len(),
        i >= 3,
    ensures
        run[0].event is Decision,
        run[0].event->Decision_0 is Allow,
        run[1].event is Agreed,
        run[2].event is Opened,
        run[2].event->Opened_0 is Ok,
        run[3].event is Verdict,
        run[3].event->Verdict_0 is Proceed,
        run[3].state is Accepted,
        start->Received_0.env@.eph_pk == Some(run[3].state->Accepted_0.opened.eph_pk_c@),
        run[3].state->Accepted_0.opened.from_fp == start->Received_0.from_fp,
        run[3].state->Accepted_0.opened.sid@ == start->Received_0.env@.sid,
        run[3].state->Accepted_0.reply@ == start->Received_0.reply@,
        run[3].state->Accepted_0.opened.offer@.inbox == start->Received_0.reply@,
        run[3].state->Accepted_0.opened.offer.transport == Transport::Quic,
        OfferModel::parse(run[2].event->Opened_0->Ok_0@) == Ok::<
            OfferModel,
            signaling::SignalingFault,
        >(run[3].state->Accepted_0.opened.offer@),
        run[3].state->Accepted_0.opened.sender_sign_pk == run[0].event->Decision_0->sign_pk,
        run[3].state->Accepted_0.opened.dev_dh == run[1].event->Agreed_dev_dh,
        run[3].state->Accepted_0.member_cap == run[3].event->Verdict_0->member_cap,
        run[i].state.accepted() is Some ==> run[i].state.accepted() == Some(
            run[3].state->Accepted_0,
        ),
        i >= 4 ==> run[4].event is Prepared && (run[i].state.local() is Some
            ==> run[i].state.local() == Some(run[4].event->Prepared_0)),
    decreases i,
{
    lemma_turn_of(h, start, run, i);
    lemma_step(h, start, run, i);
    if i == 3 {
        lemma_turn_of(h, start, run, 0);
        lemma_turn_of(h, start, run, 1);
        lemma_turn_of(h, start, run, 2);
        lemma_step(h, start, run, 0);
        lemma_step(h, start, run, 1);
        lemma_step(h, start, run, 2);
        lemma_authorizes(
        h,
        before(start, run, 0),
        run[0].event,
        run[0].now,
        run[0].state,
        run[0].action,
    );
        lemma_opens(
        h,
        before(start, run, 1),
        run[1].event,
        run[1].now,
        run[1].state,
        run[1].action,
    );
        lemma_verifies(
        h,
        before(start, run, 2),
        run[2].event,
        run[2].now,
        run[2].state,
        run[2].action,
    );
        lemma_accepts(
        h,
        before(start, run, 3),
        run[3].event,
        run[3].now,
        run[3].state,
        run[3].action,
    );
    } else {
        lemma_accepted(h, start, run, i - 1);
        lemma_turn_of(h, start, run, i - 1);
        lemma_kept(
        h,
        before(start, run, i),
        run[i].event,
        run[i].now,
        run[i].state,
        run[i].action,
    );
    }
}

proof fn lemma_subscribes(
    h: Host,
    state: ServeState,
    event: ServeEvent,
    now: u64,
    next: ServeState,
    action: ServeAction,
)
    requires
        is_step(h, state, event, now, ServeStep::Next(next, action)),
        action is SubscribeIce,
    ensures
        state is Accepted,
        action->SubscribeIce_0@ == "host."@ + fingerprint::token(h.host_fp@) + ".sess."@
            + fingerprint::token(state->Accepted_0.opened.from_fp@) + "."@
                + text::hex(state->Accepted_0.opened.sid@)
            + "."@ + "c2h"@,
{
    reveal(is_step);
}

proof fn lemma_punches(
    h: Host,
    state: ServeState,
    event: ServeEvent,
    now: u64,
    next: ServeState,
    action: ServeAction,
)
    requires
        is_step(h, state, event, now, ServeStep::Next(next, action)),
        action is Punch,
    ensures
        state is Answered,
        action->Punch_ufrag@ == state->Answered_0.opened.offer.ufrag@,
        action->Punch_pwd@ == state->Answered_0.opened.offer.pwd@,
        action->Punch_session.subject_text() == "host."@ + fingerprint::token(h.host_fp@)
            + ".sess."@
            + fingerprint::token(state->Answered_0.opened.from_fp@) + "."@
                + text::hex(state->Answered_0.opened.sid@)
            + "."@ + "c2h"@,
        action->Punch_session.self_fp == h.device_fp,
        action->Punch_session.peer_fp == state->Answered_0.opened.from_fp,
        action->Punch_session.sid@ == state->Answered_0.opened.sid@,
{
    reveal(is_step);
}

proof fn lemma_handshakes(
    h: Host,
    state: ServeState,
    event: ServeEvent,
    now: u64,
    next: ServeState,
    action: ServeAction,
)
    requires
        is_step(h, state, event, now, ServeStep::Next(next, action)),
    ensures
        action is Handshake <==> state is Trickled,
        state is Trickled ==> action->cert_fp == state->Trickled_0.opened.offer.cert_fp,
{
    reveal(is_step);
}

proof fn lemma_answers(
    h: Host,
    state: ServeState,
    event: ServeEvent,
    now: u64,
    next: ServeState,
    action: ServeAction,
)
    requires
        is_step(h, state, event, now, ServeStep::Next(next, action)),
        action is PublishAnswer,
    ensures
        state is Prepared,
        event is Subscribed,
        action->reply@ == state->Prepared_0.reply@,
        action->PublishAnswer_key@ == (KeyModel {
            eph_dh: crate::net::agreement::shared_of(
                event->Subscribed_0.secret(),
                state->Prepared_0.opened.eph_pk_c@,
            ),
            dev_dh: state->Prepared_0.opened.dev_dh@,
            sid: state->Prepared_0.opened.sid@,
            client_fp: state->Prepared_0.opened.from_fp.bytes@,
            host_fp: h.device_fp.bytes@,
        }),
        action->PublishAnswer_request@ == (SealModel {
            v: 1,
            alg_id: h.alg_id,
            from_fp: h.device_fp.bytes@,
            to_fp: state->Prepared_0.opened.from_fp.bytes@,
            sid: state->Prepared_0.opened.sid@,
            kind: 2,
            seq: 0,
            ts: now,
            eph_pk: Some(crate::net::agreement::public_of(event->Subscribed_0.secret())),
            plaintext: (AnswerModel {
                transport: Transport::Quic,
                ufrag: state->Prepared_1.ufrag@,
                pwd: state->Prepared_1.pwd@,
                cert_fp: state->Prepared_1.cert_fp@,
                member_cap: signaling::opt_capability(state->Prepared_0.member_cap),
            }).bytes(),
        }),
{
    reveal(is_step);
}

proof fn lemma_trickles(
    h: Host,
    state: ServeState,
    event: ServeEvent,
    now: u64,
    next: ServeState,
    action: ServeAction,
)
    requires
        is_step(h, state, event, now, ServeStep::Next(next, action)),
        action is PublishIce,
    ensures
        state is Answering,
        action->PublishIce_subject@ == "host."@ + fingerprint::token(h.host_fp@) + ".sess."@
            + fingerprint::token(state->Answering_0.opened.from_fp@) + "."@
                + text::hex(state->Answering_0.opened.sid@)
            + "."@ + "h2c"@,
        action->PublishIce_candidate@ == (SealModel {
            v: 1,
            alg_id: h.alg_id,
            from_fp: h.device_fp.bytes@,
            to_fp: state->Answering_0.opened.from_fp.bytes@,
            sid: state->Answering_0.opened.sid@,
            kind: 3,
            seq: 1,
            ts: now,
            eph_pk: None,
            plaintext: (IceModel {
                candidate: Some(state->Answering_1.candidate_line@),
                end_of_candidates: false,
            }).bytes(),
        }),
        action->PublishIce_end@ == (SealModel {
            v: 1,
            alg_id: h.alg_id,
            from_fp: h.device_fp.bytes@,
            to_fp: state->Answering_0.opened.from_fp.bytes@,
            sid: state->Answering_0.opened.sid@,
            kind: 3,
            seq: 2,
            ts: now,
            eph_pk: None,
            plaintext: (IceModel { candidate: None, end_of_candidates: true }).bytes(),
        }),
{
    reveal(is_step);
}

/// The offer is opened as one to this host, for the session that it names, under the key that the
/// host's device key agrees on with the ephemeral key in it, and under the signing key that the
/// decision about the sender gave.
pub proof fn law_opens_what_was_received(h: Host, start: ServeState, run: Seq<Turn>, i: int)
    requires
        start is Received,
        start.wf(),
        is_run(h, start, run),
        0 <= i < run.len(),
        run[i].action is OpenOffer,
    ensures
        i == 1,
        run[0].event is Decision,
        run[0].event->Decision_0 is Allow,
        run[0].action is Agree,
        start->Received_0.env@.eph_pk == Some(run[0].action->eph_pk@),
        run[0].action->agree_pk == run[0].event->Decision_0->agree_pk,
        run[i].event is Agreed,
        run[i].action->OpenOffer_sign_pk == run[0].event->Decision_0->sign_pk,
        run[i].action->OpenOffer_key@ == (KeyModel {
            eph_dh: run[i].event->Agreed_eph_dh@,
            dev_dh: run[i].event->Agreed_dev_dh@,
            sid: start->Received_0.env@.sid,
            client_fp: start->Received_0.from_fp.bytes@,
            host_fp: h.device_fp.bytes@,
        }),
        run[i].action->OpenOffer_request@ == (wire::OpenModel {
            self_fp: h.device_fp.bytes@,
            expected_sid: start->Received_0.env@.sid,
            bound_from_fp: None,
            min_seq_exclusive: None,
            now: run[i].now,
            min_v: 1,
            min_alg_id: 1,
            expected_kind: 1,
            sender_revoked: false,
        }),
{
    lemma_turn_of(h, start, run, i);
    lemma_turn_of(h, start, run, 0);
    lemma_step(h, start, run, 0);
    lemma_step(h, start, run, i);
    lemma_authorizes(
        h,
        before(start, run, 0),
        run[0].event,
        run[0].now,
        run[0].state,
        run[0].action,
    );
    lemma_opens(
        h,
        before(start, run, i),
        run[i].event,
        run[i].now,
        run[i].state,
        run[i].action,
    );
}

/// The host asks whether to go on with the device that the offer comes from, and with no other.
pub proof fn law_consults_on_the_sender(h: Host, start: ServeState, run: Seq<Turn>, i: int)
    requires
        start is Received,
        start.wf(),
        is_run(h, start, run),
        0 <= i < run.len(),
        run[i].action is Consult,
    ensures
        i == 2,
        run[i].action->Consult_0 == start->Received_0.from_fp,
{
    lemma_turn_of(h, start, run, i);
    lemma_turn_of(h, start, run, 1);
    lemma_step(h, start, run, i);
    lemma_verifies(
        h,
        before(start, run, i),
        run[i].event,
        run[i].now,
        run[i].state,
        run[i].action,
    );
}

/// The host listens where the client's ICE messages of this session go, and takes those for the
/// session that it punches for, with the credentials in the offer that the cipher opened.
pub proof fn law_listens_where_it_punches(h: Host, start: ServeState, run: Seq<Turn>, i: int)
    requires
        start is Received,
        start.wf(),
        is_run(h, start, run),
        0 <= i < run.len(),
        run[i].action is Punch,
    ensures
        i == 7,
        run[4].action is SubscribeIce,
        run[4].action->SubscribeIce_0@ == run[i].action->Punch_session.subject_text(),
        run[4].action->SubscribeIce_0@ == "host."@ + fingerprint::token(h.host_fp@) + ".sess."@
            + fingerprint::token(start->Received_0.from_fp@) + "."@
                + text::hex(start->Received_0.env@.sid)
            + "."@ + "c2h"@,
        run[i].action->Punch_session.self_fp == h.device_fp,
        run[i].action->Punch_session.peer_fp == start->Received_0.from_fp,
        run[i].action->Punch_session.sid@ == start->Received_0.env@.sid,
        run[2].event matches ServeEvent::Opened(Ok(plaintext)) && (OfferModel::parse(plaintext@)
            matches Ok(m) && run[i].action->Punch_ufrag@ == m.ufrag && run[i].action->Punch_pwd@
            == m.pwd && m.inbox == start->Received_0.reply@ && m.transport == Transport::Quic),
{
    lemma_turn_of(h, start, run, i);
    lemma_turn_of(h, start, run, 3);
    lemma_turn_of(h, start, run, 4);
    lemma_turn_of(h, start, run, 6);
    lemma_step(h, start, run, 4);
    lemma_step(h, start, run, i);
    lemma_accepted(h, start, run, 3);
    lemma_accepted(h, start, run, 6);
    lemma_subscribes(
        h,
        before(start, run, 4),
        run[4].event,
        run[4].now,
        run[4].state,
        run[4].action,
    );
    lemma_punches(
        h,
        before(start, run, i),
        run[i].event,
        run[i].now,
        run[i].state,
        run[i].action,
    );
}

/// The handshake is pinned to the certificate in the offer that the cipher opened.
pub proof fn law_pins_what_was_offered(h: Host, start: ServeState, run: Seq<Turn>, i: int)
    requires
        start is Received,
        start.wf(),
        is_run(h, start, run),
        0 <= i < run.len(),
        run[i].action is Handshake,
    ensures
        i == 8,
        run[2].event matches ServeEvent::Opened(Ok(plaintext)) && (OfferModel::parse(plaintext@)
            matches Ok(m) && run[i].action->cert_fp@ == m.cert_fp),
{
    lemma_turn_of(h, start, run, i);
    lemma_step(h, start, run, i);
    lemma_handshakes(
        h,
        before(start, run, i),
        run[i].event,
        run[i].now,
        run[i].state,
        run[i].action,
    );
    lemma_accepted(h, start, run, 7);
}

/// The answer goes to the reply subject of the offer, from this host to the device that the offer
/// comes from, for the session that the offer names, and tells of the local side and of the
/// capability that the host decided on.
pub proof fn law_answers_its_own_side(h: Host, start: ServeState, run: Seq<Turn>, i: int)
    requires
        start is Received,
        start.wf(),
        is_run(h, start, run),
        0 <= i < run.len(),
        run[i].action is PublishAnswer,
    ensures
        i == 5,
        run[1].event is Agreed,
        run[3].event is Verdict,
        run[3].event->Verdict_0 is Proceed,
        run[4].event is Prepared,
        run[i].event is Subscribed,
        start->Received_0.env@.eph_pk is Some,
        run[i].action->reply@ == start->Received_0.reply@,
        run[i].action->PublishAnswer_key@ == (KeyModel {
            eph_dh: crate::net::agreement::shared_of(
                run[i].event->Subscribed_0.secret(),
                start->Received_0.env@.eph_pk->0,
            ),
            dev_dh: run[1].event->Agreed_dev_dh@,
            sid: start->Received_0.env@.sid,
            client_fp: start->Received_0.from_fp.bytes@,
            host_fp: h.device_fp.bytes@,
        }),
        run[i].action->PublishAnswer_request@ == (SealModel {
            v: 1,
            alg_id: h.alg_id,
            from_fp: h.device_fp.bytes@,
            to_fp: start->Received_0.from_fp.bytes@,
            sid: start->Received_0.env@.sid,
            kind: 2,
            seq: 0,
            ts: run[i].now,
            eph_pk: Some(
                crate::net::agreement::public_of(run[i].event->Subscribed_0.secret()),
            ),
            plaintext: (AnswerModel {
                transport: Transport::Quic,
                ufrag: run[4].event->Prepared_0.ufrag@,
                pwd: run[4].event->Prepared_0.pwd@,
                cert_fp: run[4].event->Prepared_0.cert_fp@,
                member_cap: signaling::opt_capability(run[3].event->Verdict_0->member_cap),
            }).bytes(),
        }),
{
    lemma_turn_of(h, start, run, i);
    lemma_turn_of(h, start, run, 4);
    lemma_step(h, start, run, i);
    lemma_accepted(h, start, run, 4);
    lemma_answers(
        h,
        before(start, run, i),
        run[i].event,
        run[i].now,
        run[i].state,
        run[i].action,
    );
}

/// The host's candidate, and then the marker that no more follow, go where the client listens for
/// the ICE messages of this session, which is not where the host listens itself.
pub proof fn law_trickles_to_the_client(h: Host, start: ServeState, run: Seq<Turn>, i: int)
    requires
        start is Received,
        start.wf(),
        is_run(h, start, run),
        0 <= i < run.len(),
        run[i].action is PublishIce,
    ensures
        i == 6,
        run[4].event is Prepared,
        run[4].action is SubscribeIce,
        run[i].action->PublishIce_subject@ != run[4].action->SubscribeIce_0@,
        run[i].action->PublishIce_subject@ == "host."@ + fingerprint::token(h.host_fp@) + ".sess."@
            + fingerprint::token(start->Received_0.from_fp@) + "."@
                + text::hex(start->Received_0.env@.sid)
            + "."@ + "h2c"@,
        forall|s: IceSession|
            s.host_fp == h.host_fp && s.client_fp == start->Received_0.from_fp && s.sid@
                == start->Received_0.env@.sid && s.direction is HostToClient
                ==> #[trigger] s.subject_text() == run[i].action->PublishIce_subject@,
        run[i].action->PublishIce_candidate@ == (SealModel {
            v: 1,
            alg_id: h.alg_id,
            from_fp: h.device_fp.bytes@,
            to_fp: start->Received_0.from_fp.bytes@,
            sid: start->Received_0.env@.sid,
            kind: 3,
            seq: 1,
            ts: run[i].now,
            eph_pk: None,
            plaintext: (IceModel {
                candidate: Some(run[4].event->Prepared_0.candidate_line@),
                end_of_candidates: false,
            }).bytes(),
        }),
        run[i].action->PublishIce_end@ == (SealModel {
            v: 1,
            alg_id: h.alg_id,
            from_fp: h.device_fp.bytes@,
            to_fp: start->Received_0.from_fp.bytes@,
            sid: start->Received_0.env@.sid,
            kind: 3,
            seq: 2,
            ts: run[i].now,
            eph_pk: None,
            plaintext: (IceModel { candidate: None, end_of_candidates: true }).bytes(),
        }),
{
    lemma_turn_of(h, start, run, i);
    lemma_turn_of(h, start, run, 3);
    lemma_turn_of(h, start, run, 4);
    lemma_turn_of(h, start, run, 5);
    lemma_step(h, start, run, 4);
    lemma_step(h, start, run, i);
    lemma_accepted(h, start, run, 3);
    lemma_accepted(h, start, run, 5);
    lemma_subscribes(
        h,
        before(start, run, 4),
        run[4].event,
        run[4].now,
        run[4].state,
        run[4].action,
    );
    lemma_trickles(
        h,
        before(start, run, i),
        run[i].event,
        run[i].now,
        run[i].state,
        run[i].action,
    );
    let (root, c, sid) = (h.host_fp@, start->Received_0.from_fp@, start->Received_0.env@.sid);
    assert(run[4].action->SubscribeIce_0@ == subject::session_text(
        root,
        c,
        sid,
        IceDirection::ClientToHost,
    ));
    assert(run[i].action->PublishIce_subject@ == subject::session_text(
        root,
        c,
        sid,
        IceDirection::HostToClient,
    ));
    if run[i].action->PublishIce_subject@ == run[4].action->SubscribeIce_0@ {
        subject::law_session_subject_unique(
            root,
            c,
            sid,
            IceDirection::ClientToHost,
            root,
            c,
            sid,
            IceDirection::HostToClient,
        );
    }
}

/// The host listens where the client's ICE messages of this session go.
pub proof fn law_listens_for_the_client(h: Host, start: ServeState, run: Seq<Turn>, i: int)
    requires
        start is Received,
        start.wf(),
        is_run(h, start, run),
        0 <= i < run.len(),
        run[i].action is SubscribeIce,
    ensures
        i == 4,
        run[i].action->SubscribeIce_0@ == "host."@ + fingerprint::token(h.host_fp@) + ".sess."@
            + fingerprint::token(start->Received_0.from_fp@) + "."@ + text::hex(
            start->Received_0.env@.sid,
        ) + "."@ + "c2h"@,
{
    lemma_turn_of(h, start, run, i);
    lemma_turn_of(h, start, run, 3);
    lemma_step(h, start, run, i);
    lemma_accepted(h, start, run, 3);
    lemma_subscribes(
        h,
        before(start, run, i),
        run[i].event,
        run[i].now,
        run[i].state,
        run[i].action,
    );
}

/// Wherever nothing is wrong with what came of an action, the host goes on; wherever something is,
/// the offer is dropped, and the error says why.
pub proof fn law_goes_on_unless_refused(
    h: Host,
    state: ServeState,
    event: ServeEvent,
    now: u64,
    r: ServeStep,
)
    requires
        is_step(h, state, event, now, r),
    ensures
        match (state, event) {
            (ServeState::Received(_), ServeEvent::Decision(ConnectDecision::Deny)) => {
                r == ServeStep::Failed(SignalingError::Denied)
            },
            (ServeState::Received(o), ServeEvent::Decision(ConnectDecision::Allow { .. })) => {
                match o.env@.eph_pk {
                    None => r == ServeStep::Failed(SignalingError::MissingEphPk),
                    Some(key) => if key.len() == 32 {
                        r is Next
                    } else {
                        r == ServeStep::Failed(SignalingError::BadEphPk(key.len() as usize))
                    },
                }
            },
            (ServeState::Authorized(_), ServeEvent::Agreed { .. }) => r is Next,
            (ServeState::Opening(_, _), ServeEvent::Opened(Err(said))) => {
                r matches ServeStep::Failed(e) && (e matches SignalingError::Envelope(s) && s@
                    == said@)
            },
            (ServeState::Opening(a, _), ServeEvent::Opened(Ok(plaintext))) => {
                match OfferModel::parse(plaintext@) {
                    Err(f) => r matches ServeStep::Failed(e) && (e
                        matches SignalingError::Payload(p) && p@ == f),
                    Ok(m) => if m.inbox == a.reply@ {
                        r is Next
                    } else {
                        r == ServeStep::Failed(SignalingError::ReplyInboxMismatch)
                    },
                }
            },
            (ServeState::Verified(_), ServeEvent::Verdict(VerifiedDecision::Drop)) => {
                r == ServeStep::Failed(SignalingError::Denied)
            },
            (ServeState::Verified(v), ServeEvent::Verdict(VerifiedDecision::Proceed { .. })) => {
                if v.opened.offer.transport is WebRtc {
                    r == ServeStep::Failed(
                        SignalingError::UnsupportedTransport(Transport::WebRtc),
                    )
                } else {
                    r is Next
                }
            },
            (ServeState::Accepted(_), ServeEvent::Prepared(_)) => r is Next,
            (ServeState::Prepared(_, _), ServeEvent::Subscribed(_)) => r is Next,
            (ServeState::Answering(_, _, _), ServeEvent::Published) => r is Next,
            (ServeState::Answered(_, _), ServeEvent::Published) => r is Next,
            (ServeState::Trickled(_), ServeEvent::Punched) => r is Next,
            (ServeState::Punched(_), ServeEvent::Handshaken) => r is Next,
            (ServeState::Serving, ServeEvent::Served) => r is Next,
            (ServeState::Leaving, ServeEvent::Closed) => r is Next,
            _ => r == ServeStep::Unexpected(state),
        },
{
    reveal(is_step);
}

/// Which action comes at which turn.
pub proof fn law_turn_by_turn(h: Host, start: ServeState, run: Seq<Turn>, i: int)
    requires
        start is Received,
        start.wf(),
        is_run(h, start, run),
        0 <= i < run.len(),
    ensures
        i < 12,
        i == 0 ==> run[i].event is Decision && run[i].action is Agree,
        i == 1 ==> run[i].event is Agreed && run[i].action is OpenOffer,
        i == 2 ==> run[i].event is Opened && run[i].action is Consult,
        i == 3 ==> run[i].event is Verdict && run[i].action is Prepare,
        i == 4 ==> run[i].event is Prepared && run[i].action is SubscribeIce,
        i == 5 ==> run[i].event is Subscribed && run[i].action is PublishAnswer,
        i == 6 ==> run[i].event is Published && run[i].action is PublishIce,
        i == 7 ==> run[i].event is Published && run[i].action is Punch,
        i == 8 ==> run[i].event is Punched && run[i].action is Handshake,
        i == 9 ==> run[i].event is Handshaken && run[i].action is Serve,
        i == 10 ==> run[i].event is Served && run[i].action is AwaitClose,
        i == 11 ==> run[i].event is Closed && run[i].action is Finish,
{
    lemma_turn_of(h, start, run, i);
    lemma_step(h, start, run, i);
    lemma_next_action(
        h,
        before(start, run, i),
        run[i].event,
        run[i].now,
        run[i].state,
        run[i].action,
    );
}

proof fn lemma_next_action(
    h: Host,
    state: ServeState,
    event: ServeEvent,
    now: u64,
    next: ServeState,
    action: ServeAction,
)
    requires
        is_step(h, state, event, now, ServeStep::Next(next, action)),
    ensures
        match state {
            ServeState::Received(_) => event is Decision && action is Agree,
            ServeState::Authorized(_) => event is Agreed && action is OpenOffer,
            ServeState::Opening(_, _) => event is Opened && action is Consult,
            ServeState::Verified(_) => event is Verdict && action is Prepare,
            ServeState::Accepted(_) => event is Prepared && action is SubscribeIce,
            ServeState::Prepared(_, _) => event is Subscribed && action is PublishAnswer,
            ServeState::Answering(_, _, _) => event is Published && action is PublishIce,
            ServeState::Answered(_, _) => event is Published && action is Punch,
            ServeState::Trickled(_) => event is Punched && action is Handshake,
            ServeState::Punched(_) => event is Handshaken && action is Serve,
            ServeState::Serving => event is Served && action is AwaitClose,
            ServeState::Leaving => event is Closed && action is Finish,
            ServeState::Finished => false,
        },
{
    reveal(is_step);
}

} // verus!
