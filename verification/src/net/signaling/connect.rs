//! A connect, turn by turn.
//!
//! Whoever owns the connection performs an action, and hands back what came of it; the answer is the
//! next action. A refresh of a capability is the middle part of a connect: it asks for an answer and
//! goes no further.
use crate::net::fingerprint;
use crate::net::signaling::client;
use crate::net::signaling::client::{offer_payload, refreshed_capability, ClientSession};
use crate::net::signaling::error::SignalingError;
use crate::net::signaling::subject;
use crate::net::signaling::subject::IceDirection;
use crate::net::signaling::trickle;
use crate::net::signaling::trickle::own_ice_messages;
use crate::net::signaling::wire;
use crate::net::signaling::wire::{
    seal_offer, IceSession, KeyInputs, KeyModel, OpenRequest, SealModel, SealRequest, ENVELOPE_V1,
};
use crate::proto::artifacts::capability::Capability;
use crate::proto::artifacts::envelope::{Envelope, EnvelopeModel};
use crate::proto::signaling;
use crate::proto::signaling::{
    AnswerModel, AnswerPayload, IceModel, OfferModel, Transport, KIND_ANSWER, KIND_OFFER,
};
use crate::text;
use vstd::prelude::*;

verus! {

/// What one side brings to a session: its ICE credentials, its session certificate's fingerprint and
/// its one candidate.
pub struct LocalSide {
    pub ufrag: String,
    pub pwd: String,
    pub cert_fp: [u8; 32],
    pub candidate_line: String,
}

/// What does not change in a connect.
pub struct Connect {
    pub session: ClientSession,
    pub alg_id: u8,
    /// What the client's device key agrees on with the host's.
    pub dev_dh: [u8; 32],
    /// Only the capability in the answer is wanted.
    pub refresh: bool,
}

/// What has been accomplished.
pub enum ConnectState {
    Start,
    /// The session certificate and the local candidate are there.
    Prepared(LocalSide),
    /// The host's ICE messages are subscribed to.
    Listening(LocalSide),
    /// The reply subject is subscribed to, and the offer is on its way.
    Offering(LocalSide),
    /// The offer is out.
    Offered(LocalSide),
    /// The reply is with the cipher, under this key.
    Replied(LocalSide, KeyInputs),
    /// The answer is verified, and this is the key of the session.
    Answered(AnswerPayload, KeyInputs),
    /// The local candidate is out.
    Trickled(AnswerPayload),
    /// ICE has selected a pair.
    Punched,
    Finished,
}

/// What came of the last action.
pub enum ConnectEvent {
    Prepared(LocalSide),
    Subscribed,
    /// The reply subject, which is subscribed to now.
    InboxSubscribed(String),
    Published,
    Reply { status: Option<u16>, payload: Vec<u8> },
    /// What the cipher says to the reply.
    Opened(Result<Vec<u8>, String>),
    Punched,
    Handshaken,
}

/// What to do next.
pub enum ConnectAction {
    /// Make the session certificate and gather the local candidate.
    Prepare,
    /// Subscribe to this subject.
    SubscribeIce(String),
    /// Subscribe to a fresh reply subject.
    SubscribeInbox,
    /// Seal the offer and publish it, with the reply subject.
    PublishOffer { subject: String, inbox: String, key: KeyInputs, request: SealRequest },
    /// Wait for the reply.
    AwaitReply,
    /// Have the cipher open the reply, under the host's signing key.
    OpenAnswer { env: Envelope, key: KeyInputs, request: OpenRequest, sign_pk: [u8; 32] },
    /// Seal both messages and publish them.
    PublishIce { subject: String, key: KeyInputs, candidate: SealRequest, end: SealRequest },
    /// Drive ICE to a pair, with these credentials and the messages of this session, which the
    /// cipher opens under this key and the host's signing key.
    Punch {
        ufrag: String,
        pwd: String,
        session: IceSession,
        key: KeyInputs,
        sign_pk: [u8; 32],
    },
    /// Complete the handshake on the punched socket, pinned to this fingerprint.
    Handshake { cert_fp: [u8; 32] },
    /// A session is there, or the capability that a refresh was for.
    Finish(Option<Capability>),
}

/// A turn: on to the next action, or the end of it.
pub enum ConnectStep {
    Next(ConnectState, ConnectAction),
    Failed(SignalingError),
    /// The event is not one of the last action; nothing has changed.
    Unexpected(ConnectState),
}

/// The key and the contents of the offer that is published.
pub open spec fn is_offer(
    c: Connect,
    local: LocalSide,
    inbox: Seq<char>,
    now: u64,
    key: KeyInputs,
    request: SealRequest,
) -> bool {
    &&& key@ == (KeyModel {
        eph_dh: crate::net::agreement::shared_of(c.session.ctx.eph_c.secret(), c.session.host.agree_pk@),
        dev_dh: c.dev_dh@,
        sid: c.session.ctx.sid@,
        client_fp: c.session.device_fp@,
        host_fp: c.session.host.device_fp@,
    })
    &&& request@ == (SealModel {
        v: ENVELOPE_V1,
        alg_id: c.alg_id,
        from_fp: c.session.device_fp@,
        to_fp: c.session.host.device_fp@,
        sid: c.session.ctx.sid@,
        kind: KIND_OFFER,
        seq: 0,
        ts: now,
        eph_pk: Some(c.session.ctx.eph_c.public()),
        plaintext: (OfferModel {
            inbox,
            transport: Transport::Quic,
            ufrag: local.ufrag@,
            pwd: local.pwd@,
            cert_fp: local.cert_fp@,
        }).bytes(),
    })
}

/// What a reply to the offer leads to.
pub open spec fn on_reply(
    c: Connect,
    local: LocalSide,
    status: Option<u16>,
    payload: Seq<u8>,
    now: u64,
    r: ConnectStep,
) -> bool {
    if status == Some(client::NO_RESPONDERS) {
        r matches ConnectStep::Failed(e) && e is HostOffline
    } else {
        match EnvelopeModel::parse(payload) {
            Err(f) => r matches ConnectStep::Failed(e) && (e matches SignalingError::EnvelopeDecode(
                p,
            ) && p@ == f),
            Ok(m) => match r {
                ConnectStep::Next(
                    ConnectState::Replied(kept, held),
                    ConnectAction::OpenAnswer { env, key, request, sign_pk },
                ) => {
                    &&& kept == local
                    &&& held@ == key@
                    &&& env@ == m
                    &&& sign_pk == c.session.host.sign_pk
                    &&& m.eph_pk matches Some(eph_pk) && eph_pk.len() == wire::EPH_PK_LEN && key@
                        == (KeyModel {
                        eph_dh: crate::net::agreement::shared_of(
                            c.session.ctx.eph_c.secret(),
                            eph_pk,
                        ),
                        dev_dh: c.dev_dh@,
                        sid: c.session.ctx.sid@,
                        client_fp: c.session.device_fp@,
                        host_fp: c.session.host.device_fp@,
                    })
                    &&& request@ == wire::open_model(
                        c.session.device_fp@,
                        c.session.ctx.sid@,
                        Some(c.session.host.device_fp@),
                        None,
                        now,
                        KIND_ANSWER,
                    )
                },
                ConnectStep::Failed(e) => wire::bad_eph_pk(m.eph_pk, e),
                _ => false,
            },
        }
    }
}

/// What the cipher's verdict on the reply leads to.
pub open spec fn on_opened(
    c: Connect,
    local: LocalSide,
    held: KeyInputs,
    opened: Result<Vec<u8>, String>,
    now: u64,
    r: ConnectStep,
) -> bool {
    match opened {
        Err(said) => r matches ConnectStep::Failed(e) && wire::refused(said, e),
        Ok(plaintext) => match AnswerModel::parse(plaintext@) {
            Err(f) => r matches ConnectStep::Failed(e) && wire::bad_payload(f, e),
            Ok(m) => if m.transport != Transport::Quic {
                r == ConnectStep::Failed(SignalingError::UnsupportedTransport(m.transport))
            } else if c.refresh {
                r matches ConnectStep::Next(
                    ConnectState::Finished,
                    ConnectAction::Finish(cap),
                ) && signaling::opt_capability(cap) == m.member_cap
            } else {
                r matches ConnectStep::Next(
                    ConnectState::Answered(answer, kept),
                    ConnectAction::PublishIce { subject, key, candidate, end },
                ) && {
                    &&& answer@ == m
                    &&& kept@ == held@
                    &&& key@ == held@
                    &&& subject@ == subject::session_text(
                        c.session.host.host_fp@,
                        c.session.device_fp@,
                        c.session.ctx.sid@,
                        IceDirection::ClientToHost,
                    )
                    &&& candidate@ == trickle::ice_message(
                        c.alg_id,
                        c.session.device_fp@,
                        c.session.host.device_fp@,
                        c.session.ctx.sid@,
                        trickle::FIRST_ICE_SEQ,
                        now,
                        IceModel {
                            candidate: Some(local.candidate_line@),
                            end_of_candidates: false,
                        },
                    )
                    &&& end@ == trickle::ice_message(
                        c.alg_id,
                        c.session.device_fp@,
                        c.session.host.device_fp@,
                        c.session.ctx.sid@,
                        (trickle::FIRST_ICE_SEQ + 1) as u64,
                        now,
                        IceModel { candidate: None, end_of_candidates: true },
                    )
                }
            },
        },
    }
}

/// The ICE messages that a client expects.
pub open spec fn expects(c: Connect, session: IceSession) -> bool {
    &&& session.host_fp == c.session.host.host_fp
    &&& session.client_fp == c.session.device_fp
    &&& session.sid@ == c.session.ctx.sid@
    &&& session.direction == IceDirection::HostToClient
    &&& session.self_fp == c.session.device_fp
    &&& session.peer_fp == c.session.host.device_fp
}

/// What an event leads to.
#[verifier::opaque]
pub open spec fn is_step(
    c: Connect,
    state: ConnectState,
    event: ConnectEvent,
    now: u64,
    r: ConnectStep,
) -> bool {
    match (state, event) {
        (ConnectState::Start, ConnectEvent::Prepared(local)) => {
            r matches ConnectStep::Next(
                ConnectState::Prepared(kept),
                ConnectAction::SubscribeIce(subject),
            ) && kept == local && subject@ == subject::session_text(
                c.session.host.host_fp@,
                c.session.device_fp@,
                c.session.ctx.sid@,
                IceDirection::HostToClient,
            )
        },
        (ConnectState::Prepared(local), ConnectEvent::Subscribed) => {
            r == ConnectStep::Next(ConnectState::Listening(local), ConnectAction::SubscribeInbox)
        },
        (ConnectState::Listening(local), ConnectEvent::InboxSubscribed(own)) => {
            r matches ConnectStep::Next(
                ConnectState::Offering(kept),
                ConnectAction::PublishOffer { subject, inbox, key, request },
            ) && {
                &&& kept == local
                &&& subject@ == subject::connect_text(c.session.host.host_fp@)
                &&& inbox@ == own@
                &&& is_offer(c, local, own@, now, key, request)
            }
        },
        (ConnectState::Offering(local), ConnectEvent::Published) => {
            r == ConnectStep::Next(ConnectState::Offered(local), ConnectAction::AwaitReply)
        },
        (ConnectState::Offered(local), ConnectEvent::Reply { status, payload }) => {
            on_reply(c, local, status, payload@, now, r)
        },
        (ConnectState::Replied(local, held), ConnectEvent::Opened(opened)) => {
            on_opened(c, local, held, opened, now, r)
        },
        (ConnectState::Answered(answer, held), ConnectEvent::Published) => {
            r matches ConnectStep::Next(
                ConnectState::Trickled(kept),
                ConnectAction::Punch { ufrag, pwd, session, key, sign_pk },
            ) && {
                &&& key@ == held@
                &&& sign_pk == c.session.host.sign_pk
                &&& kept@ == answer@
                &&& ufrag@ == answer@.ufrag
                &&& pwd@ == answer@.pwd
                &&& expects(c, session)
            }
        },
        (ConnectState::Trickled(answer), ConnectEvent::Punched) => {
            r == ConnectStep::Next(
                ConnectState::Punched,
                ConnectAction::Handshake { cert_fp: answer.cert_fp },
            )
        },
        (ConnectState::Punched, ConnectEvent::Handshaken) => {
            r == ConnectStep::Next(ConnectState::Finished, ConnectAction::Finish(None))
        },
        _ => r == ConnectStep::Unexpected(state),
    }
}

/// Whether the time goes into what an event leads to: into a message that is sealed, or into the
/// request to open one.
pub open spec fn reads_clock(c: Connect, state: ConnectState, event: ConnectEvent) -> bool {
    match (state, event) {
        (ConnectState::Listening(_), ConnectEvent::InboxSubscribed(_)) => true,
        (ConnectState::Offered(_), ConnectEvent::Reply { status, payload }) => {
            &&& status != Some(client::NO_RESPONDERS)
            &&& EnvelopeModel::parse(payload@) matches Ok(m)
            &&& m.eph_pk matches Some(eph_pk)
            &&& eph_pk.len() == wire::EPH_PK_LEN
        },
        (ConnectState::Replied(_, _), ConnectEvent::Opened(Ok(plaintext))) => {
            &&& !c.refresh
            &&& AnswerModel::parse(plaintext@) matches Ok(m)
            &&& m.transport == Transport::Quic
        },
        _ => false,
    }
}

/// The action of a step holds the time that the step was taken at.
pub open spec fn holds_time(step: ConnectStep) -> bool {
    step matches ConnectStep::Next(_, action) && (action is PublishOffer || action is OpenAnswer
        || action is PublishIce)
}

/// The time is held exactly where it is read, and where it is not, a step is the same at any time.
proof fn lemma_clock(
    c: Connect,
    state: ConnectState,
    event: ConnectEvent,
    now: u64,
    r: ConnectStep,
)
    requires
        is_step(c, state, event, now, r),
    ensures
        holds_time(r) == reads_clock(c, state, event),
        !reads_clock(c, state, event) ==> forall|then: u64| is_step(c, state, event, then, r),
{
    reveal(is_step);
}

/// What a refresh has in place of a local side: the host cannot tell it from another, but nothing in
/// it is ever used for ICE or a handshake.
pub open spec fn is_placeholder(local: LocalSide) -> bool {
    &&& local.ufrag@ == client::REFRESH_ONLY_UFRAG@
    &&& local.pwd@ == client::REFRESH_ONLY_PWD@
    &&& local.cert_fp@ == Seq::new(32, |i: int| 0u8)
    &&& local.candidate_line@ == ""@
}

/// Where a connect begins.
pub open spec fn is_start(c: Connect, state: ConnectState, action: ConnectAction) -> bool {
    if c.refresh {
        (state matches ConnectState::Listening(local) && is_placeholder(local)) && action
            is SubscribeInbox
    } else {
        state is Start && action is Prepare
    }
}

impl Connect {
    /// The first action.
    pub fn start(&self) -> (r: (ConnectState, ConnectAction))
        ensures
            is_start(*self, r.0, r.1),
    {
        if self.refresh {
            let cert_fp: [u8; 32] = [0u8; 32];
            assert(cert_fp@ =~= Seq::new(32, |i: int| 0u8));
            let local = LocalSide {
                ufrag: String::from_str(client::REFRESH_ONLY_UFRAG),
                pwd: String::from_str(client::REFRESH_ONLY_PWD),
                cert_fp,
                candidate_line: String::from_str(""),
            };
            (ConnectState::Listening(local), ConnectAction::SubscribeInbox)
        } else {
            (ConnectState::Start, ConnectAction::Prepare)
        }
    }

    /// Takes what came of the last action, by the system's clock, and says what to do next; none
    /// where the time goes into it and the clock is set before 1970.
    pub fn advance(&self, state: ConnectState, event: ConnectEvent) -> (r: Option<ConnectStep>)
        ensures
            match r {
                Some(step) => if reads_clock(*self, state, event) {
                    exists|now: u64| is_step(*self, state, event, now, step)
                } else {
                    forall|now: u64| is_step(*self, state, event, now, step)
                },
                None => reads_clock(*self, state, event),
            },
    {
        let clock = wire::now();
        let r = self.step_by(state, event, clock);
        proof {
            if clock is Some {
                lemma_clock(*self, state, event, clock->0, r->0);
            }
        }
        r
    }

    /// Takes what came of the last action, by the given clock, and says what to do next. A clock
    /// that shows no time is enough where none goes into it.
    pub fn step_by(&self, state: ConnectState, event: ConnectEvent, clock: Option<u64>) -> (r:
        Option<ConnectStep>)
        ensures
            match (clock, r) {
                (Some(now), Some(step)) => is_step(*self, state, event, now, step),
                (Some(_), None) => false,
                (None, Some(step)) => !reads_clock(*self, state, event) && forall|now: u64|
                    is_step(*self, state, event, now, step),
                (None, None) => reads_clock(*self, state, event),
            },
    {
        match clock {
            Some(now) => Some(self.step(state, event, now)),
            None => {
                let step = self.step(state, event, 0);
                proof {
                    lemma_clock(*self, state, event, 0, step);
                }
                match step {
                    ConnectStep::Next(_, ConnectAction::PublishOffer { .. }) => None,
                    ConnectStep::Next(_, ConnectAction::OpenAnswer { .. }) => None,
                    ConnectStep::Next(_, ConnectAction::PublishIce { .. }) => None,
                    timeless => Some(timeless),
                }
            },
        }
    }

    /// Takes what came of the last action, at the given time, and says what to do next.
    pub fn step(&self, state: ConnectState, event: ConnectEvent, now: u64) -> (r: ConnectStep)
        ensures
            is_step(*self, state, event, now, r),
    {
        reveal(is_step);
        match (state, event) {
            (ConnectState::Start, ConnectEvent::Prepared(local)) => {
                let subject = self.session.ice_subject(IceDirection::HostToClient);
                ConnectStep::Next(
                    ConnectState::Prepared(local),
                    ConnectAction::SubscribeIce(subject),
                )
            },
            (ConnectState::Prepared(local), ConnectEvent::Subscribed) => ConnectStep::Next(
                ConnectState::Listening(local),
                ConnectAction::SubscribeInbox,
            ),
            (ConnectState::Listening(local), ConnectEvent::InboxSubscribed(inbox)) => {
                self.publish_offer(local, inbox, now)
            },
            (ConnectState::Offering(local), ConnectEvent::Published) => ConnectStep::Next(
                ConnectState::Offered(local),
                ConnectAction::AwaitReply,
            ),
            (ConnectState::Offered(local), ConnectEvent::Reply { status, payload }) => {
                match self.session.on_reply(status, payload.as_slice(), self.dev_dh, now) {
                    Err(e) => ConnectStep::Failed(e),
                    Ok((env, key, request)) => {
                        let held = key.copy();
                        let sign_pk = self.session.host.sign_pk;
                        ConnectStep::Next(
                            ConnectState::Replied(local, held),
                            ConnectAction::OpenAnswer { env, key, request, sign_pk },
                        )
                    },
                }
            },
            (ConnectState::Replied(local, held), ConnectEvent::Opened(opened)) => {
                match self.session.on_opened(opened) {
                    Err(e) => ConnectStep::Failed(e),
                    Ok(answer) => if self.refresh {
                        ConnectStep::Next(
                            ConnectState::Finished,
                            ConnectAction::Finish(refreshed_capability(answer)),
                        )
                    } else {
                        self.publish_ice(local, held, answer, now)
                    },
                }
            },
            (ConnectState::Answered(answer, key), ConnectEvent::Published) => {
                let ufrag = String::from_str(answer.ufrag.as_str());
                let pwd = String::from_str(answer.pwd.as_str());
                let session = self.session.ice_session();
                let sign_pk = self.session.host.sign_pk;
                ConnectStep::Next(
                    ConnectState::Trickled(answer),
                    ConnectAction::Punch { ufrag, pwd, session, key, sign_pk },
                )
            },
            (ConnectState::Trickled(answer), ConnectEvent::Punched) => ConnectStep::Next(
                ConnectState::Punched,
                ConnectAction::Handshake { cert_fp: answer.cert_fp },
            ),
            (ConnectState::Punched, ConnectEvent::Handshaken) => ConnectStep::Next(
                ConnectState::Finished,
                ConnectAction::Finish(None),
            ),
            (state, _) => ConnectStep::Unexpected(state),
        }
    }

    fn publish_offer(&self, local: LocalSide, inbox: String, now: u64) -> (r: ConnectStep)
        ensures
            is_step(
                *self,
                ConnectState::Listening(local),
                ConnectEvent::InboxSubscribed(inbox),
                now,
                r,
            ),
    {
        reveal(is_step);
        let offer = offer_payload(
            String::from_str(inbox.as_str()),
            String::from_str(local.ufrag.as_str()),
            String::from_str(local.pwd.as_str()),
            local.cert_fp,
        );
        let (key, request) = seal_offer(
            &self.session.ctx,
            self.dev_dh,
            self.alg_id,
            self.session.device_fp,
            self.session.host.device_fp,
            &self.session.host.agree_pk,
            now,
            &offer,
        );
        let subject = self.session.connect_subject();
        ConnectStep::Next(
            ConnectState::Offering(local),
            ConnectAction::PublishOffer { subject, inbox, key, request },
        )
    }

    fn publish_ice(
        &self,
        local: LocalSide,
        held: KeyInputs,
        answer: AnswerPayload,
        now: u64,
    ) -> (r: ConnectStep)
        requires
            !self.refresh,
            answer@.transport == Transport::Quic,
        ensures
            forall|plaintext: Vec<u8>|
                AnswerModel::parse(#[trigger] plaintext@) == Ok::<
                    AnswerModel,
                    signaling::SignalingFault,
                >(answer@) ==> on_opened(*self, local, held, Ok(plaintext), now, r),
    {
        let (candidate, end) = own_ice_messages(
            self.alg_id,
            self.session.device_fp,
            self.session.host.device_fp,
            self.session.ctx.sid.as_slice(),
            now,
            local.candidate_line.as_str(),
        );
        let subject = self.session.ice_subject(IceDirection::ClientToHost);
        let key = held.copy();
        ConnectStep::Next(
            ConnectState::Answered(answer, held),
            ConnectAction::PublishIce { subject, key, candidate, end },
        )
    }
}

/// One turn of a run.
pub struct Turn {
    pub event: ConnectEvent,
    pub now: u64,
    pub state: ConnectState,
    pub action: ConnectAction,
}

/// The state before turn `i`.
pub open spec fn before(start: ConnectState, run: Seq<Turn>, i: int) -> ConnectState {
    if i == 0 {
        start
    } else {
        run[i - 1].state
    }
}

/// The turns follow from each other.
pub open spec fn is_run(c: Connect, start: ConnectState, run: Seq<Turn>) -> bool {
    forall|i: int|
        0 <= i < run.len() ==> is_step(
            c,
            before(start, run, i),
            (#[trigger] run[i]).event,
            run[i].now,
            ConnectStep::Next(run[i].state, run[i].action),
        )
}

/// How many turns of a connect lead to a state.
pub open spec fn turns_to(state: ConnectState) -> int {
    match state {
        ConnectState::Start => 0,
        ConnectState::Prepared(_) => 1,
        ConnectState::Listening(_) => 2,
        ConnectState::Offering(_) => 3,
        ConnectState::Offered(_) => 4,
        ConnectState::Replied(_, _) => 5,
        ConnectState::Answered(_, _) => 6,
        ConnectState::Trickled(_) => 7,
        ConnectState::Punched => 8,
        ConnectState::Finished => 9,
    }
}

/// What a turn says of the states around it.
proof fn lemma_turn(
    c: Connect,
    state: ConnectState,
    event: ConnectEvent,
    now: u64,
    next: ConnectState,
    action: ConnectAction,
)
    requires
        is_step(c, state, event, now, ConnectStep::Next(next, action)),
    ensures
        !c.refresh ==> turns_to(next) == turns_to(state) + 1,
        action is SubscribeIce <==> state is Start,
        action is SubscribeInbox <==> state is Prepared,
        state is Prepared ==> event is Subscribed,
        action is PublishOffer <==> state is Listening,
        action is PublishOffer ==> (event matches ConnectEvent::InboxSubscribed(own)
            && action->inbox@ == own@),
        state is Listening ==> next is Offering,
        state is Offering ==> next is Offered && action is AwaitReply,
        state is Offered ==> next is Replied && action is OpenAnswer,
        state is Replied && c.refresh ==> next is Finished && action is Finish,
        next is Answered ==> (event matches ConnectEvent::Opened(Ok(plaintext))
            && AnswerModel::parse(plaintext@) == Ok::<AnswerModel, signaling::SignalingFault>(
            next->Answered_0@,
        )),
        next is Trickled ==> state is Answered && next->Trickled_0@ == state->Answered_0@,
        action is OpenAnswer <==> state is Offered,
        action is OpenAnswer ==> next is Replied && next->Replied_1@ == action->OpenAnswer_key@
            && action->OpenAnswer_sign_pk == c.session.host.sign_pk,
        next is Answered <==> action is PublishIce,
        action is PublishIce ==> state is Replied && action->PublishIce_key@ == state->Replied_1@
            && next->Answered_1@ == state->Replied_1@,
        action is Punch <==> state is Answered,
        action is Punch ==> action->Punch_key@ == state->Answered_1@ && action->Punch_sign_pk
            == c.session.host.sign_pk,
        action is Handshake <==> state is Trickled,
        action is Handshake ==> action->cert_fp == state->Trickled_0.cert_fp,
        !(state is Finished),
{
    reveal(is_step);
}

/// What turn `i` of a run says.
proof fn lemma_turn_at(c: Connect, start: ConnectState, run: Seq<Turn>, i: int)
    requires
        is_run(c, start, run),
        0 <= i < run.len(),
    ensures
        is_step(
            c,
            before(start, run, i),
            run[i].event,
            run[i].now,
            ConnectStep::Next(run[i].state, run[i].action),
        ),
{
}

proof fn lemma_turns(c: Connect, start: ConnectState, run: Seq<Turn>, i: int)
    requires
        !c.refresh,
        start is Start,
        is_run(c, start, run),
        0 <= i < run.len(),
    ensures
        turns_to(run[i].state) == i + 1,
        turns_to(before(start, run, i)) == i,
    decreases i,
{
    if i > 0 {
        lemma_turns(c, start, run, i - 1);
    }
    lemma_turn_at(c, start, run, i);
    lemma_turn(
        c,
        before(start, run, i),
        run[i].event,
        run[i].now,
        run[i].state,
        run[i].action,
    );
}

/// As [`lemma_turn`], of turn `i` of a run.
proof fn lemma_turn_of(c: Connect, start: ConnectState, run: Seq<Turn>, i: int)
    requires
        !c.refresh,
        start is Start,
        is_run(c, start, run),
        0 <= i < run.len(),
    ensures
        turns_to(before(start, run, i)) == i,
        run[i].action is SubscribeIce <==> i == 0,
        run[i].action is SubscribeInbox <==> i == 1,
        i == 1 ==> run[i].event is Subscribed,
        run[i].action is PublishOffer <==> i == 2,
        i == 2 ==> (run[i].event matches ConnectEvent::InboxSubscribed(own)
            && run[i].action->inbox@ == own@),
        i == 5 ==> run[i].state is Answered && (run[i].event matches ConnectEvent::Opened(
            Ok(plaintext),
        ) && AnswerModel::parse(plaintext@) == Ok::<AnswerModel, signaling::SignalingFault>(
            run[i].state->Answered_0@,
        )),
        run[i].action is OpenAnswer <==> i == 4,
        i == 4 ==> run[i].state is Replied && run[i].state->Replied_1@
            == run[i].action->OpenAnswer_key@ && run[i].action->OpenAnswer_sign_pk
            == c.session.host.sign_pk,
        run[i].action is PublishIce <==> i == 5,
        i == 5 ==> run[i].action->PublishIce_key@ == run[i - 1].state->Replied_1@
            && run[i].state->Answered_1@ == run[i - 1].state->Replied_1@,
        run[i].action is Punch <==> i == 6,
        i == 6 ==> run[i].action->Punch_key@ == run[i - 1].state->Answered_1@
            && run[i].action->Punch_sign_pk == c.session.host.sign_pk,
        i == 6 ==> run[i].state is Trickled && run[i].state->Trickled_0@
            == run[i - 1].state->Answered_0@,
        run[i].action is Handshake <==> i == 7,
        i == 7 ==> run[i].action->cert_fp == run[i - 1].state->Trickled_0.cert_fp,
{
    lemma_turns(c, start, run, i);
    lemma_turn_at(c, start, run, i);
    lemma_turn(
        c,
        before(start, run, i),
        run[i].event,
        run[i].now,
        run[i].state,
        run[i].action,
    );
}

/// Everything that can arrive in reply to the offer is subscribed to before the offer is published,
/// and the reply subject in the offer is the one that is subscribed to.
pub proof fn law_listens_before_the_offer(
    c: Connect,
    start: ConnectState,
    first: ConnectAction,
    run: Seq<Turn>,
    i: int,
)
    requires
        !c.refresh,
        is_start(c, start, first),
        is_run(c, start, run),
        0 <= i < run.len(),
        run[i].action is PublishOffer,
    ensures
        i == 2,
        run[0].action is SubscribeIce,
        run[1].event is Subscribed,
        run[1].action is SubscribeInbox,
        run[2].event matches ConnectEvent::InboxSubscribed(own) && run[2].action->inbox@ == own@,
{
    lemma_turn_of(c, start, run, i);
    lemma_turn_of(c, start, run, 0);
    lemma_turn_of(c, start, run, 1);
}

/// The certificate that the handshake is pinned to is the one in the answer that the cipher opened.
pub proof fn law_pins_what_was_answered(
    c: Connect,
    start: ConnectState,
    first: ConnectAction,
    run: Seq<Turn>,
    i: int,
)
    requires
        !c.refresh,
        is_start(c, start, first),
        is_run(c, start, run),
        0 <= i < run.len(),
        run[i].action is Handshake,
    ensures
        i == 7,
        run[5].event matches ConnectEvent::Opened(Ok(plaintext)) && (AnswerModel::parse(plaintext@)
            matches Ok(m) && run[7].action->cert_fp@ == m.cert_fp),
{
    lemma_turn_of(c, start, run, i);
    lemma_turn_of(c, start, run, 6);
    lemma_turn_of(c, start, run, 5);
}

/// The ICE messages, both ways, go under the key that the answer was opened under, and those of the
/// host under the signing key that the answer had to be signed with: that of the host that was
/// dialled.
pub proof fn law_trickles_under_the_answers_key(
    c: Connect,
    start: ConnectState,
    first: ConnectAction,
    run: Seq<Turn>,
    i: int,
)
    requires
        !c.refresh,
        is_start(c, start, first),
        is_run(c, start, run),
        0 <= i < run.len(),
        run[i].action is PublishIce || run[i].action is Punch,
    ensures
        i > 4,
        run[4].action is OpenAnswer,
        run[4].action->OpenAnswer_sign_pk == c.session.host.sign_pk,
        run[i].action matches ConnectAction::PublishIce { key, .. } ==> key@
            == run[4].action->OpenAnswer_key@,
        run[i].action matches ConnectAction::Punch { key, sign_pk, .. } ==> key@
            == run[4].action->OpenAnswer_key@ && sign_pk == c.session.host.sign_pk,
{
    lemma_turn_of(c, start, run, i);
    lemma_turn_of(c, start, run, 4);
    lemma_turn_of(c, start, run, 5);
}

proof fn lemma_refresh(c: Connect, start: ConnectState, run: Seq<Turn>, i: int)
    requires
        c.refresh,
        start is Listening,
        is_run(c, start, run),
        0 <= i < run.len(),
    ensures
        run[i].action is PublishOffer || run[i].action is AwaitReply || run[i].action is OpenAnswer
            || run[i].action is Finish,
        run[i].state is Offering || run[i].state is Offered || run[i].state is Replied
            || run[i].state is Finished,
    decreases i,
{
    if i > 0 {
        lemma_refresh(c, start, run, i - 1);
    }
    lemma_turn_at(c, start, run, i);
    lemma_turn(
        c,
        before(start, run, i),
        run[i].event,
        run[i].now,
        run[i].state,
        run[i].action,
    );
}

/// A refresh does nothing that a device with an expired capability may not do: it neither listens to
/// nor sends ICE messages, and does not get to a handshake.
pub proof fn law_refresh_stays_on_the_connect_subject(
    c: Connect,
    start: ConnectState,
    first: ConnectAction,
    run: Seq<Turn>,
    i: int,
)
    requires
        c.refresh,
        is_start(c, start, first),
        is_run(c, start, run),
        0 <= i < run.len(),
    ensures
        first is SubscribeInbox,
        run[i].action is PublishOffer || run[i].action is AwaitReply || run[i].action is OpenAnswer
            || run[i].action is Finish,
{
    lemma_refresh(c, start, run, i);
}

// ---- what is said to whom ----

impl ConnectState {
    /// The local side, from when it is there to when it is last needed.
    pub open spec fn local(self) -> Option<LocalSide> {
        match self {
            ConnectState::Prepared(local) => Some(local),
            ConnectState::Listening(local) => Some(local),
            ConnectState::Offering(local) => Some(local),
            ConnectState::Offered(local) => Some(local),
            ConnectState::Replied(local, _) => Some(local),
            _ => None,
        }
    }
}

proof fn lemma_kept(
    c: Connect,
    state: ConnectState,
    event: ConnectEvent,
    now: u64,
    next: ConnectState,
    action: ConnectAction,
)
    requires
        is_step(c, state, event, now, ConnectStep::Next(next, action)),
    ensures
        state is Start ==> event is Prepared && next.local() == Some(event->Prepared_0),
        state.local() is Some && next.local() is Some ==> next.local() == state.local(),
{
    reveal(is_step);
}

/// The local side is that of the first turn for as long as it is needed.
proof fn lemma_local(c: Connect, start: ConnectState, run: Seq<Turn>, i: int)
    requires
        !c.refresh,
        start is Start,
        is_run(c, start, run),
        0 <= i < run.len(),
    ensures
        run[0].event is Prepared,
        run[i].state.local() is Some ==> run[i].state.local() == Some(run[0].event->Prepared_0),
    decreases i,
{
    lemma_turn_at(c, start, run, i);
    lemma_turns(c, start, run, i);
    lemma_kept(c, before(start, run, i), run[i].event, run[i].now, run[i].state, run[i].action);
    if i > 0 {
        lemma_local(c, start, run, i - 1);
        lemma_turns(c, start, run, i - 1);
    }
}

proof fn lemma_subscribes(
    c: Connect,
    state: ConnectState,
    event: ConnectEvent,
    now: u64,
    next: ConnectState,
    action: ConnectAction,
)
    requires
        is_step(c, state, event, now, ConnectStep::Next(next, action)),
        action is SubscribeIce,
    ensures
        action->SubscribeIce_0@ == "host."@ + fingerprint::token(c.session.host.host_fp@)
            + ".sess."@
            + fingerprint::token(c.session.device_fp@) + "."@ + text::hex(c.session.ctx.sid@) + "."@
            + "h2c"@,
{
    reveal(is_step);
}

proof fn lemma_punches(
    c: Connect,
    state: ConnectState,
    event: ConnectEvent,
    now: u64,
    next: ConnectState,
    action: ConnectAction,
)
    requires
        is_step(c, state, event, now, ConnectStep::Next(next, action)),
        action is Punch,
    ensures
        state is Answered,
        action->Punch_ufrag@ == state->Answered_0.ufrag@,
        action->Punch_pwd@ == state->Answered_0.pwd@,
        action->Punch_session.subject_text() == "host."@ + fingerprint::token(
            c.session.host.host_fp@,
        ) + ".sess."@ + fingerprint::token(c.session.device_fp@) + "."@ + text::hex(
            c.session.ctx.sid@,
        ) + "."@ + "h2c"@,
        action->Punch_session.self_fp == c.session.device_fp,
        action->Punch_session.peer_fp == c.session.host.device_fp,
        action->Punch_session.sid@ == c.session.ctx.sid@,
{
    reveal(is_step);
}

proof fn lemma_trickles(
    c: Connect,
    state: ConnectState,
    event: ConnectEvent,
    now: u64,
    next: ConnectState,
    action: ConnectAction,
)
    requires
        is_step(c, state, event, now, ConnectStep::Next(next, action)),
        action is PublishIce,
    ensures
        state is Replied,
        action->PublishIce_subject@ == "host."@ + fingerprint::token(c.session.host.host_fp@)
            + ".sess."@ + fingerprint::token(c.session.device_fp@) + "."@ + text::hex(
            c.session.ctx.sid@,
        ) + "."@ + "c2h"@,
        action->PublishIce_candidate@ == (SealModel {
            v: 1,
            alg_id: c.alg_id,
            from_fp: c.session.device_fp.bytes@,
            to_fp: c.session.host.device_fp.bytes@,
            sid: c.session.ctx.sid@,
            kind: 3,
            seq: 1,
            ts: now,
            eph_pk: None,
            plaintext: (IceModel {
                candidate: Some(state->Replied_0.candidate_line@),
                end_of_candidates: false,
            }).bytes(),
        }),
        action->PublishIce_end@ == (SealModel {
            v: 1,
            alg_id: c.alg_id,
            from_fp: c.session.device_fp.bytes@,
            to_fp: c.session.host.device_fp.bytes@,
            sid: c.session.ctx.sid@,
            kind: 3,
            seq: 2,
            ts: now,
            eph_pk: None,
            plaintext: (IceModel { candidate: None, end_of_candidates: true }).bytes(),
        }),
{
    reveal(is_step);
}

proof fn lemma_offers(
    c: Connect,
    state: ConnectState,
    event: ConnectEvent,
    now: u64,
    next: ConnectState,
    action: ConnectAction,
)
    requires
        is_step(c, state, event, now, ConnectStep::Next(next, action)),
        action is PublishOffer,
    ensures
        state is Listening,
        event is InboxSubscribed,
        action->inbox@ == event->InboxSubscribed_0@,
        action->PublishOffer_subject@ == "host."@ + fingerprint::token(c.session.host.host_fp@)
            + ".connect"@,
        action->PublishOffer_request@ == (SealModel {
            v: 1,
            alg_id: c.alg_id,
            from_fp: c.session.device_fp.bytes@,
            to_fp: c.session.host.device_fp.bytes@,
            sid: c.session.ctx.sid@,
            kind: 1,
            seq: 0,
            ts: now,
            eph_pk: Some(crate::net::agreement::public_of(c.session.ctx.eph_c.secret())),
            plaintext: (OfferModel {
                inbox: event->InboxSubscribed_0@,
                transport: Transport::Quic,
                ufrag: state->Listening_0.ufrag@,
                pwd: state->Listening_0.pwd@,
                cert_fp: state->Listening_0.cert_fp@,
            }).bytes(),
        }),
        action->PublishOffer_key@ == (KeyModel {
            eph_dh: crate::net::agreement::shared_of(
                c.session.ctx.eph_c.secret(),
                c.session.host.agree_pk@,
            ),
            dev_dh: c.dev_dh@,
            sid: c.session.ctx.sid@,
            client_fp: c.session.device_fp.bytes@,
            host_fp: c.session.host.device_fp.bytes@,
        }),
{
    reveal(is_step);
}

proof fn lemma_opens(
    c: Connect,
    state: ConnectState,
    event: ConnectEvent,
    now: u64,
    next: ConnectState,
    action: ConnectAction,
)
    requires
        is_step(c, state, event, now, ConnectStep::Next(next, action)),
        action is OpenAnswer,
    ensures
        event is Reply,
        event->status != Some(503u16),
        EnvelopeModel::parse(event->payload@) == Ok::<EnvelopeModel, crate::proto::reader::Fault>(
            action->env@,
        ),
        action->OpenAnswer_request@ == (wire::OpenModel {
            self_fp: c.session.device_fp.bytes@,
            expected_sid: c.session.ctx.sid@,
            bound_from_fp: Some(c.session.host.device_fp.bytes@),
            min_seq_exclusive: None,
            now,
            min_v: 1,
            min_alg_id: 1,
            expected_kind: 2,
            sender_revoked: false,
        }),
        action->env@.eph_pk is Some,
        action->env@.eph_pk->0.len() == 32,
        action->OpenAnswer_key@ == (KeyModel {
            eph_dh: crate::net::agreement::shared_of(
                c.session.ctx.eph_c.secret(),
                action->env@.eph_pk->0,
            ),
            dev_dh: c.dev_dh@,
            sid: c.session.ctx.sid@,
            client_fp: c.session.device_fp.bytes@,
            host_fp: c.session.host.device_fp.bytes@,
        }),
{
    reveal(is_step);
}

/// The client listens where the host's ICE messages of this session go, and takes those for the
/// session that it punches for.
pub proof fn law_listens_where_it_punches(
    c: Connect,
    start: ConnectState,
    first: ConnectAction,
    run: Seq<Turn>,
    i: int,
)
    requires
        !c.refresh,
        is_start(c, start, first),
        is_run(c, start, run),
        0 <= i < run.len(),
        run[i].action is Punch,
    ensures
        i == 6,
        run[0].action is SubscribeIce,
        run[0].action->SubscribeIce_0@ == run[i].action->Punch_session.subject_text(),
        run[0].action->SubscribeIce_0@ == "host."@ + fingerprint::token(c.session.host.host_fp@)
            + ".sess."@ + fingerprint::token(c.session.device_fp@) + "."@ + text::hex(
            c.session.ctx.sid@,
        ) + "."@ + "h2c"@,
        run[i].action->Punch_session.self_fp == c.session.device_fp,
        run[i].action->Punch_session.peer_fp == c.session.host.device_fp,
        run[i].action->Punch_session.sid@ == c.session.ctx.sid@,
{
    lemma_turn_of(c, start, run, i);
    lemma_turn_of(c, start, run, 0);
    lemma_turn_at(c, start, run, 0);
    lemma_turn_at(c, start, run, i);
    lemma_subscribes(
        c,
        before(start, run, 0),
        run[0].event,
        run[0].now,
        run[0].state,
        run[0].action,
    );
    lemma_punches(c, before(start, run, i), run[i].event, run[i].now, run[i].state, run[i].action);
}

/// The client's candidate, and then the marker that no more follow, go where the host listens for
/// the ICE messages of this session, which is not where the client listens itself.
pub proof fn law_trickles_to_the_host(
    c: Connect,
    start: ConnectState,
    first: ConnectAction,
    run: Seq<Turn>,
    i: int,
)
    requires
        !c.refresh,
        is_start(c, start, first),
        is_run(c, start, run),
        0 <= i < run.len(),
        run[i].action is PublishIce,
    ensures
        i == 5,
        run[0].event is Prepared,
        run[0].action is SubscribeIce,
        run[i].action->PublishIce_subject@ != run[0].action->SubscribeIce_0@,
        run[i].action->PublishIce_subject@ == "host."@ + fingerprint::token(
            c.session.host.host_fp@,
        ) + ".sess."@ + fingerprint::token(c.session.device_fp@) + "."@ + text::hex(
            c.session.ctx.sid@,
        ) + "."@ + "c2h"@,
        forall|s: IceSession|
            s.host_fp == c.session.host.host_fp && s.client_fp == c.session.device_fp && s.sid@
                == c.session.ctx.sid@ && s.direction is ClientToHost ==> #[trigger] s.subject_text()
                == run[i].action->PublishIce_subject@,
        run[i].action->PublishIce_candidate@ == (SealModel {
            v: 1,
            alg_id: c.alg_id,
            from_fp: c.session.device_fp.bytes@,
            to_fp: c.session.host.device_fp.bytes@,
            sid: c.session.ctx.sid@,
            kind: 3,
            seq: 1,
            ts: run[i].now,
            eph_pk: None,
            plaintext: (IceModel {
                candidate: Some(run[0].event->Prepared_0.candidate_line@),
                end_of_candidates: false,
            }).bytes(),
        }),
        run[i].action->PublishIce_end@ == (SealModel {
            v: 1,
            alg_id: c.alg_id,
            from_fp: c.session.device_fp.bytes@,
            to_fp: c.session.host.device_fp.bytes@,
            sid: c.session.ctx.sid@,
            kind: 3,
            seq: 2,
            ts: run[i].now,
            eph_pk: None,
            plaintext: (IceModel { candidate: None, end_of_candidates: true }).bytes(),
        }),
{
    lemma_turn_of(c, start, run, i);
    lemma_turn_of(c, start, run, 0);
    lemma_turn_at(c, start, run, 0);
    lemma_turn_at(c, start, run, i);
    lemma_local(c, start, run, i - 1);
    lemma_subscribes(
        c,
        before(start, run, 0),
        run[0].event,
        run[0].now,
        run[0].state,
        run[0].action,
    );
    lemma_trickles(c, before(start, run, i), run[i].event, run[i].now, run[i].state, run[i].action);
    let (h, d, sid) = (c.session.host.host_fp@, c.session.device_fp@, c.session.ctx.sid@);
    assert(run[0].action->SubscribeIce_0@ == subject::session_text(
        h,
        d,
        sid,
        IceDirection::HostToClient,
    ));
    assert(run[i].action->PublishIce_subject@ == subject::session_text(
        h,
        d,
        sid,
        IceDirection::ClientToHost,
    ));
    if run[i].action->PublishIce_subject@ == run[0].action->SubscribeIce_0@ {
        subject::law_session_subject_unique(
            h,
            d,
            sid,
            IceDirection::HostToClient,
            h,
            d,
            sid,
            IceDirection::ClientToHost,
        );
    }
}

/// The offer goes to the host that is dialled, from this device, for this session, and tells of the
/// reply subject and of the local side and nothing else.
pub proof fn law_offers_its_own_side(
    c: Connect,
    start: ConnectState,
    first: ConnectAction,
    run: Seq<Turn>,
    i: int,
)
    requires
        !c.refresh,
        is_start(c, start, first),
        is_run(c, start, run),
        0 <= i < run.len(),
        run[i].action is PublishOffer,
    ensures
        i == 2,
        run[0].event is Prepared,
        run[i].event is InboxSubscribed,
        run[i].action->inbox@ == run[i].event->InboxSubscribed_0@,
        run[i].action->PublishOffer_subject@ == "host."@ + fingerprint::token(
            c.session.host.host_fp@,
        ) + ".connect"@,
        run[i].action->PublishOffer_request@ == (SealModel {
            v: 1,
            alg_id: c.alg_id,
            from_fp: c.session.device_fp.bytes@,
            to_fp: c.session.host.device_fp.bytes@,
            sid: c.session.ctx.sid@,
            kind: 1,
            seq: 0,
            ts: run[i].now,
            eph_pk: Some(crate::net::agreement::public_of(c.session.ctx.eph_c.secret())),
            plaintext: (OfferModel {
                inbox: run[i].event->InboxSubscribed_0@,
                transport: Transport::Quic,
                ufrag: run[0].event->Prepared_0.ufrag@,
                pwd: run[0].event->Prepared_0.pwd@,
                cert_fp: run[0].event->Prepared_0.cert_fp@,
            }).bytes(),
        }),
        run[i].action->PublishOffer_key@ == (KeyModel {
            eph_dh: crate::net::agreement::shared_of(
                c.session.ctx.eph_c.secret(),
                c.session.host.agree_pk@,
            ),
            dev_dh: c.dev_dh@,
            sid: c.session.ctx.sid@,
            client_fp: c.session.device_fp.bytes@,
            host_fp: c.session.host.device_fp.bytes@,
        }),
{
    lemma_turn_of(c, start, run, i);
    lemma_turn_at(c, start, run, i);
    lemma_local(c, start, run, i - 1);
    lemma_offers(c, before(start, run, i), run[i].event, run[i].now, run[i].state, run[i].action);
}

/// The reply is opened only as an answer of the host that was dialled, to this device, for this
/// session, and under the key that the ephemeral key in it agrees on.
pub proof fn law_opens_what_the_host_answers(
    c: Connect,
    start: ConnectState,
    first: ConnectAction,
    run: Seq<Turn>,
    i: int,
)
    requires
        !c.refresh,
        is_start(c, start, first),
        is_run(c, start, run),
        0 <= i < run.len(),
        run[i].action is OpenAnswer,
    ensures
        i == 4,
        run[i].event is Reply,
        run[i].event->status != Some(503u16),
        EnvelopeModel::parse(run[i].event->payload@) == Ok::<
            EnvelopeModel,
            crate::proto::reader::Fault,
        >(run[i].action->env@),
        run[i].action->OpenAnswer_request@ == (wire::OpenModel {
            self_fp: c.session.device_fp.bytes@,
            expected_sid: c.session.ctx.sid@,
            bound_from_fp: Some(c.session.host.device_fp.bytes@),
            min_seq_exclusive: None,
            now: run[i].now,
            min_v: 1,
            min_alg_id: 1,
            expected_kind: 2,
            sender_revoked: false,
        }),
        run[i].action->env@.eph_pk is Some,
        run[i].action->env@.eph_pk->0.len() == 32,
        run[i].action->OpenAnswer_key@ == (KeyModel {
            eph_dh: crate::net::agreement::shared_of(
                c.session.ctx.eph_c.secret(),
                run[i].action->env@.eph_pk->0,
            ),
            dev_dh: c.dev_dh@,
            sid: c.session.ctx.sid@,
            client_fp: c.session.device_fp.bytes@,
            host_fp: c.session.host.device_fp.bytes@,
        }),
{
    lemma_turn_of(c, start, run, i);
    lemma_turn_at(c, start, run, i);
    lemma_opens(c, before(start, run, i), run[i].event, run[i].now, run[i].state, run[i].action);
}

/// The credentials that the client punches with are those in the answer that the cipher opened.
pub proof fn law_punches_with_what_was_answered(
    c: Connect,
    start: ConnectState,
    first: ConnectAction,
    run: Seq<Turn>,
    i: int,
)
    requires
        !c.refresh,
        is_start(c, start, first),
        is_run(c, start, run),
        0 <= i < run.len(),
        run[i].action is Punch,
    ensures
        i == 6,
        run[5].event matches ConnectEvent::Opened(Ok(plaintext)) && (AnswerModel::parse(plaintext@)
            matches Ok(m) && run[i].action->Punch_ufrag@ == m.ufrag && run[i].action->Punch_pwd@
            == m.pwd && m.transport == Transport::Quic),
{
    lemma_turn_of(c, start, run, i);
    lemma_turn_of(c, start, run, 5);
    lemma_turn_at(c, start, run, i);
    lemma_turn_at(c, start, run, 5);
    lemma_punches(c, before(start, run, i), run[i].event, run[i].now, run[i].state, run[i].action);
    lemma_quic(c, before(start, run, 5), run[5].event, run[5].now, run[5].state, run[5].action);
}

proof fn lemma_quic(
    c: Connect,
    state: ConnectState,
    event: ConnectEvent,
    now: u64,
    next: ConnectState,
    action: ConnectAction,
)
    requires
        is_step(c, state, event, now, ConnectStep::Next(next, action)),
        action is PublishIce,
    ensures
        next is Answered,
        next->Answered_0@.transport == Transport::Quic,
{
    reveal(is_step);
}

/// The client listens where the host's ICE messages of this session go.
pub proof fn law_listens_for_the_host(
    c: Connect,
    start: ConnectState,
    first: ConnectAction,
    run: Seq<Turn>,
    i: int,
)
    requires
        !c.refresh,
        is_start(c, start, first),
        is_run(c, start, run),
        0 <= i < run.len(),
        run[i].action is SubscribeIce,
    ensures
        i == 0,
        run[i].action->SubscribeIce_0@ == "host."@ + fingerprint::token(c.session.host.host_fp@)
            + ".sess."@ + fingerprint::token(c.session.device_fp@) + "."@ + text::hex(
            c.session.ctx.sid@,
        ) + "."@ + "h2c"@,
{
    lemma_turn_of(c, start, run, i);
    lemma_turn_at(c, start, run, i);
    lemma_subscribes(
        c,
        before(start, run, i),
        run[i].event,
        run[i].now,
        run[i].state,
        run[i].action,
    );
}

/// Wherever nothing is wrong with what came of an action, the connect goes on; wherever something
/// is, it fails, and says what.
pub proof fn law_goes_on_unless_refused(
    c: Connect,
    state: ConnectState,
    event: ConnectEvent,
    now: u64,
    r: ConnectStep,
)
    requires
        is_step(c, state, event, now, r),
    ensures
        match (state, event) {
            (ConnectState::Start, ConnectEvent::Prepared(_)) => r is Next,
            (ConnectState::Prepared(_), ConnectEvent::Subscribed) => r is Next,
            (ConnectState::Listening(_), ConnectEvent::InboxSubscribed(_)) => r is Next,
            (ConnectState::Offering(_), ConnectEvent::Published) => r is Next,
            (ConnectState::Offered(_), ConnectEvent::Reply { status, payload }) => {
                if status == Some(503u16) {
                    r == ConnectStep::Failed(SignalingError::HostOffline)
                } else {
                    match EnvelopeModel::parse(payload@) {
                        Err(f) => r matches ConnectStep::Failed(e) && (e
                            matches SignalingError::EnvelopeDecode(p) && p@ == f),
                        Ok(m) => match m.eph_pk {
                            None => r == ConnectStep::Failed(SignalingError::MissingEphPk),
                            Some(key) => if key.len() == 32 {
                                r is Next
                            } else {
                                r == ConnectStep::Failed(
                                    SignalingError::BadEphPk(key.len() as usize),
                                )
                            },
                        },
                    }
                }
            },
            (ConnectState::Replied(_, _), ConnectEvent::Opened(Err(said))) => {
                r matches ConnectStep::Failed(e) && (e matches SignalingError::Envelope(s) && s@
                    == said@)
            },
            (ConnectState::Replied(_, _), ConnectEvent::Opened(Ok(plaintext))) => {
                match AnswerModel::parse(plaintext@) {
                    Err(f) => r matches ConnectStep::Failed(e) && (e
                        matches SignalingError::Payload(p) && p@ == f),
                    Ok(m) => if m.transport is WebRtc {
                        r == ConnectStep::Failed(
                            SignalingError::UnsupportedTransport(Transport::WebRtc),
                        )
                    } else {
                        r is Next
                    },
                }
            },
            (ConnectState::Answered(_, _), ConnectEvent::Published) => r is Next,
            (ConnectState::Trickled(_), ConnectEvent::Punched) => r is Next,
            (ConnectState::Punched, ConnectEvent::Handshaken) => r is Next,
            _ => r == ConnectStep::Unexpected(state),
        },
{
    reveal(is_step);
}

/// What a refresh offers goes to the host that is dialled, from this device, under the reply
/// subject that it listens on, and what comes of it is the capability in the answer.
pub proof fn law_refresh_asks_for_the_capability(
    c: Connect,
    start: ConnectState,
    first: ConnectAction,
    run: Seq<Turn>,
    i: int,
)
    requires
        c.refresh,
        is_start(c, start, first),
        is_run(c, start, run),
        0 <= i < run.len(),
    ensures
        run[i].action is PublishOffer ==> {
            &&& run[i].event is InboxSubscribed
            &&& run[i].action->inbox@ == run[i].event->InboxSubscribed_0@
            &&& run[i].action->PublishOffer_subject@ == "host."@ + fingerprint::token(
                c.session.host.host_fp@,
            ) + ".connect"@
            &&& run[i].action->PublishOffer_request@.from_fp == c.session.device_fp.bytes@
            &&& run[i].action->PublishOffer_request@.to_fp == c.session.host.device_fp.bytes@
            &&& run[i].action->PublishOffer_request@.sid == c.session.ctx.sid@
            &&& run[i].action->PublishOffer_request@.kind == 1
        },
        run[i].action is Finish ==> (run[i].event matches ConnectEvent::Opened(Ok(plaintext)) && (
        AnswerModel::parse(plaintext@) matches Ok(m) && signaling::opt_capability(
            run[i].action->Finish_0,
        ) == m.member_cap)),
{
    lemma_turn_at(c, start, run, i);
    lemma_refresh(c, start, run, i);
    if run[i].action is PublishOffer {
        lemma_offers(
            c,
            before(start, run, i),
            run[i].event,
            run[i].now,
            run[i].state,
            run[i].action,
        );
    }
    if run[i].action is Finish {
        if i > 0 {
            lemma_refresh(c, start, run, i - 1);
        }
        lemma_finishes(
            c,
            before(start, run, i),
            run[i].event,
            run[i].now,
            run[i].state,
            run[i].action,
        );
    }
}

proof fn lemma_finishes(
    c: Connect,
    state: ConnectState,
    event: ConnectEvent,
    now: u64,
    next: ConnectState,
    action: ConnectAction,
)
    requires
        is_step(c, state, event, now, ConnectStep::Next(next, action)),
        action is Finish,
    ensures
        state is Punched || (state is Replied && (event matches ConnectEvent::Opened(Ok(plaintext))
            && (AnswerModel::parse(plaintext@) matches Ok(m) && signaling::opt_capability(
            action->Finish_0,
        ) == m.member_cap))),
{
    reveal(is_step);
}

/// A connect begins with preparing the local side. A refresh has none, and begins with listening
/// for the reply; what it puts into its offer in place of one gives nothing away.
pub proof fn law_where_it_begins(c: Connect, state: ConnectState, action: ConnectAction)
    requires
        is_start(c, state, action),
    ensures
        !c.refresh ==> state is Start && action is Prepare,
        c.refresh ==> action is SubscribeInbox && (state matches ConnectState::Listening(local) && {
            &&& local.ufrag@ == "refresh-only-ufrag"@
            &&& local.pwd@ == "refresh-only-password-placeholder"@
            &&& local.cert_fp@.len() == 32
            &&& forall|i: int| 0 <= i < 32 ==> #[trigger] local.cert_fp@[i] == 0
            &&& local.candidate_line@ == ""@
        }),
{
}

/// Which action comes at which turn.
pub proof fn law_turn_by_turn(
    c: Connect,
    start: ConnectState,
    first: ConnectAction,
    run: Seq<Turn>,
    i: int,
)
    requires
        !c.refresh,
        is_start(c, start, first),
        is_run(c, start, run),
        0 <= i < run.len(),
    ensures
        i < 9,
        i == 0 ==> run[i].event is Prepared && run[i].action is SubscribeIce,
        i == 1 ==> run[i].event is Subscribed && run[i].action is SubscribeInbox,
        i == 2 ==> run[i].event is InboxSubscribed && run[i].action is PublishOffer,
        i == 3 ==> run[i].event is Published && run[i].action is AwaitReply,
        i == 4 ==> run[i].event is Reply && run[i].action is OpenAnswer,
        i == 5 ==> run[i].event is Opened && run[i].action is PublishIce,
        i == 6 ==> run[i].event is Published && run[i].action is Punch,
        i == 7 ==> run[i].event is Punched && run[i].action is Handshake,
        i == 8 ==> run[i].event is Handshaken && run[i].action == ConnectAction::Finish(None),
{
    lemma_turns(c, start, run, i);
    lemma_turn_at(c, start, run, i);
    lemma_next_action(
        c,
        before(start, run, i),
        run[i].event,
        run[i].now,
        run[i].state,
        run[i].action,
    );
}

proof fn lemma_next_action(
    c: Connect,
    state: ConnectState,
    event: ConnectEvent,
    now: u64,
    next: ConnectState,
    action: ConnectAction,
)
    requires
        !c.refresh,
        is_step(c, state, event, now, ConnectStep::Next(next, action)),
    ensures
        match state {
            ConnectState::Start => event is Prepared && action is SubscribeIce,
            ConnectState::Prepared(_) => event is Subscribed && action is SubscribeInbox,
            ConnectState::Listening(_) => event is InboxSubscribed && action is PublishOffer,
            ConnectState::Offering(_) => event is Published && action is AwaitReply,
            ConnectState::Offered(_) => event is Reply && action is OpenAnswer,
            ConnectState::Replied(_, _) => event is Opened && action is PublishIce,
            ConnectState::Answered(_, _) => event is Published && action is Punch,
            ConnectState::Trickled(_) => event is Punched && action is Handshake,
            ConnectState::Punched => event is Handshaken && action == ConnectAction::Finish(None),
            ConnectState::Finished => false,
        },
{
    reveal(is_step);
}

} // verus!
