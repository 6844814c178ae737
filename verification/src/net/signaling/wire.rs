//! Offers, answers and ICE messages inside envelopes.
//!
//! The envelope cipher takes a key and what it has to check or to seal, and hands back an envelope
//! or a plaintext. The functions here say what it is asked, and what follows from its reply. There
//! are two keys: the offer is sealed under the bootstrap key, which the client can derive before it
//! has heard from the host, and everything after it under the session key, which needs an ephemeral
//! key of either side.
use crate::net::agreement;
use crate::net::agreement::{os_random, EphemeralKey};
use crate::net::fingerprint::{Fingerprint, FINGERPRINT_LEN};
use crate::net::signaling::error::SignalingError;
use crate::net::signaling::seq::SeqFloor;
use crate::net::signaling::subject;
use crate::net::signaling::subject::{parse_session_subject, IceDirection};
use crate::octets::{copy_bytes, same_bytes, to_array_32};
use crate::proto::artifacts::envelope::Envelope;
use crate::proto::reader;
use crate::proto::signaling::{
    AnswerModel, AnswerPayload, IceModel, IcePayload, OfferModel, OfferPayload, SignalingFault,
    KIND_ANSWER, KIND_ICE, KIND_OFFER,
};
use vstd::prelude::*;

verus! {

/// The envelope version that is written, and the lowest that is accepted.
pub const ENVELOPE_V1: u8 = 1;

/// The lowest cipher suite that is accepted.
pub const ALG_ID_V1: u8 = 1;

/// Length of an ephemeral public key in bytes.
pub const EPH_PK_LEN: usize = 32;

/// Length of a session identifier in bytes.
pub const SID_LEN: usize = 16;

/// The seconds since 1970, from `SystemTime::now`; none where the clock is set before that.
#[verifier::external_body]
pub fn now() -> (seconds: Option<u64>) {
    match std::time::SystemTime::now().duration_since(std::time::UNIX_EPOCH) {
        Ok(elapsed) => Some(elapsed.as_secs()),
        Err(_) => None,
    }
}

/// A fresh session identifier: 16 random bytes.
pub fn fresh_sid() -> (r: Result<Vec<u8>, SignalingError>)
    ensures
        match r {
            Ok(sid) => sid@.len() == SID_LEN,
            Err(e) => e is Io,
        },
{
    match os_random(SID_LEN) {
        Ok(sid) => Ok(sid),
        Err(e) => Err(SignalingError::Io(e)),
    }
}

/// An ephemeral public key from its bytes.
pub fn x25519_from_bytes(bytes: &[u8]) -> (r: Result<[u8; 32], SignalingError>)
    ensures
        match r {
            Ok(key) => bytes@.len() == EPH_PK_LEN && key@ == bytes@,
            Err(e) => bytes@.len() != EPH_PK_LEN && e == SignalingError::BadEphPk(
                bytes@.len() as usize,
            ),
        },
{
    let len: usize = bytes.len();
    if len != EPH_PK_LEN {
        return Err(SignalingError::BadEphPk(len));
    }
    Ok(to_array_32(bytes))
}

/// What is wrong with the ephemeral key of an envelope.
pub open spec fn bad_eph_pk(eph_pk: Option<Seq<u8>>, e: SignalingError) -> bool {
    match eph_pk {
        None => e is MissingEphPk,
        Some(b) => b.len() != EPH_PK_LEN && e == SignalingError::BadEphPk(b.len() as usize),
    }
}

/// The ephemeral public key of an envelope.
pub fn eph_pk_of(env: &Envelope) -> (r: Result<[u8; 32], SignalingError>)
    ensures
        match r {
            Ok(key) => env@.eph_pk == Some(key@),
            Err(e) => bad_eph_pk(env@.eph_pk, e),
        },
{
    match &env.eph_pk {
        None => Err(SignalingError::MissingEphPk),
        Some(bytes) => x25519_from_bytes(bytes.as_slice()),
    }
}

// ---- what the cipher is asked ----

/// What a key is derived from.
pub struct KeyInputs {
    /// What the ephemeral exchange agreed on.
    pub eph_dh: [u8; 32],
    /// What the exchange between the devices' own keys agreed on.
    pub dev_dh: [u8; 32],
    pub sid: Vec<u8>,
    pub client_fp: Fingerprint,
    pub host_fp: Fingerprint,
}

/// The values in [`KeyInputs`].
pub struct KeyModel {
    pub eph_dh: Seq<u8>,
    pub dev_dh: Seq<u8>,
    pub sid: Seq<u8>,
    pub client_fp: Seq<u8>,
    pub host_fp: Seq<u8>,
}

impl View for KeyInputs {
    type V = KeyModel;

    open spec fn view(&self) -> KeyModel {
        KeyModel {
            eph_dh: self.eph_dh@,
            dev_dh: self.dev_dh@,
            sid: self.sid@,
            client_fp: self.client_fp@,
            host_fp: self.host_fp@,
        }
    }
}

impl KeyInputs {
    /// The same values once more.
    pub fn copy(&self) -> (key: KeyInputs)
        ensures
            key@ == self@,
    {
        KeyInputs {
            eph_dh: self.eph_dh,
            dev_dh: self.dev_dh,
            sid: copy_bytes(self.sid.as_slice()),
            client_fp: self.client_fp,
            host_fp: self.host_fp,
        }
    }
}

/// What is to be sealed: the fields of the envelope's header, and the plaintext.
pub struct SealRequest {
    pub v: u8,
    pub alg_id: u8,
    pub from_fp: Fingerprint,
    pub to_fp: Fingerprint,
    pub sid: Vec<u8>,
    pub kind: u16,
    pub seq: u64,
    pub ts: u64,
    pub eph_pk: Option<Vec<u8>>,
    pub plaintext: Vec<u8>,
}

/// The values in a [`SealRequest`].
pub struct SealModel {
    pub v: u8,
    pub alg_id: u8,
    pub from_fp: Seq<u8>,
    pub to_fp: Seq<u8>,
    pub sid: Seq<u8>,
    pub kind: u16,
    pub seq: u64,
    pub ts: u64,
    pub eph_pk: Option<Seq<u8>>,
    pub plaintext: Seq<u8>,
}

impl View for SealRequest {
    type V = SealModel;

    open spec fn view(&self) -> SealModel {
        SealModel {
            v: self.v,
            alg_id: self.alg_id,
            from_fp: self.from_fp@,
            to_fp: self.to_fp@,
            sid: self.sid@,
            kind: self.kind,
            seq: self.seq,
            ts: self.ts,
            eph_pk: reader::opt_bytes(self.eph_pk),
            plaintext: self.plaintext@,
        }
    }
}

/// What is to be checked of an envelope before its plaintext is handed out.
pub struct OpenRequest {
    /// The recipient that the envelope must name.
    pub self_fp: Fingerprint,
    pub expected_sid: Vec<u8>,
    /// The sender that the session is bound to, once it is.
    pub bound_from_fp: Option<Fingerprint>,
    /// What the sequence number must be above.
    pub min_seq_exclusive: Option<u64>,
    pub now: u64,
    pub min_v: u8,
    pub min_alg_id: u8,
    pub expected_kind: u16,
    pub sender_revoked: bool,
}

/// The values in an [`OpenRequest`].
pub struct OpenModel {
    pub self_fp: Seq<u8>,
    pub expected_sid: Seq<u8>,
    pub bound_from_fp: Option<Seq<u8>>,
    pub min_seq_exclusive: Option<u64>,
    pub now: u64,
    pub min_v: u8,
    pub min_alg_id: u8,
    pub expected_kind: u16,
    pub sender_revoked: bool,
}

impl View for OpenRequest {
    type V = OpenModel;

    open spec fn view(&self) -> OpenModel {
        OpenModel {
            self_fp: self.self_fp@,
            expected_sid: self.expected_sid@,
            bound_from_fp: match self.bound_from_fp {
                Some(fp) => Some(fp@),
                None => None,
            },
            min_seq_exclusive: self.min_seq_exclusive,
            now: self.now,
            min_v: self.min_v,
            min_alg_id: self.min_alg_id,
            expected_kind: self.expected_kind,
            sender_revoked: self.sender_revoked,
        }
    }
}

/// What is asked when an envelope of a session is opened. The sender was found to be in good
/// standing before it comes to that.
pub open spec fn open_model(
    self_fp: Seq<u8>,
    sid: Seq<u8>,
    from_fp: Option<Seq<u8>>,
    floor: Option<u64>,
    now: u64,
    kind: u16,
) -> OpenModel {
    OpenModel {
        self_fp,
        expected_sid: sid,
        bound_from_fp: from_fp,
        min_seq_exclusive: floor,
        now,
        min_v: ENVELOPE_V1,
        min_alg_id: ALG_ID_V1,
        expected_kind: kind,
        sender_revoked: false,
    }
}

// ---- the client's side of the connect ----

/// What a client keeps of an offer until the answer is there.
pub struct OfferContext {
    pub sid: Vec<u8>,
    pub eph_c: EphemeralKey,
}

/// A fresh session identifier and a fresh ephemeral key.
pub fn new_offer_context() -> (r: Result<OfferContext, SignalingError>)
    ensures
        match r {
            Ok(ctx) => ctx.sid@.len() == SID_LEN && ctx.eph_c.secret().len() == EPH_PK_LEN,
            Err(e) => e is Io,
        },
{
    let eph_c = match EphemeralKey::random() {
        Ok(key) => key,
        Err(e) => {
            return Err(SignalingError::Io(e));
        },
    };
    let sid = fresh_sid()?;
    Ok(OfferContext { sid, eph_c })
}

/// The bootstrap key and the offer to seal under it.
pub fn seal_offer(
    ctx: &OfferContext,
    dev_dh: [u8; 32],
    alg_id: u8,
    own_fp: Fingerprint,
    host_device_fp: Fingerprint,
    host_agree_pk: &[u8; 32],
    ts: u64,
    payload: &OfferPayload,
) -> (r: (KeyInputs, SealRequest))
    ensures
        r.0@ == (KeyModel {
            eph_dh: agreement::shared_of(ctx.eph_c.secret(), host_agree_pk@),
            dev_dh: dev_dh@,
            sid: ctx.sid@,
            client_fp: own_fp@,
            host_fp: host_device_fp@,
        }),
        agreement::agreed(r.0@.eph_dh, host_agree_pk@, ctx.eph_c.public()),
        r.1@ == (SealModel {
            v: ENVELOPE_V1,
            alg_id,
            from_fp: own_fp@,
            to_fp: host_device_fp@,
            sid: ctx.sid@,
            kind: KIND_OFFER,
            seq: 0,
            ts,
            eph_pk: Some(ctx.eph_c.public()),
            plaintext: payload@.bytes(),
        }),
{
    let key = KeyInputs {
        eph_dh: ctx.eph_c.agree(host_agree_pk),
        dev_dh,
        sid: copy_bytes(ctx.sid.as_slice()),
        client_fp: own_fp,
        host_fp: host_device_fp,
    };
    let public = ctx.eph_c.public_bytes();
    let request = SealRequest {
        v: ENVELOPE_V1,
        alg_id,
        from_fp: own_fp,
        to_fp: host_device_fp,
        sid: copy_bytes(ctx.sid.as_slice()),
        kind: KIND_OFFER,
        seq: 0,
        ts,
        eph_pk: Some(copy_bytes(public.as_slice())),
        plaintext: payload.to_canonical_bytes(),
    };
    (key, request)
}

/// The session key and what to check of the answer under it. It must come from the very host that
/// was dialled.
pub fn open_answer_request(
    env: &Envelope,
    ctx: &OfferContext,
    dev_dh: [u8; 32],
    own_fp: Fingerprint,
    host_device_fp: Fingerprint,
    now: u64,
) -> (r: Result<(KeyInputs, OpenRequest), SignalingError>)
    ensures
        match r {
            Ok((key, request)) => {
                &&& env@.eph_pk matches Some(eph_pk) && eph_pk.len() == EPH_PK_LEN && key@ == (
                KeyModel {
                    eph_dh: agreement::shared_of(ctx.eph_c.secret(), eph_pk),
                    dev_dh: dev_dh@,
                    sid: ctx.sid@,
                    client_fp: own_fp@,
                    host_fp: host_device_fp@,
                })
                &&& request@ == open_model(
                    own_fp@,
                    ctx.sid@,
                    Some(host_device_fp@),
                    None,
                    now,
                    KIND_ANSWER,
                )
            },
            Err(e) => bad_eph_pk(env@.eph_pk, e),
        },
{
    let eph_pk_h = eph_pk_of(env)?;
    let key = KeyInputs {
        eph_dh: ctx.eph_c.agree(&eph_pk_h),
        dev_dh,
        sid: copy_bytes(ctx.sid.as_slice()),
        client_fp: own_fp,
        host_fp: host_device_fp,
    };
    let request = OpenRequest {
        self_fp: own_fp,
        expected_sid: copy_bytes(ctx.sid.as_slice()),
        bound_from_fp: Some(host_device_fp),
        min_seq_exclusive: None,
        now,
        min_v: ENVELOPE_V1,
        min_alg_id: ALG_ID_V1,
        expected_kind: KIND_ANSWER,
        sender_revoked: false,
    };
    Ok((key, request))
}

/// The error that is reported where the cipher refused an envelope with the message `said`.
pub open spec fn refused(said: String, e: SignalingError) -> bool {
    e matches SignalingError::Envelope(m) && m@ == said@
}

/// The error that is reported for a payload with the given fault.
pub open spec fn bad_payload(f: SignalingFault, e: SignalingError) -> bool {
    e matches SignalingError::Payload(p) && p@ == f
}

/// The answer, from the cipher's reply: a plaintext, or why it refused the envelope.
pub fn open_answer(opened: Result<Vec<u8>, String>) -> (r: Result<AnswerPayload, SignalingError>)
    ensures
        match opened {
            Err(said) => r matches Err(e) && refused(said, e),
            Ok(plaintext) => match AnswerModel::parse(plaintext@) {
                Ok(m) => r matches Ok(answer) && answer@ == m,
                Err(f) => r matches Err(e) && bad_payload(f, e),
            },
        },
{
    match opened {
        Err(said) => Err(SignalingError::Envelope(said)),
        Ok(plaintext) => match AnswerPayload::from_canonical_bytes(plaintext.as_slice()) {
            Ok(answer) => Ok(answer),
            Err(e) => Err(SignalingError::Payload(e)),
        },
    }
}

// ---- the host's side of the connect ----

/// What a host keeps of an offer to make and seal the answer.
pub struct OpenedOffer {
    pub offer: OfferPayload,
    pub from_fp: Fingerprint,
    pub sid: Vec<u8>,
    /// The sender's signing key. Every later message of the session must verify under it too.
    pub sender_sign_pk: [u8; 32],
    pub dev_dh: [u8; 32],
    pub eph_pk_c: [u8; 32],
}

/// Who sent an offer, by its own account, and the ephemeral key in it.
pub fn offer_sender(env: &Envelope) -> (r: Result<(Fingerprint, [u8; 32]), SignalingError>)
    ensures
        match r {
            Ok((from_fp, eph_pk)) => from_fp@ == env@.from_fp && env@.eph_pk == Some(eph_pk@),
            Err(SignalingError::Fingerprint(e)) => env@.from_fp.len() != FINGERPRINT_LEN && e.actual
                == env@.from_fp.len(),
            Err(e) => env@.from_fp.len() == FINGERPRINT_LEN && bad_eph_pk(env@.eph_pk, e),
        },
{
    match Fingerprint::from_slice(env.from_fp.as_slice()) {
        Err(e) => Err(SignalingError::Fingerprint(e)),
        Ok(from_fp) => match eph_pk_of(env) {
            Err(e) => Err(e),
            Ok(eph_pk) => Ok((from_fp, eph_pk)),
        },
    }
}

/// The bootstrap key and what to check of an offer under it. It is the first message of its session,
/// so the session identifier is the one that it brings, and no sender is bound yet.
pub fn open_offer_request(
    env: &Envelope,
    from_fp: Fingerprint,
    eph_dh: [u8; 32],
    dev_dh: [u8; 32],
    host_device_fp: Fingerprint,
    now: u64,
) -> (r: (KeyInputs, OpenRequest))
    ensures
        r.0@ == (KeyModel {
            eph_dh: eph_dh@,
            dev_dh: dev_dh@,
            sid: env@.sid,
            client_fp: from_fp@,
            host_fp: host_device_fp@,
        }),
        r.1@ == open_model(host_device_fp@, env@.sid, None, None, now, KIND_OFFER),
{
    let key = KeyInputs {
        eph_dh,
        dev_dh,
        sid: copy_bytes(env.sid.as_slice()),
        client_fp: from_fp,
        host_fp: host_device_fp,
    };
    let request = OpenRequest {
        self_fp: host_device_fp,
        expected_sid: copy_bytes(env.sid.as_slice()),
        bound_from_fp: None,
        min_seq_exclusive: None,
        now,
        min_v: ENVELOPE_V1,
        min_alg_id: ALG_ID_V1,
        expected_kind: KIND_OFFER,
        sender_revoked: false,
    };
    (key, request)
}

/// The opened offer, from the cipher's reply: a plaintext, or why it refused the envelope.
pub fn open_offer(
    env: &Envelope,
    from_fp: Fingerprint,
    eph_pk_c: [u8; 32],
    dev_dh: [u8; 32],
    sender_sign_pk: [u8; 32],
    opened: Result<Vec<u8>, String>,
) -> (r: Result<OpenedOffer, SignalingError>)
    ensures
        match opened {
            Err(said) => r matches Err(e) && refused(said, e),
            Ok(plaintext) => match OfferModel::parse(plaintext@) {
                Err(f) => r matches Err(e) && bad_payload(f, e),
                Ok(m) => r matches Ok(o) && {
                    &&& o.offer@ == m
                    &&& o.from_fp == from_fp
                    &&& o.sid@ == env@.sid
                    &&& o.sender_sign_pk == sender_sign_pk
                    &&& o.dev_dh == dev_dh
                    &&& o.eph_pk_c == eph_pk_c
                },
            },
        },
{
    match opened {
        Err(said) => Err(SignalingError::Envelope(said)),
        Ok(plaintext) => match OfferPayload::from_canonical_bytes(plaintext.as_slice()) {
            Err(e) => Err(SignalingError::Payload(e)),
            Ok(offer) => Ok(
                OpenedOffer {
                    offer,
                    from_fp,
                    sid: copy_bytes(env.sid.as_slice()),
                    sender_sign_pk,
                    dev_dh,
                    eph_pk_c,
                },
            ),
        },
    }
}

impl OpenedOffer {
    /// The session key that the host derives with the ephemeral key `eph_h`.
    pub open spec fn session_key(self, eph_h: EphemeralKey, host_device_fp: Seq<u8>) -> KeyModel {
        KeyModel {
            eph_dh: agreement::shared_of(eph_h.secret(), self.eph_pk_c@),
            dev_dh: self.dev_dh@,
            sid: self.sid@,
            client_fp: self.from_fp@,
            host_fp: host_device_fp,
        }
    }

    /// The session key and the answer to seal under it. The key and the public half in the answer
    /// come from one ephemeral key, or the client could never open it.
    pub fn seal_answer_with(
        &self,
        eph_h: &EphemeralKey,
        alg_id: u8,
        host_device_fp: Fingerprint,
        ts: u64,
        payload: &AnswerPayload,
    ) -> (r: (KeyInputs, SealRequest))
        ensures
            r.0@ == self.session_key(*eph_h, host_device_fp@),
            agreement::agreed(r.0@.eph_dh, self.eph_pk_c@, eph_h.public()),
            r.1@ == (SealModel {
                v: ENVELOPE_V1,
                alg_id,
                from_fp: host_device_fp@,
                to_fp: self.from_fp@,
                sid: self.sid@,
                kind: KIND_ANSWER,
                seq: 0,
                ts,
                eph_pk: Some(eph_h.public()),
                plaintext: payload@.bytes(),
            }),
    {
        let key = KeyInputs {
            eph_dh: eph_h.agree(&self.eph_pk_c),
            dev_dh: self.dev_dh,
            sid: copy_bytes(self.sid.as_slice()),
            client_fp: self.from_fp,
            host_fp: host_device_fp,
        };
        let public = eph_h.public_bytes();
        let request = SealRequest {
            v: ENVELOPE_V1,
            alg_id,
            from_fp: host_device_fp,
            to_fp: self.from_fp,
            sid: copy_bytes(self.sid.as_slice()),
            kind: KIND_ANSWER,
            seq: 0,
            ts,
            eph_pk: Some(copy_bytes(public.as_slice())),
            plaintext: payload.to_canonical_bytes(),
        };
        (key, request)
    }

    /// As [`OpenedOffer::seal_answer_with`], with a fresh ephemeral key.
    pub fn seal_answer(
        &self,
        alg_id: u8,
        host_device_fp: Fingerprint,
        ts: u64,
        payload: &AnswerPayload,
    ) -> (r: Result<(KeyInputs, SealRequest), SignalingError>)
        ensures
            match r {
                Ok((key, request)) => exists|eph_h: EphemeralKey|
                    {
                        &&& key@ == #[trigger] self.session_key(eph_h, host_device_fp@)
                        &&& agreement::agreed(key@.eph_dh, self.eph_pk_c@, eph_h.public())
                        &&& request@ == (SealModel {
                            v: ENVELOPE_V1,
                            alg_id,
                            from_fp: host_device_fp@,
                            to_fp: self.from_fp@,
                            sid: self.sid@,
                            kind: KIND_ANSWER,
                            seq: 0,
                            ts,
                            eph_pk: Some(eph_h.public()),
                            plaintext: payload@.bytes(),
                        })
                    },
                Err(e) => e is Io,
            },
    {
        match EphemeralKey::random() {
            Ok(eph_h) => {
                let r = self.seal_answer_with(&eph_h, alg_id, host_device_fp, ts, payload);
                assert(r.0@ == self.session_key(eph_h, host_device_fp@));
                Ok(r)
            },
            Err(e) => Err(SignalingError::Io(e)),
        }
    }
}

/// Client and host derive the session key from the same values: the client from its own secret and
/// the public half in the answer, the host from the ephemeral key that it sealed the answer with.
pub proof fn law_both_sides_derive_one_key(
    client: KeyModel,
    host: KeyModel,
    eph_c: EphemeralKey,
    eph_pk_h: Seq<u8>,
)
    requires
        eph_c.secret().len() == EPH_PK_LEN,
        client.eph_dh == agreement::shared_of(eph_c.secret(), eph_pk_h),
        agreement::agreed(host.eph_dh, eph_c.public(), eph_pk_h),
        client.dev_dh == host.dev_dh,
        client.sid == host.sid,
        client.client_fp == host.client_fp,
        client.host_fp == host.host_fp,
    ensures
        client == host,
{
}

// ---- trickled ICE ----

/// An ICE message to seal under the session key.
pub fn seal_ice(
    alg_id: u8,
    from_fp: Fingerprint,
    to_fp: Fingerprint,
    sid: &[u8],
    seq: u64,
    ts: u64,
    payload: &IcePayload,
) -> (request: SealRequest)
    ensures
        request@ == (SealModel {
            v: ENVELOPE_V1,
            alg_id,
            from_fp: from_fp@,
            to_fp: to_fp@,
            sid: sid@,
            kind: KIND_ICE,
            seq,
            ts,
            eph_pk: None,
            plaintext: payload@.bytes(),
        }),
{
    SealRequest {
        v: ENVELOPE_V1,
        alg_id,
        from_fp,
        to_fp,
        sid: copy_bytes(sid),
        kind: KIND_ICE,
        seq,
        ts,
        eph_pk: None,
        plaintext: payload.to_canonical_bytes(),
    }
}

/// An ICE message that was opened, and the sequence number that it was accepted at.
#[derive(Debug)]
pub struct OpenedIce {
    pub payload: IcePayload,
    pub seq: u64,
}

/// The session whose ICE messages are awaited. The subject names the host's root fingerprint, the
/// envelopes its device fingerprint: two different values.
pub struct IceSession {
    pub host_fp: Fingerprint,
    pub client_fp: Fingerprint,
    pub sid: Vec<u8>,
    pub direction: IceDirection,
    /// The fingerprint that the envelopes are addressed to.
    pub self_fp: Fingerprint,
    /// The fingerprint that they come from.
    pub peer_fp: Fingerprint,
}

impl IceSession {
    /// The subject that the messages must arrive on.
    pub open spec fn subject_text(self) -> Seq<char> {
        subject::session_text(self.host_fp@, self.client_fp@, self.sid@, self.direction)
    }
}

/// What to check of an ICE message, unless it arrived on a subject other than that of its session.
/// The subject and the envelope are bound to the session each on their own, so both are looked at.
pub fn open_ice_request(
    subject: &str,
    session: &IceSession,
    floor: &SeqFloor,
    now: u64,
) -> (r: Result<OpenRequest, SignalingError>)
    ensures
        match r {
            Ok(request) => subject@ == session.subject_text() && request@ == open_model(
                session.self_fp@,
                session.sid@,
                Some(session.peer_fp@),
                floor@,
                now,
                KIND_ICE,
            ),
            Err(SignalingError::BadSubject(s)) => s@ == subject@ && subject::is_no_session(
                subject@,
            ),
            Err(SignalingError::SubjectMismatch { subject: s }) => s@ == subject@ && subject@
                != session.subject_text() && !subject::is_no_session(subject@),
            Err(_) => false,
        },
{
    let parsed = match parse_session_subject(subject) {
        None => {
            return Err(SignalingError::BadSubject(String::from_str(subject)));
        },
        Some(parsed) => parsed,
    };
    assert(!subject::is_no_session(subject@)) by {
        assert(subject::session_text(
            parsed.host_fp@,
            parsed.client_fp@,
            parsed.sid@,
            parsed.direction,
        ) == subject@);
    }
    if parsed.host_fp != session.host_fp || parsed.client_fp != session.client_fp || !same_bytes(
        parsed.sid.as_slice(),
        session.sid.as_slice(),
    ) || parsed.direction != session.direction {
        proof {
            if subject@ == session.subject_text() {
                subject::law_session_subject_unique(
                    parsed.host_fp@,
                    parsed.client_fp@,
                    parsed.sid@,
                    parsed.direction,
                    session.host_fp@,
                    session.client_fp@,
                    session.sid@,
                    session.direction,
                );
            }
        }
        return Err(SignalingError::SubjectMismatch { subject: String::from_str(subject) });
    }
    Ok(
        OpenRequest {
            self_fp: session.self_fp,
            expected_sid: copy_bytes(session.sid.as_slice()),
            bound_from_fp: Some(session.peer_fp),
            min_seq_exclusive: floor.min_seq_exclusive(),
            now,
            min_v: ENVELOPE_V1,
            min_alg_id: ALG_ID_V1,
            expected_kind: KIND_ICE,
            sender_revoked: false,
        },
    )
}

/// The ICE message, from the cipher's reply: a plaintext, or why it refused the envelope.
pub fn open_ice(env: &Envelope, opened: Result<Vec<u8>, String>) -> (r: Result<
    OpenedIce,
    SignalingError,
>)
    ensures
        match opened {
            Err(said) => r matches Err(e) && refused(said, e),
            Ok(plaintext) => match IceModel::parse(plaintext@) {
                Ok(m) => r matches Ok(o) && o.payload@ == m && o.seq == env@.seq,
                Err(f) => r matches Err(e) && bad_payload(f, e),
            },
        },
{
    match opened {
        Err(said) => Err(SignalingError::Envelope(said)),
        Ok(plaintext) => match IcePayload::from_canonical_bytes(plaintext.as_slice()) {
            Ok(payload) => Ok(OpenedIce { payload, seq: env.seq }),
            Err(e) => Err(SignalingError::Payload(e)),
        },
    }
}

/// What is said of a request or of a key is said of its own parts, each of the one of its name.
pub proof fn law_requests_are_what_they_hold(seal: SealRequest, open: OpenRequest, key: KeyInputs)
    ensures
        seal@.v == seal.v,
        seal@.alg_id == seal.alg_id,
        seal@.from_fp == seal.from_fp.bytes@,
        seal@.to_fp == seal.to_fp.bytes@,
        seal@.sid == seal.sid@,
        seal@.kind == seal.kind,
        seal@.seq == seal.seq,
        seal@.ts == seal.ts,
        seal@.eph_pk is Some <==> seal.eph_pk is Some,
        seal.eph_pk is Some ==> seal@.eph_pk->0 == seal.eph_pk->0@,
        seal@.plaintext == seal.plaintext@,
        open@.self_fp == open.self_fp.bytes@,
        open@.expected_sid == open.expected_sid@,
        open@.bound_from_fp is Some <==> open.bound_from_fp is Some,
        open.bound_from_fp is Some ==> open@.bound_from_fp->0 == open.bound_from_fp->0.bytes@,
        open@.min_seq_exclusive == open.min_seq_exclusive,
        open@.now == open.now,
        open@.min_v == open.min_v,
        open@.min_alg_id == open.min_alg_id,
        open@.expected_kind == open.expected_kind,
        open@.sender_revoked == open.sender_revoked,
        key@.eph_dh == key.eph_dh@,
        key@.dev_dh == key.dev_dh@,
        key@.sid == key.sid@,
        key@.client_fp == key.client_fp.bytes@,
        key@.host_fp == key.host_fp.bytes@,
{
}

/// An envelope is opened only for this recipient, for this session, from this sender where there is
/// one, above this floor, and of this kind; the first version and the first cipher suite will do.
pub proof fn law_opens_only_what_was_asked_for(
    self_fp: Seq<u8>,
    sid: Seq<u8>,
    from_fp: Option<Seq<u8>>,
    floor: Option<u64>,
    now: u64,
    kind: u16,
)
    ensures
        ({
            let asked = open_model(self_fp, sid, from_fp, floor, now, kind);
            &&& asked.self_fp == self_fp
            &&& asked.expected_sid == sid
            &&& asked.bound_from_fp == from_fp
            &&& asked.min_seq_exclusive == floor
            &&& asked.now == now
            &&& asked.min_v == 1
            &&& asked.min_alg_id == 1
            &&& asked.expected_kind == kind
            &&& !asked.sender_revoked
        }),
{
}

/// An ICE message arrives where its session says, and nowhere else: on the subject of the host's
/// root fingerprint, the client and the session, ending in the direction.
pub proof fn law_session_has_its_subject(s: IceSession)
    ensures
        s.subject_text() == "host."@ + crate::net::fingerprint::token(s.host_fp.bytes@) + ".sess."@
            + crate::net::fingerprint::token(s.client_fp.bytes@) + "."@ + crate::text::hex(s.sid@)
            + "."@ + (if s.direction is ClientToHost {
            "c2h"@
        } else {
            "h2c"@
        }),
{
}

/// What is wrong with an ephemeral key is said exactly where something is: none at all, or one of
/// another length than a key has.
pub proof fn law_eph_pk_faults(eph_pk: Option<Seq<u8>>, e: SignalingError)
    ensures
        bad_eph_pk(eph_pk, e) <==> match eph_pk {
            None => e == SignalingError::MissingEphPk,
            Some(key) => key.len() != 32 && e == SignalingError::BadEphPk(key.len() as usize),
        },
{
}

} // verus!
