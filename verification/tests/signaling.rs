//! Offers, answers and trickled candidates between two peers, with a stand-in for the cipher.
use sha2::{Digest, Sha256};
use spindle::net::agreement::EphemeralKey;
use spindle::net::fingerprint::Fingerprint;
use spindle::net::signaling::authorize::{ConnectDecision, VerifiedDecision};
use spindle::net::signaling::client::{
    offer_payload, refreshed_capability, reject_no_responders, ClientSession, ConnectTimings,
    HostIdentity,
};
use spindle::net::signaling::connect::{
    Connect, ConnectAction, ConnectEvent, ConnectState, ConnectStep, LocalSide,
};
use spindle::net::signaling::error::SignalingError;
use spindle::net::signaling::host::{
    build_answer_payload, receive_offer, VerifiedOffer, DEFAULT_MAX_CONCURRENT_CONNECTS,
};
use spindle::net::signaling::ice::{
    drive_step, DriveStep, TrickleAction, TrickleEvent, TrickleStats, IDLE_WAIT_NANOS,
    MIN_WAIT_NANOS,
};
use spindle::net::signaling::seq::SeqFloor;
use spindle::net::signaling::serve::{Host, ServeAction, ServeEvent, ServeState, ServeStep};
use spindle::net::signaling::subject::{session_subject, IceDirection};
use spindle::net::signaling::trickle::{bridge_incoming_ice, own_ice_messages};
use spindle::net::signaling::wire;
use spindle::net::signaling::wire::{
    IceSession, KeyInputs, OfferContext, OpenRequest, OpenedIce, OpenedOffer, SealRequest,
};
use spindle::proto::artifacts::{CapKind, Capability, Envelope};
use spindle::proto::canonical::{canonical_decode, CborValue};
use spindle::proto::signaling::{
    AnswerPayload, IcePayload, OfferPayload, Transport, KIND_ICE,
};

const NOW: u64 = 1_760_000_000;

// ---- a stand-in for the cipher: a keyed stream with a tag, and a digest in place of a signature ----

struct Peer {
    sign: [u8; 32],
    agree: EphemeralKey,
    fp: Fingerprint,
}

fn digest(parts: &[&[u8]]) -> [u8; 32] {
    let mut hasher = Sha256::new();
    for part in parts {
        hasher.update(part);
    }
    hasher.finalize().into()
}

fn peer(sign_seed: u8, agree_seed: u8) -> Peer {
    let agree = EphemeralKey::from_secret([agree_seed; 32]);
    let fp = Fingerprint {
        bytes: digest(&[&[sign_seed; 32], &agree.public_bytes()]),
    };
    Peer { sign: [sign_seed; 32], agree, fp }
}

impl Peer {
    fn agree_pk(&self) -> [u8; 32] {
        self.agree.public_bytes()
    }
}

fn key_of(inputs: &KeyInputs) -> [u8; 32] {
    digest(&[
        &inputs.eph_dh,
        &inputs.dev_dh,
        &inputs.sid,
        &inputs.client_fp.bytes,
        &inputs.host_fp.bytes,
    ])
}

fn masked(key: &[u8; 32], bytes: &[u8]) -> Vec<u8> {
    bytes.iter().enumerate().map(|(i, b)| b ^ key[i % 32]).collect()
}

fn sealed(key: &[u8; 32], signer: &[u8; 32], request: SealRequest) -> Envelope {
    let mut ciphertext = digest(&[key, &request.plaintext]).to_vec();
    ciphertext.extend_from_slice(&masked(key, &request.plaintext));
    let mut env = Envelope {
        v: request.v,
        alg_id: request.alg_id,
        from_fp: request.from_fp.bytes.to_vec(),
        to_fp: request.to_fp.bytes.to_vec(),
        sid: request.sid,
        kind: request.kind,
        seq: request.seq,
        ts: request.ts,
        eph_pk: request.eph_pk,
        ciphertext,
        sig: Vec::new(),
    };
    env.sig = digest(&[signer, &env.signing_input()]).to_vec();
    env
}

fn opened(
    key: &[u8; 32],
    pinned: &[u8; 32],
    request: &OpenRequest,
    env: &Envelope,
) -> Result<Vec<u8>, String> {
    if env.sig != digest(&[pinned, &env.signing_input()]) {
        return Err("bad signature".to_string());
    }
    if env.to_fp != request.self_fp.bytes {
        return Err("wrong recipient".to_string());
    }
    if env.sid != request.expected_sid {
        return Err("wrong session".to_string());
    }
    if let Some(from) = request.bound_from_fp {
        if env.from_fp != from.bytes {
            return Err("wrong sender".to_string());
        }
    }
    if let Some(floor) = request.min_seq_exclusive {
        if env.seq <= floor {
            return Err("replayed seq".to_string());
        }
    }
    if env.kind != request.expected_kind {
        return Err("kind mismatch".to_string());
    }
    if env.v < request.min_v || env.alg_id < request.min_alg_id || request.sender_revoked {
        return Err("refused".to_string());
    }
    let (tag, body) = env.ciphertext.split_at(32);
    let plaintext = masked(key, body);
    if tag != digest(&[key, &plaintext]) {
        return Err("decrypt failed".to_string());
    }
    Ok(plaintext)
}

// ---- both sides, as a connection would run them ----

fn seal_offer_of(
    ctx: &OfferContext,
    client: &Peer,
    host: &Peer,
    payload: &OfferPayload,
) -> Envelope {
    let host_pk = host.agree_pk();
    let (key, request) = wire::seal_offer(
        ctx,
        client.agree.agree(&host_pk),
        1,
        client.fp,
        host.fp,
        &host_pk,
        NOW,
        payload,
    );
    sealed(&key_of(&key), &client.sign, request)
}

fn open_offer_of(
    env: &Envelope,
    host: &Peer,
    sender_sign: &[u8; 32],
    sender_agree: &[u8; 32],
) -> Result<OpenedOffer, SignalingError> {
    let (from_fp, eph_pk_c) = wire::offer_sender(env)?;
    let eph_dh = host.agree.agree(&eph_pk_c);
    let dev_dh = host.agree.agree(sender_agree);
    let (key, request) = wire::open_offer_request(env, from_fp, eph_dh, dev_dh, host.fp, NOW);
    let reply = opened(&key_of(&key), sender_sign, &request, env);
    wire::open_offer(env, from_fp, eph_pk_c, dev_dh, *sender_sign, reply)
}

fn seal_answer_of(
    offer: &OpenedOffer,
    host: &Peer,
    payload: &AnswerPayload,
) -> ([u8; 32], Envelope) {
    let (key, request) = offer.seal_answer(1, host.fp, NOW, payload).expect("randomness");
    let k1 = key_of(&key);
    (k1, sealed(&k1, &host.sign, request))
}

fn open_answer_of(
    env: &Envelope,
    ctx: &OfferContext,
    client: &Peer,
    host: &Peer,
) -> Result<([u8; 32], AnswerPayload), SignalingError> {
    let dev_dh = client.agree.agree(&host.agree_pk());
    let (key, request) =
        wire::open_answer_request(env, ctx, dev_dh, client.fp, host.fp, NOW)?;
    let k1 = key_of(&key);
    let answer = wire::open_answer(opened(&k1, &host.sign, &request, env))?;
    Ok((k1, answer))
}

fn open_ice_of(
    env: &Envelope,
    subject: &str,
    session: &IceSession,
    key: &[u8; 32],
    pinned: &[u8; 32],
    floor: &SeqFloor,
) -> Result<OpenedIce, SignalingError> {
    let request = wire::open_ice_request(subject, session, floor, NOW)?;
    wire::open_ice(env, opened(key, pinned, &request, env))
}

fn new_offer_context() -> OfferContext {
    wire::new_offer_context().expect("randomness")
}

fn fresh_sid() -> Vec<u8> {
    wire::fresh_sid().expect("randomness")
}

fn sample_offer_payload() -> OfferPayload {
    OfferPayload {
        inbox: "_INBOX_client.x".to_string(),
        transport: Transport::Quic,
        ufrag: "clientufrag".to_string(),
        pwd: "clientpassword1234567890ab".to_string(),
        cert_fp: [0x11; 32],
    }
}

fn sample_answer_payload() -> AnswerPayload {
    AnswerPayload {
        transport: Transport::Quic,
        ufrag: "hostufrag".to_string(),
        pwd: "hostpassword1234567890abcd".to_string(),
        cert_fp: [0x22; 32],
        member_cap: None,
    }
}

fn refusal(e: SignalingError) -> String {
    match e {
        SignalingError::Envelope(said) => said,
        other => panic!("expected a refusal of the envelope, got {other:?}"),
    }
}

#[test]
fn offer_then_answer_round_trips_and_both_sides_derive_the_same_k1() {
    let client = peer(0x10, 0x11);
    let host = peer(0x20, 0x21);
    let ctx = new_offer_context();
    let offer = sample_offer_payload();
    let offer_env = seal_offer_of(&ctx, &client, &host, &offer);

    let open = open_offer_of(&offer_env, &host, &client.sign, &client.agree_pk())
        .expect("offer opens");
    assert_eq!(open.offer, offer);
    assert_eq!(open.from_fp, client.fp);
    assert_eq!(open.sid, ctx.sid);

    let answer = sample_answer_payload();
    let (host_k1, answer_env) = seal_answer_of(&open, &host, &answer);
    let (client_k1, decoded) =
        open_answer_of(&answer_env, &ctx, &client, &host).expect("answer opens");
    assert_eq!(decoded, answer);
    assert_eq!(host_k1, client_k1);
}

#[test]
fn open_offer_rejects_wrong_signing_key() {
    let client = peer(0x30, 0x31);
    let host = peer(0x40, 0x41);
    let impostor = peer(0x50, 0x51);
    let ctx = new_offer_context();
    let env = seal_offer_of(&ctx, &client, &host, &sample_offer_payload());
    let r = open_offer_of(&env, &host, &impostor.sign, &client.agree_pk());
    assert_eq!(refusal(r.err().expect("refused")), "bad signature");
}

#[test]
fn open_offer_rejects_wrong_agree_key_as_decrypt_failure() {
    let client = peer(0x32, 0x33);
    let host = peer(0x42, 0x43);
    let impostor = peer(0x52, 0x53);
    let ctx = new_offer_context();
    let env = seal_offer_of(&ctx, &client, &host, &sample_offer_payload());
    let r = open_offer_of(&env, &host, &client.sign, &impostor.agree_pk());
    assert_eq!(refusal(r.err().expect("refused")), "decrypt failed");
}

#[test]
fn open_offer_rejects_missing_eph_pk() {
    let client = peer(0x34, 0x35);
    let host = peer(0x44, 0x45);
    let ctx = new_offer_context();
    let mut env = seal_offer_of(&ctx, &client, &host, &sample_offer_payload());
    env.eph_pk = None;
    let r = open_offer_of(&env, &host, &client.sign, &client.agree_pk());
    assert!(matches!(r, Err(SignalingError::MissingEphPk)));
}

#[test]
fn open_offer_rejects_undersized_eph_pk() {
    let client = peer(0x36, 0x37);
    let host = peer(0x46, 0x47);
    let ctx = new_offer_context();
    let mut env = seal_offer_of(&ctx, &client, &host, &sample_offer_payload());
    env.eph_pk = Some(vec![0u8; 31]);
    let r = open_offer_of(&env, &host, &client.sign, &client.agree_pk());
    assert!(matches!(r, Err(SignalingError::BadEphPk(31))));
}

#[test]
fn open_offer_rejects_kind_mismatch() {
    let client = peer(0x38, 0x39);
    let host = peer(0x48, 0x49);
    let ctx = new_offer_context();
    let host_pk = host.agree_pk();
    let (key, mut request) = wire::seal_offer(
        &ctx,
        client.agree.agree(&host_pk),
        1,
        client.fp,
        host.fp,
        &host_pk,
        NOW,
        &sample_offer_payload(),
    );
    request.kind = KIND_ICE;
    let env = sealed(&key_of(&key), &client.sign, request);
    let r = open_offer_of(&env, &host, &client.sign, &client.agree_pk());
    assert_eq!(refusal(r.err().expect("refused")), "kind mismatch");
}

#[test]
fn open_answer_rejects_answer_signed_by_the_wrong_host() {
    let client = peer(0x60, 0x61);
    let host = peer(0x70, 0x71);
    let impostor_host = peer(0x80, 0x81);
    let ctx = new_offer_context();
    let offer_env = seal_offer_of(&ctx, &client, &host, &sample_offer_payload());
    let open = open_offer_of(&offer_env, &host, &client.sign, &client.agree_pk())
        .expect("offer opens");
    let (key, request) =
        open.seal_answer(1, host.fp, NOW, &sample_answer_payload()).expect("randomness");
    let forged = sealed(&key_of(&key), &impostor_host.sign, request);
    let r = open_answer_of(&forged, &ctx, &client, &host);
    assert_eq!(refusal(r.err().expect("refused")), "bad signature");
}

#[test]
fn open_answer_rejects_tampered_ciphertext_as_bad_signature() {
    let client = peer(0x62, 0x63);
    let host = peer(0x72, 0x73);
    let ctx = new_offer_context();
    let offer_env = seal_offer_of(&ctx, &client, &host, &sample_offer_payload());
    let open = open_offer_of(&offer_env, &host, &client.sign, &client.agree_pk())
        .expect("offer opens");
    let (_k1, mut answer_env) = seal_answer_of(&open, &host, &sample_answer_payload());
    answer_env.ciphertext[0] ^= 0xff;
    let r = open_answer_of(&answer_env, &ctx, &client, &host);
    assert_eq!(refusal(r.err().expect("refused")), "bad signature");
}

fn ice_candidate(line: &str) -> IcePayload {
    IcePayload {
        candidate: Some(line.to_string()),
        end_of_candidates: false,
    }
}

fn session_key(sid: &[u8], client: &Peer, host: &Peer) -> [u8; 32] {
    key_of(&KeyInputs {
        eph_dh: [7u8; 32],
        dev_dh: [8u8; 32],
        sid: sid.to_vec(),
        client_fp: client.fp,
        host_fp: host.fp,
    })
}

fn to_host(client: &Peer, host: &Peer, sid: &[u8]) -> IceSession {
    IceSession {
        host_fp: host.fp,
        client_fp: client.fp,
        sid: sid.to_vec(),
        direction: IceDirection::ClientToHost,
        self_fp: host.fp,
        peer_fp: client.fp,
    }
}

#[test]
fn ice_round_trips_with_matching_subject() {
    let client = peer(0x90, 0x91);
    let host = peer(0xA0, 0xA1);
    let sid = fresh_sid();
    let key = session_key(&sid, &client, &host);
    let payload = ice_candidate("candidate:1 1 UDP 1 10.0.0.1 1 typ host");
    let request = wire::seal_ice(1, client.fp, host.fp, &sid, 1, NOW, &payload);
    let env = sealed(&key, &client.sign, request);
    let subject = session_subject(&host.fp, &client.fp, &sid, IceDirection::ClientToHost);
    let open = open_ice_of(
        &env,
        &subject,
        &to_host(&client, &host, &sid),
        &key,
        &client.sign,
        &SeqFloor::new(),
    )
    .expect("ice envelope opens");
    assert_eq!(open.payload, payload);
    assert_eq!(open.seq, 1);
}

#[test]
fn ice_rejects_a_subject_for_a_different_session() {
    let client = peer(0x92, 0x93);
    let host = peer(0xA2, 0xA3);
    let sid = fresh_sid();
    let other_sid = fresh_sid();
    let wrong = session_subject(&host.fp, &client.fp, &other_sid, IceDirection::ClientToHost);
    let r = wire::open_ice_request(&wrong, &to_host(&client, &host, &sid), &SeqFloor::new(), NOW);
    assert!(matches!(r, Err(SignalingError::SubjectMismatch { .. })));
}

#[test]
fn ice_rejects_a_subject_for_the_wrong_direction() {
    let client = peer(0x94, 0x95);
    let host = peer(0xA4, 0xA5);
    let sid = fresh_sid();
    let h2c = session_subject(&host.fp, &client.fp, &sid, IceDirection::HostToClient);
    let r = wire::open_ice_request(&h2c, &to_host(&client, &host, &sid), &SeqFloor::new(), NOW);
    assert!(matches!(r, Err(SignalingError::SubjectMismatch { .. })));
}

#[test]
fn ice_rejects_malformed_subject() {
    let client = peer(0x96, 0x97);
    let host = peer(0xA6, 0xA7);
    let sid = fresh_sid();
    let r = wire::open_ice_request(
        "not.a.session.subject",
        &to_host(&client, &host, &sid),
        &SeqFloor::new(),
        NOW,
    );
    assert!(matches!(r, Err(SignalingError::BadSubject(_))));
}

#[test]
fn ice_rejects_replayed_seq_via_the_floor() {
    let client = peer(0x98, 0x99);
    let host = peer(0xA8, 0xA9);
    let sid = fresh_sid();
    let key = session_key(&sid, &client, &host);
    let payload = ice_candidate("candidate:1 1 UDP 1 10.0.0.1 1 typ host");
    let request = wire::seal_ice(1, client.fp, host.fp, &sid, 3, NOW, &payload);
    let env = sealed(&key, &client.sign, request);
    let subject = session_subject(&host.fp, &client.fp, &sid, IceDirection::ClientToHost);
    let mut floor = SeqFloor::new();
    floor.advance(3);
    let r = open_ice_of(
        &env,
        &subject,
        &to_host(&client, &host, &sid),
        &key,
        &client.sign,
        &floor,
    );
    assert_eq!(refusal(r.unwrap_err()), "replayed seq");
}

// ---- the host's judgement of an offer ----

fn client_inbox(fp: &Fingerprint) -> String {
    format!("_INBOX_{}.abc123", fp.to_string())
}

fn offer_to(inbox: &str) -> OfferPayload {
    OfferPayload { inbox: inbox.to_string(), ..sample_offer_payload() }
}

fn allow(p: &Peer) -> ConnectDecision {
    ConnectDecision::Allow { sign_pk: p.sign, agree_pk: p.agree_pk() }
}

fn process_offer(
    payload: &[u8],
    reply: Option<&str>,
    host: &Peer,
    decision: ConnectDecision,
) -> Result<VerifiedOffer, SignalingError> {
    let offer = receive_offer(payload, reply)?.authorized(decision)?;
    let eph_dh = host.agree.agree(&offer.eph_pk_c);
    let dev_dh = host.agree.agree(&offer.agree_pk);
    let (key, request) = offer.open_request(eph_dh, dev_dh, host.fp, NOW);
    let plaintext = opened(&key_of(&key), &offer.sign_pk, &request, &offer.env);
    offer.opened(dev_dh, plaintext)
}

#[test]
fn process_offer_happy_path_opens_for_an_authorized_sender() {
    let client = peer(0x10, 0x11);
    let host = peer(0x20, 0x21);
    let ctx = new_offer_context();
    let payload = offer_to(&client_inbox(&client.fp));
    let env = seal_offer_of(&ctx, &client, &host, &payload);
    let reply = client_inbox(&client.fp);
    let offer = process_offer(&env.to_canonical_bytes(), Some(&reply), &host, allow(&client))
        .expect("a well-formed offer from an authorized sender must open");
    assert_eq!(offer.opened.offer, payload);
    assert_eq!(offer.opened.from_fp, client.fp);
    let accepted = offer
        .decided(VerifiedDecision::Proceed { member_cap: None })
        .expect("accepted");
    assert_eq!(accepted.member_cap, None);
}

#[test]
fn process_offer_denied_by_authorizer_yields_denied() {
    let client = peer(0x30, 0x31);
    let host = peer(0x40, 0x41);
    let ctx = new_offer_context();
    let reply = client_inbox(&client.fp);
    let env = seal_offer_of(&ctx, &client, &host, &offer_to(&reply));
    let r = process_offer(&env.to_canonical_bytes(), Some(&reply), &host, ConnectDecision::Deny);
    assert!(matches!(r, Err(SignalingError::Denied)));
}

#[test]
fn process_offer_rejects_a_reply_with_the_wrong_inbox_prefix() {
    let client = peer(0x32, 0x33);
    let host = peer(0x42, 0x43);
    let ctx = new_offer_context();
    let env = seal_offer_of(&ctx, &client, &host, &offer_to(&client_inbox(&client.fp)));
    let bad_reply = client_inbox(&host.fp);
    let r = process_offer(&env.to_canonical_bytes(), Some(&bad_reply), &host, allow(&client));
    assert!(matches!(r, Err(SignalingError::BadReplyPrefix)));
}

#[test]
fn process_offer_rejects_a_reply_subject_the_client_did_not_sign() {
    let client = peer(0x3a, 0x3b);
    let host = peer(0x4a, 0x4b);
    let ctx = new_offer_context();
    let signed_inbox = client_inbox(&client.fp);
    let env = seal_offer_of(&ctx, &client, &host, &offer_to(&signed_inbox));
    let reported_reply = format!("_INBOX_{}.zzz999", client.fp.to_string());
    assert_ne!(signed_inbox, reported_reply);
    let r = process_offer(&env.to_canonical_bytes(), Some(&reported_reply), &host, allow(&client));
    assert!(matches!(r, Err(SignalingError::ReplyInboxMismatch)));
}

#[test]
fn process_offer_accepts_a_reply_subject_matching_the_signed_inbox() {
    let client = peer(0x3c, 0x3d);
    let host = peer(0x4c, 0x4d);
    let ctx = new_offer_context();
    let signed_inbox = client_inbox(&client.fp);
    let payload = offer_to(&signed_inbox);
    let env = seal_offer_of(&ctx, &client, &host, &payload);
    let offer =
        process_offer(&env.to_canonical_bytes(), Some(&signed_inbox), &host, allow(&client))
            .expect("a reply subject matching the signed inbox must be accepted");
    assert_eq!(offer.opened.offer, payload);
    assert_eq!(offer.reply, signed_inbox);
}

#[test]
fn process_offer_rejects_a_missing_reply() {
    let client = peer(0x34, 0x35);
    let host = peer(0x44, 0x45);
    let ctx = new_offer_context();
    let env = seal_offer_of(&ctx, &client, &host, &offer_to(&client_inbox(&client.fp)));
    let r = process_offer(&env.to_canonical_bytes(), None, &host, allow(&client));
    assert!(matches!(r, Err(SignalingError::BadReplyPrefix)));
}

#[test]
fn process_offer_rejects_bad_signature_from_the_authorizer_resolved_key() {
    let client = peer(0x36, 0x37);
    let host = peer(0x46, 0x47);
    let impostor = peer(0x56, 0x57);
    let ctx = new_offer_context();
    let reply = client_inbox(&client.fp);
    let env = seal_offer_of(&ctx, &client, &host, &offer_to(&reply));
    let decision = ConnectDecision::Allow {
        sign_pk: impostor.sign,
        agree_pk: client.agree_pk(),
    };
    let r = process_offer(&env.to_canonical_bytes(), Some(&reply), &host, decision);
    assert_eq!(refusal(r.err().expect("refused")), "bad signature");
}

#[test]
fn process_offer_rejects_bad_reply_prefix_without_consulting_the_authorizer() {
    let client = peer(0x38, 0x39);
    let host = peer(0x48, 0x49);
    let ctx = new_offer_context();
    let env = seal_offer_of(&ctx, &client, &host, &offer_to(&client_inbox(&client.fp)));
    let r = receive_offer(&env.to_canonical_bytes(), None);
    assert!(matches!(r, Err(SignalingError::BadReplyPrefix)));
}

#[test]
fn an_offer_that_is_no_envelope_or_names_no_sender_is_refused() {
    assert!(matches!(
        receive_offer(&[0xff], Some("_INBOX_x.y")),
        Err(SignalingError::EnvelopeDecode(_))
    ));
    let client = peer(0x3e, 0x3f);
    let host = peer(0x4e, 0x4f);
    let mut env =
        seal_offer_of(&new_offer_context(), &client, &host, &offer_to(&client_inbox(&client.fp)));
    env.from_fp = vec![1; 31];
    assert!(matches!(
        receive_offer(&env.to_canonical_bytes(), Some(&client_inbox(&client.fp))),
        Err(SignalingError::Fingerprint(e)) if e.actual == 31
    ));
}

#[test]
fn a_host_that_says_no_after_all_drops_the_offer() {
    let client = peer(0x68, 0x69);
    let host = peer(0x6a, 0x6b);
    let reply = client_inbox(&client.fp);
    let webrtc = OfferPayload { transport: Transport::WebRtc, ..offer_to(&reply) };
    for payload in [offer_to(&reply), webrtc] {
        let env = seal_offer_of(&new_offer_context(), &client, &host, &payload);
        let bytes = env.to_canonical_bytes();
        let offer = process_offer(&bytes, Some(&reply), &host, allow(&client)).expect("opens");
        assert!(matches!(offer.decided(VerifiedDecision::Drop), Err(SignalingError::Denied)));
        let offer = process_offer(&bytes, Some(&reply), &host, allow(&client)).expect("opens");
        let r = offer.decided(VerifiedDecision::Proceed { member_cap: None });
        match payload.transport {
            Transport::Quic => assert!(r.is_ok()),
            Transport::WebRtc => assert!(matches!(
                r,
                Err(SignalingError::UnsupportedTransport(Transport::WebRtc))
            )),
        }
    }
}

fn sample_capability() -> Capability {
    Capability {
        v: 1,
        host_fp: vec![0x91; 32],
        host_root_pk: vec![0x92; 32],
        op_cert: vec![0x93; 16],
        kind: CapKind::Member,
        subject: vec![0x94; 32],
        cap_epoch: 3,
        exp: 1_759_017_600,
        nonce: vec![0x95; 16],
        sig: vec![0x96; 64],
    }
}

#[test]
fn allow_with_a_member_cap_flows_into_the_sealed_answer() {
    let client = peer(0x60, 0x61);
    let host = peer(0x62, 0x63);
    let ctx = new_offer_context();
    let reply = client_inbox(&client.fp);
    let env = seal_offer_of(&ctx, &client, &host, &offer_to(&reply));
    let cap = sample_capability();
    let offer = process_offer(&env.to_canonical_bytes(), Some(&reply), &host, allow(&client))
        .expect("a well-formed offer from an authorized sender must open");
    let accepted = offer
        .decided(VerifiedDecision::Proceed { member_cap: Some(cap.clone()) })
        .expect("accepted");
    let answer = accepted.answer(
        "hostufrag".to_string(),
        "hostpassword1234567890abcd".to_string(),
        [0x22; 32],
    );
    let (_k1, answer_env) = seal_answer_of(&accepted.opened, &host, &answer);
    let (_client_k1, decoded) =
        open_answer_of(&answer_env, &ctx, &client, &host).expect("answer opens");
    assert_eq!(decoded.member_cap, Some(cap.clone()));
    assert_eq!(refreshed_capability(decoded), Some(cap));
}

#[test]
fn allow_with_no_member_cap_produces_an_answer_that_omits_the_key() {
    let client = peer(0x64, 0x65);
    let host = peer(0x66, 0x67);
    let ctx = new_offer_context();
    let reply = client_inbox(&client.fp);
    let env = seal_offer_of(&ctx, &client, &host, &offer_to(&reply));
    let offer = process_offer(&env.to_canonical_bytes(), Some(&reply), &host, allow(&client))
        .expect("a well-formed offer from an authorized sender must open");
    let accepted = offer
        .decided(VerifiedDecision::Proceed { member_cap: None })
        .expect("accepted");
    let answer = build_answer_payload(
        "hostufrag".to_string(),
        "hostpassword1234567890abcd".to_string(),
        [0x22; 32],
        None,
    );
    let (_k1, answer_env) = seal_answer_of(&accepted.opened, &host, &answer);
    let (_client_k1, decoded) =
        open_answer_of(&answer_env, &ctx, &client, &host).expect("answer opens");
    assert_eq!(decoded.member_cap, None);

    let value = canonical_decode(&answer.to_canonical_bytes()).expect("decode cbor");
    if let CborValue::Mapping(entries) = value {
        assert!(!entries.iter().any(|(k, _)| k.as_text() == Some("member_cap")));
    } else {
        panic!("expected a map");
    }
}

#[test]
fn host_options_default_max_concurrent_connects_is_64() {
    assert_eq!(DEFAULT_MAX_CONCURRENT_CONNECTS, 64);
}

#[test]
fn semaphore_sized_from_the_default_cap_admits_exactly_that_many_permits_then_refuses() {
    let cap = DEFAULT_MAX_CONCURRENT_CONNECTS;
    let slots = std::sync::Arc::new(tokio::sync::Semaphore::new(cap));
    let permits: Vec<_> = (0..cap)
        .map(|_| {
            std::sync::Arc::clone(&slots)
                .try_acquire_owned()
                .expect("permit within the cap must be granted")
        })
        .collect();
    assert_eq!(permits.len(), cap);
    assert!(std::sync::Arc::clone(&slots).try_acquire_owned().is_err());
}

#[test]
fn dropping_one_permit_admits_exactly_one_more() {
    let cap = DEFAULT_MAX_CONCURRENT_CONNECTS;
    let slots = std::sync::Arc::new(tokio::sync::Semaphore::new(cap));
    let mut permits: Vec<_> = (0..cap)
        .map(|_| {
            std::sync::Arc::clone(&slots)
                .try_acquire_owned()
                .expect("permit within the cap must be granted")
        })
        .collect();
    assert!(std::sync::Arc::clone(&slots).try_acquire_owned().is_err());
    drop(permits.pop().expect("cap is non-zero"));
    let _reacquired = std::sync::Arc::clone(&slots)
        .try_acquire_owned()
        .expect("dropping one permit must admit exactly one more");
    assert!(std::sync::Arc::clone(&slots).try_acquire_owned().is_err());
}

// ---- the client ----

#[test]
fn reject_no_responders_rejects_the_503_status() {
    let err = reject_no_responders(Some(async_nats::StatusCode::NO_RESPONDERS.as_u16()))
        .unwrap_err();
    assert!(matches!(err, SignalingError::HostOffline));
}

#[test]
fn reject_no_responders_accepts_a_message_with_no_status() {
    reject_no_responders(None)
        .expect("a message with no status must not be treated as no-responders");
}

#[test]
fn reject_no_responders_accepts_an_unrelated_status() {
    reject_no_responders(Some(async_nats::StatusCode::OK.as_u16()))
        .expect("a non-503 status must not be treated as no-responders");
}

#[test]
fn a_client_session_from_offer_to_answer() {
    let client = peer(0x12, 0x13);
    let host = peer(0x22, 0x23);
    let root_fp = Fingerprint { bytes: [0x77; 32] };
    let session = ClientSession {
        host: HostIdentity {
            host_fp: root_fp,
            device_fp: host.fp,
            sign_pk: host.sign,
            agree_pk: host.agree_pk(),
        },
        device_fp: client.fp,
        ctx: new_offer_context(),
    };
    assert_eq!(session.connect_subject(), format!("host.{}.connect", root_fp.to_string()));
    assert_eq!(
        session.ice_subject(IceDirection::HostToClient),
        session_subject(&root_fp, &client.fp, &session.ctx.sid, IceDirection::HostToClient)
    );
    let expected = session.ice_session();
    assert_eq!(expected.self_fp, client.fp);
    assert_eq!(expected.peer_fp, host.fp);

    let offer = offer_payload(
        client_inbox(&client.fp),
        "clientufrag".to_string(),
        "clientpassword1234567890ab".to_string(),
        [0x11; 32],
    );
    let offer_env = seal_offer_of(&session.ctx, &client, &host, &offer);
    let open = open_offer_of(&offer_env, &host, &client.sign, &client.agree_pk())
        .expect("offer opens");
    let dev_dh = client.agree.agree(&host.agree_pk());
    for transport in [Transport::Quic, Transport::WebRtc] {
        let answer = AnswerPayload { transport, ..sample_answer_payload() };
        let (k1, env) = seal_answer_of(&open, &host, &answer);
        let bytes = env.to_canonical_bytes();
        let (found, key, request) =
            session.on_reply(None, &bytes, dev_dh, NOW).expect("an envelope");
        assert_eq!(found, env);
        assert_eq!(key_of(&key), k1);
        let r = session.on_opened(opened(&k1, &host.sign, &request, &env));
        match transport {
            Transport::Quic => assert_eq!(r, Ok(answer)),
            Transport::WebRtc => {
                assert_eq!(r, Err(SignalingError::UnsupportedTransport(Transport::WebRtc)))
            }
        }
    }
    assert!(matches!(
        session.on_reply(Some(503), &[], dev_dh, NOW),
        Err(SignalingError::HostOffline)
    ));
    assert!(matches!(
        session.on_reply(None, &[0xff], dev_dh, NOW),
        Err(SignalingError::EnvelopeDecode(_))
    ));
    assert_eq!(
        session.on_opened(Err("stale".to_string())),
        Err(SignalingError::Envelope("stale".to_string()))
    );
}

#[test]
fn the_phases_of_a_connect_add_up() {
    let t = ConnectTimings::from_moments(100, 250, 900, 1_000);
    assert_eq!(t.offer_to_answer, 150);
    assert_eq!(t.answer_to_ice_selected, 650);
    assert_eq!(t.ice_selected_to_quic, 100);
    assert_eq!(t.offer_to_quic_complete, 900);
}

// ---- both sides, turn by turn ----

fn local(name: &str, cert: u8) -> LocalSide {
    LocalSide {
        ufrag: format!("{name}ufrag"),
        pwd: format!("{name}password1234567890abcd"),
        cert_fp: [cert; 32],
        candidate_line: LINE.to_string(),
    }
}

fn connect_of(client: &Peer, host: &Peer, root_fp: Fingerprint, refresh: bool) -> Connect {
    Connect {
        session: ClientSession {
            host: HostIdentity {
                host_fp: root_fp,
                device_fp: host.fp,
                sign_pk: host.sign,
                agree_pk: host.agree_pk(),
            },
            device_fp: client.fp,
            ctx: new_offer_context(),
        },
        alg_id: 1,
        dev_dh: client.agree.agree(&host.agree_pk()),
        refresh,
    }
}

fn go(c: &Connect, state: ConnectState, event: ConnectEvent) -> (ConnectState, ConnectAction) {
    match c.step(state, event, NOW) {
        ConnectStep::Next(state, action) => (state, action),
        ConnectStep::Failed(e) => panic!("failed: {e:?}"),
        ConnectStep::Unexpected(_) => panic!("unexpected event"),
    }
}

fn serve(h: &Host, state: ServeState, event: ServeEvent) -> (ServeState, ServeAction) {
    match h.step(state, event, NOW) {
        ServeStep::Next(state, action) => (state, action),
        ServeStep::Failed(e) => panic!("failed: {e:?}"),
        ServeStep::Unexpected(_) => panic!("unexpected event"),
    }
}

#[test]
fn a_whole_connect_from_both_sides() {
    let client = peer(0x14, 0x15);
    let host = peer(0x24, 0x25);
    let root_fp = Fingerprint { bytes: [0x78; 32] };
    let inbox = client_inbox(&client.fp);
    let cap = sample_capability();

    let c = connect_of(&client, &host, root_fp, false);
    let (state, action) = c.start();
    assert!(matches!(action, ConnectAction::Prepare));
    let (state, action) = go(&c, state, ConnectEvent::Prepared(local("client", 0x11)));
    match action {
        ConnectAction::SubscribeIce(subject) => {
            assert_eq!(subject, c.session.ice_subject(IceDirection::HostToClient))
        }
        _ => panic!("listens first"),
    }
    let (state, action) = go(&c, state, ConnectEvent::Subscribed);
    assert!(matches!(action, ConnectAction::SubscribeInbox));
    let (state, action) = go(&c, state, ConnectEvent::InboxSubscribed(inbox.clone()));
    let offer_env = match action {
        ConnectAction::PublishOffer { subject, inbox: named, key, request } => {
            assert_eq!(subject, format!("host.{}.connect", root_fp.to_string()));
            assert_eq!(named, inbox);
            sealed(&key_of(&key), &client.sign, request)
        }
        _ => panic!("publishes the offer"),
    };
    let (client_state, action) = go(&c, state, ConnectEvent::Published);
    assert!(matches!(action, ConnectAction::AwaitReply));

    let h = Host { host_fp: root_fp, device_fp: host.fp, alg_id: 1 };
    let (state, action) =
        h.receive(&offer_env.to_canonical_bytes(), Some(&inbox)).expect("an offer");
    assert!(matches!(action, ServeAction::Authorize(fp) if fp == client.fp));
    let (state, action) = serve(&h, state, ServeEvent::Decision(allow(&client)));
    let (eph_dh, dev_dh) = match action {
        ServeAction::Agree { eph_pk, agree_pk } => {
            (host.agree.agree(&eph_pk), host.agree.agree(&agree_pk))
        }
        _ => panic!("agrees"),
    };
    let (state, action) = serve(&h, state, ServeEvent::Agreed { eph_dh, dev_dh });
    let plaintext = match (&state, action) {
        (ServeState::Opening(offer, _), ServeAction::OpenOffer { key, request, sign_pk }) => {
            opened(&key_of(&key), &sign_pk, &request, &offer.env)
        }
        _ => panic!("opens the offer"),
    };
    let (state, action) = serve(&h, state, ServeEvent::Opened(plaintext));
    assert!(matches!(action, ServeAction::Consult(fp) if fp == client.fp));
    let verdict = VerifiedDecision::Proceed { member_cap: Some(cap.clone()) };
    let (state, action) = serve(&h, state, ServeEvent::Verdict(verdict));
    assert!(matches!(action, ServeAction::Prepare));
    let (state, action) = serve(&h, state, ServeEvent::Prepared(local("host", 0x22)));
    assert!(matches!(action, ServeAction::SubscribeIce(_)));
    let eph_h = EphemeralKey::random().expect("randomness");
    let (state, action) = serve(&h, state, ServeEvent::Subscribed(eph_h));
    let (host_k1, answer_env) = match action {
        ServeAction::PublishAnswer { reply, key, request } => {
            assert_eq!(reply, inbox);
            let k1 = key_of(&key);
            (k1, sealed(&k1, &host.sign, request))
        }
        _ => panic!("publishes the answer"),
    };
    let (state, action) = serve(&h, state, ServeEvent::Published);
    let host_candidate = match action {
        ServeAction::PublishIce { subject, key, candidate, end } => {
            assert_eq!(key_of(&key), host_k1);
            assert_eq!(subject, c.session.ice_subject(IceDirection::HostToClient));
            assert_eq!((candidate.seq, end.seq), (1, 2));
            (subject, sealed(&host_k1, &host.sign, candidate))
        }
        _ => panic!("trickles"),
    };
    let (state, action) = serve(&h, state, ServeEvent::Published);
    match action {
        ServeAction::Punch { ufrag, session, key, sign_pk, .. } => {
            assert_eq!(key_of(&key), host_k1);
            assert_eq!(sign_pk, client.sign);
            assert_eq!(ufrag, "clientufrag");
            assert_eq!(session.peer_fp, client.fp);
        }
        _ => panic!("punches"),
    }
    let (state, action) = serve(&h, state, ServeEvent::Punched);
    assert!(matches!(action, ServeAction::Handshake { cert_fp } if cert_fp == [0x11; 32]));
    let (state, action) = serve(&h, state, ServeEvent::Handshaken);
    assert!(matches!(action, ServeAction::Serve(fp) if fp == client.fp));
    let (state, action) = serve(&h, state, ServeEvent::Served);
    assert!(matches!(action, ServeAction::AwaitClose));
    let (_state, action) = serve(&h, state, ServeEvent::Closed);
    assert!(matches!(action, ServeAction::Finish));

    let reply = ConnectEvent::Reply { status: None, payload: answer_env.to_canonical_bytes() };
    let (state, action) = go(&c, client_state, reply);
    let plaintext = match action {
        ConnectAction::OpenAnswer { env, key, request, sign_pk } => {
            assert_eq!(key_of(&key), host_k1);
            assert_eq!(sign_pk, host.sign);
            opened(&key_of(&key), &sign_pk, &request, &env)
        }
        _ => panic!("opens the answer"),
    };
    let (state, action) = go(&c, state, ConnectEvent::Opened(plaintext));
    assert!(matches!(action, ConnectAction::PublishIce { key, .. } if key_of(&key) == host_k1));
    let (state, action) = go(&c, state, ConnectEvent::Published);
    match action {
        ConnectAction::Punch { ufrag, pwd, session, key, sign_pk } => {
            assert_eq!(ufrag, "hostufrag");
            assert_eq!(pwd, "hostpassword1234567890abcd");
            let (subject, env) = host_candidate;
            let ice = open_ice_of(
                &env,
                &subject,
                &session,
                &key_of(&key),
                &sign_pk,
                &SeqFloor::new(),
            )
            .expect("the host's candidate");
            assert_eq!(ice.payload, ice_candidate(LINE));
        }
        _ => panic!("punches"),
    }
    let (state, action) = go(&c, state, ConnectEvent::Punched);
    assert!(matches!(action, ConnectAction::Handshake { cert_fp } if cert_fp == [0x22; 32]));
    let (_state, action) = go(&c, state, ConnectEvent::Handshaken);
    assert!(matches!(action, ConnectAction::Finish(None)));
}

#[test]
fn a_refresh_asks_for_the_capability_and_goes_no_further() {
    let client = peer(0x16, 0x17);
    let host = peer(0x26, 0x27);
    let c = connect_of(&client, &host, Fingerprint { bytes: [0x79; 32] }, true);
    let (state, action) = c.start();
    assert!(matches!(action, ConnectAction::SubscribeInbox));
    let inbox = client_inbox(&client.fp);
    let (state, action) = go(&c, state, ConnectEvent::InboxSubscribed(inbox));
    let env = match action {
        ConnectAction::PublishOffer { key, request, .. } => {
            sealed(&key_of(&key), &client.sign, request)
        }
        _ => panic!("publishes the offer"),
    };
    let open = open_offer_of(&env, &host, &client.sign, &client.agree_pk()).expect("opens");
    assert_eq!(open.offer.ufrag, "refresh-only-ufrag");
    assert_eq!(open.offer.pwd, "refresh-only-password-placeholder");
    assert_eq!(open.offer.cert_fp, [0; 32]);
    let cap = sample_capability();
    let answer = AnswerPayload { member_cap: Some(cap.clone()), ..sample_answer_payload() };
    let (k1, answer_env) = seal_answer_of(&open, &host, &answer);
    let (state, _) = go(&c, state, ConnectEvent::Published);
    let reply = ConnectEvent::Reply { status: None, payload: answer_env.to_canonical_bytes() };
    let (state, action) = go(&c, state, reply);
    let plaintext = match action {
        ConnectAction::OpenAnswer { env, request, .. } => {
            opened(&k1, &host.sign, &request, &env)
        }
        _ => panic!("opens the answer"),
    };
    match go(&c, state, ConnectEvent::Opened(plaintext)) {
        (ConnectState::Finished, ConnectAction::Finish(found)) => assert_eq!(found, Some(cap)),
        _ => panic!("finishes"),
    }
}

#[test]
fn an_event_out_of_turn_changes_nothing() {
    let client = peer(0x18, 0x19);
    let host = peer(0x28, 0x29);
    let c = connect_of(&client, &host, Fingerprint { bytes: [0x7a; 32] }, false);
    assert!(matches!(
        c.step(ConnectState::Start, ConnectEvent::Handshaken, NOW),
        ConnectStep::Unexpected(ConnectState::Start)
    ));
    let h = Host { host_fp: host.fp, device_fp: host.fp, alg_id: 1 };
    assert!(matches!(
        h.step(ServeState::Serving, ServeEvent::Published, NOW),
        ServeStep::Unexpected(ServeState::Serving)
    ));
}

#[test]
fn a_message_without_a_reply_subject_is_not_read() {
    let host = peer(0x2c, 0x2d);
    let h = Host { host_fp: host.fp, device_fp: host.fp, alg_id: 1 };
    assert!(matches!(h.receive(&[], None), Err(SignalingError::BadReplyPrefix)));
    assert!(matches!(h.receive(&[], Some("_INBOX_x.y")), Err(SignalingError::EnvelopeDecode(_))));
    assert!(matches!(receive_offer(&[], None), Err(SignalingError::EnvelopeDecode(_))));
}

#[test]
fn the_clock_stamps_the_offer() {
    let client = peer(0x1c, 0x1d);
    let host = peer(0x2c, 0x2d);
    let c = connect_of(&client, &host, Fingerprint { bytes: [0x7c; 32] }, false);
    let before = wire::now().expect("a clock");
    let state = ConnectState::Listening(local("client", 0x11));
    let event = ConnectEvent::InboxSubscribed(client_inbox(&client.fp));
    match c.advance(state, event).expect("a clock") {
        ConnectStep::Next(_, ConnectAction::PublishOffer { request, .. }) => {
            assert!(before <= request.ts && request.ts <= wire::now().expect("a clock"));
        }
        _ => panic!("publishes the offer"),
    }
    let h = Host { host_fp: host.fp, device_fp: host.fp, alg_id: 1 };
    assert!(matches!(
        h.advance(ServeState::Serving, ServeEvent::Published),
        Some(ServeStep::Unexpected(ServeState::Serving))
    ));
}

#[test]
fn a_clock_that_shows_no_time_stops_only_what_needs_one() {
    let client = peer(0x1e, 0x1f);
    let host = peer(0x2e, 0x2f);
    let c = connect_of(&client, &host, Fingerprint { bytes: [0x7d; 32] }, false);
    let inbox = client_inbox(&client.fp);
    let listening = ConnectState::Listening(local("client", 0x11));
    assert!(c.step_by(listening, ConnectEvent::InboxSubscribed(inbox), None).is_none());
    let prepared = ConnectState::Prepared(local("client", 0x11));
    assert!(matches!(
        c.step_by(prepared, ConnectEvent::Subscribed, None),
        Some(ConnectStep::Next(ConnectState::Listening(_), ConnectAction::SubscribeInbox))
    ));
    let offered = ConnectState::Offered(local("client", 0x11));
    let reply = ConnectEvent::Reply { status: Some(503), payload: Vec::new() };
    assert!(matches!(
        c.step_by(offered, reply, None),
        Some(ConnectStep::Failed(SignalingError::HostOffline))
    ));
    let held = KeyInputs {
        eph_dh: [1; 32],
        dev_dh: [2; 32],
        sid: vec![3; 16],
        client_fp: client.fp,
        host_fp: host.fp,
    };
    let replied = ConnectState::Replied(local("client", 0x11), held);
    let answer = AnswerPayload {
        transport: Transport::Quic,
        ufrag: "hostufrag".to_string(),
        pwd: "hostpassword1234567890abcd".to_string(),
        cert_fp: [0x22; 32],
        member_cap: None,
    };
    let opened = ConnectEvent::Opened(Ok(answer.to_canonical_bytes()));
    assert!(c.step_by(replied, opened, None).is_none());
    let h = Host { host_fp: host.fp, device_fp: host.fp, alg_id: 1 };
    assert!(matches!(
        h.step_by(ServeState::Serving, ServeEvent::Served, None),
        Some(ServeStep::Next(ServeState::Leaving, ServeAction::AwaitClose))
    ));
}

#[test]
fn an_offline_host_ends_the_connect() {
    let client = peer(0x1a, 0x1b);
    let host = peer(0x2a, 0x2b);
    let c = connect_of(&client, &host, Fingerprint { bytes: [0x7b; 32] }, false);
    let state = ConnectState::Offered(local("client", 0x11));
    let reply = ConnectEvent::Reply { status: Some(503), payload: Vec::new() };
    assert!(matches!(
        c.step(state, reply, NOW),
        ConnectStep::Failed(SignalingError::HostOffline)
    ));
}

// ---- trickled candidates ----

const LINE: &str = "candidate:1 1 UDP 2130706431 10.0.0.1 54321 typ host";

#[test]
fn own_messages_are_a_candidate_and_the_marker() {
    let a = peer(1, 2);
    let b = peer(3, 4);
    let (first, second) = own_ice_messages(1, a.fp, b.fp, &[9; 16], NOW, LINE);
    assert_eq!((first.seq, second.seq), (1, 2));
    assert_eq!(
        IcePayload::from_canonical_bytes(&first.plaintext),
        Ok(ice_candidate(LINE))
    );
    assert_eq!(
        IcePayload::from_canonical_bytes(&second.plaintext),
        Ok(IcePayload { candidate: None, end_of_candidates: true })
    );
}

#[test]
fn a_refused_message_moves_nothing() {
    let mut floor = SeqFloor::new();
    let got = bridge_incoming_ice(
        &mut floor,
        Ok(OpenedIce { payload: ice_candidate(LINE), seq: 1 }),
    );
    assert_eq!(got, Some(TrickleEvent::Candidate(LINE.to_string())));
    assert_eq!(floor.min_seq_exclusive(), Some(1));
    assert_eq!(bridge_incoming_ice(&mut floor, Err(SignalingError::Denied)), None);
    assert_eq!(floor.min_seq_exclusive(), Some(1));
    let both = IcePayload { candidate: Some(LINE.to_string()), end_of_candidates: true };
    assert_eq!(
        bridge_incoming_ice(&mut floor, Ok(OpenedIce { payload: both, seq: 2 })),
        Some(TrickleEvent::EndOfCandidates)
    );
    let neither = IcePayload { candidate: None, end_of_candidates: false };
    assert_eq!(
        bridge_incoming_ice(&mut floor, Ok(OpenedIce { payload: neither, seq: 7 })),
        None
    );
    assert_eq!(floor.min_seq_exclusive(), Some(7));
}

#[test]
fn candidates_that_cannot_be_read_are_counted_and_skipped() {
    let mut stats = TrickleStats::default();
    assert_eq!(
        stats.on_event(Some(TrickleEvent::Candidate(LINE.to_string()))),
        TrickleAction::Apply(LINE.to_string())
    );
    assert_eq!(
        stats.on_event(Some(TrickleEvent::Candidate("candidate:1 1 UDP".to_string()))),
        TrickleAction::Ignore
    );
    assert_eq!(stats.on_event(Some(TrickleEvent::EndOfCandidates)), TrickleAction::Ignore);
    assert_eq!(stats.on_event(None), TrickleAction::Ignore);
    assert_eq!(
        stats,
        TrickleStats {
            candidates_applied: 1,
            end_of_candidates_seen: true,
            bad_candidates_seen: 1,
        }
    );
}

#[test]
fn a_punch_ends_or_waits() {
    assert_eq!(drive_step(true, true, true, None), DriveStep::Fail);
    assert_eq!(drive_step(false, true, true, None), DriveStep::Finish);
    assert_eq!(drive_step(false, false, true, None), DriveStep::TimedOut);
    assert_eq!(
        drive_step(false, false, false, None),
        DriveStep::Wait { nanos: IDLE_WAIT_NANOS }
    );
    assert_eq!(
        drive_step(false, false, false, Some(0)),
        DriveStep::Wait { nanos: MIN_WAIT_NANOS }
    );
    assert_eq!(
        drive_step(false, false, false, Some(5_000_000)),
        DriveStep::Wait { nanos: 5_000_000 }
    );
}

#[test]
fn fresh_values_are_fresh() {
    assert_ne!(fresh_sid(), fresh_sid());
    assert_eq!(fresh_sid().len(), 16);
    let a = new_offer_context();
    let b = new_offer_context();
    assert_ne!(a.eph_c.public_bytes(), b.eph_c.public_bytes());
    assert!(wire::now().expect("a clock") > 1_700_000_000);
}

#[test]
fn key_agreement_matches_the_known_answer() {
    let alice = EphemeralKey::from_secret([
        0x77, 0x07, 0x6d, 0x0a, 0x73, 0x18, 0xa5, 0x7d, 0x3c, 0x16, 0xc1, 0x72, 0x51, 0xb2, 0x66,
        0x45, 0xdf, 0x4c, 0x2f, 0x87, 0xeb, 0xc0, 0x99, 0x2a, 0xb1, 0x77, 0xfb, 0xa5, 0x1d, 0xb9,
        0x2c, 0x2a,
    ]);
    let bob = EphemeralKey::from_secret([
        0x5d, 0xab, 0x08, 0x7e, 0x62, 0x4a, 0x8a, 0x4b, 0x79, 0xe1, 0x7f, 0x8b, 0x83, 0x80, 0x0e,
        0xe6, 0x6f, 0x3b, 0xb1, 0x29, 0x26, 0x18, 0xb6, 0xfd, 0x1c, 0x2f, 0x8b, 0x27, 0xff, 0x88,
        0xe0, 0xeb,
    ]);
    let shared = alice.agree(&bob.public_bytes());
    assert_eq!(shared, bob.agree(&alice.public_bytes()));
    assert_eq!(shared[..4], [0x4a, 0x5d, 0x9d, 0x5b]);
    assert_eq!(alice.public_bytes()[..4], [0x85, 0x20, 0xf0, 0x09]);
}
