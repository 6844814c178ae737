//! What holds of a session as a whole: the two sides hear each other.
use crate::net::signaling::connect;
use crate::net::signaling::connect::{Connect, ConnectAction, ConnectEvent, ConnectState};
use crate::net::signaling::serve;
use crate::net::signaling::serve::{Host, ServeEvent, ServeState};
use crate::proto::signaling;
use crate::proto::signaling::{AnswerModel, OfferModel};
use vstd::prelude::*;

verus! {

/// A client's connect and a host's answer belong to one session: the client dialled this host, and
/// the offer that the host received comes from this client and names its session.
pub open spec fn is_one_session(
    c: Connect,
    client: ConnectState,
    first: ConnectAction,
    sent: Seq<connect::Turn>,
    h: Host,
    host: ServeState,
    served: Seq<serve::Turn>,
) -> bool {
    &&& !c.refresh
    &&& connect::is_start(c, client, first)
    &&& connect::is_run(c, client, sent)
    &&& host is Received
    &&& host.wf()
    &&& serve::is_run(h, host, served)
    &&& c.session.host.host_fp == h.host_fp
    &&& c.session.host.device_fp == h.device_fp
    &&& host->Received_0.from_fp == c.session.device_fp
    &&& host->Received_0.env@.sid == c.session.ctx.sid@
}

/// Either side publishes its ICE messages where the other side listens, and neither where it
/// listens itself.
pub proof fn law_each_hears_the_other(
    c: Connect,
    client: ConnectState,
    first: ConnectAction,
    sent: Seq<connect::Turn>,
    h: Host,
    host: ServeState,
    served: Seq<serve::Turn>,
)
    requires
        is_one_session(c, client, first, sent, h, host, served),
        sent.len() > 5,
        sent[0].action is SubscribeIce,
        sent[5].action is PublishIce,
        served.len() > 6,
        served[4].action is SubscribeIce,
        served[6].action is PublishIce,
    ensures
        sent[5].action->PublishIce_subject@ == served[4].action->SubscribeIce_0@,
        served[6].action->PublishIce_subject@ == sent[0].action->SubscribeIce_0@,
        sent[5].action->PublishIce_subject@ != served[6].action->PublishIce_subject@,
{
    connect::law_listens_for_the_host(c, client, first, sent, 0);
    connect::law_trickles_to_the_host(c, client, first, sent, 5);
    serve::law_listens_for_the_client(h, host, served, 4);
    serve::law_trickles_to_the_client(h, host, served, 6);
}

/// Either side takes the ICE messages of the session from the device that the other sends them
/// from, and as addressed to the device that the other sends them to.
pub proof fn law_each_takes_what_the_other_sends(
    c: Connect,
    client: ConnectState,
    first: ConnectAction,
    sent: Seq<connect::Turn>,
    h: Host,
    host: ServeState,
    served: Seq<serve::Turn>,
)
    requires
        is_one_session(c, client, first, sent, h, host, served),
        sent.len() > 6,
        sent[5].action is PublishIce,
        sent[6].action is Punch,
        served.len() > 7,
        served[6].action is PublishIce,
        served[7].action is Punch,
    ensures
        served[7].action->Punch_session.subject_text() == sent[5].action->PublishIce_subject@,
        served[7].action->Punch_session.peer_fp.bytes@
            == sent[5].action->PublishIce_candidate@.from_fp,
        served[7].action->Punch_session.self_fp.bytes@
            == sent[5].action->PublishIce_candidate@.to_fp,
        served[7].action->Punch_session.sid@ == sent[5].action->PublishIce_candidate@.sid,
        sent[6].action->Punch_session.subject_text() == served[6].action->PublishIce_subject@,
        sent[6].action->Punch_session.peer_fp.bytes@
            == served[6].action->PublishIce_candidate@.from_fp,
        sent[6].action->Punch_session.self_fp.bytes@
            == served[6].action->PublishIce_candidate@.to_fp,
        sent[6].action->Punch_session.sid@ == served[6].action->PublishIce_candidate@.sid,
{
    connect::law_trickles_to_the_host(c, client, first, sent, 5);
    connect::law_listens_where_it_punches(c, client, first, sent, 6);
    serve::law_trickles_to_the_client(h, host, served, 6);
    serve::law_listens_where_it_punches(h, host, served, 7);
}

/// The offer passes what the host asks of it: it is addressed to the host, for the session that it
/// names, of the kind and the version that are asked for. So does the answer what the client asks
/// of it, and it comes from the device that the client is bound to.
pub proof fn law_each_opens_what_the_other_seals(
    c: Connect,
    client: ConnectState,
    first: ConnectAction,
    sent: Seq<connect::Turn>,
    h: Host,
    host: ServeState,
    served: Seq<serve::Turn>,
)
    requires
        is_one_session(c, client, first, sent, h, host, served),
        sent.len() > 4,
        sent[2].action is PublishOffer,
        sent[4].action is OpenAnswer,
        served.len() > 5,
        served[1].action is OpenOffer,
        served[5].action is PublishAnswer,
    ensures
        ({
            let offer = sent[2].action->PublishOffer_request@;
            let asked = served[1].action->OpenOffer_request@;
            &&& offer.to_fp == asked.self_fp
            &&& offer.sid == asked.expected_sid
            &&& offer.kind == asked.expected_kind
            &&& offer.v >= asked.min_v
            &&& asked.bound_from_fp is None
            &&& asked.min_seq_exclusive is None
            &&& !asked.sender_revoked
        }),
        ({
            let answer = served[5].action->PublishAnswer_request@;
            let asked = sent[4].action->OpenAnswer_request@;
            &&& answer.to_fp == asked.self_fp
            &&& answer.sid == asked.expected_sid
            &&& answer.kind == asked.expected_kind
            &&& answer.v >= asked.min_v
            &&& asked.bound_from_fp == Some(answer.from_fp)
            &&& asked.min_seq_exclusive is None
            &&& !asked.sender_revoked
        }),
        ({
            let ours = sent[4].action->OpenAnswer_key@;
            let theirs = served[5].action->PublishAnswer_key@;
            &&& ours.sid == theirs.sid
            &&& ours.client_fp == theirs.client_fp
            &&& ours.host_fp == theirs.host_fp
        }),
{
    connect::law_offers_its_own_side(c, client, first, sent, 2);
    connect::law_opens_what_the_host_answers(c, client, first, sent, 4);
    serve::law_opens_what_was_received(h, host, served, 1);
    serve::law_answers_its_own_side(h, host, served, 5);
}

/// A host that was told what the client's offer holds punches with the client's credentials, and
/// pins the client's certificate.
pub proof fn law_host_meets_the_client(
    c: Connect,
    client: ConnectState,
    first: ConnectAction,
    sent: Seq<connect::Turn>,
    h: Host,
    host: ServeState,
    served: Seq<serve::Turn>,
    plaintext: Vec<u8>,
)
    requires
        is_one_session(c, client, first, sent, h, host, served),
        sent.len() > 2,
        sent[0].event is Prepared,
        sent[2].action is PublishOffer,
        served.len() > 8,
        served[2].event == ServeEvent::Opened(Ok(plaintext)),
        plaintext@ == sent[2].action->PublishOffer_request@.plaintext,
        served[7].action is Punch,
        served[8].action is Handshake,
        (OfferModel {
            inbox: sent[2].action->inbox@,
            transport: signaling::Transport::Quic,
            ufrag: sent[0].event->Prepared_0.ufrag@,
            pwd: sent[0].event->Prepared_0.pwd@,
            cert_fp: sent[0].event->Prepared_0.cert_fp@,
        }).valid(),
    ensures
        served[7].action->Punch_ufrag@ == sent[0].event->Prepared_0.ufrag@,
        served[7].action->Punch_pwd@ == sent[0].event->Prepared_0.pwd@,
        served[8].action->cert_fp@ == sent[0].event->Prepared_0.cert_fp@,
{
    connect::law_offers_its_own_side(c, client, first, sent, 2);
    serve::law_listens_where_it_punches(h, host, served, 7);
    serve::law_pins_what_was_offered(h, host, served, 8);
    signaling::law_offer_round_trip(
        OfferModel {
            inbox: sent[2].action->inbox@,
            transport: signaling::Transport::Quic,
            ufrag: sent[0].event->Prepared_0.ufrag@,
            pwd: sent[0].event->Prepared_0.pwd@,
            cert_fp: sent[0].event->Prepared_0.cert_fp@,
        },
    );
}

/// A client that was told what the host's answer holds punches with the host's credentials, and
/// pins the host's certificate.
pub proof fn law_client_meets_the_host(
    c: Connect,
    client: ConnectState,
    first: ConnectAction,
    sent: Seq<connect::Turn>,
    h: Host,
    host: ServeState,
    served: Seq<serve::Turn>,
    plaintext: Vec<u8>,
)
    requires
        is_one_session(c, client, first, sent, h, host, served),
        served.len() > 5,
        served[3].event is Verdict,
        served[4].event is Prepared,
        served[5].action is PublishAnswer,
        sent.len() > 7,
        sent[5].event == ConnectEvent::Opened(Ok(plaintext)),
        plaintext@ == served[5].action->PublishAnswer_request@.plaintext,
        sent[6].action is Punch,
        sent[7].action is Handshake,
        (AnswerModel {
            transport: signaling::Transport::Quic,
            ufrag: served[4].event->Prepared_0.ufrag@,
            pwd: served[4].event->Prepared_0.pwd@,
            cert_fp: served[4].event->Prepared_0.cert_fp@,
            member_cap: signaling::opt_capability(served[3].event->Verdict_0->member_cap),
        }).valid(),
    ensures
        sent[6].action->Punch_ufrag@ == served[4].event->Prepared_0.ufrag@,
        sent[6].action->Punch_pwd@ == served[4].event->Prepared_0.pwd@,
        sent[7].action->cert_fp@ == served[4].event->Prepared_0.cert_fp@,
{
    serve::law_answers_its_own_side(h, host, served, 5);
    connect::law_punches_with_what_was_answered(c, client, first, sent, 6);
    connect::law_pins_what_was_answered(c, client, first, sent, 7);
    signaling::law_answer_round_trip(
        AnswerModel {
            transport: signaling::Transport::Quic,
            ufrag: served[4].event->Prepared_0.ufrag@,
            pwd: served[4].event->Prepared_0.pwd@,
            cert_fp: served[4].event->Prepared_0.cert_fp@,
            member_cap: signaling::opt_capability(served[3].event->Verdict_0->member_cap),
        },
    );
}

} // verus!
