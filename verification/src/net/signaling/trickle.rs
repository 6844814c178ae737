//! Trickled ICE messages, both ways.
use crate::net::fingerprint::Fingerprint;
use crate::net::signaling::error::SignalingError;
use crate::net::signaling::ice::TrickleEvent;
use crate::net::signaling::seq::SeqFloor;
use crate::net::signaling::wire::{seal_ice, OpenedIce, SealModel, SealRequest, ENVELOPE_V1};
use crate::proto::signaling::{IceModel, IcePayload, KIND_ICE};
use vstd::prelude::*;

verus! {

/// The sequence number of the first ICE message of either side. The offer and the answer have zero.
pub const FIRST_ICE_SEQ: u64 = 1;

/// An ICE message to send.
pub open spec fn ice_message(
    alg_id: u8,
    from_fp: Seq<u8>,
    to_fp: Seq<u8>,
    sid: Seq<u8>,
    seq: u64,
    ts: u64,
    payload: IceModel,
) -> SealModel {
    SealModel {
        v: ENVELOPE_V1,
        alg_id,
        from_fp,
        to_fp,
        sid,
        kind: KIND_ICE,
        seq,
        ts,
        eph_pk: None,
        plaintext: payload.bytes(),
    }
}

/// The two ICE messages that either side sends: its one candidate, then the marker that no more will
/// follow, each in an envelope of its own.
pub fn own_ice_messages(
    alg_id: u8,
    from_fp: Fingerprint,
    to_fp: Fingerprint,
    sid: &[u8],
    ts: u64,
    candidate_line: &str,
) -> (r: (SealRequest, SealRequest))
    ensures
        r.0@ == ice_message(
            alg_id,
            from_fp@,
            to_fp@,
            sid@,
            FIRST_ICE_SEQ,
            ts,
            IceModel { candidate: Some(candidate_line@), end_of_candidates: false },
        ),
        r.1@ == ice_message(
            alg_id,
            from_fp@,
            to_fp@,
            sid@,
            (FIRST_ICE_SEQ + 1) as u64,
            ts,
            IceModel { candidate: None, end_of_candidates: true },
        ),
{
    let mut seq: u64 = FIRST_ICE_SEQ;
    let candidate = seal_ice(
        alg_id,
        from_fp,
        to_fp,
        sid,
        seq,
        ts,
        &IcePayload {
            candidate: Some(String::from_str(candidate_line)),
            end_of_candidates: false,
        },
    );
    seq = seq + 1;
    let end = seal_ice(
        alg_id,
        from_fp,
        to_fp,
        sid,
        seq,
        ts,
        &IcePayload { candidate: None, end_of_candidates: true },
    );
    (candidate, end)
}

/// What an accepted ICE message tells the agent, if it tells it anything: a message with neither a
/// candidate nor the marker is allowed.
pub open spec fn tells(payload: IceModel) -> Option<Option<Seq<char>>> {
    if payload.end_of_candidates {
        Some(None)
    } else {
        match payload.candidate {
            Some(line) => Some(Some(line)),
            None => None,
        }
    }
}

/// Takes one incoming ICE message, opened or refused, and says what to forward to the agent. A
/// message that was refused is dropped without a trace: the floor stays, and the session goes on.
pub fn bridge_incoming_ice(
    floor: &mut SeqFloor,
    opened: Result<OpenedIce, SignalingError>,
) -> (event: Option<TrickleEvent>)
    requires
        opened matches Ok(o) ==> crate::net::signaling::seq::clears(old(floor)@, o.seq),
    ensures
        match opened {
            Err(_) => final(floor)@ == old(floor)@ && event is None,
            Ok(o) => final(floor)@ == Some(o.seq) && match event {
                Some(TrickleEvent::Candidate(line)) => tells(o.payload@) == Some(Some(line@)),
                Some(TrickleEvent::EndOfCandidates) => tells(o.payload@) == Some(
                    None::<Seq<char>>,
                ),
                None => tells(o.payload@) is None,
            },
        },
{
    match opened {
        Err(_) => None,
        Ok(o) => {
            floor.advance(o.seq);
            if o.payload.end_of_candidates {
                Some(TrickleEvent::EndOfCandidates)
            } else {
                match o.payload.candidate {
                    Some(line) => Some(TrickleEvent::Candidate(line)),
                    None => None,
                }
            }
        },
    }
}

/// Both messages of a side clear the floor of a receiver that has accepted none, in turn.
pub proof fn law_own_messages_are_in_order()
    ensures
        crate::net::signaling::seq::accepted_in_turn(seq![FIRST_ICE_SEQ, (FIRST_ICE_SEQ + 1) as u64]),
{
    let sent = seq![FIRST_ICE_SEQ, (FIRST_ICE_SEQ + 1) as u64];
    assert forall|i: int| 0 <= i < sent.len() implies crate::net::signaling::seq::clears(
        crate::net::signaling::seq::floor_after(#[trigger] sent.take(i)),
        sent[i],
    ) by {
        if i == 1 {
            assert(sent.take(1).last() == sent[0]);
        }
    }
}

/// Of the two messages of a side, the first tells its one candidate and the second that no more
/// will follow, once they are read; a message that holds the marker tells nothing else, and one
/// that holds neither tells nothing.
pub proof fn law_own_messages_arrive_as_told(line: Seq<char>)
    requires
        vstd::utf8::encode_utf8(line).len() <= 1024,
    ensures
        crate::proto::signaling::IceModel::parse(
            (IceModel { candidate: Some(line), end_of_candidates: false }).bytes(),
        ) matches Ok(m) && tells(m) == Some(Some(line)),
        crate::proto::signaling::IceModel::parse(
            (IceModel { candidate: None, end_of_candidates: true }).bytes(),
        ) matches Ok(m) && tells(m) == Some(None::<Seq<char>>),
        tells(IceModel { candidate: Some(line), end_of_candidates: true }) == Some(
            None::<Seq<char>>,
        ),
        tells(IceModel { candidate: None, end_of_candidates: false }) is None,
{
    crate::proto::signaling::law_ice_round_trip(
        IceModel { candidate: Some(line), end_of_candidates: false },
    );
    crate::proto::signaling::law_ice_round_trip(
        IceModel { candidate: None, end_of_candidates: true },
    );
}

/// An ICE message is sealed from its sender to its recipient, for its session, and holds its
/// payload and no key.
pub proof fn law_ice_message_says(
    alg_id: u8,
    from_fp: Seq<u8>,
    to_fp: Seq<u8>,
    sid: Seq<u8>,
    seq: u64,
    ts: u64,
    payload: IceModel,
)
    ensures
        ({
            let sealed = ice_message(alg_id, from_fp, to_fp, sid, seq, ts, payload);
            &&& sealed.v == 1
            &&& sealed.alg_id == alg_id
            &&& sealed.from_fp == from_fp
            &&& sealed.to_fp == to_fp
            &&& sealed.sid == sid
            &&& sealed.kind == 3
            &&& sealed.seq == seq
            &&& sealed.ts == ts
            &&& sealed.eph_pk is None
            &&& sealed.plaintext == payload.bytes()
        }),
{
}

} // verus!
