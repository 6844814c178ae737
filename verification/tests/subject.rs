//! Subjects, fingerprints and sequence numbers.
use sha2::{Digest, Sha256};
use spindle::net::fingerprint::{Fingerprint, FingerprintError};
use spindle::net::signaling::seq::SeqFloor;
use spindle::net::signaling::subject::{
    c2h_wildcard, connect_subject, decode_sid_token, parse_session_subject, reply_prefix_ok,
    session_subject, sid_token, IceDirection,
};

fn fp(seed: u8) -> Fingerprint {
    let digest: [u8; 32] = Sha256::digest([seed; 32]).into();
    Fingerprint { bytes: digest }
}

#[test]
fn sid_token_round_trips() {
    let sid = vec![0x00, 0x01, 0xAB, 0xFF, 0x10];
    let token = sid_token(&sid);
    assert_eq!(token, "0001abff10");
    assert_eq!(decode_sid_token(&token), Some(sid));
}

#[test]
fn sid_token_rejects_uppercase() {
    assert_eq!(decode_sid_token("00AB"), None);
}

#[test]
fn sid_token_rejects_odd_length_and_empty() {
    assert_eq!(decode_sid_token("abc"), None);
    assert_eq!(decode_sid_token(""), None);
}

#[test]
fn sid_token_rejects_non_hex_characters() {
    assert_eq!(decode_sid_token("zz01"), None);
}

#[test]
fn connect_subject_shape() {
    let h = fp(1);
    assert_eq!(connect_subject(&h), format!("host.{}.connect", h.to_string()));
}

#[test]
fn session_subject_shape_both_directions() {
    let h = fp(1);
    let c = fp(2);
    let sid = vec![0xDE, 0xAD];
    assert_eq!(
        session_subject(&h, &c, &sid, IceDirection::ClientToHost),
        format!("host.{}.sess.{}.dead.c2h", h.to_string(), c.to_string())
    );
    assert_eq!(
        session_subject(&h, &c, &sid, IceDirection::HostToClient),
        format!("host.{}.sess.{}.dead.h2c", h.to_string(), c.to_string())
    );
}

#[test]
fn c2h_wildcard_shape() {
    let h = fp(1);
    assert_eq!(c2h_wildcard(&h), format!("host.{}.sess.*.*.c2h", h.to_string()));
}

#[test]
fn parse_round_trips_construction_both_directions() {
    let h = fp(3);
    let c = fp(4);
    let sid = vec![1, 2, 3, 4, 5, 6, 7, 8];
    for dir in [IceDirection::ClientToHost, IceDirection::HostToClient] {
        let subject = session_subject(&h, &c, &sid, dir);
        let parsed = parse_session_subject(&subject).expect("parses");
        assert_eq!(parsed.host_fp, h);
        assert_eq!(parsed.client_fp, c);
        assert_eq!(parsed.sid, sid);
        assert_eq!(parsed.direction, dir);
    }
}

#[test]
fn parse_rejects_wrong_literal_tokens() {
    let h = fp(5).to_string();
    let c = fp(6).to_string();
    assert!(parse_session_subject(&format!("nothost.{h}.sess.{c}.ab.c2h")).is_none());
    assert!(parse_session_subject(&format!("host.{h}.notsess.{c}.ab.c2h")).is_none());
}

#[test]
fn parse_rejects_unknown_direction() {
    let h = fp(5).to_string();
    let c = fp(6).to_string();
    assert!(parse_session_subject(&format!("host.{h}.sess.{c}.ab.sideways")).is_none());
}

#[test]
fn parse_rejects_wrong_token_count() {
    let h = fp(5).to_string();
    let c = fp(6).to_string();
    assert!(parse_session_subject(&format!("host.{h}.sess.{c}.ab")).is_none());
    assert!(parse_session_subject(&format!("host.{h}.sess.{c}.ab.c2h.extra")).is_none());
}

#[test]
fn parse_rejects_malformed_fingerprint_tokens() {
    let c = fp(6).to_string();
    assert!(parse_session_subject(&format!("host.not-base32!!.sess.{c}.ab.c2h")).is_none());
    let h = fp(5).to_string();
    assert!(parse_session_subject(&format!("host.{h}.sess.not-base32!!.ab.c2h")).is_none());
}

#[test]
fn parse_rejects_malformed_sid_token() {
    let h = fp(5).to_string();
    let c = fp(6).to_string();
    assert!(parse_session_subject(&format!("host.{h}.sess.{c}.nothex!.c2h")).is_none());
    assert!(parse_session_subject(&format!("host.{h}.sess.{c}.abc.c2h")).is_none());
}

#[test]
fn parse_does_not_match_the_hosts_own_wildcard_subscription_string() {
    let h = fp(5);
    assert!(parse_session_subject(&c2h_wildcard(&h)).is_none());
}

#[test]
fn reply_prefix_ok_accepts_the_real_prefix() {
    let fp1 = fp(7);
    let token = fp1.to_string();
    assert!(reply_prefix_ok(Some(&format!("_INBOX_{token}.abc123")), &fp1));
}

#[test]
fn reply_prefix_ok_rejects_missing_reply() {
    let fp1 = fp(7);
    assert!(!reply_prefix_ok(None, &fp1));
}

#[test]
fn reply_prefix_ok_rejects_a_different_devices_prefix() {
    let fp1 = fp(7);
    let other = fp(8).to_string();
    assert!(!reply_prefix_ok(Some(&format!("_INBOX_{other}.abc123")), &fp1));
}

#[test]
fn reply_prefix_ok_rejects_extra_characters_spliced_before_the_dot() {
    let fp1 = fp(7);
    let token = fp1.to_string();
    assert!(!reply_prefix_ok(Some(&format!("_INBOX_{token}evilstuff.abc123")), &fp1));
}

#[test]
fn reply_prefix_ok_rejects_the_prefix_appearing_mid_subject() {
    let fp1 = fp(7);
    let token = fp1.to_string();
    assert!(!reply_prefix_ok(Some(&format!("prefix._INBOX_{token}.abc123")), &fp1));
}

#[test]
fn a_reply_subject_has_one_owner() {
    let a = fp(9);
    let b = fp(10);
    let reply = format!("_INBOX_{}.x", a.to_string());
    assert!(reply_prefix_ok(Some(&reply), &a));
    assert!(!reply_prefix_ok(Some(&reply), &b));
}

#[test]
fn starts_with_no_floor() {
    let floor = SeqFloor::new();
    assert_eq!(floor.min_seq_exclusive(), None);
}

#[test]
fn advance_sets_the_floor_to_the_given_seq() {
    let mut floor = SeqFloor::new();
    floor.advance(0);
    assert_eq!(floor.min_seq_exclusive(), Some(0));
}

#[test]
fn advance_moves_the_floor_forward_across_multiple_calls() {
    let mut floor = SeqFloor::new();
    floor.advance(1);
    floor.advance(2);
    floor.advance(9);
    assert_eq!(floor.min_seq_exclusive(), Some(9));
}

#[test]
fn default_matches_new() {
    assert_eq!(SeqFloor::default(), SeqFloor::new());
}

#[test]
fn what_was_accepted_is_not_admitted_again() {
    let mut floor = SeqFloor::new();
    assert!(floor.admits(0));
    floor.advance(5);
    assert!(!floor.admits(5));
    assert!(!floor.admits(4));
    assert!(floor.admits(6));
}

#[test]
fn fingerprint_token_of_known_bytes() {
    let zeros = Fingerprint { bytes: [0; 32] };
    assert_eq!(zeros.to_string(), "A".repeat(52));
    let ones = Fingerprint { bytes: [0xff; 32] };
    assert_eq!(ones.to_string(), format!("{}Q", "7".repeat(51)));
    let mut counted = [0u8; 32];
    for (i, b) in counted.iter_mut().enumerate() {
        *b = i as u8;
    }
    let counted = Fingerprint { bytes: counted };
    assert_eq!(
        counted.to_string(),
        "AAAQEAYEAUDAOCAJBIFQYDIOB4IBCEQTCQKRMFYYDENBWHA5DYPQ"
    );
    assert_eq!(Fingerprint::parse(&counted.to_string()), Some(counted));
}

#[test]
fn fingerprint_has_one_spelling() {
    let token = fp(11).to_string();
    assert_eq!(Fingerprint::parse(&token), Some(fp(11)));
    assert_eq!(Fingerprint::parse(&token.to_lowercase()), None);
    assert_eq!(Fingerprint::parse(&token[..51]), None);
    assert_eq!(Fingerprint::parse(&format!("{token}A")), None);
    assert_eq!(Fingerprint::parse(&format!("{}R", "7".repeat(51))), None);
}

#[test]
fn fingerprint_of_the_wrong_length() {
    assert_eq!(Fingerprint::from_slice(&[7; 31]), Err(FingerprintError { actual: 31 }));
    assert_eq!(Fingerprint::from_slice(&[7; 32]), Ok(Fingerprint { bytes: [7; 32] }));
}
