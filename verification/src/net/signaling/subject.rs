//! Subjects of the connect and signaling flow.
//!
//! - `host.<h>.connect`: a client's connect request. The host subscribes; the client publishes and
//!   awaits one reply.
//! - `host.<h>.sess.<c>.<sid>.c2h` and `.h2c`: trickled ICE of one session, by direction.
//! - `_INBOX_<fp>.`: the prefix of a device's own reply subjects.
//!
//! `<h>` and `<c>` are fingerprint tokens and `<sid>` is the session identifier in lower-case
//! hexadecimal.
use crate::net::fingerprint;
use crate::net::fingerprint::{Fingerprint, FINGERPRINT_LEN, TOKEN_LEN};
use crate::text;
use crate::text::{from_hex, same_text, to_hex};
use vstd::prelude::*;

verus! {

/// A session identifier as a subject token.
pub fn sid_token(sid: &[u8]) -> (token: String)
    ensures
        token@ == text::hex(sid@),
{
    to_hex(sid)
}

/// The session identifier that a subject token stands for. It has one spelling only: upper-case
/// digits are not read.
pub fn decode_sid_token(token: &str) -> (sid: Option<Vec<u8>>)
    ensures
        match sid {
            Some(s) => s@.len() > 0 && text::hex(s@) == token@,
            None => forall|s: Seq<u8>| s.len() > 0 ==> #[trigger] text::hex(s) != token@,
        },
{
    match from_hex(token) {
        None => None,
        Some(sid) => if sid.len() == 0 {
            assert(text::hex(sid@).len() == 0);
            assert forall|s: Seq<u8>| s.len() > 0 implies #[trigger] text::hex(s) != token@ by {
                assert(text::hex(s).len() > 0);
            }
            None
        } else {
            Some(sid)
        },
    }
}

/// The text of a connect subject.
pub open spec fn connect_text(host_fp: Seq<u8>) -> Seq<char> {
    "host."@ + fingerprint::token(host_fp) + ".connect"@
}

/// The subject on which a host takes connect requests.
pub fn connect_subject(host_fp: &Fingerprint) -> (subject: String)
    ensures
        subject@ == connect_text(host_fp@),
{
    text::between("host.", host_fp.to_string().as_str(), ".connect")
}

/// Which way a trickled ICE message goes.
#[derive(Debug, Clone, Copy, PartialEq, Eq, Structural)]
pub enum IceDirection {
    ClientToHost,
    HostToClient,
}

impl IceDirection {
    /// The last token of the subject.
    pub open spec fn suffix_text(self) -> Seq<char> {
        match self {
            IceDirection::ClientToHost => "c2h"@,
            IceDirection::HostToClient => "h2c"@,
        }
    }

    /// The last token of the subject.
    pub fn suffix(self) -> (suffix: &'static str)
        ensures
            suffix@ == self.suffix_text(),
    {
        match self {
            IceDirection::ClientToHost => "c2h",
            IceDirection::HostToClient => "h2c",
        }
    }
}

/// The text of a session subject.
pub open spec fn session_text(
    host_fp: Seq<u8>,
    client_fp: Seq<u8>,
    sid: Seq<u8>,
    direction: IceDirection,
) -> Seq<char> {
    "host."@ + fingerprint::token(host_fp) + ".sess."@ + fingerprint::token(client_fp) + "."@
        + text::hex(sid) + "."@ + direction.suffix_text()
}

/// The subject of one direction of a session's trickled ICE.
pub fn session_subject(
    host_fp: &Fingerprint,
    client_fp: &Fingerprint,
    sid: &[u8],
    direction: IceDirection,
) -> (subject: String)
    ensures
        subject@ == session_text(host_fp@, client_fp@, sid@, direction),
{
    let mut subject = text::between("host.", host_fp.to_string().as_str(), ".sess.");
    subject.append(client_fp.to_string().as_str());
    subject.append(".");
    subject.append(sid_token(sid).as_str());
    subject.append(".");
    subject.append(direction.suffix());
    subject
}

/// The text of a host's wildcard subscription.
pub open spec fn wildcard_text(host_fp: Seq<u8>) -> Seq<char> {
    "host."@ + fingerprint::token(host_fp) + ".sess.*.*.c2h"@
}

/// The host's subscription to the client-to-host ICE of every session.
pub fn c2h_wildcard(host_fp: &Fingerprint) -> (subject: String)
    ensures
        subject@ == wildcard_text(host_fp@),
{
    text::between("host.", host_fp.to_string().as_str(), ".sess.*.*.c2h")
}

/// The parts of a session subject.
#[derive(Debug, Clone, PartialEq, Eq)]
pub struct SessionSubject {
    pub host_fp: Fingerprint,
    pub client_fp: Fingerprint,
    pub sid: Vec<u8>,
    pub direction: IceDirection,
}

impl SessionSubject {
    /// The subject that has these parts.
    pub open spec fn text(self) -> Seq<char> {
        session_text(self.host_fp@, self.client_fp@, self.sid@, self.direction)
    }
}

/// No session has this subject.
pub open spec fn is_no_session(subject: Seq<char>) -> bool {
    forall|h: Seq<u8>, c: Seq<u8>, sid: Seq<u8>, d: IceDirection|
        h.len() == FINGERPRINT_LEN && c.len() == FINGERPRINT_LEN && sid.len() > 0
            ==> #[trigger] session_text(h, c, sid, d) != subject
}

/// Where the parts of a session subject stand: its tokens but for the session identifier have fixed
/// lengths.
proof fn lemma_parts(h: Seq<u8>, c: Seq<u8>, sid: Seq<u8>, d: IceDirection)
    requires
        h.len() == FINGERPRINT_LEN,
        c.len() == FINGERPRINT_LEN,
    ensures
        ({
            let subject = session_text(h, c, sid, d);
            let end = 116 + 2 * sid.len() as int;
            &&& subject.len() == end + 4
            &&& subject.subrange(5, 57) == fingerprint::token(h)
            &&& subject.subrange(63, 115) == fingerprint::token(c)
            &&& subject.subrange(116, end) == text::hex(sid)
            &&& subject.subrange(end + 1, end + 4) == d.suffix_text()
        }),
{
    reveal_strlit("host.");
    reveal_strlit(".sess.");
    reveal_strlit(".");
    reveal_strlit("c2h");
    reveal_strlit("h2c");
    fingerprint::lemma_token_has_no_dot(h);
    fingerprint::lemma_token_has_no_dot(c);
    let subject = session_text(h, c, sid, d);
    let end = 116 + 2 * sid.len() as int;
    assert(subject.len() == end + 4);
    assert(subject.subrange(5, 57) =~= fingerprint::token(h));
    assert(subject.subrange(63, 115) =~= fingerprint::token(c));
    assert(subject.subrange(116, end) =~= text::hex(sid));
    assert(subject.subrange(end + 1, end + 4) =~= d.suffix_text());
}

/// The direction whose token is `token`, if there is one.
fn parse_direction(token: &str) -> (d: Option<IceDirection>)
    ensures
        match d {
            Some(d) => token@ == d.suffix_text(),
            None => token@ != "c2h"@ && token@ != "h2c"@,
        },
{
    if same_text(token, "c2h") {
        Some(IceDirection::ClientToHost)
    } else if same_text(token, "h2c") {
        Some(IceDirection::HostToClient)
    } else {
        None
    }
}

/// The parts of a session subject; nothing else is read as one.
pub fn parse_session_subject(subject: &str) -> (r: Option<SessionSubject>)
    ensures
        match r {
            Some(parts) => parts.text() == subject@ && parts.sid@.len() > 0,
            None => is_no_session(subject@),
        },
{
    let len: usize = subject.unicode_len();
    proof {
        assert forall|h: Seq<u8>, c: Seq<u8>, sid: Seq<u8>, d: IceDirection|
            h.len() == FINGERPRINT_LEN && c.len() == FINGERPRINT_LEN && sid.len() > 0
                && #[trigger] session_text(h, c, sid, d) == subject@ implies {
            &&& subject@.len() >= 122
            &&& subject@.subrange(5, 57) == fingerprint::token(h)
            &&& subject@.subrange(63, 115) == fingerprint::token(c)
            &&& subject@.subrange(116, subject@.len() - 4) == text::hex(sid)
            &&& subject@.subrange(subject@.len() - 3, subject@.len() as int) == d.suffix_text()
        } by {
            lemma_parts(h, c, sid, d);
        }
    }
    if len < 122 {
        return None;
    }
    let host_fp = match Fingerprint::parse(subject.substring_char(5, 57)) {
        Some(fp) => fp,
        None => {
            return None;
        },
    };
    let client_fp = match Fingerprint::parse(subject.substring_char(63, 115)) {
        Some(fp) => fp,
        None => {
            return None;
        },
    };
    let sid = match decode_sid_token(subject.substring_char(116, len - 4)) {
        Some(sid) => sid,
        None => {
            return None;
        },
    };
    let direction = match parse_direction(subject.substring_char(len - 3, len)) {
        Some(d) => d,
        None => {
            return None;
        },
    };
    let again = session_subject(&host_fp, &client_fp, sid.as_slice(), direction);
    if same_text(again.as_str(), subject) {
        Some(SessionSubject { host_fp, client_fp, sid, direction })
    } else {
        proof {
            assert forall|h: Seq<u8>, c: Seq<u8>, s: Seq<u8>, d: IceDirection|
                h.len() == FINGERPRINT_LEN && c.len() == FINGERPRINT_LEN && s.len()
                    > 0 implies #[trigger] session_text(h, c, s, d) != subject@ by {
                if session_text(h, c, s, d) == subject@ {
                    fingerprint::law_token_injective(h, host_fp@);
                    fingerprint::law_token_injective(c, client_fp@);
                    text::law_hex_injective(s, sid@);
                    reveal_strlit("c2h");
                    reveal_strlit("h2c");
                    assert("c2h"@[0] != "h2c"@[0]);
                    assert(d == direction);
                }
            }
        }
        None
    }
}

/// The prefix of the reply subjects of a device.
pub open spec fn inbox_prefix(fp: Seq<u8>) -> Seq<char> {
    "_INBOX_"@ + fingerprint::token(fp) + "."@
}

/// A reply subject was given and is one of the device's own.
pub open spec fn is_own_inbox(reply: Option<Seq<char>>, fp: Seq<u8>) -> bool {
    reply matches Some(r) && inbox_prefix(fp).is_prefix_of(r)
}

/// The characters of an optional text.
pub open spec fn opt_chars(o: Option<&str>) -> Option<Seq<char>> {
    match o {
        Some(s) => Some(s@),
        None => None,
    }
}

/// Whether a reply subject was given and is one of the sender's own. Publish permissions do not
/// cover the reply subject of a request, so the receiver has to look.
pub fn reply_prefix_ok(reply: Option<&str>, from_fp: &Fingerprint) -> (ok: bool)
    ensures
        ok == is_own_inbox(opt_chars(reply), from_fp@),
{
    let prefix = text::between("_INBOX_", from_fp.to_string().as_str(), ".");
    match reply {
        None => false,
        Some(r) => {
            let len: usize = prefix.as_str().unicode_len();
            if r.unicode_len() < len {
                return false;
            }
            let ok = same_text(r.substring_char(0, len), prefix.as_str());
            assert(inbox_prefix(from_fp@) == prefix@);
            assert(ok ==> prefix@ =~= r@.subrange(0, prefix@.len() as int));
            ok
        },
    }
}

/// What a session subject was made from is read back from it, and from no other subject.
pub proof fn law_session_subject_unique(
    h: Seq<u8>,
    c: Seq<u8>,
    sid: Seq<u8>,
    d: IceDirection,
    h2: Seq<u8>,
    c2: Seq<u8>,
    sid2: Seq<u8>,
    d2: IceDirection,
)
    requires
        h.len() == FINGERPRINT_LEN,
        c.len() == FINGERPRINT_LEN,
        h2.len() == FINGERPRINT_LEN,
        c2.len() == FINGERPRINT_LEN,
        session_text(h, c, sid, d) == session_text(h2, c2, sid2, d2),
    ensures
        h == h2,
        c == c2,
        sid == sid2,
        d == d2,
{
    lemma_parts(h, c, sid, d);
    lemma_parts(h2, c2, sid2, d2);
    fingerprint::law_token_injective(h, h2);
    fingerprint::law_token_injective(c, c2);
    text::law_hex_injective(sid, sid2);
    reveal_strlit("c2h");
    reveal_strlit("h2c");
    assert("c2h"@[0] != "h2c"@[0]);
}

/// The host's wildcard subscription is the subject of no session.
pub proof fn law_wildcard_is_no_session(host_fp: Seq<u8>)
    requires
        host_fp.len() == FINGERPRINT_LEN,
    ensures
        is_no_session(wildcard_text(host_fp)),
{
    reveal_strlit("host.");
    reveal_strlit(".sess.*.*.c2h");
    fingerprint::lemma_token_has_no_dot(host_fp);
    let wildcard = wildcard_text(host_fp);
    assert(wildcard.len() == 70);
    assert forall|h: Seq<u8>, c: Seq<u8>, sid: Seq<u8>, d: IceDirection|
        h.len() == FINGERPRINT_LEN && c.len() == FINGERPRINT_LEN && sid.len()
            > 0 implies #[trigger] session_text(h, c, sid, d) != wildcard by {
        lemma_parts(h, c, sid, d);
    }
}

/// A reply subject belongs to one device at most.
pub proof fn law_inbox_owner_unique(reply: Option<Seq<char>>, a: Seq<u8>, b: Seq<u8>)
    requires
        a.len() == FINGERPRINT_LEN,
        b.len() == FINGERPRINT_LEN,
        is_own_inbox(reply, a),
        is_own_inbox(reply, b),
    ensures
        a == b,
{
    reveal_strlit("_INBOX_");
    reveal_strlit(".");
    fingerprint::lemma_token_has_no_dot(a);
    fingerprint::lemma_token_has_no_dot(b);
    let r = reply->Some_0;
    assert(r.subrange(7, 59) =~= fingerprint::token(a)) by {
        assert forall|i: int| 0 <= i < TOKEN_LEN implies r.subrange(7, 59)[i]
            == #[trigger] fingerprint::token(a)[i] by {
            assert(inbox_prefix(a)[i + 7] == r[i + 7]);
        }
    }
    assert(r.subrange(7, 59) =~= fingerprint::token(b)) by {
        assert forall|i: int| 0 <= i < TOKEN_LEN implies r.subrange(7, 59)[i]
            == #[trigger] fingerprint::token(b)[i] by {
            assert(inbox_prefix(b)[i + 7] == r[i + 7]);
        }
    }
    fingerprint::law_token_injective(a, b);
}

/// The subjects, token by token.
pub proof fn law_subjects_spelled_out(
    host_fp: Fingerprint,
    client_fp: Fingerprint,
    sid: Seq<u8>,
    direction: IceDirection,
    reply: Seq<char>,
)
    ensures
        connect_text(host_fp@) == "host."@ + fingerprint::token(host_fp.bytes@) + ".connect"@,
        session_text(host_fp@, client_fp@, sid, direction) == "host."@ + fingerprint::token(
            host_fp.bytes@,
        ) + ".sess."@ + fingerprint::token(client_fp.bytes@) + "."@ + text::hex(sid) + "."@ + (
        if direction is ClientToHost {
            "c2h"@
        } else {
            "h2c"@
        }),
        wildcard_text(host_fp@) == "host."@ + fingerprint::token(host_fp.bytes@)
            + ".sess.*.*.c2h"@,
        is_own_inbox(Some(reply), client_fp@) <==> ("_INBOX_"@ + fingerprint::token(
            client_fp.bytes@,
        ) + "."@).is_prefix_of(reply),
        !is_own_inbox(None, client_fp@),
{
}

/// What is no session's subject: one that no two fingerprints, no session identifier and neither
/// direction spell.
pub proof fn law_no_session_has_it(subject: Seq<char>, h: Seq<u8>, c: Seq<u8>, sid: Seq<u8>)
    requires
        is_no_session(subject),
        h.len() == 32,
        c.len() == 32,
        sid.len() > 0,
    ensures
        subject != session_text(h, c, sid, IceDirection::ClientToHost),
        subject != session_text(h, c, sid, IceDirection::HostToClient),
{
}

} // verus!
