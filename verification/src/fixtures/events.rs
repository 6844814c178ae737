//! What a connection's event log tells.
//!
//! Publishing and subscribing are not acknowledged: that the server refused one shows in the events
//! of the connection and nowhere else.
use crate::text::{characters, quoted_text};
use vstd::prelude::*;

verus! {

/// What the server says of a request outside the permissions of a connection.
pub const VIOLATION: &'static str = "Permissions Violation";

/// `needle` stands in `text` at `at`.
pub open spec fn stands_at(text: Seq<char>, needle: Seq<char>, at: int) -> bool {
    0 <= at && at + needle.len() <= text.len() && text.subrange(at, at + needle.len() as int)
        == needle
}

/// `needle` stands somewhere in `text`.
pub open spec fn contains(text: Seq<char>, needle: Seq<char>) -> bool {
    exists|at: int| #[trigger] stands_at(text, needle, at)
}

/// The first event that tells of a violation.
pub open spec fn first_violation(log: Seq<String>) -> Option<Seq<char>>
    decreases log.len(),
{
    if log.len() == 0 {
        None
    } else if contains(log[0]@, VIOLATION@) {
        Some(log[0]@)
    } else {
        first_violation(log.drop_first())
    }
}

/// Each event in quotes.
pub open spec fn all_quoted(log: Seq<String>) -> Seq<Seq<char>> {
    Seq::new(log.len(), |i: int| crate::text::quoted(log[i]@))
}

/// The events, as they are shown, one to a line.
pub open spec fn listed(shown: Seq<Seq<char>>) -> Seq<char>
    decreases shown.len(),
{
    if shown.len() == 0 {
        Seq::empty()
    } else {
        listed(shown.drop_last()) + "    "@ + shown.last() + ",\n"@
    }
}

/// The complaint about a violation in a log whose events are shown as `shown`.
pub open spec fn complaint(who: Seq<char>, hit: Seq<char>, shown: Seq<Seq<char>>) -> Seq<char> {
    who + " connection hit a NATS permissions violation: "@ + hit + "\nfull event log: [\n"@
        + listed(shown) + "]"@
}

/// The text of each of the strings.
pub open spec fn texts(shown: Seq<String>) -> Seq<Seq<char>> {
    Seq::new(shown.len(), |i: int| shown[i]@)
}

/// Whether `needle` stands in `text`.
fn holds(text: &str, needle: &str) -> (found: bool)
    ensures
        found == contains(text@, needle@),
{
    let t = characters(text);
    let n = characters(needle);
    let total: usize = t.len();
    let len: usize = n.len();
    if len > total {
        assert forall|at: int| !#[trigger] stands_at(text@, needle@, at) by {}
        return false;
    }
    let mut at: usize = 0;
    while at <= total - len
        invariant
            len <= total,
            at <= total - len + 1,
            t@ == text@,
            n@ == needle@,
            total == t@.len(),
            len == n@.len(),
            forall|k: int| 0 <= k < at ==> !#[trigger] stands_at(text@, needle@, k),
        decreases total - len + 1 - at,
    {
        let mut i: usize = 0;
        while i < len && t[at + i] == n[i]
            invariant
                i <= len,
                at + len <= total,
                total == t@.len(),
                len == n@.len(),
                forall|j: int| 0 <= j < i ==> t@[at + j] == n@[j],
            decreases len - i,
        {
            i += 1;
        }
        if i == len {
            assert(text@.subrange(at as int, at + len) =~= needle@);
            assert(stands_at(text@, needle@, at as int));
            return true;
        }
        assert(!stands_at(text@, needle@, at as int)) by {
            assert(text@.subrange(at as int, at + len)[i as int] == t@[at + i]);
        }
        at += 1;
    }
    assert forall|k: int| !#[trigger] stands_at(text@, needle@, k) by {}
    false
}

/// Fails where an event of the connection of `who` tells of a permissions violation, with a
/// complaint that quotes the first such event and the whole log.
pub fn assert_no_permission_violation(log: &[String], who: &str) -> (r: Result<(), String>)
    ensures
        match r {
            Ok(_) => first_violation(log@) is None,
            Err(e) => first_violation(log@) matches Some(hit) && e@ == complaint(
                who@,
                hit,
                all_quoted(log@),
            ),
        },
{
    let total: usize = log.len();
    let mut i: usize = 0;
    assert(log@.skip(0) =~= log@);
    while i < total
        invariant
            i <= total == log@.len(),
            first_violation(log@) == first_violation(log@.skip(i as int)),
        decreases total - i,
    {
        assert(log@.skip(i as int).drop_first() =~= log@.skip(i + 1));
        if holds(log[i].as_str(), VIOLATION) {
            let shown = quote_all(log);
            return Err(complain(who, log[i].as_str(), shown.as_slice()));
        }
        i += 1;
    }
    Ok(())
}

fn quote_all(log: &[String]) -> (shown: Vec<String>)
    ensures
        texts(shown@) == all_quoted(log@),
{
    let total: usize = log.len();
    let mut shown: Vec<String> = Vec::new();
    let mut i: usize = 0;
    while i < total
        invariant
            i <= total == log@.len(),
            shown@.len() == i,
            forall|k: int| 0 <= k < i ==> #[trigger] shown@[k]@ == crate::text::quoted(log@[k]@),
        decreases total - i,
    {
        shown.push(quoted_text(log[i].as_str()));
        i += 1;
    }
    assert(texts(shown@) =~= all_quoted(log@));
    shown
}

/// The complaint about the event `hit` in a log whose events are shown as `shown`.
pub fn complain(who: &str, hit: &str, shown: &[String]) -> (text: String)
    ensures
        text@ == complaint(who@, hit@, texts(shown@)),
{
    let mut out = String::from_str(who);
    out.append(" connection hit a NATS permissions violation: ");
    out.append(hit);
    out.append("\nfull event log: [\n");
    let ghost start = out@;
    let ghost all = texts(shown@);
    let total: usize = shown.len();
    let mut i: usize = 0;
    assert(out@ =~= start + listed(all.take(0)));
    while i < total
        invariant
            i <= total == shown@.len(),
            all == texts(shown@),
            out@ == start + listed(all.take(i as int)),
        decreases total - i,
    {
        out.append("    ");
        out.append(shown[i].as_str());
        out.append(",\n");
        i += 1;
        assert(all.take(i as int).drop_last() =~= all.take(i - 1));
        assert(out@ =~= start + listed(all.take(i as int)));
    }
    out.append("]");
    assert(all.take(total as int) =~= all);
    out
}

/// The event that is complained about tells of a violation, and no event before it does; where
/// there is none, no event does.
pub proof fn law_first_violation(log: Seq<String>)
    ensures
        match first_violation(log) {
            None => forall|i: int|
                0 <= i < log.len() ==> !contains((#[trigger] log[i])@, "Permissions Violation"@),
            Some(hit) => exists|i: int|
                0 <= i < log.len() && (#[trigger] log[i])@ == hit && contains(
                    hit,
                    "Permissions Violation"@,
                ) && forall|j: int|
                    0 <= j < i ==> !contains((#[trigger] log[j])@, "Permissions Violation"@),
        },
    decreases log.len(),
{
    if log.len() > 0 {
        if contains(log[0]@, VIOLATION@) {
            assert(log[0]@ == first_violation(log)->0);
        } else {
            let rest = log.drop_first();
            law_first_violation(rest);
            match first_violation(rest) {
                None => {
                    assert forall|i: int| 0 <= i < log.len() implies !contains(
                        (#[trigger] log[i])@,
                        "Permissions Violation"@,
                    ) by {
                        if i > 0 {
                            assert(log[i] == rest[i - 1]);
                        }
                    }
                },
                Some(hit) => {
                    let at = choose|i: int|
                        0 <= i < rest.len() && (#[trigger] rest[i])@ == hit && contains(
                            hit,
                            "Permissions Violation"@,
                        ) && forall|j: int|
                            0 <= j < i ==> !contains(
                                (#[trigger] rest[j])@,
                                "Permissions Violation"@,
                            );
                    assert(log[at + 1] == rest[at]);
                    assert forall|j: int| 0 <= j < at + 1 implies !contains(
                        (#[trigger] log[j])@,
                        "Permissions Violation"@,
                    ) by {
                        if j > 0 {
                            assert(log[j] == rest[j - 1]);
                        }
                    }
                },
            }
        }
    }
}

/// A complaint names the connection, the event and then every event of the log, one to a line and
/// in its order.
pub proof fn law_complaint_lists_the_log(
    who: Seq<char>,
    hit: Seq<char>,
    shown: Seq<Seq<char>>,
    more: Seq<char>,
)
    ensures
        complaint(who, hit, Seq::empty()) == who
            + " connection hit a NATS permissions violation: "@ + hit
            + "\nfull event log: [\n"@ + "]"@,
        complaint(who, hit, shown).len() > 0 ==> complaint(who, hit, shown.push(more))
            == complaint(who, hit, shown).drop_last() + "    "@ + more + ",\n"@ + "]"@,
{
    reveal_strlit("]");
    assert(shown.push(more).drop_last() =~= shown);
    assert(complaint(who, hit, Seq::empty()) =~= who
        + " connection hit a NATS permissions violation: "@ + hit + "\nfull event log: [\n"@
            + "]"@);
    assert(complaint(who, hit, shown).drop_last() =~= who
        + " connection hit a NATS permissions violation: "@ + hit + "\nfull event log: [\n"@
            + listed(
        shown,
    ));
    assert(complaint(who, hit, shown.push(more)) =~= complaint(who, hit, shown).drop_last()
        + "    "@ + more + ",\n"@ + "]"@);
}

/// Every event of a log is shown, in its order and in quotes.
pub proof fn law_every_event_is_quoted(log: Seq<String>, i: int)
    requires
        0 <= i < log.len(),
    ensures
        all_quoted(log).len() == log.len(),
        all_quoted(log)[i] == crate::text::quoted(log[i]@),
{
}

/// One text holds another where the characters of the one, from some place on, are those of the other.
pub proof fn law_contains_at_a_place(text: Seq<char>, needle: Seq<char>)
    ensures
        contains(text, needle) <==> exists|front: Seq<char>, back: Seq<char>|
            text == #[trigger] (front + needle + back),
{
    if contains(text, needle) {
        let at = choose|at: int| #[trigger] stands_at(text, needle, at);
        let front = text.take(at);
        let back = text.skip(at + needle.len());
        assert(text =~= front + text.subrange(at, at + needle.len() as int) + back);
    }
    if exists|front: Seq<char>, back: Seq<char>| text == #[trigger] (front + needle + back) {
        let (front, back) = choose|front: Seq<char>, back: Seq<char>|
            text == #[trigger] (front + needle + back);
        let at = front.len() as int;
        assert(text.subrange(at, at + needle.len() as int) =~= needle);
        assert(stands_at(text, needle, at));
    }
}

} // verus!
