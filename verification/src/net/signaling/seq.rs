//! The replay window of one direction of a session.
use vstd::prelude::*;

verus! {

/// The highest sequence number that was accepted in one direction of a session, if any was.
///
/// A message that was reordered and one that was sent twice look the same here: neither is above
/// the floor.
#[derive(Debug, Clone, Copy, PartialEq, Eq, Structural)]
pub struct SeqFloor(Option<u64>);

/// Whether a sequence number is above a floor.
pub open spec fn clears(floor: Option<u64>, seq: u64) -> bool {
    floor matches Some(f) ==> seq > f
}

impl View for SeqFloor {
    type V = Option<u64>;

    closed spec fn view(&self) -> Option<u64> {
        self.0
    }
}

impl SeqFloor {
    /// The floor of a direction in which nothing was accepted yet.
    pub fn new() -> (floor: Self)
        ensures
            floor@ == None::<u64>,
    {
        SeqFloor(None)
    }

    /// What the next message of this direction must be above.
    pub fn min_seq_exclusive(&self) -> (floor: Option<u64>)
        ensures
            floor == self@,
    {
        self.0
    }

    /// Whether a message with this number may still be accepted.
    pub fn admits(&self, seq: u64) -> (above: bool)
        ensures
            above == clears(self@, seq),
    {
        match self.0 {
            Some(floor) => seq > floor,
            None => true,
        }
    }

    /// Records the number of a message that was accepted. A message that was rejected must not move
    /// the floor.
    pub fn advance(&mut self, seq: u64)
        requires
            clears(old(self)@, seq),
        ensures
            final(self)@ == Some(seq),
    {
        self.0 = Some(seq);
    }
}

impl Default for SeqFloor {
    fn default() -> (floor: Self)
        ensures
            floor@ == None::<u64>,
    {
        SeqFloor(None)
    }
}

/// The floor after messages with these numbers were accepted one after the other.
pub open spec fn floor_after(accepted: Seq<u64>) -> Option<u64> {
    if accepted.len() == 0 {
        None
    } else {
        Some(accepted.last())
    }
}

/// Every message was above the floor when it was accepted.
pub open spec fn accepted_in_turn(accepted: Seq<u64>) -> bool {
    forall|i: int|
        0 <= i < accepted.len() ==> clears(
            floor_after(#[trigger] accepted.take(i)),
            accepted[i],
        )
}

/// The numbers that are accepted in one direction increase strictly, so none is accepted twice: what
/// was accepted once is never above a later floor.
pub proof fn law_no_replay(accepted: Seq<u64>, seq: u64)
    requires
        accepted_in_turn(accepted),
    ensures
        forall|i: int, j: int| 0 <= i < j < accepted.len() ==> accepted[i] < accepted[j],
        accepted.contains(seq) ==> !clears(floor_after(accepted), seq),
{
    assert forall|i: int, j: int| 0 <= i < j < accepted.len() implies accepted[i] < accepted[j] by {
        lemma_increasing(accepted, i, j);
    }
    if accepted.contains(seq) {
        let i = choose|i: int| 0 <= i < accepted.len() && accepted[i] == seq;
        if i < accepted.len() - 1 {
            lemma_increasing(accepted, i, accepted.len() - 1);
        }
    }
}

proof fn lemma_increasing(accepted: Seq<u64>, i: int, j: int)
    requires
        accepted_in_turn(accepted),
        0 <= i < j < accepted.len(),
    ensures
        accepted[i] < accepted[j],
    decreases j - i,
{
    assert(clears(floor_after(accepted.take(j)), accepted[j]));
    assert(accepted.take(j).last() == accepted[j - 1]);
    if i < j - 1 {
        lemma_increasing(accepted, i, j - 1);
    }
}

/// A message is refused for its number only where a message with that number or a higher one was
/// accepted before: before the first, none is.
pub proof fn law_newer_is_admitted(accepted: Seq<u64>, seq: u64)
    requires
        accepted_in_turn(accepted),
    ensures
        clears(floor_after(accepted), seq) <==> forall|i: int|
            0 <= i < accepted.len() ==> #[trigger] accepted[i] < seq,
{
    law_no_replay(accepted, seq);
    if accepted.len() > 0 {
        let last = accepted.len() - 1;
        if clears(floor_after(accepted), seq) {
            assert forall|i: int| 0 <= i < accepted.len() implies #[trigger] accepted[i] < seq by {
                if i < last {
                    assert(accepted[i] < accepted[last]);
                }
            }
        }
        assert(accepted[last] == accepted.last());
    }
}

} // verus!
