//! What to do in an ICE punch.
//!
//! The agent owns no sockets and no clock: the caller feeds it datagrams, sends what it emits and
//! tells it the time. Here is what the caller decides in between, and what becomes of the candidates
//! that the peer trickles in.
use vstd::prelude::*;

verus! {

/// After this long without a packet the agent counts as disconnected, in seconds.
pub const DISCONNECTED_TIMEOUT_SECS: u64 = 5;

/// After this long without a packet the agent gives up, in seconds.
pub const FAILED_TIMEOUT_SECS: u64 = 15;

/// How long to wait where the agent sets no timer, in nanoseconds: 100 ms.
pub const IDLE_WAIT_NANOS: u64 = 100_000_000;

/// The shortest wait, in nanoseconds: 1 ms.
pub const MIN_WAIT_NANOS: u64 = 1_000_000;

/// An ICE message of the peer, opened and verified.
#[derive(Debug, Clone, PartialEq, Eq)]
pub enum TrickleEvent {
    Candidate(String),
    EndOfCandidates,
}

/// What has come of the peer's ICE messages.
#[derive(Debug, Clone, Copy, PartialEq, Eq, Structural)]
pub struct TrickleStats {
    /// How many candidates were handed to the agent.
    pub candidates_applied: u32,
    pub end_of_candidates_seen: bool,
    /// How many candidate lines could not be read. Such a line is skipped; it does not end the
    /// punch.
    pub bad_candidates_seen: u32,
}

impl Default for TrickleStats {
    fn default() -> (stats: Self)
        ensures
            stats == (TrickleStats {
                candidates_applied: 0,
                end_of_candidates_seen: false,
                bad_candidates_seen: 0,
            }),
    {
        TrickleStats {
            candidates_applied: 0,
            end_of_candidates_seen: false,
            bad_candidates_seen: 0,
        }
    }
}

/// Whether a candidate line can be read.
pub uninterp spec fn readable(line: Seq<char>) -> bool;

/// `unmarshal_candidate` of the `rtc-ice` crate: whether it reads a line or fails depends on the
/// line alone. The identifier that it gives the candidate does not, and is left out here.
#[verifier::external_body]
pub(crate) fn candidate_readable(line: &str) -> (ok: bool)
    ensures
        ok == readable(line@),
{
    rtc_ice::candidate::unmarshal_candidate(line).is_ok()
}

/// What the caller does about a message of the peer.
#[derive(Debug, Clone, PartialEq, Eq)]
pub enum TrickleAction {
    /// Hand this candidate to the agent.
    Apply(String),
    /// Nothing.
    Ignore,
}

impl TrickleStats {
    /// What the numbers are after a candidate line that can or cannot be read.
    pub open spec fn after_candidate(self, ok: bool) -> TrickleStats {
        if ok {
            TrickleStats { candidates_applied: (self.candidates_applied + 1) as u32, ..self }
        } else {
            TrickleStats { bad_candidates_seen: (self.bad_candidates_seen + 1) as u32, ..self }
        }
    }

    /// Counts a candidate line, and says what to do with it, given whether it can be read.
    pub fn on_candidate(&mut self, line: String, ok: bool) -> (action: TrickleAction)
        requires
            old(self).candidates_applied < u32::MAX,
            old(self).bad_candidates_seen < u32::MAX,
        ensures
            *final(self) == old(self).after_candidate(ok),
            match action {
                TrickleAction::Apply(applied) => ok && applied@ == line@,
                TrickleAction::Ignore => !ok,
            },
    {
        if ok {
            self.candidates_applied = self.candidates_applied + 1;
            TrickleAction::Apply(line)
        } else {
            self.bad_candidates_seen = self.bad_candidates_seen + 1;
            TrickleAction::Ignore
        }
    }

    /// Counts a message of the peer, none where no more will come, and says what to do with it.
    pub fn on_event(&mut self, event: Option<TrickleEvent>) -> (action: TrickleAction)
        requires
            old(self).candidates_applied < u32::MAX,
            old(self).bad_candidates_seen < u32::MAX,
        ensures
            match event {
                Some(TrickleEvent::Candidate(line)) => {
                    &&& *final(self) == old(self).after_candidate(readable(line@))
                    &&& match action {
                        TrickleAction::Apply(applied) => readable(line@) && applied@ == line@,
                        TrickleAction::Ignore => !readable(line@),
                    }
                },
                Some(TrickleEvent::EndOfCandidates) => {
                    &&& *final(self) == (TrickleStats {
                        end_of_candidates_seen: true,
                        ..*old(self)
                    })
                    &&& action is Ignore
                },
                None => *final(self) == *old(self) && action is Ignore,
            },
    {
        match event {
            Some(TrickleEvent::Candidate(line)) => {
                let ok = candidate_readable(line.as_str());
                self.on_candidate(line, ok)
            },
            Some(TrickleEvent::EndOfCandidates) => {
                self.end_of_candidates_seen = true;
                TrickleAction::Ignore
            },
            None => TrickleAction::Ignore,
        }
    }
}

/// What the caller does next in a punch.
#[derive(Debug, Clone, Copy, PartialEq, Eq, Structural)]
pub enum DriveStep {
    /// The agent has tried every pair: give up.
    Fail,
    /// A pair is selected: go on to the handshake.
    Finish,
    /// Time is up.
    TimedOut,
    /// Wait this long for a datagram or a message of the peer, then tell the agent the time.
    Wait { nanos: u64 },
}

/// What the caller does next, once everything that the agent emitted is sent and its events are
/// seen. `wake_in` is how far off the agent's own timer is, if it has set one.
pub fn drive_step(failed: bool, selected: bool, out_of_time: bool, wake_in: Option<u64>) -> (step:
    DriveStep)
    ensures
        step == if failed {
            DriveStep::Fail
        } else if selected {
            DriveStep::Finish
        } else if out_of_time {
            DriveStep::TimedOut
        } else {
            let nanos = match wake_in {
                Some(n) => n,
                None => IDLE_WAIT_NANOS,
            };
            DriveStep::Wait {
                nanos: if nanos < MIN_WAIT_NANOS {
                    MIN_WAIT_NANOS
                } else {
                    nanos
                },
            }
        },
{
    if failed {
        return DriveStep::Fail;
    }
    if selected {
        return DriveStep::Finish;
    }
    if out_of_time {
        return DriveStep::TimedOut;
    }
    let nanos: u64 = match wake_in {
        Some(n) => n,
        None => IDLE_WAIT_NANOS,
    };
    DriveStep::Wait {
        nanos: if nanos < MIN_WAIT_NANOS {
            MIN_WAIT_NANOS
        } else {
            nanos
        },
    }
}

/// Every candidate line is counted once: as applied where it can be read, and as bad where it
/// cannot. Nothing else changes.
pub proof fn law_counts_every_candidate_once(stats: TrickleStats, ok: bool)
    requires
        stats.candidates_applied < u32::MAX,
        stats.bad_candidates_seen < u32::MAX,
    ensures
        ({
            let after = stats.after_candidate(ok);
            &&& after.candidates_applied - stats.candidates_applied == (if ok {
                1int
            } else {
                0int
            })
            &&& after.bad_candidates_seen - stats.bad_candidates_seen == (if ok {
                0int
            } else {
                1int
            })
            &&& after.end_of_candidates_seen == stats.end_of_candidates_seen
        }),
{
}

/// The agent counts as disconnected well before it gives up, and the caller wakes up many times
/// before that, but never so often that it spins.
pub proof fn law_times_are_in_proportion()
    ensures
        FAILED_TIMEOUT_SECS == 3 * DISCONNECTED_TIMEOUT_SECS,
        DISCONNECTED_TIMEOUT_SECS == 5,
        50 * IDLE_WAIT_NANOS == DISCONNECTED_TIMEOUT_SECS * 1_000_000_000,
        IDLE_WAIT_NANOS == 100 * MIN_WAIT_NANOS,
{
}

} // verus!
