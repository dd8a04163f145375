use vstd::prelude::*;

verus! {

/// How many times the record store is asked whether a record is confirmed
/// before the store gives up.
pub const MAX_ATTEMPTS: u32 = 60;

/// Seconds to wait between two confirmation polls.
pub const POLL_INTERVAL_SECS: u64 = 5;

/// What to do after one confirmation poll.
#[derive(Debug, Clone, Copy, PartialEq, Eq, Structural)]
pub enum PollStep {
    /// The record is confirmed: the store succeeded.
    Confirmed,
    /// Not confirmed yet: wait one interval and poll again.
    Wait,
    /// The budget is spent: the store fails with a timeout.
    TimedOut,
}

/// How an attempt to store a record ended, as the driver reports it.
#[derive(Debug, Clone, Copy, PartialEq, Eq, Structural)]
pub enum StoreOutcome {
    Confirmed,
    /// Upload or deal creation failed.
    Failed,
    /// Confirmation polling ran out of attempts.
    TimedOut,
}

pub open spec fn step_spec(attempt: nat, confirmed: bool) -> PollStep {
    if confirmed {
        PollStep::Confirmed
    } else if attempt + 1 >= MAX_ATTEMPTS {
        PollStep::TimedOut
    } else {
        PollStep::Wait
    }
}

/// Decides after poll number `attempt` (counted from 0) whether the store
/// succeeded, must wait, or has timed out.
pub fn confirmation_step(attempt: u32, confirmed: bool) -> (r: PollStep)
    requires
        attempt < MAX_ATTEMPTS,
    ensures
        r == step_spec(attempt as nat, confirmed),
{
    if confirmed {
        PollStep::Confirmed
    } else if attempt + 1 >= MAX_ATTEMPTS {
        PollStep::TimedOut
    } else {
        PollStep::Wait
    }
}

/// Where a run of polls with the given answers ends, starting at poll
/// number `attempt`.
pub open spec fn poll_run(statuses: Seq<bool>, attempt: nat) -> StoreOutcome
    decreases MAX_ATTEMPTS - attempt,
{
    if attempt >= MAX_ATTEMPTS || attempt >= statuses.len() {
        StoreOutcome::TimedOut
    } else {
        match step_spec(attempt, statuses[attempt as int]) {
            PollStep::Confirmed => StoreOutcome::Confirmed,
            PollStep::TimedOut => StoreOutcome::TimedOut,
            PollStep::Wait => poll_run(statuses, attempt + 1),
        }
    }
}

/// A record that is never confirmed within the budget ends in a timeout,
/// however the run of polls goes on.
pub proof fn lemma_unconfirmed_times_out(statuses: Seq<bool>, attempt: nat)
    requires
        forall|i: int| 0 <= i < statuses.len() && i < MAX_ATTEMPTS ==> !#[trigger] statuses[i],
    ensures
        poll_run(statuses, attempt) == StoreOutcome::TimedOut,
    decreases MAX_ATTEMPTS - attempt,
{
    if attempt < MAX_ATTEMPTS && attempt < statuses.len() {
        assert(!statuses[attempt as int]);
        if attempt + 1 < MAX_ATTEMPTS {
            lemma_unconfirmed_times_out(statuses, attempt + 1);
        }
    }
}

} // verus!
