//! The supervisor's decisions: what follows each synchronisation pass.

use vstd::prelude::*;

verus! {

/// The pause after a failed pass, in milliseconds.
pub const RETRY_INTERVAL_MS: u64 = 1000;

/// How a pass ended, or that a termination signal arrived.
#[derive(Clone, Copy, Debug, PartialEq, Eq)]
pub enum PassOutcome {
    Succeeded,
    Failed,
    ShutdownRequested,
}

/// What the supervisor does next.
#[derive(Clone, Copy, Debug, PartialEq, Eq)]
pub enum SupervisorAction {
    /// Run the next pass at once.
    RunPass,
    /// Wait, then run the next pass.
    SleepThenRun { wait_ms: u64 },
    /// Stop the loop.
    Exit,
}

/// After a successful pass the next one runs at once (catching up); after a
/// failed one the supervisor waits `RETRY_INTERVAL_MS`; a termination signal
/// ends the loop.
pub fn next_action(outcome: PassOutcome) -> (r: SupervisorAction)
    ensures
        outcome is Succeeded ==> r == SupervisorAction::RunPass,
        outcome is Failed ==> r == (SupervisorAction::SleepThenRun { wait_ms: RETRY_INTERVAL_MS }),
        outcome is ShutdownRequested ==> r == SupervisorAction::Exit,
{
    match outcome {
        PassOutcome::Succeeded => SupervisorAction::RunPass,
        PassOutcome::Failed => SupervisorAction::SleepThenRun { wait_ms: RETRY_INTERVAL_MS },
        PassOutcome::ShutdownRequested => SupervisorAction::Exit,
    }
}

} // verus!
