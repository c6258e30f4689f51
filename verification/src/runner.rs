//! The match runner's race between the transport and the deadline timer.
//!
//! The runner starts the transport, and — when a run duration is
//! configured — races it against the deadline.  The async plumbing lives
//! with the caller; the decision of what to do on each race outcome is
//! made here.

use vstd::prelude::*;

verus! {

/// Which branch of the run/shutdown race finished first.
#[derive(Debug, Copy, Clone, PartialEq, Eq, Structural)]
pub enum RaceOutcome {
    /// The transport stopped on its own before the deadline.
    TransportStopped,
    /// The configured run duration elapsed first.
    DeadlineElapsed,
}

/// What the runner does next.
#[derive(Debug, Copy, Clone, PartialEq, Eq, Structural)]
pub enum RunnerAction {
    /// An unexpected early shutdown: report a warning and propagate the
    /// transport's own result as-is.
    ReportEarlyStop,
    /// Ask the transport to stop gracefully — accept no new connections,
    /// let in-flight operations finish — and wait until it fully stops.
    StopGracefully,
}

impl RaceOutcome {
    /// The runner's decision: an early transport stop is reported and
    /// propagated, a deadline triggers a graceful stop.
    pub fn next_action(&self) -> (r: RunnerAction)
        ensures
            (*self == RaceOutcome::TransportStopped) <==> (r == RunnerAction::ReportEarlyStop),
            (*self == RaceOutcome::DeadlineElapsed) <==> (r == RunnerAction::StopGracefully),
    {
        match self {
            RaceOutcome::TransportStopped => RunnerAction::ReportEarlyStop,
            RaceOutcome::DeadlineElapsed => RunnerAction::StopGracefully,
        }
    }
}

} // verus!
