//! What keeps a spinning loop from running on: passes that commit nothing,
//! and iterations that run past their hard cap.

use vstd::prelude::*;

verus! {

/// How many consecutive passes without a commit pause a run as drift.
/// Forgiving enough that one stray empty pass never pauses a run, tight
/// enough that a spinning loop stops within three.
pub const DRIFT_LIMIT: u32 = 3;

/// The counts that the guardrails watch.
#[derive(Debug, Clone, Copy, PartialEq, Eq, Structural)]
pub struct Guardrails {
    pub no_commit_iterations: u32,
    pub timeout_failures: u32,
}

impl Default for Guardrails {
    fn default() -> (r: Guardrails)
        ensures
            r == (Guardrails { no_commit_iterations: 0, timeout_failures: 0 }),
    {
        Guardrails { no_commit_iterations: 0, timeout_failures: 0 }
    }
}

/// One more, as far as a count can reach.
pub open spec fn one_more(n: u32) -> u32 {
    if n == u32::MAX {
        n
    } else {
        (n + 1) as u32
    }
}

/// One less, as far as there is one.
pub open spec fn one_less(n: u32) -> u32 {
    if n == 0 {
        0
    } else {
        (n - 1) as u32
    }
}

impl Guardrails {
    /// The counts after a pass that completed.
    pub open spec fn after_pass(self, committed: bool) -> Guardrails {
        Guardrails {
            no_commit_iterations: if committed {
                0
            } else {
                one_more(self.no_commit_iterations)
            },
            timeout_failures: 0,
        }
    }

    /// The counts after an iteration that timed out.
    pub open spec fn after_timeout(self) -> Guardrails {
        Guardrails { timeout_failures: one_more(self.timeout_failures), ..self }
    }

    /// Counts a pass that completed.
    pub fn completed(&mut self, committed: bool)
        ensures
            *final(self) == old(self).after_pass(committed),
    {
        self.timeout_failures = 0;
        self.no_commit_iterations = if committed {
            0
        } else {
            self.no_commit_iterations.saturating_add(1)
        };
    }

    /// Whether the run has been spinning for too long.
    pub fn drifted(&self) -> (r: bool)
        ensures
            r == (self.no_commit_iterations >= DRIFT_LIMIT),
    {
        self.no_commit_iterations >= DRIFT_LIMIT
    }

    /// Counts an iteration that timed out.
    pub fn timed_out(&mut self)
        ensures
            *final(self) == old(self).after_timeout(),
    {
        self.timeout_failures = self.timeout_failures.saturating_add(1);
    }
}

/// Any commit ends a drift, and without one it grows pass by pass.
pub proof fn only_a_commit_ends_a_drift(rails: Guardrails)
    requires
        rails.no_commit_iterations < DRIFT_LIMIT,
    ensures
        rails.after_pass(true).no_commit_iterations == 0,
        rails.after_pass(false).no_commit_iterations == rails.no_commit_iterations + 1,
        rails.after_timeout().no_commit_iterations == rails.no_commit_iterations,
{
}

} // verus!
