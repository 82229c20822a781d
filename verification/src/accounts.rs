//! The books of a running kernel: what its effects add to the run's
//! consumption, and how a launch closes them.

use crate::budget::{self, BudgetUsage, Duration};
use crate::event::RunEvent;
use crate::kernel::Effect;
use vstd::prelude::*;

verus! {

/// What the books count as spent once an effect has been asked for: a bill
/// that is logged counts, everything else costs nothing.
pub open spec fn spent_after(spent: Option<u64>, effect: Effect) -> Option<u64> {
    match effect {
        Effect::Emit(RunEvent::TokensUsed { usage, .. }) => Some(
            budget::capped_sum(
                match spent {
                    Some(tokens) => tokens as int,
                    None => 0,
                },
                usage.total(),
            ) as u64,
        ),
        _ => spent,
    }
}

/// Whether `after` are the books `before` with an effect counted.
pub open spec fn tallied(before: BudgetUsage, effect: Effect, after: BudgetUsage) -> bool {
    &&& after.spent() == spent_after(before.spent(), effect)
    &&& after.settled() == before.settled()
    &&& after.running_since() == before.running_since()
}

/// Counts an effect.
pub fn tally(usage: BudgetUsage, effect: &Effect) -> (after: BudgetUsage)
    ensures
        tallied(usage, *effect, after),
{
    let mut after = usage;
    if let Effect::Emit(RunEvent::TokensUsed { usage, .. }) = effect {
        after.record_tokens(*usage);
    }
    after
}

/// Whether `after` are the books `before`, closed at the reading `now`.
pub open spec fn closed(before: BudgetUsage, now: Duration, after: BudgetUsage) -> bool {
    &&& after.running_since() is None
    &&& after.settled() == before.active_at(now)
    &&& after.spent() == before.spent()
}

/// Closes the books at the reading `now`.
pub fn close(usage: BudgetUsage, now: Duration) -> (after: BudgetUsage)
    ensures
        closed(usage, now, after),
{
    let mut after = usage;
    after.stop(now);
    after
}

/// Whether `after` are the books `before`, opened at the reading `now`.
pub open spec fn opened(before: BudgetUsage, now: Duration, after: BudgetUsage) -> bool {
    &&& after.running_since() == Some(now)
    &&& after.settled() == before.settled()
    &&& after.spent() == before.spent()
}

/// Opens the books at the reading `now`.
pub fn open(usage: BudgetUsage, now: Duration) -> (after: BudgetUsage)
    ensures
        opened(usage, now, after),
{
    let mut after = usage;
    after.start(now);
    after
}

/// Whether a deadline is the one that `timeout` sets at the reading `now`.
pub open spec fn falls_due(now: Duration, timeout: Duration, deadline: Option<Duration>) -> bool {
    deadline matches Some(due) && due.length() == if now.length() + timeout.length()
        <= Duration::longest() {
        now.length() + timeout.length()
    } else {
        Duration::longest()
    }
}

/// The deadline that `timeout` sets at the reading `now`.
pub fn due(now: Duration, timeout: Duration) -> (deadline: Option<Duration>)
    ensures
        falls_due(now, timeout, deadline),
{
    Some(now.saturating_add(timeout))
}

} // verus!
