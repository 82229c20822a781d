//! The shared run-ending path. Pauses become visible only after the
//! workspace is durable, and every pause makes a best-effort notification.

use crate::budget::BudgetKind;
use crate::event::{self, RunEvent};
use crate::kernel::{self, Effect, KernelContext, KernelError, Reply, Turn};
use crate::notify::Notification;
use crate::run::{self, PauseReason, RunOutcome, RunState};
use crate::text;
use crate::wire;
use vstd::prelude::*;

verus! {

/// How a run is about to end.
#[derive(Debug, PartialEq, Eq)]
pub enum Ending {
    Done,
    Failed,
    Paused {
        /// The iteration the pause parks: the checkpoint commit is recorded
        /// against it. Only pauses checkpoint, so only they carry one.
        iteration: u32,
        reason: PauseReason,
        summary: Option<String>,
    },
    Cancelled,
}

/// How a run is about to end.
#[verifier::ext_equal]
pub ghost enum EndingView {
    Done,
    Failed,
    Paused { iteration: u32, reason: PauseReason, summary: Option<Seq<char>> },
    Cancelled,
}

impl View for Ending {
    type V = EndingView;

    open spec fn view(&self) -> EndingView {
        match self {
            Ending::Done => EndingView::Done,
            Ending::Failed => EndingView::Failed,
            Ending::Paused { iteration, reason, summary } => EndingView::Paused {
                iteration: *iteration,
                reason: *reason,
                summary: wire::opt_text(*summary),
            },
            Ending::Cancelled => EndingView::Cancelled,
        }
    }
}

impl Ending {
    /// What the kernel reports.
    pub open spec fn comes_to(self) -> RunOutcome {
        match self {
            Ending::Done => RunOutcome::Done,
            Ending::Failed => RunOutcome::Failed,
            Ending::Paused { reason, .. } => RunOutcome::Paused(reason),
            Ending::Cancelled => RunOutcome::Cancelled,
        }
    }

    /// [`Ending::comes_to`], computed.
    pub fn outcome(&self) -> (r: RunOutcome)
        ensures
            r == self.comes_to(),
    {
        match self {
            Ending::Done => RunOutcome::Done,
            Ending::Failed => RunOutcome::Failed,
            Ending::Paused { reason, .. } => RunOutcome::Paused(*reason),
            Ending::Cancelled => RunOutcome::Cancelled,
        }
    }

    /// The iteration a pause parks.
    pub open spec fn parks(self) -> u32 {
        match self {
            Ending::Paused { iteration, .. } => iteration,
            _ => 0,
        }
    }
}

/// Where the end of a run stands.
#[derive(Debug, Clone, Copy, PartialEq, Eq, Structural)]
pub enum ConclusionPhase {
    /// The outgrown budget is being logged.
    Budgeting,
    /// The workspace is being committed.
    Saving,
    /// The commit is being logged.
    Recording,
    /// The run's last state is being logged.
    Announcing,
    /// The human is being told.
    Notifying,
}

/// The end of a run, on its way to its outcome.
pub struct Conclusion {
    pub ending: Ending,
    pub phase: ConclusionPhase,
}

/// The message of the commit that a pause makes.
pub const PAUSE_MESSAGE: &'static str = "hako: pause";

/// Whether an effect is the one that `phase` waits for.
pub open spec fn asks(
    ctx: KernelContext,
    ending: Ending,
    phase: ConclusionPhase,
    effect: Effect,
) -> bool {
    match phase {
        ConclusionPhase::Budgeting => effect matches Effect::Emit(emitted) && emitted@
            is BudgetExhausted,
        ConclusionPhase::Saving => effect matches Effect::Checkpoint(message) && message@
            == PAUSE_MESSAGE@,
        ConclusionPhase::Recording => effect matches Effect::Emit(emitted) && emitted@
            is WorkspaceCheckpointed,
        ConclusionPhase::Announcing => kernel::emits(
            effect,
            event::EventView::StateChanged { state: run::landed(ending.comes_to()) },
        ),
        ConclusionPhase::Notifying => {
            &&& effect matches Effect::Notify(notification)
            &&& ending matches Ending::Paused { reason, summary, .. }
            &&& notification.run_id@ == ctx.run_id@
            &&& notification.reason == reason
            &&& wire::opt_text(notification.summary) == wire::opt_text(summary)
        },
    }
}

/// Begins to end a run: a pause commits the workspace first.
pub fn conclude(ctx: &KernelContext, ending: Ending) -> (r: (Conclusion, Effect))
    ensures
        r.0.ending == ending,
        r.0.phase == if ending is Paused {
            ConclusionPhase::Saving
        } else {
            ConclusionPhase::Announcing
        },
        asks(*ctx, ending, r.0.phase, r.1),
{
    match &ending {
        Ending::Paused { .. } => (
            Conclusion { ending, phase: ConclusionPhase::Saving },
            Effect::Checkpoint(PAUSE_MESSAGE.to_owned()),
        ),
        _ => {
            let state: RunState = RunState::from(ending.outcome());
            (
                Conclusion { ending, phase: ConclusionPhase::Announcing },
                Effect::Emit(RunEvent::StateChanged { state }),
            )
        },
    }
}

/// Begins to pause a run that outgrew a budget: the budget is logged first.
pub fn pause_for_budget(iteration: u32, budget: BudgetKind, summary: Option<String>) -> (r: (
    Conclusion,
    Effect,
))
    ensures
        r.0.ending == (Ending::Paused { iteration, reason: PauseReason::Budget, summary }),
        r.0.phase == ConclusionPhase::Budgeting,
        kernel::emits(r.1, event::EventView::BudgetExhausted { budget }),
{
    (
        Conclusion {
            ending: Ending::Paused { iteration, reason: PauseReason::Budget, summary },
            phase: ConclusionPhase::Budgeting,
        },
        Effect::Emit(RunEvent::BudgetExhausted { budget }),
    )
}

impl Conclusion {
    /// Whether `turn` goes on to `phase`.
    pub open spec fn reaches(
        self,
        ctx: KernelContext,
        phase: ConclusionPhase,
        turn: Turn<Conclusion, Result<RunOutcome, KernelError>>,
    ) -> bool {
        &&& turn matches Turn::Act(next, effect)
        &&& next == (Conclusion { phase, ..self })
        &&& asks(ctx, self.ending, phase, effect)
    }

    /// Whether `turn` is where the end of the run stands after `reply`.
    /// Notification delivery cannot invalidate a pause already made durable;
    /// losing the ping must never lose the work.
    pub open spec fn steps(
        self,
        ctx: KernelContext,
        reply: Reply,
        turn: Turn<Conclusion, Result<RunOutcome, KernelError>>,
    ) -> bool {
        if self.phase == ConclusionPhase::Notifying {
            turn == Turn::<Conclusion, Result<RunOutcome, KernelError>>::End(
                Ok(self.ending.comes_to()),
            )
        } else if reply is Failed {
            turn == Turn::<Conclusion, Result<RunOutcome, KernelError>>::End(
                Err(reply->Failed_0),
            )
        } else {
            match self.phase {
                ConclusionPhase::Budgeting => self.reaches(ctx, ConclusionPhase::Saving, turn),
                ConclusionPhase::Saving => match reply {
                    Reply::Committed(Some(commit)) => {
                        &&& self.reaches(ctx, ConclusionPhase::Recording, turn)
                        &&& kernel::emits(
                            turn->Act_1,
                            event::EventView::WorkspaceCheckpointed {
                                iteration: self.ending.parks(),
                                commit: commit@,
                            },
                        )
                    },
                    Reply::Committed(None) => self.reaches(ctx, ConclusionPhase::Announcing, turn),
                    _ => turn matches Turn::End(Err(KernelError::OutOfStep)),
                },
                ConclusionPhase::Recording => self.reaches(ctx, ConclusionPhase::Announcing, turn),
                _ => if self.ending is Paused {
                    self.reaches(ctx, ConclusionPhase::Notifying, turn)
                } else {
                    turn == Turn::<Conclusion, Result<RunOutcome, KernelError>>::End(
                        Ok(self.ending.comes_to()),
                    )
                },
            }
        }
    }

    /// The turn that logs the run's last state.
    fn announce(ctx: Ghost<KernelContext>, ending: Ending) -> (turn: Turn<
        Conclusion,
        Result<RunOutcome, KernelError>,
    >)
        ensures
            turn matches Turn::Act(next, effect) && next == (Conclusion {
                ending,
                phase: ConclusionPhase::Announcing,
            }) && asks(ctx@, ending, ConclusionPhase::Announcing, effect),
    {
        let state: RunState = RunState::from(ending.outcome());
        Turn::Act(
            Conclusion { ending, phase: ConclusionPhase::Announcing },
            Effect::Emit(RunEvent::StateChanged { state }),
        )
    }

    /// Takes the end of the run one reply further.
    pub fn step(self, ctx: &KernelContext, reply: Reply) -> (turn: Turn<
        Conclusion,
        Result<RunOutcome, KernelError>,
    >)
        ensures
            self.steps(*ctx, reply, turn),
    {
        let Conclusion { ending, phase } = self;
        match (phase, reply) {
            (ConclusionPhase::Notifying, _) => Turn::End(Ok(ending.outcome())),
            (_, Reply::Failed(error)) => Turn::End(Err(error)),
            (ConclusionPhase::Budgeting, _) => Turn::Act(
                Conclusion { ending, phase: ConclusionPhase::Saving },
                Effect::Checkpoint(PAUSE_MESSAGE.to_owned()),
            ),
            (ConclusionPhase::Saving, Reply::Committed(Some(commit))) => {
                let iteration: u32 = match &ending {
                    Ending::Paused { iteration, .. } => *iteration,
                    _ => 0,
                };
                Turn::Act(
                    Conclusion { ending, phase: ConclusionPhase::Recording },
                    Effect::Emit(RunEvent::WorkspaceCheckpointed { iteration, commit }),
                )
            },
            (ConclusionPhase::Saving, Reply::Committed(None)) => Conclusion::announce(
                Ghost(*ctx),
                ending,
            ),
            (ConclusionPhase::Saving, _) => Turn::End(Err(KernelError::OutOfStep)),
            (ConclusionPhase::Recording, _) => Conclusion::announce(Ghost(*ctx), ending),
            (ConclusionPhase::Announcing, _) => {
                let notification: Option<Notification> = match &ending {
                    Ending::Paused { reason, summary, .. } => Some(
                        Notification {
                            run_id: ctx.run_id.copy(),
                            reason: *reason,
                            summary: text::copied(summary),
                        },
                    ),
                    _ => None,
                };
                match notification {
                    Some(notification) => Turn::Act(
                        Conclusion { ending, phase: ConclusionPhase::Notifying },
                        Effect::Notify(notification),
                    ),
                    None => Turn::End(Ok(ending.outcome())),
                }
            },
        }
    }
}

/// A pause is durable before it shows: the run's last state is logged only
/// once the workspace has been committed, and the human is told only once
/// that state has been logged.
pub proof fn a_pause_is_durable_before_it_shows(
    before: Conclusion,
    ctx: KernelContext,
    reply: Reply,
    next: Conclusion,
    effect: Effect,
)
    requires
        before.ending is Paused,
        before.steps(ctx, reply, Turn::Act(next, effect)),
    ensures
        next.ending == before.ending,
        next.phase == ConclusionPhase::Announcing ==> (before.phase == ConclusionPhase::Saving
            && reply is Committed) || before.phase == ConclusionPhase::Recording,
        next.phase == ConclusionPhase::Recording ==> before.phase == ConclusionPhase::Saving
            && reply is Committed,
        effect is Notify ==> before.phase == ConclusionPhase::Announcing && !(reply is Failed),
{
}

/// A notification that cannot be delivered changes nothing: whatever the
/// host answers to it, the pause stands.
pub proof fn a_lost_notification_loses_nothing(
    before: Conclusion,
    ctx: KernelContext,
    reply: Reply,
    turn: Turn<Conclusion, Result<RunOutcome, KernelError>>,
)
    requires
        before.phase == ConclusionPhase::Notifying,
        before.steps(ctx, reply, turn),
    ensures
        turn == Turn::<Conclusion, Result<RunOutcome, KernelError>>::End(
            Ok(before.ending.comes_to()),
        ),
{
}

} // verus!
