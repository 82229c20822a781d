//! The fanout kernel's run loop: plan, settle the planned batch or put a
//! completion claim to the skeptic, and plan again.

use crate::accounts;
use crate::agent::AgentAdapter;
use crate::bracket::{self, Bracket, BracketPhase, Bracketed};
use crate::budget::{self, BudgetKind, BudgetUsage, Duration};
use crate::ending::{self, Conclusion, ConclusionPhase, Ending};
use crate::event::{self, EventEnvelope, IterationOutcome, RunEvent};
use crate::fanout::batch::{self, Batch, BatchTurn};
use crate::fanout::work::{ClaimBrief, JudgeWork, PlanBrief, PlanWork, Planned};
use crate::flow::KernelName;
use crate::kernel::{self, Effect, KernelContext, KernelError, Reply, Turn};
use crate::pipeline::guardrails;
use crate::report::{self, Disposition};
use crate::run::{PauseReason, RunOutcome};
use crate::skeptic::SkepticEnd;
use crate::text;
use crate::verify::VerifyOutcome;
use vstd::prelude::*;

verus! {

/// What the loop keeps from iteration to iteration.
pub struct FanoutProgress {
    pub iteration: u32,
    /// The iterations that settled children have finished.
    pub children: u32,
    pub usage: BudgetUsage,
}

/// What the loop waits for.
pub enum FanoutPhase {
    /// The run's start is being logged.
    Starting,
    /// The iteration's start is being logged.
    Opening { feedback: Vec<String> },
    /// The plan runs.
    Planning { brief: PlanBrief, deadline: Option<Duration>, bracket: Bracket<PlanWork> },
    /// The skeptic judges a claim.
    Judging { brief: ClaimBrief, bracket: Bracket<JudgeWork> },
    /// The planned batch runs.
    Batching { summary: String, batch: Batch },
    /// The end of an iteration whose batch settled is being logged.
    Closing { summary: String, children: u32 },
    /// The end of an iteration whose claim was refuted is being logged.
    Refuting { findings: Vec<String> },
    /// The end of a failed iteration is being logged.
    Failing,
    /// The end of an iteration whose plan timed out is being logged.
    Expiring,
    /// The run ends.
    Ending(Conclusion),
}

/// A run of the fanout kernel.
pub struct FanoutRun {
    pub progress: FanoutProgress,
    pub phase: FanoutPhase,
}

/// What the loop decides after a reply.
pub type FanoutDecision = Turn<FanoutRun, Result<RunOutcome, KernelError>>;

/// Where a run stands after a reply; a run that has ended gives its books
/// back.
pub type FanoutTurn = Turn<FanoutRun, (Result<RunOutcome, KernelError>, BudgetUsage)>;

/// The sum of two counts of iterations, as far as a count can reach.
pub open spec fn count_sum(a: u32, b: u32) -> u32 {
    if a + b <= u32::MAX {
        (a + b) as u32
    } else {
        u32::MAX
    }
}

/// The highest iteration that a log closes; 0 where it closes none.
pub open spec fn last_closed(events: Seq<event::EnvelopeView>) -> u32
    decreases events.len(),
{
    if events.len() == 0 {
        0
    } else {
        let before = last_closed(events.drop_last());
        match events.last().event {
            event::EventView::IterationFinished { iteration, outcome } => if iteration > before {
                iteration
            } else {
                before
            },
            _ => before,
        }
    }
}

/// The iterations that a log's settled children have finished.
pub open spec fn children_settled(events: Seq<event::EnvelopeView>) -> u32
    decreases events.len(),
{
    if events.len() == 0 {
        0
    } else {
        let before = children_settled(events.drop_last());
        match events.last().event {
            event::EventView::ChildRunFinished { child_run_id, state, iterations, usage } =>
                count_sum(before, iterations),
            _ => before,
        }
    }
}

/// Whether a log holds a resume command.
pub open spec fn is_resumed(events: Seq<event::EnvelopeView>) -> bool {
    exists|i: int| 0 <= i < events.len() && (#[trigger] events[i]).event is RunResumed
}

/// The next iteration and the settled children's iterations, rebuilt from a
/// replayed log. Only settled children are counted, which is sound because
/// every pause this kernel can reach comes after its batch was drained: a
/// cleanly paused log never holds a started child that has not finished.
pub fn resume_progress(events: &Vec<EventEnvelope>) -> (r: Result<(u32, u32), KernelError>)
    ensures
        match r {
            Ok(counts) => {
                &&& is_resumed(event::envelope_views(events@))
                &&& counts.0 == guardrails::one_more(last_closed(event::envelope_views(events@)))
                &&& counts.1 == children_settled(event::envelope_views(events@))
            },
            Err(error) => {
                &&& !is_resumed(event::envelope_views(events@))
                &&& error matches KernelError::Resume(detail)
                &&& detail@ == "fanout replay has no resume command"@
            },
        },
{
    let ghost all = event::envelope_views(events@);
    let mut resumed: bool = false;
    let mut closed: u32 = 0;
    let mut children: u32 = 0;
    assert(all.take(0) =~= Seq::empty());
    for i in 0..events.len()
        invariant
            all == event::envelope_views(events@),
            resumed == is_resumed(all.take(i as int)),
            closed == last_closed(all.take(i as int)),
            children == children_settled(all.take(i as int)),
    {
        let ghost longer = all.take(i + 1);
        assert(longer.drop_last() =~= all.take(i as int));
        assert(longer.last() == events@[i as int]@);
        let ghost before = resumed;
        match &events[i].event {
            RunEvent::IterationFinished { iteration, .. } => {
                if *iteration > closed {
                    closed = *iteration;
                }
            },
            RunEvent::ChildRunFinished { iterations, .. } => {
                children = children.saturating_add(*iterations);
            },
            RunEvent::RunResumed { .. } => {
                resumed = true;
            },
            _ => {},
        }
        proof {
            if events@[i as int]@.event is RunResumed {
                assert(longer[i as int].event is RunResumed);
            } else if before {
                let j = choose|j: int|
                    0 <= j < i && (#[trigger] all.take(i as int)[j]).event is RunResumed;
                assert(longer[j].event is RunResumed);
            } else if is_resumed(longer) {
                let j = choose|j: int|
                    0 <= j < longer.len() && (#[trigger] longer[j]).event is RunResumed;
                assert(all.take(i as int)[j].event is RunResumed);
            }
        }
    }
    assert(all.take(events@.len() as int) =~= all);
    if !resumed {
        return Err(KernelError::Resume("fanout replay has no resume command".to_owned()));
    }
    Ok((closed.saturating_add(1), children))
}

impl FanoutProgress {
    /// Whether a decision sets out to end the run.
    pub open spec fn concludes(
        self,
        ctx: KernelContext,
        ending: ending::EndingView,
        decision: FanoutDecision,
    ) -> bool {
        &&& decision matches Turn::Act(next, effect)
        &&& next.progress == self
        &&& next.phase matches FanoutPhase::Ending(conclusion)
        &&& conclusion.ending@ == ending
        &&& conclusion.phase == if ending is Paused {
            ConclusionPhase::Saving
        } else {
            ConclusionPhase::Announcing
        }
        &&& ending::asks(ctx, conclusion.ending, conclusion.phase, effect)
    }

    /// Whether a decision pauses the run over what the iteration came to.
    pub open spec fn parks(
        self,
        ctx: KernelContext,
        reason: PauseReason,
        summary: Seq<char>,
        decision: FanoutDecision,
    ) -> bool {
        self.concludes(
            ctx,
            ending::EndingView::Paused {
                iteration: self.iteration,
                reason,
                summary: Some(summary),
            },
            decision,
        )
    }

    /// Whether a decision sets out to pause the run over a budget.
    pub open spec fn pauses(
        self,
        iteration: u32,
        budget: BudgetKind,
        summary: Option<Seq<char>>,
        decision: FanoutDecision,
    ) -> bool {
        &&& decision matches Turn::Act(next, effect)
        &&& next.progress == self
        &&& next.phase matches FanoutPhase::Ending(conclusion)
        &&& conclusion.ending@ == (ending::EndingView::Paused {
            iteration,
            reason: PauseReason::Budget,
            summary,
        })
        &&& conclusion.phase == ConclusionPhase::Budgeting
        &&& kernel::emits(effect, event::EventView::BudgetExhausted { budget })
    }

    /// Whether a decision logs how the iteration ended and goes on with
    /// `phase`.
    pub open spec fn closes(
        self,
        outcome: IterationOutcome,
        phase: FanoutPhase,
        decision: FanoutDecision,
    ) -> bool {
        &&& decision matches Turn::Act(next, effect)
        &&& next == (FanoutRun { progress: self, phase })
        &&& kernel::emits(
            effect,
            event::EventView::IterationFinished { iteration: self.iteration, outcome },
        )
    }

    /// The first cap the run has outgrown.
    pub open spec fn outgrown(self, ctx: KernelContext, now: Duration) -> Option<BudgetKind> {
        budget::first_exhausted(
            ctx.budgets,
            self.children,
            self.usage.active_at(now),
            self.usage.spent(),
        )
    }

    /// Whether a decision is the one at the top of the loop: an outgrown
    /// budget pauses the run, and otherwise the iteration is announced.
    pub open spec fn tops(
        self,
        ctx: KernelContext,
        now: Duration,
        feedback: Seq<Seq<char>>,
        decision: FanoutDecision,
    ) -> bool {
        match self.outgrown(ctx, now) {
            Some(budget) => self.pauses(guardrails::one_less(self.iteration), budget, None, decision),
            None => {
                &&& decision matches Turn::Act(next, effect)
                &&& next.progress == self
                &&& next.phase matches FanoutPhase::Opening { feedback: carried }
                &&& text::texts(carried@) == feedback
                &&& kernel::emits(
                    effect,
                    event::EventView::IterationStarted { iteration: self.iteration },
                )
            },
        }
    }

    /// The same progress at the next iteration.
    pub open spec fn next(self) -> FanoutProgress {
        FanoutProgress { iteration: guardrails::one_more(self.iteration), ..self }
    }

    /// Whether a decision is what the loop makes of a plan that reported: a
    /// claim that cleared its checks goes to the skeptic, a pausing status
    /// pauses, and ready units are launched.
    pub open spec fn planned(
        self,
        ctx: KernelContext,
        deadline: Option<Duration>,
        planned: Planned,
        decision: FanoutDecision,
    ) -> bool {
        let report = planned.report;
        match report::disposed(report.status) {
            Disposition::Claimed => if planned.verify is Failed {
                self.parks(ctx, PauseReason::VerifyFailed, report.summary@, decision)
            } else {
                &&& decision matches Turn::Act(next, effect)
                &&& effect is PollCancel
                &&& next == (FanoutRun {
                    progress: self,
                    phase: FanoutPhase::Judging {
                        brief: ClaimBrief { iteration: self.iteration, claim: report },
                        bracket: Bracket {
                            deadline,
                            phase: BracketPhase::Polling(JudgeWork::Ready),
                        },
                    },
                })
            },
            Disposition::Pause(reason) => self.parks(ctx, reason, report.summary@, decision),
            Disposition::Advance => {
                &&& decision matches Turn::Act(next, effect)
                &&& next.progress == self
                &&& next.phase matches FanoutPhase::Batching { summary, batch }
                &&& summary == report.summary
                &&& batch::launches(report.units@, Seq::empty(), batch, effect)
            },
        }
    }

    /// Whether a decision is what the loop makes of a turn of its plan.
    pub open spec fn plans(
        self,
        ctx: KernelContext,
        brief: PlanBrief,
        deadline: Option<Duration>,
        inner: Turn<Bracket<PlanWork>, Result<Bracketed<Option<Planned>>, KernelError>>,
        decision: FanoutDecision,
    ) -> bool {
        match inner {
            Turn::Act(bracket, effect) => decision == FanoutDecision::Act(
                FanoutRun {
                    progress: self,
                    phase: FanoutPhase::Planning { brief, deadline, bracket },
                },
                effect,
            ),
            Turn::End(Err(error)) => decision == FanoutDecision::End(Err(error)),
            Turn::End(Ok(Bracketed::Cancelled)) => self.concludes(
                ctx,
                ending::EndingView::Cancelled,
                decision,
            ),
            Turn::End(Ok(Bracketed::TimedOut)) => self.closes(
                IterationOutcome::TimedOut,
                FanoutPhase::Expiring,
                decision,
            ),
            Turn::End(Ok(Bracketed::Finished(None))) => self.closes(
                IterationOutcome::Failed,
                FanoutPhase::Failing,
                decision,
            ),
            Turn::End(Ok(Bracketed::Finished(Some(planned)))) => self.planned(
                ctx,
                deadline,
                planned,
                decision,
            ),
        }
    }

    /// Whether a decision is what the loop makes of a turn of its skeptic.
    pub open spec fn judged(
        self,
        ctx: KernelContext,
        brief: ClaimBrief,
        inner: Turn<Bracket<JudgeWork>, Result<Bracketed<SkepticEnd>, KernelError>>,
        decision: FanoutDecision,
    ) -> bool {
        match inner {
            Turn::Act(bracket, effect) => decision == FanoutDecision::Act(
                FanoutRun { progress: self, phase: FanoutPhase::Judging { brief, bracket } },
                effect,
            ),
            Turn::End(Err(error)) => decision == FanoutDecision::End(Err(error)),
            Turn::End(Ok(Bracketed::Cancelled)) => self.concludes(
                ctx,
                ending::EndingView::Cancelled,
                decision,
            ),
            Turn::End(Ok(Bracketed::TimedOut)) => self.parks(
                ctx,
                PauseReason::Timeout,
                "fanout skeptic timed out"@,
                decision,
            ),
            Turn::End(Ok(Bracketed::Finished(SkepticEnd::Unrefuted))) => self.concludes(
                ctx,
                ending::EndingView::Done,
                decision,
            ),
            Turn::End(Ok(Bracketed::Finished(SkepticEnd::Failed))) => self.closes(
                IterationOutcome::Failed,
                FanoutPhase::Failing,
                decision,
            ),
            Turn::End(Ok(Bracketed::Finished(SkepticEnd::Refuted(findings)))) => self.closes(
                IterationOutcome::Completed,
                FanoutPhase::Refuting { findings },
                decision,
            ),
        }
    }

    /// Whether a decision is what the loop makes of a turn of its batch.
    pub open spec fn batched(
        self,
        summary: String,
        inner: BatchTurn,
        decision: FanoutDecision,
    ) -> bool {
        match inner {
            Turn::Act(batch, effect) => decision == FanoutDecision::Act(
                FanoutRun { progress: self, phase: FanoutPhase::Batching { summary, batch } },
                effect,
            ),
            Turn::End(Err(error)) => decision == FanoutDecision::End(Err(error)),
            Turn::End(Ok(children)) => self.closes(
                IterationOutcome::Completed,
                FanoutPhase::Closing { summary, children },
                decision,
            ),
        }
    }

    /// Whether a decision is the one after an iteration whose batch settled:
    /// budgets are asked with its children counted, and the next iteration
    /// follows.
    pub open spec fn settles(
        self,
        ctx: KernelContext,
        now: Duration,
        summary: Seq<char>,
        children: u32,
        decision: FanoutDecision,
    ) -> bool {
        let after = FanoutProgress { children: count_sum(self.children, children), ..self };
        match after.outgrown(ctx, now) {
            Some(budget) => after.pauses(self.iteration, budget, Some(summary), decision),
            None => after.next().tops(ctx, now, Seq::empty(), decision),
        }
    }

    /// Sets out to end the run.
    fn conclude(self, ctx: &KernelContext, ending: Ending) -> (decision: FanoutDecision)
        ensures
            self.concludes(*ctx, ending@, decision),
    {
        let (conclusion, effect) = ending::conclude(ctx, ending);
        Turn::Act(FanoutRun { progress: self, phase: FanoutPhase::Ending(conclusion) }, effect)
    }

    /// Pauses the run over what the iteration came to.
    fn park(self, ctx: &KernelContext, reason: PauseReason, summary: String) -> (decision:
        FanoutDecision)
        ensures
            self.parks(*ctx, reason, summary@, decision),
    {
        let iteration: u32 = self.iteration;
        self.conclude(ctx, Ending::Paused { iteration, reason, summary: Some(summary) })
    }

    /// Sets out to pause the run over a budget.
    fn pause(self, iteration: u32, budget: BudgetKind, summary: Option<String>) -> (decision:
        FanoutDecision)
        ensures
            self.pauses(iteration, budget, crate::wire::opt_text(summary), decision),
    {
        let (conclusion, effect) = ending::pause_for_budget(iteration, budget, summary);
        Turn::Act(FanoutRun { progress: self, phase: FanoutPhase::Ending(conclusion) }, effect)
    }

    /// Logs how the iteration ended.
    fn close(self, outcome: IterationOutcome, phase: FanoutPhase) -> (decision: FanoutDecision)
        ensures
            self.closes(outcome, phase, decision),
    {
        let iteration: u32 = self.iteration;
        Turn::Act(
            FanoutRun { progress: self, phase },
            Effect::Emit(RunEvent::IterationFinished { iteration, outcome }),
        )
    }

    /// Decides at the top of the loop.
    fn top(self, ctx: &KernelContext, now: Duration, feedback: Vec<String>) -> (decision:
        FanoutDecision)
        ensures
            self.tops(*ctx, now, text::texts(feedback@), decision),
    {
        let iteration: u32 = self.iteration;
        match ctx.budgets.exhausted(&self.usage, now, self.children) {
            Some(budget) => self.pause(iteration.saturating_sub(1), budget, None),
            None => Turn::Act(
                FanoutRun { progress: self, phase: FanoutPhase::Opening { feedback } },
                Effect::Emit(RunEvent::IterationStarted { iteration }),
            ),
        }
    }

    /// Makes of a plan that reported what the loop makes of it.
    fn plan_on(self, ctx: &KernelContext, deadline: Option<Duration>, planned: Planned) -> (decision:
        FanoutDecision)
        ensures
            self.planned(*ctx, deadline, planned, decision),
    {
        let Planned { report, verify } = planned;
        match report::disposition(report.status) {
            Disposition::Claimed => match verify {
                VerifyOutcome::Failed { .. } => self.park(
                    ctx,
                    PauseReason::VerifyFailed,
                    report.summary,
                ),
                _ => {
                    let brief = ClaimBrief { iteration: self.iteration, claim: report };
                    let (bracket, effect) = bracket::in_fresh_sandbox(JudgeWork::Ready, deadline);
                    Turn::Act(
                        FanoutRun {
                            progress: self,
                            phase: FanoutPhase::Judging { brief, bracket },
                        },
                        effect,
                    )
                },
            },
            Disposition::Pause(reason) => self.park(ctx, reason, report.summary),
            Disposition::Advance => {
                let (batch, effect) = batch::spawn_batch(report.units);
                Turn::Act(
                    FanoutRun {
                        progress: self,
                        phase: FanoutPhase::Batching { summary: report.summary, batch },
                    },
                    effect,
                )
            },
        }
    }

    /// Decides after an iteration whose batch settled.
    fn settle(self, ctx: &KernelContext, now: Duration, summary: String, children: u32) -> (decision:
        FanoutDecision)
        ensures
            self.settles(*ctx, now, summary@, children, decision),
    {
        let mut after = self;
        let iteration: u32 = after.iteration;
        after.children = after.children.saturating_add(children);
        if let Some(budget) = ctx.budgets.exhausted(&after.usage, now, after.children) {
            return after.pause(iteration, budget, Some(summary));
        }
        let none: Vec<String> = Vec::new();
        assert(text::texts(none@) =~= Seq::empty());
        after.go_on(ctx, now, none)
    }

    /// Goes on with the next iteration.
    fn go_on(self, ctx: &KernelContext, now: Duration, feedback: Vec<String>) -> (decision:
        FanoutDecision)
        ensures
            self.next().tops(*ctx, now, text::texts(feedback@), decision),
    {
        let mut after = self;
        after.iteration = after.iteration.saturating_add(1);
        after.top(ctx, now, feedback)
    }
}

impl FanoutRun {
    /// Whether a decision is the one after `reply`, at the reading `now`.
    pub open spec fn decides(
        self,
        ctx: KernelContext,
        now: Duration,
        reply: Reply,
        decision: FanoutDecision,
    ) -> bool {
        match self.phase {
            FanoutPhase::Planning { brief, deadline, bracket } => exists|
                inner: Turn<Bracket<PlanWork>, Result<Bracketed<Option<Planned>>, KernelError>>,
            | #[trigger]
                bracket.steps(ctx, brief, reply, inner) && self.progress.plans(
                    ctx,
                    brief,
                    deadline,
                    inner,
                    decision,
                ),
            FanoutPhase::Judging { brief, bracket } => exists|
                inner: Turn<Bracket<JudgeWork>, Result<Bracketed<SkepticEnd>, KernelError>>,
            | #[trigger]
                bracket.steps(ctx, brief, reply, inner) && self.progress.judged(
                    ctx,
                    brief,
                    inner,
                    decision,
                ),
            FanoutPhase::Batching { summary, batch } => exists|
                inner: BatchTurn,
                usage: BudgetUsage,
            |
                #![trigger batch.steps(reply, inner), batch.bills(self.progress.usage, reply, usage)]
                batch.steps(reply, inner) && batch.bills(self.progress.usage, reply, usage) && (
                FanoutProgress { usage, ..self.progress }).batched(summary, inner, decision),
            FanoutPhase::Ending(conclusion) => exists|
                inner: Turn<Conclusion, Result<RunOutcome, KernelError>>,
            | #[trigger]
                conclusion.steps(ctx, reply, inner) && match inner {
                    Turn::Act(conclusion, effect) => decision == FanoutDecision::Act(
                        FanoutRun { phase: FanoutPhase::Ending(conclusion), ..self },
                        effect,
                    ),
                    Turn::End(result) => decision == FanoutDecision::End(result),
                },
            _ => if reply is Failed {
                decision == FanoutDecision::End(Err(reply->Failed_0))
            } else {
                match self.phase {
                    FanoutPhase::Starting => self.progress.tops(ctx, now, Seq::empty(), decision),
                    FanoutPhase::Opening { feedback } => {
                        &&& decision matches Turn::Act(next, effect)
                        &&& effect is PollCancel
                        &&& next.progress == self.progress
                        &&& next.phase matches FanoutPhase::Planning { brief, deadline, bracket }
                        &&& brief == (PlanBrief { iteration: self.progress.iteration, feedback })
                        &&& accounts::falls_due(now, ctx.budgets.iteration_timeout, deadline)
                        &&& bracket == (Bracket {
                            deadline,
                            phase: BracketPhase::Polling(PlanWork::Ready),
                        })
                    },
                    FanoutPhase::Closing { summary, children } => self.progress.settles(
                        ctx,
                        now,
                        summary@,
                        children,
                        decision,
                    ),
                    FanoutPhase::Refuting { findings } => self.progress.next().tops(
                        ctx,
                        now,
                        text::texts(findings@),
                        decision,
                    ),
                    FanoutPhase::Failing => self.progress.concludes(
                        ctx,
                        ending::EndingView::Failed,
                        decision,
                    ),
                    FanoutPhase::Expiring => self.progress.parks(
                        ctx,
                        PauseReason::Timeout,
                        "fanout plan timed out"@,
                        decision,
                    ),
                    _ => false,
                }
            },
        }
    }

    /// Decides after a reply. The books come back as the reply left them.
    fn decide(self, ctx: &KernelContext, now: Duration, reply: Reply) -> (r: (
        FanoutDecision,
        BudgetUsage,
    ))
        ensures
            self.decides(*ctx, now, reply, r.0),
            self.carries(reply, r.1),
            r.0 matches Turn::Act(next, _) ==> next.progress.usage == r.1,
    {
        let FanoutRun { progress, phase } = self;
        match (phase, reply) {
            (FanoutPhase::Batching { summary, batch }, reply) => {
                let FanoutProgress { iteration, children, usage } = progress;
                let (inner, usage) = batch.step(usage, reply);
                let kept = usage.copy();
                let progress = FanoutProgress { iteration, children, usage };
                let decision: FanoutDecision = match inner {
                    Turn::Act(batch, effect) => Turn::Act(
                        FanoutRun { progress, phase: FanoutPhase::Batching { summary, batch } },
                        effect,
                    ),
                    Turn::End(Err(error)) => Turn::End(Err(error)),
                    Turn::End(Ok(children)) => progress.close(
                        IterationOutcome::Completed,
                        FanoutPhase::Closing { summary, children },
                    ),
                };
                (decision, kept)
            },
            (phase, reply) => {
                let kept = progress.usage.copy();
                (FanoutRun { progress, phase }.decide_alone(ctx, now, reply), kept)
            },
        }
    }

    /// Whether `usage` are the run's books once a reply has come.
    pub open spec fn carries(self, reply: Reply, usage: BudgetUsage) -> bool {
        match self.phase {
            FanoutPhase::Batching { summary, batch } => batch.bills(
                self.progress.usage,
                reply,
                usage,
            ),
            _ => usage == self.progress.usage,
        }
    }

    /// Decides after a reply that leaves the books alone.
    fn decide_alone(self, ctx: &KernelContext, now: Duration, reply: Reply) -> (decision:
        FanoutDecision)
        requires
            !(self.phase is Batching),
        ensures
            self.decides(*ctx, now, reply, decision),
            decision matches Turn::Act(next, _) ==> next.progress.usage == self.progress.usage,
    {
        let FanoutRun { progress, phase } = self;
        match (phase, reply) {
            (FanoutPhase::Batching { .. }, _) => Turn::End(Err(KernelError::OutOfStep)),
            (FanoutPhase::Planning { brief, deadline, bracket }, reply) => {
                match bracket.step(ctx, &brief, reply) {
                    Turn::Act(bracket, effect) => Turn::Act(
                        FanoutRun {
                            progress,
                            phase: FanoutPhase::Planning { brief, deadline, bracket },
                        },
                        effect,
                    ),
                    Turn::End(Err(error)) => Turn::End(Err(error)),
                    Turn::End(Ok(Bracketed::Cancelled)) => progress.conclude(
                        ctx,
                        Ending::Cancelled,
                    ),
                    Turn::End(Ok(Bracketed::TimedOut)) => progress.close(
                        IterationOutcome::TimedOut,
                        FanoutPhase::Expiring,
                    ),
                    Turn::End(Ok(Bracketed::Finished(None))) => progress.close(
                        IterationOutcome::Failed,
                        FanoutPhase::Failing,
                    ),
                    Turn::End(Ok(Bracketed::Finished(Some(planned)))) => progress.plan_on(
                        ctx,
                        deadline,
                        planned,
                    ),
                }
            },
            (FanoutPhase::Judging { brief, bracket }, reply) => {
                match bracket.step(ctx, &brief, reply) {
                    Turn::Act(bracket, effect) => Turn::Act(
                        FanoutRun { progress, phase: FanoutPhase::Judging { brief, bracket } },
                        effect,
                    ),
                    Turn::End(Err(error)) => Turn::End(Err(error)),
                    Turn::End(Ok(Bracketed::Cancelled)) => progress.conclude(
                        ctx,
                        Ending::Cancelled,
                    ),
                    Turn::End(Ok(Bracketed::TimedOut)) => progress.park(
                        ctx,
                        PauseReason::Timeout,
                        "fanout skeptic timed out".to_owned(),
                    ),
                    Turn::End(Ok(Bracketed::Finished(SkepticEnd::Unrefuted))) => progress.conclude(
                        ctx,
                        Ending::Done,
                    ),
                    Turn::End(Ok(Bracketed::Finished(SkepticEnd::Failed))) => progress.close(
                        IterationOutcome::Failed,
                        FanoutPhase::Failing,
                    ),
                    Turn::End(Ok(Bracketed::Finished(SkepticEnd::Refuted(findings)))) => {
                        progress.close(
                            IterationOutcome::Completed,
                            FanoutPhase::Refuting { findings },
                        )
                    },
                }
            },
            (FanoutPhase::Ending(conclusion), reply) => match conclusion.step(ctx, reply) {
                Turn::Act(conclusion, effect) => Turn::Act(
                    FanoutRun { progress, phase: FanoutPhase::Ending(conclusion) },
                    effect,
                ),
                Turn::End(result) => Turn::End(result),
            },
            (_, Reply::Failed(error)) => Turn::End(Err(error)),
            (FanoutPhase::Starting, _) => {
                let none: Vec<String> = Vec::new();
                assert(text::texts(none@) =~= Seq::empty());
                progress.top(ctx, now, none)
            },
            (FanoutPhase::Opening { feedback }, _) => {
                let deadline = accounts::due(now, ctx.budgets.iteration_timeout);
                let brief = PlanBrief { iteration: progress.iteration, feedback };
                let (bracket, effect) = bracket::in_fresh_sandbox(PlanWork::Ready, deadline);
                Turn::Act(
                    FanoutRun {
                        progress,
                        phase: FanoutPhase::Planning { brief, deadline, bracket },
                    },
                    effect,
                )
            },
            (FanoutPhase::Closing { summary, children }, _) => progress.settle(
                ctx,
                now,
                summary,
                children,
            ),
            (FanoutPhase::Refuting { findings }, _) => progress.go_on(ctx, now, findings),
            (FanoutPhase::Failing, _) => progress.conclude(ctx, Ending::Failed),
            (FanoutPhase::Expiring, _) => progress.park(
                ctx,
                PauseReason::Timeout,
                "fanout plan timed out".to_owned(),
            ),
        }
    }

    /// Whether `turn` is a decision with the books kept: a logged bill is
    /// counted, and a run that ends closes its books.
    pub open spec fn accounts(
        usage: BudgetUsage,
        now: Duration,
        decision: FanoutDecision,
        turn: FanoutTurn,
    ) -> bool {
        match decision {
            Turn::Act(next, effect) => {
                &&& turn matches Turn::Act(kept, asked)
                &&& asked == effect
                &&& kept == (FanoutRun {
                    progress: FanoutProgress { usage: kept.progress.usage, ..next.progress },
                    ..next
                })
                &&& accounts::tallied(next.progress.usage, effect, kept.progress.usage)
            },
            Turn::End(result) => {
                &&& turn matches Turn::End((given, closed))
                &&& given == result
                &&& accounts::closed(usage, now, closed)
            },
        }
    }

    /// Whether `turn` is where the run stands after `reply`, at the reading
    /// `now`.
    pub open spec fn steps(
        self,
        ctx: KernelContext,
        now: Duration,
        reply: Reply,
        turn: FanoutTurn,
    ) -> bool {
        exists|decision: FanoutDecision, usage: BudgetUsage|
            #![trigger self.decides(ctx, now, reply, decision), self.carries(reply, usage)]
            self.decides(ctx, now, reply, decision) && self.carries(reply, usage)
                && FanoutRun::accounts(usage, now, decision, turn)
    }

    /// Keeps the books on a decision.
    fn account(usage: BudgetUsage, now: Duration, decision: FanoutDecision) -> (turn: FanoutTurn)
        ensures
            FanoutRun::accounts(usage, now, decision, turn),
    {
        match decision {
            Turn::Act(next, effect) => {
                let FanoutRun { progress, phase } = next;
                let FanoutProgress { iteration, children, usage } = progress;
                let usage = accounts::tally(usage, &effect);
                Turn::Act(
                    FanoutRun { progress: FanoutProgress { iteration, children, usage }, phase },
                    effect,
                )
            },
            Turn::End(result) => Turn::End((result, accounts::close(usage, now))),
        }
    }

    /// Takes the run one reply further, at the reading `now` of the host's
    /// clock.
    pub fn step(self, ctx: &KernelContext, now: Duration, reply: Reply) -> (turn: FanoutTurn)
        ensures
            self.steps(*ctx, now, reply, turn),
    {
        let (decision, usage) = self.decide(ctx, now, reply);
        FanoutRun::account(usage, now, decision)
    }
}

/// The fanout kernel. Stateless: everything a run needs arrives in its
/// context.
#[derive(Debug, Clone, Copy, PartialEq, Eq)]
pub struct FanoutKernel;

/// Whether a decision is how a run begins: a replayed log gives the counts to
/// go on from, and a run without one is announced.
pub open spec fn begins(
    ctx: KernelContext,
    now: Duration,
    usage: BudgetUsage,
    decision: FanoutDecision,
) -> bool {
    match ctx.replay {
        Some(events) => {
            let told = event::envelope_views(events@);
            if !is_resumed(told) {
                decision matches Turn::End(Err(KernelError::Resume(detail))) && detail@
                    == "fanout replay has no resume command"@
            } else {
                (FanoutProgress {
                    iteration: guardrails::one_more(last_closed(told)),
                    children: children_settled(told),
                    usage,
                }).tops(ctx, now, Seq::empty(), decision)
            }
        },
        None => {
            &&& decision matches Turn::Act(next, effect)
            &&& kernel::emits(
                effect,
                event::EventView::RunStarted {
                    kernel: KernelName::Fanout.word(),
                    agent: ctx.agent.known_as(),
                },
            )
            &&& next == (FanoutRun {
                progress: FanoutProgress { iteration: 1, children: 0, usage },
                phase: FanoutPhase::Starting,
            })
        },
    }
}

/// Whether `turn` is how a run is launched at the reading `now`: its books
/// are opened, and it begins.
pub open spec fn launches(
    ctx: KernelContext,
    usage: BudgetUsage,
    now: Duration,
    turn: FanoutTurn,
) -> bool {
    exists|opened: BudgetUsage, decision: FanoutDecision|
        accounts::opened(usage, now, opened) && #[trigger] begins(ctx, now, opened, decision)
            && FanoutRun::accounts(opened, now, decision, turn)
}

impl FanoutKernel {
    /// Begins a run, or takes it up again where the context carries its log.
    /// Time runs from the reading `now`.
    pub fn run(&self, ctx: &KernelContext, usage: BudgetUsage, now: Duration) -> (turn: FanoutTurn)
        ensures
            launches(*ctx, usage, now, turn),
    {
        let usage = accounts::open(usage, now);
        let kept = usage.copy();
        let decision: FanoutDecision = match &ctx.replay {
            Some(events) => match resume_progress(events) {
                Ok((iteration, children)) => {
                    let none: Vec<String> = Vec::new();
                    assert(text::texts(none@) =~= Seq::empty());
                    FanoutProgress { iteration, children, usage }.top(ctx, now, none)
                },
                Err(error) => Turn::End(Err(error)),
            },
            None => Turn::Act(
                FanoutRun {
                    progress: FanoutProgress { iteration: 1, children: 0, usage },
                    phase: FanoutPhase::Starting,
                },
                Effect::Emit(
                    RunEvent::RunStarted {
                        kernel: KernelName::Fanout.as_str().to_owned(),
                        agent: ctx.agent.name().to_owned(),
                    },
                ),
            ),
        };
        assert(begins(*ctx, now, kept, decision));
        FanoutRun::account(kept, now, decision)
    }
}

/// A planning iteration opens only while every budget still has room, the
/// settled children's iterations counted.
pub proof fn a_plan_opens_only_within_budget(
    before: FanoutRun,
    ctx: KernelContext,
    now: Duration,
    reply: Reply,
    next: FanoutRun,
    effect: Effect,
)
    requires
        before.steps(ctx, now, reply, Turn::Act(next, effect)),
        next.phase is Opening,
    ensures
        kernel::emits(
            effect,
            event::EventView::IterationStarted { iteration: next.progress.iteration },
        ),
        next.progress.outgrown(ctx, now) is None,
{
}

/// Whether a run has a live sandbox at work.
pub open spec fn live(run: FanoutRun) -> bool {
    match run.phase {
        FanoutPhase::Planning { brief, deadline, bracket } => bracket.at_work(),
        FanoutPhase::Judging { brief, bracket } => bracket.at_work(),
        _ => false,
    }
}

/// A fanout never drops a live sandbox: while one is at work, the run goes on
/// with it or destroys it, whatever the host answers, and never ends.
pub proof fn a_fanout_never_drops_a_live_sandbox(
    before: FanoutRun,
    ctx: KernelContext,
    now: Duration,
    reply: Reply,
    turn: FanoutTurn,
)
    requires
        live(before),
        before.steps(ctx, now, reply, turn),
    ensures
        turn is Act,
        live(turn->Act_0) || turn->Act_1 is Destroy,
{
    match before.phase {
        FanoutPhase::Planning { brief, deadline, bracket } => {
            assert forall|
                inner: Turn<Bracket<PlanWork>, Result<Bracketed<Option<Planned>>, KernelError>>,
            | #[trigger] bracket.steps(ctx, brief, reply, inner) implies inner is Act && (
            inner->Act_0.at_work() || inner->Act_1 is Destroy) by {
                bracket::lemma_at_work(bracket, ctx, brief, reply, inner);
            }
        },
        FanoutPhase::Judging { brief, bracket } => {
            assert forall|
                inner: Turn<Bracket<JudgeWork>, Result<Bracketed<SkepticEnd>, KernelError>>,
            | #[trigger] bracket.steps(ctx, brief, reply, inner) implies inner is Act && (
            inner->Act_0.at_work() || inner->Act_1 is Destroy) by {
                bracket::lemma_at_work(bracket, ctx, brief, reply, inner);
            }
        },
        _ => {},
    }
}

/// A fanout sets out to end as done only on a claim whose skeptic came back
/// unrefuted.
pub proof fn a_fanout_is_done_only_unrefuted(
    before: FanoutRun,
    ctx: KernelContext,
    now: Duration,
    reply: Reply,
    next: FanoutRun,
    effect: Effect,
)
    requires
        before.steps(ctx, now, reply, Turn::Act(next, effect)),
        !(before.phase is Ending),
        next.phase matches FanoutPhase::Ending(conclusion) && conclusion.ending is Done,
    ensures
        before.phase matches FanoutPhase::Judging { brief, bracket } && (bracket.phase
            matches BracketPhase::Destroying(Ok(Bracketed::Finished(SkepticEnd::Unrefuted)))),
{
}

} // verus!
