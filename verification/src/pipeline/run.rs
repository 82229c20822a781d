//! The pipeline kernel's run loop. Done, pause, and cancel stop
//! mid-pipeline, so nothing closes a pass that never finished; only a full
//! pass, a hard failure, or a timeout closes its iteration on the log.

use crate::accounts;
use crate::agent::AgentAdapter;
use crate::budget::{self, BudgetKind, BudgetUsage, Duration};
use crate::ending::{self, Conclusion, ConclusionPhase, Ending};
use crate::event::{self, IterationOutcome, RunEvent};
use crate::flow::{FailAction, KernelName};
use crate::kernel::{self, Effect, KernelContext, KernelError, Reply, Turn};
use crate::pipeline::contract::{self, Stage};
use crate::pipeline::guardrails::{self, Guardrails};
use crate::pipeline::pass::{self, Entry, IterationEnd, Pass, PassTurn};
use crate::pipeline::resume::{self, Position, ResumePoint};
use crate::pipeline::stage;
use crate::preamble::{self, Feedback};
use crate::run::{PauseReason, RunOutcome};
use crate::text;
use crate::wire;
use vstd::prelude::*;

verus! {

/// What the loop keeps from iteration to iteration.
pub struct Progress {
    pub iteration: u32,
    /// The summary of the latest report that still counts.
    pub summary: Option<String>,
    /// The commit that drift is measured against. Sampled at the loop
    /// boundary rather than threaded up from the stages: any new commit, the
    /// engine's checkpoint or one the agent made itself, is durable progress.
    pub head: String,
    pub rails: Guardrails,
    pub usage: BudgetUsage,
}

/// What the loop waits for.
pub enum PipelinePhase {
    /// The run's start is being logged.
    Starting,
    /// The commit the run starts from is being read.
    Rooting(Entry),
    /// The iteration's start is being logged.
    Opening(Entry, Vec<Feedback>),
    /// The iteration runs.
    Passing(Pass),
    /// The end of a completed pass is being logged.
    Closing { summary: Option<String>, feedback: Vec<Feedback> },
    /// The commit a completed pass left is being read.
    Sampling { summary: Option<String>, feedback: Vec<Feedback> },
    /// The end of a failed pass is being logged.
    Failing,
    /// The end of a timed-out pass is being logged.
    Expiring,
    /// The run ends.
    Ending(Conclusion),
}

/// A run of the pipeline kernel.
pub struct PipelineRun {
    pub progress: Progress,
    pub phase: PipelinePhase,
}

/// What the loop decides after a reply.
pub type Decision = Turn<PipelineRun, Result<RunOutcome, KernelError>>;

/// Where a run stands after a reply; a run that has ended gives its books
/// back.
pub type PipelineTurn = Turn<PipelineRun, (Result<RunOutcome, KernelError>, BudgetUsage)>;

/// The words for an iteration that ran past its hard cap.
pub open spec fn timeout_summary(iteration: u32, timeout: Duration) -> Seq<char> {
    "iteration "@ + text::decimal(iteration as nat) + " timed out after "@ + text::decimal(
        timeout.length() / (budget::NANOS_PER_SEC as nat),
    ) + " seconds"@
}

/// [`timeout_summary`], computed.
fn timed_out_words(iteration: u32, timeout: Duration) -> (s: String)
    ensures
        s@ == timeout_summary(iteration, timeout),
{
    let mut s = "iteration ".to_owned();
    let number = text::decimal_of(iteration as u64);
    s.append(number.as_str());
    s.append(" timed out after ");
    let secs = text::decimal_of(timeout.as_secs());
    s.append(secs.as_str());
    s.append(" seconds");
    s
}

impl Progress {
    /// Whether a decision sets out to end the run.
    pub open spec fn concludes(
        self,
        ctx: KernelContext,
        ending: ending::EndingView,
        decision: Decision,
    ) -> bool {
        &&& decision matches Turn::Act(next, effect)
        &&& next.progress == self
        &&& next.phase matches PipelinePhase::Ending(conclusion)
        &&& conclusion.ending@ == ending
        &&& conclusion.phase == if ending is Paused {
            ConclusionPhase::Saving
        } else {
            ConclusionPhase::Announcing
        }
        &&& ending::asks(ctx, conclusion.ending, conclusion.phase, effect)
    }

    /// Whether a decision sets out to pause the run over a budget.
    pub open spec fn pauses(self, iteration: u32, budget: BudgetKind, decision: Decision) -> bool {
        &&& decision matches Turn::Act(next, effect)
        &&& next.progress == self
        &&& next.phase matches PipelinePhase::Ending(conclusion)
        &&& conclusion.ending@ == (ending::EndingView::Paused {
            iteration,
            reason: PauseReason::Budget,
            summary: wire::opt_text(self.summary),
        })
        &&& conclusion.phase == ConclusionPhase::Budgeting
        &&& kernel::emits(effect, event::EventView::BudgetExhausted { budget })
    }

    /// Whether a decision logs how the iteration ended.
    pub open spec fn closes(self, outcome: IterationOutcome, decision: Decision) -> bool {
        &&& decision matches Turn::Act(next, effect)
        &&& kernel::emits(
            effect,
            event::EventView::IterationFinished { iteration: self.iteration, outcome },
        )
    }

    /// Whether a decision is what the loop makes of a turn of its iteration.
    pub open spec fn passed(self, ctx: KernelContext, inner: PassTurn, decision: Decision) -> bool {
        match inner {
            Turn::Act(pass, effect) => decision == Decision::Act(
                PipelineRun { progress: self, phase: PipelinePhase::Passing(pass) },
                effect,
            ),
            Turn::End(Err(error)) => decision == Decision::End(Err(error)),
            Turn::End(Ok(end)) => match end {
                IterationEnd::Continue { notification_summary, feedback } => {
                    &&& self.closes(IterationOutcome::Completed, decision)
                    &&& decision->Act_0 == (PipelineRun {
                        progress: self,
                        phase: PipelinePhase::Closing { summary: notification_summary, feedback },
                    })
                },
                IterationEnd::Done => self.concludes(ctx, ending::EndingView::Done, decision),
                IterationEnd::Pause { reason, summary } => self.concludes(
                    ctx,
                    ending::EndingView::Paused {
                        iteration: self.iteration,
                        reason,
                        summary: Some(summary@),
                    },
                    decision,
                ),
                IterationEnd::Fail => {
                    &&& self.closes(IterationOutcome::Failed, decision)
                    &&& decision->Act_0 == (PipelineRun {
                        progress: self,
                        phase: PipelinePhase::Failing,
                    })
                },
                IterationEnd::TimedOut { notification_summary } => {
                    // A pass that reported nothing leaves the summary alone:
                    // the log's latest eligible report is still the one held.
                    &&& self.closes(IterationOutcome::TimedOut, decision)
                    &&& decision->Act_0 == (PipelineRun {
                        progress: Progress {
                            summary: if notification_summary is Some {
                                notification_summary
                            } else {
                                self.summary
                            },
                            ..self
                        },
                        phase: PipelinePhase::Expiring,
                    })
                },
                IterationEnd::Cancelled => self.concludes(
                    ctx,
                    ending::EndingView::Cancelled,
                    decision,
                ),
            },
        }
    }

    /// Whether a decision begins the pass of an iteration, its deadline set
    /// from the reading `now`.
    pub open spec fn passes(
        self,
        ctx: KernelContext,
        now: Duration,
        entry: Entry,
        feedback: Seq<preamble::FeedbackView>,
        decision: Decision,
    ) -> bool {
        exists|inner: PassTurn, deadline: Option<Duration>|
            accounts::falls_due(now, ctx.budgets.iteration_timeout, deadline)
                && #[trigger] pass::opens(
                ctx,
                self.iteration,
                entry,
                feedback,
                deadline,
                inner,
            ) && self.passed(ctx, inner, decision)
    }

    /// The first cap the run has outgrown at the top of the loop.
    pub open spec fn outgrown(self, ctx: KernelContext, now: Duration, completed: u32) -> Option<
        BudgetKind,
    > {
        budget::first_exhausted(
            ctx.budgets,
            completed,
            self.usage.active_at(now),
            self.usage.spent(),
        )
    }

    /// Whether a decision is the one at the top of the loop: an outgrown
    /// budget pauses the run before anything boots, and an iteration that is
    /// a new one is announced. Work that such a pause parks belongs to the
    /// last iteration the log announced.
    pub open spec fn tops(
        self,
        ctx: KernelContext,
        now: Duration,
        entry: Entry,
        feedback: Seq<preamble::FeedbackView>,
        decision: Decision,
    ) -> bool {
        match self.outgrown(ctx, now, guardrails::one_less(self.iteration)) {
            Some(budget) => self.pauses(
                if entry.starts {
                    guardrails::one_less(self.iteration)
                } else {
                    self.iteration
                },
                budget,
                decision,
            ),
            None => if entry.starts {
                &&& decision matches Turn::Act(next, effect)
                &&& next.progress == self
                &&& next.phase matches PipelinePhase::Opening(given, carried)
                &&& given == entry
                &&& preamble::feedback_views(carried@) == feedback
                &&& kernel::emits(
                    effect,
                    event::EventView::IterationStarted { iteration: self.iteration },
                )
            } else {
                self.passes(ctx, now, entry, feedback, decision)
            },
        }
    }

    /// Whether a decision is the one after a completed pass that left the
    /// workspace at `head`: budgets are asked with the pass counted, then
    /// drift, and the next iteration follows.
    pub open spec fn samples(
        self,
        ctx: KernelContext,
        now: Duration,
        head: String,
        summary: Option<String>,
        feedback: Seq<preamble::FeedbackView>,
        decision: Decision,
    ) -> bool {
        let after = Progress {
            rails: self.rails.after_pass(head@ != self.head@),
            head,
            summary,
            ..self
        };
        match after.outgrown(ctx, now, self.iteration) {
            Some(budget) => after.pauses(self.iteration, budget, decision),
            None => if after.rails.no_commit_iterations >= guardrails::DRIFT_LIMIT {
                after.concludes(
                    ctx,
                    ending::EndingView::Paused {
                        iteration: self.iteration,
                        reason: PauseReason::Drift,
                        summary: wire::opt_text(summary),
                    },
                    decision,
                )
            } else {
                after.next(ctx, now, feedback, decision)
            },
        }
    }

    /// Whether a decision goes on with the next iteration, fresh at plan.
    pub open spec fn next(
        self,
        ctx: KernelContext,
        now: Duration,
        feedback: Seq<preamble::FeedbackView>,
        decision: Decision,
    ) -> bool {
        exists|entry: Entry|
            entry.is_fresh() && #[trigger] (Progress {
                iteration: guardrails::one_more(self.iteration),
                ..self
            }).tops(ctx, now, entry, feedback, decision)
    }

    /// Whether a decision is the one after a timed-out pass. The flow's word
    /// on how much verify failure to tolerate holds for timeouts too; only
    /// the label is their own.
    pub open spec fn expires(self, ctx: KernelContext, now: Duration, decision: Decision) -> bool {
        let after = Progress { rails: self.rails.after_timeout(), ..self };
        if self.rails.timeout_failures >= ctx.verify.on_fail.retries {
            match ctx.verify.on_fail.action {
                FailAction::Pause => after.concludes(
                    ctx,
                    ending::EndingView::Paused {
                        iteration: self.iteration,
                        reason: PauseReason::Timeout,
                        summary: Some(
                            timeout_summary(self.iteration, ctx.budgets.iteration_timeout),
                        ),
                    },
                    decision,
                ),
                FailAction::Fail => after.concludes(ctx, ending::EndingView::Failed, decision),
            }
        } else {
            after.next(
                ctx,
                now,
                seq![
                    preamble::FeedbackView::IterationTimedOut {
                        timeout: ctx.budgets.iteration_timeout,
                    },
                ],
                decision,
            )
        }
    }

    /// Sets out to end the run.
    fn conclude(self, ctx: &KernelContext, ending: Ending) -> (decision: Decision)
        ensures
            self.concludes(*ctx, ending@, decision),
    {
        let (conclusion, effect) = ending::conclude(ctx, ending);
        Turn::Act(
            PipelineRun { progress: self, phase: PipelinePhase::Ending(conclusion) },
            effect,
        )
    }

    /// Sets out to pause the run over a budget.
    fn pause(self, iteration: u32, budget: BudgetKind) -> (decision: Decision)
        ensures
            self.pauses(iteration, budget, decision),
    {
        let summary = text::copied(&self.summary);
        let (conclusion, effect) = ending::pause_for_budget(iteration, budget, summary);
        Turn::Act(
            PipelineRun { progress: self, phase: PipelinePhase::Ending(conclusion) },
            effect,
        )
    }

    /// Makes of a turn of the iteration what the loop makes of it.
    fn pass_on(self, ctx: &KernelContext, inner: PassTurn) -> (decision: Decision)
        ensures
            self.passed(*ctx, inner, decision),
    {
        let iteration: u32 = self.iteration;
        match inner {
            Turn::Act(pass, effect) => Turn::Act(
                PipelineRun { progress: self, phase: PipelinePhase::Passing(pass) },
                effect,
            ),
            Turn::End(Err(error)) => Turn::End(Err(error)),
            Turn::End(Ok(IterationEnd::Continue { notification_summary, feedback })) => Turn::Act(
                PipelineRun {
                    progress: self,
                    phase: PipelinePhase::Closing { summary: notification_summary, feedback },
                },
                Effect::Emit(
                    RunEvent::IterationFinished {
                        iteration,
                        outcome: IterationOutcome::Completed,
                    },
                ),
            ),
            Turn::End(Ok(IterationEnd::Done)) => self.conclude(ctx, Ending::Done),
            Turn::End(Ok(IterationEnd::Pause { reason, summary })) => self.conclude(
                ctx,
                Ending::Paused { iteration, reason, summary: Some(summary) },
            ),
            Turn::End(Ok(IterationEnd::Fail)) => Turn::Act(
                PipelineRun { progress: self, phase: PipelinePhase::Failing },
                Effect::Emit(
                    RunEvent::IterationFinished { iteration, outcome: IterationOutcome::Failed },
                ),
            ),
            Turn::End(Ok(IterationEnd::TimedOut { notification_summary })) => {
                let mut progress = self;
                if let Some(latest) = notification_summary {
                    progress.summary = Some(latest);
                }
                Turn::Act(
                    PipelineRun { progress, phase: PipelinePhase::Expiring },
                    Effect::Emit(
                        RunEvent::IterationFinished {
                            iteration,
                            outcome: IterationOutcome::TimedOut,
                        },
                    ),
                )
            },
            Turn::End(Ok(IterationEnd::Cancelled)) => self.conclude(ctx, Ending::Cancelled),
        }
    }

    /// Begins the pass of an iteration.
    fn begin_pass(
        self,
        ctx: &KernelContext,
        now: Duration,
        entry: Entry,
        feedback: Vec<Feedback>,
    ) -> (decision: Decision)
        ensures
            self.passes(*ctx, now, entry, preamble::feedback_views(feedback@), decision),
    {
        let deadline = accounts::due(now, ctx.budgets.iteration_timeout);
        let inner = pass::run_iteration(ctx, self.iteration, entry, feedback, deadline);
        self.pass_on(ctx, inner)
    }

    /// Decides at the top of the loop.
    fn top(self, ctx: &KernelContext, now: Duration, entry: Entry, feedback: Vec<Feedback>) -> (decision:
        Decision)
        ensures
            self.tops(*ctx, now, entry, preamble::feedback_views(feedback@), decision),
    {
        let before: u32 = self.iteration.saturating_sub(1);
        match ctx.budgets.exhausted(&self.usage, now, before) {
            Some(budget) => {
                let announced: u32 = if entry.starts {
                    before
                } else {
                    self.iteration
                };
                self.pause(announced, budget)
            },
            None => if entry.starts {
                let iteration: u32 = self.iteration;
                Turn::Act(
                    PipelineRun { progress: self, phase: PipelinePhase::Opening(entry, feedback) },
                    Effect::Emit(RunEvent::IterationStarted { iteration }),
                )
            } else {
                self.begin_pass(ctx, now, entry, feedback)
            },
        }
    }

    /// Goes on with the next iteration.
    fn go_on(self, ctx: &KernelContext, now: Duration, feedback: Vec<Feedback>) -> (decision: Decision)
        ensures
            self.next(*ctx, now, preamble::feedback_views(feedback@), decision),
    {
        let mut progress = self;
        progress.iteration = progress.iteration.saturating_add(1);
        let entry = Entry::fresh();
        progress.top(ctx, now, entry, feedback)
    }

    /// Decides after a completed pass.
    fn sample(
        self,
        ctx: &KernelContext,
        now: Duration,
        head: String,
        summary: Option<String>,
        feedback: Vec<Feedback>,
    ) -> (decision: Decision)
        ensures
            self.samples(
                *ctx,
                now,
                head,
                summary,
                preamble::feedback_views(feedback@),
                decision,
            ),
    {
        let mut after = self;
        let iteration: u32 = after.iteration;
        let committed: bool = !text::same(head.as_str(), after.head.as_str());
        after.rails.completed(committed);
        after.head = head;
        after.summary = summary;
        if let Some(budget) = ctx.budgets.exhausted(&after.usage, now, iteration) {
            return after.pause(iteration, budget);
        }
        if after.rails.drifted() {
            let summary = text::copied(&after.summary);
            return after.conclude(
                ctx,
                Ending::Paused { iteration, reason: PauseReason::Drift, summary },
            );
        }
        after.go_on(ctx, now, feedback)
    }

    /// Decides after a timed-out pass.
    fn expire(self, ctx: &KernelContext, now: Duration) -> (decision: Decision)
        ensures
            self.expires(*ctx, now, decision),
    {
        let spent: bool = self.rails.timeout_failures >= ctx.verify.on_fail.retries;
        let mut after = self;
        let iteration: u32 = after.iteration;
        after.rails.timed_out();
        if spent {
            return match ctx.verify.on_fail.action {
                FailAction::Pause => {
                    let summary = timed_out_words(iteration, ctx.budgets.iteration_timeout);
                    after.conclude(
                        ctx,
                        Ending::Paused {
                            iteration,
                            reason: PauseReason::Timeout,
                            summary: Some(summary),
                        },
                    )
                },
                FailAction::Fail => after.conclude(ctx, Ending::Failed),
            };
        }
        let feedback = vec![
            Feedback::IterationTimedOut { timeout: ctx.budgets.iteration_timeout },
        ];
        assert(preamble::feedback_views(feedback@) =~= seq![
            preamble::FeedbackView::IterationTimedOut { timeout: ctx.budgets.iteration_timeout },
        ]);
        after.go_on(ctx, now, feedback)
    }
}

impl PipelineRun {
    /// Whether a decision is the one after `reply`, at the reading `now`.
    pub open spec fn decides(
        self,
        ctx: KernelContext,
        now: Duration,
        reply: Reply,
        decision: Decision,
    ) -> bool {
        match self.phase {
            PipelinePhase::Passing(pass) => exists|inner: PassTurn| #[trigger]
                pass.steps(ctx, reply, inner) && self.progress.passed(ctx, inner, decision),
            PipelinePhase::Ending(conclusion) => exists|
                inner: Turn<Conclusion, Result<RunOutcome, KernelError>>,
            | #[trigger]
                conclusion.steps(ctx, reply, inner) && match inner {
                    Turn::Act(conclusion, effect) => decision == Decision::Act(
                        PipelineRun { phase: PipelinePhase::Ending(conclusion), ..self },
                        effect,
                    ),
                    Turn::End(result) => decision == Decision::End(result),
                },
            _ => if reply is Failed {
                decision == Decision::End(Err(reply->Failed_0))
            } else {
                match self.phase {
                    PipelinePhase::Starting => {
                        &&& decision matches Turn::Act(next, effect)
                        &&& effect is Head
                        &&& next.progress == self.progress
                        &&& next.phase matches PipelinePhase::Rooting(entry)
                        &&& entry.is_fresh()
                    },
                    PipelinePhase::Rooting(entry) => match reply {
                        Reply::Head(head) => (Progress { head, ..self.progress }).tops(
                            ctx,
                            now,
                            entry,
                            Seq::empty(),
                            decision,
                        ),
                        _ => decision matches Turn::End(Err(KernelError::OutOfStep)),
                    },
                    PipelinePhase::Opening(entry, feedback) => self.progress.passes(
                        ctx,
                        now,
                        entry,
                        preamble::feedback_views(feedback@),
                        decision,
                    ),
                    PipelinePhase::Closing { summary, feedback } => decision == Decision::Act(
                        PipelineRun {
                            phase: PipelinePhase::Sampling { summary, feedback },
                            ..self
                        },
                        Effect::Head,
                    ),
                    PipelinePhase::Sampling { summary, feedback } => match reply {
                        Reply::Head(head) => self.progress.samples(
                            ctx,
                            now,
                            head,
                            summary,
                            preamble::feedback_views(feedback@),
                            decision,
                        ),
                        _ => decision matches Turn::End(Err(KernelError::OutOfStep)),
                    },
                    PipelinePhase::Failing => self.progress.concludes(
                        ctx,
                        ending::EndingView::Failed,
                        decision,
                    ),
                    PipelinePhase::Expiring => self.progress.expires(ctx, now, decision),
                    _ => false,
                }
            },
        }
    }

    /// Decides after a reply.
    fn decide(self, ctx: &KernelContext, now: Duration, reply: Reply) -> (decision: Decision)
        ensures
            self.decides(*ctx, now, reply, decision),
    {
        let PipelineRun { progress, phase } = self;
        match (phase, reply) {
            (PipelinePhase::Passing(pass), reply) => {
                let inner = pass.step(ctx, reply);
                progress.pass_on(ctx, inner)
            },
            (PipelinePhase::Ending(conclusion), reply) => match conclusion.step(ctx, reply) {
                Turn::Act(conclusion, effect) => Turn::Act(
                    PipelineRun { progress, phase: PipelinePhase::Ending(conclusion) },
                    effect,
                ),
                Turn::End(result) => Turn::End(result),
            },
            (_, Reply::Failed(error)) => Turn::End(Err(error)),
            (PipelinePhase::Starting, _) => Turn::Act(
                PipelineRun { progress, phase: PipelinePhase::Rooting(Entry::fresh()) },
                Effect::Head,
            ),
            (PipelinePhase::Rooting(entry), Reply::Head(head)) => {
                let mut progress = progress;
                progress.head = head;
                let none: Vec<Feedback> = Vec::new();
                assert(preamble::feedback_views(none@) =~= Seq::empty());
                progress.top(ctx, now, entry, none)
            },
            (PipelinePhase::Rooting(_), _) => Turn::End(Err(KernelError::OutOfStep)),
            (PipelinePhase::Opening(entry, feedback), _) => progress.begin_pass(
                ctx,
                now,
                entry,
                feedback,
            ),
            (PipelinePhase::Closing { summary, feedback }, _) => Turn::Act(
                PipelineRun { progress, phase: PipelinePhase::Sampling { summary, feedback } },
                Effect::Head,
            ),
            (PipelinePhase::Sampling { summary, feedback }, Reply::Head(head)) => progress.sample(
                ctx,
                now,
                head,
                summary,
                feedback,
            ),
            (PipelinePhase::Sampling { .. }, _) => Turn::End(Err(KernelError::OutOfStep)),
            (PipelinePhase::Failing, _) => progress.conclude(ctx, Ending::Failed),
            (PipelinePhase::Expiring, _) => progress.expire(ctx, now),
        }
    }

    /// Whether `turn` is a decision with the books kept: a logged bill is
    /// counted, and a run that ends closes its books.
    pub open spec fn accounts(usage: BudgetUsage, now: Duration, decision: Decision, turn: PipelineTurn) -> bool {
        match decision {
            Turn::Act(next, effect) => {
                &&& turn matches Turn::Act(kept, asked)
                &&& asked == effect
                &&& kept == (PipelineRun {
                    progress: Progress { usage: kept.progress.usage, ..next.progress },
                    ..next
                })
                &&& accounts::tallied(next.progress.usage, effect, kept.progress.usage)
            },
            Turn::End(result) => {
                &&& turn matches Turn::End((given, closed))
                &&& given == result
                &&& accounts::closed(usage, now, closed)
            },
        }
    }

    /// Whether `turn` is where the run stands after `reply`, at the reading
    /// `now`.
    pub open spec fn steps(
        self,
        ctx: KernelContext,
        now: Duration,
        reply: Reply,
        turn: PipelineTurn,
    ) -> bool {
        exists|decision: Decision| #[trigger]
            self.decides(ctx, now, reply, decision) && PipelineRun::accounts(
                self.progress.usage,
                now,
                decision,
                turn,
            )
    }

    /// Keeps the books on a decision.
    fn account(usage: BudgetUsage, now: Duration, decision: Decision) -> (turn: PipelineTurn)
        ensures
            PipelineRun::accounts(usage, now, decision, turn),
    {
        match decision {
            Turn::Act(next, effect) => {
                let PipelineRun { progress, phase } = next;
                let Progress { iteration, summary, head, rails, usage } = progress;
                let usage = accounts::tally(usage, &effect);
                Turn::Act(
                    PipelineRun {
                        progress: Progress { iteration, summary, head, rails, usage },
                        phase,
                    },
                    effect,
                )
            },
            Turn::End(result) => Turn::End((result, accounts::close(usage, now))),
        }
    }

    /// Takes the run one reply further, at the reading `now` of the host's
    /// clock.
    pub fn step(self, ctx: &KernelContext, now: Duration, reply: Reply) -> (turn: PipelineTurn)
        ensures
            self.steps(*ctx, now, reply, turn),
    {
        let usage = self.progress.usage.copy();
        let decision = self.decide(ctx, now, reply);
        PipelineRun::account(usage, now, decision)
    }
}

/// The staged kernel. Stateless: everything a run needs arrives in its
/// context.
#[derive(Debug, Clone, Copy, PartialEq, Eq)]
pub struct PipelineKernel;

/// Whether `entry` is where a resume point goes in.
pub open spec fn re_enters(point: ResumePoint, entry: Entry) -> bool {
    &&& entry.human == point.human
    &&& match point.position {
        Position::NewIteration => entry.starts && entry.stage == Stage::Plan
            && entry.completed@.len() == 0,
        Position::Interrupted { stage, completed } => !entry.starts && entry.stage == stage
            && entry.completed == completed,
    }
}

/// The stage a resume point goes in at.
pub open spec fn entry_stage(point: ResumePoint) -> Stage {
    match point.position {
        Position::NewIteration => Stage::Plan,
        Position::Interrupted { stage, .. } => stage,
    }
}

/// Whether `decision` is how a run is taken up again from a replay: a log
/// without a valid resume point is refused, and so is one that was
/// interrupted in a stage that is no longer part of the flow.
pub open spec fn takes_up(
    ctx: KernelContext,
    usage: BudgetUsage,
    read: Result<ResumePoint, resume::ResumeError>,
    decision: Decision,
) -> bool {
    match read {
        Err(error) => decision matches Turn::End(Err(KernelError::Resume(detail))) && detail@
            == error.message(),
        Ok(point) => if !stage::is_active(ctx.prompts, entry_stage(point)) {
            decision matches Turn::End(Err(KernelError::Resume(detail))) && detail@ == "stage `"@
                + entry_stage(point).word() + "` is not active in this flow"@
        } else {
            &&& decision matches Turn::Act(next, effect)
            &&& effect is Head
            &&& next.progress.iteration == point.iteration
            &&& next.progress.summary == point.notification_summary
            &&& next.progress.rails == (Guardrails {
                no_commit_iterations: 0,
                timeout_failures: 0,
            })
            &&& next.progress.usage == usage
            &&& next.phase matches PipelinePhase::Rooting(entry)
            &&& re_enters(point, entry)
        },
    }
}

/// Whether `decision` is how a run begins.
pub open spec fn begins(ctx: KernelContext, usage: BudgetUsage, decision: Decision) -> bool {
    match ctx.replay {
        Some(events) => exists|read: Result<ResumePoint, resume::ResumeError>|
            resume::resumes(event::envelope_views(events@), read) && #[trigger] takes_up(
                ctx,
                usage,
                read,
                decision,
            ),
        None => {
            &&& decision matches Turn::Act(next, effect)
            &&& kernel::emits(
                effect,
                event::EventView::RunStarted {
                    kernel: KernelName::Pipeline.word(),
                    agent: ctx.agent.known_as(),
                },
            )
            &&& next.progress.iteration == 1
            &&& next.progress.summary is None
            &&& next.progress.rails == (Guardrails {
                no_commit_iterations: 0,
                timeout_failures: 0,
            })
            &&& next.progress.usage == usage
            &&& next.phase is Starting
        },
    }
}

/// Whether `turn` is how a run is launched at the reading `now`: its books
/// are opened, and it begins.
pub open spec fn launches(
    ctx: KernelContext,
    usage: BudgetUsage,
    now: Duration,
    turn: PipelineTurn,
) -> bool {
    exists|opened: BudgetUsage, decision: Decision|
        accounts::opened(usage, now, opened) && #[trigger] begins(ctx, opened, decision)
            && PipelineRun::accounts(opened, now, decision, turn)
}

impl PipelineKernel {
    /// Takes a run up again from its log.
    fn take_up(
        ctx: &KernelContext,
        usage: BudgetUsage,
        read: Result<ResumePoint, resume::ResumeError>,
    ) -> (decision: Decision)
        ensures
            takes_up(*ctx, usage, read, decision),
    {
        let point = match read {
            Ok(point) => point,
            Err(error) => return Turn::End(Err(KernelError::Resume(error.to_text()))),
        };
        let ResumePoint { iteration, position, human, notification_summary } = point;
        let entry: Entry = match position {
            Position::NewIteration => Entry {
                starts: true,
                stage: Stage::Plan,
                completed: Vec::new(),
                human,
            },
            Position::Interrupted { stage, completed } => Entry {
                starts: false,
                stage,
                completed,
                human,
            },
        };
        if !stage::active(&ctx.prompts, entry.stage) {
            let mut detail = "stage `".to_owned();
            detail.append(entry.stage.as_str());
            detail.append("` is not active in this flow");
            return Turn::End(Err(KernelError::Resume(detail)));
        }
        Turn::Act(
            PipelineRun {
                progress: Progress {
                    iteration,
                    summary: notification_summary,
                    head: String::new(),
                    rails: Guardrails::default(),
                    usage,
                },
                phase: PipelinePhase::Rooting(entry),
            },
            Effect::Head,
        )
    }

    /// Begins a run, or takes it up again where the context carries its log.
    /// Time runs from the reading `now`.
    pub fn run(&self, ctx: &KernelContext, usage: BudgetUsage, now: Duration) -> (turn: PipelineTurn)
        ensures
            launches(*ctx, usage, now, turn),
    {
        let usage = accounts::open(usage, now);
        let kept = usage.copy();
        let decision: Decision = match &ctx.replay {
            Some(events) => {
                let read = ResumePoint::from_events(events);
                PipelineKernel::take_up(ctx, usage, read)
            },
            None => Turn::Act(
                PipelineRun {
                    progress: Progress {
                        iteration: 1,
                        summary: None,
                        head: String::new(),
                        rails: Guardrails::default(),
                        usage,
                    },
                    phase: PipelinePhase::Starting,
                },
                Effect::Emit(
                    RunEvent::RunStarted {
                        kernel: KernelName::Pipeline.as_str().to_owned(),
                        agent: ctx.agent.name().to_owned(),
                    },
                ),
            ),
        };
        assert(begins(*ctx, kept, decision));
        PipelineRun::account(kept, now, decision)
    }
}

} // verus!
