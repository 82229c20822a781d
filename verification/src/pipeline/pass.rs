//! One iteration of the pipeline: the stages in order, each re-run for as
//! many verify failures as the flow allows, and the skeptic where a stage
//! claims that everything is done.

use crate::bracket::{self, Bracket, BracketPhase, Bracketed};
use crate::budget::Duration;
use crate::flow::FailAction;
use crate::kernel::{Effect, KernelContext, KernelError, Reply, Turn};
use crate::pipeline::contract::{self, Stage, StageReport};
use crate::pipeline::skeptic::{JudgeBrief, SkepticWork};
use crate::pipeline::stage::{self, StageBrief, StageDrive, StageWork};
use crate::preamble::{self, Feedback, HumanInput};
use crate::report::{self, Disposition};
use crate::run::PauseReason;
use crate::skeptic::SkepticEnd;
use crate::text;
use crate::verify::VerifyOutcome;
use crate::wire;
use vstd::prelude::*;

verus! {

/// How one stage ended, as the iteration reads it.
#[derive(Debug, PartialEq, Eq)]
pub enum StageEnd {
    /// The stage reported `continue`; its report joins the hand-off to the
    /// next stage.
    Advance(StageReport),
    /// A stage claimed `done` and cleared its verify gate. Carries the report
    /// the skeptic must interrogate before completion is real.
    Done(StageReport),
    /// The run pauses now, mid-pipeline: a `blocked` or `needs_input` report,
    /// or verify failures that outran the retry budget.
    Pause { reason: PauseReason, summary: String },
    /// The stage produced no trustworthy report.
    Fail,
    /// The hard iteration deadline fired mid-stage. Carries the summary of
    /// the last report this stage's attempts published: a verify retry's
    /// failed predecessor is still on the log.
    TimedOut { last_reported: Option<String> },
    /// The run was cancelled.
    Cancelled,
}

/// One stage on its way to a verdict, re-run in a fresh sandbox for as many
/// verify failures as the flow allows before it pauses or fails.
pub struct StageRun {
    pub brief: StageBrief,
    pub deadline: Option<Duration>,
    pub failures: u32,
    pub last_reported: Option<String>,
    pub bracket: Bracket<StageWork>,
}

/// Where a stage stands after a reply; a stage that has ended gives the
/// hand-off back.
pub type StageRunTurn = Turn<StageRun, Result<(StageEnd, Vec<StageReport>), KernelError>>;

/// A bracket around a pass that has not begun.
pub open spec fn unopened(deadline: Option<Duration>) -> Bracket<StageWork> {
    Bracket { deadline, phase: BracketPhase::Polling(StageWork::Ready) }
}

/// Begins a stage.
pub fn execute_stage(brief: StageBrief, deadline: Option<Duration>) -> (r: (StageRun, Effect))
    ensures
        r.0 == (StageRun {
            brief,
            deadline,
            failures: 0,
            last_reported: None,
            bracket: unopened(deadline),
        }),
        r.1 is PollCancel,
{
    let (bracket, effect) = bracket::in_fresh_sandbox(StageWork::Ready, deadline);
    (StageRun { brief, deadline, failures: 0, last_reported: None, bracket }, effect)
}

impl StageRun {
    /// Whether `turn` ends the stage with `end`.
    pub open spec fn ends(self, end: StageEnd, turn: StageRunTurn) -> bool {
        turn == StageRunTurn::End(Ok((end, self.brief.handoff)))
    }

    /// Whether `turn` pauses the run over a report.
    pub open spec fn pauses(self, reason: PauseReason, report: StageReport, turn: StageRunTurn) -> bool {
        turn matches Turn::End(Ok((StageEnd::Pause { reason: given, summary }, handoff))) && given
            == reason && summary@ == report@.summary && handoff == self.brief.handoff
    }

    /// Whether `turn` is where the stage stands after a red check: the flow's
    /// retries are spent first, each on a fresh sandbox with the latest
    /// failure in its preamble, and what the flow says comes after.
    pub open spec fn retries(
        self,
        ctx: KernelContext,
        report: StageReport,
        command: Seq<char>,
        output: Seq<char>,
        turn: StageRunTurn,
    ) -> bool {
        if self.failures >= ctx.verify.on_fail.retries {
            match ctx.verify.on_fail.action {
                FailAction::Pause => self.pauses(PauseReason::VerifyFailed, report, turn),
                FailAction::Fail => self.ends(StageEnd::Fail, turn),
            }
        } else {
            &&& turn matches Turn::Act(next, effect)
            &&& effect is PollCancel
            &&& next.deadline == self.deadline
            &&& next.failures == self.failures + 1
            &&& wire::opt_text(next.last_reported) == Some(report@.summary)
            &&& next.bracket == unopened(self.deadline)
            &&& next.brief.iteration == self.brief.iteration
            &&& next.brief.stage == self.brief.stage
            &&& next.brief.handoff == self.brief.handoff
            &&& next.brief.human == self.brief.human
            &&& preamble::feedback_views(next.brief.feedback@) == seq![
                preamble::FeedbackView::VerifyFailed { command, output },
            ]
        }
    }

    /// Whether `turn` is where the stage stands after its bracket has taken a
    /// turn of its own. Where the checks passed or were skipped, the report's
    /// own status decides where the run goes.
    pub open spec fn follows(
        self,
        ctx: KernelContext,
        inner: Turn<Bracket<StageWork>, Result<Bracketed<StageDrive>, KernelError>>,
        turn: StageRunTurn,
    ) -> bool {
        match inner {
            Turn::Act(bracket, effect) => turn == StageRunTurn::Act(
                StageRun { bracket, ..self },
                effect,
            ),
            Turn::End(Err(error)) => turn == StageRunTurn::End(Err(error)),
            Turn::End(Ok(Bracketed::Cancelled)) => self.ends(StageEnd::Cancelled, turn),
            Turn::End(Ok(Bracketed::TimedOut)) => self.ends(
                StageEnd::TimedOut { last_reported: self.last_reported },
                turn,
            ),
            Turn::End(Ok(Bracketed::Finished(StageDrive::Failed))) => self.ends(
                StageEnd::Fail,
                turn,
            ),
            Turn::End(Ok(Bracketed::Finished(StageDrive::Reported { report, verify }))) => {
                match verify {
                    VerifyOutcome::Failed { command, output } => self.retries(
                        ctx,
                        report,
                        command@,
                        output@,
                        turn,
                    ),
                    _ => match report::disposed(report@.status) {
                        Disposition::Advance => self.ends(StageEnd::Advance(report), turn),
                        Disposition::Claimed => self.ends(StageEnd::Done(report), turn),
                        Disposition::Pause(reason) => self.pauses(reason, report, turn),
                    },
                }
            },
        }
    }

    /// Whether `turn` is where the stage stands after `reply`.
    pub open spec fn steps(self, ctx: KernelContext, reply: Reply, turn: StageRunTurn) -> bool {
        exists|inner: Turn<Bracket<StageWork>, Result<Bracketed<StageDrive>, KernelError>>|
            #[trigger] self.bracket.steps(ctx, self.brief, reply, inner) && self.follows(
                ctx,
                inner,
                turn,
            )
    }

    /// Takes the stage one reply further.
    pub fn step(self, ctx: &KernelContext, reply: Reply) -> (turn: StageRunTurn)
        ensures
            self.steps(*ctx, reply, turn),
    {
        let StageRun { brief, deadline, failures, last_reported, bracket } = self;
        match bracket.step(ctx, &brief, reply) {
            Turn::Act(bracket, effect) => Turn::Act(
                StageRun { brief, deadline, failures, last_reported, bracket },
                effect,
            ),
            Turn::End(Err(error)) => Turn::End(Err(error)),
            Turn::End(Ok(Bracketed::Cancelled)) => Turn::End(
                Ok((StageEnd::Cancelled, brief.handoff)),
            ),
            Turn::End(Ok(Bracketed::TimedOut)) => Turn::End(
                Ok((StageEnd::TimedOut { last_reported }, brief.handoff)),
            ),
            Turn::End(Ok(Bracketed::Finished(StageDrive::Failed))) => Turn::End(
                Ok((StageEnd::Fail, brief.handoff)),
            ),
            Turn::End(Ok(Bracketed::Finished(StageDrive::Reported { report, verify }))) => {
                match verify {
                    VerifyOutcome::Failed { command, output } => {
                        if failures >= ctx.verify.on_fail.retries {
                            return match ctx.verify.on_fail.action {
                                FailAction::Pause => Turn::End(
                                    Ok(
                                        (
                                            StageEnd::Pause {
                                                reason: PauseReason::VerifyFailed,
                                                summary: report.summary().to_owned(),
                                            },
                                            brief.handoff,
                                        ),
                                    ),
                                ),
                                FailAction::Fail => Turn::End(
                                    Ok((StageEnd::Fail, brief.handoff)),
                                ),
                            };
                        }
                        // Replaced, not accumulated: the re-run answers the
                        // latest failure, not a history of them.
                        let feedback = vec![Feedback::VerifyFailed { command, output }];
                        assert(preamble::feedback_views(feedback@) =~= seq![
                            preamble::FeedbackView::VerifyFailed {
                                command: command@,
                                output: output@,
                            },
                        ]);
                        let summary = report.summary().to_owned();
                        let brief = StageBrief {
                            iteration: brief.iteration,
                            stage: brief.stage,
                            handoff: brief.handoff,
                            feedback,
                            human: brief.human,
                        };
                        let (bracket, effect) = bracket::in_fresh_sandbox(
                            StageWork::Ready,
                            deadline,
                        );
                        Turn::Act(
                            StageRun {
                                brief,
                                deadline,
                                failures: failures + 1,
                                last_reported: Some(summary),
                                bracket,
                            },
                            effect,
                        )
                    },
                    _ => match report::disposition(report.status()) {
                        Disposition::Advance => Turn::End(
                            Ok((StageEnd::Advance(report), brief.handoff)),
                        ),
                        Disposition::Claimed => Turn::End(
                            Ok((StageEnd::Done(report), brief.handoff)),
                        ),
                        Disposition::Pause(reason) => Turn::End(
                            Ok(
                                (
                                    StageEnd::Pause {
                                        reason,
                                        summary: report.summary().to_owned(),
                                    },
                                    brief.handoff,
                                ),
                            ),
                        ),
                    },
                }
            },
        }
    }
}

/// How one iteration ended, as the run loop reads it.
#[derive(Debug, PartialEq, Eq)]
pub enum IterationEnd {
    /// The iteration counts as verified progress and the run goes on: a full
    /// pass, or a `done` claim the skeptic refuted. Carries the latest
    /// eligible summary for operator-facing pauses and any feedback the next
    /// plan must answer. A refuted claim carries no summary.
    Continue { notification_summary: Option<String>, feedback: Vec<Feedback> },
    /// A `done` claim cleared its verify gate and survived the skeptic.
    Done,
    /// The run pauses now, mid-pipeline.
    Pause { reason: PauseReason, summary: String },
    /// A stage or the skeptic produced no trustworthy report.
    Fail,
    /// The hard iteration deadline fired. Carries the latest summary the
    /// interrupted pass put on the log, `None` when it never reported.
    TimedOut { notification_summary: Option<String> },
    /// The run was cancelled; the iteration stops where it stands.
    Cancelled,
}

/// Where an iteration goes in: fresh at plan, or exactly where a pause
/// interrupted it.
pub struct Entry {
    /// Whether the iteration is a new one, to be announced.
    pub starts: bool,
    pub stage: Stage,
    /// The reports of the stages that are not run again.
    pub completed: Vec<StageReport>,
    /// What the human said; it reaches the first stage and no other.
    pub human: Option<HumanInput>,
}

impl Entry {
    /// Whether the entry opens an iteration at plan, with nothing carried in.
    pub open spec fn is_fresh(self) -> bool {
        &&& self.starts
        &&& self.stage == Stage::Plan
        &&& self.completed@.len() == 0
        &&& self.human is None
    }

    pub fn fresh() -> (r: Entry)
        ensures
            r.is_fresh(),
    {
        Entry { starts: true, stage: Stage::Plan, completed: Vec::new(), human: None }
    }
}

/// What a running iteration waits for.
pub enum PassPhase {
    /// A stage runs.
    Staging(StageRun),
    /// The skeptic judges a claim.
    Judging { brief: JudgeBrief, bracket: Bracket<SkepticWork> },
}

/// One iteration on its way through the stages.
pub struct Pass {
    pub iteration: u32,
    pub deadline: Option<Duration>,
    /// The stages after the running one.
    pub left: Vec<Stage>,
    /// The summary of the last report this pass put on the log.
    pub latest: Option<String>,
    pub phase: PassPhase,
}

/// Where an iteration stands after a reply.
pub type PassTurn = Turn<Pass, Result<IterationEnd, KernelError>>;

/// The stages from `stage` on.
pub open spec fn from_stage(stages: Seq<Stage>, stage: Stage) -> Seq<Stage>
    decreases stages.len(),
{
    if stages.len() == 0 || stages[0] == stage {
        stages
    } else {
        from_stage(stages.skip(1), stage)
    }
}

/// The stages an iteration runs that goes in at `stage`.
fn stages_from(ctx: &KernelContext, stage: Stage) -> (r: Vec<Stage>)
    ensures
        r@ == from_stage(
            stage::active_among(ctx.prompts, contract::STAGES as int),
            stage,
        ),
{
    let mut stages = stage::active_stages(&ctx.prompts);
    let ghost all = stages@;
    while stages.len() > 0 && stages[0] != stage
        invariant
            from_stage(stages@, stage) == from_stage(all, stage),
        decreases stages@.len(),
    {
        let ghost before = stages@;
        let _ = stages.remove(0);
        assert(stages@ =~= before.skip(1));
    }
    stages
}

/// The summary of the last of some reports.
pub open spec fn last_summary(reports: Seq<contract::StageReportView>) -> Option<Seq<char>> {
    if reports.len() == 0 {
        None
    } else {
        Some(reports.last().summary)
    }
}

/// Whether `turn` goes on to the first of the stages that are left, after
/// the reports `completed`; where none is left, the pass is complete.
pub open spec fn moves_on(
    iteration: u32,
    deadline: Option<Duration>,
    left: Seq<Stage>,
    completed: Seq<StageReport>,
    feedback: Seq<preamble::FeedbackView>,
    human: Option<preamble::HumanInputView>,
    latest: Option<Seq<char>>,
    turn: PassTurn,
) -> bool {
    if left.len() == 0 {
        &&& turn matches Turn::End(Ok(IterationEnd::Continue { notification_summary, feedback: none }))
        &&& wire::opt_text(notification_summary) == last_summary(contract::report_views(completed))
        &&& none@.len() == 0
    } else {
        &&& turn matches Turn::Act(next, effect)
        &&& effect is PollCancel
        &&& next.iteration == iteration
        &&& next.deadline == deadline
        &&& next.left@ == left.skip(1)
        &&& wire::opt_text(next.latest) == latest
        &&& next.phase matches PassPhase::Staging(run)
        &&& run.deadline == deadline
        &&& run.failures == 0
        &&& run.last_reported is None
        &&& run.bracket == unopened(deadline)
        &&& run.brief.iteration == iteration
        &&& run.brief.stage == left[0]
        &&& run.brief.handoff@ == completed
        &&& preamble::feedback_views(run.brief.feedback@) == feedback
        &&& match run.brief.human {
            Some(input) => human == Some(input@),
            None => human is None,
        }
    }
}

/// The feedback that reaches a stage: the plan answers for the loop.
pub open spec fn plan_only(stage: Stage, feedback: Seq<preamble::FeedbackView>) -> Seq<
    preamble::FeedbackView,
> {
    if stage == Stage::Plan {
        feedback
    } else {
        Seq::empty()
    }
}

/// Whether `turn` begins an iteration at `entry`. Plan opens a fresh unit
/// from the workspace and the feedback the loop carried in; every later stage
/// reads what this iteration produced before it.
pub open spec fn opens(
    ctx: KernelContext,
    iteration: u32,
    entry: Entry,
    feedback: Seq<preamble::FeedbackView>,
    deadline: Option<Duration>,
    turn: PassTurn,
) -> bool {
    moves_on(
        iteration,
        deadline,
        from_stage(stage::active_among(ctx.prompts, contract::STAGES as int), entry.stage),
        entry.completed@,
        plan_only(entry.stage, feedback),
        match entry.human {
            Some(human) => Some(human@),
            None => None,
        },
        None,
        turn,
    )
}

/// The turn that goes on to the first of the stages that are left.
fn move_on(
    iteration: u32,
    deadline: Option<Duration>,
    left: Vec<Stage>,
    completed: Vec<StageReport>,
    feedback: Vec<Feedback>,
    human: Option<HumanInput>,
    latest: Option<String>,
) -> (turn: PassTurn)
    ensures
        moves_on(
            iteration,
            deadline,
            left@,
            completed@,
            preamble::feedback_views(feedback@),
            match human {
                Some(human) => Some(human@),
                None => None,
            },
            wire::opt_text(latest),
            turn,
        ),
{
    let mut left = left;
    if left.len() == 0 {
        let notification_summary: Option<String> = if completed.len() == 0 {
            None
        } else {
            Some(completed[completed.len() - 1].summary().to_owned())
        };
        return Turn::End(
            Ok(IterationEnd::Continue { notification_summary, feedback: Vec::new() }),
        );
    }
    let ghost all = left@;
    let stage: Stage = left.remove(0);
    assert(left@ =~= all.skip(1));
    let brief = StageBrief { iteration, stage, handoff: completed, feedback, human };
    let (run, effect) = execute_stage(brief, deadline);
    Turn::Act(Pass { iteration, deadline, left, latest, phase: PassPhase::Staging(run) }, effect)
}

/// Begins an iteration.
pub fn run_iteration(
    ctx: &KernelContext,
    iteration: u32,
    entry: Entry,
    feedback: Vec<Feedback>,
    deadline: Option<Duration>,
) -> (turn: PassTurn)
    ensures
        opens(*ctx, iteration, entry, preamble::feedback_views(feedback@), deadline, turn),
{
    let left = stages_from(ctx, entry.stage);
    let none: Vec<Feedback> = Vec::new();
    assert(preamble::feedback_views(none@) =~= Seq::empty());
    let feedback: Vec<Feedback> = match entry.stage {
        Stage::Plan => feedback,
        _ => none,
    };
    move_on(iteration, deadline, left, entry.completed, feedback, entry.human, None)
}

impl Pass {
    /// Whether `turn` is where the iteration stands after its stage has taken
    /// a turn of its own.
    pub open spec fn staged(self, inner: StageRunTurn, turn: PassTurn) -> bool {
        match inner {
            Turn::Act(run, effect) => turn == PassTurn::Act(
                Pass { phase: PassPhase::Staging(run), ..self },
                effect,
            ),
            Turn::End(Err(error)) => turn == PassTurn::End(Err(error)),
            Turn::End(Ok((end, handoff))) => match end {
                StageEnd::Advance(report) => moves_on(
                    self.iteration,
                    self.deadline,
                    self.left@,
                    handoff@.push(report),
                    Seq::empty(),
                    None,
                    Some(report@.summary),
                    turn,
                ),
                StageEnd::Done(claim) => {
                    &&& turn matches Turn::Act(next, effect)
                    &&& effect is PollCancel
                    &&& next == (Pass {
                        phase: PassPhase::Judging {
                            brief: JudgeBrief { iteration: self.iteration, claim },
                            bracket: Bracket {
                                deadline: self.deadline,
                                phase: BracketPhase::Polling(SkepticWork::Ready),
                            },
                        },
                        ..self
                    })
                },
                StageEnd::Pause { reason, summary } => turn == PassTurn::End(
                    Ok(IterationEnd::Pause { reason, summary }),
                ),
                StageEnd::Fail => turn == PassTurn::End(Ok(IterationEnd::Fail)),
                StageEnd::TimedOut { last_reported } => turn == PassTurn::End(
                    Ok(
                        IterationEnd::TimedOut {
                            notification_summary: if last_reported is Some {
                                last_reported
                            } else {
                                self.latest
                            },
                        },
                    ),
                ),
                StageEnd::Cancelled => turn == PassTurn::End(Ok(IterationEnd::Cancelled)),
            },
        }
    }

    /// Whether `turn` is where the iteration stands after the skeptic's
    /// bracket has taken a turn of its own. Only an unrefuted claim ends the
    /// run; only the findings of a refuted one reach the next plan; a claim
    /// that was not judged in time stays eligible.
    pub open spec fn judged(
        self,
        brief: JudgeBrief,
        inner: Turn<Bracket<SkepticWork>, Result<Bracketed<SkepticEnd>, KernelError>>,
        turn: PassTurn,
    ) -> bool {
        match inner {
            Turn::Act(bracket, effect) => turn == PassTurn::Act(
                Pass { phase: PassPhase::Judging { brief, bracket }, ..self },
                effect,
            ),
            Turn::End(Err(error)) => turn == PassTurn::End(Err(error)),
            Turn::End(Ok(Bracketed::Cancelled)) => turn == PassTurn::End(
                Ok(IterationEnd::Cancelled),
            ),
            Turn::End(Ok(Bracketed::TimedOut)) => turn matches Turn::End(
                Ok(IterationEnd::TimedOut { notification_summary }),
            ) && wire::opt_text(notification_summary) == Some(brief.claim@.summary),
            Turn::End(Ok(Bracketed::Finished(SkepticEnd::Unrefuted))) => turn == PassTurn::End(
                Ok(IterationEnd::Done),
            ),
            Turn::End(Ok(Bracketed::Finished(SkepticEnd::Failed))) => turn == PassTurn::End(
                Ok(IterationEnd::Fail),
            ),
            Turn::End(Ok(Bracketed::Finished(SkepticEnd::Refuted(findings)))) => turn matches Turn::End(
                Ok(IterationEnd::Continue { notification_summary, feedback }),
            ) && notification_summary is None && preamble::feedback_views(feedback@) == seq![
                preamble::FeedbackView::SkepticRefuted { findings: text::texts(findings@) },
            ],
        }
    }

    /// Whether `turn` is where the iteration stands after `reply`.
    pub open spec fn steps(self, ctx: KernelContext, reply: Reply, turn: PassTurn) -> bool {
        match self.phase {
            PassPhase::Staging(run) => exists|inner: StageRunTurn| #[trigger]
                run.steps(ctx, reply, inner) && self.staged(inner, turn),
            PassPhase::Judging { brief, bracket } => exists|
                inner: Turn<Bracket<SkepticWork>, Result<Bracketed<SkepticEnd>, KernelError>>,
            | #[trigger]
                bracket.steps(ctx, brief, reply, inner) && self.judged(brief, inner, turn),
        }
    }

    /// Takes the iteration one reply further.
    pub fn step(self, ctx: &KernelContext, reply: Reply) -> (turn: PassTurn)
        ensures
            self.steps(*ctx, reply, turn),
    {
        let Pass { iteration, deadline, left, latest, phase } = self;
        match phase {
            PassPhase::Staging(run) => match run.step(ctx, reply) {
                Turn::Act(run, effect) => Turn::Act(
                    Pass { iteration, deadline, left, latest, phase: PassPhase::Staging(run) },
                    effect,
                ),
                Turn::End(Err(error)) => Turn::End(Err(error)),
                Turn::End(Ok((end, handoff))) => match end {
                    StageEnd::Advance(report) => {
                        let mut completed = handoff;
                        let summary = report.summary().to_owned();
                        completed.push(report);
                        let none: Vec<Feedback> = Vec::new();
                        assert(preamble::feedback_views(none@) =~= Seq::empty());
                        move_on(iteration, deadline, left, completed, none, None, Some(summary))
                    },
                    StageEnd::Done(claim) => {
                        let (bracket, effect) = bracket::in_fresh_sandbox(
                            SkepticWork::Ready,
                            deadline,
                        );
                        let brief = JudgeBrief { iteration, claim };
                        Turn::Act(
                            Pass {
                                iteration,
                                deadline,
                                left,
                                latest,
                                phase: PassPhase::Judging { brief, bracket },
                            },
                            effect,
                        )
                    },
                    StageEnd::Pause { reason, summary } => Turn::End(
                        Ok(IterationEnd::Pause { reason, summary }),
                    ),
                    StageEnd::Fail => Turn::End(Ok(IterationEnd::Fail)),
                    StageEnd::TimedOut { last_reported } => {
                        let notification_summary: Option<String> = match last_reported {
                            Some(summary) => Some(summary),
                            None => latest,
                        };
                        Turn::End(Ok(IterationEnd::TimedOut { notification_summary }))
                    },
                    StageEnd::Cancelled => Turn::End(Ok(IterationEnd::Cancelled)),
                },
            },
            PassPhase::Judging { brief, bracket } => match bracket.step(ctx, &brief, reply) {
                Turn::Act(bracket, effect) => Turn::Act(
                    Pass {
                        iteration,
                        deadline,
                        left,
                        latest,
                        phase: PassPhase::Judging { brief, bracket },
                    },
                    effect,
                ),
                Turn::End(Err(error)) => Turn::End(Err(error)),
                Turn::End(Ok(Bracketed::Cancelled)) => Turn::End(Ok(IterationEnd::Cancelled)),
                Turn::End(Ok(Bracketed::TimedOut)) => Turn::End(
                    Ok(
                        IterationEnd::TimedOut {
                            notification_summary: Some(brief.claim.summary().to_owned()),
                        },
                    ),
                ),
                Turn::End(Ok(Bracketed::Finished(SkepticEnd::Unrefuted))) => Turn::End(
                    Ok(IterationEnd::Done),
                ),
                Turn::End(Ok(Bracketed::Finished(SkepticEnd::Failed))) => Turn::End(
                    Ok(IterationEnd::Fail),
                ),
                Turn::End(Ok(Bracketed::Finished(SkepticEnd::Refuted(findings)))) => {
                    let ghost found = text::texts(findings@);
                    let feedback = vec![Feedback::SkepticRefuted { findings }];
                    assert(preamble::feedback_views(feedback@) =~= seq![
                        preamble::FeedbackView::SkepticRefuted { findings: found },
                    ]);
                    Turn::End(Ok(IterationEnd::Continue { notification_summary: None, feedback }))
                },
            },
        }
    }
}

} // verus!
