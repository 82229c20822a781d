//! The single-prompt loop's run: one sandboxed iteration after the other,
//! each gated by its verify checks.

use crate::agent::AgentAdapter;
use crate::bracket::{self, Bracket, BracketPhase, Bracketed};
use crate::budget::BudgetKind;
use crate::event::{self, IterationOutcome, RunEvent};
use crate::flow::{FailAction, KernelName};
use crate::invocation;
use crate::json;
use crate::kernel::{self, Effect, KernelContext, KernelError, Reply, Turn, Work};
use crate::pipeline::guardrails;
use crate::preamble::{self, Feedback, HumanInput};
use crate::progress::{self, ProgressReport, ProgressStatus};
use crate::ralph::attempt::{self, AgentDrive, AgentDriveTurn};
use crate::ralph::frame::{self, Preamble};
use crate::report::{self, Answer};
use crate::run::{self, PauseReason, RunOutcome, RunState};
use crate::text;
use crate::verify::{self, Checks, VerifyOutcome};
use crate::wire;
use crate::workspace;
use vstd::prelude::*;

verus! {

/// Where the host says a paused run stopped, and what the human sent back.
pub struct Resume {
    /// The iteration the run paused after.
    pub iteration: u32,
    /// The report that iteration left.
    pub report: ProgressReport,
    pub answers: Vec<Answer>,
    pub note: Option<String>,
}

/// What a full iteration produced: the agent's report and how the verify
/// checks that gate it came out.
#[derive(Debug, PartialEq, Eq)]
pub struct IterationResult {
    pub report: ProgressReport,
    pub verify: VerifyOutcome,
}

/// What an iteration's sandboxed work is about.
pub struct RalphBrief {
    pub iteration: u32,
    pub prompt: String,
}

/// Whether a report's checks run: blocked and needs_input stop the run on the
/// agent's own word, so there is no progress to verify.
pub open spec fn is_gated(status: ProgressStatus) -> bool {
    status == ProgressStatus::Continue || status == ProgressStatus::Done
}

/// Where an iteration's sandboxed work stands.
pub enum RalphWork {
    /// The sandbox is about to boot.
    Ready,
    /// The agent is driven to its report.
    Driving(AgentDrive),
    /// The report is being logged.
    Publishing(ProgressReport),
    /// The checks run.
    Checking(ProgressReport, Checks),
}

/// Where an iteration's sandboxed work stands after a reply.
pub type RalphWorkTurn = Turn<RalphWork, Result<Option<IterationResult>, KernelError>>;

/// Whether `turn` is where the work stands after its checks have taken a turn
/// of their own.
pub open spec fn checked(
    report: ProgressReport,
    inner: Turn<Checks, Result<VerifyOutcome, KernelError>>,
    turn: RalphWorkTurn,
) -> bool {
    match inner {
        Turn::Act(checks, effect) => turn == RalphWorkTurn::Act(
            RalphWork::Checking(report, checks),
            effect,
        ),
        Turn::End(Ok(verify)) => turn == RalphWorkTurn::End(
            Ok(Some(IterationResult { report, verify })),
        ),
        Turn::End(Err(error)) => turn == RalphWorkTurn::End(Err(error)),
    }
}

/// Whether `turn` is where the work stands after its drive has taken a turn
/// of its own. The report is logged before its checks, so the log reads claim
/// first, verdict second.
pub open spec fn driven(brief: RalphBrief, inner: AgentDriveTurn, turn: RalphWorkTurn) -> bool {
    match inner {
        Turn::Act(drive, effect) => turn == RalphWorkTurn::Act(RalphWork::Driving(drive), effect),
        Turn::End(Err(error)) => turn == RalphWorkTurn::End(Err(error)),
        Turn::End(Ok(None)) => turn == RalphWorkTurn::End(Ok(None)),
        Turn::End(Ok(Some(report))) => {
            &&& turn matches Turn::Act(next, effect)
            &&& next == RalphWork::Publishing(report)
            &&& kernel::emits(
                effect,
                event::EventView::ProgressReported {
                    iteration: brief.iteration,
                    report: json::JsonView::Object(progress::progress_fields(report@)),
                },
            )
        },
    }
}

fn check(report: ProgressReport, inner: Turn<Checks, Result<VerifyOutcome, KernelError>>) -> (turn:
    RalphWorkTurn)
    ensures
        checked(report, inner, turn),
{
    match inner {
        Turn::Act(checks, effect) => Turn::Act(RalphWork::Checking(report, checks), effect),
        Turn::End(Ok(verify)) => Turn::End(Ok(Some(IterationResult { report, verify }))),
        Turn::End(Err(error)) => Turn::End(Err(error)),
    }
}

impl Work for RalphWork {
    type Brief = RalphBrief;

    type Out = Option<IterationResult>;

    open spec fn steps(
        self,
        ctx: KernelContext,
        brief: RalphBrief,
        reply: Reply,
        turn: RalphWorkTurn,
    ) -> bool {
        match self {
            RalphWork::Driving(drive) => exists|inner: AgentDriveTurn| #[trigger]
                drive.steps(ctx, reply, inner) && driven(brief, inner, turn),
            RalphWork::Checking(report, checks) => exists|
                inner: Turn<Checks, Result<VerifyOutcome, KernelError>>,
            | #[trigger]
                checks.steps(reply, inner) && checked(report, inner, turn),
            _ => if reply is Failed {
                turn == RalphWorkTurn::End(Err(reply->Failed_0))
            } else {
                match self {
                    RalphWork::Ready => {
                        &&& turn matches Turn::Act(next, effect)
                        &&& next == RalphWork::Driving(
                            AgentDrive {
                                iteration: brief.iteration,
                                phase: attempt::AgentDrivePhase::First(
                                    attempt::Attempt {
                                        iteration: brief.iteration,
                                        phase: attempt::AttemptPhase::Starting,
                                    },
                                ),
                            },
                        )
                        &&& invocation::runs_agent(ctx, brief.prompt@, effect)
                    },
                    RalphWork::Publishing(report) => if is_gated(report.status) {
                        exists|inner: Turn<Checks, Result<VerifyOutcome, KernelError>>|
                            verify::enters(
                                brief.iteration,
                                text::texts(ctx.verify.checks@),
                                inner,
                            ) && #[trigger] checked(report, inner, turn)
                    } else {
                        turn == RalphWorkTurn::End(
                            Ok(Some(IterationResult { report, verify: VerifyOutcome::Skipped })),
                        )
                    },
                    _ => false,
                }
            },
        }
    }

    fn step(self, ctx: &KernelContext, brief: &RalphBrief, reply: Reply) -> (turn: RalphWorkTurn) {
        match (self, reply) {
            (RalphWork::Driving(drive), reply) => match drive.step(ctx, reply) {
                Turn::Act(drive, effect) => Turn::Act(RalphWork::Driving(drive), effect),
                Turn::End(Err(error)) => Turn::End(Err(error)),
                Turn::End(Ok(None)) => Turn::End(Ok(None)),
                Turn::End(Ok(Some(report))) => {
                    let event = RunEvent::ProgressReported {
                        iteration: brief.iteration,
                        report: report.to_json(),
                    };
                    Turn::Act(RalphWork::Publishing(report), Effect::Emit(event))
                },
            },
            (RalphWork::Checking(report, checks), reply) => {
                let inner = checks.step(reply);
                check(report, inner)
            },
            (_, Reply::Failed(error)) => Turn::End(Err(error)),
            (RalphWork::Ready, _) => {
                let (drive, effect) = attempt::drive_agent(
                    ctx,
                    brief.iteration,
                    brief.prompt.as_str(),
                );
                Turn::Act(RalphWork::Driving(drive), effect)
            },
            (RalphWork::Publishing(report), _) => match report.status {
                ProgressStatus::Continue | ProgressStatus::Done => {
                    let inner = verify::run_checks(ctx, brief.iteration);
                    check(report, inner)
                },
                ProgressStatus::Blocked | ProgressStatus::NeedsInput => Turn::End(
                    Ok(Some(IterationResult { report, verify: VerifyOutcome::Skipped })),
                ),
            },
        }
    }

    proof fn minds_its_sandbox(
        self,
        ctx: KernelContext,
        brief: RalphBrief,
        reply: Reply,
        next: RalphWork,
        effect: Effect,
    ) {
        let turn = RalphWorkTurn::Act(next, effect);
        if let RalphWork::Driving(drive) = self {
            let inner = choose|inner: AgentDriveTurn| #[trigger]
                drive.steps(ctx, reply, inner) && driven(brief, inner, turn);
            if inner is Act {
                attempt::an_agent_drive_minds_its_sandbox(
                    drive,
                    ctx,
                    reply,
                    inner->Act_0,
                    inner->Act_1,
                );
            }
        } else if let RalphWork::Checking(report, checks) = self {
            let inner = choose|inner: Turn<Checks, Result<VerifyOutcome, KernelError>>|
                #[trigger] checks.steps(reply, inner) && checked(report, inner, turn);
            if inner is Act {
                verify::checks_mind_their_sandbox(checks, reply, inner->Act_0, inner->Act_1);
            }
        }
    }
}

/// What the loop keeps from iteration to iteration.
pub struct RalphProgress {
    pub iteration: u32,
    /// The report the last iteration left.
    pub previous: Option<ProgressReport>,
    /// Why the last iteration did not count.
    pub feedback: Option<Feedback>,
    /// The verify failures that have piled up against the retry budget.
    pub failures: u32,
}

/// What the loop waits for.
pub enum RalphPhase {
    /// The run's start, or its resumption, is being logged. What the human
    /// said rides the first preamble.
    Starting { human: Option<HumanInput> },
    /// The iteration's start is being logged.
    Opening { human: Option<HumanInput> },
    /// The domain prompt is being read. Re-read every iteration: it is
    /// agent-editable.
    Prompting { human: Option<HumanInput> },
    /// The iteration runs.
    Working { brief: RalphBrief, bracket: Bracket<RalphWork> },
    /// The end of a completed iteration is being logged.
    Closing(IterationResult),
    /// The end of a failed iteration is being logged.
    Failing,
    /// The outgrown budget is being logged.
    Budgeting,
    /// The run's last state is being logged.
    Concluding(RunOutcome),
}

/// A run of the single-prompt loop.
pub struct RalphRun {
    pub progress: RalphProgress,
    pub phase: RalphPhase,
}

/// Where a run stands after a reply.
pub type RalphTurn = Turn<RalphRun, Result<RunOutcome, KernelError>>;

/// The view of what a human said.
pub open spec fn human_view(human: Option<HumanInput>) -> Option<preamble::HumanInputView> {
    match human {
        Some(human) => Some(human@),
        None => None,
    }
}

impl RalphProgress {
    /// What the next iteration's agent is shown.
    pub open spec fn framed(
        self,
        ctx: KernelContext,
        human: Option<preamble::HumanInputView>,
    ) -> frame::PreambleView {
        frame::PreambleView {
            iteration: self.iteration,
            max_iterations: ctx.budgets.max_iterations,
            previous: match self.previous {
                Some(report) => Some(report@),
                None => None,
            },
            feedback: match self.feedback {
                Some(feedback) => Some(feedback@),
                None => None,
            },
            human,
        }
    }

    /// Whether `turn` logs the run's last state. Every ending goes out the
    /// same door.
    pub open spec fn concludes(self, outcome: RunOutcome, turn: RalphTurn) -> bool {
        &&& turn matches Turn::Act(next, effect)
        &&& next == (RalphRun { progress: self, phase: RalphPhase::Concluding(outcome) })
        &&& kernel::emits(
            effect,
            event::EventView::StateChanged { state: run::landed(outcome) },
        )
    }

    /// Whether `turn` is the one at the top of the loop: a spent iteration
    /// budget pauses the run, and otherwise the iteration is announced.
    pub open spec fn tops(
        self,
        ctx: KernelContext,
        human: Option<preamble::HumanInputView>,
        turn: RalphTurn,
    ) -> bool {
        &&& turn matches Turn::Act(next, effect)
        &&& next.progress == self
        &&& if ctx.budgets.max_iterations is Some && self.iteration
            > ctx.budgets.max_iterations->0 {
            &&& next.phase is Budgeting
            &&& kernel::emits(
                effect,
                event::EventView::BudgetExhausted { budget: BudgetKind::Iterations },
            )
        } else {
            &&& next.phase matches RalphPhase::Opening { human: carried }
            &&& human_view(carried) == human
            &&& kernel::emits(
                effect,
                event::EventView::IterationStarted { iteration: self.iteration },
            )
        }
    }

    /// Whether `turn` is the one after a completed iteration. An iteration
    /// counts as progress only when its checks pass: a failure feeds the next
    /// preamble and spends one of the flow's retries, and once they are spent
    /// the flow's policy ends the run.
    pub open spec fn gates(
        self,
        ctx: KernelContext,
        result: IterationResult,
        turn: RalphTurn,
    ) -> bool {
        let report = result.report;
        match result.verify {
            VerifyOutcome::Failed { command, output } => if self.failures
                >= ctx.verify.on_fail.retries {
                match ctx.verify.on_fail.action {
                    FailAction::Pause => self.concludes(
                        RunOutcome::Paused(PauseReason::VerifyFailed),
                        turn,
                    ),
                    FailAction::Fail => self.concludes(RunOutcome::Failed, turn),
                }
            } else {
                (RalphProgress {
                    iteration: guardrails::one_more(self.iteration),
                    previous: Some(report),
                    feedback: Some(Feedback::VerifyFailed { command, output }),
                    failures: (self.failures + 1) as u32,
                }).tops(ctx, None, turn)
            },
            _ => match report.status {
                ProgressStatus::Continue => (RalphProgress {
                    iteration: guardrails::one_more(self.iteration),
                    previous: Some(report),
                    feedback: None,
                    failures: 0,
                }).tops(ctx, None, turn),
                ProgressStatus::Done => self.concludes(RunOutcome::Done, turn),
                ProgressStatus::Blocked => self.concludes(
                    RunOutcome::Paused(PauseReason::Blocked),
                    turn,
                ),
                ProgressStatus::NeedsInput => self.concludes(
                    RunOutcome::Paused(PauseReason::AwaitingHuman),
                    turn,
                ),
            },
        }
    }

    fn conclude(self, outcome: RunOutcome) -> (turn: RalphTurn)
        ensures
            self.concludes(outcome, turn),
    {
        let state: RunState = RunState::from(outcome);
        Turn::Act(
            RalphRun { progress: self, phase: RalphPhase::Concluding(outcome) },
            Effect::Emit(RunEvent::StateChanged { state }),
        )
    }

    fn top(self, ctx: &KernelContext, human: Option<HumanInput>) -> (turn: RalphTurn)
        ensures
            self.tops(*ctx, human_view(human), turn),
    {
        let iteration: u32 = self.iteration;
        let spent: bool = match ctx.budgets.max_iterations {
            Some(max) => iteration > max,
            None => false,
        };
        if spent {
            Turn::Act(
                RalphRun { progress: self, phase: RalphPhase::Budgeting },
                Effect::Emit(RunEvent::BudgetExhausted { budget: BudgetKind::Iterations }),
            )
        } else {
            Turn::Act(
                RalphRun { progress: self, phase: RalphPhase::Opening { human } },
                Effect::Emit(RunEvent::IterationStarted { iteration }),
            )
        }
    }

    fn gate(self, ctx: &KernelContext, result: IterationResult) -> (turn: RalphTurn)
        ensures
            self.gates(*ctx, result, turn),
    {
        let IterationResult { report, verify } = result;
        match verify {
            VerifyOutcome::Failed { command, output } => {
                if self.failures >= ctx.verify.on_fail.retries {
                    return match ctx.verify.on_fail.action {
                        FailAction::Pause => self.conclude(
                            RunOutcome::Paused(PauseReason::VerifyFailed),
                        ),
                        FailAction::Fail => self.conclude(RunOutcome::Failed),
                    };
                }
                let next = RalphProgress {
                    iteration: self.iteration.saturating_add(1),
                    previous: Some(report),
                    feedback: Some(Feedback::VerifyFailed { command, output }),
                    failures: self.failures + 1,
                };
                next.top(ctx, None)
            },
            _ => match report.status {
                ProgressStatus::Continue => {
                    let next = RalphProgress {
                        iteration: self.iteration.saturating_add(1),
                        previous: Some(report),
                        feedback: None,
                        failures: 0,
                    };
                    next.top(ctx, None)
                },
                ProgressStatus::Done => self.conclude(RunOutcome::Done),
                ProgressStatus::Blocked => self.conclude(
                    RunOutcome::Paused(PauseReason::Blocked),
                ),
                ProgressStatus::NeedsInput => self.conclude(
                    RunOutcome::Paused(PauseReason::AwaitingHuman),
                ),
            },
        }
    }

    fn prompt(&self, ctx: &KernelContext, human: &Option<HumanInput>, domain: &str) -> (s: String)
        ensures
            s@ == frame::composed(self.framed(*ctx, human_view(*human)), domain@),
    {
        let preamble = Preamble {
            iteration: self.iteration,
            max_iterations: ctx.budgets.max_iterations,
            previous: match &self.previous {
                Some(report) => Some(report),
                None => None,
            },
            feedback: match &self.feedback {
                Some(feedback) => Some(feedback),
                None => None,
            },
            human: match human {
                Some(human) => Some(human),
                None => None,
            },
        };
        assert(preamble@ =~= self.framed(*ctx, human_view(*human)));
        frame::compose(&preamble, domain)
    }
}

impl RalphRun {
    /// Whether `turn` is where the run stands after its bracket has taken a
    /// turn of its own.
    pub open spec fn worked(
        self,
        ctx: KernelContext,
        brief: RalphBrief,
        inner: Turn<Bracket<RalphWork>, Result<Bracketed<Option<IterationResult>>, KernelError>>,
        turn: RalphTurn,
    ) -> bool {
        match inner {
            Turn::Act(bracket, effect) => turn == RalphTurn::Act(
                RalphRun { phase: RalphPhase::Working { brief, bracket }, ..self },
                effect,
            ),
            Turn::End(Err(error)) => turn == RalphTurn::End(Err(error)),
            Turn::End(Ok(Bracketed::Finished(Some(result)))) => {
                &&& turn matches Turn::Act(next, effect)
                &&& next == (RalphRun { phase: RalphPhase::Closing(result), ..self })
                &&& kernel::emits(
                    effect,
                    event::EventView::IterationFinished {
                        iteration: self.progress.iteration,
                        outcome: IterationOutcome::Completed,
                    },
                )
            },
            Turn::End(Ok(Bracketed::Finished(None))) => {
                &&& turn matches Turn::Act(next, effect)
                &&& next == (RalphRun { phase: RalphPhase::Failing, ..self })
                &&& kernel::emits(
                    effect,
                    event::EventView::IterationFinished {
                        iteration: self.progress.iteration,
                        outcome: IterationOutcome::Failed,
                    },
                )
            },
            Turn::End(Ok(_)) => self.progress.concludes(RunOutcome::Cancelled, turn),
        }
    }

    /// Whether `turn` is where the run stands after `reply`.
    pub open spec fn steps(self, ctx: KernelContext, reply: Reply, turn: RalphTurn) -> bool {
        match self.phase {
            RalphPhase::Working { brief, bracket } => exists|
                inner: Turn<
                    Bracket<RalphWork>,
                    Result<Bracketed<Option<IterationResult>>, KernelError>,
                >,
            | #[trigger]
                bracket.steps(ctx, brief, reply, inner) && self.worked(ctx, brief, inner, turn),
            _ => if reply is Failed {
                turn == RalphTurn::End(Err(reply->Failed_0))
            } else {
                match self.phase {
                    RalphPhase::Starting { human } => self.progress.tops(
                        ctx,
                        human_view(human),
                        turn,
                    ),
                    RalphPhase::Opening { human } => {
                        &&& turn matches Turn::Act(next, effect)
                        &&& next == (RalphRun { phase: RalphPhase::Prompting { human }, ..self })
                        &&& effect matches Effect::ReadHostText(path)
                        &&& path@ == workspace::below(
                            ctx.workspace.root@,
                            workspace::DOMAIN_PROMPT_FILE@,
                        )
                    },
                    RalphPhase::Prompting { human } => match reply {
                        Reply::Text(domain) => {
                            &&& turn matches Turn::Act(next, effect)
                            &&& effect is PollCancel
                            &&& next.progress == self.progress
                            &&& next.phase matches RalphPhase::Working { brief, bracket }
                            &&& brief.iteration == self.progress.iteration
                            &&& brief.prompt@ == frame::composed(
                                self.progress.framed(ctx, human_view(human)),
                                domain@,
                            )
                            &&& bracket == (Bracket {
                                deadline: None,
                                phase: BracketPhase::Polling(RalphWork::Ready),
                            })
                        },
                        _ => turn matches Turn::End(Err(KernelError::OutOfStep)),
                    },
                    RalphPhase::Closing(result) => self.progress.gates(ctx, result, turn),
                    RalphPhase::Failing => self.progress.concludes(RunOutcome::Failed, turn),
                    RalphPhase::Budgeting => self.progress.concludes(
                        RunOutcome::Paused(PauseReason::Budget),
                        turn,
                    ),
                    RalphPhase::Concluding(outcome) => turn == RalphTurn::End(Ok(outcome)),
                    _ => false,
                }
            },
        }
    }

    /// Takes the run one reply further.
    pub fn step(self, ctx: &KernelContext, reply: Reply) -> (turn: RalphTurn)
        ensures
            self.steps(*ctx, reply, turn),
    {
        let RalphRun { progress, phase } = self;
        let iteration: u32 = progress.iteration;
        match (phase, reply) {
            (RalphPhase::Working { brief, bracket }, reply) => {
                match bracket.step(ctx, &brief, reply) {
                    Turn::Act(bracket, effect) => Turn::Act(
                        RalphRun { progress, phase: RalphPhase::Working { brief, bracket } },
                        effect,
                    ),
                    Turn::End(Err(error)) => Turn::End(Err(error)),
                    Turn::End(Ok(Bracketed::Finished(Some(result)))) => Turn::Act(
                        RalphRun { progress, phase: RalphPhase::Closing(result) },
                        Effect::Emit(
                            RunEvent::IterationFinished {
                                iteration,
                                outcome: IterationOutcome::Completed,
                            },
                        ),
                    ),
                    Turn::End(Ok(Bracketed::Finished(None))) => Turn::Act(
                        RalphRun { progress, phase: RalphPhase::Failing },
                        Effect::Emit(
                            RunEvent::IterationFinished {
                                iteration,
                                outcome: IterationOutcome::Failed,
                            },
                        ),
                    ),
                    Turn::End(Ok(_)) => progress.conclude(RunOutcome::Cancelled),
                }
            },
            (_, Reply::Failed(error)) => Turn::End(Err(error)),
            (RalphPhase::Starting { human }, _) => progress.top(ctx, human),
            (RalphPhase::Opening { human }, _) => {
                let path = ctx.workspace.domain_prompt_path();
                Turn::Act(
                    RalphRun { progress, phase: RalphPhase::Prompting { human } },
                    Effect::ReadHostText(path),
                )
            },
            (RalphPhase::Prompting { human }, Reply::Text(domain)) => {
                let prompt = progress.prompt(ctx, &human, domain.as_str());
                let brief = RalphBrief { iteration, prompt };
                let (bracket, effect) = bracket::in_fresh_sandbox(RalphWork::Ready, None);
                Turn::Act(
                    RalphRun { progress, phase: RalphPhase::Working { brief, bracket } },
                    effect,
                )
            },
            (RalphPhase::Prompting { .. }, _) => Turn::End(Err(KernelError::OutOfStep)),
            (RalphPhase::Closing(result), _) => progress.gate(ctx, result),
            (RalphPhase::Failing, _) => progress.conclude(RunOutcome::Failed),
            (RalphPhase::Budgeting, _) => progress.conclude(
                RunOutcome::Paused(PauseReason::Budget),
            ),
            (RalphPhase::Concluding(outcome), _) => Turn::End(Ok(outcome)),
        }
    }
}

/// The single-prompt kernel. Stateless: everything a run needs arrives in its
/// context.
#[derive(Debug, Clone, Copy, PartialEq, Eq)]
pub struct RalphKernel;

/// Whether a run is launched as `begun`, asking for `effect`.
pub open spec fn launches(
    ctx: KernelContext,
    resume: Option<Resume>,
    begun: RalphRun,
    effect: Effect,
) -> bool {
    &&& begun.progress.feedback is None
    &&& begun.progress.failures == 0
    &&& match resume {
        Some(resume) => {
            &&& kernel::emits(
                effect,
                event::EventView::RunResumed { note: wire::opt_text(resume.note) },
            )
            &&& begun.progress.iteration == guardrails::one_more(resume.iteration)
            &&& begun.progress.previous == Some(resume.report)
            &&& begun.phase matches RalphPhase::Starting { human: Some(human) }
            &&& human.answers == resume.answers
            &&& human@.note == wire::opt_text(resume.note)
            &&& human@.questions == report::question_views(resume.report.questions@)
        },
        None => {
            &&& kernel::emits(
                effect,
                event::EventView::RunStarted {
                    kernel: KernelName::Ralph.word(),
                    agent: ctx.agent.known_as(),
                },
            )
            &&& begun.progress.iteration == 1
            &&& begun.progress.previous is None
            &&& begun.phase matches RalphPhase::Starting { human: None }
        },
    }
}

impl RalphKernel {
    /// The name flows select the kernel by.
    pub fn name(&self) -> (s: &'static str)
        ensures
            s@ == KernelName::Ralph.word(),
    {
        KernelName::Ralph.as_str()
    }

    /// Begins a run, or takes it up again where the host says it paused: the
    /// human's words ride the first preamble, then the loop is on its own
    /// again.
    pub fn run(&self, ctx: &KernelContext, resume: Option<Resume>) -> (r: (RalphRun, Effect))
        ensures
            launches(*ctx, resume, r.0, r.1),
    {
        match resume {
            Some(resume) => {
                let Resume { iteration, report, answers, note } = resume;
                let questions = report::copied_questions(&report.questions);
                let told = text::copied(&note);
                let human = HumanInput { answers, questions, note };
                (
                    RalphRun {
                        progress: RalphProgress {
                            iteration: iteration.saturating_add(1),
                            previous: Some(report),
                            feedback: None,
                            failures: 0,
                        },
                        phase: RalphPhase::Starting { human: Some(human) },
                    },
                    Effect::Emit(RunEvent::RunResumed { note: told }),
                )
            },
            None => (
                RalphRun {
                    progress: RalphProgress {
                        iteration: 1,
                        previous: None,
                        feedback: None,
                        failures: 0,
                    },
                    phase: RalphPhase::Starting { human: None },
                },
                Effect::Emit(
                    RunEvent::RunStarted {
                        kernel: self.name().to_owned(),
                        agent: ctx.agent.name().to_owned(),
                    },
                ),
            ),
        }
    }
}

/// A done claim ends the single-prompt loop only with its checks not failed,
/// and an outgrown iteration budget opens no iteration.
pub proof fn red_checks_never_end_as_done(
    before: RalphRun,
    ctx: KernelContext,
    reply: Reply,
    next: RalphRun,
    effect: Effect,
)
    requires
        before.steps(ctx, reply, Turn::Act(next, effect)),
    ensures
        next.phase == RalphPhase::Concluding(RunOutcome::Done) ==> (before.phase
            matches RalphPhase::Closing(result) && !(result.verify is Failed)
            && result.report.status == ProgressStatus::Done),
        next.phase is Opening ==> (ctx.budgets.max_iterations matches Some(max)
            ==> next.progress.iteration <= max),
{
}

/// The single-prompt loop never drops a live sandbox: while one is at work,
/// the run goes on with it or destroys it, whatever the host answers.
pub proof fn an_iteration_never_drops_a_live_sandbox(
    before: RalphRun,
    ctx: KernelContext,
    reply: Reply,
    turn: RalphTurn,
)
    requires
        before.phase matches RalphPhase::Working { brief, bracket } && bracket.at_work(),
        before.steps(ctx, reply, turn),
    ensures
        turn matches Turn::Act(next, effect) && (effect is Destroy || (next.phase
            matches RalphPhase::Working { brief, bracket } && bracket.at_work())),
{
    let bracket = before.phase->Working_bracket;
    let brief = before.phase->Working_brief;
    let inner = choose|
        inner: Turn<Bracket<RalphWork>, Result<Bracketed<Option<IterationResult>>, KernelError>>,
    | #[trigger]
        bracket.steps(ctx, brief, reply, inner) && before.worked(ctx, brief, inner, turn);
    bracket::lemma_at_work(bracket, ctx, brief, reply, inner);
}

} // verus!
