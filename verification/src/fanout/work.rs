//! What the fanout kernel does inside a sandbox: plan the units, and put a
//! completion claim to the skeptic.

use crate::event::{self, RunEvent};
use crate::fanout::contract::{self, PlanContract, PlanReport};
use crate::fanout::frame;
use crate::invocation::{self, Drive};
use crate::json;
use crate::kernel::{self, Effect, KernelContext, KernelError, Reply, Turn, Work};
use crate::report::ReportStatus;
use crate::skeptic::{self, Evaluation, SkepticEnd};
use crate::text;
use crate::verify::{self, Checks, VerifyOutcome};
use crate::workspace;
use vstd::prelude::*;

verus! {

/// The prompt slot of the plan, and the name its stage is logged under.
pub const PLAN_SLOT: &'static str = "plan";

/// What a plan is about.
pub struct PlanBrief {
    pub iteration: u32,
    /// What the skeptic found in the last completion claim.
    pub feedback: Vec<String>,
}

/// A plan's report, and how the verify checks gating a claim came out.
#[derive(Debug, PartialEq, Eq)]
pub struct Planned {
    pub report: PlanReport,
    pub verify: VerifyOutcome,
}

/// Where a plan stands.
pub enum PlanWork {
    /// The sandbox is about to boot.
    Ready,
    /// The flow's override of the prompt is being read.
    Prompting,
    /// The plan's start is being logged.
    Announcing { prompt: String },
    /// The agent is driven to its report.
    Driving(Drive),
    /// The report is being logged.
    Publishing(PlanReport),
    /// The checks run.
    Checking(PlanReport, Checks),
}

/// Where a plan stands after a reply.
pub type PlanTurn = Turn<PlanWork, Result<Option<Planned>, KernelError>>;

/// Whether `turn` announces the plan, its prompt composed around `domain`.
pub open spec fn announces(brief: PlanBrief, domain: Seq<char>, turn: PlanTurn) -> bool {
    &&& turn matches Turn::Act(next, effect)
    &&& next matches PlanWork::Announcing { prompt }
    &&& prompt@ == frame::plan_text(domain, text::texts(brief.feedback@))
    &&& kernel::emits(
        effect,
        event::EventView::StageStarted { iteration: brief.iteration, stage: PLAN_SLOT@ },
    )
}

/// Whether `turn` is where a plan stands after its checks have taken a turn
/// of their own.
pub open spec fn checked(
    report: PlanReport,
    inner: Turn<Checks, Result<VerifyOutcome, KernelError>>,
    turn: PlanTurn,
) -> bool {
    match inner {
        Turn::Act(checks, effect) => turn == PlanTurn::Act(
            PlanWork::Checking(report, checks),
            effect,
        ),
        Turn::End(Ok(verify)) => turn == PlanTurn::End(Ok(Some(Planned { report, verify }))),
        Turn::End(Err(error)) => turn == PlanTurn::End(Err(error)),
    }
}

/// Whether `turn` is where a plan stands after its drive has taken a turn of
/// its own.
pub open spec fn driven(
    brief: PlanBrief,
    inner: Turn<Drive, Result<Option<PlanReport>, KernelError>>,
    turn: PlanTurn,
) -> bool {
    match inner {
        Turn::Act(drive, effect) => turn == PlanTurn::Act(PlanWork::Driving(drive), effect),
        Turn::End(Err(error)) => turn == PlanTurn::End(Err(error)),
        Turn::End(Ok(None)) => turn == PlanTurn::End(Ok(None)),
        Turn::End(Ok(Some(report))) => {
            &&& turn matches Turn::Act(next, effect)
            &&& next == PlanWork::Publishing(report)
            &&& kernel::emits(
                effect,
                event::EventView::StageReported {
                    iteration: brief.iteration,
                    stage: PLAN_SLOT@,
                    report: json::JsonView::Object(contract::plan_fields(report@)),
                },
            )
        },
    }
}

/// The turn that announces the plan.
fn announce(brief: &PlanBrief, domain: &str) -> (turn: PlanTurn)
    ensures
        announces(*brief, domain@, turn),
{
    Turn::Act(
        PlanWork::Announcing { prompt: frame::plan(domain, &brief.feedback) },
        Effect::Emit(
            RunEvent::StageStarted { iteration: brief.iteration, stage: PLAN_SLOT.to_owned() },
        ),
    )
}

/// The turn after the checks have taken one.
fn check(report: PlanReport, inner: Turn<Checks, Result<VerifyOutcome, KernelError>>) -> (turn:
    PlanTurn)
    ensures
        checked(report, inner, turn),
{
    match inner {
        Turn::Act(checks, effect) => Turn::Act(PlanWork::Checking(report, checks), effect),
        Turn::End(Ok(verify)) => Turn::End(Ok(Some(Planned { report, verify }))),
        Turn::End(Err(error)) => Turn::End(Err(error)),
    }
}

impl Work for PlanWork {
    type Brief = PlanBrief;

    type Out = Option<Planned>;

    open spec fn steps(
        self,
        ctx: KernelContext,
        brief: PlanBrief,
        reply: Reply,
        turn: PlanTurn,
    ) -> bool {
        match self {
            PlanWork::Prompting => exists|read: Result<String, KernelError>| #[trigger]
                invocation::prompt_reads(PLAN_SLOT@, reply, read) && match read {
                    Ok(domain) => announces(brief, domain@, turn),
                    Err(error) => turn == PlanTurn::End(Err(error)),
                },
            PlanWork::Driving(drive) => exists|
                inner: Turn<Drive, Result<Option<PlanReport>, KernelError>>,
            | #[trigger]
                drive.steps(ctx, PlanContract, reply, inner) && driven(brief, inner, turn),
            PlanWork::Checking(report, checks) => exists|
                inner: Turn<Checks, Result<VerifyOutcome, KernelError>>,
            | #[trigger]
                checks.steps(reply, inner) && checked(report, inner, turn),
            _ => if reply is Failed {
                turn == PlanTurn::End(Err(reply->Failed_0))
            } else {
                match self {
                    PlanWork::Ready => match ctx.prompts.file(PLAN_SLOT@) {
                        Some(file) => {
                            &&& turn matches Turn::Act(next, effect)
                            &&& next is Prompting
                            &&& effect matches Effect::ReadFile(path)
                            &&& path@ == workspace::below(workspace::GUEST_ROOT@, file)
                        },
                        None => announces(brief, contract::PLAN_PROMPT@, turn),
                    },
                    PlanWork::Announcing { prompt } => {
                        &&& turn matches Turn::Act(next, effect)
                        &&& next matches PlanWork::Driving(drive)
                        &&& drive.iteration == brief.iteration
                        &&& drive.phase == invocation::DrivePhase::First(
                            invocation::Invocation {
                                iteration: brief.iteration,
                                phase: invocation::InvocationPhase::Clearing { prompt },
                            },
                        )
                        &&& effect matches Effect::RemoveFile(path)
                        &&& path@ == invocation::report_path()
                    },
                    PlanWork::Publishing(report) => if report.status == ReportStatus::Done {
                        exists|inner: Turn<Checks, Result<VerifyOutcome, KernelError>>|
                            verify::enters(
                                brief.iteration,
                                text::texts(ctx.verify.checks@),
                                inner,
                            ) && #[trigger] checked(report, inner, turn)
                    } else {
                        turn == PlanTurn::End(
                            Ok(Some(Planned { report, verify: VerifyOutcome::Skipped })),
                        )
                    },
                    _ => false,
                }
            },
        }
    }

    fn step(self, ctx: &KernelContext, brief: &PlanBrief, reply: Reply) -> (turn: PlanTurn) {
        match (self, reply) {
            (PlanWork::Prompting, reply) => {
                match invocation::read_prompt_override(PLAN_SLOT, reply) {
                    Ok(domain) => announce(brief, domain.as_str()),
                    Err(error) => Turn::End(Err(error)),
                }
            },
            (PlanWork::Driving(drive), reply) => match drive.step(ctx, &PlanContract, reply) {
                Turn::Act(drive, effect) => Turn::Act(PlanWork::Driving(drive), effect),
                Turn::End(Err(error)) => Turn::End(Err(error)),
                Turn::End(Ok(None)) => Turn::End(Ok(None)),
                Turn::End(Ok(Some(report))) => {
                    let event = RunEvent::StageReported {
                        iteration: brief.iteration,
                        stage: PLAN_SLOT.to_owned(),
                        report: report.to_json_value(),
                    };
                    Turn::Act(PlanWork::Publishing(report), Effect::Emit(event))
                },
            },
            (PlanWork::Checking(report, checks), reply) => {
                let inner = checks.step(reply);
                check(report, inner)
            },
            (_, Reply::Failed(error)) => Turn::End(Err(error)),
            (PlanWork::Ready, _) => match invocation::prompt_override(ctx, PLAN_SLOT) {
                Some(effect) => Turn::Act(PlanWork::Prompting, effect),
                None => announce(brief, contract::default_prompt()),
            },
            (PlanWork::Announcing { prompt }, _) => {
                let (drive, effect) = invocation::invoke_to_report(ctx, brief.iteration, prompt);
                Turn::Act(PlanWork::Driving(drive), effect)
            },
            (PlanWork::Publishing(report), _) => if report.status == ReportStatus::Done {
                let inner = verify::run_checks(ctx, brief.iteration);
                check(report, inner)
            } else {
                Turn::End(Ok(Some(Planned { report, verify: VerifyOutcome::Skipped })))
            },
        }
    }

    proof fn minds_its_sandbox(
        self,
        ctx: KernelContext,
        brief: PlanBrief,
        reply: Reply,
        next: PlanWork,
        effect: Effect,
    ) {
        let turn = PlanTurn::Act(next, effect);
        if let PlanWork::Driving(drive) = self {
            let inner = choose|inner: Turn<Drive, Result<Option<PlanReport>, KernelError>>|
                #[trigger] drive.steps(ctx, PlanContract, reply, inner) && driven(
                    brief,
                    inner,
                    turn,
                );
            if inner is Act {
                invocation::a_drive_minds_its_sandbox(
                    drive,
                    ctx,
                    PlanContract,
                    reply,
                    inner->Act_0,
                    inner->Act_1,
                );
            }
        } else if let PlanWork::Checking(report, checks) = self {
            let inner = choose|inner: Turn<Checks, Result<VerifyOutcome, KernelError>>|
                #[trigger] checks.steps(reply, inner) && checked(report, inner, turn);
            if inner is Act {
                verify::checks_mind_their_sandbox(checks, reply, inner->Act_0, inner->Act_1);
            }
        }
    }
}

/// What the skeptic is to judge.
pub struct ClaimBrief {
    pub iteration: u32,
    pub claim: PlanReport,
}

/// Where the skeptic's work stands.
pub enum JudgeWork {
    /// The sandbox is about to boot.
    Ready,
    /// The flow's override of the prompt is being read.
    Prompting,
    /// The skeptic is driven to its verdict.
    Evaluating(Evaluation),
}

/// Where the skeptic's work stands after a reply.
pub type JudgeTurn = Turn<JudgeWork, Result<SkepticEnd, KernelError>>;

/// Whether `turn` starts the skeptic, its prompt composed around `domain`.
pub open spec fn summons(brief: ClaimBrief, domain: Seq<char>, turn: JudgeTurn) -> bool {
    &&& turn matches Turn::Act(next, effect)
    &&& next matches JudgeWork::Evaluating(evaluation)
    &&& exists|prompt: String|
        prompt@ == frame::skeptic_text(brief.claim@, domain) && evaluation
            == #[trigger] skeptic::begun(brief.iteration, prompt)
    &&& effect matches Effect::RemoveFile(path)
    &&& path@ == invocation::report_path()
}

/// The turn that starts the skeptic.
fn summon(ctx: &KernelContext, brief: &ClaimBrief, domain: &str) -> (turn: JudgeTurn)
    ensures
        summons(*brief, domain@, turn),
{
    let prompt = frame::skeptic(&brief.claim, domain);
    let ghost words = prompt;
    let (evaluation, effect) = skeptic::evaluate(ctx, brief.iteration, prompt);
    assert(evaluation == skeptic::begun(brief.iteration, words));
    Turn::Act(JudgeWork::Evaluating(evaluation), effect)
}

impl Work for JudgeWork {
    type Brief = ClaimBrief;

    type Out = SkepticEnd;

    open spec fn steps(
        self,
        ctx: KernelContext,
        brief: ClaimBrief,
        reply: Reply,
        turn: JudgeTurn,
    ) -> bool {
        match self {
            JudgeWork::Ready => if reply is Failed {
                turn == JudgeTurn::End(Err(reply->Failed_0))
            } else {
                match ctx.prompts.file(PLAN_SLOT@) {
                    Some(file) => {
                        &&& turn matches Turn::Act(next, effect)
                        &&& next is Prompting
                        &&& effect matches Effect::ReadFile(path)
                        &&& path@ == workspace::below(workspace::GUEST_ROOT@, file)
                    },
                    None => summons(brief, contract::PLAN_PROMPT@, turn),
                }
            },
            JudgeWork::Prompting => exists|read: Result<String, KernelError>| #[trigger]
                invocation::prompt_reads(PLAN_SLOT@, reply, read) && match read {
                    Ok(domain) => summons(brief, domain@, turn),
                    Err(error) => turn == JudgeTurn::End(Err(error)),
                },
            JudgeWork::Evaluating(evaluation) => exists|
                inner: Turn<Evaluation, Result<SkepticEnd, KernelError>>,
            | #[trigger]
                evaluation.steps(ctx, reply, inner) && match inner {
                    Turn::Act(evaluation, effect) => turn == JudgeTurn::Act(
                        JudgeWork::Evaluating(evaluation),
                        effect,
                    ),
                    Turn::End(result) => turn == JudgeTurn::End(result),
                },
        }
    }

    fn step(self, ctx: &KernelContext, brief: &ClaimBrief, reply: Reply) -> (turn: JudgeTurn) {
        match self {
            JudgeWork::Ready => match reply {
                Reply::Failed(error) => Turn::End(Err(error)),
                _ => match invocation::prompt_override(ctx, PLAN_SLOT) {
                    Some(effect) => Turn::Act(JudgeWork::Prompting, effect),
                    None => summon(ctx, brief, contract::default_prompt()),
                },
            },
            JudgeWork::Prompting => match invocation::read_prompt_override(PLAN_SLOT, reply) {
                Ok(domain) => summon(ctx, brief, domain.as_str()),
                Err(error) => Turn::End(Err(error)),
            },
            JudgeWork::Evaluating(evaluation) => match evaluation.step(ctx, reply) {
                Turn::Act(evaluation, effect) => Turn::Act(
                    JudgeWork::Evaluating(evaluation),
                    effect,
                ),
                Turn::End(result) => Turn::End(result),
            },
        }
    }

    proof fn minds_its_sandbox(
        self,
        ctx: KernelContext,
        brief: ClaimBrief,
        reply: Reply,
        next: JudgeWork,
        effect: Effect,
    ) {
        if let JudgeWork::Evaluating(evaluation) = self {
            let turn = JudgeTurn::Act(next, effect);
            let inner = choose|inner: Turn<Evaluation, Result<SkepticEnd, KernelError>>|
                #[trigger] evaluation.steps(ctx, reply, inner) && match inner {
                    Turn::Act(evaluation, effect) => turn == JudgeTurn::Act(
                        JudgeWork::Evaluating(evaluation),
                        effect,
                    ),
                    Turn::End(result) => turn == JudgeTurn::End(result),
                };
            skeptic::an_evaluation_minds_its_sandbox(
                evaluation,
                ctx,
                reply,
                inner->Act_0,
                inner->Act_1,
            );
        }
    }
}

} // verus!
