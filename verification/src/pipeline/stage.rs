//! One pass through a stage: drive the agent to a report, checkpoint a
//! mutating stage's work, publish the report, and verify what it left. The
//! repair re-prompt and the checks share the invocation's sandbox, because
//! both judge the work it just did.

use crate::event::{self, RunEvent};
use crate::flow::PromptsConfig;
use crate::invocation::{self, Drive};
use crate::json;
use crate::kernel::{self, Effect, KernelContext, KernelError, Reply, Turn, Work};
use crate::pipeline::assets;
use crate::pipeline::contract::{self, Stage, StageReport};
use crate::pipeline::frame::{self, Frame};
use crate::preamble::{self, Feedback, HumanInput};
use crate::report::ReportStatus;
use crate::text;
use crate::verify::{self, Checks, VerifyOutcome};
use crate::wire;
use crate::workspace::{self, WorkspaceError};
use vstd::prelude::*;

verus! {

/// The stages that change the workspace: implement, review, simplify. Only
/// these are checkpointed and verified. Plan selects the unit and deliver
/// publishes; neither mutates the workspace by kernel policy.
pub open spec fn mutates(stage: Stage) -> bool {
    stage == Stage::Implement || stage == Stage::Review || stage == Stage::Simplify
}

/// [`mutates`], computed.
pub fn is_mutating(stage: Stage) -> (r: bool)
    ensures
        r == mutates(stage),
{
    match stage {
        Stage::Implement | Stage::Review | Stage::Simplify => true,
        Stage::Plan | Stage::Deliver => false,
    }
}

/// Whether a stage's report is checked: mutating progress always is, and a
/// `done` claim from any stage needs a current green verdict before it can
/// reach the skeptic. A pausing status skips its checks.
pub open spec fn is_gated(stage: Stage, status: ReportStatus) -> bool {
    status == ReportStatus::Done || (mutates(stage) && status == ReportStatus::Continue)
}

/// [`is_gated`], computed.
pub fn runs_verify(stage: Stage, status: ReportStatus) -> (r: bool)
    ensures
        r == is_gated(stage, status),
{
    status == ReportStatus::Done || (is_mutating(stage) && status == ReportStatus::Continue)
}

/// Whether a stage is part of a flow: a shipped default makes it part of
/// every flow, and a configured prompt opts into one without a default.
pub open spec fn is_active(prompts: PromptsConfig, stage: Stage) -> bool {
    assets::default_prompt_text(stage) is Some || prompts.file(stage.word()) is Some
}

/// [`is_active`], computed.
pub fn active(prompts: &PromptsConfig, stage: Stage) -> (r: bool)
    ensures
        r == is_active(*prompts, stage),
{
    assets::default_prompt(stage).is_some() || prompts.get(stage.as_str()).is_some()
}

/// The active stages among the first `k`, in order.
pub open spec fn active_among(prompts: PromptsConfig, k: int) -> Seq<Stage>
    decreases k,
{
    if k <= 0 {
        Seq::empty()
    } else if is_active(prompts, contract::stage_at(k - 1)) {
        active_among(prompts, k - 1).push(contract::stage_at(k - 1))
    } else {
        active_among(prompts, k - 1)
    }
}

/// The stages an iteration of a flow runs, in order.
pub fn active_stages(prompts: &PromptsConfig) -> (r: Vec<Stage>)
    ensures
        r@ == active_among(*prompts, contract::STAGES as int),
{
    let mut r: Vec<Stage> = Vec::new();
    for i in 0..contract::STAGES
        invariant
            r@ == active_among(*prompts, i as int),
    {
        let stage = Stage::at(i);
        if active(prompts, stage) {
            r.push(stage);
        }
    }
    r
}

/// The four stages with a shipped default are part of every flow, so an
/// iteration always has a stage to run.
pub proof fn every_flow_runs_the_core_stages(prompts: PromptsConfig)
    ensures
        active_among(prompts, contract::STAGES as int) == if prompts.file(Stage::Deliver.word())
            is Some {
            seq![Stage::Plan, Stage::Implement, Stage::Review, Stage::Simplify, Stage::Deliver]
        } else {
            seq![Stage::Plan, Stage::Implement, Stage::Review, Stage::Simplify]
        },
{
    reveal_with_fuel(active_among, 6);
    let core = seq![Stage::Plan, Stage::Implement, Stage::Review, Stage::Simplify];
    assert(active_among(prompts, 4) =~= core);
    assert(core.push(Stage::Deliver) =~= seq![
        Stage::Plan,
        Stage::Implement,
        Stage::Review,
        Stage::Simplify,
        Stage::Deliver,
    ]);
}

/// The message of the failure to find a prompt for a stage.
pub open spec fn no_prompt(stage: Stage) -> Seq<char> {
    "stage `"@ + stage.word() + "` has no default prompt and must be explicitly enabled"@
}

/// Whether `r` is what a stage without an override is prompted with: the
/// shipped default, or nothing where the stage has none.
pub open spec fn default_reads(stage: Stage, r: Result<String, KernelError>) -> bool {
    match assets::default_prompt_text(stage) {
        Some(prompt) => r matches Ok(words) && words@ == prompt,
        None => r matches Err(KernelError::Workspace(error)) && error.0@ == no_prompt(stage),
    }
}

/// [`default_reads`], computed.
pub fn default_or_refusal(stage: Stage) -> (r: Result<String, KernelError>)
    ensures
        default_reads(stage, r),
{
    match assets::default_prompt(stage) {
        Some(prompt) => Ok(prompt.to_owned()),
        None => {
            let mut error = "stage `".to_owned();
            error.append(stage.as_str());
            error.append("` has no default prompt and must be explicitly enabled");
            Err(KernelError::Workspace(WorkspaceError(error)))
        },
    }
}

/// What a pass through a stage is about.
pub struct StageBrief {
    pub iteration: u32,
    pub stage: Stage,
    /// The reports of the stages before.
    pub handoff: Vec<StageReport>,
    /// Feedback on the previous attempt.
    pub feedback: Vec<Feedback>,
    /// What the human said when the run resumed.
    pub human: Option<HumanInput>,
}

impl StageBrief {
    /// What the stage's agent is shown. A parent's assignment reaches the
    /// unit-choosing stage only.
    pub open spec fn framed(self, ctx: KernelContext, domain: Seq<char>) -> frame::FrameView {
        frame::FrameView {
            stage: self.stage,
            scope: if self.stage == Stage::Plan {
                wire::opt_text(ctx.scope)
            } else {
                None
            },
            handoff: contract::report_views(self.handoff@),
            feedback: preamble::feedback_views(self.feedback@),
            human: match self.human {
                Some(human) => Some(human@),
                None => None,
            },
            domain_prompt: domain,
        }
    }

    /// The prompt a pass runs on.
    fn prompt(&self, ctx: &KernelContext, domain: &str) -> (s: String)
        ensures
            s@ == frame::composed(self.framed(*ctx, domain@)),
    {
        let scope: Option<&str> = match (&ctx.scope, self.stage) {
            (Some(scope), Stage::Plan) => Some(scope.as_str()),
            _ => None,
        };
        let human: Option<&HumanInput> = match &self.human {
            Some(human) => Some(human),
            None => None,
        };
        let frame = Frame {
            stage: self.stage,
            scope,
            handoff: self.handoff.as_slice(),
            feedback: self.feedback.as_slice(),
            human,
            domain_prompt: domain,
        };
        assert(frame@ =~= self.framed(*ctx, domain@));
        frame::compose(&frame)
    }
}

/// What one pass through a stage left behind.
#[derive(Debug, PartialEq, Eq)]
pub enum StageDrive {
    /// A parsed report and how the verify checks gating it came out.
    Reported { report: StageReport, verify: VerifyOutcome },
    /// No trustworthy report; the details are already in the log.
    Failed,
}

/// Where a pass through a stage stands.
pub enum StageWork {
    /// The sandbox is about to boot.
    Ready,
    /// The flow's override of the prompt is being read.
    Prompting,
    /// The stage's start is being logged.
    Announcing { prompt: String },
    /// The agent is driven to its report.
    Driving(Drive),
    /// The workspace is being committed.
    Saving(StageReport),
    /// The commit is being logged.
    Recording(StageReport),
    /// The report is being logged.
    Publishing(StageReport),
    /// The checks run.
    Checking(StageReport, Checks),
}

/// Where a pass stands after a reply.
pub type StageTurn = Turn<StageWork, Result<StageDrive, KernelError>>;

/// The message of the commit that a stage's work makes.
pub open spec fn stage_message(iteration: u32, stage: Stage) -> Seq<char> {
    "hako: iteration "@ + text::decimal(iteration as nat) + " "@ + stage.word()
}

/// Whether `turn` announces the stage, its prompt composed around `domain`.
pub open spec fn announces(
    ctx: KernelContext,
    brief: StageBrief,
    domain: Seq<char>,
    turn: StageTurn,
) -> bool {
    &&& turn matches Turn::Act(next, effect)
    &&& next matches StageWork::Announcing { prompt }
    &&& prompt@ == frame::composed(brief.framed(ctx, domain))
    &&& kernel::emits(
        effect,
        event::EventView::StageStarted { iteration: brief.iteration, stage: brief.stage.word() },
    )
}

/// Whether `turn` goes on with the prompt that was read.
pub open spec fn prompted(
    ctx: KernelContext,
    brief: StageBrief,
    read: Result<String, KernelError>,
    turn: StageTurn,
) -> bool {
    match read {
        Ok(domain) => announces(ctx, brief, domain@, turn),
        Err(error) => turn == StageTurn::End(Err(error)),
    }
}

/// Whether `turn` publishes a report. The report is logged before its checks,
/// so the log reads claim first, verdict second.
pub open spec fn publishes(brief: StageBrief, report: StageReport, turn: StageTurn) -> bool {
    &&& turn matches Turn::Act(next, effect)
    &&& next == StageWork::Publishing(report)
    &&& kernel::emits(
        effect,
        event::EventView::StageReported {
            iteration: brief.iteration,
            stage: brief.stage.word(),
            report: json::JsonView::Object(contract::report_fields(report@)),
        },
    )
}

/// Whether `turn` is where a pass stands after its checks have taken a turn
/// of their own.
pub open spec fn checked(
    report: StageReport,
    inner: Turn<Checks, Result<VerifyOutcome, KernelError>>,
    turn: StageTurn,
) -> bool {
    match inner {
        Turn::Act(checks, effect) => turn == StageTurn::Act(
            StageWork::Checking(report, checks),
            effect,
        ),
        Turn::End(Ok(verify)) => turn == StageTurn::End(
            Ok(StageDrive::Reported { report, verify }),
        ),
        Turn::End(Err(error)) => turn == StageTurn::End(Err(error)),
    }
}

/// Whether `turn` is where a pass stands after its drive has taken a turn of
/// its own: a mutating stage's work is committed before its report shows.
pub open spec fn driven(
    brief: StageBrief,
    inner: Turn<Drive, Result<Option<StageReport>, KernelError>>,
    turn: StageTurn,
) -> bool {
    match inner {
        Turn::Act(drive, effect) => turn == StageTurn::Act(StageWork::Driving(drive), effect),
        Turn::End(Err(error)) => turn == StageTurn::End(Err(error)),
        Turn::End(Ok(None)) => turn matches Turn::End(Ok(StageDrive::Failed)),
        Turn::End(Ok(Some(report))) => if mutates(brief.stage) {
            &&& turn matches Turn::Act(next, effect)
            &&& next == StageWork::Saving(report)
            &&& effect matches Effect::Checkpoint(message)
            &&& message@ == stage_message(brief.iteration, brief.stage)
        } else {
            publishes(brief, report, turn)
        },
    }
}

/// The turn that announces the stage, or gives up for want of a prompt.
fn announce(ctx: &KernelContext, brief: &StageBrief, read: Result<String, KernelError>) -> (turn:
    StageTurn)
    ensures
        prompted(*ctx, *brief, read, turn),
{
    match read {
        Ok(domain) => Turn::Act(
            StageWork::Announcing { prompt: brief.prompt(ctx, domain.as_str()) },
            Effect::Emit(
                RunEvent::StageStarted {
                    iteration: brief.iteration,
                    stage: brief.stage.as_str().to_owned(),
                },
            ),
        ),
        Err(error) => Turn::End(Err(error)),
    }
}

/// The turn that publishes a report.
fn publish(brief: &StageBrief, report: StageReport) -> (turn: StageTurn)
    ensures
        publishes(*brief, report, turn),
{
    let event = RunEvent::StageReported {
        iteration: brief.iteration,
        stage: brief.stage.as_str().to_owned(),
        report: report.to_json_value(),
    };
    Turn::Act(StageWork::Publishing(report), Effect::Emit(event))
}

/// The turn after the checks have taken one.
fn check(report: StageReport, inner: Turn<Checks, Result<VerifyOutcome, KernelError>>) -> (turn:
    StageTurn)
    ensures
        checked(report, inner, turn),
{
    match inner {
        Turn::Act(checks, effect) => Turn::Act(StageWork::Checking(report, checks), effect),
        Turn::End(Ok(verify)) => Turn::End(Ok(StageDrive::Reported { report, verify })),
        Turn::End(Err(error)) => Turn::End(Err(error)),
    }
}

/// The turn after the drive has taken one.
fn drive_on(
    brief: &StageBrief,
    inner: Turn<Drive, Result<Option<StageReport>, KernelError>>,
) -> (turn: StageTurn)
    ensures
        driven(*brief, inner, turn),
{
    match inner {
        Turn::Act(drive, effect) => Turn::Act(StageWork::Driving(drive), effect),
        Turn::End(Err(error)) => Turn::End(Err(error)),
        Turn::End(Ok(None)) => Turn::End(Ok(StageDrive::Failed)),
        Turn::End(Ok(Some(report))) => if is_mutating(brief.stage) {
            let mut message = "hako: iteration ".to_owned();
            let number = text::decimal_of(brief.iteration as u64);
            message.append(number.as_str());
            message.append(" ");
            message.append(brief.stage.as_str());
            Turn::Act(StageWork::Saving(report), Effect::Checkpoint(message))
        } else {
            publish(brief, report)
        },
    }
}

impl Work for StageWork {
    type Brief = StageBrief;

    type Out = StageDrive;

    open spec fn steps(
        self,
        ctx: KernelContext,
        brief: StageBrief,
        reply: Reply,
        turn: StageTurn,
    ) -> bool {
        match self {
            StageWork::Prompting => exists|read: Result<String, KernelError>|
                invocation::prompt_reads(brief.stage.word(), reply, read) && #[trigger] prompted(
                    ctx,
                    brief,
                    read,
                    turn,
                ),
            StageWork::Driving(drive) => exists|
                inner: Turn<Drive, Result<Option<StageReport>, KernelError>>,
            | #[trigger]
                drive.steps(ctx, brief.stage, reply, inner) && driven(brief, inner, turn),
            StageWork::Checking(report, checks) => exists|
                inner: Turn<Checks, Result<VerifyOutcome, KernelError>>,
            | #[trigger]
                checks.steps(reply, inner) && checked(report, inner, turn),
            _ => if reply is Failed {
                turn == StageTurn::End(Err(reply->Failed_0))
            } else {
                match self {
                    StageWork::Ready => match ctx.prompts.file(brief.stage.word()) {
                        Some(file) => {
                            &&& turn matches Turn::Act(next, effect)
                            &&& next is Prompting
                            &&& effect matches Effect::ReadFile(path)
                            &&& path@ == workspace::below(workspace::GUEST_ROOT@, file)
                        },
                        None => exists|read: Result<String, KernelError>|
                            default_reads(brief.stage, read) && #[trigger] prompted(
                                ctx,
                                brief,
                                read,
                                turn,
                            ),
                    },
                    StageWork::Announcing { prompt } => {
                        &&& turn matches Turn::Act(next, effect)
                        &&& next matches StageWork::Driving(drive)
                        &&& drive.iteration == brief.iteration
                        &&& drive.phase == invocation::DrivePhase::First(
                            invocation::Invocation {
                                iteration: brief.iteration,
                                phase: invocation::InvocationPhase::Clearing { prompt },
                            },
                        )
                        &&& effect matches Effect::RemoveFile(path)
                        &&& path@ == invocation::report_path()
                    },
                    StageWork::Saving(report) => match reply {
                        Reply::Committed(Some(commit)) => {
                            &&& turn matches Turn::Act(next, effect)
                            &&& next == StageWork::Recording(report)
                            &&& kernel::emits(
                                effect,
                                event::EventView::WorkspaceCheckpointed {
                                    iteration: brief.iteration,
                                    commit: commit@,
                                },
                            )
                        },
                        Reply::Committed(None) => publishes(brief, report, turn),
                        _ => turn matches Turn::End(Err(KernelError::OutOfStep)),
                    },
                    StageWork::Recording(report) => publishes(brief, report, turn),
                    StageWork::Publishing(report) => if is_gated(brief.stage, report@.status) {
                        exists|inner: Turn<Checks, Result<VerifyOutcome, KernelError>>|
                            verify::enters(
                                brief.iteration,
                                text::texts(ctx.verify.checks@),
                                inner,
                            ) && #[trigger] checked(report, inner, turn)
                    } else {
                        turn == StageTurn::End(
                            Ok(StageDrive::Reported { report, verify: VerifyOutcome::Skipped }),
                        )
                    },
                    _ => false,
                }
            },
        }
    }

    fn step(self, ctx: &KernelContext, brief: &StageBrief, reply: Reply) -> (turn: StageTurn) {
        match (self, reply) {
            (StageWork::Prompting, reply) => {
                let read = invocation::read_prompt_override(brief.stage.as_str(), reply);
                announce(ctx, brief, read)
            },
            (StageWork::Driving(drive), reply) => {
                let inner = drive.step(ctx, &brief.stage, reply);
                drive_on(brief, inner)
            },
            (StageWork::Checking(report, checks), reply) => {
                let inner = checks.step(reply);
                check(report, inner)
            },
            (_, Reply::Failed(error)) => Turn::End(Err(error)),
            (StageWork::Ready, _) => match invocation::prompt_override(ctx, brief.stage.as_str()) {
                Some(effect) => Turn::Act(StageWork::Prompting, effect),
                None => {
                    let read = default_or_refusal(brief.stage);
                    announce(ctx, brief, read)
                },
            },
            (StageWork::Announcing { prompt }, _) => {
                let (drive, effect) = invocation::invoke_to_report(ctx, brief.iteration, prompt);
                Turn::Act(StageWork::Driving(drive), effect)
            },
            (StageWork::Saving(report), Reply::Committed(Some(commit))) => Turn::Act(
                StageWork::Recording(report),
                Effect::Emit(
                    RunEvent::WorkspaceCheckpointed { iteration: brief.iteration, commit },
                ),
            ),
            (StageWork::Saving(report), Reply::Committed(None)) => publish(brief, report),
            (StageWork::Saving(_), _) => Turn::End(Err(KernelError::OutOfStep)),
            (StageWork::Recording(report), _) => publish(brief, report),
            (StageWork::Publishing(report), _) => if runs_verify(brief.stage, report.status()) {
                let inner = verify::run_checks(ctx, brief.iteration);
                check(report, inner)
            } else {
                Turn::End(Ok(StageDrive::Reported { report, verify: VerifyOutcome::Skipped }))
            },
        }
    }

    proof fn minds_its_sandbox(
        self,
        ctx: KernelContext,
        brief: StageBrief,
        reply: Reply,
        next: StageWork,
        effect: Effect,
    ) {
        let turn = StageTurn::Act(next, effect);
        if let StageWork::Driving(drive) = self {
            let inner = choose|inner: Turn<Drive, Result<Option<StageReport>, KernelError>>|
                #[trigger] drive.steps(ctx, brief.stage, reply, inner) && driven(
                    brief,
                    inner,
                    turn,
                );
            if inner is Act {
                invocation::a_drive_minds_its_sandbox(
                    drive,
                    ctx,
                    brief.stage,
                    reply,
                    inner->Act_0,
                    inner->Act_1,
                );
            }
        } else if let StageWork::Checking(report, checks) = self {
            let inner = choose|inner: Turn<Checks, Result<VerifyOutcome, KernelError>>|
                #[trigger] checks.steps(reply, inner) && checked(report, inner, turn);
            if inner is Act {
                verify::checks_mind_their_sandbox(checks, reply, inner->Act_0, inner->Act_1);
            }
        }
    }
}

/// A stage's claim is on the log before it is judged, and a gated one is
/// never taken unjudged: a pass that ends with a report has published it,
/// and skipped its checks only where nothing gates it.
pub proof fn a_gated_claim_is_never_taken_unjudged(
    before: StageWork,
    ctx: KernelContext,
    brief: StageBrief,
    reply: Reply,
    turn: StageTurn,
)
    requires
        before.steps(ctx, brief, reply, turn),
        turn matches Turn::End(Ok(StageDrive::Reported { .. })),
    ensures
        before is Publishing || before is Checking,
        turn->End_0->Ok_0->verify is Skipped ==> before is Publishing && !is_gated(
            brief.stage,
            turn->End_0->Ok_0->report@.status,
        ),
{
    if let StageWork::Checking(report, checks) = before {
        let inner = choose|inner: Turn<Checks, Result<VerifyOutcome, KernelError>>|
            #[trigger] checks.steps(reply, inner) && checked(report, inner, turn);
        verify::checks_stop_at_the_first_failure(checks, reply, inner);
    }
}

} // verus!
