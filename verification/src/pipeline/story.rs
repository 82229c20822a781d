//! What a run of the pipeline does, read off what went to and fro alone:
//! wherever it stands, its history calls for what it asks for next.

use crate::accounts;
use crate::bracket::{Bracket, BracketPhase, Bracketed};
use crate::budget::{BudgetKind, Duration};
use crate::event::{EventView, IterationOutcome};
use crate::flow::FailAction;
use crate::history::{self, Sight, Task};
use crate::invocation::{self, Drive};
use crate::json::{self, JsonView};
use crate::kernel::{self, Effect, KernelContext, KernelError, Reply, Turn, Work};
use crate::pipeline::assets;
use crate::pipeline::contract::{self, Stage, StageReport, StageReportView};
use crate::pipeline::frame::{self, FrameView};
use crate::pipeline::pass::{StageEnd, StageRun, StageRunTurn};
use crate::pipeline::stage::{self, StageBrief, StageDrive, StageTurn, StageWork};
use crate::preamble::{self, FeedbackView, HumanInputView};
use crate::report::ReportStatus;
use crate::run::{PauseReason, RunState};
use crate::text;
use crate::verify::{self, CheckView, Checks, VerifyOutcome};
use crate::wire;
use crate::workspace;
use vstd::prelude::*;

verus! {

/// What a run's history shows.
#[verifier::ext_equal]
pub ghost struct Story {
    /// What it shows of the task at hand.
    pub now: Sight,
    /// The iteration at hand, whether it has been announced or entered, the
    /// stages that it is to walk through, and the clock's reading at which it
    /// set out.
    pub iteration: u32,
    pub opened: bool,
    pub course: Seq<Stage>,
    pub since: Duration,
    /// How many of those stages it has left behind, the reports that it hands
    /// on, and the stages that it has begun and reported, each run of one
    /// stage once.
    pub done: nat,
    pub carried: Seq<StageReportView>,
    pub walked: Seq<Seq<char>>,
    pub reported: Seq<Seq<char>>,
    /// How often the stage at hand has failed its checks, and which the last
    /// time.
    pub failures: nat,
    pub blame: Option<CheckView>,
    /// The claim that everything is done.
    pub claim: Option<StageReportView>,
    /// What a human said, and what the next plan is to answer for.
    pub human: Option<HumanInputView>,
    pub feedback: Seq<FeedbackView>,
    /// How the iteration at hand was closed.
    pub closed: Option<IterationOutcome>,
    /// The commit the workspace stood at last, how many completed iterations
    /// in a row left it there, and how many in a row timed out.
    pub head: Seq<char>,
    pub idle: nat,
    pub timeouts: nat,
    /// The tokens that were billed.
    pub spent: Option<u64>,
    /// The budget that was outgrown, whether the workspace has been committed
    /// for a pause, and the state that was logged last.
    pub budget: Option<BudgetKind>,
    pub parked: bool,
    pub state: Option<RunState>,
}

/// The stages of a flow, in order: a prompt of its own makes delivery one.
pub open spec fn stages_of(ctx: KernelContext) -> Seq<Stage> {
    let core = seq![Stage::Plan, Stage::Implement, Stage::Review, Stage::Simplify];
    if ctx.prompts.file("deliver"@) is Some {
        core.push(Stage::Deliver)
    } else {
        core
    }
}

/// The names of stages.
pub open spec fn names(stages: Seq<Stage>) -> Seq<Seq<char>> {
    stages.map_values(|stage: Stage| stage.word())
}

/// A list of names with one more, which is not repeated.
pub open spec fn onward(walked: Seq<Seq<char>>, name: Seq<char>) -> Seq<Seq<char>> {
    if walked.len() > 0 && walked.last() == name {
        walked
    } else {
        walked.push(name)
    }
}

/// The stages that change the workspace.
pub open spec fn changes(stage: Stage) -> bool {
    stage == Stage::Implement || stage == Stage::Review || stage == Stage::Simplify
}

/// Whether a task's report is one whose checks run: a claim that everything is
/// done, and progress that changed the workspace.
pub open spec fn gated(stage: Stage, task: Task) -> bool {
    history::says(task, "done"@) || (changes(stage) && history::says(task, "continue"@))
}

/// The stage at hand.
pub open spec fn at_hand(st: Story) -> Stage {
    st.course[st.done as int]
}

/// What a stage's logged report says.
pub open spec fn read(stage: Stage, report: JsonView) -> StageReportView {
    contract::as_stage_report(stage, report)->0
}

/// A story in which the task at hand is over: a stage that failed its checks
/// is still at hand, one that said `continue` is left behind and hands its
/// report on, and one that said `done` has made a claim.
pub open spec fn settle(st: Story) -> Story {
    let task = st.now.task;
    match task.report {
        None => st,
        Some(report) => if history::red(task) {
            Story { failures: st.failures + 1, blame: Some(task.told.last()), ..st }
        } else if history::says(task, "continue"@) {
            Story {
                done: st.done + 1,
                carried: st.carried.push(read(at_hand(st), report)),
                failures: 0,
                blame: None,
                ..st
            }
        } else {
            Story { claim: Some(read(at_hand(st), report)), ..st }
        },
    }
}

/// A story with one more event logged.
pub open spec fn tell(ctx: KernelContext, st: Story, event: EventView) -> Story {
    match event {
        EventView::IterationStarted { iteration } => Story {
            iteration,
            opened: true,
            course: stages_of(ctx),
            done: 0,
            carried: Seq::empty(),
            walked: Seq::empty(),
            reported: Seq::empty(),
            failures: 0,
            blame: None,
            claim: None,
            closed: None,
            ..st
        },
        EventView::StageStarted { iteration, stage } => Story {
            walked: onward(st.walked, stage),
            ..st
        },
        EventView::StageReported { iteration, stage, report } => Story {
            reported: onward(st.reported, stage),
            ..st
        },
        EventView::IterationFinished { iteration, outcome } => Story {
            closed: Some(outcome),
            human: None,
            timeouts: match outcome {
                IterationOutcome::Completed => 0,
                IterationOutcome::TimedOut => st.timeouts + 1,
                IterationOutcome::Failed => st.timeouts,
            },
            feedback: match (outcome, st.now.task.verdict) {
                (IterationOutcome::TimedOut, _) => seq![
                    FeedbackView::IterationTimedOut { timeout: ctx.budgets.iteration_timeout },
                ],
                (_, Some((true, findings))) => seq![FeedbackView::SkepticRefuted { findings }],
                _ => Seq::empty(),
            },
            ..st
        },
        EventView::TokensUsed { iteration, usage } => Story {
            spent: Some(
                crate::budget::capped_sum(
                    match st.spent {
                        Some(tokens) => tokens as int,
                        None => 0,
                    },
                    usage.total(),
                ) as u64,
            ),
            ..st
        },
        EventView::BudgetExhausted { budget } => Story { budget: Some(budget), ..st },
        EventView::StateChanged { state } => Story { state: Some(state), ..st },
        _ => st,
    }
}

/// A story with one more effect asked for, at the clock's reading `at`.
pub open spec fn see(ctx: KernelContext, st: Story, at: Duration, effect: Effect) -> Story {
    let told = match effect {
        Effect::Emit(event) => tell(ctx, st, event@),
        Effect::PollCancel => Story {
            opened: true,
            since: if sets_out(st) {
                at
            } else {
                st.since
            },
            ..settle(st)
        },
        _ => st,
    };
    Story { now: history::see(st.now, effect), ..told }
}

/// Whether nothing has been done yet in the iteration at hand.
pub open spec fn sets_out(st: Story) -> bool {
    st.now.asked matches Some(Effect::Head) || (st.now.asked matches Some(Effect::Emit(event))
        && event@ is IterationStarted)
}

/// A story with the last effect answered.
pub open spec fn hear(st: Story, reply: Reply) -> Story {
    let told = match (st.now.asked, reply) {
        (Some(Effect::Head), Reply::Head(head)) => Story {
            head: head@,
            idle: if st.closed != Some(IterationOutcome::Completed) {
                st.idle
            } else if head@ != st.head {
                0
            } else {
                st.idle + 1
            },
            ..st
        },
        (Some(Effect::Checkpoint(message)), Reply::Committed(_)) => Story {
            parked: st.parked || message@ == "hako: pause"@,
            ..st
        },
        _ => st,
    };
    Story { now: history::hear(st.now, reply), ..told }
}

/// The feedback that the stage at hand is shown: the check that it failed
/// last, or, where it is the plan, what the loop carried in.
pub open spec fn fed_back(st: Story) -> Seq<FeedbackView> {
    match st.blame {
        Some(verdict) => seq![
            FeedbackView::VerifyFailed { command: verdict.command, output: verdict.output },
        ],
        None => if at_hand(st) == Stage::Plan {
            st.feedback
        } else {
            Seq::empty()
        },
    }
}

/// The stage's own prompt: the flow's, as it was read, or the shipped one.
pub open spec fn domain(ctx: KernelContext, st: Story) -> Seq<char> {
    match ctx.prompts.file(at_hand(st).word()) {
        Some(_) => vstd::utf8::decode_utf8(st.now.task.domain),
        None => assets::default_prompt_text(at_hand(st))->0,
    }
}

/// What the agent of the stage at hand is shown.
pub open spec fn shown(ctx: KernelContext, st: Story) -> FrameView {
    FrameView {
        stage: at_hand(st),
        scope: if at_hand(st) == Stage::Plan {
            wire::opt_text(ctx.scope)
        } else {
            None
        },
        handoff: st.carried,
        feedback: fed_back(st),
        human: if st.done == 0 {
            st.human
        } else {
            None
        },
        domain_prompt: domain(ctx, st),
    }
}

/// Whether a history calls for an effect of the stage at hand.
pub open spec fn stages_rightly(ctx: KernelContext, st: Story, effect: Effect) -> bool {
    let s = st.now;
    let task = s.task;
    let stage = at_hand(st);
    let n = st.iteration;
    if task.report is Some {
        gated(stage, task) && history::checks_rightly(ctx, n, s, effect)
    } else {
        match effect {
            Effect::Emit(event) => match event@ {
                EventView::StageStarted { iteration, stage: name } => {
                    &&& iteration == n
                    &&& name == stage.word()
                    &&& task.stage is None
                },
                EventView::WorkspaceCheckpointed { iteration, commit } => {
                    &&& iteration == n
                    &&& task.stage is Some
                    &&& changes(stage)
                    &&& s.asked matches Some(Effect::Checkpoint(_))
                    &&& s.heard matches Some(Reply::Committed(Some(made)))
                    &&& commit == made@
                },
                EventView::StageReported { iteration, stage: name, report } => {
                    &&& iteration == n
                    &&& name == stage.word()
                    &&& task.stage is Some
                    &&& s.clean
                    &&& task.file matches Some(raw)
                    &&& vstd::utf8::valid_utf8(raw)
                    &&& json::parsed(vstd::utf8::decode_utf8(raw)) matches Some(v)
                    &&& contract::as_stage_report(stage, v) matches Some(view)
                    &&& report == JsonView::Object(contract::report_fields(view))
                    // A stage that changes the workspace has it committed
                    // first.
                    &&& changes(stage) ==> task.saved || (s.asked matches Some(
                        Effect::Checkpoint(_),
                    ) && (s.heard matches Some(Reply::Committed(None))))
                },
                _ => task.stage is Some && history::drives_rightly(
                    ctx,
                    stage,
                    n,
                    frame::composed(shown(ctx, st)),
                    s,
                    effect,
                ),
            },
            Effect::Checkpoint(message) => {
                &&& task.stage is Some
                &&& changes(stage)
                &&& s.clean
                &&& s.heard matches Some(Reply::File(_))
                &&& message@ == stage::stage_message(n, stage)
            },
            Effect::ReadFile(path) => if task.stage is None {
                &&& s.asked matches Some(Effect::Boot { .. })
                &&& ctx.prompts.file(stage.word()) matches Some(file)
                &&& path@ == workspace::below(workspace::GUEST_ROOT@, file)
            } else {
                history::drives_rightly(
                    ctx,
                    stage,
                    n,
                    frame::composed(shown(ctx, st)),
                    s,
                    effect,
                )
            },
            _ => task.stage is Some && history::drives_rightly(
                ctx,
                stage,
                n,
                frame::composed(shown(ctx, st)),
                s,
                effect,
            ),
        }
    }
}

/// The document that a report is logged as.
pub open spec fn document(report: StageReport) -> JsonView {
    JsonView::Object(contract::report_fields(report@))
}

/// The word that a logged report has for where the work stands, and what it
/// reads back as.
pub proof fn lemma_says(task: Task, stage: Stage, report: StageReport)
    requires
        task.report == Some(document(report)),
        report@.stage == stage,
    ensures
        history::says(task, "continue"@) <==> report@.status == ReportStatus::Continue,
        history::says(task, "done"@) <==> report@.status == ReportStatus::Done,
        history::says(task, "blocked"@) <==> report@.status == ReportStatus::Blocked,
        history::says(task, "needs_input"@) <==> report@.status == ReportStatus::NeedsInput,
        read(stage, document(report)) == report@,
{
    contract::lemma_proper(report);
    contract::stage_reports_read_back(report@);
    contract::lemma_status_member(report@);
    reveal_strlit("continue");
    reveal_strlit("done");
    reveal_strlit("blocked");
    reveal_strlit("needs_input");
    assert("continue"@.len() == 8 && "done"@.len() == 4 && "blocked"@.len() == 7
        && "needs_input"@.len() == 11);
}

/// Whether a pass through the stage at hand stands where a history shows it.
pub open spec fn work_stands(work: StageWork, ctx: KernelContext, brief: StageBrief, st: Story) -> bool {
    let s = st.now;
    let task = s.task;
    let whole = frame::composed(shown(ctx, st));
    &&& s.asked is Some
    &&& match work {
        StageWork::Ready => false,
        StageWork::Prompting => s.asked->0 is ReadFile && task.stage is None && task.report is None
            && task.attempts.len() == 0 && task.rejections == 0 && !task.saved && ctx.prompts.file(
            brief.stage.word(),
        ) is Some,
        StageWork::Announcing { prompt } => s.asked->0 is Emit && task.stage is Some
            && task.report is None && task.attempts.len() == 0 && task.rejections == 0
            && !task.saved && prompt@ == whole,
        StageWork::Driving(drive) => task.stage is Some && !task.saved && history::drive_stands(
            ctx,
            brief.stage,
            drive,
            brief.iteration,
            whole,
            s,
        ),
        StageWork::Saving(report) => s.asked->0 is Checkpoint && holds(st, report) && changes(
            brief.stage,
        ),
        StageWork::Recording(report) => s.asked->0 is Emit && holds(st, report) && task.saved,
        StageWork::Publishing(report) => s.asked->0 is Emit && task.report == Some(
            document(report),
        ) && report@.stage == brief.stage && task.run.len() == 0 && task.told.len() == 0
            && task.ended.len() == 0,
        StageWork::Checking(report, checks) => task.report == Some(document(report))
            && report@.stage == brief.stage && gated(brief.stage, task) && history::checks_stand(
            ctx,
            checks,
            brief.iteration,
            s,
        ),
    }
}

/// Whether the file that was read last holds a report of the stage at hand.
pub open spec fn holds(st: Story, report: StageReport) -> bool {
    let task = st.now.task;
    &&& task.stage is Some
    &&& task.report is None
    &&& st.now.clean
    &&& task.file matches Some(raw)
    &&& history::holds(at_hand(st), raw, report)
}

/// Whether a pass through the stage at hand is about what the history calls
/// for.
pub open spec fn brief_stands(brief: StageBrief, st: Story) -> bool {
    &&& st.done < st.course.len()
    &&& brief.iteration == st.iteration
    &&& brief.stage == at_hand(st)
    &&& contract::report_views(brief.handoff@) == st.carried
    &&& preamble::feedback_views(brief.feedback@) == fed_back(st)
    &&& match brief.human {
        Some(human) => st.done == 0 && st.human == Some(human@),
        None => st.done > 0 || st.human is None,
    }
}

/// Whether a pass through the stage at hand came to what the history shows.
pub open spec fn drive_ended(drive: StageDrive, ctx: KernelContext, st: Story) -> bool {
    let task = st.now.task;
    match drive {
        StageDrive::Failed => task.report is None && task.verdict is None && (!st.now.clean
            || task.rejections == 2),
        StageDrive::Reported { report, verify } => {
            &&& task.report == Some(document(report))
            &&& report@.stage == at_hand(st)
            &&& if gated(at_hand(st), task) {
                history::checked(ctx, st.iteration, task, verify)
            } else {
                verify is Skipped && task.told.len() == 0 && task.run.len() == 0
            }
        },
    }
}

/// Whether two stories agree on everything but the task at hand.
pub open spec fn same_loop(a: Story, b: Story) -> bool {
    &&& a.iteration == b.iteration
    &&& a.opened == b.opened
    &&& a.course == b.course
    &&& a.since == b.since
    &&& a.done == b.done
    &&& a.carried == b.carried
    &&& a.failures == b.failures
    &&& a.blame == b.blame
    &&& a.claim == b.claim
    &&& a.human == b.human
    &&& a.feedback == b.feedback
    &&& a.closed == b.closed
    &&& a.head == b.head
    &&& a.idle == b.idle
    &&& a.timeouts == b.timeouts
    &&& a.budget == b.budget
    &&& a.state == b.state
}

/// Whether a run may fail with an error: one that is the host's, or word of a
/// prompt that is no text.
pub open spec fn excused(st: Story, error: KernelError) -> bool {
    ||| history::accounted(st.now, error)
    ||| error is Workspace && (st.now.task.file matches Some(raw) && !vstd::utf8::valid_utf8(raw))
}

/// The stages of a flow have a prompt each, and names of their own.
pub proof fn lemma_stages(ctx: KernelContext)
    ensures
        stage::active_among(ctx.prompts, contract::STAGES as int) == stages_of(ctx),
        4 <= stages_of(ctx).len() <= 5,
        forall|i: int|
            0 <= i < stages_of(ctx).len() ==> (#[trigger] stages_of(ctx)[i]).position() == i,
        forall|i: int|
            0 <= i < stages_of(ctx).len() ==> ctx.prompts.file((#[trigger] stages_of(ctx)[i]).word())
                is Some || assets::default_prompt_text(stages_of(ctx)[i]) is Some,
{
    stage::every_flow_runs_the_core_stages(ctx.prompts);
    let core = seq![Stage::Plan, Stage::Implement, Stage::Review, Stage::Simplify];
    assert(core.push(Stage::Deliver) =~= seq![
        Stage::Plan,
        Stage::Implement,
        Stage::Review,
        Stage::Simplify,
        Stage::Deliver,
    ]);
}

/// Whether the iteration at hand walks through the stages of the flow from
/// some stage on.
pub open spec fn on_course(ctx: KernelContext, st: Story) -> bool {
    exists|from: int|
        0 <= from < stages_of(ctx).len() && st.course == #[trigger] stages_of(ctx).skip(from)
}

pub proof fn lemma_course(ctx: KernelContext, st: Story, i: int, j: int)
    requires
        on_course(ctx, st),
        0 <= i < st.course.len(),
        0 <= j < st.course.len(),
    ensures
        st.course[i].word() == st.course[j].word() ==> i == j,
        ctx.prompts.file(st.course[i].word()) is Some || assets::default_prompt_text(st.course[i])
            is Some,
{
    lemma_stages(ctx);
    let from = choose|from: int|
        0 <= from < stages_of(ctx).len() && st.course == #[trigger] stages_of(ctx).skip(from);
    let all = stages_of(ctx);
    assert(st.course[i] == all[from + i] && st.course[j] == all[from + j]);
    contract::stages_are_told_apart_by_name(st.course[i]);
    contract::stages_are_told_apart_by_name(st.course[j]);
}

/// Whether a turn of a pass through the stage at hand is one that its history
/// calls for.
pub open spec fn work_turn(
    turn: StageTurn,
    ctx: KernelContext,
    brief: StageBrief,
    hs: Story,
    at: Duration,
) -> bool {
    match turn {
        Turn::Act(next, effect) => {
            &&& stages_rightly(ctx, hs, effect)
            &&& work_stands(next, ctx, brief, see(ctx, hs, at, effect))
            &&& kernel::stays_inside(effect)
            &&& see(ctx, hs, at, effect).now.task.verdict is None
        },
        Turn::End(Ok(drive)) => drive_ended(drive, ctx, hs),
        Turn::End(Err(error)) => excused(hs, error) || (ctx.prompts.file(brief.stage.word()) is None
            && assets::default_prompt_text(brief.stage) is None),
    }
}

proof fn lemma_prompting(
    ctx: KernelContext,
    brief: StageBrief,
    reply: Reply,
    turn: StageTurn,
    st: Story,
    at: Duration,
)
    requires
        work_stands(StageWork::Prompting, ctx, brief, st),
        brief_stands(brief, st),
        st.now.task.verdict is None,
        StageWork::Prompting.steps(ctx, brief, reply, turn),
    ensures
        work_turn(turn, ctx, brief, hear(st, reply), at),
{
    let hs = hear(st, reply);
    history::lemma_hear(st.now, reply);
    let read = choose|read: Result<String, KernelError>|
        invocation::prompt_reads(brief.stage.word(), reply, read) && #[trigger] stage::prompted(
            ctx,
            brief,
            read,
            turn,
        );
    if let Ok(words) = read {
        let g = see(ctx, hs, at, turn->Act_1);
        assert(brief.framed(ctx, words@) =~= shown(ctx, g));
    }
}

#[verifier::rlimit(40)]
#[verifier::spinoff_prover]
proof fn lemma_driving(
    drive: Drive,
    ctx: KernelContext,
    brief: StageBrief,
    reply: Reply,
    turn: StageTurn,
    st: Story,
    at: Duration,
)
    requires
        work_stands(StageWork::Driving(drive), ctx, brief, st),
        brief_stands(brief, st),
        st.now.task.verdict is None,
        StageWork::Driving(drive).steps(ctx, brief, reply, turn),
    ensures
        work_turn(turn, ctx, brief, hear(st, reply), at),
{
    let stage = brief.stage;
    let hs = hear(st, reply);
    let inner = choose|inner: Turn<Drive, Result<Option<StageReport>, KernelError>>|
        #[trigger] drive.steps(ctx, stage, reply, inner) && stage::driven(brief, inner, turn);
    let whole = frame::composed(shown(ctx, st));
    history::lemma_drive(drive, ctx, stage, brief.iteration, whole, reply, inner, st.now);
    assert(shown(ctx, hs) =~= shown(ctx, st));
    match inner {
        Turn::Act(next, effect) => {
            let g = see(ctx, hs, at, effect);
            assert(g.now == history::see(hs.now, effect));
            assert(shown(ctx, g) =~= shown(ctx, st));
            assert(work_stands(StageWork::Driving(next), ctx, brief, g));
            assert(stages_rightly(ctx, hs, effect));
        },
        Turn::End(Ok(Some(report))) => {
            assert(report@.stage == stage);
            assert(holds(hs, report));
            if stage::mutates(stage) {
                let g = see(ctx, hs, at, turn->Act_1);
                assert(holds(g, report));
            } else {
                lemma_published(ctx, brief, report, turn, hs, at);
            }
        },
        _ => {},
    }
}

/// One step of a pass through the stage at hand, seen from its history.
proof fn lemma_work(
    work: StageWork,
    ctx: KernelContext,
    brief: StageBrief,
    reply: Reply,
    turn: StageTurn,
    st: Story,
    at: Duration,
)
    requires
        work_stands(work, ctx, brief, st),
        brief_stands(brief, st),
        st.now.task.verdict is None,
        work.steps(ctx, brief, reply, turn),
    ensures
        work_turn(turn, ctx, brief, hear(st, reply), at),
{
    let s = st.now;
    let hs = hear(st, reply);
    match work {
        StageWork::Ready => {},
        StageWork::Prompting => {
            lemma_prompting(ctx, brief, reply, turn, st, at);
        },
        StageWork::Announcing { prompt } => {
            history::lemma_hear(s, reply);
            if !(reply is Failed) {
                let g = see(ctx, hs, at, turn->Act_1);
                assert(shown(ctx, g) =~= shown(ctx, st));
            }
        },
        StageWork::Driving(drive) => {
            lemma_driving(drive, ctx, brief, reply, turn, st, at);
        },
        StageWork::Saving(report) => {
            history::lemma_hear(s, reply);
            assert(holds(hs, report));
            if let Reply::Committed(made) = reply {
                if made is None {
                    lemma_published(ctx, brief, report, turn, hs, at);
                }
            }
        },
        StageWork::Recording(report) => {
            history::lemma_hear(s, reply);
            assert(holds(hs, report));
            if !(reply is Failed) {
                lemma_published(ctx, brief, report, turn, hs, at);
            }
        },
        StageWork::Publishing(report) => {
            lemma_publishing(report, ctx, brief, reply, turn, st, at);
        },
        StageWork::Checking(report, checks) => {
            lemma_checking(report, checks, ctx, brief, reply, turn, st, at);
        },
    }
}

proof fn lemma_publishing(
    report: StageReport,
    ctx: KernelContext,
    brief: StageBrief,
    reply: Reply,
    turn: StageTurn,
    st: Story,
    at: Duration,
)
    requires
        work_stands(StageWork::Publishing(report), ctx, brief, st),
        brief_stands(brief, st),
        st.now.task.verdict is None,
        StageWork::Publishing(report).steps(ctx, brief, reply, turn),
    ensures
        work_turn(turn, ctx, brief, hear(st, reply), at),
{
    let hs = hear(st, reply);
    history::lemma_hear(st.now, reply);
    lemma_says(hs.now.task, brief.stage, report);
    if !(reply is Failed) && stage::is_gated(brief.stage, report@.status) {
        let inner = choose|inner: Turn<Checks, Result<VerifyOutcome, KernelError>>|
            verify::enters(
                brief.iteration,
                text::texts(ctx.verify.checks@),
                inner,
            ) && #[trigger] stage::checked(report, inner, turn);
        history::lemma_checks_begin(ctx, brief.iteration, inner, reply, st.now);
        if let Turn::Act(checks, effect) = inner {
            assert(see(ctx, hs, at, effect).now == history::see(hs.now, effect));
        }
    }
}

proof fn lemma_checking(
    report: StageReport,
    checks: Checks,
    ctx: KernelContext,
    brief: StageBrief,
    reply: Reply,
    turn: StageTurn,
    st: Story,
    at: Duration,
)
    requires
        work_stands(StageWork::Checking(report, checks), ctx, brief, st),
        brief_stands(brief, st),
        st.now.task.verdict is None,
        StageWork::Checking(report, checks).steps(ctx, brief, reply, turn),
    ensures
        work_turn(turn, ctx, brief, hear(st, reply), at),
{
    let hs = hear(st, reply);
    let inner = choose|inner: Turn<Checks, Result<VerifyOutcome, KernelError>>|
        #[trigger] checks.steps(reply, inner) && stage::checked(report, inner, turn);
    history::lemma_checks(checks, ctx, brief.iteration, reply, inner, st.now);
    if let Turn::Act(checks, effect) = inner {
        assert(see(ctx, hs, at, effect).now == history::see(hs.now, effect));
    }
}

/// The report of the stage at hand is logged as the file held it.
proof fn lemma_published(
    ctx: KernelContext,
    brief: StageBrief,
    report: StageReport,
    turn: StageTurn,
    hs: Story,
    at: Duration,
)
    requires
        brief_stands(brief, hs),
        holds(hs, report),
        hs.now.task.verdict is None,
        stage::publishes(brief, report, turn),
        changes(brief.stage) ==> hs.now.task.saved || (hs.now.asked matches Some(
            Effect::Checkpoint(_),
        ) && (hs.now.heard matches Some(Reply::Committed(None)))),
    ensures
        turn is Act,
        stages_rightly(ctx, hs, turn->Act_1),
        work_stands(turn->Act_0, ctx, brief, see(ctx, hs, at, turn->Act_1)),
        see(ctx, hs, at, turn->Act_1).now.task.verdict is None,
{
    let g = see(ctx, hs, at, turn->Act_1);
    assert(report@.stage == brief.stage);
    assert(g.now.task.run.len() == 0);
}

/// Whether nothing has come of the task at hand.
pub open spec fn unbegun(task: Task) -> bool {
    &&& task.stage is None
    &&& task.report is None
    &&& task.verdict is None
    &&& task.attempts.len() == 0
    &&& task.rejections == 0
    &&& !task.saved
}

/// Whether a sandbox is booted as it is to be: once the host has said that
/// the run was not cancelled, over the run's workspace, and with the deadline
/// of the iteration at hand.
pub open spec fn boots_rightly(ctx: KernelContext, st: Story, effect: Effect) -> bool {
    &&& effect matches Effect::Boot { spec, deadline }
    &&& st.now.asked matches Some(Effect::PollCancel)
    &&& !(st.now.heard matches Some(Reply::Cancelled))
    &&& kernel::boots_from(spec, ctx)
    &&& accounts::falls_due(st.since, ctx.budgets.iteration_timeout, deadline)
}

/// Whether the task at hand came to `result`, as its history shows.
pub open spec fn stage_ended(
    result: Result<Bracketed<StageDrive>, KernelError>,
    ctx: KernelContext,
    st: Story,
) -> bool {
    match result {
        Ok(Bracketed::Finished(drive)) => drive_ended(drive, ctx, st),
        Ok(Bracketed::Cancelled) => st.now.task.cancelled,
        Ok(Bracketed::TimedOut) => st.now.task.timed_out,
        Err(error) => excused(st, error),
    }
}

pub open spec fn stage_bracket(
    bracket: Bracket<StageWork>,
    ctx: KernelContext,
    brief: StageBrief,
    st: Story,
) -> bool {
    let s = st.now;
    &&& accounts::falls_due(st.since, ctx.budgets.iteration_timeout, bracket.deadline)
    &&& s.asked is Some
    &&& match bracket.phase {
        BracketPhase::Polling(work) => work is Ready && s.asked->0 is PollCancel && unbegun(s.task),
        BracketPhase::Booting(work) => work is Ready && s.asked->0 is Boot && unbegun(s.task),
        BracketPhase::Working(work) => work_stands(work, ctx, brief, st) && s.task.verdict is None,
        BracketPhase::Destroying(result) => s.asked->0 is Destroy && stage_ended(result, ctx, st)
            && s.task.verdict is None,
    }
}

/// Whether a history calls for an effect inside the bracket of the stage at
/// hand.
pub open spec fn stage_rightly(ctx: KernelContext, st: Story, effect: Effect) -> bool {
    match effect {
        Effect::Boot { .. } => boots_rightly(ctx, st, effect),
        Effect::Destroy => true,
        Effect::PollCancel => false,
        _ => stages_rightly(ctx, st, effect),
    }
}

/// Once its sandbox has booted, the stage at hand reads its prompt or is
/// announced.
#[verifier::rlimit(40)]
#[verifier::spinoff_prover]
proof fn lemma_booted(
    ctx: KernelContext,
    brief: StageBrief,
    reply: Reply,
    turn: StageTurn,
    st: Story,
    at: Duration,
)
    requires
        brief_stands(brief, st),
        unbegun(st.now.task),
        st.now.asked is Some,
        st.now.asked->0 is Boot,
        ctx.prompts.file(brief.stage.word()) is Some || assets::default_prompt_text(brief.stage)
            is Some,
        StageWork::Ready.steps(ctx, brief, Reply::Done, turn),
    ensures
        turn is Act,
        work_turn(turn, ctx, brief, hear(st, reply), at),
{
    let hs = hear(st, reply);
    history::lemma_hear(st.now, reply);
    match ctx.prompts.file(brief.stage.word()) {
        Some(file) => {},
        None => {
            let read = choose|read: Result<String, KernelError>|
                stage::default_reads(brief.stage, read) && #[trigger] stage::prompted(
                    ctx,
                    brief,
                    read,
                    turn,
                );
            if let Ok(words) = read {
                let g = see(ctx, hs, at, turn->Act_1);
                assert(brief.framed(ctx, words@) =~= shown(ctx, g));
            }
        },
    }
}

/// While its sandbox lives, the stage at hand goes on or is torn down.
#[verifier::rlimit(40)]
#[verifier::spinoff_prover]
proof fn lemma_stage_working(
    bracket: Bracket<StageWork>,
    work: StageWork,
    ctx: KernelContext,
    brief: StageBrief,
    reply: Reply,
    turn: Turn<Bracket<StageWork>, Result<Bracketed<StageDrive>, KernelError>>,
    st: Story,
    at: Duration,
)
    requires
        bracket.phase == BracketPhase::Working(work),
        stage_bracket(bracket, ctx, brief, st),
        brief_stands(brief, st),
        ctx.prompts.file(brief.stage.word()) is Some || assets::default_prompt_text(brief.stage)
            is Some,
        bracket.steps(ctx, brief, reply, turn),
    ensures
        turn matches Turn::Act(next, effect) && {
            &&& stage_rightly(ctx, hear(st, reply), effect)
            &&& stage_bracket(next, ctx, brief, see(ctx, hear(st, reply), at, effect))
        },
{
    if !(reply is Cancelled) && !(reply is TimedOut) {
        let inner = choose|inner: StageTurn| #[trigger]
            work.steps(ctx, brief, reply, inner) && bracket.follows(inner, turn);
        lemma_work(work, ctx, brief, reply, inner, st, at);
    }
}

/// The destruction of its sandbox leaves what a stage came to alone.
#[verifier::rlimit(40)]
#[verifier::spinoff_prover]
proof fn lemma_stage_destroyed(
    result: Result<Bracketed<StageDrive>, KernelError>,
    ctx: KernelContext,
    reply: Reply,
    st: Story,
)
    requires
        st.now.asked is Some,
        st.now.asked->0 is Destroy,
        stage_ended(result, ctx, st),
        st.now.task.verdict is None,
    ensures
        stage_ended(result, ctx, hear(st, reply)),
        hear(st, reply).now.task.verdict is None,
{
    history::lemma_hear(st.now, reply);
    if let Ok(Bracketed::Finished(drive)) = result {
        assert(drive_ended(drive, ctx, hear(st, reply)));
    }
}

#[verifier::rlimit(40)]
#[verifier::spinoff_prover]
proof fn lemma_stage_bracket(
    bracket: Bracket<StageWork>,
    ctx: KernelContext,
    brief: StageBrief,
    reply: Reply,
    turn: Turn<Bracket<StageWork>, Result<Bracketed<StageDrive>, KernelError>>,
    st: Story,
    at: Duration,
)
    requires
        stage_bracket(bracket, ctx, brief, st),
        brief_stands(brief, st),
        ctx.prompts.file(brief.stage.word()) is Some || assets::default_prompt_text(brief.stage)
            is Some,
        bracket.steps(ctx, brief, reply, turn),
    ensures
        match turn {
            Turn::Act(next, effect) => {
                &&& stage_rightly(ctx, hear(st, reply), effect)
                &&& stage_bracket(next, ctx, brief, see(ctx, hear(st, reply), at, effect))
            },
            Turn::End(result) => stage_ended(result, ctx, hear(st, reply)) && hear(
                st,
                reply,
            ).now.task.verdict is None && (result matches Ok(Bracketed::Finished(_))
                ==> st.now.asked->0 is Destroy) && (result matches Ok(Bracketed::TimedOut)
                ==> st.now.asked->0 is Destroy),
        },
{
    let s = st.now;
    let hs = hear(st, reply);
    match bracket.phase {
        BracketPhase::Polling(work) => {
            history::lemma_hear(s, reply);
        },
        BracketPhase::Booting(work) => {
            if !(reply is Failed) {
                let inner = choose|inner: StageTurn| #[trigger]
                    work.steps(ctx, brief, Reply::Done, inner) && bracket.follows(inner, turn);
                lemma_booted(ctx, brief, reply, inner, st, at);
            }
        },
        BracketPhase::Working(work) => {
            lemma_stage_working(bracket, work, ctx, brief, reply, turn, st, at);
        },
        BracketPhase::Destroying(result) => {
            lemma_stage_destroyed(result, ctx, reply, st);
        },
    }
}

/// Whether a stage came to `end`, as its history shows: it advances on
/// `continue` and claims on `done`, with the checks that gate it not failed;
/// it pauses on the agent's word, or on failed checks once the flow's retries
/// are spent; and it fails for want of a report, or on failed checks where
/// the flow says so.
pub open spec fn stage_over(end: StageEnd, ctx: KernelContext, st: Story) -> bool {
    let task = st.now.task;
    let red = history::red(task);
    let spent = red && st.failures >= ctx.verify.on_fail.retries;
    match end {
        StageEnd::Advance(report) => {
            &&& task.report == Some(document(report))
            &&& report@.stage == at_hand(st)
            &&& history::says(task, "continue"@)
            &&& !red
            &&& green(ctx, st)
        },
        StageEnd::Done(report) => {
            &&& task.report == Some(document(report))
            &&& report@.stage == at_hand(st)
            &&& history::says(task, "done"@)
            &&& !red
            &&& green(ctx, st)
        },
        StageEnd::Pause { reason, summary } => {
            &&& task.report is Some
            &&& summary@ == read(at_hand(st), task.report->0).summary
            &&& match reason {
                PauseReason::Blocked => history::says(task, "blocked"@) && !red,
                PauseReason::AwaitingHuman => history::says(task, "needs_input"@) && !red,
                PauseReason::VerifyFailed => spent && ctx.verify.on_fail.action
                    == FailAction::Pause,
                _ => false,
            }
        },
        StageEnd::Fail => {
            ||| task.report is None && task.verdict is None && (!st.now.clean || task.rejections
                == 2)
            ||| spent && ctx.verify.on_fail.action == FailAction::Fail
        },
        StageEnd::TimedOut { .. } => task.timed_out,
        StageEnd::Cancelled => task.cancelled,
    }
}

/// Whether every check has passed that gates the report at hand.
pub open spec fn green(ctx: KernelContext, st: Story) -> bool {
    let task = st.now.task;
    if gated(at_hand(st), task) {
        history::checked(ctx, st.iteration, task, VerifyOutcome::Passed)
    } else {
        task.run.len() == 0 && task.told.len() == 0
    }
}

/// Whether a history calls for a next task to begin: the first of the
/// iteration; a stage's, after it failed its checks while the flow has
/// retries; the next stage's, after one that said `continue` and passed its
/// checks; or the skeptic's, after one that said `done` and passed them.
pub open spec fn begins_rightly(ctx: KernelContext, st: Story) -> bool {
    let task = st.now.task;
    &&& st.closed is None
    &&& st.claim is None
    &&& if sets_out(st) {
        st.done == 0 && st.course.len() > 0
    } else {
        &&& st.now.asked matches Some(Effect::Destroy)
        &&& task.report is Some
        &&& if history::red(task) {
            st.failures < ctx.verify.on_fail.retries
        } else {
            &&& green(ctx, st)
            &&& history::says(task, "done"@) || (history::says(task, "continue"@) && st.done + 1
                < st.course.len())
        }
    }
}

pub open spec fn stage_run(run: StageRun, ctx: KernelContext, st: Story) -> bool {
    &&& brief_stands(run.brief, st)
    &&& run.failures == st.failures
    &&& run.deadline == run.bracket.deadline
    &&& st.claim is None
    &&& st.closed is None
    &&& stage_bracket(run.bracket, ctx, run.brief, st)
}

#[verifier::rlimit(40)]
#[verifier::spinoff_prover]
pub proof fn lemma_stage_run(
    run: StageRun,
    ctx: KernelContext,
    reply: Reply,
    turn: StageRunTurn,
    st: Story,
    at: Duration,
)
    requires
        stage_run(run, ctx, st),
        on_course(ctx, st),
        run.steps(ctx, reply, turn),
    ensures
        match turn {
            Turn::Act(next, effect) => {
                &&& if effect is PollCancel {
                    begins_rightly(ctx, hear(st, reply)) && history::red(hear(st, reply).now.task)
                } else {
                    stage_rightly(ctx, hear(st, reply), effect)
                }
                &&& stage_run(next, ctx, see(ctx, hear(st, reply), at, effect))
            },
            Turn::End(Ok((end, handoff))) => {
                &&& stage_over(end, ctx, hear(st, reply))
                &&& contract::report_views(handoff@) == st.carried
                &&& end is Cancelled || st.now.asked->0 is Destroy
                &&& hear(st, reply).now.task.verdict is None
            },
            Turn::End(Err(error)) => excused(hear(st, reply), error),
        },
{
    let hs = hear(st, reply);
    let task = hs.now.task;
    let inner = choose|
        inner: Turn<Bracket<StageWork>, Result<Bracketed<StageDrive>, KernelError>>,
    |
        #[trigger] run.bracket.steps(ctx, run.brief, reply, inner) && run.follows(
            ctx,
            inner,
            turn,
        );
    lemma_course(ctx, st, st.done as int, st.done as int);
    lemma_stage_bracket(run.bracket, ctx, run.brief, reply, inner, st, at);
    match inner {
        Turn::Act(bracket, effect) => {
            let g = see(ctx, hs, at, effect);
            assert(brief_stands(run.brief, g)) by {
                lemma_inside(ctx, hs, at, effect);
            }
        },
        Turn::End(Ok(Bracketed::Finished(StageDrive::Reported { report, verify }))) => {
            lemma_says(task, at_hand(st), report);
            assert(history::red(task) <==> verify is Failed) by {
                if gated(at_hand(st), task) && verify is Passed && task.told.len() > 0 {
                    assert(task.told[task.told.len() - 1].passed);
                }
            }
            if let VerifyOutcome::Failed { command, output } = verify {
                if run.failures < ctx.verify.on_fail.retries {
                    let g = see(ctx, hs, at, turn->Act_1);
                    assert(g.failures == hs.failures + 1);
                    assert(task.told.last().command == command@ && task.told.last().output
                        == output@);
                    assert(fed_back(g) =~= seq![
                        FeedbackView::VerifyFailed { command: command@, output: output@ },
                    ]);
                }
            } else {
                assert(green(ctx, hs)) by {
                    if gated(at_hand(st), task) {
                        assert(verify is Passed);
                    }
                }
            }
        },
        _ => {},
    }
}

/// Inside a task, the loop stands still.
pub proof fn lemma_inside(ctx: KernelContext, hs: Story, at: Duration, effect: Effect)
    requires
        stage_rightly(ctx, hs, effect),
    ensures
        same_loop(see(ctx, hs, at, effect), hs),
        !(effect is PollCancel),
{
}

} // verus!
