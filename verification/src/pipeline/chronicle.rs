//! What a whole run of the pipeline does, read off what went to and fro
//! alone: wherever it stands, its history calls for what it asks for next.

use crate::accounts;
use crate::agent::AgentAdapter;
use crate::budget::{BudgetKind, BudgetUsage, Duration};
use crate::ending::{Conclusion, ConclusionPhase, EndingView};
use crate::event::{self, EventView, IterationOutcome};
use crate::flow::FailAction;
use crate::history;
use crate::kernel::{self, Effect, KernelContext, KernelError, Reply, Turn};
use crate::pipeline::contract::{self, Stage};
use crate::pipeline::guardrails;
use crate::pipeline::pass::{self, Entry, IterationEnd, PassTurn};
use crate::pipeline::replay;
use crate::pipeline::resume::{self, Position, ResumeError, ResumePoint};
use crate::pipeline::run::{self, Decision, PipelinePhase, PipelineRun, PipelineTurn, Progress};
use crate::pipeline::stage;
use crate::pipeline::story::{self, Story};
use crate::pipeline::walk;
use crate::preamble::{self, FeedbackView};
use crate::run::{self as runs, PauseReason, RunOutcome, RunState};
use crate::wire;
use vstd::prelude::*;

verus! {

/// The story of a run that has not begun yet: a fresh one goes in at the plan
/// of iteration 1, and one that is taken up again where its resume point says.
pub open spec fn dawn(ctx: KernelContext, usage: BudgetUsage, point: Option<ResumePoint>) -> Story {
    Story {
        now: history::nothing(),
        iteration: match point {
            Some(point) => point.iteration,
            None => 1,
        },
        opened: point matches Some(point) && point.position is Interrupted,
        course: match point {
            Some(ResumePoint { position: Position::Interrupted { stage, completed }, .. }) => {
                story::stages_of(ctx).skip(replay::rank(stage))
            },
            _ => story::stages_of(ctx),
        },
        since: Duration::of_secs(0),
        done: 0,
        carried: match point {
            Some(ResumePoint { position: Position::Interrupted { stage, completed }, .. }) => {
                contract::report_views(completed@)
            },
            _ => Seq::empty(),
        },
        walked: Seq::empty(),
        reported: Seq::empty(),
        failures: 0,
        blame: None,
        claim: None,
        human: match point {
            Some(ResumePoint { human: Some(human), .. }) => Some(human@),
            _ => None,
        },
        feedback: Seq::empty(),
        closed: None,
        head: Seq::empty(),
        idle: 0,
        timeouts: 0,
        spent: usage.spent(),
        budget: None,
        parked: false,
        state: None,
    }
}

/// The reading of the clock at which the effect after these replies is asked
/// for.
pub open spec fn moment(from: Duration, heard: Seq<(Duration, Reply)>) -> Duration {
    if heard.len() == 0 {
        from
    } else {
        heard.last().0
    }
}

/// The story `start`, with `effects` asked for and each of them answered, at
/// the clock's readings that come with the replies.
pub open spec fn told(
    ctx: KernelContext,
    start: Story,
    from: Duration,
    effects: Seq<Effect>,
    heard: Seq<(Duration, Reply)>,
) -> Story
    decreases heard.len(),
{
    if heard.len() == 0 {
        start
    } else {
        story::hear(
            story::see(
                ctx,
                told(ctx, start, from, effects.drop_last(), heard.drop_last()),
                moment(from, heard.drop_last()),
                effects.last(),
            ),
            heard.last().1,
        )
    }
}

/// Whether a run that began at `start` stands at `turn` once it has asked for
/// `effects` and each of them was answered.
pub open spec fn comes_to(
    start: PipelineTurn,
    ctx: KernelContext,
    effects: Seq<Effect>,
    heard: Seq<(Duration, Reply)>,
    turn: PipelineTurn,
) -> bool
    decreases heard.len(),
{
    &&& effects.len() == heard.len()
    &&& if heard.len() == 0 {
        turn == start
    } else {
        exists|before: PipelineRun| #[trigger]
            before.steps(ctx, heard.last().0, heard.last().1, turn) && comes_to(
                start,
                ctx,
                effects.drop_last(),
                heard.drop_last(),
                Turn::Act(before, effects.last()),
            )
    }
}

/// One more, as far as a number can reach.
pub open spec fn after(n: u32) -> u32 {
    if n == u32::MAX {
        n
    } else {
        (n + 1) as u32
    }
}

/// One less, as far as there is one.
pub open spec fn ahead(n: u32) -> u32 {
    if n == 0 {
        n
    } else {
        (n - 1) as u32
    }
}

/// How long a run has been active by the reading `at`: what its earlier
/// launches have on the books, and the time since this one.
pub open spec fn active(usage: BudgetUsage, from: Duration, at: Duration) -> nat {
    let running: nat = if at.length() >= from.length() {
        (at.length() - from.length()) as nat
    } else {
        0
    };
    if usage.settled() + running <= Duration::longest() {
        usage.settled() + running
    } else {
        Duration::longest()
    }
}

/// How many iterations count as completed at the top of the loop.
pub open spec fn counted(st: Story) -> u32 {
    match st.closed {
        Some(IterationOutcome::Completed) => st.iteration,
        Some(_) => ahead(after(st.iteration)),
        None => ahead(st.iteration),
    }
}

/// The first budget that a run has outgrown: iterations before time before
/// tokens.
pub open spec fn outgrown(
    ctx: KernelContext,
    usage: BudgetUsage,
    from: Duration,
    st: Story,
    at: Duration,
) -> Option<BudgetKind> {
    let caps = ctx.budgets;
    if caps.max_iterations is Some && caps.max_iterations->0 <= counted(st) {
        Some(BudgetKind::Iterations)
    } else if caps.max_wall_clock is Some && caps.max_wall_clock->0.length() <= active(
        usage,
        from,
        at,
    ) {
        Some(BudgetKind::WallClock)
    } else if caps.max_tokens is Some && st.spent is Some && caps.max_tokens->0 <= st.spent->0 {
        Some(BudgetKind::Tokens)
    } else {
        None
    }
}

/// Whether a history stands at the top of the loop: the commit that the
/// workspace stands at has been read, at the start or after a completed
/// iteration, or an iteration has timed out and the flow has retries left.
pub open spec fn at_top(ctx: KernelContext, st: Story) -> bool {
    match st.closed {
        Some(IterationOutcome::TimedOut) => {
            &&& st.now.asked matches Some(Effect::Emit(event))
            &&& event@ is IterationFinished
            &&& st.timeouts <= ctx.verify.on_fail.retries
        },
        Some(IterationOutcome::Failed) => false,
        _ => {
            &&& st.now.asked matches Some(Effect::Head)
            &&& st.now.heard matches Some(Reply::Head(_))
        },
    }
}

/// The iteration that is due.
pub open spec fn due(ctx: KernelContext, st: Story) -> Option<u32> {
    if !at_top(ctx, st) {
        None
    } else {
        match st.closed {
            None => if st.opened {
                None
            } else {
                Some(st.iteration)
            },
            Some(_) => if st.idle >= 3 {
                None
            } else {
                Some(after(st.iteration))
            },
        }
    }
}

/// Whether a history calls for the iteration at hand to be closed with this
/// outcome: as completed only where it has walked through all of its course,
/// or where its claim was refuted.
pub open spec fn closes_rightly(ctx: KernelContext, st: Story, outcome: IterationOutcome) -> bool {
    let task = st.now.task;
    &&& st.opened
    &&& st.closed is None
    &&& st.now.asked matches Some(Effect::Destroy)
    &&& match outcome {
        IterationOutcome::Completed => match st.claim {
            None => {
                &&& history::says(task, "continue"@)
                &&& story::green(ctx, st)
                &&& walk::walked_through(st)
            },
            Some(_) => task.verdict matches Some((refuted, findings)) && refuted && findings.len()
                > 0,
        },
        IterationOutcome::Failed => match st.claim {
            None => {
                ||| task.report is None && (!st.now.clean || task.rejections == 2)
                ||| history::red(task) && st.failures >= ctx.verify.on_fail.retries
                    && ctx.verify.on_fail.action == FailAction::Fail
            },
            Some(_) => task.verdict is None && (!st.now.clean || task.rejections == 2),
        },
        IterationOutcome::TimedOut => task.timed_out,
    }
}

/// Whether a history calls for a pause for this reason.
pub open spec fn owes(ctx: KernelContext, st: Story, reason: PauseReason) -> bool {
    let task = st.now.task;
    let open = st.opened && st.closed is None && st.claim is None;
    &&& st.budget is Some ==> reason == PauseReason::Budget
    &&& match reason {
        PauseReason::Budget => st.budget is Some,
        PauseReason::Blocked => open && history::says(task, "blocked"@) && !history::red(task),
        PauseReason::AwaitingHuman => open && history::says(task, "needs_input"@) && !history::red(
            task,
        ),
        PauseReason::VerifyFailed => open && history::red(task) && st.failures
            >= ctx.verify.on_fail.retries && ctx.verify.on_fail.action == FailAction::Pause,
        PauseReason::Timeout => st.closed == Some(IterationOutcome::TimedOut) && st.timeouts
            > ctx.verify.on_fail.retries && ctx.verify.on_fail.action == FailAction::Pause,
        PauseReason::Drift => st.closed == Some(IterationOutcome::Completed) && st.idle >= 3,
        _ => false,
    }
}

/// What a human is told of a pause, where its reason settles that.
pub open spec fn told_of(
    ctx: KernelContext,
    st: Story,
    reason: PauseReason,
    summary: Option<Seq<char>>,
) -> bool {
    match reason {
        PauseReason::Blocked | PauseReason::AwaitingHuman | PauseReason::VerifyFailed => summary
            == Some(story::read(story::at_hand(st), st.now.task.report->0).summary),
        PauseReason::Timeout => summary == Some(
            run::timeout_summary(st.iteration, ctx.budgets.iteration_timeout),
        ),
        _ => true,
    }
}

/// The iteration that a pause parks.
pub open spec fn parks(st: Story) -> u32 {
    if st.closed is None && !st.opened {
        ahead(st.iteration)
    } else if st.closed == Some(IterationOutcome::TimedOut) && st.budget is Some {
        ahead(after(st.iteration))
    } else {
        st.iteration
    }
}

/// Whether a history calls for the run's last state to be `state`.
pub open spec fn lands(ctx: KernelContext, st: Story, state: RunState) -> bool {
    let task = st.now.task;
    match state {
        RunState::Running => false,
        RunState::Done => {
            &&& st.opened
            &&& st.closed is None
            &&& st.claim is Some
            &&& task.verdict matches Some((refuted, findings))
            &&& !refuted
            &&& findings.len() == 0
        },
        RunState::Failed => {
            ||| st.closed == Some(IterationOutcome::Failed)
            ||| st.closed == Some(IterationOutcome::TimedOut) && st.timeouts
                > ctx.verify.on_fail.retries && ctx.verify.on_fail.action == FailAction::Fail
        },
        RunState::Cancelled => st.opened && st.closed is None && task.cancelled,
        RunState::Paused { reason } => owes(ctx, st, reason) && st.parked,
    }
}

/// Whether an effect of the iteration at hand is called for.
pub open spec fn works_rightly(
    ctx: KernelContext,
    usage: BudgetUsage,
    from: Duration,
    st: Story,
    at: Duration,
    effect: Effect,
) -> bool {
    &&& st.opened
    &&& st.closed is None
    &&& walk::pass_rightly(ctx, st, effect)
    // Work that a pause interrupted goes on only where the budgets have room.
    &&& effect is PollCancel && at_top(ctx, st) ==> outgrown(ctx, usage, from, st, at) is None
}

/// Whether a run's history calls for the effect that it asks for next.
pub open spec fn asks_rightly(
    ctx: KernelContext,
    usage: BudgetUsage,
    from: Duration,
    st: Story,
    at: Duration,
    effect: Effect,
) -> bool {
    match effect {
        Effect::Emit(event) => match event@ {
            EventView::RunStarted { kernel, agent } => {
                &&& st.now.asked is None
                &&& ctx.replay is None
                &&& kernel == "pipeline"@
                &&& agent == ctx.agent.known_as()
            },
            EventView::IterationStarted { iteration } => {
                &&& due(ctx, st) == Some(iteration)
                &&& outgrown(ctx, usage, from, st, at) is None
            },
            EventView::IterationFinished { iteration, outcome } => {
                &&& iteration == st.iteration
                &&& closes_rightly(ctx, st, outcome)
            },
            EventView::BudgetExhausted { budget } => {
                &&& at_top(ctx, st)
                &&& outgrown(ctx, usage, from, st, at) == Some(budget)
            },
            EventView::StateChanged { state } => lands(ctx, st, state),
            EventView::WorkspaceCheckpointed { iteration, commit } => {
                ||| works_rightly(ctx, usage, from, st, at, effect)
                ||| {
                    &&& st.now.asked matches Some(Effect::Checkpoint(message))
                    &&& message@ == "hako: pause"@
                    &&& st.now.heard matches Some(Reply::Committed(Some(made)))
                    &&& commit == made@
                    &&& iteration == parks(st)
                }
            },
            _ => works_rightly(ctx, usage, from, st, at, effect),
        },
        Effect::Head => match st.now.asked {
            None => ctx.replay is Some,
            Some(Effect::Emit(event)) => event@ is RunStarted || st.closed == Some(
                IterationOutcome::Completed,
            ) && event@ is IterationFinished,
            _ => false,
        },
        Effect::Checkpoint(message) => {
            ||| works_rightly(ctx, usage, from, st, at, effect)
            ||| message@ == "hako: pause"@ && exists|reason: PauseReason| #[trigger]
                owes(ctx, st, reason)
        },
        Effect::Notify(notification) => {
            &&& st.state == Some(RunState::Paused { reason: notification.reason })
            &&& owes(ctx, st, notification.reason)
            &&& notification.run_id@ == ctx.run_id@
            &&& told_of(ctx, st, notification.reason, wire::opt_text(notification.summary))
        },
        _ => works_rightly(ctx, usage, from, st, at, effect),
    }
}

/// Whether a run's outcome is what its history shows: its last state, which
/// was logged, or an error that the host gave cause for.
pub open spec fn ends_rightly(st: Story, end: Result<RunOutcome, KernelError>) -> bool {
    match end {
        Ok(outcome) => st.state == Some(
            match outcome {
                RunOutcome::Done => RunState::Done,
                RunOutcome::Failed => RunState::Failed,
                RunOutcome::Cancelled => RunState::Cancelled,
                RunOutcome::Paused(reason) => RunState::Paused { reason },
            },
        ),
        Err(error) => story::excused(st, error),
    }
}

/// Whether a run begins, taken up at `point` where there is one.
pub open spec fn launched(
    ctx: KernelContext,
    usage: BudgetUsage,
    from: Duration,
    point: Option<ResumePoint>,
    turn: PipelineTurn,
) -> bool {
    exists|opened: BudgetUsage, decision: Decision|
        accounts::opened(usage, from, opened) && #[trigger] PipelineRun::accounts(
            opened,
            from,
            decision,
            turn,
        ) && match (ctx.replay, point) {
            (Some(events), Some(point)) => resume::resumes(event::envelope_views(events@), Ok(point))
                && run::takes_up(ctx, opened, Ok(point), decision),
            (None, None) => run::begins(ctx, opened, decision),
            _ => false,
        }
}

/// Every run that begins is one that its log, where it has one, is taken up
/// from.
pub proof fn a_run_begins_at_its_point(
    ctx: KernelContext,
    usage: BudgetUsage,
    from: Duration,
    begun: PipelineRun,
    first: Effect,
) -> (point: Option<ResumePoint>)
    requires
        run::launches(ctx, usage, from, Turn::Act(begun, first)),
    ensures
        launched(ctx, usage, from, point, Turn::Act(begun, first)),
{
    let turn = PipelineTurn::Act(begun, first);
    let (opened, decision) = choose|opened: BudgetUsage, decision: Decision|
        accounts::opened(usage, from, opened) && #[trigger] run::begins(ctx, opened, decision)
            && PipelineRun::accounts(opened, from, decision, turn);
    match ctx.replay {
        Some(events) => {
            let read = choose|read: Result<ResumePoint, ResumeError>|
                resume::resumes(event::envelope_views(events@), read) && #[trigger] run::takes_up(
                    ctx,
                    opened,
                    read,
                    decision,
                );
            assert(read is Ok);
            assert(PipelineRun::accounts(opened, from, decision, turn));
            Some(read->Ok_0)
        },
        None => {
            assert(PipelineRun::accounts(opened, from, decision, turn));
            None
        },
    }
}

/// Whether an iteration that is about to go in at `entry` is one whose story
/// has not set out yet.
spec fn entry_stands(entry: Entry, ctx: KernelContext, st: Story) -> bool {
    &&& stage::is_active(ctx.prompts, entry.stage)
    &&& entry.starts ==> entry.stage == Stage::Plan && entry.completed@.len() == 0
    &&& st.course == story::stages_of(ctx).skip(replay::rank(entry.stage))
    &&& st.carried == contract::report_views(entry.completed@)
    &&& st.human == match entry.human {
        Some(human) => Some(human@),
        None => None,
    }
    &&& st.done == 0
    &&& st.failures == 0
    &&& st.blame is None
    &&& st.claim is None
    &&& st.closed is None
    &&& st.walked.len() == 0
    &&& st.reported.len() == 0
    &&& st.now.task.report is None
}

/// Whether the end of a run stands where a history shows it.
spec fn ending_stands(conclusion: Conclusion, ctx: KernelContext, st: Story) -> bool {
    &&& st.now.asked is Some
    &&& match conclusion.ending@ {
        EndingView::Done => lands(ctx, st, RunState::Done),
        EndingView::Failed => lands(ctx, st, RunState::Failed),
        EndingView::Cancelled => lands(ctx, st, RunState::Cancelled),
        EndingView::Paused { iteration, reason, summary } => owes(ctx, st, reason) && iteration
            == parks(st) && told_of(ctx, st, reason, summary),
    }
    &&& match conclusion.phase {
        ConclusionPhase::Budgeting => conclusion.ending is Paused && st.now.asked->0 is Emit,
        ConclusionPhase::Saving => conclusion.ending is Paused && (st.now.asked->0
            matches Effect::Checkpoint(message) && message@ == "hako: pause"@),
        ConclusionPhase::Recording => conclusion.ending is Paused && st.now.asked->0 is Emit
            && st.parked,
        ConclusionPhase::Announcing => st.now.asked->0 is Emit && st.state == Some(
            runs::landed(conclusion.ending.comes_to()),
        ),
        ConclusionPhase::Notifying => st.now.asked->0 is Notify && st.state == Some(
            runs::landed(conclusion.ending.comes_to()),
        ),
    }
}

/// Whether the loop stands where a history shows it.
spec fn loop_stands(run: PipelineRun, ctx: KernelContext, st: Story) -> bool {
    let progress = run.progress;
    let rails = progress.rails;
    &&& st.now.asked is Some
    &&& match run.phase {
        PipelinePhase::Ending(conclusion) => ending_stands(conclusion, ctx, st),
        _ => {
            &&& progress.iteration == st.iteration
            &&& st.budget is None
            &&& st.state is None
            &&& rails.no_commit_iterations == st.idle
            &&& st.idle < 3
            &&& match run.phase {
                PipelinePhase::Starting => {
                    &&& st.now.asked->0 matches Effect::Emit(event)
                    &&& event@ is RunStarted
                    &&& !st.opened
                    &&& rails.timeout_failures == st.timeouts
                    &&& st.course == story::stages_of(ctx).skip(0)
                    &&& st.carried.len() == 0
                    &&& st.human is None
                    &&& st.done == 0
                    &&& st.failures == 0
                    &&& st.blame is None
                    &&& st.claim is None
                    &&& st.closed is None
                    &&& st.walked.len() == 0
                    &&& st.reported.len() == 0
                    &&& st.now.task.report is None
                    &&& st.feedback.len() == 0
                },
                PipelinePhase::Rooting(entry) => {
                    &&& st.now.asked->0 is Head
                    &&& entry_stands(entry, ctx, st)
                    &&& st.opened == !entry.starts
                    &&& rails.timeout_failures == st.timeouts
                    &&& st.feedback.len() == 0
                },
                PipelinePhase::Opening(entry, feedback) => {
                    &&& st.now.asked->0 matches Effect::Emit(event)
                    &&& event@ is IterationStarted
                    &&& entry_stands(entry, ctx, st)
                    &&& st.opened
                    &&& progress.head@ == st.head
                    &&& rails.timeout_failures == st.timeouts
                    &&& preamble::feedback_views(feedback@) == st.feedback
                },
                PipelinePhase::Passing(pass) => {
                    &&& walk::pass_stands(pass, ctx, st)
                    &&& st.opened
                    &&& progress.head@ == st.head
                    &&& rails.timeout_failures == st.timeouts
                },
                PipelinePhase::Closing { summary, feedback } => {
                    &&& st.now.asked->0 matches Effect::Emit(event)
                    &&& event@ is IterationFinished
                    &&& st.closed == Some(IterationOutcome::Completed)
                    &&& progress.head@ == st.head
                    &&& st.timeouts == 0
                    &&& st.human is None
                    &&& preamble::feedback_views(feedback@) == st.feedback
                },
                PipelinePhase::Sampling { summary, feedback } => {
                    &&& st.now.asked->0 is Head
                    &&& st.closed == Some(IterationOutcome::Completed)
                    &&& progress.head@ == st.head
                    &&& st.timeouts == 0
                    &&& st.human is None
                    &&& preamble::feedback_views(feedback@) == st.feedback
                },
                PipelinePhase::Failing => {
                    &&& st.now.asked->0 is Emit
                    &&& st.closed == Some(IterationOutcome::Failed)
                },
                PipelinePhase::Expiring => {
                    &&& st.now.asked->0 matches Effect::Emit(event)
                    &&& event@ is IterationFinished
                    &&& st.closed == Some(IterationOutcome::TimedOut)
                    &&& progress.head@ == st.head
                    &&& st.timeouts == rails.timeout_failures + 1
                    &&& st.human is None
                    &&& st.feedback == seq![
                        FeedbackView::IterationTimedOut { timeout: ctx.budgets.iteration_timeout },
                    ]
                },
                PipelinePhase::Ending(_) => false,
            }
        },
    }
}

/// Whether a run's books show what its history does.
spec fn books_stand(books: BudgetUsage, usage: BudgetUsage, from: Duration, st: Story) -> bool {
    &&& books.running_since() == Some(from)
    &&& books.settled() == usage.settled()
    &&& books.spent() == st.spent
}

/// Whether a decision is one that its history calls for; the books are left
/// as they were.
spec fn decides_rightly(
    decision: Decision,
    ctx: KernelContext,
    usage: BudgetUsage,
    from: Duration,
    hs: Story,
    at: Duration,
    books: BudgetUsage,
) -> bool {
    match decision {
        Turn::Act(next, effect) => {
            &&& asks_rightly(ctx, usage, from, hs, at, effect)
            &&& loop_stands(next, ctx, story::see(ctx, hs, at, effect))
            &&& next.progress.usage == books
        },
        Turn::End(end) => ends_rightly(hs, end),
    }
}

/// The end of a run, seen from its history.
#[verifier::rlimit(40)]
proof fn lemma_ending(
    conclusion: Conclusion,
    ctx: KernelContext,
    usage: BudgetUsage,
    from: Duration,
    reply: Reply,
    turn: Turn<Conclusion, Result<RunOutcome, KernelError>>,
    st: Story,
    at: Duration,
)
    requires
        ending_stands(conclusion, ctx, st),
        conclusion.steps(ctx, reply, turn),
    ensures
        match turn {
            Turn::Act(next, effect) => {
                let g = story::see(ctx, story::hear(st, reply), at, effect);
                &&& asks_rightly(ctx, usage, from, story::hear(st, reply), at, effect)
                &&& ending_stands(next, ctx, g)
            },
            Turn::End(end) => ends_rightly(story::hear(st, reply), end),
        },
{
    let hs = story::hear(st, reply);
    history::lemma_hear(st.now, reply);
    assert(hs.now.task.verdict == st.now.task.verdict);
    if let EndingView::Paused { iteration, reason, summary } = conclusion.ending@ {
        assert(owes(ctx, hs, reason));
        if let Turn::Act(next, effect) = turn {
            let g = story::see(ctx, hs, at, effect);
            assert(owes(ctx, g, reason));
        }
    }
}

/// A run that sets out to end, seen from its history.
proof fn lemma_concludes(
    progress: Progress,
    ctx: KernelContext,
    usage: BudgetUsage,
    from: Duration,
    ending: EndingView,
    decision: Decision,
    hs: Story,
    at: Duration,
)
    requires
        progress.concludes(ctx, ending, decision),
        match ending {
            EndingView::Done => lands(ctx, hs, RunState::Done),
            EndingView::Failed => lands(ctx, hs, RunState::Failed),
            EndingView::Cancelled => lands(ctx, hs, RunState::Cancelled),
            EndingView::Paused { iteration, reason, summary } => owes(ctx, hs, reason) && iteration
                == parks(hs) && told_of(ctx, hs, reason, summary),
        },
    ensures
        decides_rightly(decision, ctx, usage, from, hs, at, progress.usage),
{
    let effect = decision->Act_1;
    let g = story::see(ctx, hs, at, effect);
    if let EndingView::Paused { iteration, reason, summary } = ending {
        assert(owes(ctx, g, reason));
    }
}

/// A run that sets out to pause over a budget, seen from its history.
proof fn lemma_pauses(
    progress: Progress,
    ctx: KernelContext,
    usage: BudgetUsage,
    from: Duration,
    iteration: u32,
    budget: BudgetKind,
    decision: Decision,
    hs: Story,
    at: Duration,
)
    requires
        progress.pauses(iteration, budget, decision),
        at_top(ctx, hs),
        outgrown(ctx, usage, from, hs, at) == Some(budget),
        ({
            let told = Story { budget: Some(budget), ..hs };
            iteration == parks(told)
        }),
    ensures
        decides_rightly(decision, ctx, usage, from, hs, at, progress.usage),
{
    let effect = decision->Act_1;
    let g = story::see(ctx, hs, at, effect);
    assert(owes(ctx, g, PauseReason::Budget));
}

/// An iteration leaves the loop alone.
proof fn lemma_kept(ctx: KernelContext, hs: Story, at: Duration, effect: Effect)
    requires
        walk::pass_rightly(ctx, hs, effect),
    ensures
        ({
            let g = story::see(ctx, hs, at, effect);
            &&& g.iteration == hs.iteration
            &&& hs.opened ==> g.opened
            &&& g.head == hs.head
            &&& g.idle == hs.idle
            &&& g.timeouts == hs.timeouts
            &&& g.budget == hs.budget
            &&& g.state == hs.state
        }),
        !(effect is Head),
        effect matches Effect::Emit(event) ==> !(event@ is IterationStarted) && !(event@
            is IterationFinished) && !(event@ is BudgetExhausted) && !(event@ is StateChanged)
            && !(event@ is RunStarted),
        !(effect is Notify),
{
    if !(effect is PollCancel) {
        if hs.claim is Some {
            if walk::judges_rightly(ctx, hs, effect) {
                walk::lemma_judging(ctx, hs, at, effect);
            }
        } else {
            story::lemma_inside(ctx, hs, at, effect);
        }
    }
}

/// What the loop makes of a turn of its iteration, seen from its history.
#[verifier::rlimit(40)]
proof fn lemma_passed(
    progress: Progress,
    ctx: KernelContext,
    usage: BudgetUsage,
    from: Duration,
    inner: PassTurn,
    decision: Decision,
    hs: Story,
    at: Duration,
)
    requires
        walk::pass_turn(inner, ctx, hs, at),
        progress.passed(ctx, inner, decision),
        hs.now.asked is Some,
        hs.opened,
        hs.closed is None,
        hs.budget is None,
        hs.state is None,
        hs.idle < 3,
        progress.iteration == hs.iteration,
        progress.head@ == hs.head,
        progress.rails.no_commit_iterations == hs.idle,
        progress.rails.timeout_failures == hs.timeouts,
        inner is Act && at_top(ctx, hs) ==> outgrown(ctx, usage, from, hs, at) is None,
    ensures
        decides_rightly(decision, ctx, usage, from, hs, at, progress.usage),
{
    match inner {
        Turn::Act(next, effect) => {
            lemma_kept(ctx, hs, at, effect);
            assert(works_rightly(ctx, usage, from, hs, at, effect));
            assert(asks_rightly(ctx, usage, from, hs, at, effect));
        },
        Turn::End(Ok(IterationEnd::Continue { notification_summary, feedback })) => {
            let g = story::see(ctx, hs, at, decision->Act_1);
            if feedback@.len() == 0 {
                assert(preamble::feedback_views(feedback@) =~= Seq::empty());
            }
            assert(preamble::feedback_views(feedback@) == g.feedback);
        },
        Turn::End(Ok(IterationEnd::Done)) => {
            lemma_concludes(progress, ctx, usage, from, EndingView::Done, decision, hs, at);
        },
        Turn::End(Ok(IterationEnd::Pause { reason, summary })) => {
            lemma_concludes(
                progress,
                ctx,
                usage,
                from,
                EndingView::Paused {
                    iteration: progress.iteration,
                    reason,
                    summary: Some(summary@),
                },
                decision,
                hs,
                at,
            );
        },
        Turn::End(Ok(IterationEnd::Cancelled)) => {
            lemma_concludes(progress, ctx, usage, from, EndingView::Cancelled, decision, hs, at);
        },
        _ => {},
    }
}

/// The budgets that the loop asks about are those that its history shows.
proof fn lemma_outgrown(
    progress: Progress,
    ctx: KernelContext,
    usage: BudgetUsage,
    from: Duration,
    hs: Story,
    at: Duration,
)
    requires
        books_stand(progress.usage, usage, from, hs),
    ensures
        progress.outgrown(ctx, at, counted(hs)) == outgrown(ctx, usage, from, hs, at),
        progress.usage.active_at(at) == active(usage, from, at),
{
}

/// The top of the loop, seen from its history.
#[verifier::rlimit(40)]
proof fn lemma_tops(
    progress: Progress,
    ctx: KernelContext,
    usage: BudgetUsage,
    from: Duration,
    entry: Entry,
    feedback: Seq<FeedbackView>,
    decision: Decision,
    hs: Story,
    at: Duration,
)
    requires
        progress.tops(ctx, at, entry, feedback, decision),
        books_stand(progress.usage, usage, from, hs),
        at_top(ctx, hs),
        hs.now.asked is Some,
        hs.budget is None,
        hs.state is None,
        hs.idle < 3,
        progress.head@ == hs.head,
        progress.rails.no_commit_iterations == hs.idle,
        progress.rails.timeout_failures == hs.timeouts,
        hs.feedback == feedback,
        if hs.closed is None {
            &&& progress.iteration == hs.iteration
            &&& entry_stands(entry, ctx, hs)
            &&& hs.opened == !entry.starts
        } else {
            &&& progress.iteration == after(hs.iteration)
            &&& entry.is_fresh()
            &&& hs.human is None
            &&& hs.closed == Some(IterationOutcome::Completed) ==> outgrown(
                ctx,
                usage,
                from,
                hs,
                at,
            ) is None
        },
    ensures
        decides_rightly(decision, ctx, usage, from, hs, at, progress.usage),
{
    lemma_outgrown(progress, ctx, usage, from, hs, at);
    let before = guardrails::one_less(progress.iteration);
    assert(progress.outgrown(ctx, at, before) == outgrown(ctx, usage, from, hs, at));
    match progress.outgrown(ctx, at, before) {
        Some(budget) => {
            let parked = if entry.starts {
                before
            } else {
                progress.iteration
            };
            lemma_pauses(progress, ctx, usage, from, parked, budget, decision, hs, at);
        },
        None => {
            if entry.starts {
                let g = story::see(ctx, hs, at, decision->Act_1);
                let all = story::stages_of(ctx);
                assert(all.skip(0) =~= all);
                assert(contract::report_views(entry.completed@) =~= Seq::empty());
                assert(entry_stands(entry, ctx, g));
            } else {
                let (inner, deadline) = choose|inner: PassTurn, deadline: Option<Duration>|
                    accounts::falls_due(at, ctx.budgets.iteration_timeout, deadline)
                        && #[trigger] pass::opens(
                        ctx,
                        progress.iteration,
                        entry,
                        feedback,
                        deadline,
                        inner,
                    ) && progress.passed(ctx, inner, decision);
                walk::lemma_opens(ctx, entry, feedback, deadline, inner, hs, at);
                lemma_passed(progress, ctx, usage, from, inner, decision, hs, at);
            }
        },
    }
}

/// The next iteration, seen from the history.
proof fn lemma_next(
    progress: Progress,
    ctx: KernelContext,
    usage: BudgetUsage,
    from: Duration,
    feedback: Seq<FeedbackView>,
    decision: Decision,
    hs: Story,
    at: Duration,
)
    requires
        progress.next(ctx, at, feedback, decision),
        books_stand(progress.usage, usage, from, hs),
        at_top(ctx, hs),
        hs.closed is Some,
        hs.now.asked is Some,
        hs.budget is None,
        hs.state is None,
        hs.idle < 3,
        progress.iteration == hs.iteration,
        progress.head@ == hs.head,
        progress.rails.no_commit_iterations == hs.idle,
        progress.rails.timeout_failures == hs.timeouts,
        hs.feedback == feedback,
        hs.human is None,
        hs.closed == Some(IterationOutcome::Completed) ==> outgrown(ctx, usage, from, hs, at)
            is None,
    ensures
        decides_rightly(decision, ctx, usage, from, hs, at, progress.usage),
{
    let onward = Progress { iteration: guardrails::one_more(progress.iteration), ..progress };
    let entry = choose|entry: Entry|
        entry.is_fresh() && #[trigger] onward.tops(ctx, at, entry, feedback, decision);
    lemma_tops(onward, ctx, usage, from, entry, feedback, decision, hs, at);
}

/// What follows a completed iteration, seen from the history.
proof fn lemma_samples(
    run: PipelineRun,
    ctx: KernelContext,
    usage: BudgetUsage,
    from: Duration,
    reply: Reply,
    decision: Decision,
    st: Story,
    at: Duration,
)
    requires
        run.phase is Sampling,
        loop_stands(run, ctx, st),
        books_stand(run.progress.usage, usage, from, st),
        run.decides(ctx, at, reply, decision),
    ensures
        decides_rightly(decision, ctx, usage, from, story::hear(st, reply), at, run.progress.usage),
{
    let hs = story::hear(st, reply);
    history::lemma_hear(st.now, reply);
    if let PipelinePhase::Sampling { summary, feedback } = run.phase {
        if let Reply::Head(head) = reply {
            let told = preamble::feedback_views(feedback@);
            let now = Progress {
                rails: run.progress.rails.after_pass(head@ != run.progress.head@),
                head,
                summary,
                ..run.progress
            };
            assert(run.progress.samples(ctx, at, head, summary, told, decision));
            assert(hs.idle == now.rails.no_commit_iterations);
            lemma_outgrown(now, ctx, usage, from, hs, at);
            match now.outgrown(ctx, at, run.progress.iteration) {
                Some(budget) => {
                    lemma_pauses(
                        now,
                        ctx,
                        usage,
                        from,
                        run.progress.iteration,
                        budget,
                        decision,
                        hs,
                        at,
                    );
                },
                None => {
                    if now.rails.no_commit_iterations >= guardrails::DRIFT_LIMIT {
                        lemma_concludes(
                            now,
                            ctx,
                            usage,
                            from,
                            EndingView::Paused {
                                iteration: run.progress.iteration,
                                reason: PauseReason::Drift,
                                summary: wire::opt_text(summary),
                            },
                            decision,
                            hs,
                            at,
                        );
                    } else {
                        lemma_next(now, ctx, usage, from, told, decision, hs, at);
                    }
                },
            }
        }
    }
}

/// What follows an iteration that timed out, seen from the history.
proof fn lemma_expires(
    run: PipelineRun,
    ctx: KernelContext,
    usage: BudgetUsage,
    from: Duration,
    reply: Reply,
    decision: Decision,
    st: Story,
    at: Duration,
)
    requires
        run.phase is Expiring,
        loop_stands(run, ctx, st),
        books_stand(run.progress.usage, usage, from, st),
        run.decides(ctx, at, reply, decision),
    ensures
        decides_rightly(decision, ctx, usage, from, story::hear(st, reply), at, run.progress.usage),
{
    let hs = story::hear(st, reply);
    history::lemma_hear(st.now, reply);
    if !(reply is Failed) {
        let progress = run.progress;
        let now = Progress { rails: progress.rails.after_timeout(), ..progress };
        assert(progress.expires(ctx, at, decision));
        if progress.rails.timeout_failures >= ctx.verify.on_fail.retries {
            match ctx.verify.on_fail.action {
                FailAction::Pause => {
                    lemma_concludes(
                        now,
                        ctx,
                        usage,
                        from,
                        EndingView::Paused {
                            iteration: progress.iteration,
                            reason: PauseReason::Timeout,
                            summary: Some(
                                run::timeout_summary(
                                    progress.iteration,
                                    ctx.budgets.iteration_timeout,
                                ),
                            ),
                        },
                        decision,
                        hs,
                        at,
                    );
                },
                FailAction::Fail => {
                    lemma_concludes(now, ctx, usage, from, EndingView::Failed, decision, hs, at);
                },
            }
        } else {
            lemma_next(now, ctx, usage, from, hs.feedback, decision, hs, at);
        }
    }
}

/// One decision of the loop, seen from its history.
#[verifier::rlimit(40)]
proof fn lemma_decides(
    run: PipelineRun,
    ctx: KernelContext,
    usage: BudgetUsage,
    from: Duration,
    reply: Reply,
    decision: Decision,
    st: Story,
    at: Duration,
)
    requires
        loop_stands(run, ctx, st),
        books_stand(run.progress.usage, usage, from, st),
        run.decides(ctx, at, reply, decision),
    ensures
        decides_rightly(decision, ctx, usage, from, story::hear(st, reply), at, run.progress.usage),
{
    let hs = story::hear(st, reply);
    let progress = run.progress;
    match run.phase {
        PipelinePhase::Starting => {
            history::lemma_hear(st.now, reply);
            if let Turn::Act(next, effect) = decision {
                let g = story::see(ctx, hs, at, effect);
                let entry = next.phase->Rooting_0;
                assert(contract::report_views(entry.completed@) =~= Seq::empty());
                assert(g.carried =~= Seq::empty());
                assert(entry_stands(entry, ctx, g));
            }
        },
        PipelinePhase::Rooting(entry) => {
            history::lemma_hear(st.now, reply);
            if let Reply::Head(head) = reply {
                let now = Progress { head, ..progress };
                assert(hs.feedback =~= Seq::empty());
                assert(entry_stands(entry, ctx, hs));
                lemma_tops(now, ctx, usage, from, entry, Seq::empty(), decision, hs, at);
            }
        },
        PipelinePhase::Opening(entry, feedback) => {
            history::lemma_hear(st.now, reply);
            if !(reply is Failed) {
                let told = preamble::feedback_views(feedback@);
                let (inner, deadline) = choose|inner: PassTurn, deadline: Option<Duration>|
                    accounts::falls_due(at, ctx.budgets.iteration_timeout, deadline)
                        && #[trigger] pass::opens(
                        ctx,
                        progress.iteration,
                        entry,
                        told,
                        deadline,
                        inner,
                    ) && progress.passed(ctx, inner, decision);
                walk::lemma_opens(ctx, entry, told, deadline, inner, hs, at);
                lemma_passed(progress, ctx, usage, from, inner, decision, hs, at);
            }
        },
        PipelinePhase::Passing(pass) => {
            let inner = choose|inner: PassTurn| #[trigger]
                pass.steps(ctx, reply, inner) && progress.passed(ctx, inner, decision);
            walk::lemma_pass(pass, ctx, reply, inner, st, at);
            assert(!at_top(ctx, hs));
            lemma_passed(progress, ctx, usage, from, inner, decision, hs, at);
        },
        PipelinePhase::Closing { summary, feedback } => {
            history::lemma_hear(st.now, reply);
        },
        PipelinePhase::Sampling { summary, feedback } => {
            lemma_samples(run, ctx, usage, from, reply, decision, st, at);
        },
        PipelinePhase::Failing => {
            history::lemma_hear(st.now, reply);
            if !(reply is Failed) {
                lemma_concludes(
                    progress,
                    ctx,
                    usage,
                    from,
                    EndingView::Failed,
                    decision,
                    hs,
                    at,
                );
            }
        },
        PipelinePhase::Expiring => {
            lemma_expires(run, ctx, usage, from, reply, decision, st, at);
        },
        PipelinePhase::Ending(conclusion) => {
            let inner = choose|inner: Turn<Conclusion, Result<RunOutcome, KernelError>>| #[trigger]
                conclusion.steps(ctx, reply, inner) && match inner {
                    Turn::Act(conclusion, effect) => decision == Decision::Act(
                        PipelineRun { phase: PipelinePhase::Ending(conclusion), ..run },
                        effect,
                    ),
                    Turn::End(result) => decision == Decision::End(result),
                };
            lemma_ending(conclusion, ctx, usage, from, reply, inner, st, at);
        },
    }
}

/// How a run begins, seen from its story.
#[verifier::rlimit(60)]
#[verifier::spinoff_prover]
proof fn lemma_begins(
    ctx: KernelContext,
    usage: BudgetUsage,
    from: Duration,
    point: Option<ResumePoint>,
    begun: PipelineRun,
    first: Effect,
)
    requires
        launched(ctx, usage, from, point, Turn::Act(begun, first)),
    ensures
        ({
            let st = dawn(ctx, usage, point);
            let g = story::see(ctx, st, from, first);
            &&& asks_rightly(ctx, usage, from, st, from, first)
            &&& loop_stands(begun, ctx, g)
            &&& books_stand(begun.progress.usage, usage, from, g)
        }),
{
    let turn = PipelineTurn::Act(begun, first);
    let (opened, decision) = choose|opened: BudgetUsage, decision: Decision|
        accounts::opened(usage, from, opened) && #[trigger] PipelineRun::accounts(
            opened,
            from,
            decision,
            turn,
        ) && match (ctx.replay, point) {
            (Some(events), Some(point)) => resume::resumes(event::envelope_views(events@), Ok(point))
                && run::takes_up(ctx, opened, Ok(point), decision),
            (None, None) => run::begins(ctx, opened, decision),
            _ => false,
        };
    let st = dawn(ctx, usage, point);
    let all = story::stages_of(ctx);
    assert(all.skip(0) =~= all);
    match point {
        None => {},
        Some(point) => {
            let entry = begun.phase->Rooting_0;
            assert(run::re_enters(point, entry));
            if point.position is NewIteration {
                assert(contract::report_views(entry.completed@) =~= Seq::empty());
            }
            assert(entry_stands(entry, ctx, story::see(ctx, st, from, first)));
        },
    }
}

/// Whether a turn of a run is one that its history calls for.
spec fn turns_rightly(
    turn: PipelineTurn,
    ctx: KernelContext,
    usage: BudgetUsage,
    from: Duration,
    st: Story,
    at: Duration,
) -> bool {
    match turn {
        Turn::Act(next, effect) => {
            &&& asks_rightly(ctx, usage, from, st, at, effect)
            &&& stands(next, ctx, usage, from, story::see(ctx, st, at, effect))
        },
        Turn::End((end, closed)) => {
            &&& ends_rightly(st, end)
            &&& closed.spent() == st.spent
            &&& closed.settled() == active(usage, from, at)
        },
    }
}

/// Whether a run stands where a history shows it.
#[verifier::opaque]
spec fn stands(
    run: PipelineRun,
    ctx: KernelContext,
    usage: BudgetUsage,
    from: Duration,
    st: Story,
) -> bool {
    loop_stands(run, ctx, st) && books_stand(run.progress.usage, usage, from, st)
}

/// One step of a run, seen from its history.
#[verifier::rlimit(40)]
proof fn lemma_step(
    before: PipelineRun,
    ctx: KernelContext,
    usage: BudgetUsage,
    from: Duration,
    at: Duration,
    reply: Reply,
    turn: PipelineTurn,
    st: Story,
)
    requires
        stands(before, ctx, usage, from, st),
        before.steps(ctx, at, reply, turn),
    ensures
        turns_rightly(turn, ctx, usage, from, story::hear(st, reply), at),
{
    reveal(stands);
    let hs = story::hear(st, reply);
    let books = before.progress.usage;
    let decision = choose|decision: Decision| #[trigger]
        before.decides(ctx, at, reply, decision) && PipelineRun::accounts(
            books,
            at,
            decision,
            turn,
        );
    lemma_decides(before, ctx, usage, from, reply, decision, st, at);
    match decision {
        Turn::Act(next, effect) => {
            let kept = turn->Act_0;
            let g = story::see(ctx, hs, at, effect);
            lemma_rebooked(next, kept, ctx, g);
            lemma_billed(ctx, hs, at, effect);
        },
        Turn::End(end) => {
            lemma_outgrown(before.progress, ctx, usage, from, st, at);
        },
    }
}

/// Where a run stands does not hang on its books.
#[verifier::rlimit(60)]
#[verifier::spinoff_prover]
proof fn lemma_rebooked(next: PipelineRun, kept: PipelineRun, ctx: KernelContext, g: Story)
    requires
        loop_stands(next, ctx, g),
        kept == (PipelineRun {
            progress: Progress { usage: kept.progress.usage, ..next.progress },
            ..next
        }),
    ensures
        loop_stands(kept, ctx, g),
{
    assert(kept.phase == next.phase);
}

#[verifier::rlimit(40)]
proof fn lemma_told(
    ctx: KernelContext,
    usage: BudgetUsage,
    from: Duration,
    point: Option<ResumePoint>,
    begun: PipelineRun,
    first: Effect,
    effects: Seq<Effect>,
    heard: Seq<(Duration, Reply)>,
    turn: PipelineTurn,
)
    requires
        launched(ctx, usage, from, point, Turn::Act(begun, first)),
        comes_to(Turn::Act(begun, first), ctx, effects, heard, turn),
    ensures
        turns_rightly(
            turn,
            ctx,
            usage,
            from,
            told(ctx, dawn(ctx, usage, point), from, effects, heard),
            moment(from, heard),
        ),
    decreases heard.len(),
{
    let start = PipelineTurn::Act(begun, first);
    if heard.len() == 0 {
        reveal(stands);
        lemma_begins(ctx, usage, from, point, begun, first);
    } else {
        let before = choose|before: PipelineRun| #[trigger]
            before.steps(ctx, heard.last().0, heard.last().1, turn) && comes_to(
                start,
                ctx,
                effects.drop_last(),
                heard.drop_last(),
                Turn::Act(before, effects.last()),
            );
        lemma_told(
            ctx,
            usage,
            from,
            point,
            begun,
            first,
            effects.drop_last(),
            heard.drop_last(),
            Turn::Act(before, effects.last()),
        );
        let earlier = told(ctx, dawn(ctx, usage, point), from, effects.drop_last(), heard.drop_last());
        let st = story::see(ctx, earlier, moment(from, heard.drop_last()), effects.last());
        lemma_step(before, ctx, usage, from, heard.last().0, heard.last().1, turn, st);
    }
}

/// A bill counts once it is logged.
proof fn lemma_billed(ctx: KernelContext, hs: Story, at: Duration, effect: Effect)
    ensures
        story::see(ctx, hs, at, effect).spent == accounts::spent_after(hs.spent, effect),
{
}

/// What a run does, its history calls for. However long a run of the pipeline
/// has gone on and whatever the host has answered, the effect that it asks
/// for next is one that the history of effects and replies calls for; and
/// once it ends, its outcome is the state that it logged last, or an error
/// that the host gave cause for.
///
/// An iteration is announced only where it is due and every budget has room.
/// It is closed as completed only once every stage of its course has been
/// begun and reported in the flow's order, or its claim was refuted. Each
/// pause has the one reason that its history shows, and shows only once the
/// workspace has been committed.
pub proof fn a_run_goes_by_its_history(
    ctx: KernelContext,
    usage: BudgetUsage,
    from: Duration,
    point: Option<ResumePoint>,
    begun: PipelineRun,
    first: Effect,
    effects: Seq<Effect>,
    heard: Seq<(Duration, Reply)>,
    turn: PipelineTurn,
)
    requires
        launched(ctx, usage, from, point, Turn::Act(begun, first)),
        comes_to(Turn::Act(begun, first), ctx, effects, heard, turn),
    ensures
        ({
            let st = told(ctx, dawn(ctx, usage, point), from, effects, heard);
            let at = moment(from, heard);
            match turn {
                Turn::Act(_, effect) => asks_rightly(ctx, usage, from, st, at, effect),
                Turn::End((end, closed)) => {
                    &&& ends_rightly(st, end)
                    &&& closed.spent() == st.spent
                    &&& closed.settled() == active(usage, from, at)
                },
            }
        }),
{
    lemma_told(ctx, usage, from, point, begun, first, effects, heard, turn);
}

/// Whether some effect announces an iteration.
pub open spec fn announces(effects: Seq<Effect>) -> bool {
    exists|i: int|
        0 <= i < effects.len() && (#[trigger] effects[i] matches Effect::Emit(event) && event@
            is IterationStarted)
}

#[verifier::rlimit(60)]
#[verifier::spinoff_prover]
proof fn lemma_held(
    ctx: KernelContext,
    usage: BudgetUsage,
    from: Duration,
    point: ResumePoint,
    begun: PipelineRun,
    first: Effect,
    effects: Seq<Effect>,
    heard: Seq<(Duration, Reply)>,
    turn: PipelineTurn,
)
    requires
        launched(ctx, usage, from, Some(point), Turn::Act(begun, first)),
        comes_to(Turn::Act(begun, first), ctx, effects, heard, turn),
        point.position is NewIteration,
        ctx.budgets.max_iterations matches Some(max) && max <= ahead(point.iteration),
    ensures
        !announces(effects),
        ({
            let st = told(ctx, dawn(ctx, usage, Some(point)), from, effects, heard);
            &&& !st.opened
            &&& st.closed is None
            &&& st.iteration == point.iteration
            &&& turn matches Turn::Act(_, effect) ==> !(effect is PollCancel) && (effect
                matches Effect::Emit(event) ==> !(event@ is IterationStarted))
        }),
    decreases heard.len(),
{
    let start = PipelineTurn::Act(begun, first);
    lemma_told(ctx, usage, from, Some(point), begun, first, effects, heard, turn);
    if heard.len() > 0 {
        let before = choose|before: PipelineRun| #[trigger]
            before.steps(ctx, heard.last().0, heard.last().1, turn) && comes_to(
                start,
                ctx,
                effects.drop_last(),
                heard.drop_last(),
                Turn::Act(before, effects.last()),
            );
        let less = effects.drop_last();
        lemma_held(
            ctx,
            usage,
            from,
            point,
            begun,
            first,
            less,
            heard.drop_last(),
            Turn::Act(before, effects.last()),
        );
        lemma_told(
            ctx,
            usage,
            from,
            Some(point),
            begun,
            first,
            less,
            heard.drop_last(),
            Turn::Act(before, effects.last()),
        );
        assert(!announces(effects)) by {
            if announces(effects) {
                let i = choose|i: int|
                    0 <= i < effects.len() && (#[trigger] effects[i] matches Effect::Emit(event)
                        && event@ is IterationStarted);
                if i < less.len() {
                    assert(less[i] == effects[i]);
                }
            }
        }
    }
}

/// A budget of iterations outlives a pause. Where the log closed iteration
/// `n`, the last that it announced before the pause, a run that is taken up
/// again with a budget of at most `n` iterations announces none, however long
/// it goes on: once the workspace's commit has been read, it logs that the
/// budget is exhausted.
#[verifier::rlimit(60)]
#[verifier::spinoff_prover]
pub proof fn a_spent_budget_holds_after_a_pause(
    ctx: KernelContext,
    usage: BudgetUsage,
    from: Duration,
    events: Seq<event::EnvelopeView>,
    started: int,
    paused: int,
    resumed: int,
    finished: int,
    begun: PipelineRun,
    first: Effect,
    effects: Seq<Effect>,
    heard: Seq<(Duration, Reply)>,
    turn: PipelineTurn,
)
    requires
        ctx.replay matches Some(log) && events == event::envelope_views(log@),
        replay::marked(events, started, paused, resumed),
        started < finished < paused,
        replay::closes(
            events[finished].event,
            events[started].event->IterationStarted_iteration,
        ),
        events[started].event->IterationStarted_iteration < u32::MAX,
        ctx.budgets.max_iterations matches Some(max) && max
            <= events[started].event->IterationStarted_iteration,
        run::launches(ctx, usage, from, Turn::Act(begun, first)),
        comes_to(Turn::Act(begun, first), ctx, effects, heard, turn),
    ensures
        !announces(effects),
        turn matches Turn::Act(_, effect) ==> !announces(seq![effect]),
        first is Head,
        heard.len() == 1 && heard[0].1 is Head ==> (turn matches Turn::Act(_, effect)
            && kernel::emits(
            effect,
            EventView::BudgetExhausted { budget: BudgetKind::Iterations },
        )),
{
    let at_point = a_run_begins_at_its_point(ctx, usage, from, begun, first);
    let point = at_point->0;
    let n = events[started].event->IterationStarted_iteration;
    assert(resume::resumes(events, Ok(point)));
    replay::a_run_is_taken_up_where_it_paused(events, started, paused, resumed, Ok(point));
    assert(point.position is NewIteration && point.iteration == n + 1) by {
        assert(started + 1 <= finished < paused && replay::closes(events[finished].event, n));
    }
    lemma_held(ctx, usage, from, point, begun, first, effects, heard, turn);
    lemma_begins(ctx, usage, from, Some(point), begun, first);
    if heard.len() == 1 && heard[0].1 is Head {
        let start = PipelineTurn::Act(begun, first);
        let before = choose|before: PipelineRun| #[trigger]
            before.steps(ctx, heard.last().0, heard.last().1, turn) && comes_to(
                start,
                ctx,
                effects.drop_last(),
                heard.drop_last(),
                Turn::Act(before, effects.last()),
            );
        assert(before == begun);
        let (at, reply) = heard.last();
        let decision = choose|decision: Decision| #[trigger]
            begun.decides(ctx, at, reply, decision) && PipelineRun::accounts(
                begun.progress.usage,
                at,
                decision,
                turn,
            );
        assert(decision is Act);
        lemma_told(ctx, usage, from, Some(point), begun, first, effects, heard, turn);
    }
}

} // verus!
