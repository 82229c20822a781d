//! What a whole run of the fanout does, read off what went to and fro alone:
//! wherever it stands, its history calls for what it asks for next.

use crate::accounts;
use crate::agent::AgentAdapter;
use crate::bracket::{Bracket, BracketPhase, Bracketed};
use crate::budget::{self, BudgetKind, BudgetUsage, Duration};
use crate::ending::{Conclusion, ConclusionPhase, EndingView};
use crate::event::{self, EventView, IterationOutcome};
use crate::fanout::batch::{self, Batch, BatchTurn};
use crate::fanout::contract::{self, PlanContract, PlanReport, PlanReportView};
use crate::fanout::frame;
use crate::fanout::laws;
use crate::fanout::run::{self, FanoutDecision, FanoutPhase, FanoutProgress, FanoutRun, FanoutTurn};
use crate::fanout::work::{self, ClaimBrief, JudgeTurn, JudgeWork, PlanBrief, PlanTurn, PlanWork, Planned};
use crate::history::{self, Sight, Task};
use crate::invocation::{self, Drive};
use crate::json::{self, JsonView};
use crate::kernel::{self, Effect, KernelContext, KernelError, Reply, Turn, Work};
use crate::report::ReportStatus;
use crate::run::{self as runs, PauseReason, RunOutcome, RunState};
use crate::skeptic::{self, Evaluation, SkepticEnd};
use crate::text;
use crate::trace;
use crate::verify::{self, Checks, VerifyOutcome};
use crate::wire;
use crate::workspace;
use vstd::prelude::*;

verus! {

/// What a run's history shows.
#[verifier::ext_equal]
pub ghost struct Tale {
    /// What it shows of the task at hand.
    pub now: Sight,
    /// The iteration at hand, whether it has been announced, how it was
    /// closed, and the clock's reading at which it set out.
    pub iteration: u32,
    pub opened: bool,
    pub closed: Option<IterationOutcome>,
    pub since: Duration,
    /// The claim that everything is done, and what the skeptic found in the
    /// last one.
    pub claim: Option<PlanReportView>,
    pub feedback: Seq<Seq<char>>,
    /// What went to and fro about the children of this iteration.
    pub sent: Seq<Effect>,
    pub got: Seq<Reply>,
    /// How many iterations settled children have finished in all, and the
    /// tokens that were billed.
    pub children: u32,
    pub spent: Option<u64>,
    /// The budget that was outgrown, whether the workspace has been committed
    /// for a pause, and the state that was logged last.
    pub budget: Option<BudgetKind>,
    pub parked: bool,
    pub state: Option<RunState>,
}

/// Whether an effect is about the children of an iteration.
pub open spec fn minds_children(effect: Effect) -> bool {
    match effect {
        Effect::Spawn(_) | Effect::Watch(_) | Effect::NextSettled => true,
        Effect::Emit(event) => event@ is ChildRunStarted || event@ is ChildRunFinished,
        _ => false,
    }
}

/// What a logged report of the plan says.
pub open spec fn read(report: JsonView) -> PlanReportView {
    contract::as_plan_report(report)->0
}

/// The tokens that were billed once a bill has come.
pub open spec fn billed(spent: Option<u64>, usage: budget::TokenUsage) -> Option<u64> {
    Some(
        budget::capped_sum(
            match spent {
                Some(tokens) => tokens as int,
                None => 0,
            },
            usage.total(),
        ) as u64,
    )
}

/// The tokens that were billed once a child's history has come.
pub open spec fn billed_by(spent: Option<u64>, history: Seq<event::EnvelopeView>) -> Option<u64>
    decreases history.len(),
{
    if history.len() == 0 {
        spent
    } else {
        let before = billed_by(spent, history.drop_last());
        match history.last().event {
            EventView::TokensUsed { iteration, usage } => billed(before, usage),
            _ => before,
        }
    }
}

/// The sum of two counts, as far as a count can reach.
pub open spec fn both(a: u32, b: u32) -> u32 {
    laws::capped((a + b) as nat)
}

/// A tale with one more event logged.
pub open spec fn tell(t: Tale, event: EventView) -> Tale {
    match event {
        EventView::IterationStarted { iteration } => Tale {
            iteration,
            opened: true,
            closed: None,
            claim: None,
            sent: Seq::empty(),
            got: Seq::empty(),
            ..t
        },
        EventView::IterationFinished { iteration, outcome } => Tale {
            closed: Some(outcome),
            feedback: match (t.claim, t.now.task.verdict) {
                (Some(_), Some((true, findings))) => findings,
                _ => Seq::empty(),
            },
            children: if t.claim is None && outcome == IterationOutcome::Completed {
                both(t.children, laws::capped(laws::returned(t.sent, t.got).iterations))
            } else {
                t.children
            },
            ..t
        },
        EventView::TokensUsed { iteration, usage } => Tale { spent: billed(t.spent, usage), ..t },
        EventView::BudgetExhausted { budget } => Tale { budget: Some(budget), ..t },
        EventView::StateChanged { state } => Tale { state: Some(state), ..t },
        _ => t,
    }
}

/// A tale with one more effect asked for, at the clock's reading `at`.
pub open spec fn see(t: Tale, at: Duration, effect: Effect) -> Tale {
    let told = match effect {
        Effect::Emit(event) => tell(t, event@),
        Effect::PollCancel => match t.now.task.report {
            Some(report) => Tale { claim: Some(read(report)), ..t },
            None => Tale { since: at, ..t },
        },
        _ => t,
    };
    Tale {
        now: history::see(t.now, effect),
        sent: if minds_children(effect) {
            told.sent.push(effect)
        } else {
            told.sent
        },
        ..told
    }
}

/// A tale with the last effect answered.
pub open spec fn hear(t: Tale, reply: Reply) -> Tale {
    let asked = t.now.asked->0;
    Tale {
        now: history::hear(t.now, reply),
        got: if minds_children(asked) {
            t.got.push(reply)
        } else {
            t.got
        },
        spent: match (asked, reply) {
            (Effect::NextSettled, Reply::Settled(child, history)) => billed_by(
                t.spent,
                event::envelope_views(history@),
            ),
            _ => t.spent,
        },
        parked: t.parked || (asked matches Effect::Checkpoint(message) && message@
            == "hako: pause"@ && reply is Committed),
        ..t
    }
}

/// The domain prompt: the flow's, as it was read, or the shipped one.
pub open spec fn domain(ctx: KernelContext, t: Tale) -> Seq<char> {
    match ctx.prompts.file("plan"@) {
        Some(_) => vstd::utf8::decode_utf8(t.now.task.domain),
        None => contract::PLAN_PROMPT@,
    }
}

/// Whether a path is the one of the flow's prompt.
pub open spec fn is_override(ctx: KernelContext, path: Seq<char>) -> bool {
    ctx.prompts.file("plan"@) matches Some(file) && path == workspace::below(
        workspace::GUEST_ROOT@,
        file,
    )
}

/// Whether a history calls for an effect of the plan.
pub open spec fn plans_rightly(ctx: KernelContext, t: Tale, effect: Effect) -> bool {
    let s = t.now;
    let task = s.task;
    let n = t.iteration;
    let whole = frame::plan_text(domain(ctx, t), t.feedback);
    if task.report is Some {
        history::says(task, "done"@) && history::checks_rightly(ctx, n, s, effect)
    } else {
        match effect {
            Effect::Emit(event) => match event@ {
                EventView::StageStarted { iteration, stage } => {
                    &&& iteration == n
                    &&& stage == "plan"@
                    &&& task.stage is None
                },
                EventView::StageReported { iteration, stage, report } => {
                    &&& iteration == n
                    &&& stage == "plan"@
                    &&& task.stage is Some
                    &&& s.clean
                    &&& task.file matches Some(raw)
                    &&& vstd::utf8::valid_utf8(raw)
                    &&& json::parsed(vstd::utf8::decode_utf8(raw)) matches Some(v)
                    &&& contract::as_plan_report(v) matches Some(view)
                    &&& report == JsonView::Object(contract::plan_fields(view))
                },
                _ => task.stage is Some && history::drives_rightly(
                    ctx,
                    PlanContract,
                    n,
                    whole,
                    s,
                    effect,
                ),
            },
            Effect::ReadFile(path) => if task.stage is None {
                s.asked matches Some(Effect::Boot { .. }) && is_override(ctx, path@)
            } else {
                history::drives_rightly(ctx, PlanContract, n, whole, s, effect)
            },
            _ => task.stage is Some && history::drives_rightly(
                ctx,
                PlanContract,
                n,
                whole,
                s,
                effect,
            ),
        }
    }
}

/// The document that a plan's report is logged as.
pub open spec fn document(report: PlanReport) -> JsonView {
    JsonView::Object(contract::plan_fields(report@))
}

/// Whether nothing has come of the task at hand.
pub open spec fn unbegun(task: Task) -> bool {
    &&& task.stage is None
    &&& task.report is None
    &&& task.verdict is None
    &&& task.attempts.len() == 0
    &&& task.rejections == 0
}

/// Whether a run may fail with an error.
pub open spec fn excused(t: Tale, error: KernelError) -> bool {
    ||| history::accounted(t.now, error)
    ||| error is Workspace && (t.now.task.file matches Some(raw) && !vstd::utf8::valid_utf8(raw))
}

/// The word that a logged plan has for where the work stands, and what it
/// reads back as.
proof fn lemma_says(task: Task, report: PlanReport)
    requires
        task.report == Some(document(report)),
    ensures
        history::says(task, "continue"@) <==> report.status == ReportStatus::Continue,
        history::says(task, "done"@) <==> report.status == ReportStatus::Done,
        history::says(task, "blocked"@) <==> report.status == ReportStatus::Blocked,
        history::says(task, "needs_input"@) <==> report.status == ReportStatus::NeedsInput,
        read(document(report)) == report@,
{
    contract::plan_reports_read_back(report@);
    reveal_strlit("status");
    reveal_strlit("summary");
    reveal_strlit("units");
    reveal_strlit("blockers");
    reveal_strlit("questions");
    assert("status"@.len() == 6 && "summary"@.len() == 7 && "units"@.len() == 5
        && "blockers"@.len() == 8 && "questions"@.len() == 9);
    assert(wire::text_at(document(report), "status"@) == Some(report.status.word()));
    reveal_strlit("continue");
    reveal_strlit("done");
    reveal_strlit("blocked");
    reveal_strlit("needs_input");
    assert("continue"@.len() == 8 && "done"@.len() == 4 && "blocked"@.len() == 7
        && "needs_input"@.len() == 11);
}

/// Whether the file that was read last holds a report of the plan.
spec fn holds(t: Tale, report: PlanReport) -> bool {
    let task = t.now.task;
    &&& task.stage is Some
    &&& task.report is None
    &&& t.now.clean
    &&& task.file matches Some(raw)
    &&& history::holds(PlanContract, raw, report)
}

/// Whether a plan stands where a history shows it.
spec fn plan_stands(work: PlanWork, ctx: KernelContext, t: Tale) -> bool {
    let s = t.now;
    let task = s.task;
    let whole = frame::plan_text(domain(ctx, t), t.feedback);
    &&& s.asked is Some
    &&& task.verdict is None
    &&& match work {
        PlanWork::Ready => false,
        PlanWork::Prompting => s.asked->0 is ReadFile && unbegun(task) && ctx.prompts.file("plan"@)
            is Some,
        PlanWork::Announcing { prompt } => s.asked->0 is Emit && task.stage is Some && task.report
            is None && task.attempts.len() == 0 && task.rejections == 0 && prompt@ == whole,
        PlanWork::Driving(drive) => task.stage is Some && history::drive_stands(
            ctx,
            PlanContract,
            drive,
            t.iteration,
            whole,
            s,
        ),
        PlanWork::Publishing(report) => s.asked->0 is Emit && task.report == Some(document(report))
            && task.run.len() == 0 && task.told.len() == 0 && task.ended.len() == 0,
        PlanWork::Checking(report, checks) => task.report == Some(document(report))
            && history::says(task, "done"@) && history::checks_stand(ctx, checks, t.iteration, s),
    }
}

/// Whether a plan came to what the history shows.
pub open spec fn plan_ended(end: Option<Planned>, ctx: KernelContext, t: Tale) -> bool {
    let task = t.now.task;
    &&& task.verdict is None
    &&& match end {
        None => task.report is None && (!t.now.clean || task.rejections == 2),
        Some(planned) => {
            &&& task.report == Some(document(planned.report))
            &&& if history::says(task, "done"@) {
                history::checked(ctx, t.iteration, task, planned.verify)
            } else {
                planned.verify is Skipped && task.told.len() == 0
            }
        },
    }
}

/// Whether a turn of the plan is one that its history calls for.
spec fn plan_turn(turn: PlanTurn, ctx: KernelContext, ht: Tale, at: Duration) -> bool {
    match turn {
        Turn::Act(next, effect) => {
            &&& plans_rightly(ctx, ht, effect)
            &&& plan_stands(next, ctx, see(ht, at, effect))
            &&& kernel::stays_inside(effect)
        },
        Turn::End(Ok(end)) => plan_ended(end, ctx, ht),
        Turn::End(Err(error)) => excused(ht, error),
    }
}

/// Whether a plan is about what the history calls for.
spec fn brief_stands(brief: PlanBrief, t: Tale) -> bool {
    &&& brief.iteration == t.iteration
    &&& text::texts(brief.feedback@) == t.feedback
}

proof fn lemma_plan_driving(
    drive: Drive,
    ctx: KernelContext,
    brief: PlanBrief,
    reply: Reply,
    turn: PlanTurn,
    t: Tale,
    at: Duration,
)
    requires
        plan_stands(PlanWork::Driving(drive), ctx, t),
        brief_stands(brief, t),
        PlanWork::Driving(drive).steps(ctx, brief, reply, turn),
    ensures
        plan_turn(turn, ctx, hear(t, reply), at),
{
    let ht = hear(t, reply);
    let inner = choose|inner: Turn<Drive, Result<Option<PlanReport>, KernelError>>| #[trigger]
        drive.steps(ctx, PlanContract, reply, inner) && work::driven(brief, inner, turn);
    let whole = frame::plan_text(domain(ctx, t), t.feedback);
    history::lemma_drive(drive, ctx, PlanContract, t.iteration, whole, reply, inner, t.now);
    assert(domain(ctx, ht) == domain(ctx, t));
    match inner {
        Turn::Act(next, effect) => {
            let g = see(ht, at, effect);
            assert(g.now == history::see(ht.now, effect));
            assert(domain(ctx, g) == domain(ctx, t));
            assert(plan_stands(PlanWork::Driving(next), ctx, g));
        },
        Turn::End(Ok(Some(report))) => {
            assert(holds(ht, report));
            let g = see(ht, at, turn->Act_1);
            assert(g.now.task.run.len() == 0);
        },
        _ => {},
    }
}

/// One step of a plan, seen from its history.
proof fn lemma_plan(
    work: PlanWork,
    ctx: KernelContext,
    brief: PlanBrief,
    reply: Reply,
    turn: PlanTurn,
    t: Tale,
    at: Duration,
)
    requires
        plan_stands(work, ctx, t),
        brief_stands(brief, t),
        work.steps(ctx, brief, reply, turn),
    ensures
        plan_turn(turn, ctx, hear(t, reply), at),
{
    let ht = hear(t, reply);
    match work {
        PlanWork::Ready => {},
        PlanWork::Prompting => {
            history::lemma_hear(t.now, reply);
        },
        PlanWork::Announcing { prompt } => {
            history::lemma_hear(t.now, reply);
        },
        PlanWork::Driving(drive) => {
            lemma_plan_driving(drive, ctx, brief, reply, turn, t, at);
        },
        PlanWork::Publishing(report) => {
            history::lemma_hear(t.now, reply);
            lemma_says(ht.now.task, report);
            if !(reply is Failed) && report.status == ReportStatus::Done {
                let inner = choose|inner: Turn<Checks, Result<VerifyOutcome, KernelError>>|
                    verify::enters(
                        brief.iteration,
                        text::texts(ctx.verify.checks@),
                        inner,
                    ) && #[trigger] work::checked(report, inner, turn);
                history::lemma_checks_begin(ctx, brief.iteration, inner, reply, t.now);
                if let Turn::Act(checks, effect) = inner {
                    assert(see(ht, at, effect).now == history::see(ht.now, effect));
                }
            }
        },
        PlanWork::Checking(report, checks) => {
            let inner = choose|inner: Turn<Checks, Result<VerifyOutcome, KernelError>>| #[trigger]
                checks.steps(reply, inner) && work::checked(report, inner, turn);
            history::lemma_checks(checks, ctx, brief.iteration, reply, inner, t.now);
            if let Turn::Act(checks, effect) = inner {
                assert(see(ht, at, effect).now == history::see(ht.now, effect));
            }
        },
    }
}

/// Whether a sandbox is booted as it is to be.
pub open spec fn boots_rightly(ctx: KernelContext, t: Tale, effect: Effect) -> bool {
    &&& effect matches Effect::Boot { spec, deadline }
    &&& t.now.asked matches Some(Effect::PollCancel)
    &&& !(t.now.heard matches Some(Reply::Cancelled))
    &&& kernel::boots_from(spec, ctx)
    &&& accounts::falls_due(t.since, ctx.budgets.iteration_timeout, deadline)
}

spec fn plan_over(
    result: Result<Bracketed<Option<Planned>>, KernelError>,
    ctx: KernelContext,
    t: Tale,
) -> bool {
    match result {
        Ok(Bracketed::Finished(end)) => plan_ended(end, ctx, t),
        Ok(Bracketed::Cancelled) => t.now.task.cancelled,
        Ok(Bracketed::TimedOut) => t.now.task.timed_out && t.now.task.verdict is None,
        Err(error) => excused(t, error),
    }
}

spec fn plan_bracket(bracket: Bracket<PlanWork>, ctx: KernelContext, t: Tale) -> bool {
    let s = t.now;
    &&& accounts::falls_due(t.since, ctx.budgets.iteration_timeout, bracket.deadline)
    &&& s.asked is Some
    &&& match bracket.phase {
        BracketPhase::Polling(work) => work is Ready && s.asked->0 is PollCancel && unbegun(s.task),
        BracketPhase::Booting(work) => work is Ready && s.asked->0 is Boot && unbegun(s.task),
        BracketPhase::Working(work) => plan_stands(work, ctx, t),
        BracketPhase::Destroying(result) => s.asked->0 is Destroy && plan_over(result, ctx, t),
    }
}

/// Whether a history calls for an effect inside the bracket of a plan or of
/// the skeptic.
pub open spec fn works_rightly(ctx: KernelContext, t: Tale, effect: Effect) -> bool {
    match effect {
        Effect::Boot { .. } => boots_rightly(ctx, t, effect),
        Effect::Destroy => true,
        Effect::PollCancel => false,
        _ => if t.claim is Some {
            judges_rightly(ctx, t, effect)
        } else {
            plans_rightly(ctx, t, effect)
        },
    }
}

/// Whether a history calls for an effect of the skeptic.
pub open spec fn judges_rightly(ctx: KernelContext, t: Tale, effect: Effect) -> bool {
    ||| {
        &&& effect matches Effect::ReadFile(path)
        &&& t.now.asked matches Some(Effect::Boot { .. })
        &&& is_override(ctx, path@)
    }
    ||| exists|words: Seq<char>|
        (t.now.task.attempts.len() == 0 ==> words == domain(ctx, t))
            && #[trigger] history::evaluates_rightly(
            ctx,
            t.iteration,
            frame::skeptic_text(t.claim->0, words),
            t.now,
            effect,
        )
}

/// Inside a task, the loop stands still.
proof fn lemma_inside(ctx: KernelContext, ht: Tale, at: Duration, effect: Effect)
    requires
        works_rightly(ctx, ht, effect),
    ensures
        ({
            let g = see(ht, at, effect);
            &&& g == (Tale { now: g.now, spent: g.spent, ..ht })
        }),
        !minds_children(effect),
        !(effect is Head),
        !(effect is Notify),
        !(effect is Checkpoint),
        !(effect is PollCancel),
        effect matches Effect::Emit(event) ==> !(event@ is IterationStarted) && !(event@
            is IterationFinished) && !(event@ is BudgetExhausted) && !(event@ is StateChanged)
            && !(event@ is RunStarted) && !(event@ is WorkspaceCheckpointed),
{
}

#[verifier::rlimit(40)]
proof fn lemma_plan_bracket(
    bracket: Bracket<PlanWork>,
    ctx: KernelContext,
    brief: PlanBrief,
    reply: Reply,
    turn: Turn<Bracket<PlanWork>, Result<Bracketed<Option<Planned>>, KernelError>>,
    t: Tale,
    at: Duration,
)
    requires
        t.claim is None,
        brief_stands(brief, t),
        plan_bracket(bracket, ctx, t),
        bracket.steps(ctx, brief, reply, turn),
    ensures
        match turn {
            Turn::Act(next, effect) => {
                &&& works_rightly(ctx, hear(t, reply), effect)
                &&& plan_bracket(next, ctx, see(hear(t, reply), at, effect))
                &&& next.deadline == bracket.deadline
            },
            Turn::End(result) => plan_over(result, ctx, hear(t, reply)) && (result matches Ok(
                Bracketed::Cancelled,
            ) || result is Err || t.now.asked->0 is Destroy),
        },
{
    let ht = hear(t, reply);
    match bracket.phase {
        BracketPhase::Polling(work) => {
            history::lemma_hear(t.now, reply);
        },
        BracketPhase::Booting(work) => {
            history::lemma_hear(t.now, reply);
            if !(reply is Failed) {
                let inner = choose|inner: PlanTurn| #[trigger]
                    work.steps(ctx, brief, Reply::Done, inner) && bracket.follows(inner, turn);
                assert(plan_turn(inner, ctx, ht, at));
            }
        },
        BracketPhase::Working(work) => {
            if !(reply is Cancelled) && !(reply is TimedOut) {
                let inner = choose|inner: PlanTurn| #[trigger]
                    work.steps(ctx, brief, reply, inner) && bracket.follows(inner, turn);
                lemma_plan(work, ctx, brief, reply, inner, t, at);
            }
        },
        BracketPhase::Destroying(result) => {
            history::lemma_hear(t.now, reply);
        },
    }
}

spec fn judge_stands(work: JudgeWork, ctx: KernelContext, t: Tale) -> bool {
    let s = t.now;
    &&& s.asked is Some
    &&& match work {
        JudgeWork::Ready => false,
        JudgeWork::Prompting => s.asked->0 is ReadFile && unbegun(s.task) && ctx.prompts.file(
            "plan"@,
        ) is Some,
        JudgeWork::Evaluating(evaluation) => exists|words: Seq<char>|
            (s.task.attempts.len() == 0 ==> words == domain(ctx, t))
                && #[trigger] history::evaluation_stands(
                ctx,
                evaluation,
                t.iteration,
                frame::skeptic_text(t.claim->0, words),
                s,
            ),
    }
}

spec fn judge_turn(turn: JudgeTurn, ctx: KernelContext, ht: Tale, at: Duration) -> bool {
    match turn {
        Turn::Act(next, effect) => {
            &&& judges_rightly(ctx, ht, effect)
            &&& judge_stands(next, ctx, see(ht, at, effect))
            &&& kernel::stays_inside(effect)
        },
        Turn::End(Ok(end)) => history::ends_evaluation(ht.now, end),
        Turn::End(Err(error)) => excused(ht, error),
    }
}

/// Whether the skeptic is to judge what the history shows to be claimed.
spec fn claim_stands(brief: ClaimBrief, t: Tale) -> bool {
    brief.iteration == t.iteration && t.claim == Some(brief.claim@)
}

proof fn lemma_summons(
    ctx: KernelContext,
    brief: ClaimBrief,
    words: Seq<char>,
    turn: JudgeTurn,
    ht: Tale,
    at: Duration,
)
    requires
        claim_stands(brief, ht),
        unbegun(ht.now.task),
        words == domain(ctx, ht),
        work::summons(brief, words, turn),
    ensures
        judge_turn(turn, ctx, ht, at),
{
    let evaluation = turn->Act_0->Evaluating_0;
    let effect = turn->Act_1;
    let g = see(ht, at, effect);
    let prompt = choose|prompt: String|
        prompt@ == frame::skeptic_text(brief.claim@, words) && evaluation
            == #[trigger] skeptic::begun(brief.iteration, prompt);
    let whole = frame::skeptic_text(ht.claim->0, words);
    assert(history::evaluates_rightly(ctx, ht.iteration, whole, ht.now, effect));
    assert(domain(ctx, g) == domain(ctx, ht));
    assert(history::evaluation_stands(ctx, evaluation, g.iteration, whole, g.now));
}

proof fn lemma_judge(
    work: JudgeWork,
    ctx: KernelContext,
    brief: ClaimBrief,
    reply: Reply,
    turn: JudgeTurn,
    t: Tale,
    at: Duration,
)
    requires
        claim_stands(brief, t),
        judge_stands(work, ctx, t),
        work.steps(ctx, brief, reply, turn),
    ensures
        judge_turn(turn, ctx, hear(t, reply), at),
{
    let ht = hear(t, reply);
    match work {
        JudgeWork::Ready => {},
        JudgeWork::Prompting => {
            history::lemma_hear(t.now, reply);
            let read = choose|read: Result<String, KernelError>| #[trigger]
                invocation::prompt_reads(work::PLAN_SLOT@, reply, read) && match read {
                    Ok(domain) => work::summons(brief, domain@, turn),
                    Err(error) => turn == JudgeTurn::End(Err(error)),
                };
            if let Ok(words) = read {
                lemma_summons(ctx, brief, words@, turn, ht, at);
            }
        },
        JudgeWork::Evaluating(evaluation) => {
            let words = choose|words: Seq<char>|
                (t.now.task.attempts.len() == 0 ==> words == domain(ctx, t))
                    && #[trigger] history::evaluation_stands(
                    ctx,
                    evaluation,
                    t.iteration,
                    frame::skeptic_text(t.claim->0, words),
                    t.now,
                );
            let whole = frame::skeptic_text(t.claim->0, words);
            let inner = choose|inner: Turn<Evaluation, Result<SkepticEnd, KernelError>>| #[trigger]
                evaluation.steps(ctx, reply, inner) && match inner {
                    Turn::Act(evaluation, effect) => turn == JudgeTurn::Act(
                        JudgeWork::Evaluating(evaluation),
                        effect,
                    ),
                    Turn::End(result) => turn == JudgeTurn::End(result),
                };
            history::lemma_evaluation(evaluation, ctx, t.iteration, whole, reply, inner, t.now);
            if let Turn::Act(next, effect) = inner {
                let g = see(ht, at, effect);
                assert(history::evaluates_rightly(ctx, ht.iteration, whole, ht.now, effect));
                assert(judges_rightly(ctx, ht, effect));
                assert(g.now == history::see(ht.now, effect));
                assert(g.claim == t.claim && g.iteration == t.iteration);
                assert(history::evaluation_stands(ctx, next, g.iteration, whole, g.now));
            }
        },
    }
}

spec fn judge_over(result: Result<Bracketed<SkepticEnd>, KernelError>, t: Tale) -> bool {
    match result {
        Ok(Bracketed::Finished(end)) => history::ends_evaluation(t.now, end),
        Ok(Bracketed::Cancelled) => t.now.task.cancelled,
        Ok(Bracketed::TimedOut) => t.now.task.timed_out,
        Err(error) => excused(t, error),
    }
}

spec fn judge_bracket(bracket: Bracket<JudgeWork>, ctx: KernelContext, t: Tale) -> bool {
    let s = t.now;
    &&& s.task.report is None
    &&& accounts::falls_due(t.since, ctx.budgets.iteration_timeout, bracket.deadline)
    &&& s.asked is Some
    &&& match bracket.phase {
        BracketPhase::Polling(work) => work is Ready && s.asked->0 is PollCancel && unbegun(s.task),
        BracketPhase::Booting(work) => work is Ready && s.asked->0 is Boot && unbegun(s.task),
        BracketPhase::Working(work) => judge_stands(work, ctx, t),
        BracketPhase::Destroying(result) => s.asked->0 is Destroy && judge_over(result, t),
    }
}

#[verifier::rlimit(40)]
proof fn lemma_judge_bracket(
    bracket: Bracket<JudgeWork>,
    ctx: KernelContext,
    brief: ClaimBrief,
    reply: Reply,
    turn: Turn<Bracket<JudgeWork>, Result<Bracketed<SkepticEnd>, KernelError>>,
    t: Tale,
    at: Duration,
)
    requires
        claim_stands(brief, t),
        judge_bracket(bracket, ctx, t),
        bracket.steps(ctx, brief, reply, turn),
    ensures
        match turn {
            Turn::Act(next, effect) => {
                &&& works_rightly(ctx, hear(t, reply), effect)
                &&& judge_bracket(next, ctx, see(hear(t, reply), at, effect))
            },
            Turn::End(result) => judge_over(result, hear(t, reply)) && (result matches Ok(
                Bracketed::Cancelled,
            ) || result is Err || t.now.asked->0 is Destroy),
        },
{
    let ht = hear(t, reply);
    match bracket.phase {
        BracketPhase::Polling(work) => {
            history::lemma_hear(t.now, reply);
        },
        BracketPhase::Booting(work) => {
            history::lemma_hear(t.now, reply);
            if !(reply is Failed) {
                let inner = choose|inner: JudgeTurn| #[trigger]
                    work.steps(ctx, brief, Reply::Done, inner) && bracket.follows(inner, turn);
                if ctx.prompts.file("plan"@) is None {
                    lemma_summons(ctx, brief, contract::PLAN_PROMPT@, inner, ht, at);
                }
                assert(judge_turn(inner, ctx, ht, at));
                lemma_inside(ctx, ht, at, inner->Act_1);
            }
        },
        BracketPhase::Working(work) => {
            if !(reply is Cancelled) && !(reply is TimedOut) {
                let inner = choose|inner: JudgeTurn| #[trigger]
                    work.steps(ctx, brief, reply, inner) && bracket.follows(inner, turn);
                lemma_judge(work, ctx, brief, reply, inner, t, at);
                if let Turn::Act(next, effect) = inner {
                    lemma_inside(ctx, ht, at, effect);
                }
            }
        },
        BracketPhase::Destroying(result) => {
            history::lemma_hear(t.now, reply);
        },
    }
}

/// One more, as far as a number can reach.
pub open spec fn after(n: u32) -> u32 {
    if n == u32::MAX {
        n
    } else {
        (n + 1) as u32
    }
}

/// One less, as far as there is one.
pub open spec fn ahead(n: u32) -> u32 {
    if n == 0 {
        n
    } else {
        (n - 1) as u32
    }
}

/// How long a run has been active by the reading `at`: what its earlier
/// launches have on the books, and the time since this one.
pub open spec fn active(usage: BudgetUsage, from: Duration, at: Duration) -> nat {
    let running: nat = if at.length() >= from.length() {
        (at.length() - from.length()) as nat
    } else {
        0
    };
    if usage.settled() + running <= Duration::longest() {
        usage.settled() + running
    } else {
        Duration::longest()
    }
}

/// The first budget that a run has outgrown: the children's iterations before
/// time before tokens.
pub open spec fn outgrown(
    ctx: KernelContext,
    usage: BudgetUsage,
    from: Duration,
    t: Tale,
    at: Duration,
) -> Option<BudgetKind> {
    let caps = ctx.budgets;
    if caps.max_iterations is Some && caps.max_iterations->0 <= t.children {
        Some(BudgetKind::Iterations)
    } else if caps.max_wall_clock is Some && caps.max_wall_clock->0.length() <= active(
        usage,
        from,
        at,
    ) {
        Some(BudgetKind::WallClock)
    } else if caps.max_tokens is Some && t.spent is Some && caps.max_tokens->0 <= t.spent->0 {
        Some(BudgetKind::Tokens)
    } else {
        None
    }
}

/// The iteration that is due: the first, or the one after a completed one.
pub open spec fn due(ctx: KernelContext, t: Tale) -> Option<u32> {
    match (t.closed, t.now.asked) {
        (None, None) => if ctx.replay is Some {
            Some(t.iteration)
        } else {
            None
        },
        (None, Some(Effect::Emit(event))) => if event@ is RunStarted {
            Some(t.iteration)
        } else {
            None
        },
        (Some(IterationOutcome::Completed), Some(Effect::Emit(event))) => if event@
            is IterationFinished {
            Some(after(t.iteration))
        } else {
            None
        },
        _ => None,
    }
}

/// The units that the plan of the iteration at hand calls for.
pub open spec fn units(t: Tale) -> Seq<Seq<char>> {
    read(t.now.task.report->0).units
}

/// Whether the iteration at hand has a plan that calls for children, its
/// sandbox gone.
pub open spec fn spreads(t: Tale) -> bool {
    &&& t.opened
    &&& t.closed is None
    &&& t.claim is None
    &&& history::says(t.now.task, "continue"@)
}

/// Whether a history calls for an effect about the children: one is submitted
/// for each unit of the plan, in order; each is logged under its unit's name;
/// all of them and no others are watched; and the end of each that settled is
/// logged.
pub open spec fn batches_rightly(t: Tale, effect: Effect) -> bool {
    let sent = t.sent.push(effect);
    let born = laws::born(sent, t.got);
    let events = trace::logged(sent);
    &&& spreads(t)
    &&& minds_children(effect)
    &&& t.sent.len() == 0 ==> t.now.asked == Some(Effect::Destroy)
    &&& t.sent.len() > 0 ==> t.got.len() == t.sent.len()
    &&& laws::submitted(sent).len() <= units(t).len()
    &&& laws::submitted(sent) == units(t).take(laws::submitted(sent).len() as int)
    &&& laws::begun(events) == laws::paired(born, units(t))
    &&& laws::watched(sent).len() > 0 ==> laws::submitted(sent) == units(t) && laws::watched(sent)
        == seq![born] && born.len() == units(t).len()
    &&& laws::over(events) == laws::returned(sent, t.got).ends
}

/// Whether a history calls for the iteration at hand to be closed with this
/// outcome: as completed only once every child of its plan has settled, or
/// where its claim was refuted.
pub open spec fn closes_rightly(t: Tale, outcome: IterationOutcome) -> bool {
    let task = t.now.task;
    &&& t.opened
    &&& t.closed is None
    &&& match outcome {
        IterationOutcome::Completed => match t.claim {
            None => {
                &&& spreads(t)
                &&& laws::settles(
                    units(t),
                    t.sent,
                    t.got,
                    Ok(laws::capped(laws::returned(t.sent, t.got).iterations)),
                )
            },
            Some(_) => task.verdict matches Some((refuted, findings)) && refuted && findings.len()
                > 0,
        },
        IterationOutcome::Failed => {
            &&& task.report is None
            &&& task.verdict is None
            &&& !t.now.clean || task.rejections == 2
        },
        IterationOutcome::TimedOut => t.claim is None && task.timed_out,
    }
}

/// Whether a history calls for a pause for this reason.
pub open spec fn owes(t: Tale, reason: PauseReason) -> bool {
    let task = t.now.task;
    let open = t.opened && t.closed is None;
    &&& t.budget is Some ==> reason == PauseReason::Budget
    &&& match reason {
        PauseReason::Budget => t.budget is Some,
        PauseReason::Blocked => open && t.claim is None && history::says(task, "blocked"@),
        PauseReason::AwaitingHuman => open && t.claim is None && history::says(
            task,
            "needs_input"@,
        ),
        PauseReason::VerifyFailed => open && t.claim is None && history::says(task, "done"@)
            && history::red(task),
        PauseReason::Timeout => t.closed == Some(IterationOutcome::TimedOut) || (open && t.claim
            is Some && task.timed_out),
        _ => false,
    }
}

/// What a human is told of a pause.
pub open spec fn told_of(t: Tale, reason: PauseReason, summary: Option<Seq<char>>) -> bool {
    match reason {
        PauseReason::Blocked | PauseReason::AwaitingHuman | PauseReason::VerifyFailed => summary
            == Some(read(t.now.task.report->0).summary),
        PauseReason::Timeout => summary == Some(
            if t.claim is Some {
                "fanout skeptic timed out"@
            } else {
                "fanout plan timed out"@
            },
        ),
        PauseReason::Budget => summary == if t.closed is Some && t.claim is None {
            Some(read(t.now.task.report->0).summary)
        } else {
            None
        },
        _ => true,
    }
}

/// The iteration that a pause parks.
pub open spec fn parks(t: Tale) -> u32 {
    if t.budget is None {
        t.iteration
    } else if t.closed is None {
        ahead(t.iteration)
    } else if t.claim is Some {
        ahead(after(t.iteration))
    } else {
        t.iteration
    }
}

/// Whether a history calls for the run's last state to be `state`.
pub open spec fn lands(t: Tale, state: RunState) -> bool {
    let task = t.now.task;
    match state {
        RunState::Running => false,
        RunState::Done => {
            &&& t.opened
            &&& t.closed is None
            &&& t.claim is Some
            &&& task.verdict matches Some((refuted, findings))
            &&& !refuted
            &&& findings.len() == 0
        },
        RunState::Failed => t.closed == Some(IterationOutcome::Failed),
        RunState::Cancelled => t.opened && t.closed is None && task.cancelled,
        RunState::Paused { reason } => owes(t, reason) && t.parked,
    }
}

/// Whether a run's history calls for the effect that it asks for next.
pub open spec fn asks_rightly(
    ctx: KernelContext,
    usage: BudgetUsage,
    from: Duration,
    t: Tale,
    at: Duration,
    effect: Effect,
) -> bool {
    let inside = t.opened && t.closed is None;
    match effect {
        Effect::Emit(event) => match event@ {
            EventView::RunStarted { kernel, agent } => {
                &&& t.now.asked is None
                &&& ctx.replay is None
                &&& kernel == "fanout"@
                &&& agent == ctx.agent.known_as()
            },
            EventView::IterationStarted { iteration } => {
                &&& due(ctx, t) == Some(iteration)
                &&& outgrown(ctx, usage, from, t, at) is None
            },
            EventView::IterationFinished { iteration, outcome } => {
                &&& iteration == t.iteration
                &&& closes_rightly(t, outcome)
            },
            EventView::BudgetExhausted { budget } => {
                &&& due(ctx, t) is Some
                &&& outgrown(ctx, usage, from, t, at) == Some(budget)
            },
            EventView::StateChanged { state } => lands(t, state),
            EventView::WorkspaceCheckpointed { iteration, commit } => {
                &&& t.now.asked matches Some(Effect::Checkpoint(message))
                &&& message@ == "hako: pause"@
                &&& t.now.heard matches Some(Reply::Committed(Some(made)))
                &&& commit == made@
                &&& iteration == parks(t)
            },
            _ => inside && (batches_rightly(t, effect) || works_rightly(ctx, t, effect)),
        },
        Effect::Checkpoint(message) => message@ == "hako: pause"@ && exists|reason: PauseReason|
            #[trigger] owes(t, reason),
        Effect::Notify(notification) => {
            &&& t.state == Some(RunState::Paused { reason: notification.reason })
            &&& owes(t, notification.reason)
            &&& notification.run_id@ == ctx.run_id@
            &&& told_of(t, notification.reason, wire::opt_text(notification.summary))
        },
        Effect::PollCancel => {
            &&& inside
            &&& t.claim is None
            &&& match t.now.asked {
                Some(Effect::Emit(event)) => event@ is IterationStarted,
                Some(Effect::Destroy) => history::says(t.now.task, "done"@) && history::checked(
                    ctx,
                    t.iteration,
                    t.now.task,
                    VerifyOutcome::Passed,
                ),
                _ => false,
            }
        },
        _ => inside && (batches_rightly(t, effect) || works_rightly(ctx, t, effect)),
    }
}

/// Whether a run's outcome is what its history shows.
pub open spec fn ends_rightly(t: Tale, end: Result<RunOutcome, KernelError>) -> bool {
    match end {
        Ok(outcome) => t.state == Some(
            match outcome {
                RunOutcome::Done => RunState::Done,
                RunOutcome::Failed => RunState::Failed,
                RunOutcome::Cancelled => RunState::Cancelled,
                RunOutcome::Paused(reason) => RunState::Paused { reason },
            },
        ),
        Err(error) => {
            ||| excused(t, error)
            // A child that was lost is raised once all have settled.
            ||| spreads(t) && laws::settles(units(t), t.sent, t.got, Err(error))
        },
    }
}

spec fn ending_stands(conclusion: Conclusion, t: Tale) -> bool {
    &&& t.now.asked is Some
    &&& match conclusion.ending@ {
        EndingView::Done => lands(t, RunState::Done),
        EndingView::Failed => lands(t, RunState::Failed),
        EndingView::Cancelled => lands(t, RunState::Cancelled),
        EndingView::Paused { iteration, reason, summary } => owes(t, reason) && iteration == parks(
            t,
        ) && told_of(t, reason, summary),
    }
    &&& match conclusion.phase {
        ConclusionPhase::Budgeting => conclusion.ending is Paused && (t.now.asked->0
            matches Effect::Emit(event) && event@ is BudgetExhausted),
        ConclusionPhase::Saving => conclusion.ending is Paused && (t.now.asked->0
            matches Effect::Checkpoint(message) && message@ == "hako: pause"@),
        ConclusionPhase::Recording => conclusion.ending is Paused && (t.now.asked->0
            matches Effect::Emit(event) && event@ is WorkspaceCheckpointed) && t.parked,
        ConclusionPhase::Announcing => (t.now.asked->0 matches Effect::Emit(event) && event@
            is StateChanged) && t.state == Some(runs::landed(conclusion.ending.comes_to())),
        ConclusionPhase::Notifying => t.now.asked->0 is Notify && t.state == Some(
            runs::landed(conclusion.ending.comes_to()),
        ),
    }
}

/// Whether the loop stands where a history shows it.
spec fn loop_stands(run: FanoutRun, ctx: KernelContext, t: Tale) -> bool {
    let progress = run.progress;
    &&& t.now.asked is Some
    &&& match run.phase {
        FanoutPhase::Ending(conclusion) => ending_stands(conclusion, t),
        _ => {
            &&& progress.iteration == t.iteration
            &&& t.budget is None
            &&& t.state is None
            &&& match run.phase {
                FanoutPhase::Closing { summary, children } => run::count_sum(
                    progress.children,
                    children,
                ) == t.children,
                _ => progress.children == t.children,
            }
            &&& match run.phase {
                FanoutPhase::Starting => {
                    &&& t.now.asked->0 matches Effect::Emit(event)
                    &&& event@ is RunStarted
                    &&& !t.opened
                    &&& t.closed is None
                    &&& t.feedback.len() == 0
                },
                FanoutPhase::Opening { feedback } => {
                    &&& t.now.asked->0 matches Effect::Emit(event)
                    &&& event@ is IterationStarted
                    &&& t.opened
                    &&& t.closed is None
                    &&& t.claim is None
                    &&& t.sent.len() == 0
                    &&& t.got.len() == 0
                    &&& t.now.task.report is None
                    &&& text::texts(feedback@) == t.feedback
                },
                FanoutPhase::Planning { brief, deadline, bracket } => {
                    &&& t.opened
                    &&& t.closed is None
                    &&& t.claim is None
                    &&& t.sent.len() == 0
                    &&& t.got.len() == 0
                    &&& brief_stands(brief, t)
                    &&& plan_bracket(bracket, ctx, t)
                    &&& deadline == bracket.deadline
                    &&& !minds_children(t.now.asked->0)
                },
                FanoutPhase::Judging { brief, bracket } => {
                    &&& t.opened
                    &&& t.closed is None
                    &&& t.sent.len() == 0
                    &&& t.got.len() == 0
                    &&& claim_stands(brief, t)
                    &&& judge_bracket(bracket, ctx, t)
                    &&& !minds_children(t.now.asked->0)
                },
                FanoutPhase::Batching { summary, batch } => {
                    &&& spreads(t)
                    &&& summary@ == read(t.now.task.report->0).summary
                    &&& laws::underway(batch, units(t), t.sent, t.got)
                    &&& t.now.asked == Some(t.sent.last())
                    &&& minds_children(t.now.asked->0)
                },
                FanoutPhase::Closing { summary, children } => {
                    &&& t.now.asked->0 matches Effect::Emit(event)
                    &&& event@ is IterationFinished
                    &&& t.closed == Some(IterationOutcome::Completed)
                    &&& t.claim is None
                    &&& summary@ == read(t.now.task.report->0).summary
                    &&& t.feedback.len() == 0
                },
                FanoutPhase::Refuting { findings } => {
                    &&& t.now.asked->0 matches Effect::Emit(event)
                    &&& event@ is IterationFinished
                    &&& t.closed == Some(IterationOutcome::Completed)
                    &&& t.claim is Some
                    &&& text::texts(findings@) == t.feedback
                },
                FanoutPhase::Failing => {
                    &&& t.now.asked->0 matches Effect::Emit(event)
                    &&& event@ is IterationFinished
                    &&& t.closed == Some(IterationOutcome::Failed)
                },
                FanoutPhase::Expiring => {
                    &&& t.now.asked->0 matches Effect::Emit(event)
                    &&& event@ is IterationFinished
                    &&& t.closed == Some(IterationOutcome::TimedOut)
                    &&& t.claim is None
                },
                FanoutPhase::Ending(_) => false,
            }
        },
    }
}

/// Whether a run's books show what its history does.
spec fn books_stand(books: BudgetUsage, usage: BudgetUsage, from: Duration, t: Tale) -> bool {
    &&& books.running_since() == Some(from)
    &&& books.settled() == usage.settled()
    &&& books.spent() == t.spent
}

spec fn decides_rightly(
    decision: FanoutDecision,
    ctx: KernelContext,
    usage: BudgetUsage,
    from: Duration,
    ht: Tale,
    at: Duration,
) -> bool {
    match decision {
        Turn::Act(next, effect) => {
            &&& asks_rightly(ctx, usage, from, ht, at, effect)
            &&& loop_stands(next, ctx, see(ht, at, effect))
            &&& books_stand(next.progress.usage, usage, from, ht)
        },
        Turn::End(end) => ends_rightly(ht, end),
    }
}

#[verifier::rlimit(40)]
proof fn lemma_ending(
    conclusion: Conclusion,
    ctx: KernelContext,
    usage: BudgetUsage,
    from: Duration,
    reply: Reply,
    turn: Turn<Conclusion, Result<RunOutcome, KernelError>>,
    t: Tale,
    at: Duration,
)
    requires
        ending_stands(conclusion, t),
        conclusion.steps(ctx, reply, turn),
    ensures
        match turn {
            Turn::Act(next, effect) => {
                &&& asks_rightly(ctx, usage, from, hear(t, reply), at, effect)
                &&& ending_stands(next, see(hear(t, reply), at, effect))
            },
            Turn::End(end) => ends_rightly(hear(t, reply), end),
        },
        hear(t, reply).spent == t.spent,
{
    let ht = hear(t, reply);
    history::lemma_hear(t.now, reply);
    if let EndingView::Paused { iteration, reason, summary } = conclusion.ending@ {
        assert(owes(ht, reason));
        if let Turn::Act(next, effect) = turn {
            let g = see(ht, at, effect);
            assert(owes(g, reason));
        }
    }
}

proof fn lemma_concludes(
    progress: FanoutProgress,
    ctx: KernelContext,
    usage: BudgetUsage,
    from: Duration,
    ending: EndingView,
    decision: FanoutDecision,
    ht: Tale,
    at: Duration,
)
    requires
        progress.concludes(ctx, ending, decision),
        books_stand(progress.usage, usage, from, ht),
        match ending {
            EndingView::Done => lands(ht, RunState::Done),
            EndingView::Failed => lands(ht, RunState::Failed),
            EndingView::Cancelled => lands(ht, RunState::Cancelled),
            EndingView::Paused { iteration, reason, summary } => owes(ht, reason) && iteration
                == parks(ht) && told_of(ht, reason, summary),
        },
    ensures
        decides_rightly(decision, ctx, usage, from, ht, at),
{
    let effect = decision->Act_1;
    let g = see(ht, at, effect);
    if let EndingView::Paused { iteration, reason, summary } = ending {
        assert(owes(g, reason));
    }
}

proof fn lemma_pauses(
    progress: FanoutProgress,
    ctx: KernelContext,
    usage: BudgetUsage,
    from: Duration,
    iteration: u32,
    budget: BudgetKind,
    summary: Option<Seq<char>>,
    decision: FanoutDecision,
    ht: Tale,
    at: Duration,
)
    requires
        progress.pauses(iteration, budget, summary, decision),
        books_stand(progress.usage, usage, from, ht),
        due(ctx, ht) is Some,
        outgrown(ctx, usage, from, ht, at) == Some(budget),
        ({
            let told = Tale { budget: Some(budget), ..ht };
            iteration == parks(told) && told_of(told, PauseReason::Budget, summary)
        }),
    ensures
        decides_rightly(decision, ctx, usage, from, ht, at),
{
    let effect = decision->Act_1;
    let g = see(ht, at, effect);
    assert(owes(g, PauseReason::Budget));
}

proof fn lemma_outgrown(
    progress: FanoutProgress,
    ctx: KernelContext,
    usage: BudgetUsage,
    from: Duration,
    ht: Tale,
    at: Duration,
)
    requires
        books_stand(progress.usage, usage, from, ht),
    ensures
        progress.children == ht.children ==> progress.outgrown(ctx, at) == outgrown(
            ctx,
            usage,
            from,
            ht,
            at,
        ),
        progress.usage.active_at(at) == active(usage, from, at),
{
}

proof fn lemma_tops(
    progress: FanoutProgress,
    ctx: KernelContext,
    usage: BudgetUsage,
    from: Duration,
    feedback: Seq<Seq<char>>,
    decision: FanoutDecision,
    ht: Tale,
    at: Duration,
)
    requires
        progress.tops(ctx, at, feedback, decision),
        books_stand(progress.usage, usage, from, ht),
        due(ctx, ht) == Some(progress.iteration),
        progress.children == ht.children,
        ht.budget is None,
        ht.state is None,
        ht.feedback == feedback,
        ht.closed is Some && ht.claim is None ==> outgrown(ctx, usage, from, ht, at) is None,
    ensures
        decides_rightly(decision, ctx, usage, from, ht, at),
{
    lemma_outgrown(progress, ctx, usage, from, ht, at);
    match progress.outgrown(ctx, at) {
        Some(budget) => {
            lemma_pauses(
                progress,
                ctx,
                usage,
                from,
                crate::pipeline::guardrails::one_less(progress.iteration),
                budget,
                None,
                decision,
                ht,
                at,
            );
        },
        None => {},
    }
}

/// What the loop makes of a plan that reported, seen from its history.
#[verifier::rlimit(40)]
proof fn lemma_planned(
    progress: FanoutProgress,
    ctx: KernelContext,
    usage: BudgetUsage,
    from: Duration,
    deadline: Option<Duration>,
    planned: Planned,
    decision: FanoutDecision,
    ht: Tale,
    at: Duration,
)
    requires
        progress.planned(ctx, deadline, planned, decision),
        books_stand(progress.usage, usage, from, ht),
        plan_ended(Some(planned), ctx, ht),
        accounts::falls_due(ht.since, ctx.budgets.iteration_timeout, deadline),
        progress.iteration == ht.iteration,
        progress.children == ht.children,
        ht.now.asked matches Some(Effect::Destroy),
        ht.opened,
        ht.closed is None,
        ht.claim is None,
        ht.budget is None,
        ht.state is None,
        ht.sent.len() == 0,
        ht.got.len() == 0,
    ensures
        decides_rightly(decision, ctx, usage, from, ht, at),
{
    let report = planned.report;
    let task = ht.now.task;
    lemma_says(task, report);
    if history::says(task, "done"@) {
        assert(history::red(task) <==> planned.verify is Failed) by {
            if planned.verify is Passed && task.told.len() > 0 {
                assert(task.told[task.told.len() - 1].passed);
            }
        }
        if planned.verify is Failed {
            lemma_concludes(
                progress,
                ctx,
                usage,
                from,
                EndingView::Paused {
                    iteration: progress.iteration,
                    reason: PauseReason::VerifyFailed,
                    summary: Some(report.summary@),
                },
                decision,
                ht,
                at,
            );
        } else {
            assert(planned.verify is Passed);
            let g = see(ht, at, decision->Act_1);
            assert(asks_rightly(ctx, usage, from, ht, at, decision->Act_1));
        }
    } else if report.status == ReportStatus::Continue {
        let next = decision->Act_0;
        let effect = decision->Act_1;
        let g = see(ht, at, effect);
        let batch = next.phase->batch;
        assert(ht.sent =~= Seq::empty());
        assert(ht.got =~= Seq::empty());
        assert(text::texts(report.units@) == units(ht));
        laws::lemma_begins(report.units@, batch, effect);
        assert(g.sent =~= seq![effect]);
        assert(g.got =~= Seq::empty());
        assert(minds_children(effect));
        assert(history::see(ht.now, effect).task == ht.now.task);
        lemma_spread(batch, ht, effect);
    } else {
        let reason = if report.status == ReportStatus::Blocked {
            PauseReason::Blocked
        } else {
            PauseReason::AwaitingHuman
        };
        lemma_concludes(
            progress,
            ctx,
            usage,
            from,
            EndingView::Paused {
                iteration: progress.iteration,
                reason,
                summary: Some(report.summary@),
            },
            decision,
            ht,
            at,
        );
    }
}

/// A batch that is underway asks for what its history calls for.
proof fn lemma_spread(batch: Batch, ht: Tale, effect: Effect)
    requires
        spreads(ht),
        minds_children(effect),
        ht.got.len() == ht.sent.len(),
        ht.sent.len() == 0 ==> ht.now.asked == Some(Effect::Destroy),
        laws::underway(batch, units(ht), ht.sent.push(effect), ht.got),
    ensures
        batches_rightly(ht, effect),
{
    let sent = ht.sent.push(effect);
    let all = units(ht);
    assert(all.take(all.len() as int) =~= all);
    assert(laws::over(trace::logged(sent)) =~= laws::returned(sent, ht.got).ends);
}

/// What the loop makes of its batch, seen from its history.
#[verifier::rlimit(40)]
proof fn lemma_batched(
    run: FanoutRun,
    ctx: KernelContext,
    usage: BudgetUsage,
    from: Duration,
    reply: Reply,
    decision: FanoutDecision,
    t: Tale,
    at: Duration,
)
    requires
        run.phase is Batching,
        loop_stands(run, ctx, t),
        books_stand(run.progress.usage, usage, from, t),
        run.decides(ctx, at, reply, decision),
    ensures
        decides_rightly(decision, ctx, usage, from, hear(t, reply), at),
{
    let ht = hear(t, reply);
    if let FanoutPhase::Batching { summary, batch } = run.phase {
        let (inner, books) = choose|inner: BatchTurn, books: BudgetUsage|
            #![trigger batch.steps(reply, inner), batch.bills(run.progress.usage, reply, books)]
            batch.steps(reply, inner) && batch.bills(run.progress.usage, reply, books) && (
            FanoutProgress { usage: books, ..run.progress }).batched(summary, inner, decision);
        history::lemma_hear(t.now, reply);
        let all = units(t);
        assert(units(ht) == all);
        assert(spreads(ht));
        laws::lemma_step(batch, reply, inner, all, t.sent, t.got);
        lemma_bills(batch, reply, run.progress.usage, books, t);
        match inner {
            Turn::Act(next, effect) => {
                let g = see(ht, at, effect);
                laws::lemma_kinds(batch, reply, next, effect);
                assert(minds_children(effect));
                assert(g.now.task == ht.now.task);
                assert(g.sent == ht.sent.push(effect));
                lemma_spread(next, ht, effect);
                assert(batches_rightly(ht, effect));
            },
            Turn::End(Ok(n)) => {
                let g = see(ht, at, decision->Act_1);
                assert(n == laws::capped(laws::returned(ht.sent, ht.got).iterations));
                assert(g.feedback =~= Seq::empty());
            },
            Turn::End(Err(error)) => {},
        }
    }
}

/// A settled child's history is billed as it stands.
proof fn lemma_bills(
    batch: Batch,
    reply: Reply,
    before: BudgetUsage,
    books: BudgetUsage,
    t: Tale,
)
    requires
        laws::underway(batch, units(t), t.sent, t.got),
        t.now.asked == Some(t.sent.last()),
        before.spent() == t.spent,
        batch.bills(before, reply, books),
    ensures
        books.spent() == hear(t, reply).spent,
{
    if let Reply::Settled(child, history) = reply {
        lemma_billed_by(t.spent, event::envelope_views(history@));
    }
}

proof fn lemma_billed_by(spent: Option<u64>, history: Seq<event::EnvelopeView>)
    ensures
        billed_by(spent, history) == batch::spent_through(spent, history),
    decreases history.len(),
{
    if history.len() > 0 {
        lemma_billed_by(spent, history.drop_last());
    }
}

#[verifier::rlimit(40)]
proof fn lemma_decides(
    run: FanoutRun,
    ctx: KernelContext,
    usage: BudgetUsage,
    from: Duration,
    reply: Reply,
    decision: FanoutDecision,
    t: Tale,
    at: Duration,
)
    requires
        loop_stands(run, ctx, t),
        books_stand(run.progress.usage, usage, from, t),
        run.decides(ctx, at, reply, decision),
    ensures
        decides_rightly(decision, ctx, usage, from, hear(t, reply), at),
{
    let ht = hear(t, reply);
    let progress = run.progress;
    match run.phase {
        FanoutPhase::Starting => {
            history::lemma_hear(t.now, reply);
            if !(reply is Failed) {
                assert(ht.feedback =~= Seq::empty());
                lemma_tops(progress, ctx, usage, from, Seq::empty(), decision, ht, at);
            }
        },
        FanoutPhase::Opening { feedback } => {
            history::lemma_hear(t.now, reply);
        },
        FanoutPhase::Planning { brief, deadline, bracket } => {
            let inner = choose|
                inner: Turn<Bracket<PlanWork>, Result<Bracketed<Option<Planned>>, KernelError>>,
            | #[trigger]
                bracket.steps(ctx, brief, reply, inner) && progress.plans(
                    ctx,
                    brief,
                    deadline,
                    inner,
                    decision,
                );
            lemma_plan_bracket(bracket, ctx, brief, reply, inner, t, at);
            assert(ht.spent == t.spent);
            match inner {
                Turn::Act(next, effect) => {
                    lemma_inside(ctx, ht, at, effect);
                },
                Turn::End(Ok(Bracketed::Finished(Some(planned)))) => {
                    lemma_planned(
                        progress,
                        ctx,
                        usage,
                        from,
                        deadline,
                        planned,
                        decision,
                        ht,
                        at,
                    );
                },
                Turn::End(Ok(Bracketed::Cancelled)) => {
                    lemma_concludes(
                        progress,
                        ctx,
                        usage,
                        from,
                        EndingView::Cancelled,
                        decision,
                        ht,
                        at,
                    );
                },
                _ => {},
            }
        },
        FanoutPhase::Judging { brief, bracket } => {
            let inner = choose|
                inner: Turn<Bracket<JudgeWork>, Result<Bracketed<SkepticEnd>, KernelError>>,
            | #[trigger]
                bracket.steps(ctx, brief, reply, inner) && progress.judged(
                    ctx,
                    brief,
                    inner,
                    decision,
                );
            lemma_judge_bracket(bracket, ctx, brief, reply, inner, t, at);
            assert(ht.now.task.report is None);
            assert(ht.spent == t.spent);
            lemma_judged(progress, ctx, usage, from, brief, inner, decision, ht, at);
        },
        FanoutPhase::Batching { summary, batch } => {
            lemma_batched(run, ctx, usage, from, reply, decision, t, at);
        },
        FanoutPhase::Closing { summary, children } => {
            history::lemma_hear(t.now, reply);
            if !(reply is Failed) {
                let now = FanoutProgress {
                    children: run::count_sum(progress.children, children),
                    ..progress
                };
                assert(progress.settles(ctx, at, summary@, children, decision));
                lemma_outgrown(now, ctx, usage, from, ht, at);
                match now.outgrown(ctx, at) {
                    Some(budget) => {
                        lemma_pauses(
                            now,
                            ctx,
                            usage,
                            from,
                            progress.iteration,
                            budget,
                            Some(summary@),
                            decision,
                            ht,
                            at,
                        );
                    },
                    None => {
                        assert(ht.feedback =~= Seq::empty());
                        lemma_tops(now.next(), ctx, usage, from, Seq::empty(), decision, ht, at);
                    },
                }
            }
        },
        FanoutPhase::Refuting { findings } => {
            history::lemma_hear(t.now, reply);
            if !(reply is Failed) {
                lemma_tops(
                    progress.next(),
                    ctx,
                    usage,
                    from,
                    text::texts(findings@),
                    decision,
                    ht,
                    at,
                );
            }
        },
        FanoutPhase::Failing => {
            history::lemma_hear(t.now, reply);
            if !(reply is Failed) {
                lemma_concludes(
                    progress,
                    ctx,
                    usage,
                    from,
                    EndingView::Failed,
                    decision,
                    ht,
                    at,
                );
            }
        },
        FanoutPhase::Expiring => {
            history::lemma_hear(t.now, reply);
            if !(reply is Failed) {
                lemma_concludes(
                    progress,
                    ctx,
                    usage,
                    from,
                    EndingView::Paused {
                        iteration: progress.iteration,
                        reason: PauseReason::Timeout,
                        summary: Some("fanout plan timed out"@),
                    },
                    decision,
                    ht,
                    at,
                );
            }
        },
        FanoutPhase::Ending(conclusion) => {
            let inner = choose|inner: Turn<Conclusion, Result<RunOutcome, KernelError>>| #[trigger]
                conclusion.steps(ctx, reply, inner) && match inner {
                    Turn::Act(conclusion, effect) => decision == FanoutDecision::Act(
                        FanoutRun { phase: FanoutPhase::Ending(conclusion), ..run },
                        effect,
                    ),
                    Turn::End(result) => decision == FanoutDecision::End(result),
                };
            lemma_ending(conclusion, ctx, usage, from, reply, inner, t, at);
        },
    }
}

/// What the loop makes of its skeptic, seen from its history.
proof fn lemma_judged(
    progress: FanoutProgress,
    ctx: KernelContext,
    usage: BudgetUsage,
    from: Duration,
    brief: ClaimBrief,
    inner: Turn<Bracket<JudgeWork>, Result<Bracketed<SkepticEnd>, KernelError>>,
    decision: FanoutDecision,
    ht: Tale,
    at: Duration,
)
    requires
        progress.judged(ctx, brief, inner, decision),
        books_stand(progress.usage, usage, from, ht),
        match inner {
            Turn::Act(next, effect) => {
                &&& works_rightly(ctx, ht, effect)
                &&& judge_bracket(next, ctx, see(ht, at, effect))
            },
            Turn::End(result) => judge_over(result, ht) && ht.now.asked is Some,
        },
        progress.iteration == ht.iteration,
        progress.children == ht.children,
        ht.opened,
        ht.closed is None,
        claim_stands(brief, ht),
        ht.budget is None,
        ht.state is None,
        ht.sent.len() == 0,
        ht.got.len() == 0,
        ht.now.task.report is None,
    ensures
        decides_rightly(decision, ctx, usage, from, ht, at),
{
    match inner {
        Turn::Act(next, effect) => {
            lemma_inside(ctx, ht, at, effect);
        },
        Turn::End(Ok(Bracketed::Cancelled)) => {
            lemma_concludes(progress, ctx, usage, from, EndingView::Cancelled, decision, ht, at);
        },
        Turn::End(Ok(Bracketed::TimedOut)) => {
            lemma_concludes(
                progress,
                ctx,
                usage,
                from,
                EndingView::Paused {
                    iteration: progress.iteration,
                    reason: PauseReason::Timeout,
                    summary: Some("fanout skeptic timed out"@),
                },
                decision,
                ht,
                at,
            );
        },
        Turn::End(Ok(Bracketed::Finished(SkepticEnd::Unrefuted))) => {
            lemma_concludes(progress, ctx, usage, from, EndingView::Done, decision, ht, at);
        },
        _ => {},
    }
}

/// The iterations that a log's children finished in all.
pub open spec fn children_in(events: Seq<event::EnvelopeView>) -> nat
    decreases events.len(),
{
    if events.len() == 0 {
        0
    } else {
        let before = children_in(events.drop_last());
        match events.last().event {
            EventView::ChildRunFinished { child_run_id, state, iterations, usage } => before
                + iterations as nat,
            _ => before,
        }
    }
}

/// Whether `n` is the highest iteration that a log closes; 0 where it closes
/// none.
pub open spec fn closed_last(events: Seq<event::EnvelopeView>, n: u32) -> bool {
    &&& forall|i: int|
        0 <= i < events.len() ==> ((#[trigger] events[i]).event
            matches EventView::IterationFinished { iteration, .. } ==> iteration <= n)
    &&& n == 0 || exists|i: int|
        0 <= i < events.len() && ((#[trigger] events[i]).event
            matches EventView::IterationFinished { iteration, .. } && iteration == n)
}

/// Whether a run goes in at `iteration` with `children` iterations on its
/// account: a fresh one at the first with none, and one that is taken up
/// again after the last that its log closed, with all that its log's children
/// finished.
pub open spec fn goes_in(ctx: KernelContext, iteration: u32, children: u32) -> bool {
    match ctx.replay {
        None => iteration == 1 && children == 0,
        Some(log) => {
            let events = event::envelope_views(log@);
            &&& exists|n: u32| #[trigger] closed_last(events, n) && iteration == after(n)
            &&& children == laws::capped(children_in(events))
        },
    }
}

/// The tale of a run that has not begun yet.
pub open spec fn dawn(usage: BudgetUsage, iteration: u32, children: u32) -> Tale {
    Tale {
        now: history::nothing(),
        iteration,
        opened: false,
        closed: None,
        since: Duration::of_secs(0),
        claim: None,
        feedback: Seq::empty(),
        sent: Seq::empty(),
        got: Seq::empty(),
        children,
        spent: usage.spent(),
        budget: None,
        parked: false,
        state: None,
    }
}

/// The reading of the clock at which the effect after these replies is asked
/// for.
pub open spec fn moment(from: Duration, heard: Seq<(Duration, Reply)>) -> Duration {
    if heard.len() == 0 {
        from
    } else {
        heard.last().0
    }
}

/// The tale `start`, with `effects` asked for and each of them answered, at
/// the clock's readings that come with the replies.
pub open spec fn told(
    start: Tale,
    from: Duration,
    effects: Seq<Effect>,
    heard: Seq<(Duration, Reply)>,
) -> Tale
    decreases heard.len(),
{
    if heard.len() == 0 {
        start
    } else {
        hear(
            see(
                told(start, from, effects.drop_last(), heard.drop_last()),
                moment(from, heard.drop_last()),
                effects.last(),
            ),
            heard.last().1,
        )
    }
}

/// Whether a run that began at `start` stands at `turn` once it has asked for
/// `effects` and each of them was answered.
pub open spec fn comes_to(
    start: FanoutTurn,
    ctx: KernelContext,
    effects: Seq<Effect>,
    heard: Seq<(Duration, Reply)>,
    turn: FanoutTurn,
) -> bool
    decreases heard.len(),
{
    &&& effects.len() == heard.len()
    &&& if heard.len() == 0 {
        turn == start
    } else {
        exists|before: FanoutRun| #[trigger]
            before.steps(ctx, heard.last().0, heard.last().1, turn) && comes_to(
                start,
                ctx,
                effects.drop_last(),
                heard.drop_last(),
                Turn::Act(before, effects.last()),
            )
    }
}

spec fn turns_rightly(
    turn: FanoutTurn,
    ctx: KernelContext,
    usage: BudgetUsage,
    from: Duration,
    t: Tale,
    at: Duration,
) -> bool {
    match turn {
        Turn::Act(next, effect) => {
            &&& asks_rightly(ctx, usage, from, t, at, effect)
            &&& stands(next, ctx, usage, from, see(t, at, effect))
        },
        Turn::End((end, closed)) => {
            &&& ends_rightly(t, end)
            &&& closed.spent() == t.spent
            &&& closed.settled() == active(usage, from, at)
        },
    }
}

/// Whether a run stands where a history shows it.
#[verifier::opaque]
spec fn stands(
    run: FanoutRun,
    ctx: KernelContext,
    usage: BudgetUsage,
    from: Duration,
    t: Tale,
) -> bool {
    loop_stands(run, ctx, t) && books_stand(run.progress.usage, usage, from, t)
}

/// A decision with the books kept is still the one that was called for.
proof fn lemma_kept(
    decision: FanoutDecision,
    ctx: KernelContext,
    usage: BudgetUsage,
    from: Duration,
    books: BudgetUsage,
    turn: FanoutTurn,
    ht: Tale,
    at: Duration,
)
    requires
        decides_rightly(decision, ctx, usage, from, ht, at),
        books_stand(books, usage, from, ht),
        FanoutRun::accounts(books, at, decision, turn),
    ensures
        turns_rightly(turn, ctx, usage, from, ht, at),
{
    reveal(stands);
    if let Turn::Act(next, effect) = decision {
        let kept = turn->Act_0;
        let g = see(ht, at, effect);
        assert(kept.phase == next.phase);
        assert(loop_stands(kept, ctx, g));
        assert(g.spent == accounts::spent_after(ht.spent, effect));
    }
}

/// One step of a run, seen from its history.
#[verifier::rlimit(40)]
proof fn lemma_step(
    before: FanoutRun,
    ctx: KernelContext,
    usage: BudgetUsage,
    from: Duration,
    at: Duration,
    reply: Reply,
    turn: FanoutTurn,
    t: Tale,
)
    requires
        stands(before, ctx, usage, from, t),
        before.steps(ctx, at, reply, turn),
    ensures
        turns_rightly(turn, ctx, usage, from, hear(t, reply), at),
{
    reveal(stands);
    let (decision, books) = choose|decision: FanoutDecision, books: BudgetUsage|
        #![trigger before.decides(ctx, at, reply, decision), before.carries(reply, books)]
        before.decides(ctx, at, reply, decision) && before.carries(reply, books)
            && FanoutRun::accounts(books, at, decision, turn);
    lemma_decides(before, ctx, usage, from, reply, decision, t, at);
    lemma_carries(before, ctx, usage, from, reply, books, t);
    lemma_kept(decision, ctx, usage, from, books, turn, hear(t, reply), at);
}

/// The books after a reply show what the history does.
proof fn lemma_carries(
    before: FanoutRun,
    ctx: KernelContext,
    usage: BudgetUsage,
    from: Duration,
    reply: Reply,
    books: BudgetUsage,
    t: Tale,
)
    requires
        loop_stands(before, ctx, t),
        books_stand(before.progress.usage, usage, from, t),
        before.carries(reply, books),
    ensures
        books_stand(books, usage, from, hear(t, reply)),
{
    match before.phase {
        FanoutPhase::Batching { summary, batch } => {
            lemma_bills(batch, reply, before.progress.usage, books, t);
        },
        _ => {
            assert(!(t.now.asked->0 is NextSettled));
        },
    }
}

proof fn lemma_last_closed(events: Seq<event::EnvelopeView>, n: u32)
    requires
        closed_last(events, n),
    ensures
        run::last_closed(events) == n,
{
    lemma_closed_last(events);
    let m = run::last_closed(events);
    if m != 0 {
        let i = choose|i: int|
            0 <= i < events.len() && ((#[trigger] events[i]).event
                matches EventView::IterationFinished { iteration, .. } && iteration == m);
        assert(m <= n);
    }
    if n != 0 {
        let i = choose|i: int|
            0 <= i < events.len() && ((#[trigger] events[i]).event
                matches EventView::IterationFinished { iteration, .. } && iteration == n);
        assert(n <= m);
    }
}

proof fn lemma_closed_last(events: Seq<event::EnvelopeView>)
    ensures
        closed_last(events, run::last_closed(events)),
    decreases events.len(),
{
    if events.len() > 0 {
        let less = events.drop_last();
        lemma_closed_last(less);
        let n = run::last_closed(events);
        let k = run::last_closed(less);
        assert forall|i: int| 0 <= i < events.len() implies ((#[trigger] events[i]).event
            matches EventView::IterationFinished { iteration, .. } ==> iteration <= n) by {
            if i < less.len() {
                assert(less[i] == events[i]);
            }
        }
        if n != 0 {
            if n == k {
                let i = choose|i: int|
                    0 <= i < less.len() && ((#[trigger] less[i]).event
                        matches EventView::IterationFinished { iteration, .. } && iteration == k);
                assert(events[i] == less[i]);
            } else {
                assert(events[events.len() - 1].event is IterationFinished);
            }
        }
    }
}

proof fn lemma_children_in(events: Seq<event::EnvelopeView>)
    ensures
        run::children_settled(events) == laws::capped(children_in(events)),
    decreases events.len(),
{
    if events.len() > 0 {
        lemma_children_in(events.drop_last());
    }
}

/// How a run begins, seen from its tale.
proof fn lemma_begins(
    ctx: KernelContext,
    usage: BudgetUsage,
    from: Duration,
    iteration: u32,
    children: u32,
    turn: FanoutTurn,
)
    requires
        goes_in(ctx, iteration, children),
        run::launches(ctx, usage, from, turn),
        turn is Act,
    ensures
        turns_rightly(turn, ctx, usage, from, dawn(usage, iteration, children), from),
{
    let (opened, decision) = choose|opened: BudgetUsage, decision: FanoutDecision|
        accounts::opened(usage, from, opened) && #[trigger] run::begins(
            ctx,
            from,
            opened,
            decision,
        ) && FanoutRun::accounts(opened, from, decision, turn);
    let t = dawn(usage, iteration, children);
    match ctx.replay {
        Some(log) => {
            let events = event::envelope_views(log@);
            let n = choose|n: u32| #[trigger]
                closed_last(events, n) && iteration == after(n);
            lemma_last_closed(events, n);
            lemma_children_in(events);
            let progress = FanoutProgress { iteration, children, usage: opened };
            assert(progress.tops(ctx, from, Seq::empty(), decision));
            lemma_tops(progress, ctx, usage, from, Seq::empty(), decision, t, from);
        },
        None => {
            assert(decides_rightly(decision, ctx, usage, from, t, from));
        },
    }
    lemma_kept(decision, ctx, usage, from, opened, turn, t, from);
}

#[verifier::rlimit(40)]
proof fn lemma_told(
    ctx: KernelContext,
    usage: BudgetUsage,
    from: Duration,
    iteration: u32,
    children: u32,
    start: FanoutTurn,
    effects: Seq<Effect>,
    heard: Seq<(Duration, Reply)>,
    turn: FanoutTurn,
)
    requires
        goes_in(ctx, iteration, children),
        run::launches(ctx, usage, from, start),
        start is Act,
        comes_to(start, ctx, effects, heard, turn),
    ensures
        turns_rightly(
            turn,
            ctx,
            usage,
            from,
            told(dawn(usage, iteration, children), from, effects, heard),
            moment(from, heard),
        ),
    decreases heard.len(),
{
    if heard.len() == 0 {
        lemma_begins(ctx, usage, from, iteration, children, start);
    } else {
        let before = choose|before: FanoutRun| #[trigger]
            before.steps(ctx, heard.last().0, heard.last().1, turn) && comes_to(
                start,
                ctx,
                effects.drop_last(),
                heard.drop_last(),
                Turn::Act(before, effects.last()),
            );
        lemma_told(
            ctx,
            usage,
            from,
            iteration,
            children,
            start,
            effects.drop_last(),
            heard.drop_last(),
            Turn::Act(before, effects.last()),
        );
        let earlier = told(
            dawn(usage, iteration, children),
            from,
            effects.drop_last(),
            heard.drop_last(),
        );
        let t = see(earlier, moment(from, heard.drop_last()), effects.last());
        lemma_step(before, ctx, usage, from, heard.last().0, heard.last().1, turn, t);
    }
}

/// What a run does, its history calls for. However long a run of the fanout
/// has gone on and whatever the host has answered, the effect that it asks
/// for next is one that the history of effects and replies calls for; and
/// once it ends, its outcome is the state that it logged last, or an error
/// that the host gave cause for.
///
/// An iteration is announced only where it is due and every budget has room,
/// the iterations of all settled children counted. One child is submitted for
/// each unit of the plan, in order, and the iteration is closed as completed
/// only once all of them have settled, or its claim was refuted. Each pause
/// has the one reason that its history shows, and shows only once the
/// workspace has been committed.
pub proof fn a_fanout_goes_by_its_history(
    ctx: KernelContext,
    usage: BudgetUsage,
    from: Duration,
    iteration: u32,
    children: u32,
    begun: FanoutRun,
    first: Effect,
    effects: Seq<Effect>,
    heard: Seq<(Duration, Reply)>,
    turn: FanoutTurn,
)
    requires
        goes_in(ctx, iteration, children),
        run::launches(ctx, usage, from, Turn::Act(begun, first)),
        comes_to(Turn::Act(begun, first), ctx, effects, heard, turn),
    ensures
        ({
            let t = told(dawn(usage, iteration, children), from, effects, heard);
            let at = moment(from, heard);
            match turn {
                Turn::Act(_, effect) => asks_rightly(ctx, usage, from, t, at, effect),
                Turn::End((end, closed)) => {
                    &&& ends_rightly(t, end)
                    &&& closed.spent() == t.spent
                    &&& closed.settled() == active(usage, from, at)
                },
            }
        }),
{
    lemma_told(
        ctx,
        usage,
        from,
        iteration,
        children,
        Turn::Act(begun, first),
        effects,
        heard,
        turn,
    );
}

} // verus!
