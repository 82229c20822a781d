//! What every run of the pipeline keeps, whatever its host answers.

use crate::bracket::{self, Bracket, BracketPhase, Bracketed};
use crate::budget::Duration;
use crate::ending::{Conclusion, ConclusionPhase};
use crate::event;
use crate::kernel::{self, Effect, KernelContext, KernelError, Reply, Turn, Work};
use crate::pipeline::assets;
use crate::pipeline::contract::{self, Stage};
use crate::pipeline::guardrails;
use crate::pipeline::pass::{PassPhase, PassTurn, StageRunTurn};
use crate::pipeline::run::{self, Decision, PipelinePhase, PipelineRun, PipelineTurn};
use crate::pipeline::skeptic::{self, JudgeBrief, SkepticTurn, SkepticWork};
use crate::pipeline::stage::{self, StageDrive, StageWork};
use crate::run::{RunOutcome, RunState};
use crate::skeptic::{Evaluation, EvaluationPhase, SkepticEnd};
use vstd::prelude::*;

verus! {

/// Whether an effect logs a verdict that found nothing.
pub open spec fn clears(effect: Effect) -> bool {
    effect matches Effect::Emit(emitted) && (emitted@ matches event::EventView::SkepticVerdict {
        refuted,
        findings,
        ..
    } && !refuted && findings.len() == 0)
}

/// Whether the skeptic's work is logging an unrefuted verdict.
pub open spec fn clearing(work: SkepticWork) -> bool {
    work matches SkepticWork::Evaluating(evaluation) && (evaluation.phase
        matches EvaluationPhase::Logging(SkepticEnd::Unrefuted))
}

/// How near a run is to being done: 1 while an unrefuted verdict is being
/// logged, 2 while that skeptic's sandbox is destroyed, 3 while the run's
/// last state is logged.
pub open spec fn doneness(run: PipelineRun) -> int {
    match run.phase {
        PipelinePhase::Ending(conclusion) => if conclusion.ending is Done {
            3
        } else {
            0
        },
        PipelinePhase::Passing(pass) => match pass.phase {
            PassPhase::Judging { brief, bracket } => judging(bracket),
            _ => 0,
        },
        _ => 0,
    }
}

/// How near a skeptic's bracket is to clearing a claim.
pub open spec fn judging(bracket: Bracket<SkepticWork>) -> int {
    match bracket.phase {
        BracketPhase::Working(work) => if clearing(work) {
            1
        } else {
            0
        },
        BracketPhase::Destroying(Ok(Bracketed::Finished(SkepticEnd::Unrefuted))) => 2,
        _ => 0,
    }
}

/// Whether a run is one that the kernel can come to: a skeptic that has not
/// booted has judged nothing, and a run that is done has nothing to commit.
pub open spec fn proper(run: PipelineRun) -> bool {
    match run.phase {
        PipelinePhase::Ending(conclusion) => conclusion.ending is Done ==> conclusion.phase
            == ConclusionPhase::Announcing,
        PipelinePhase::Passing(pass) => match pass.phase {
            PassPhase::Judging { brief, bracket } => unjudged(bracket),
            _ => true,
        },
        _ => true,
    }
}

/// Whether a skeptic's bracket has judged nothing before it booted.
pub open spec fn unjudged(bracket: Bracket<SkepticWork>) -> bool {
    match bracket.phase {
        BracketPhase::Polling(work) => !clearing(work),
        BracketPhase::Booting(work) => !clearing(work),
        _ => true,
    }
}

proof fn lemma_gathering_clears_nothing(
    ctx: KernelContext,
    brief: JudgeBrief,
    gathered: Seq<(Stage, Seq<char>)>,
    left: Seq<Stage>,
    turn: SkepticTurn,
)
    requires
        skeptic::gathers(ctx, brief, gathered, left, turn),
    ensures
        turn matches Turn::Act(next, effect) ==> !clearing(next),
        turn is End ==> turn->End_0 is Err,
    decreases left.len(),
{
    if left.len() > 0 && ctx.prompts.file(left[0].word()) is None && assets::default_prompt_text(
        left[0],
    ) is Some {
        lemma_gathering_clears_nothing(
            ctx,
            brief,
            gathered.push((left[0], assets::default_prompt_text(left[0])->0)),
            left.skip(1),
            turn,
        );
    }
}

proof fn lemma_work(
    work: SkepticWork,
    ctx: KernelContext,
    brief: JudgeBrief,
    reply: Reply,
    turn: SkepticTurn,
)
    requires
        work.steps(ctx, brief, reply, turn),
    ensures
        turn is Act && clearing(turn->Act_0) ==> clears(turn->Act_1),
        turn matches Turn::End(Ok(SkepticEnd::Unrefuted)) ==> clearing(work),
{
    match work {
        SkepticWork::Ready => {
            if !(reply is Failed) {
                lemma_gathering_clears_nothing(
                    ctx,
                    brief,
                    Seq::empty(),
                    stage::active_among(ctx.prompts, contract::STAGES as int),
                    turn,
                );
            }
        },
        SkepticWork::Gathering { gathered, left } => {
            if left@.len() > 0 {
                let read = choose|read: Result<String, KernelError>| #[trigger]
                    crate::invocation::prompt_reads(left@[0].word(), reply, read) && match read {
                        Ok(prompt) => skeptic::gathers(
                            ctx,
                            brief,
                            skeptic::prompt_views(gathered@).push((left@[0], prompt@)),
                            left@.skip(1),
                            turn,
                        ),
                        Err(error) => turn == SkepticTurn::End(Err(error)),
                    };
                if let Ok(prompt) = read {
                    lemma_gathering_clears_nothing(
                        ctx,
                        brief,
                        skeptic::prompt_views(gathered@).push((left@[0], prompt@)),
                        left@.skip(1),
                        turn,
                    );
                }
            }
        },
        SkepticWork::Evaluating(evaluation) => {
            let inner = choose|inner: Turn<Evaluation, Result<SkepticEnd, KernelError>>|
                #[trigger] evaluation.steps(ctx, reply, inner) && match inner {
                    Turn::Act(evaluation, effect) => turn == SkepticTurn::Act(
                        SkepticWork::Evaluating(evaluation),
                        effect,
                    ),
                    Turn::End(result) => turn == SkepticTurn::End(result),
                };
            crate::skeptic::a_claim_survives_only_by_a_logged_verdict(
                evaluation,
                ctx,
                reply,
                inner,
            );
        },
    }
}

proof fn lemma_judging(
    bracket: Bracket<SkepticWork>,
    ctx: KernelContext,
    brief: JudgeBrief,
    reply: Reply,
    turn: Turn<Bracket<SkepticWork>, Result<Bracketed<SkepticEnd>, KernelError>>,
)
    requires
        unjudged(bracket),
        bracket.steps(ctx, brief, reply, turn),
    ensures
        turn is Act ==> unjudged(turn->Act_0),
        turn is Act && judging(turn->Act_0) == 1 ==> clears(turn->Act_1),
        turn is Act && judging(turn->Act_0) == 2 ==> judging(bracket) == 1 && turn->Act_1
            is Destroy,
        turn matches Turn::End(Ok(Bracketed::Finished(SkepticEnd::Unrefuted))) ==> judging(bracket)
            == 2,
{
    match bracket.phase {
        BracketPhase::Booting(work) => {
            if !(reply is Failed) {
                let inner = choose|inner: SkepticTurn| #[trigger]
                    work.steps(ctx, brief, Reply::Done, inner) && bracket.follows(inner, turn);
                lemma_work(work, ctx, brief, Reply::Done, inner);
            }
        },
        BracketPhase::Working(work) => {
            if !(reply is Cancelled) && !(reply is TimedOut) {
                let inner = choose|inner: SkepticTurn| #[trigger]
                    work.steps(ctx, brief, reply, inner) && bracket.follows(inner, turn);
                lemma_work(work, ctx, brief, reply, inner);
            }
        },
        _ => {},
    }
}

/// What the loop makes of a turn of its iteration brings a run near to being
/// done only where the skeptic has cleared the claim.
proof fn lemma_passed(
    progress: run::Progress,
    ctx: KernelContext,
    inner: PassTurn,
    decision: Decision,
)
    requires
        progress.passed(ctx, inner, decision),
        inner matches Turn::Act(pass, _) ==> (pass.phase matches PassPhase::Judging {
            brief,
            bracket,
        } ==> unjudged(bracket)),
    ensures
        decision is Act ==> proper(decision->Act_0),
        decision is Act && doneness(decision->Act_0) == 3 ==> inner == PassTurn::End(
            Ok(crate::pipeline::pass::IterationEnd::Done),
        ) && kernel::emits(
            decision->Act_1,
            event::EventView::StateChanged { state: RunState::Done },
        ),
        decision is Act && 0 < doneness(decision->Act_0) < 3 ==> inner is Act && (
        inner->Act_0).phase is Judging && judging((inner->Act_0).phase->bracket) == doneness(
            decision->Act_0,
        ) && decision->Act_1 == inner->Act_1,
        decision matches Turn::End(Ok(outcome)) ==> false,
{
}

proof fn lemma_tops(
    progress: run::Progress,
    ctx: KernelContext,
    now: Duration,
    entry: crate::pipeline::pass::Entry,
    feedback: Seq<crate::preamble::FeedbackView>,
    decision: Decision,
)
    requires
        progress.tops(ctx, now, entry, feedback, decision),
    ensures
        decision is Act ==> proper(decision->Act_0) && doneness(decision->Act_0) == 0,
        decision matches Turn::End(Ok(outcome)) ==> false,
{
    if progress.outgrown(ctx, now, guardrails::one_less(progress.iteration)) is None && !entry.starts {
        lemma_passes(progress, ctx, now, entry, feedback, decision);
    }
}

proof fn lemma_passes(
    progress: run::Progress,
    ctx: KernelContext,
    now: Duration,
    entry: crate::pipeline::pass::Entry,
    feedback: Seq<crate::preamble::FeedbackView>,
    decision: Decision,
)
    requires
        progress.passes(ctx, now, entry, feedback, decision),
    ensures
        decision is Act ==> proper(decision->Act_0) && doneness(decision->Act_0) == 0,
        decision matches Turn::End(Ok(outcome)) ==> false,
{
    let (inner, deadline) = choose|inner: PassTurn, deadline: Option<Duration>|
        crate::accounts::falls_due(now, ctx.budgets.iteration_timeout, deadline)
            && #[trigger] crate::pipeline::pass::opens(
            ctx,
            progress.iteration,
            entry,
            feedback,
            deadline,
            inner,
        ) && progress.passed(ctx, inner, decision);
    lemma_passed(progress, ctx, inner, decision);
}

proof fn lemma_next(
    progress: run::Progress,
    ctx: KernelContext,
    now: Duration,
    feedback: Seq<crate::preamble::FeedbackView>,
    decision: Decision,
)
    requires
        progress.next(ctx, now, feedback, decision),
    ensures
        decision is Act ==> proper(decision->Act_0) && doneness(decision->Act_0) == 0,
        decision matches Turn::End(Ok(outcome)) ==> false,
{
    let later = run::Progress { iteration: guardrails::one_more(progress.iteration), ..progress };
    let entry = choose|entry: crate::pipeline::pass::Entry|
        entry.is_fresh() && #[trigger] later.tops(ctx, now, entry, feedback, decision);
    lemma_tops(later, ctx, now, entry, feedback, decision);
}

/// One step of a run, seen from how near it is to being done.
proof fn lemma_decides(
    before: PipelineRun,
    ctx: KernelContext,
    now: Duration,
    reply: Reply,
    decision: Decision,
)
    requires
        proper(before),
        before.decides(ctx, now, reply, decision),
    ensures
        decision is Act ==> proper(decision->Act_0),
        decision is Act && doneness(decision->Act_0) == 1 ==> clears(decision->Act_1),
        decision is Act && doneness(decision->Act_0) == 2 ==> doneness(before) == 1
            && decision->Act_1 is Destroy,
        decision is Act && doneness(decision->Act_0) == 3 ==> doneness(before) == 2
            && kernel::emits(
            decision->Act_1,
            event::EventView::StateChanged { state: RunState::Done },
        ),
        decision matches Turn::End(Ok(RunOutcome::Done)) ==> doneness(before) == 3,
{
    match before.phase {
        PipelinePhase::Passing(pass) => {
            let inner = choose|inner: PassTurn| #[trigger]
                pass.steps(ctx, reply, inner) && before.progress.passed(ctx, inner, decision);
            match pass.phase {
                PassPhase::Staging(stage) => {
                    let staged = choose|staged: StageRunTurn| #[trigger]
                        stage.steps(ctx, reply, staged) && pass.staged(staged, inner);
                    lemma_passed(before.progress, ctx, inner, decision);
                },
                PassPhase::Judging { brief, bracket } => {
                    let judged = choose|
                        judged: Turn<
                            Bracket<SkepticWork>,
                            Result<Bracketed<SkepticEnd>, KernelError>,
                        >,
                    | #[trigger]
                        bracket.steps(ctx, brief, reply, judged) && pass.judged(
                            brief,
                            judged,
                            inner,
                        );
                    lemma_judging(bracket, ctx, brief, reply, judged);
                    lemma_passed(before.progress, ctx, inner, decision);
                },
            }
        },
        PipelinePhase::Ending(conclusion) => {
            let inner = choose|inner: Turn<Conclusion, Result<RunOutcome, KernelError>>|
                #[trigger] conclusion.steps(ctx, reply, inner) && match inner {
                    Turn::Act(conclusion, effect) => decision == Decision::Act(
                        PipelineRun { phase: PipelinePhase::Ending(conclusion), ..before },
                        effect,
                    ),
                    Turn::End(result) => decision == Decision::End(result),
                };
        },
        PipelinePhase::Rooting(entry) => {
            if let Reply::Head(head) = reply {
                lemma_tops(
                    run::Progress { head, ..before.progress },
                    ctx,
                    now,
                    entry,
                    Seq::empty(),
                    decision,
                );
            }
        },
        PipelinePhase::Opening(entry, feedback) => {
            if !(reply is Failed) {
                lemma_passes(
                    before.progress,
                    ctx,
                    now,
                    entry,
                    crate::preamble::feedback_views(feedback@),
                    decision,
                );
            }
        },
        PipelinePhase::Sampling { summary, feedback } => {
            if let Reply::Head(head) = reply {
                let after = run::Progress {
                    rails: before.progress.rails.after_pass(head@ != before.progress.head@),
                    head,
                    summary,
                    ..before.progress
                };
                if after.outgrown(ctx, now, before.progress.iteration) is None
                    && after.rails.no_commit_iterations < guardrails::DRIFT_LIMIT {
                    lemma_next(
                        after,
                        ctx,
                        now,
                        crate::preamble::feedback_views(feedback@),
                        decision,
                    );
                }
            }
        },
        PipelinePhase::Expiring => {
            if !(reply is Failed) && before.progress.rails.timeout_failures
                < ctx.verify.on_fail.retries {
                lemma_next(
                    run::Progress {
                        rails: before.progress.rails.after_timeout(),
                        ..before.progress
                    },
                    ctx,
                    now,
                    seq![
                        crate::preamble::FeedbackView::IterationTimedOut {
                            timeout: ctx.budgets.iteration_timeout,
                        },
                    ],
                    decision,
                );
            }
        },
        _ => {},
    }
}

/// Whether a run that hears `heard`, each reply at its reading of the clock,
/// asks for `effects` and ends in `outcome` with the last reply.
pub open spec fn plays(
    run: PipelineRun,
    ctx: KernelContext,
    heard: Seq<(Duration, Reply)>,
    effects: Seq<Effect>,
    outcome: Result<RunOutcome, KernelError>,
) -> bool
    decreases heard.len(),
{
    heard.len() > 0 && exists|turn: PipelineTurn| #[trigger]
        run.steps(ctx, heard[0].0, heard[0].1, turn) && match turn {
            Turn::End((result, _)) => heard.len() == 1 && effects.len() == 0 && result == outcome,
            Turn::Act(next, effect) => effects.len() > 0 && effects[0] == effect && plays(
                next,
                ctx,
                heard.skip(1),
                effects.skip(1),
                outcome,
            ),
        }
}

/// Whether effects close with a cleared claim at `i`: the verdict, the
/// destruction of the skeptic's sandbox, and the run's last state.
pub open spec fn clears_at(effects: Seq<Effect>, i: int) -> bool {
    &&& 0 <= i
    &&& effects.len() == i + 3
    &&& clears(effects[i])
    &&& effects[i + 1] is Destroy
    &&& kernel::emits(effects[i + 2], event::EventView::StateChanged { state: RunState::Done })
}

/// Done is never just a claim. Whatever the host answers, a run that ends as
/// done has last logged a skeptic's verdict that found nothing, destroyed
/// the skeptic's sandbox, and logged that it is done, and nothing after.
pub proof fn done_is_never_just_a_claim(
    run: PipelineRun,
    ctx: KernelContext,
    heard: Seq<(Duration, Reply)>,
    effects: Seq<Effect>,
)
    requires
        run.phase is Starting || run.phase is Rooting,
        plays(run, ctx, heard, effects, Ok(RunOutcome::Done)),
    ensures
        clears_at(effects, effects.len() - 3),
{
    lemma_plays(run, ctx, heard, effects);
}

proof fn lemma_plays(
    run: PipelineRun,
    ctx: KernelContext,
    heard: Seq<(Duration, Reply)>,
    effects: Seq<Effect>,
)
    requires
        proper(run),
        plays(run, ctx, heard, effects, Ok(RunOutcome::Done)),
    ensures
        doneness(run) == 3 ==> effects.len() == 0,
        effects.len() == 0 ==> doneness(run) == 3,
        effects.len() == 1 ==> doneness(run) == 2 && kernel::emits(
            effects[0],
            event::EventView::StateChanged { state: RunState::Done },
        ),
        effects.len() == 2 ==> doneness(run) == 1 && effects[0] is Destroy && kernel::emits(
            effects[1],
            event::EventView::StateChanged { state: RunState::Done },
        ),
        effects.len() >= 3 ==> clears_at(effects, effects.len() - 3),
    decreases heard.len(),
{
    let turn = choose|turn: PipelineTurn| #[trigger]
        run.steps(ctx, heard[0].0, heard[0].1, turn) && match turn {
            Turn::End((result, _)) => heard.len() == 1 && effects.len() == 0 && result == Ok::<
                RunOutcome,
                KernelError,
            >(RunOutcome::Done),
            Turn::Act(next, effect) => effects.len() > 0 && effects[0] == effect && plays(
                next,
                ctx,
                heard.skip(1),
                effects.skip(1),
                Ok(RunOutcome::Done),
            ),
        };
    let decision = choose|decision: Decision| #[trigger]
        run.decides(ctx, heard[0].0, heard[0].1, decision) && PipelineRun::accounts(
            run.progress.usage,
            heard[0].0,
            decision,
            turn,
        );
    lemma_decides(run, ctx, heard[0].0, heard[0].1, decision);
    if let Turn::Act(next, effect) = turn {
        let decided = decision->Act_0;
        assert(proper(next) == proper(decided) && doneness(next) == doneness(decided));
        lemma_plays(next, ctx, heard.skip(1), effects.skip(1));
        let rest = effects.skip(1);
        if rest.len() >= 3 {
            assert(clears_at(rest, rest.len() - 3));
        }
        if doneness(run) == 3 {
            lemma_done_ends(run, ctx, heard[0].0, heard[0].1, decision);
        }
    }
}

/// A run that is done only has its last state to log.
proof fn lemma_done_ends(
    run: PipelineRun,
    ctx: KernelContext,
    now: Duration,
    reply: Reply,
    decision: Decision,
)
    requires
        proper(run),
        doneness(run) == 3,
        run.decides(ctx, now, reply, decision),
    ensures
        decision is End,
{
}

/// An iteration opens only while every budget still has room: a paused run
/// resumed without a real extension pauses again before booting anything.
pub proof fn an_iteration_opens_only_within_budget(
    before: PipelineRun,
    ctx: KernelContext,
    now: Duration,
    reply: Reply,
    next: PipelineRun,
    effect: Effect,
)
    requires
        before.steps(ctx, now, reply, Turn::Act(next, effect)),
        next.phase is Opening,
    ensures
        kernel::emits(
            effect,
            event::EventView::IterationStarted { iteration: next.progress.iteration },
        ),
        next.progress.outgrown(ctx, now, guardrails::one_less(next.progress.iteration)) is None,
        before.phase is Rooting || before.phase is Sampling || before.phase is Expiring,
{
    let turn = PipelineTurn::Act(next, effect);
    let decision = choose|decision: Decision| #[trigger]
        before.decides(ctx, now, reply, decision) && PipelineRun::accounts(
            before.progress.usage,
            now,
            decision,
            turn,
        );
    assert(effect is Emit);
    if before.phase is Passing {
        let pass = before.phase->Passing_0;
        let inner = choose|inner: PassTurn| #[trigger]
            pass.steps(ctx, reply, inner) && before.progress.passed(ctx, inner, decision);
    }
    if before.phase is Opening {
        let entry = before.phase->Opening_0;
        let feedback = before.phase->Opening_1;
        let (inner, deadline) = choose|inner: PassTurn, deadline: Option<Duration>|
            crate::accounts::falls_due(now, ctx.budgets.iteration_timeout, deadline)
                && #[trigger] crate::pipeline::pass::opens(
                ctx,
                before.progress.iteration,
                entry,
                crate::preamble::feedback_views(feedback@),
                deadline,
                inner,
            ) && before.progress.passed(ctx, inner, decision);
    }
}

/// A spinning loop stops: an iteration follows a completed pass only while
/// fewer than [`guardrails::DRIFT_LIMIT`] passes in a row have committed
/// nothing.
pub proof fn a_spinning_loop_stops(
    before: PipelineRun,
    ctx: KernelContext,
    now: Duration,
    reply: Reply,
    next: PipelineRun,
    effect: Effect,
)
    requires
        before.phase is Sampling,
        before.steps(ctx, now, reply, Turn::Act(next, effect)),
        next.phase is Opening,
    ensures
        reply is Head,
        next.progress.rails == before.progress.rails.after_pass(
            reply->Head_0@ != before.progress.head@,
        ),
        next.progress.rails.no_commit_iterations < guardrails::DRIFT_LIMIT,
{
}

/// Whether a run has a live sandbox at work.
pub open spec fn live(run: PipelineRun) -> bool {
    run.phase matches PipelinePhase::Passing(pass) && match pass.phase {
        PassPhase::Staging(stage) => stage.bracket.at_work(),
        PassPhase::Judging { brief, bracket } => bracket.at_work(),
    }
}

/// A run never drops a live sandbox: while one is at work, the run goes on
/// with it or destroys it, whatever the host answers, and never ends.
pub proof fn a_run_never_drops_a_live_sandbox(
    before: PipelineRun,
    ctx: KernelContext,
    now: Duration,
    reply: Reply,
    turn: PipelineTurn,
)
    requires
        live(before),
        before.steps(ctx, now, reply, turn),
    ensures
        turn is Act,
        live(turn->Act_0) || turn->Act_1 is Destroy,
{
    let decision = choose|decision: Decision| #[trigger]
        before.decides(ctx, now, reply, decision) && PipelineRun::accounts(
            before.progress.usage,
            now,
            decision,
            turn,
        );
    let pass = before.phase->Passing_0;
    let inner = choose|inner: PassTurn| #[trigger]
        pass.steps(ctx, reply, inner) && before.progress.passed(ctx, inner, decision);
    match pass.phase {
        PassPhase::Staging(stage) => {
            let staged = choose|staged: StageRunTurn| #[trigger]
                stage.steps(ctx, reply, staged) && pass.staged(staged, inner);
            let worked = choose|
                worked: Turn<Bracket<StageWork>, Result<Bracketed<StageDrive>, KernelError>>,
            | #[trigger]
                stage.bracket.steps(ctx, stage.brief, reply, worked) && stage.follows(
                    ctx,
                    worked,
                    staged,
                );
            bracket::lemma_at_work(stage.bracket, ctx, stage.brief, reply, worked);
        },
        PassPhase::Judging { brief, bracket } => {
            let judged = choose|
                judged: Turn<Bracket<SkepticWork>, Result<Bracketed<SkepticEnd>, KernelError>>,
            | #[trigger]
                bracket.steps(ctx, brief, reply, judged) && pass.judged(brief, judged, inner);
            bracket::lemma_at_work(bracket, ctx, brief, reply, judged);
        },
    }
}

} // verus!
