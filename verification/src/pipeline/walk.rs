//! What one iteration of the pipeline does, read off what went to and fro
//! alone: it walks through the stages of the flow in order, and has the claim
//! of a stage judged.

use crate::accounts;
use crate::bracket::{Bracket, BracketPhase, Bracketed};
use crate::budget::Duration;
use crate::event::EventView;
use crate::history::{self, Sight};
use crate::invocation;
use crate::kernel::{self, Effect, KernelContext, KernelError, Reply, Turn, Work};
use crate::pipeline::assets;
use crate::pipeline::contract::{self, Stage, StageReport};
use crate::pipeline::pass::{self, Entry, IterationEnd, Pass, PassPhase, PassTurn, StageEnd, StageRun, StageRunTurn};
use crate::pipeline::replay;
use crate::pipeline::skeptic::{self, JudgeBrief, SkepticTurn, SkepticWork};
use crate::pipeline::stage::{self, StageDrive, StageWork};
use crate::pipeline::story::{self, Story};
use crate::preamble::{self, Feedback, FeedbackView};
use crate::skeptic::{self as judge, Evaluation, SkepticEnd};
use crate::wire;
use crate::workspace;
use vstd::prelude::*;

verus! {

/// Whether these are domain prompts of the flow's first stages, in order, and
/// `left` are the stages after them; a stage without a prompt of the flow's
/// has the shipped one.
pub open spec fn so_far(
    ctx: KernelContext,
    prompts: Seq<(Stage, Seq<char>)>,
    left: Seq<Stage>,
) -> bool {
    let all = story::stages_of(ctx);
    &&& prompts.len() <= all.len()
    &&& left == all.skip(prompts.len() as int)
    &&& forall|i: int|
        0 <= i < prompts.len() ==> (#[trigger] prompts[i]).0 == all[i] && (ctx.prompts.file(
            all[i].word(),
        ) is None ==> assets::default_prompt_text(all[i]) == Some(prompts[i].1))
}

/// Whether a path is the one of a prompt that the flow has for a stage.
pub open spec fn is_override(ctx: KernelContext, stage: Stage, path: Seq<char>) -> bool {
    ctx.prompts.file(stage.word()) matches Some(file) && path == workspace::below(
        workspace::GUEST_ROOT@,
        file,
    )
}

/// Whether a history calls for an effect of the skeptic: it reads the prompts
/// that the flow has, and is driven to its verdict over the claim and the
/// prompts of all stages.
pub open spec fn judges_rightly(ctx: KernelContext, st: Story, effect: Effect) -> bool {
    ||| {
        &&& effect matches Effect::ReadFile(path)
        &&& st.now.task.attempts.len() == 0
        &&& exists|i: int|
            0 <= i < story::stages_of(ctx).len() && is_override(
                ctx,
                #[trigger] story::stages_of(ctx)[i],
                path@,
            )
    }
    ||| exists|prompts: Seq<(Stage, Seq<char>)>| #[trigger]
        so_far(ctx, prompts, Seq::empty()) && history::evaluates_rightly(
            ctx,
            st.iteration,
            skeptic::composed(st.claim->0, prompts),
            st.now,
            effect,
        )
}

/// Whether the skeptic is to judge what the history shows to be claimed.
pub open spec fn judges(brief: JudgeBrief, st: Story) -> bool {
    &&& brief.iteration == st.iteration
    &&& st.claim == Some(brief.claim@)
}

/// Whether the skeptic's work stands where a history shows it.
pub open spec fn judge_stands(work: SkepticWork, ctx: KernelContext, st: Story) -> bool {
    let s = st.now;
    &&& s.asked is Some
    &&& match work {
        SkepticWork::Ready => false,
        SkepticWork::Gathering { gathered, left } => {
            &&& s.asked->0 is ReadFile
            &&& story::unbegun(s.task)
            &&& left@.len() > 0
            &&& ctx.prompts.file(left@[0].word()) is Some
            &&& so_far(ctx, skeptic::prompt_views(gathered@), left@)
        },
        SkepticWork::Evaluating(evaluation) => exists|prompts: Seq<(Stage, Seq<char>)>| #[trigger]
            so_far(ctx, prompts, Seq::empty()) && history::evaluation_stands(
                ctx,
                evaluation,
                st.iteration,
                skeptic::composed(st.claim->0, prompts),
                s,
            ),
    }
}

/// Whether a turn of the skeptic's work is one that its history calls for.
pub open spec fn judge_turn(
    turn: SkepticTurn,
    ctx: KernelContext,
    hs: Story,
    at: Duration,
) -> bool {
    match turn {
        Turn::Act(next, effect) => {
            &&& judges_rightly(ctx, hs, effect)
            &&& judge_stands(next, ctx, story::see(ctx, hs, at, effect))
            &&& kernel::stays_inside(effect)
        },
        Turn::End(Ok(end)) => history::ends_evaluation(hs.now, end),
        Turn::End(Err(error)) => story::excused(hs, error),
    }
}

/// The skeptic's effects are its own: they leave the loop alone.
pub proof fn lemma_judging(ctx: KernelContext, hs: Story, at: Duration, effect: Effect)
    requires
        judges_rightly(ctx, hs, effect),
    ensures
        story::same_loop(story::see(ctx, hs, at, effect), hs),
        story::see(ctx, hs, at, effect).walked == hs.walked,
        story::see(ctx, hs, at, effect).reported == hs.reported,
        kernel::stays_inside(effect),
        !(effect is Head),
        effect matches Effect::Emit(event) ==> !(event@ is IterationStarted),
{
}

/// The skeptic goes on to gather prompts.
proof fn lemma_gathers(
    ctx: KernelContext,
    brief: JudgeBrief,
    gathered: Seq<(Stage, Seq<char>)>,
    left: Seq<Stage>,
    turn: SkepticTurn,
    hs: Story,
    at: Duration,
)
    requires
        judges(brief, hs),
        story::unbegun(hs.now.task),
        so_far(ctx, gathered, left),
        skeptic::gathers(ctx, brief, gathered, left, turn),
    ensures
        turn is Act,
        judge_turn(turn, ctx, hs, at),
    decreases left.len(),
{
    let all = story::stages_of(ctx);
    let k = gathered.len() as int;
    if left.len() == 0 {
        assert(left =~= Seq::empty());
        let evaluation = turn->Act_0->Evaluating_0;
        let effect = turn->Act_1;
        let g = story::see(ctx, hs, at, effect);
        let prompt = choose|prompt: String|
            prompt@ == skeptic::composed(brief.claim@, gathered) && evaluation
                == #[trigger] judge::begun(brief.iteration, prompt);
        let whole = skeptic::composed(hs.claim->0, gathered);
        assert(so_far(ctx, gathered, Seq::empty()));
        assert(history::evaluates_rightly(ctx, hs.iteration, whole, hs.now, effect));
        assert(history::evaluation_stands(ctx, evaluation, g.iteration, whole, g.now));
    } else {
        assert(left[0] == all[k]);
        story::lemma_stages(ctx);
        match ctx.prompts.file(left[0].word()) {
            Some(file) => {
                let effect = turn->Act_1;
                assert(is_override(ctx, all[k], effect->ReadFile_0@));
            },
            None => {
                let prompt = assets::default_prompt_text(left[0])->0;
                let more = gathered.push((left[0], prompt));
                assert(left.skip(1) =~= all.skip(k + 1));
                assert forall|i: int| 0 <= i < more.len() implies (#[trigger] more[i]).0 == all[i]
                    && (ctx.prompts.file(all[i].word()) is None ==> assets::default_prompt_text(
                    all[i],
                ) == Some(more[i].1)) by {
                    if i < k {
                        assert(more[i] == gathered[i]);
                    }
                }
                lemma_gathers(ctx, brief, more, left.skip(1), turn, hs, at);
            },
        }
    }
}

/// One step of the skeptic's work, seen from its history.
proof fn lemma_judge(
    work: SkepticWork,
    ctx: KernelContext,
    brief: JudgeBrief,
    reply: Reply,
    turn: SkepticTurn,
    st: Story,
    at: Duration,
)
    requires
        judges(brief, st),
        judge_stands(work, ctx, st),
        work.steps(ctx, brief, reply, turn),
    ensures
        judge_turn(turn, ctx, story::hear(st, reply), at),
{
    let hs = story::hear(st, reply);
    match work {
        SkepticWork::Ready => {},
        SkepticWork::Gathering { gathered, left } => {
            history::lemma_hear(st.now, reply);
            let all = story::stages_of(ctx);
            let so = skeptic::prompt_views(gathered@);
            let k = so.len() as int;
            let read = choose|read: Result<String, KernelError>| #[trigger]
                invocation::prompt_reads(left@[0].word(), reply, read) && match read {
                    Ok(prompt) => skeptic::gathers(
                        ctx,
                        brief,
                        skeptic::prompt_views(gathered@).push((left@[0], prompt@)),
                        left@.skip(1),
                        turn,
                    ),
                    Err(error) => turn == SkepticTurn::End(Err(error)),
                };
            if let Ok(prompt) = read {
                let more = so.push((left@[0], prompt@));
                assert(left@[0] == all[k]);
                assert(left@.skip(1) =~= all.skip(k + 1));
                assert forall|i: int| 0 <= i < more.len() implies (#[trigger] more[i]).0 == all[i]
                    && (ctx.prompts.file(all[i].word()) is None ==> assets::default_prompt_text(
                    all[i],
                ) == Some(more[i].1)) by {
                    if i < k {
                        assert(more[i] == so[i]);
                    }
                }
                lemma_gathers(ctx, brief, more, left@.skip(1), turn, hs, at);
            }
        },
        SkepticWork::Evaluating(evaluation) => {
            let prompts = choose|prompts: Seq<(Stage, Seq<char>)>| #[trigger]
                so_far(ctx, prompts, Seq::empty()) && history::evaluation_stands(
                    ctx,
                    evaluation,
                    st.iteration,
                    skeptic::composed(st.claim->0, prompts),
                    st.now,
                );
            let whole = skeptic::composed(st.claim->0, prompts);
            let inner = choose|inner: Turn<Evaluation, Result<SkepticEnd, KernelError>>| #[trigger]
                evaluation.steps(ctx, reply, inner) && match inner {
                    Turn::Act(evaluation, effect) => turn == SkepticTurn::Act(
                        SkepticWork::Evaluating(evaluation),
                        effect,
                    ),
                    Turn::End(result) => turn == SkepticTurn::End(result),
                };
            history::lemma_evaluation(evaluation, ctx, st.iteration, whole, reply, inner, st.now);
            if let Turn::Act(next, effect) = inner {
                let g = story::see(ctx, hs, at, effect);
                assert(judges_rightly(ctx, hs, effect));
                lemma_judging(ctx, hs, at, effect);
                assert(g.now == history::see(hs.now, effect));
                assert(so_far(ctx, prompts, Seq::empty()));
            }
        },
    }
}

/// Whether the skeptic's task came to `result`, as its history shows.
pub open spec fn judge_ended(result: Result<Bracketed<SkepticEnd>, KernelError>, st: Story) -> bool {
    match result {
        Ok(Bracketed::Finished(end)) => history::ends_evaluation(st.now, end),
        Ok(Bracketed::Cancelled) => st.now.task.cancelled,
        Ok(Bracketed::TimedOut) => st.now.task.timed_out,
        Err(error) => story::excused(st, error),
    }
}

/// Whether the skeptic's sandbox stands where a history shows it.
pub open spec fn judge_bracket(bracket: Bracket<SkepticWork>, ctx: KernelContext, st: Story) -> bool {
    let s = st.now;
    &&& accounts::falls_due(st.since, ctx.budgets.iteration_timeout, bracket.deadline)
    &&& s.asked is Some
    &&& match bracket.phase {
        BracketPhase::Polling(work) => work is Ready && s.asked->0 is PollCancel && story::unbegun(
            s.task,
        ),
        BracketPhase::Booting(work) => work is Ready && s.asked->0 is Boot && story::unbegun(
            s.task,
        ),
        BracketPhase::Working(work) => judge_stands(work, ctx, st),
        BracketPhase::Destroying(result) => s.asked->0 is Destroy && judge_ended(result, st),
    }
}

/// Whether a history calls for an effect inside the skeptic's bracket.
pub open spec fn judge_rightly(ctx: KernelContext, st: Story, effect: Effect) -> bool {
    match effect {
        Effect::Boot { .. } => story::boots_rightly(ctx, st, effect),
        Effect::Destroy => true,
        Effect::PollCancel => false,
        _ => judges_rightly(ctx, st, effect),
    }
}

#[verifier::rlimit(40)]
proof fn lemma_judge_bracket(
    bracket: Bracket<SkepticWork>,
    ctx: KernelContext,
    brief: JudgeBrief,
    reply: Reply,
    turn: Turn<Bracket<SkepticWork>, Result<Bracketed<SkepticEnd>, KernelError>>,
    st: Story,
    at: Duration,
)
    requires
        judges(brief, st),
        judge_bracket(bracket, ctx, st),
        bracket.steps(ctx, brief, reply, turn),
    ensures
        match turn {
            Turn::Act(next, effect) => {
                &&& judge_rightly(ctx, story::hear(st, reply), effect)
                &&& judge_bracket(next, ctx, story::see(ctx, story::hear(st, reply), at, effect))
                &&& next.deadline == bracket.deadline
            },
            Turn::End(result) => judge_ended(result, story::hear(st, reply)) && (result matches Ok(
                Bracketed::Cancelled,
            ) || result is Err || st.now.asked->0 is Destroy),
        },
{
    let s = st.now;
    let hs = story::hear(st, reply);
    match bracket.phase {
        BracketPhase::Polling(work) => {
            history::lemma_hear(s, reply);
        },
        BracketPhase::Booting(work) => {
            history::lemma_hear(s, reply);
            if !(reply is Failed) {
                let inner = choose|inner: SkepticTurn| #[trigger]
                    work.steps(ctx, brief, Reply::Done, inner) && bracket.follows(inner, turn);
                story::lemma_stages(ctx);
                let all = story::stages_of(ctx);
                assert(all.skip(0) =~= all);
                assert(so_far(ctx, Seq::empty(), all));
                lemma_gathers(ctx, brief, Seq::empty(), all, inner, hs, at);
                lemma_judging(ctx, hs, at, inner->Act_1);
            }
        },
        BracketPhase::Working(work) => {
            if !(reply is Cancelled) && !(reply is TimedOut) {
                let inner = choose|inner: SkepticTurn| #[trigger]
                    work.steps(ctx, brief, reply, inner) && bracket.follows(inner, turn);
                lemma_judge(work, ctx, brief, reply, inner, st, at);
                if let Turn::Act(next, effect) = inner {
                    lemma_judging(ctx, hs, at, effect);
                }
            }
        },
        BracketPhase::Destroying(result) => {
            history::lemma_hear(s, reply);
        },
    }
}

/// Whether the stages that an iteration has begun and reported are the first
/// of its course, in order, up to the one at hand.
pub open spec fn walks(st: Story) -> bool {
    let task = st.now.task;
    let again = st.failures > 0 || st.claim is Some;
    let names = story::names(st.course);
    &&& st.done < st.course.len()
    &&& task.report is Some ==> task.stage is Some
    &&& st.walked == names.take(
        if task.stage is Some || again {
            st.done as int + 1
        } else {
            st.done as int
        },
    )
    &&& st.reported == names.take(
        if task.report is Some || again {
            st.done as int + 1
        } else {
            st.done as int
        },
    )
}

/// A stage that is begun or reported is the next of the course, or the one
/// that was last.
proof fn lemma_onward(ctx: KernelContext, st: Story, walked: Seq<Seq<char>>, k: int)
    requires
        story::on_course(ctx, st),
        st.done < st.course.len(),
        k == st.done || k == st.done + 1,
        walked == story::names(st.course).take(k),
    ensures
        story::onward(walked, story::at_hand(st).word()) == story::names(st.course).take(
            st.done as int + 1,
        ),
{
    let names = story::names(st.course);
    assert(names[st.done as int] == story::at_hand(st).word());
    if k > 0 {
        assert(walked.last() == names[k - 1]);
        story::lemma_course(ctx, st, k - 1, st.done as int);
    }
    assert(story::onward(walked, story::at_hand(st).word()) =~= names.take(st.done as int + 1));
}

/// Inside the task of a stage, its iteration walks on.
proof fn lemma_walks(ctx: KernelContext, hs: Story, at: Duration, effect: Effect)
    requires
        story::on_course(ctx, hs),
        walks(hs),
        hs.claim is None,
        story::stage_rightly(ctx, hs, effect),
    ensures
        walks(story::see(ctx, hs, at, effect)),
        !(effect is Head),
        effect matches Effect::Emit(event) ==> !(event@ is IterationStarted),
{
    let task = hs.now.task;
    let again = hs.failures > 0;
    let k = if task.stage is Some || again {
        hs.done as int + 1
    } else {
        hs.done as int
    };
    let r = if task.report is Some || again {
        hs.done as int + 1
    } else {
        hs.done as int
    };
    lemma_onward(ctx, hs, hs.walked, k);
    lemma_onward(ctx, hs, hs.reported, r);
}

/// Whether an iteration stands where a history shows it.
pub open spec fn pass_stands(pass: Pass, ctx: KernelContext, st: Story) -> bool {
    &&& pass.iteration == st.iteration
    &&& accounts::falls_due(st.since, ctx.budgets.iteration_timeout, pass.deadline)
    &&& story::on_course(ctx, st)
    &&& walks(st)
    &&& st.closed is None
    &&& !story::sets_out(st)
    &&& match pass.phase {
        PassPhase::Staging(run) => {
            &&& story::stage_run(run, ctx, st)
            &&& run.deadline == pass.deadline
            &&& pass.left@ == st.course.skip(st.done as int + 1)
        },
        PassPhase::Judging { brief, bracket } => {
            &&& judges(brief, st)
            &&& judge_bracket(bracket, ctx, st)
        },
    }
}

/// Whether a history calls for an effect of the iteration at hand.
pub open spec fn pass_rightly(ctx: KernelContext, st: Story, effect: Effect) -> bool {
    if effect is PollCancel {
        story::begins_rightly(ctx, st)
    } else if st.claim is Some {
        judge_rightly(ctx, st, effect)
    } else {
        story::stage_rightly(ctx, st, effect)
    }
}

/// Whether every stage of an iteration's course has been begun and reported,
/// one after the other.
pub open spec fn walked_through(st: Story) -> bool {
    st.walked == story::names(st.course) && st.reported == story::names(st.course)
}

/// Whether an iteration came to `end`, as its history shows. It goes on with
/// nothing to answer for only once it has begun and reported every stage of
/// its course, the last of which said `continue` and passed its checks; it
/// goes on with the skeptic's findings where they refute a claim; and it is
/// done where a claim was left standing.
pub open spec fn pass_over(end: IterationEnd, ctx: KernelContext, st: Story) -> bool {
    let task = st.now.task;
    match end {
        IterationEnd::Continue { notification_summary, feedback } => if feedback@.len() == 0 {
            &&& st.claim is None
            &&& task.verdict is None
            &&& history::says(task, "continue"@)
            &&& !history::red(task)
            &&& story::green(ctx, st)
            &&& st.done + 1 == st.course.len()
            &&& walked_through(st)
            &&& wire::opt_text(notification_summary) == Some(
                story::read(story::at_hand(st), task.report->0).summary,
            )
        } else {
            &&& st.claim is Some
            &&& task.verdict matches Some((refuted, findings))
            &&& refuted
            &&& findings.len() > 0
            &&& preamble::feedback_views(feedback@) == seq![
                FeedbackView::SkepticRefuted { findings },
            ]
            &&& notification_summary is None
        },
        IterationEnd::Done => {
            &&& st.claim is Some
            &&& task.verdict matches Some((refuted, findings))
            &&& !refuted
            &&& findings.len() == 0
        },
        IterationEnd::Pause { reason, summary } => st.claim is None && story::stage_over(
            StageEnd::Pause { reason, summary },
            ctx,
            st,
        ),
        IterationEnd::Fail => if st.claim is Some {
            task.verdict is None && (!st.now.clean || task.rejections == 2)
        } else {
            story::stage_over(StageEnd::Fail, ctx, st)
        },
        IterationEnd::TimedOut { notification_summary } => task.timed_out,
        IterationEnd::Cancelled => task.cancelled,
    }
}

/// What a turn of an iteration comes to, held against its history.
pub open spec fn pass_turn(turn: PassTurn, ctx: KernelContext, hs: Story, at: Duration) -> bool {
    match turn {
        Turn::Act(next, effect) => {
            &&& pass_rightly(ctx, hs, effect)
            &&& pass_stands(next, ctx, story::see(ctx, hs, at, effect))
        },
        Turn::End(Ok(end)) => pass_over(end, ctx, hs) && (end is Cancelled || hs.now.asked
            matches Some(Effect::Destroy)),
        Turn::End(Err(error)) => story::excused(hs, error),
    }
}

/// A stage that says `continue` is followed by the next of the course, or
/// ends the iteration.
proof fn lemma_advances(
    pass: Pass,
    ctx: KernelContext,
    report: StageReport,
    handoff: Seq<StageReport>,
    turn: PassTurn,
    hs: Story,
    at: Duration,
)
    requires
        pass.iteration == hs.iteration,
        accounts::falls_due(hs.since, ctx.budgets.iteration_timeout, pass.deadline),
        story::on_course(ctx, hs),
        walks(hs),
        hs.closed is None,
        hs.claim is None,
        !story::sets_out(hs),
        hs.now.asked matches Some(Effect::Destroy),
        hs.now.task.verdict is None,
        pass.left@ == hs.course.skip(hs.done as int + 1),
        story::stage_over(StageEnd::Advance(report), ctx, hs),
        contract::report_views(handoff) == hs.carried,
        pass::moves_on(
            pass.iteration,
            pass.deadline,
            pass.left@,
            handoff.push(report),
            Seq::empty(),
            None,
            Some(report@.summary),
            turn,
        ),
    ensures
        pass_turn(turn, ctx, hs, at),
{
    let all = contract::report_views(handoff.push(report));
    story::lemma_says(hs.now.task, story::at_hand(hs), report);
    assert(all =~= hs.carried.push(report@));
    let names = story::names(hs.course);
    if pass.left@.len() == 0 {
        assert(names.take(hs.done as int + 1) =~= names);
    } else {
        let effect = turn->Act_1;
        let next = turn->Act_0;
        let g = story::see(ctx, hs, at, effect);
        assert(g.done == hs.done + 1);
        assert(pass.left@.skip(1) =~= g.course.skip(g.done as int + 1));
        assert(pass.left@[0] == story::at_hand(g));
        assert(story::at_hand(g) != Stage::Plan) by {
            story::lemma_stages(ctx);
            let from = choose|from: int|
                0 <= from < story::stages_of(ctx).len() && hs.course
                    == #[trigger] story::stages_of(ctx).skip(from);
            assert(hs.course[g.done as int] == story::stages_of(ctx)[from + g.done]);
        }
        assert(story::fed_back(g) =~= Seq::empty());
    }
}

/// A stage keeps its deadline, whatever comes.
proof fn lemma_deadline(run: StageRun, ctx: KernelContext, reply: Reply, turn: StageRunTurn)
    requires
        run.steps(ctx, reply, turn),
    ensures
        turn matches Turn::Act(next, _) ==> next.deadline == run.deadline,
{
    let inner = choose|
        inner: Turn<Bracket<StageWork>, Result<Bracketed<StageDrive>, KernelError>>,
    |
        #[trigger] run.bracket.steps(ctx, run.brief, reply, inner) && run.follows(
            ctx,
            inner,
            turn,
        );
    assert(run.follows(ctx, inner, turn));
}

/// One step of an iteration, seen from its history.
#[verifier::rlimit(40)]
pub proof fn lemma_pass(
    pass: Pass,
    ctx: KernelContext,
    reply: Reply,
    turn: PassTurn,
    st: Story,
    at: Duration,
)
    requires
        pass_stands(pass, ctx, st),
        pass.steps(ctx, reply, turn),
    ensures
        pass_turn(turn, ctx, story::hear(st, reply), at),
        story::same_loop(story::hear(st, reply), st),
{
    let hs = story::hear(st, reply);
    assert(walks(hs));
    match pass.phase {
        PassPhase::Staging(run) => {
            let inner = choose|inner: StageRunTurn| #[trigger]
                run.steps(ctx, reply, inner) && pass.staged(inner, turn);
            story::lemma_stage_run(run, ctx, reply, inner, st, at);
            lemma_deadline(run, ctx, reply, inner);
            match inner {
                Turn::Act(next, effect) => {
                    if !(effect is PollCancel) {
                        lemma_walks(ctx, hs, at, effect);
                        story::lemma_inside(ctx, hs, at, effect);
                    }
                },
                Turn::End(Ok((StageEnd::Advance(report), handoff))) => {
                    lemma_advances(pass, ctx, report, handoff@, turn, hs, at);
                },
                Turn::End(Ok((StageEnd::Done(claim), handoff))) => {
                    story::lemma_says(hs.now.task, story::at_hand(hs), claim);
                },
                _ => {},
            }
        },
        PassPhase::Judging { brief, bracket } => {
            let inner = choose|
                inner: Turn<Bracket<SkepticWork>, Result<Bracketed<SkepticEnd>, KernelError>>,
            | #[trigger]
                bracket.steps(ctx, brief, reply, inner) && pass.judged(brief, inner, turn);
            lemma_judge_bracket(bracket, ctx, brief, reply, inner, st, at);
            match inner {
                Turn::Act(next, effect) => {
                    if judges_rightly(ctx, hs, effect) {
                        lemma_judging(ctx, hs, at, effect);
                    }
                },
                Turn::End(Ok(Bracketed::Finished(SkepticEnd::Refuted(found)))) => {
                    let feedback = turn->End_0->Ok_0->Continue_feedback;
                    assert(preamble::feedback_views(feedback@).len() == feedback@.len());
                },
                _ => {},
            }
        },
    }
}

/// The story of an iteration that is about to set out from `entry` at the
/// reading `at`.
pub open spec fn outset(
    ctx: KernelContext,
    iteration: u32,
    entry: Entry,
    feedback: Seq<FeedbackView>,
    at: Duration,
) -> Story {
    Story {
        now: Sight { asked: Some(Effect::Head), ..history::nothing() },
        iteration,
        opened: true,
        course: story::stages_of(ctx).skip(replay::rank(entry.stage)),
        since: at,
        done: 0,
        carried: contract::report_views(entry.completed@),
        walked: Seq::empty(),
        reported: Seq::empty(),
        failures: 0,
        blame: None,
        claim: None,
        human: match entry.human {
            Some(human) => Some(human@),
            None => None,
        },
        feedback,
        closed: None,
        head: Seq::empty(),
        idle: 0,
        timeouts: 0,
        spent: None,
        budget: None,
        parked: false,
        state: None,
    }
}

/// The story `start`, with `effects` asked for and `replies` given, one for
/// each.
pub open spec fn told(
    ctx: KernelContext,
    start: Story,
    at: Duration,
    effects: Seq<Effect>,
    replies: Seq<Reply>,
) -> Story
    decreases replies.len(),
{
    if replies.len() == 0 {
        start
    } else {
        story::hear(
            story::see(
                ctx,
                told(ctx, start, at, effects.drop_last(), replies.drop_last()),
                at,
                effects.last(),
            ),
            replies.last(),
        )
    }
}

/// Whether an iteration that began at `start` stands at `turn` once it has
/// asked for `effects` and got `replies`, one for each.
pub open spec fn comes_to(
    start: PassTurn,
    ctx: KernelContext,
    effects: Seq<Effect>,
    replies: Seq<Reply>,
    turn: PassTurn,
) -> bool
    decreases replies.len(),
{
    &&& effects.len() == replies.len()
    &&& if replies.len() == 0 {
        turn == start
    } else {
        exists|before: Pass| #[trigger]
            before.steps(ctx, replies.last(), turn) && comes_to(
                start,
                ctx,
                effects.drop_last(),
                replies.drop_last(),
                Turn::Act(before, effects.last()),
            )
    }
}

/// The stages that effects announce, in order, each run of one stage once.
pub open spec fn begun(effects: Seq<Effect>) -> Seq<Seq<char>>
    decreases effects.len(),
{
    if effects.len() == 0 {
        Seq::empty()
    } else {
        let before = begun(effects.drop_last());
        match effects.last() {
            Effect::Emit(event) => match event@ {
                EventView::StageStarted { iteration, stage } => story::onward(before, stage),
                _ => before,
            },
            _ => before,
        }
    }
}

/// The stages whose reports effects log, in order, each run of one stage
/// once.
pub open spec fn reported(effects: Seq<Effect>) -> Seq<Seq<char>>
    decreases effects.len(),
{
    if effects.len() == 0 {
        Seq::empty()
    } else {
        let before = reported(effects.drop_last());
        match effects.last() {
            Effect::Emit(event) => match event@ {
                EventView::StageReported { iteration, stage, report } => story::onward(
                    before,
                    stage,
                ),
                _ => before,
            },
            _ => before,
        }
    }
}

/// The stages from `stage` on are those of the flow from its rank on.
pub proof fn lemma_from_stage(ctx: KernelContext, stage: Stage)
    requires
        stage::is_active(ctx.prompts, stage),
    ensures
        pass::from_stage(
            stage::active_among(ctx.prompts, contract::STAGES as int),
            stage,
        ) == story::stages_of(ctx).skip(replay::rank(stage)),
        0 <= replay::rank(stage) < story::stages_of(ctx).len(),
        story::stages_of(ctx)[replay::rank(stage)] == stage,
{
    story::lemma_stages(ctx);
    let all = story::stages_of(ctx);
    let k = replay::rank(stage);
    assert(k < all.len()) by {
        if stage == Stage::Deliver {
            assert(assets::default_prompt_text(stage) is None);
        }
    }
    lemma_skips(all, stage, 0, k);
    assert(all.skip(0) =~= all);
}

proof fn lemma_skips(all: Seq<Stage>, stage: Stage, i: int, k: int)
    requires
        0 <= i <= k < all.len(),
        all[k] == stage,
        forall|j: int| 0 <= j < k ==> #[trigger] all[j] != stage,
    ensures
        pass::from_stage(all.skip(i), stage) == all.skip(k),
    decreases k - i,
{
    let rest = all.skip(i);
    assert(rest[0] == all[i]);
    if i < k {
        assert(rest.skip(1) =~= all.skip(i + 1));
        lemma_skips(all, stage, i + 1, k);
    }
}

/// What an iteration opens with is what its story calls for.
pub proof fn lemma_opens(
    ctx: KernelContext,
    entry: Entry,
    feedback: Seq<FeedbackView>,
    deadline: Option<Duration>,
    turn: PassTurn,
    hs: Story,
    at: Duration,
)
    requires
        pass::opens(ctx, hs.iteration, entry, feedback, deadline, turn),
        stage::is_active(ctx.prompts, entry.stage),
        accounts::falls_due(at, ctx.budgets.iteration_timeout, deadline),
        story::sets_out(hs),
        hs.course == story::stages_of(ctx).skip(replay::rank(entry.stage)),
        hs.done == 0,
        hs.failures == 0,
        hs.blame is None,
        hs.claim is None,
        hs.closed is None,
        hs.walked.len() == 0,
        hs.reported.len() == 0,
        hs.now.task.report is None,
        hs.carried == contract::report_views(entry.completed@),
        hs.feedback == feedback,
        hs.human == match entry.human {
            Some(human) => Some(human@),
            None => None,
        },
    ensures
        turn is Act,
        pass_turn(turn, ctx, hs, at),
{
    lemma_from_stage(ctx, entry.stage);
    let all = story::stages_of(ctx);
    let k = replay::rank(entry.stage);
    let left = all.skip(k);
    assert(left[0] == entry.stage);
    let effect = turn->Act_1;
    let g = story::see(ctx, hs, at, effect);
    assert(g.course == all.skip(k));
    assert(left.skip(1) =~= g.course.skip(g.done as int + 1));
    let names = story::names(g.course);
    assert(names.take(0) =~= Seq::empty());
    assert(g.walked =~= names.take(0));
    assert(g.reported =~= names.take(0));
    assert(story::on_course(ctx, g));
    assert(story::fed_back(g) =~= pass::plan_only(entry.stage, feedback));
}

#[verifier::rlimit(40)]
proof fn lemma_told(
    start: PassTurn,
    ctx: KernelContext,
    iteration: u32,
    entry: Entry,
    feedback: Seq<FeedbackView>,
    deadline: Option<Duration>,
    at: Duration,
    effects: Seq<Effect>,
    replies: Seq<Reply>,
    turn: PassTurn,
)
    requires
        pass::opens(ctx, iteration, entry, feedback, deadline, start),
        stage::is_active(ctx.prompts, entry.stage),
        accounts::falls_due(at, ctx.budgets.iteration_timeout, deadline),
        comes_to(start, ctx, effects, replies, turn),
    ensures
        ({
            let hs = told(ctx, outset(ctx, iteration, entry, feedback, at), at, effects, replies);
            &&& pass_turn(turn, ctx, hs, at)
            &&& hs.walked == begun(effects)
            &&& hs.reported == reported(effects)
            &&& hs.course == story::stages_of(ctx).skip(replay::rank(entry.stage))
            &&& hs.iteration == iteration
        }),
    decreases replies.len(),
{
    let dawn = outset(ctx, iteration, entry, feedback, at);
    if replies.len() == 0 {
        assert(effects =~= Seq::empty());
        lemma_opens(ctx, entry, feedback, deadline, turn, dawn, at);
    } else {
        let before = choose|before: Pass| #[trigger]
            before.steps(ctx, replies.last(), turn) && comes_to(
                start,
                ctx,
                effects.drop_last(),
                replies.drop_last(),
                Turn::Act(before, effects.last()),
            );
        let st = told(ctx, dawn, at, effects.drop_last(), replies.drop_last());
        let effect = effects.last();
        lemma_told(
            start,
            ctx,
            iteration,
            entry,
            feedback,
            deadline,
            at,
            effects.drop_last(),
            replies.drop_last(),
            Turn::Act(before, effect),
        );
        let g = story::see(ctx, st, at, effect);
        lemma_quiet(ctx, st, effect);
        lemma_pass(before, ctx, replies.last(), turn, g, at);
    }
}

/// No iteration announces another.
proof fn lemma_quiet(ctx: KernelContext, st: Story, effect: Effect)
    requires
        pass_rightly(ctx, st, effect),
    ensures
        effect matches Effect::Emit(event) ==> !(event@ is IterationStarted),
{
}

/// An iteration walks through the stages of its flow. Whatever the host
/// answers, an iteration that goes in at a stage of the flow and ends with the
/// run to go on and nothing to answer for has announced every stage of the
/// flow from that one on, in the flow's order, and logged a report of each;
/// the last one said `continue` and passed its checks.
pub proof fn an_iteration_walks_through_its_stages(
    ctx: KernelContext,
    iteration: u32,
    entry: Entry,
    feedback: Seq<FeedbackView>,
    at: Duration,
    deadline: Option<Duration>,
    start: PassTurn,
    effects: Seq<Effect>,
    replies: Seq<Reply>,
    summary: Option<String>,
    none: Vec<Feedback>,
)
    requires
        stage::is_active(ctx.prompts, entry.stage),
        accounts::falls_due(at, ctx.budgets.iteration_timeout, deadline),
        pass::opens(ctx, iteration, entry, feedback, deadline, start),
        comes_to(
            start,
            ctx,
            effects,
            replies,
            Turn::End(Ok(IterationEnd::Continue { notification_summary: summary, feedback: none })),
        ),
        none@.len() == 0,
    ensures
        begun(effects) == story::names(story::stages_of(ctx).skip(replay::rank(entry.stage))),
        reported(effects) == story::names(story::stages_of(ctx).skip(replay::rank(entry.stage))),
        ({
            let st = told(ctx, outset(ctx, iteration, entry, feedback, at), at, effects, replies);
            &&& history::says(st.now.task, "continue"@)
            &&& story::green(ctx, st)
        }),
{
    lemma_told(
        start,
        ctx,
        iteration,
        entry,
        feedback,
        deadline,
        at,
        effects,
        replies,
        Turn::End(Ok(IterationEnd::Continue { notification_summary: summary, feedback: none })),
    );
}

/// What an iteration asks for, its history calls for; and what it comes to,
/// its history shows.
pub proof fn an_iteration_goes_by_its_history(
    ctx: KernelContext,
    iteration: u32,
    entry: Entry,
    feedback: Seq<FeedbackView>,
    at: Duration,
    deadline: Option<Duration>,
    start: PassTurn,
    effects: Seq<Effect>,
    replies: Seq<Reply>,
    turn: PassTurn,
)
    requires
        stage::is_active(ctx.prompts, entry.stage),
        accounts::falls_due(at, ctx.budgets.iteration_timeout, deadline),
        pass::opens(ctx, iteration, entry, feedback, deadline, start),
        comes_to(start, ctx, effects, replies, turn),
    ensures
        ({
            let st = told(ctx, outset(ctx, iteration, entry, feedback, at), at, effects, replies);
            match turn {
                Turn::Act(_, effect) => pass_rightly(ctx, st, effect),
                Turn::End(Ok(end)) => pass_over(end, ctx, st),
                Turn::End(Err(error)) => story::excused(st, error),
            }
        }),
{
    lemma_told(start, ctx, iteration, entry, feedback, deadline, at, effects, replies, turn);
}

} // verus!
