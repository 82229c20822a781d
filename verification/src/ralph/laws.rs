//! What a run of the single-prompt loop does, read off what went to and fro
//! alone: wherever it stands, its history calls for what it asks for next.

use crate::agent::AgentAdapter;
use crate::bracket::{Bracket, BracketPhase, Bracketed};
use crate::budget::BudgetKind;
use crate::event::{EventView, IterationOutcome, OutputStream};
use crate::flow::FailAction;
use crate::json::{self, JsonView};
use crate::kernel::{self, Effect, KernelContext, KernelError, Reply, Turn, Work};
use crate::preamble::{self, FeedbackView, HumanInputView};
use crate::progress::{self, ProgressReport, ProgressStatus};
use crate::ralph::attempt::{self, AgentDrive, AgentDrivePhase, AgentDriveTurn, Attempt, AttemptEnd, AttemptPhase, AttemptTurn};
use crate::ralph::frame::{self, PreambleView};
use crate::ralph::run::{self, IterationResult, RalphBrief, RalphPhase, RalphProgress, RalphRun, RalphTurn, RalphWork, RalphWorkTurn, Resume};
use crate::report;
use crate::run::{PauseReason, RunOutcome, RunState};
use crate::sandbox::{ExecEvent, ExitStatus};
use crate::text;
use crate::trace;
use crate::utf8;
use crate::verify::{self, CheckView, Checks, VerifyOutcome};
use crate::wire;
use crate::workspace;
use vstd::prelude::*;

verus! {

/// What a run's history shows.
#[verifier::ext_equal]
pub ghost struct Sight {
    /// The effect that was asked for last, and the reply it got.
    pub asked: Option<Effect>,
    pub heard: Option<Reply>,
    /// The event that was logged last.
    pub latest: Option<EventView>,
    /// The iteration that was announced last.
    pub iteration: u32,
    /// The domain prompt that was read last.
    pub domain: Seq<char>,
    /// The commands that were started in this iteration before its report.
    pub attempts: Seq<Seq<Seq<char>>>,
    /// How the running command ended, as far as it has, what it has printed
    /// in all, and what it has said on its standard output.
    pub exit: Option<ExitStatus>,
    pub printed: Seq<u8>,
    pub said: Seq<char>,
    /// Whether the command that ended last ended with code 0.
    pub clean: bool,
    /// How many reports of this iteration were rejected, and why the last.
    pub rejections: nat,
    pub rejected: Seq<Seq<char>>,
    /// The report of this iteration, and the commands that were started, the
    /// verdicts that were logged and the commands that ended since.
    pub report: Option<JsonView>,
    pub run: Seq<Seq<Seq<char>>>,
    pub told: Seq<CheckView>,
    pub ended: Seq<trace::CommandEnd>,
    /// How many iterations were closed, and how many in a row with a failed
    /// check, up to the last.
    pub closed: nat,
    pub reds: nat,
    /// The report of the last closed iteration, and the check it failed.
    pub previous: Option<JsonView>,
    pub blame: Option<CheckView>,
    /// Whether the host cancelled this iteration.
    pub cancelled: bool,
    /// The errors the host failed with, and whether it ever answered
    /// something else than it was asked.
    pub failed: Set<KernelError>,
    pub strayed: bool,
}

/// A history in which nothing has happened.
pub open spec fn nothing() -> Sight {
    Sight {
        asked: None,
        heard: None,
        latest: None,
        iteration: 0,
        domain: Seq::empty(),
        attempts: Seq::empty(),
        exit: None,
        printed: Seq::empty(),
        said: Seq::empty(),
        clean: false,
        rejections: 0,
        rejected: Seq::empty(),
        report: None,
        run: Seq::empty(),
        told: Seq::empty(),
        ended: Seq::empty(),
        closed: 0,
        reds: 0,
        previous: None,
        blame: None,
        cancelled: false,
        failed: Set::empty(),
        strayed: false,
    }
}

/// Whether the last check that was judged since the report failed.
pub open spec fn red(s: Sight) -> bool {
    s.told.len() > 0 && !s.told.last().passed
}

/// A history with one more event logged.
pub open spec fn tell(s: Sight, event: EventView) -> Sight {
    let s = Sight { latest: Some(event), ..s };
    match event {
        EventView::IterationStarted { iteration } => Sight {
            iteration,
            attempts: Seq::empty(),
            rejections: 0,
            rejected: Seq::empty(),
            report: None,
            run: Seq::empty(),
            told: Seq::empty(),
            ended: Seq::empty(),
            cancelled: false,
            ..s
        },
        EventView::ProgressRejected { iteration, errors } => Sight {
            rejections: s.rejections + 1,
            rejected: errors,
            ..s
        },
        EventView::ProgressReported { iteration, report } => Sight {
            report: Some(report),
            run: Seq::empty(),
            told: Seq::empty(),
            ended: Seq::empty(),
            ..s
        },
        EventView::VerifyCheckFinished { iteration, command, passed, output } => Sight {
            told: s.told.push(CheckView { iteration, command, passed, output }),
            ..s
        },
        EventView::IterationFinished { iteration, outcome } => Sight {
            closed: s.closed + 1,
            reds: if red(s) {
                s.reds + 1
            } else {
                0
            },
            previous: s.report,
            blame: if red(s) {
                Some(s.told.last())
            } else {
                None
            },
            ..s
        },
        _ => s,
    }
}

/// A history with one more effect asked for.
pub open spec fn see(s: Sight, effect: Effect) -> Sight {
    let s = Sight { asked: Some(effect), heard: None, ..s };
    match effect {
        Effect::Emit(event) => tell(s, event@),
        Effect::Exec(spec) => if s.report is None {
            Sight { attempts: s.attempts.push(text::texts(spec.argv@)), ..s }
        } else {
            Sight { run: s.run.push(text::texts(spec.argv@)), ..s }
        },
        _ => s,
    }
}

/// A history with the last effect answered.
pub open spec fn hear(s: Sight, reply: Reply) -> Sight {
    let asked = s.asked->0;
    let by = trace::ended_by(s.exit, s.printed, asked, reply);
    Sight {
        heard: Some(reply),
        domain: match (asked, reply) {
            (Effect::ReadHostText(_), Reply::Text(words)) => words@,
            _ => s.domain,
        },
        exit: trace::exit_after(s.exit, asked, reply),
        printed: trace::printed_after(s.printed, asked, reply),
        said: match (asked, reply) {
            (Effect::Exec(_), _) => Seq::empty(),
            (Effect::NextOutput, Reply::Output(ExecEvent::Stdout(bytes))) => s.said
                + utf8::text_of(bytes@),
            _ => s.said,
        },
        clean: if by.len() > 0 {
            by[0].clean
        } else {
            s.clean
        },
        ended: if s.report is Some {
            s.ended + by
        } else {
            s.ended
        },
        cancelled: s.cancelled || reply is Cancelled || reply is TimedOut,
        failed: match reply {
            Reply::Failed(error) => s.failed.insert(error),
            _ => s.failed,
        },
        strayed: s.strayed || !trace::answers(asked, reply),
        ..s
    }
}

/// What the history of a run shows that asked for `effects` and got
/// `replies`, one for each.
pub open spec fn sight(effects: Seq<Effect>, replies: Seq<Reply>) -> Sight
    decreases replies.len(),
{
    if replies.len() == 0 {
        nothing()
    } else {
        hear(see(sight(effects.drop_last(), replies.drop_last()), effects.last()), replies.last())
    }
}

/// Whether a run that began at `start` stands at `turn` once it has asked for
/// `effects` and got `replies`, one for each.
pub open spec fn comes_to(
    start: RalphTurn,
    ctx: KernelContext,
    effects: Seq<Effect>,
    replies: Seq<Reply>,
    turn: RalphTurn,
) -> bool
    decreases replies.len(),
{
    &&& effects.len() == replies.len()
    &&& if replies.len() == 0 {
        turn == start
    } else {
        exists|before: RalphRun| #[trigger]
            before.steps(ctx, replies.last(), turn) && comes_to(
                start,
                ctx,
                effects.drop_last(),
                replies.drop_last(),
                Turn::Act(before, effects.last()),
            )
    }
}

/// Whether a report says where the loop stands in this word.
pub open spec fn says(s: Sight, word: Seq<char>) -> bool {
    s.report matches Some(report) && wire::text_at(report, "status"@) == Some(word)
}

/// One more, as far as a number can reach.
pub open spec fn after(n: u32) -> u32 {
    if n == u32::MAX {
        n
    } else {
        (n + 1) as u32
    }
}

/// Whether the last thing logged is the end of a completed iteration.
pub open spec fn completed(s: Sight) -> bool {
    s.latest matches Some(EventView::IterationFinished { outcome, .. }) && outcome
        == IterationOutcome::Completed
}

/// The iteration that is due: the first of the run, or the one after a
/// completed iteration that said `continue` and failed no check, or that
/// failed one while the flow still has retries.
pub open spec fn due(ctx: KernelContext, resume: Option<Resume>, s: Sight) -> Option<u32> {
    match s.latest {
        Some(EventView::RunStarted { .. }) => Some(1),
        Some(EventView::RunResumed { .. }) => match resume {
            Some(resume) => Some(after(resume.iteration)),
            None => None,
        },
        Some(EventView::IterationFinished { iteration, outcome }) => if outcome
            != IterationOutcome::Completed {
            None
        } else if red(s) {
            if s.reds <= ctx.verify.on_fail.retries {
                Some(after(iteration))
            } else {
                None
            }
        } else if says(s, "continue"@) {
            Some(after(iteration))
        } else {
            None
        },
        _ => None,
    }
}

/// What the agent of the running iteration is shown: where the loop stands,
/// the report before, the check that failed it, and what a human said where
/// this is the first iteration since.
pub open spec fn shown(ctx: KernelContext, resume: Option<Resume>, s: Sight) -> PreambleView {
    PreambleView {
        iteration: s.iteration,
        max_iterations: ctx.budgets.max_iterations,
        previous: if s.closed > 0 {
            match s.previous {
                Some(report) => progress::as_progress(report),
                None => None,
            }
        } else {
            match resume {
                Some(resume) => Some(resume.report@),
                None => None,
            }
        },
        feedback: match s.blame {
            Some(verdict) => Some(
                FeedbackView::VerifyFailed { command: verdict.command, output: verdict.output },
            ),
            None => None,
        },
        human: if s.closed > 0 {
            None
        } else {
            match resume {
                Some(resume) => Some(
                    HumanInputView {
                        answers: report::answer_views(resume.answers@),
                        questions: report::question_views(resume.report.questions@),
                        note: wire::opt_text(resume.note),
                    },
                ),
                None => None,
            }
        },
    }
}

/// Whether the checks that gate the report have run: in order and up to the
/// first failure where the report says `continue` or `done`, and none of
/// them where it does not.
pub open spec fn gated(ctx: KernelContext, s: Sight) -> bool {
    if says(s, "continue"@) || says(s, "done"@) {
        exists|outcome: VerifyOutcome| #[trigger]
            verify::ran(
                text::texts(ctx.verify.checks@),
                s.iteration,
                s.run,
                s.told,
                s.ended,
                outcome,
            )
    } else {
        s.run.len() == 0 && s.told.len() == 0
    }
}

/// Whether the history calls for the run's last state to be `state`.
pub open spec fn lands(ctx: KernelContext, s: Sight, state: RunState) -> bool {
    let spent = completed(s) && red(s) && s.reds > ctx.verify.on_fail.retries;
    match state {
        RunState::Running => false,
        RunState::Done => completed(s) && !red(s) && says(s, "done"@),
        RunState::Failed => {
            ||| s.latest matches Some(EventView::IterationFinished { outcome, .. }) && outcome
                == IterationOutcome::Failed
            ||| spent && ctx.verify.on_fail.action == FailAction::Fail
        },
        RunState::Cancelled => s.cancelled,
        RunState::Paused { reason } => match reason {
            PauseReason::Blocked => completed(s) && !red(s) && says(s, "blocked"@),
            PauseReason::AwaitingHuman => completed(s) && !red(s) && says(s, "needs_input"@),
            PauseReason::VerifyFailed => spent && ctx.verify.on_fail.action == FailAction::Pause,
            PauseReason::Budget => s.latest matches Some(EventView::BudgetExhausted { .. }),
            _ => false,
        },
    }
}

/// Whether the history calls for an event to be logged.
pub open spec fn tells_rightly(
    ctx: KernelContext,
    resume: Option<Resume>,
    s: Sight,
    event: EventView,
) -> bool {
    match event {
        EventView::IterationStarted { iteration } => due(ctx, resume, s) == Some(iteration) && (
        ctx.budgets.max_iterations matches Some(max) ==> iteration <= max),
        EventView::BudgetExhausted { budget } => {
            &&& budget == BudgetKind::Iterations
            &&& due(ctx, resume, s) matches Some(iteration)
            &&& ctx.budgets.max_iterations matches Some(max)
            &&& iteration > max
        },
        EventView::AgentOutput { iteration, stream, chunk } => {
            &&& iteration == s.iteration
            &&& s.heard matches Some(Reply::Output(piece))
            &&& match stream {
                OutputStream::Stdout => piece matches ExecEvent::Stdout(bytes) && chunk
                    == utf8::text_of(bytes@),
                OutputStream::Stderr => piece matches ExecEvent::Stderr(bytes) && chunk
                    == utf8::text_of(bytes@),
            }
        },
        EventView::TokensUsed { iteration, usage } => {
            &&& iteration == s.iteration
            &&& s.heard matches Some(Reply::OutputEnd)
            &&& ctx.agent.bill(s.said) == Some(usage)
        },
        EventView::WorkspaceCheckpointed { iteration, commit } => {
            &&& iteration == s.iteration
            &&& s.asked matches Some(Effect::Checkpoint(_))
            &&& s.heard matches Some(Reply::Committed(Some(made)))
            &&& commit == made@
        },
        EventView::ProgressRejected { iteration, errors } => {
            &&& iteration == s.iteration
            &&& s.clean
            &&& s.report is None
            &&& s.asked matches Some(Effect::ReadFile(_))
            &&& errors.len() == 1
            &&& match s.heard {
                Some(Reply::Failed(error)) => errors[0] == "progress report missing: "@
                    + error.message(),
                Some(Reply::File(raw)) => read_report(raw@) is None,
                _ => false,
            }
        },
        EventView::ProgressReported { iteration, report } => {
            &&& iteration == s.iteration
            &&& s.clean
            &&& s.report is None
            &&& s.asked matches Some(Effect::ReadFile(_))
            &&& s.heard matches Some(Reply::File(raw))
            &&& read_report(raw@) matches Some(read)
            &&& report == JsonView::Object(progress::progress_fields(read))
        },
        EventView::VerifyCheckFinished { iteration, command, passed, output } => {
            &&& iteration == s.iteration
            &&& s.heard matches Some(Reply::OutputEnd)
            &&& 0 < s.run.len() <= ctx.verify.checks@.len()
            &&& command == ctx.verify.checks@[s.run.len() - 1]@
            &&& passed == s.clean
        },
        EventView::IterationFinished { iteration, outcome } => {
            &&& iteration == s.iteration
            &&& s.asked matches Some(Effect::Destroy)
            &&& match outcome {
                IterationOutcome::Completed => s.report is Some && gated(ctx, s),
                IterationOutcome::Failed => s.report is None && (!s.clean || s.rejections == 2),
                IterationOutcome::TimedOut => false,
            }
        },
        EventView::StateChanged { state } => lands(ctx, s, state),
        _ => false,
    }
}

/// The report that the bytes of a file hold.
pub open spec fn read_report(raw: Seq<u8>) -> Option<progress::ProgressView> {
    if vstd::utf8::valid_utf8(raw) {
        match json::parsed(vstd::utf8::decode_utf8(raw)) {
            Some(v) => progress::as_agent_progress(v),
            None => None,
        }
    } else {
        None
    }
}

/// Whether the history calls for an effect.
pub open spec fn asks_rightly(
    ctx: KernelContext,
    resume: Option<Resume>,
    s: Sight,
    effect: Effect,
) -> bool {
    match effect {
        Effect::Emit(event) => tells_rightly(ctx, resume, s, event@),
        Effect::ReadHostText(path) => {
            &&& s.latest matches Some(EventView::IterationStarted { .. })
            &&& path@ == workspace::below(ctx.workspace.root@, workspace::DOMAIN_PROMPT_FILE@)
        },
        Effect::PollCancel => s.heard matches Some(Reply::Text(_)),
        Effect::Boot { spec, deadline } => {
            &&& s.asked matches Some(Effect::PollCancel)
            &&& !(s.heard matches Some(Reply::Cancelled))
            &&& kernel::boots_from(spec, ctx)
            &&& deadline is None
        },
        Effect::Exec(spec) => {
            let argv = text::texts(spec.argv@);
            &&& spec.cwd is None
            &&& if s.report is Some {
                // A check of the flow's, once all before it have passed.
                &&& s.run.len() < ctx.verify.checks@.len()
                &&& argv == seq!["sh"@, "-c"@, ctx.verify.checks@[s.run.len() as int]@]
                &&& !red(s)
                &&& says(s, "continue"@) || says(s, "done"@)
            } else if s.attempts.len() == 0 {
                argv == ctx.agent.command(frame::composed(shown(ctx, resume, s), s.domain))
            } else {
                // The one repair that a rejected report earns.
                &&& s.attempts.len() == 1
                &&& s.rejections == 1
                &&& argv == ctx.agent.command(frame::repair_text(s.rejected))
            }
        },
        Effect::NextOutput => true,
        Effect::Checkpoint(message) => {
            &&& s.clean
            &&& s.report is None
            &&& message@ == attempt::attempt_message(s.iteration)
        },
        Effect::ReadFile(path) => {
            &&& s.clean
            &&& s.report is None
            &&& path@ == attempt::progress_path()
        },
        Effect::Destroy => true,
        _ => false,
    }
}

/// Whether the history calls for a run to end so: as the last state that was
/// logged says, or with an error that is the host's.
pub open spec fn ends_rightly(s: Sight, end: Result<RunOutcome, KernelError>) -> bool {
    match end {
        Ok(outcome) => s.latest == Some(
            EventView::StateChanged {
                state: match outcome {
                    RunOutcome::Done => RunState::Done,
                    RunOutcome::Failed => RunState::Failed,
                    RunOutcome::Paused(reason) => RunState::Paused { reason },
                    RunOutcome::Cancelled => RunState::Cancelled,
                },
            },
        ),
        Err(error) => s.failed.contains(error) || (error is OutOfStep && s.strayed),
    }
}

/// Whether two histories agree on everything but the running command.
pub open spec fn same_tale(a: Sight, b: Sight) -> bool {
    &&& a.iteration == b.iteration
    &&& a.domain == b.domain
    &&& a.attempts == b.attempts
    &&& a.rejections == b.rejections
    &&& a.rejected == b.rejected
    &&& a.report == b.report
    &&& a.run == b.run
    &&& a.told == b.told
    &&& a.closed == b.closed
    &&& a.reds == b.reds
    &&& a.previous == b.previous
    &&& a.blame == b.blame
}

/// Whether an error is one that the history accounts for.
pub open spec fn accounted(s: Sight, error: KernelError) -> bool {
    s.failed.contains(error) || (error is OutOfStep && s.strayed)
}

spec fn attempt_stands(a: Attempt, s: Sight) -> bool {
    &&& a.iteration == s.iteration
    &&& s.report is None
    &&& s.asked is Some
    &&& match a.phase {
        AttemptPhase::Starting => s.asked->0 is Exec,
        AttemptPhase::Streaming { stdout, exit } => s.asked->0 is NextOutput && exit == s.exit
            && stdout@ == s.said,
        AttemptPhase::Logging { stdout, exit } => s.asked->0 is Emit && exit == s.exit && stdout@
            == s.said,
        AttemptPhase::Billing { clean } => s.asked->0 is Emit && clean == s.clean,
        AttemptPhase::Saving => s.asked->0 is Checkpoint && s.clean,
        AttemptPhase::Recording => s.asked->0 is Emit && s.clean,
        AttemptPhase::Fetching => s.clean && (s.asked->0 matches Effect::ReadFile(path) && path@
            == attempt::progress_path()),
    }
}

proof fn lemma_attempt(
    a: Attempt,
    ctx: KernelContext,
    resume: Option<Resume>,
    reply: Reply,
    turn: AttemptTurn,
    s: Sight,
)
    requires
        attempt_stands(a, s),
        a.steps(ctx, reply, turn),
    ensures
        same_tale(hear(s, reply), s),
        match turn {
            Turn::Act(next, effect) => {
                &&& asks_rightly(ctx, resume, hear(s, reply), effect)
                &&& attempt_stands(next, see(hear(s, reply), effect))
                &&& same_tale(see(hear(s, reply), effect), s)
                &&& kernel::stays_inside(effect)
            },
            Turn::End(Ok(AttemptEnd::Crashed)) => !hear(s, reply).clean,
            Turn::End(Ok(AttemptEnd::Reported(report))) => {
                &&& hear(s, reply).clean
                &&& s.asked->0 is ReadFile
                &&& reply matches Reply::File(raw)
                &&& read_report(raw@) == Some(report@)
            },
            Turn::End(Ok(AttemptEnd::Rejected(errors))) => {
                &&& hear(s, reply).clean
                &&& s.asked->0 is ReadFile
                &&& errors@.len() == 1
                &&& match reply {
                    Reply::Failed(error) => errors@[0]@ == "progress report missing: "@
                        + error.message(),
                    Reply::File(raw) => read_report(raw@) is None,
                    _ => false,
                }
            },
            Turn::End(Err(error)) => accounted(hear(s, reply), error),
        },
{
    let h = hear(s, reply);
    match a.phase {
        AttemptPhase::Fetching => {
            match reply {
                Reply::File(raw) => {
                    let end = choose|end: AttemptEnd| #[trigger]
                        attempt::reads_as(raw@, end) && turn == AttemptTurn::End(Ok(end));
                    if let AttemptEnd::Rejected(errors) = end {
                        assert(text::texts(errors@).len() == errors@.len());
                    }
                },
                Reply::Failed(error) => {
                    if let Turn::End(Ok(AttemptEnd::Rejected(errors))) = turn {
                        assert(text::texts(errors@).len() == errors@.len());
                        assert(text::texts(errors@)[0] == errors@[0]@);
                    }
                },
                _ => {},
            }
        },
        _ => {},
    }
}

/// Whether two histories agree on the run's books, the running iteration's
/// attempts aside.
pub open spec fn same_books(a: Sight, b: Sight) -> bool {
    &&& a.iteration == b.iteration
    &&& a.domain == b.domain
    &&& a.closed == b.closed
    &&& a.reds == b.reds
    &&& a.previous == b.previous
    &&& a.blame == b.blame
}

spec fn drive_stands(d: AgentDrive, s: Sight) -> bool {
    &&& d.iteration == s.iteration
    &&& s.report is None
    &&& s.asked is Some
    &&& match d.phase {
        AgentDrivePhase::First(a) => attempt_stands(a, s) && s.attempts.len() == 1 && s.rejections
            == 0,
        AgentDrivePhase::Repairing { prompt } => s.asked->0 is Emit && s.attempts.len() == 1
            && s.rejections == 1 && prompt@ == frame::repair_text(s.rejected),
        AgentDrivePhase::Second(a) => attempt_stands(a, s) && s.attempts.len() == 2 && s.rejections
            == 1,
        AgentDrivePhase::GivingUp => s.asked->0 is Emit && s.rejections == 2,
    }
}

proof fn lemma_drive(
    d: AgentDrive,
    ctx: KernelContext,
    resume: Option<Resume>,
    reply: Reply,
    turn: AgentDriveTurn,
    s: Sight,
)
    requires
        drive_stands(d, s),
        d.steps(ctx, reply, turn),
    ensures
        hear(s, reply).report is None,
        same_books(hear(s, reply), s),
        match turn {
            Turn::Act(next, effect) => {
                &&& asks_rightly(ctx, resume, hear(s, reply), effect)
                &&& drive_stands(next, see(hear(s, reply), effect))
                &&& same_books(see(hear(s, reply), effect), s)
                &&& kernel::stays_inside(effect)
            },
            Turn::End(Ok(Some(report))) => {
                &&& hear(s, reply).clean
                &&& s.asked->0 is ReadFile
                &&& reply matches Reply::File(raw)
                &&& read_report(raw@) == Some(report@)
            },
            Turn::End(Ok(None)) => !hear(s, reply).clean || hear(s, reply).rejections == 2,
            Turn::End(Err(error)) => accounted(hear(s, reply), error),
        },
{
    let h = hear(s, reply);
    match d.phase {
        AgentDrivePhase::First(a) => {
            let inner = choose|inner: AttemptTurn| #[trigger]
                a.steps(ctx, reply, inner) && d.follows(inner, turn);
            lemma_attempt(a, ctx, resume, reply, inner, s);
            if let Turn::End(Ok(AttemptEnd::Rejected(errors))) = inner {
                assert(text::texts(errors@).len() == errors@.len());
                assert(text::texts(errors@)[0] == errors@[0]@);
            }
        },
        AgentDrivePhase::Second(a) => {
            let inner = choose|inner: AttemptTurn| #[trigger]
                a.steps(ctx, reply, inner) && d.follows(inner, turn);
            lemma_attempt(a, ctx, resume, reply, inner, s);
            if let Turn::End(Ok(AttemptEnd::Rejected(errors))) = inner {
                assert(text::texts(errors@).len() == errors@.len());
                assert(text::texts(errors@)[0] == errors@[0]@);
            }
        },
        _ => {},
    }
}

/// The document that a report is logged as.
pub open spec fn document(report: ProgressReport) -> JsonView {
    JsonView::Object(progress::progress_fields(report@))
}

/// The word that a logged report has for where the loop stands.
proof fn lemma_says(s: Sight, report: ProgressReport)
    requires
        s.report == Some(document(report)),
    ensures
        says(s, "continue"@) <==> report.status == ProgressStatus::Continue,
        says(s, "done"@) <==> report.status == ProgressStatus::Done,
        says(s, "blocked"@) <==> report.status == ProgressStatus::Blocked,
        says(s, "needs_input"@) <==> report.status == ProgressStatus::NeedsInput,
{
    reveal_strlit("status");
    reveal_strlit("summary");
    reveal_strlit("remaining");
    reveal_strlit("blockers");
    reveal_strlit("questions");
    assert("status"@.len() == 6 && "summary"@.len() == 7 && "remaining"@.len() == 9
        && "blockers"@.len() == 8 && "questions"@.len() == 9);
    reveal_strlit("continue");
    reveal_strlit("done");
    reveal_strlit("blocked");
    reveal_strlit("needs_input");
    assert("continue"@.len() == 8 && "done"@.len() == 4 && "blocked"@.len() == 7
        && "needs_input"@.len() == 11);
    assert(wire::text_at(document(report), "status"@) == Some(report.status.shared().word()));
}

/// Whether a report and how its checks came out are what the history shows.
spec fn result_stands(result: IterationResult, ctx: KernelContext, s: Sight) -> bool {
    &&& s.report == Some(document(result.report))
    &&& if result.report.status == ProgressStatus::Continue || result.report.status
        == ProgressStatus::Done {
        verify::ran(
            text::texts(ctx.verify.checks@),
            s.iteration,
            s.run,
            s.told,
            s.ended,
            result.verify,
        )
    } else {
        result.verify is Skipped && s.run.len() == 0 && s.told.len() == 0
    }
}

spec fn work_stands(work: RalphWork, ctx: KernelContext, brief: RalphBrief, s: Sight) -> bool {
    &&& brief.iteration == s.iteration
    &&& s.asked is Some
    &&& match work {
        RalphWork::Ready => false,
        RalphWork::Driving(drive) => drive_stands(drive, s),
        RalphWork::Publishing(report) => {
            &&& s.asked->0 is Emit
            &&& s.report == Some(document(report))
            &&& s.run.len() == 0
            &&& s.told.len() == 0
            &&& s.ended.len() == 0
        },
        RalphWork::Checking(report, checks) => {
            &&& s.report == Some(document(report))
            &&& report.status == ProgressStatus::Continue || report.status == ProgressStatus::Done
            &&& verify::underway(
                checks,
                text::texts(ctx.verify.checks@),
                s.iteration,
                s.run,
                s.told,
                s.ended,
                s.asked->0,
                s.exit,
                s.printed,
            )
        },
    }
}

/// What becomes of a run's checks at a turn of theirs.
proof fn lemma_checked(
    report: ProgressReport,
    ctx: KernelContext,
    resume: Option<Resume>,
    brief: RalphBrief,
    inner: Turn<Checks, Result<VerifyOutcome, KernelError>>,
    turn: RalphWorkTurn,
    asked: Effect,
    reply: Reply,
    h: Sight,
)
    requires
        h.report == Some(document(report)),
        report.status == ProgressStatus::Continue || report.status == ProgressStatus::Done,
        brief.iteration == h.iteration,
        h.heard == Some(reply),
        h.asked == Some(asked),
        trace::is_the_hosts(asked, reply, KernelError::OutOfStep) ==> h.strayed || h.failed.contains(
            KernelError::OutOfStep,
        ),
        reply is Failed ==> h.failed.contains(reply->Failed_0),
        verify::standing(
            inner,
            text::texts(ctx.verify.checks@),
            h.iteration,
            h.run,
            h.told,
            h.ended,
            asked,
            reply,
            h.exit,
            h.printed,
        ),
        inner matches Turn::Act(_, effect) ==> kernel::stays_inside(effect) && (effect is Emit
            ==> asked is NextOutput && reply is OutputEnd && told_verdict(effect)),
        inner matches Turn::Act(checks, effect) ==> (effect is Exec ==> !red(h)) && (effect is Exec
            || effect is NextOutput || effect is Emit),
        asked is NextOutput && reply is OutputEnd ==> h.ended.len() > 0 && h.clean
            == h.ended.last().clean,
        run::checked(report, inner, turn),
    ensures
        match turn {
            Turn::Act(next, effect) => {
                &&& asks_rightly(ctx, resume, h, effect)
                &&& work_stands(next, ctx, brief, see(h, effect))
                &&& same_books(see(h, effect), h)
                &&& kernel::stays_inside(effect)
            },
            Turn::End(Ok(Some(result))) => result_stands(result, ctx, h),
            Turn::End(Ok(None)) => false,
            Turn::End(Err(error)) => accounted(h, error),
        },
{
    lemma_says(h, report);
    let all = text::texts(ctx.verify.checks@);
    assert(all.len() == ctx.verify.checks@.len());
    if let Turn::Act(checks, effect) = inner {
        verify::lemma_told_by(effect);
        let n = all.len() - 1 - checks.rest@.len();
        let g = see(h, effect);
        match effect {
            Effect::Exec(spec) => {
                assert(h.run + trace::starts(effect) =~= h.run.push(text::texts(spec.argv@)));
                assert(h.told + verify::told_by(effect) =~= h.told);
                let more = h.run.push(text::texts(spec.argv@));
                assert(more == verify::shelled(all.take(n + 1)));
                assert(more.len() == n + 1);
                assert(more[n] == seq!["sh"@, "-c"@, all[n]]);
                assert(all[n] == ctx.verify.checks@[n]@);
            },
            Effect::NextOutput => {
                assert(h.run + trace::starts(effect) =~= h.run);
                assert(h.told + verify::told_by(effect) =~= h.told);
            },
            Effect::Emit(event) => {
                assert(h.run + trace::starts(effect) =~= h.run);
                assert(h.told + verify::told_by(effect) =~= g.told);
                assert(checks.phase is Logging);
                assert(h.run.len() == n + 1);
                let told = h.told + verify::told_by(effect);
                assert(told.len() == n + 1 && h.told.len() == n);
                assert(told[n] == verify::told_by(effect)[0]);
                assert(verify::judges(told[n], h.ended[n]));
                assert(all[n] == ctx.verify.checks@[n]@);
                assert(told[n].command == checks.command@);
            },
            _ => {},
        }
        assert(asks_rightly(ctx, resume, h, effect));
        assert(work_stands(RalphWork::Checking(report, checks), ctx, brief, g));
    }
}

/// Whether an effect logs a verdict on a check.
spec fn told_verdict(effect: Effect) -> bool {
    effect matches Effect::Emit(event) && event@ is VerifyCheckFinished
}

proof fn lemma_work(
    work: RalphWork,
    ctx: KernelContext,
    resume: Option<Resume>,
    brief: RalphBrief,
    reply: Reply,
    turn: RalphWorkTurn,
    s: Sight,
)
    requires
        work_stands(work, ctx, brief, s),
        work.steps(ctx, brief, reply, turn),
    ensures
        same_books(hear(s, reply), s),
        match turn {
            Turn::Act(next, effect) => {
                &&& asks_rightly(ctx, resume, hear(s, reply), effect)
                &&& work_stands(next, ctx, brief, see(hear(s, reply), effect))
                &&& same_books(see(hear(s, reply), effect), s)
                &&& kernel::stays_inside(effect)
            },
            Turn::End(Ok(Some(result))) => result_stands(result, ctx, hear(s, reply)),
            Turn::End(Ok(None)) => hear(s, reply).report is None && (!hear(s, reply).clean || hear(
                s,
                reply,
            ).rejections == 2),
            Turn::End(Err(error)) => accounted(hear(s, reply), error),
        },
{
    let h = hear(s, reply);
    match work {
        RalphWork::Ready => {},
        RalphWork::Driving(drive) => {
            let inner = choose|inner: AgentDriveTurn| #[trigger]
                drive.steps(ctx, reply, inner) && run::driven(brief, inner, turn);
            lemma_drive(drive, ctx, resume, reply, inner, s);
        },
        RalphWork::Publishing(report) => {
            lemma_says(h, report);
            if !(reply is Failed) && run::is_gated(report.status) {
                let inner = choose|inner: Turn<Checks, Result<VerifyOutcome, KernelError>>|
                    verify::enters(
                        brief.iteration,
                        text::texts(ctx.verify.checks@),
                        inner,
                    ) && #[trigger] run::checked(report, inner, turn);
                let all = text::texts(ctx.verify.checks@);
                assert(all.skip(0) =~= all);
                assert(h.run =~= verify::shelled(all.take(0)));
                assert(h.told =~= verify::all_passed(brief.iteration, all.take(0)));
                assert(h.ended =~= Seq::empty());
                verify::lemma_enters(
                    inner,
                    all,
                    0,
                    brief.iteration,
                    h.run,
                    h.told,
                    h.ended,
                    s.asked->0,
                    reply,
                    h.exit,
                    h.printed,
                );
                lemma_checked(report, ctx, resume, brief, inner, turn, s.asked->0, reply, h);
            }
        },
        RalphWork::Checking(report, checks) => {
            let inner = choose|inner: Turn<Checks, Result<VerifyOutcome, KernelError>>|
                #[trigger] checks.steps(reply, inner) && run::checked(report, inner, turn);
            let all = text::texts(ctx.verify.checks@);
            verify::lemma_check_step(
                checks,
                reply,
                inner,
                all,
                s.iteration,
                s.run,
                s.told,
                s.ended,
                s.asked->0,
                s.exit,
                s.printed,
            );
            assert(h.ended == s.ended + trace::ended_by(s.exit, s.printed, s.asked->0, reply));
            lemma_checked(report, ctx, resume, brief, inner, turn, s.asked->0, reply, h);
        },
    }
}

/// A reply that ends no command leaves what is known of the commands alone.
proof fn lemma_hear(s: Sight, reply: Reply)
    requires
        s.asked is Some,
        !(s.asked->0 is NextOutput),
    ensures
        hear(s, reply).ended == s.ended,
        hear(s, reply).clean == s.clean,
        same_tale(hear(s, reply), Sight { domain: hear(s, reply).domain, ..s }),
{
    let by = trace::ended_by(s.exit, s.printed, s.asked->0, reply);
    assert(s.ended + by =~= s.ended);
}

/// Whether nothing has been done yet in the announced iteration.
spec fn unbegun(s: Sight) -> bool {
    s.report is None && s.attempts.len() == 0 && s.rejections == 0
}

/// Whether `result` is what an iteration's sandboxed work may come to.
spec fn done_stands(
    result: Result<Bracketed<Option<IterationResult>>, KernelError>,
    ctx: KernelContext,
    s: Sight,
) -> bool {
    match result {
        Ok(Bracketed::Finished(Some(result))) => result_stands(result, ctx, s),
        Ok(Bracketed::Finished(None)) => s.report is None && (!s.clean || s.rejections == 2),
        Ok(_) => s.cancelled,
        Err(error) => accounted(s, error),
    }
}

spec fn bracket_stands(
    bracket: Bracket<RalphWork>,
    ctx: KernelContext,
    resume: Option<Resume>,
    brief: RalphBrief,
    s: Sight,
) -> bool {
    let prompted = brief.prompt@ == frame::composed(shown(ctx, resume, s), s.domain);
    &&& bracket.deadline is None
    &&& s.asked is Some
    &&& brief.iteration == s.iteration
    &&& match bracket.phase {
        BracketPhase::Polling(work) => work is Ready && s.asked->0 is PollCancel && unbegun(s)
            && prompted,
        BracketPhase::Booting(work) => work is Ready && s.asked->0 is Boot && unbegun(s)
            && prompted,
        BracketPhase::Working(work) => work_stands(work, ctx, brief, s),
        BracketPhase::Destroying(result) => s.asked->0 is Destroy && done_stands(result, ctx, s),
    }
}

proof fn lemma_bracket(
    bracket: Bracket<RalphWork>,
    ctx: KernelContext,
    resume: Option<Resume>,
    brief: RalphBrief,
    reply: Reply,
    turn: Turn<Bracket<RalphWork>, Result<Bracketed<Option<IterationResult>>, KernelError>>,
    s: Sight,
)
    requires
        bracket_stands(bracket, ctx, resume, brief, s),
        bracket.steps(ctx, brief, reply, turn),
    ensures
        same_books(hear(s, reply), s),
        match turn {
            Turn::Act(next, effect) => {
                &&& asks_rightly(ctx, resume, hear(s, reply), effect)
                &&& bracket_stands(next, ctx, resume, brief, see(hear(s, reply), effect))
                &&& same_books(see(hear(s, reply), effect), s)
            },
            Turn::End(result) => done_stands(result, ctx, hear(s, reply)) && (result matches Ok(
                Bracketed::Finished(_),
            ) ==> hear(s, reply).asked == Some(Effect::Destroy)),
        },
{
    let h = hear(s, reply);
    match bracket.phase {
        BracketPhase::Polling(work) => {
            lemma_hear(s, reply);
            assert(shown(ctx, resume, h) =~= shown(ctx, resume, s));
        },
        BracketPhase::Booting(work) => {
            lemma_hear(s, reply);
            assert(shown(ctx, resume, h) =~= shown(ctx, resume, s));
            if !(reply is Failed) {
                let inner = choose|inner: RalphWorkTurn| #[trigger]
                    work.steps(ctx, brief, Reply::Done, inner) && bracket.follows(inner, turn);
                let effect = inner->Act_1;
                let g = see(h, effect);
                assert(h.attempts.push(g.attempts[0]) =~= g.attempts);
            }
        },
        BracketPhase::Working(work) => {
            if reply is Cancelled || reply is TimedOut {
                assert(h.cancelled);
            } else {
                let inner = choose|inner: RalphWorkTurn| #[trigger]
                    work.steps(ctx, brief, reply, inner) && bracket.follows(inner, turn);
                lemma_work(work, ctx, resume, brief, reply, inner, s);
            }
        },
        BracketPhase::Destroying(result) => {
            lemma_hear(s, reply);
            assert(done_stands(result, ctx, h));
        },
    }
}

spec fn progress_stands(p: RalphProgress, resume: Option<Resume>, s: Sight) -> bool {
    &&& p.failures == s.reds
    &&& match p.previous {
        Some(report) => if s.closed > 0 {
            s.previous == Some(document(report))
        } else {
            resume matches Some(resume) && report == resume.report
        },
        None => s.closed == 0 && resume is None,
    }
    &&& match p.feedback {
        Some(feedback) => s.blame matches Some(verdict) && feedback@
            == (FeedbackView::VerifyFailed { command: verdict.command, output: verdict.output }),
        None => s.blame is None,
    }
}

spec fn run_stands(run: RalphRun, ctx: KernelContext, resume: Option<Resume>, s: Sight) -> bool {
    let p = run.progress;
    &&& s.asked is Some
    &&& match run.phase {
        RalphPhase::Starting { human } => {
            &&& s.asked->0 is Emit
            &&& s.closed == 0
            &&& s.told.len() == 0
            &&& progress_stands(p, resume, s)
            &&& run::human_view(human) == shown(ctx, resume, s).human
            &&& due(ctx, resume, s) == Some(p.iteration)
        },
        RalphPhase::Opening { human } => {
            &&& s.asked->0 is Emit
            &&& s.latest == Some(EventView::IterationStarted { iteration: p.iteration })
            &&& s.iteration == p.iteration
            &&& unbegun(s)
            &&& progress_stands(p, resume, s)
            &&& run::human_view(human) == shown(ctx, resume, s).human
        },
        RalphPhase::Prompting { human } => {
            &&& s.asked->0 is ReadHostText
            &&& s.iteration == p.iteration
            &&& unbegun(s)
            &&& progress_stands(p, resume, s)
            &&& run::human_view(human) == shown(ctx, resume, s).human
        },
        RalphPhase::Working { brief, bracket } => {
            &&& s.iteration == p.iteration
            &&& progress_stands(p, resume, s)
            &&& bracket_stands(bracket, ctx, resume, brief, s)
        },
        RalphPhase::Closing(result) => {
            &&& s.asked->0 is Emit
            &&& s.latest == Some(
                EventView::IterationFinished {
                    iteration: p.iteration,
                    outcome: IterationOutcome::Completed,
                },
            )
            &&& s.iteration == p.iteration
            &&& result_stands(result, ctx, s)
            &&& s.closed > 0
            &&& s.previous == s.report
            &&& s.reds == if red(s) {
                (p.failures + 1) as nat
            } else {
                0
            }
            &&& s.blame == if red(s) {
                Some(s.told.last())
            } else {
                None
            }
        },
        RalphPhase::Failing => s.latest matches Some(EventView::IterationFinished { outcome, .. })
            && outcome == IterationOutcome::Failed,
        RalphPhase::Budgeting => s.latest matches Some(EventView::BudgetExhausted { .. }),
        RalphPhase::Concluding(outcome) => ends_rightly(s, Ok(outcome)),
    }
}

/// Whether `turn` is one at which a run may stand.
spec fn turn_stands(turn: RalphTurn, ctx: KernelContext, resume: Option<Resume>, s: Sight) -> bool {
    match turn {
        Turn::Act(next, effect) => asks_rightly(ctx, resume, s, effect) && run_stands(
            next,
            ctx,
            resume,
            see(s, effect),
        ),
        Turn::End(end) => ends_rightly(s, end),
    }
}

proof fn lemma_tops(
    p: RalphProgress,
    ctx: KernelContext,
    resume: Option<Resume>,
    human: Option<HumanInputView>,
    turn: RalphTurn,
    h: Sight,
)
    requires
        p.tops(ctx, human, turn),
        due(ctx, resume, h) == Some(p.iteration),
        progress_stands(p, resume, h),
        human == shown(ctx, resume, h).human,
    ensures
        turn_stands(turn, ctx, resume, h),
{
    let effect = turn->Act_1;
    let g = see(h, effect);
    assert(g.reds == h.reds && g.closed == h.closed && g.blame == h.blame && g.previous
        == h.previous);
    assert(shown(ctx, resume, g).human == shown(ctx, resume, h).human);
}

proof fn lemma_gates(
    p: RalphProgress,
    ctx: KernelContext,
    resume: Option<Resume>,
    result: IterationResult,
    turn: RalphTurn,
    h: Sight,
)
    requires
        p.gates(ctx, result, turn),
        h.latest == Some(
            EventView::IterationFinished {
                iteration: p.iteration,
                outcome: IterationOutcome::Completed,
            },
        ),
        h.iteration == p.iteration,
        result_stands(result, ctx, h),
        h.closed > 0,
        h.previous == h.report,
        h.reds == if red(h) {
            (p.failures + 1) as nat
        } else {
            0
        },
        h.blame == if red(h) {
            Some(h.told.last())
        } else {
            None
        },
    ensures
        turn_stands(turn, ctx, resume, h),
{
    let report = result.report;
    lemma_says(h, report);
    assert(red(h) <==> result.verify is Failed) by {
        if h.told.len() > 0 && result.verify is Passed {
            assert(h.told.last() == h.told[h.told.len() - 1]);
        }
    }
    match result.verify {
        VerifyOutcome::Failed { command, output } => {
            if p.failures < ctx.verify.on_fail.retries {
                let next = RalphProgress {
                    iteration: crate::pipeline::guardrails::one_more(p.iteration),
                    previous: Some(report),
                    feedback: Some(preamble::Feedback::VerifyFailed { command, output }),
                    failures: (p.failures + 1) as u32,
                };
                lemma_tops(next, ctx, resume, None, turn, h);
            }
        },
        _ => {
            if report.status == ProgressStatus::Continue {
                let next = RalphProgress {
                    iteration: crate::pipeline::guardrails::one_more(p.iteration),
                    previous: Some(report),
                    feedback: None,
                    failures: 0,
                };
                lemma_tops(next, ctx, resume, None, turn, h);
            }
        },
    }
}

proof fn lemma_run(
    run: RalphRun,
    ctx: KernelContext,
    resume: Option<Resume>,
    reply: Reply,
    turn: RalphTurn,
    s: Sight,
)
    requires
        run_stands(run, ctx, resume, s),
        run.steps(ctx, reply, turn),
    ensures
        turn_stands(turn, ctx, resume, hear(s, reply)),
{
    let h = hear(s, reply);
    let p = run.progress;
    match run.phase {
        RalphPhase::Working { brief, bracket } => {
            let inner = choose|
                inner: Turn<
                    Bracket<RalphWork>,
                    Result<Bracketed<Option<IterationResult>>, KernelError>,
                >,
            | #[trigger]
                bracket.steps(ctx, brief, reply, inner) && run.worked(ctx, brief, inner, turn);
            lemma_bracket(bracket, ctx, resume, brief, reply, inner, s);
            if let Turn::End(Ok(Bracketed::Finished(Some(result)))) = inner {
                lemma_says(h, result.report);
                let g = see(h, turn->Act_1);
                assert(gated(ctx, h));
                assert(result_stands(result, ctx, g));
            }
        },
        _ => {
            if !(reply is Failed) && !(s.asked->0 is NextOutput) {
                lemma_hear(s, reply);
                match run.phase {
                    RalphPhase::Starting { human } => {
                        assert(due(ctx, resume, h) == due(ctx, resume, s));
                        lemma_tops(p, ctx, resume, run::human_view(human), turn, h);
                    },
                    RalphPhase::Opening { human } => {
                        assert(shown(ctx, resume, see(h, turn->Act_1)).human == shown(
                            ctx,
                            resume,
                            s,
                        ).human);
                    },
                    RalphPhase::Prompting { human } => {
                        if let Reply::Text(domain) = reply {
                            let g = see(h, turn->Act_1);
                            if let Some(report) = p.previous {
                                progress::progress_reports_read_back(report@);
                            }
                            assert(p.framed(ctx, run::human_view(human)) =~= shown(ctx, resume, g));
                        }
                    },
                    RalphPhase::Closing(result) => {
                        lemma_gates(p, ctx, resume, result, turn, h);
                    },
                    _ => {},
                }
            }
        },
    }
}

proof fn lemma_course(
    start: RalphTurn,
    ctx: KernelContext,
    resume: Option<Resume>,
    effects: Seq<Effect>,
    replies: Seq<Reply>,
    turn: RalphTurn,
)
    requires
        start matches Turn::Act(begun, first) && run_stands(
            begun,
            ctx,
            resume,
            see(nothing(), first),
        ),
        comes_to(start, ctx, effects, replies, turn),
        replies.len() > 0,
    ensures
        turn_stands(turn, ctx, resume, sight(effects, replies)),
    decreases replies.len(),
{
    let before = choose|before: RalphRun| #[trigger]
        before.steps(ctx, replies.last(), turn) && comes_to(
            start,
            ctx,
            effects.drop_last(),
            replies.drop_last(),
            Turn::Act(before, effects.last()),
        );
    if replies.len() > 1 {
        lemma_course(
            start,
            ctx,
            resume,
            effects.drop_last(),
            replies.drop_last(),
            Turn::Act(before, effects.last()),
        );
    }
    lemma_run(
        before,
        ctx,
        resume,
        replies.last(),
        turn,
        see(sight(effects.drop_last(), replies.drop_last()), effects.last()),
    );
}

/// A run of the single-prompt loop goes by its history. Whatever the host
/// answers, wherever the run stands it asks for what the history calls for:
/// an iteration follows a completed one that said `continue` and failed no
/// check, or that failed one while retries are left, as long as the budget
/// has room; its agent is shown the report before; each pause and each end is
/// owed to the word that gives it; every check has run that a report is taken
/// on; and the run comes to the state that it logged last.
pub proof fn the_loop_goes_by_its_history(
    ctx: KernelContext,
    resume: Option<Resume>,
    begun: RalphRun,
    first: Effect,
    effects: Seq<Effect>,
    replies: Seq<Reply>,
    turn: RalphTurn,
)
    requires
        run::launches(ctx, resume, begun, first),
        comes_to(Turn::Act(begun, first), ctx, effects, replies, turn),
        replies.len() > 0,
    ensures
        kernel::emits(
            first,
            match resume {
                Some(resume) => EventView::RunResumed { note: wire::opt_text(resume.note) },
                None => EventView::RunStarted {
                    kernel: "ralph"@,
                    agent: ctx.agent.known_as(),
                },
            },
        ),
        match turn {
            Turn::Act(_, effect) => asks_rightly(ctx, resume, sight(effects, replies), effect),
            Turn::End(end) => ends_rightly(sight(effects, replies), end),
        },
{
    let s = see(nothing(), first);
    if let RalphPhase::Starting { human } = begun.phase {
        if let Some(resume) = resume {
            assert(run::human_view(human)->0 =~= HumanInputView {
                answers: report::answer_views(resume.answers@),
                questions: report::question_views(resume.report.questions@),
                note: wire::opt_text(resume.note),
            });
        }
    }
    assert(run_stands(begun, ctx, resume, s));
    lemma_course(Turn::Act(begun, first), ctx, resume, effects, replies, turn);
}

} // verus!
