//! What the history of a staged kernel shows: the command that runs, and what
//! has come of the task in the sandbox at hand. A task begins where the host
//! is asked whether the run has been cancelled. Told by what went to and fro
//! alone, so that what a kernel asks for next can be held against it.

use crate::agent::AgentAdapter;
use crate::event::{self, EventView, OutputStream};
use crate::invocation::{self, Drive, DrivePhase, Invocation, InvocationEnd, InvocationPhase, Parsed, ReportContract};
use crate::json::{self, JsonView};
use crate::kernel::{self, Effect, KernelContext, KernelError, Reply, Turn};
use crate::sandbox::{ExecEvent, ExitStatus};
use crate::skeptic::{self, Evaluation, EvaluationPhase, SkepticContract, SkepticEnd, SkepticReport};
use crate::text;
use crate::trace;
use crate::utf8;
use crate::verify::{self, CheckView, Checks, VerifyOutcome};
use crate::wire;
use vstd::prelude::*;

verus! {

/// What has come of a task so far.
#[verifier::ext_equal]
pub ghost struct Task {
    /// The stage that was announced.
    pub stage: Option<Seq<char>>,
    /// The last file that was read, and the last that was read before a stage
    /// was announced.
    pub file: Option<Seq<u8>>,
    pub domain: Seq<u8>,
    /// The commands that were started before there was a report.
    pub attempts: Seq<Seq<Seq<char>>>,
    /// How many reports were rejected, and why the last was.
    pub rejections: nat,
    pub rejected: Seq<Seq<char>>,
    /// The commit that was made.
    pub saved: bool,
    /// The report that was logged, and the commands that were started, the
    /// verdicts that were logged and the commands that ended since.
    pub report: Option<JsonView>,
    pub run: Seq<Seq<Seq<char>>>,
    pub told: Seq<CheckView>,
    pub ended: Seq<trace::CommandEnd>,
    /// The skeptic's verdict that was logged: whether it refutes, and what it
    /// found.
    pub verdict: Option<(bool, Seq<Seq<char>>)>,
    /// Whether the host said that the run was cancelled, or that the deadline
    /// had passed.
    pub cancelled: bool,
    pub timed_out: bool,
}

/// A task of which nothing has come yet.
pub open spec fn untouched() -> Task {
    Task {
        stage: None,
        file: None,
        domain: Seq::empty(),
        attempts: Seq::empty(),
        rejections: 0,
        rejected: Seq::empty(),
        saved: false,
        report: None,
        run: Seq::empty(),
        told: Seq::empty(),
        ended: Seq::empty(),
        verdict: None,
        cancelled: false,
        timed_out: false,
    }
}

/// Whether the last check that was judged since the report failed.
pub open spec fn red(task: Task) -> bool {
    task.told.len() > 0 && !task.told.last().passed
}

/// Whether a task's report says where the work stands in this word.
pub open spec fn says(task: Task, word: Seq<char>) -> bool {
    task.report matches Some(report) && wire::text_at(report, "status"@) == Some(word)
}

/// What a history shows.
#[verifier::ext_equal]
pub ghost struct Sight {
    /// The effect that was asked for last, and the reply it got.
    pub asked: Option<Effect>,
    pub heard: Option<Reply>,
    /// How the running command ended, as far as it has, and what it has
    /// printed, in all and on its standard output.
    pub exit: Option<ExitStatus>,
    pub printed: Seq<u8>,
    pub stdout: Seq<u8>,
    /// Whether the command that ended last ended with code 0.
    pub clean: bool,
    pub task: Task,
    /// The errors the host failed with, and whether it ever answered
    /// something else than it was asked.
    pub failed: Set<KernelError>,
    pub strayed: bool,
}

/// A history in which nothing has happened.
pub open spec fn nothing() -> Sight {
    Sight {
        asked: None,
        heard: None,
        exit: None,
        printed: Seq::empty(),
        stdout: Seq::empty(),
        clean: false,
        task: untouched(),
        failed: Set::empty(),
        strayed: false,
    }
}

/// A task with one more event logged.
pub open spec fn tell(task: Task, event: EventView) -> Task {
    match event {
        EventView::StageStarted { iteration, stage } => Task { stage: Some(stage), ..task },
        EventView::ReportRejected { iteration, errors } => Task {
            rejections: task.rejections + 1,
            rejected: errors,
            ..task
        },
        EventView::WorkspaceCheckpointed { iteration, commit } => Task { saved: true, ..task },
        EventView::StageReported { iteration, stage, report } => Task {
            report: Some(report),
            run: Seq::empty(),
            told: Seq::empty(),
            ended: Seq::empty(),
            ..task
        },
        EventView::VerifyCheckFinished { iteration, command, passed, output } => Task {
            told: task.told.push(CheckView { iteration, command, passed, output }),
            ..task
        },
        EventView::SkepticVerdict { iteration, refuted, findings } => Task {
            verdict: Some((refuted, findings)),
            ..task
        },
        EventView::IterationStarted { iteration } => untouched(),
        _ => task,
    }
}

/// A history with one more effect asked for.
pub open spec fn see(s: Sight, effect: Effect) -> Sight {
    Sight {
        asked: Some(effect),
        heard: None,
        task: match effect {
            Effect::Emit(event) => tell(s.task, event@),
            Effect::PollCancel => untouched(),
            Effect::Exec(spec) => if s.task.report is None {
                Task { attempts: s.task.attempts.push(text::texts(spec.argv@)), ..s.task }
            } else {
                Task { run: s.task.run.push(text::texts(spec.argv@)), ..s.task }
            },
            _ => s.task,
        },
        ..s
    }
}

/// A history with the last effect answered.
pub open spec fn hear(s: Sight, reply: Reply) -> Sight {
    let asked = s.asked->0;
    let by = trace::ended_by(s.exit, s.printed, asked, reply);
    Sight {
        heard: Some(reply),
        exit: trace::exit_after(s.exit, asked, reply),
        printed: trace::printed_after(s.printed, asked, reply),
        stdout: match (asked, reply) {
            (Effect::Exec(_), _) => Seq::empty(),
            (Effect::NextOutput, Reply::Output(ExecEvent::Stdout(bytes))) => s.stdout + bytes@,
            _ => s.stdout,
        },
        clean: if by.len() > 0 {
            by[0].clean
        } else {
            s.clean
        },
        task: Task {
            file: match (asked, reply) {
                (Effect::ReadFile(_), Reply::File(raw)) => Some(raw@),
                _ => s.task.file,
            },
            domain: match (asked, reply) {
                (Effect::ReadFile(_), Reply::File(raw)) => if s.task.stage is None {
                    raw@
                } else {
                    s.task.domain
                },
                _ => s.task.domain,
            },
            ended: if s.task.report is Some {
                s.task.ended + by
            } else {
                s.task.ended
            },
            cancelled: s.task.cancelled || reply is Cancelled,
            timed_out: s.task.timed_out || reply is TimedOut,
            ..s.task
        },
        failed: match reply {
            Reply::Failed(error) => s.failed.insert(error),
            _ => s.failed,
        },
        strayed: s.strayed || !trace::answers(asked, reply),
        ..s
    }
}

/// Whether an error is one that the history accounts for.
pub open spec fn accounted(s: Sight, error: KernelError) -> bool {
    s.failed.contains(error) || (error is OutOfStep && s.strayed)
}

/// Whether bytes are a report under a contract.
pub open spec fn holds<C: ReportContract>(contract: C, raw: Seq<u8>, report: C::Report) -> bool {
    vstd::utf8::valid_utf8(raw) && contract.reads(vstd::utf8::decode_utf8(raw), Ok(report))
}

/// Whether a history calls for an effect of an agent that is driven to its
/// report in iteration `n`. The report of an earlier command is removed
/// before a command is started, the agent gets its prompt first and then at
/// most the one repair, whatever it prints and bills is logged, and its
/// report is read only where it ended with code 0.
pub open spec fn drives_rightly<C: ReportContract>(
    ctx: KernelContext,
    contract: C,
    n: u32,
    prompt: Seq<char>,
    s: Sight,
    effect: Effect,
) -> bool {
    let first = s.task.attempts.len() == 0;
    let second = s.task.attempts.len() == 1 && s.task.rejections == 1;
    match effect {
        Effect::RemoveFile(path) => path@ == invocation::report_path() && (first || second),
        Effect::Exec(spec) => {
            &&& s.asked matches Some(Effect::RemoveFile(path))
            &&& path@ == invocation::report_path()
            &&& spec.cwd is None
            &&& first || second
            &&& text::texts(spec.argv@) == ctx.agent.command(
                if first {
                    prompt
                } else {
                    invocation::repair_text(s.task.rejected, contract.shape())
                },
            )
        },
        Effect::NextOutput => true,
        Effect::ReadFile(path) => path@ == invocation::report_path() && s.clean,
        Effect::Emit(event) => match event@ {
            EventView::AgentOutput { iteration, stream, chunk } => iteration == n,
            EventView::TokensUsed { iteration, usage } => iteration == n && ctx.agent.bill(
                utf8::text_of(s.stdout),
            ) == Some(usage),
            EventView::ReportRejected { iteration, errors } => {
                &&& iteration == n
                &&& s.clean
                &&& s.asked matches Some(Effect::ReadFile(path))
                &&& path@ == invocation::report_path()
                &&& errors.len() == 1
                &&& match s.heard {
                    Some(Reply::Failed(error)) => errors[0] == "report missing: "@
                        + error.message(),
                    Some(Reply::File(raw)) => !vstd::utf8::valid_utf8(raw@) || exists|why: String|
                        #[trigger] contract.reads(vstd::utf8::decode_utf8(raw@), Err(why)) && why@
                            == errors[0],
                    _ => false,
                }
            },
            _ => false,
        },
        _ => false,
    }
}

/// Whether two tasks agree on all that driving an agent leaves alone.
pub open spec fn same_rest(a: Task, b: Task) -> bool {
    &&& a.stage == b.stage
    &&& a.stage is Some ==> a.domain == b.domain
    &&& a.saved == b.saved
    &&& a.report == b.report
    &&& a.run == b.run
    &&& a.told == b.told
    &&& a.verdict == b.verdict
}

/// Whether two tasks agree on the agent's chances too.
pub open spec fn same_chances(a: Task, b: Task) -> bool {
    &&& same_rest(a, b)
    &&& a.attempts == b.attempts
    &&& a.rejections == b.rejections
    &&& a.rejected == b.rejected
}

/// Whether an event is one that closes an invocation.
pub open spec fn is_closing(ctx: KernelContext, n: u32, stdout: Seq<u8>, e: EventView) -> bool {
    match e {
        EventView::AgentOutput { iteration, .. } => iteration == n,
        EventView::TokensUsed { iteration, usage } => iteration == n && ctx.agent.bill(
            utf8::text_of(stdout),
        ) == Some(usage),
        _ => false,
    }
}

/// Whether an invocation stands where a history shows it.
pub open spec fn invocation_stands(
    ctx: KernelContext,
    i: Invocation,
    n: u32,
    prompt: Seq<char>,
    s: Sight,
) -> bool {
    &&& i.iteration == n
    &&& s.asked is Some
    &&& s.task.report is None
    &&& match i.phase {
        InvocationPhase::Clearing { prompt: given } => given@ == prompt && (s.asked->0
            matches Effect::RemoveFile(path) && path@ == invocation::report_path()),
        InvocationPhase::Starting => s.asked->0 is Exec,
        InvocationPhase::Streaming(heard) => s.asked->0 is NextOutput && heard.exit == s.exit
            && heard.stdout@ == s.stdout,
        InvocationPhase::Logging(heard) => s.asked->0 is Emit && heard.exit == s.exit
            && heard.stdout@ == s.stdout,
        InvocationPhase::Settling { queue, clean } => s.asked->0 is Emit && clean == s.clean
            && forall|k: int|
            0 <= k < queue@.len() ==> is_closing(ctx, n, s.stdout, (#[trigger] queue@[k])@),
        InvocationPhase::Fetching => s.clean && (s.asked->0 matches Effect::ReadFile(path) && path@
            == invocation::report_path()),
    }
}

/// How many commands an invocation will have started once it has begun.
pub open spec fn started_by(i: Invocation) -> nat {
    if i.phase is Clearing {
        0
    } else {
        1
    }
}

/// Whether an invocation's end is one that a history shows.
pub open spec fn ends_invocation(s: Sight, end: InvocationEnd) -> bool {
    match end {
        InvocationEnd::Crashed => !s.clean,
        InvocationEnd::MissingReport(message) => {
            &&& s.clean
            &&& s.asked matches Some(Effect::ReadFile(path))
            &&& path@ == invocation::report_path()
            &&& s.heard matches Some(Reply::Failed(error))
            &&& message@ == "report missing: "@ + error.message()
        },
        InvocationEnd::Reported(raw) => {
            &&& s.clean
            &&& s.asked matches Some(Effect::ReadFile(path))
            &&& path@ == invocation::report_path()
            &&& s.heard == Some(Reply::File(raw))
        },
    }
}

/// A reply that ends no command leaves what is known of the commands alone.
pub proof fn lemma_hear(s: Sight, reply: Reply)
    requires
        s.asked is Some,
        !(s.asked->0 is NextOutput),
    ensures
        hear(s, reply).task.ended == s.task.ended,
        hear(s, reply).clean == s.clean,
        same_chances(hear(s, reply).task, s.task),
{
    let by = trace::ended_by(s.exit, s.printed, s.asked->0, reply);
    assert(s.task.ended + by =~= s.task.ended);
}

/// What closes an invocation is what it still had to say, and its bill.
proof fn lemma_closing(ctx: KernelContext, n: u32, heard: invocation::Capture, k: int)
    requires
        0 <= k < heard.closing(ctx, n).len(),
    ensures
        is_closing(ctx, n, heard.stdout@, heard.closing(ctx, n)[k]),
{
    let a = invocation::last_output(n, OutputStream::Stdout, heard.out.tail());
    let b = invocation::last_output(n, OutputStream::Stderr, heard.err.tail());
    let c = match ctx.agent.bill(utf8::text_of(heard.stdout@)) {
        Some(usage) => seq![EventView::TokensUsed { iteration: n, usage }],
        None => Seq::<EventView>::empty(),
    };
    let all = heard.closing(ctx, n);
    assert(all == a + b + c);
    if k < a.len() {
        assert(all[k] == a[k]);
    } else if k < a.len() + b.len() {
        assert(all[k] == b[k - a.len()]);
    } else {
        assert(all[k] == c[k - a.len() - b.len()]);
    }
}

/// One step of an invocation, seen from its history.
pub proof fn lemma_invocation<C: ReportContract>(
    i: Invocation,
    ctx: KernelContext,
    contract: C,
    n: u32,
    whole: Seq<char>,
    prompt: Seq<char>,
    reply: Reply,
    turn: Turn<Invocation, Result<InvocationEnd, KernelError>>,
    s: Sight,
)
    requires
        invocation_stands(ctx, i, n, prompt, s),
        i.steps(ctx, reply, turn),
        i.phase is Clearing ==> s.task.attempts.len() == 0 || (s.task.attempts.len() == 1
            && s.task.rejections == 1),
        i.phase is Clearing ==> prompt == if s.task.attempts.len() == 0 {
            whole
        } else {
            invocation::repair_text(s.task.rejected, contract.shape())
        },
    ensures
        same_chances(hear(s, reply).task, s.task),
        match turn {
            Turn::Act(next, effect) => {
                &&& drives_rightly(ctx, contract, n, whole, hear(s, reply), effect)
                &&& invocation_stands(ctx, next, n, prompt, see(hear(s, reply), effect))
                &&& same_rest(see(hear(s, reply), effect).task, s.task)
                &&& see(hear(s, reply), effect).task.attempts.len() + started_by(i)
                    == s.task.attempts.len() + started_by(next)
                &&& see(hear(s, reply), effect).task.rejections == s.task.rejections
                &&& see(hear(s, reply), effect).task.rejected == s.task.rejected
                &&& kernel::stays_inside(effect)
                &&& !(next.phase is Clearing)
            },
            Turn::End(Ok(end)) => ends_invocation(hear(s, reply), end),
            Turn::End(Err(error)) => accounted(hear(s, reply), error),
        },
{
    let h = hear(s, reply);
    if !(reply is Failed) {
        match i.phase {
            InvocationPhase::Streaming(heard) => {
                if reply is OutputEnd {
                    let clean = crate::sandbox::clean_exit(heard.exit);
                    let queue = choose|queue: Seq<event::RunEvent>|
                        event::event_views(queue) == heard.closing(ctx, n) && #[trigger] i.settles(
                            queue,
                            clean,
                            turn,
                        );
                    let told = event::event_views(queue);
                    assert(h.clean == clean);
                    assert forall|k: int| 0 <= k < queue.len() implies is_closing(
                        ctx,
                        n,
                        h.stdout,
                        (#[trigger] queue[k])@,
                    ) by {
                        assert(told[k] == queue[k]@);
                        lemma_closing(ctx, n, heard, k);
                    }
                    lemma_settles(i, ctx, contract, n, whole, prompt, queue, clean, turn, h);
                }
            },
            InvocationPhase::Settling { queue, clean } => {
                lemma_hear(s, reply);
                lemma_settles(i, ctx, contract, n, whole, prompt, queue@, clean, turn, h);
            },
            InvocationPhase::Clearing { prompt: given } => {
                lemma_hear(s, reply);
            },
            InvocationPhase::Fetching => {
                lemma_hear(s, reply);
            },
            _ => {},
        }
    }
}

proof fn lemma_settles<C: ReportContract>(
    i: Invocation,
    ctx: KernelContext,
    contract: C,
    n: u32,
    whole: Seq<char>,
    prompt: Seq<char>,
    queue: Seq<event::RunEvent>,
    clean: bool,
    turn: Turn<Invocation, Result<InvocationEnd, KernelError>>,
    h: Sight,
)
    requires
        i.iteration == n,
        h.task.report is None,
        h.clean == clean,
        forall|k: int|
            0 <= k < queue.len() ==> is_closing(ctx, n, h.stdout, (#[trigger] queue[k])@),
        i.settles(queue, clean, turn),
    ensures
        match turn {
            Turn::Act(next, effect) => {
                &&& drives_rightly(ctx, contract, n, whole, h, effect)
                &&& invocation_stands(ctx, next, n, prompt, see(h, effect))
                &&& same_chances(see(h, effect).task, h.task)
                &&& kernel::stays_inside(effect)
                &&& !(next.phase is Clearing)
            },
            Turn::End(Ok(end)) => ends_invocation(h, end),
            Turn::End(Err(error)) => false,
        },
{
    if queue.len() > 0 {
        assert(is_closing(ctx, n, h.stdout, queue[0]@));
        let rest = (turn->Act_0).phase->queue@;
        assert forall|k: int| 0 <= k < rest.len() implies is_closing(
            ctx,
            n,
            h.stdout,
            (#[trigger] rest[k])@,
        ) by {
            assert(rest[k] == queue[k + 1]);
        }
    }
}

/// Whether a drive stands where a history shows it.
pub open spec fn drive_stands<C: ReportContract>(
    ctx: KernelContext,
    contract: C,
    d: Drive,
    n: u32,
    prompt: Seq<char>,
    s: Sight,
) -> bool {
    &&& d.iteration == n
    &&& s.asked is Some
    &&& s.task.report is None
    &&& match d.phase {
        DrivePhase::First(i) => invocation_stands(ctx, i, n, prompt, s) && s.task.rejections == 0
            && s.task.attempts.len() == started_by(i),
        DrivePhase::Repairing { prompt: again } => s.asked->0 is Emit && s.task.attempts.len() == 1
            && s.task.rejections == 1 && again@ == invocation::repair_text(
            s.task.rejected,
            contract.shape(),
        ),
        DrivePhase::Second(i) => invocation_stands(
            ctx,
            i,
            n,
            invocation::repair_text(s.task.rejected, contract.shape()),
            s,
        ) && s.task.rejections == 1 && s.task.attempts.len() == 1 + started_by(i),
        DrivePhase::GivingUp => s.asked->0 is Emit && s.task.rejections == 2,
    }
}

/// One step of a drive, seen from its history.
pub proof fn lemma_drive<C: ReportContract>(
    d: Drive,
    ctx: KernelContext,
    contract: C,
    n: u32,
    prompt: Seq<char>,
    reply: Reply,
    turn: Turn<Drive, Result<Option<C::Report>, KernelError>>,
    s: Sight,
)
    requires
        drive_stands(ctx, contract, d, n, prompt, s),
        d.steps(ctx, contract, reply, turn),
    ensures
        same_rest(hear(s, reply).task, s.task),
        match turn {
            Turn::Act(next, effect) => {
                &&& drives_rightly(ctx, contract, n, prompt, hear(s, reply), effect)
                &&& drive_stands(ctx, contract, next, n, prompt, see(hear(s, reply), effect))
                &&& same_rest(see(hear(s, reply), effect).task, s.task)
                &&& kernel::stays_inside(effect)
            },
            Turn::End(Ok(Some(report))) => {
                &&& hear(s, reply).clean
                &&& reply matches Reply::File(raw)
                &&& hear(s, reply).task.file == Some(raw@)
                &&& holds(contract, raw@, report)
            },
            Turn::End(Ok(None)) => !hear(s, reply).clean || hear(s, reply).task.rejections == 2,
            Turn::End(Err(error)) => accounted(hear(s, reply), error),
        },
{
    let h = hear(s, reply);
    match d.phase {
        DrivePhase::First(i) => {
            lemma_runs(d, i, ctx, contract, n, prompt, prompt, reply, turn, s);
        },
        DrivePhase::Second(i) => {
            lemma_runs(
                d,
                i,
                ctx,
                contract,
                n,
                prompt,
                invocation::repair_text(s.task.rejected, contract.shape()),
                reply,
                turn,
                s,
            );
        },
        _ => {
            lemma_hear(s, reply);
        },
    }
}

proof fn lemma_runs<C: ReportContract>(
    d: Drive,
    i: Invocation,
    ctx: KernelContext,
    contract: C,
    n: u32,
    whole: Seq<char>,
    prompt: Seq<char>,
    reply: Reply,
    turn: Turn<Drive, Result<Option<C::Report>, KernelError>>,
    s: Sight,
)
    requires
        drive_stands(ctx, contract, d, n, whole, s),
        d.phase == DrivePhase::First(i) && prompt == whole || d.phase == DrivePhase::Second(i)
            && prompt == invocation::repair_text(s.task.rejected, contract.shape()),
        d.runs(ctx, contract, i, reply, turn),
    ensures
        same_rest(hear(s, reply).task, s.task),
        match turn {
            Turn::Act(next, effect) => {
                &&& drives_rightly(ctx, contract, n, whole, hear(s, reply), effect)
                &&& drive_stands(ctx, contract, next, n, whole, see(hear(s, reply), effect))
                &&& same_rest(see(hear(s, reply), effect).task, s.task)
                &&& kernel::stays_inside(effect)
            },
            Turn::End(Ok(Some(report))) => {
                &&& hear(s, reply).clean
                &&& reply matches Reply::File(raw)
                &&& hear(s, reply).task.file == Some(raw@)
                &&& holds(contract, raw@, report)
            },
            Turn::End(Ok(None)) => !hear(s, reply).clean || hear(s, reply).task.rejections == 2,
            Turn::End(Err(error)) => accounted(hear(s, reply), error),
        },
{
    let h = hear(s, reply);
    let inner = choose|inner: Turn<Invocation, Result<InvocationEnd, KernelError>>| #[trigger]
        i.steps(ctx, reply, inner) && d.follows(contract, inner, turn);
    lemma_invocation(i, ctx, contract, n, whole, prompt, reply, inner, s);
    if let Turn::End(Ok(end)) = inner {
        let parsed = choose|parsed: Parsed<C::Report>|
            invocation::reads_as(contract, end, parsed) && #[trigger] d.concludes(
                contract,
                parsed,
                turn,
            );
        assert(i.phase is Clearing ==> turn is End || inner is Act);
        if let Parsed::Rejected(errors) = parsed {
            let told = text::texts(errors@);
            assert(told.len() == errors@.len());
            if let InvocationEnd::Reported(raw) = end {
                if vstd::utf8::valid_utf8(raw@) {
                    assert(told[0] == errors@[0]@);
                    assert(contract.reads(vstd::utf8::decode_utf8(raw@), Err(errors@[0])));
                }
            }
        }
    }
}

/// Whether a skeptic's invocation stands where a history shows it.
pub open spec fn evaluation_stands(
    ctx: KernelContext,
    e: Evaluation,
    n: u32,
    prompt: Seq<char>,
    s: Sight,
) -> bool {
    &&& e.iteration == n
    &&& s.asked is Some
    &&& s.task.report is None
    &&& match e.phase {
        EvaluationPhase::Driving(d) => drive_stands(ctx, SkepticContract, d, n, prompt, s)
            && s.task.verdict is None,
        EvaluationPhase::Logging(end) => s.asked->0 is Emit && ends_evaluation(s, end)
            && s.task.verdict is Some,
    }
}

/// Whether a skeptic's invocation comes to what a history shows: its logged
/// verdict, or nothing to be trusted.
pub open spec fn ends_evaluation(s: Sight, end: SkepticEnd) -> bool {
    match end {
        SkepticEnd::Unrefuted => s.task.verdict matches Some((refuted, findings)) && !refuted
            && findings.len() == 0,
        SkepticEnd::Refuted(found) => s.task.verdict matches Some((refuted, findings)) && refuted
            && findings.len() > 0 && findings == text::texts(found@),
        SkepticEnd::Failed => s.task.verdict is None && (!s.clean || s.task.rejections == 2),
    }
}

/// Whether a history calls for an effect of a skeptic in iteration `n`: those
/// of an agent that is driven to its report, and then the verdict that the
/// report holds. A refutation names what it found, and only it does.
pub open spec fn evaluates_rightly(
    ctx: KernelContext,
    n: u32,
    prompt: Seq<char>,
    s: Sight,
    effect: Effect,
) -> bool {
    match effect {
        Effect::Emit(event) => match event@ {
            EventView::SkepticVerdict { iteration, refuted, findings } => {
                &&& iteration == n
                &&& s.clean
                &&& s.heard matches Some(Reply::File(raw))
                &&& vstd::utf8::valid_utf8(raw@)
                &&& json::parsed(vstd::utf8::decode_utf8(raw@)) matches Some(v)
                &&& skeptic::verdict_in(v) == Some((refuted, findings))
                &&& refuted <==> findings.len() > 0
            },
            _ => drives_rightly(ctx, SkepticContract, n, prompt, s, effect),
        },
        _ => drives_rightly(ctx, SkepticContract, n, prompt, s, effect),
    }
}

/// One step of a skeptic's invocation, seen from its history.
pub proof fn lemma_evaluation(
    e: Evaluation,
    ctx: KernelContext,
    n: u32,
    prompt: Seq<char>,
    reply: Reply,
    turn: Turn<Evaluation, Result<SkepticEnd, KernelError>>,
    s: Sight,
)
    requires
        evaluation_stands(ctx, e, n, prompt, s),
        e.steps(ctx, reply, turn),
    ensures
        same_rest(hear(s, reply).task, s.task),
        match turn {
            Turn::Act(next, effect) => {
                &&& evaluates_rightly(ctx, n, prompt, hear(s, reply), effect)
                &&& evaluation_stands(ctx, next, n, prompt, see(hear(s, reply), effect))
                &&& see(hear(s, reply), effect).task.stage == s.task.stage
                &&& kernel::stays_inside(effect)
            },
            Turn::End(Ok(end)) => ends_evaluation(hear(s, reply), end),
            Turn::End(Err(error)) => accounted(hear(s, reply), error),
        },
{
    let h = hear(s, reply);
    match e.phase {
        EvaluationPhase::Driving(d) => {
            let inner = choose|inner: Turn<Drive, Result<Option<SkepticReport>, KernelError>>|
                #[trigger] d.steps(ctx, SkepticContract, reply, inner) && e.follows(inner, turn);
            lemma_drive(d, ctx, SkepticContract, n, prompt, reply, inner, s);
            if let Turn::End(Ok(Some(report))) = inner {
                assert(text::texts(report.findings@).len() == report.findings@.len());
            }
        },
        EvaluationPhase::Logging(end) => {
            lemma_hear(s, reply);
        },
    }
}

/// Whether a history calls for an effect of the flow's checks: the next one
/// is started once all before it have passed, and each is judged by how it
/// ended.
pub open spec fn checks_rightly(ctx: KernelContext, n: u32, s: Sight, effect: Effect) -> bool {
    match effect {
        Effect::Exec(spec) => {
            &&& spec.cwd is None
            &&& s.task.report is Some
            &&& s.task.run.len() < ctx.verify.checks@.len()
            &&& text::texts(spec.argv@) == seq![
                "sh"@,
                "-c"@,
                ctx.verify.checks@[s.task.run.len() as int]@,
            ]
            &&& !red(s.task)
        },
        Effect::NextOutput => true,
        Effect::Emit(event) => event@ matches EventView::VerifyCheckFinished {
            iteration,
            command,
            passed,
            ..
        } && {
            &&& iteration == n
            &&& s.heard matches Some(Reply::OutputEnd)
            &&& 0 < s.task.run.len() <= ctx.verify.checks@.len()
            &&& command == ctx.verify.checks@[s.task.run.len() - 1]@
            &&& passed == s.clean
        },
        _ => false,
    }
}

/// Whether the flow's checks stand where a history shows them.
pub open spec fn checks_stand(ctx: KernelContext, checks: Checks, n: u32, s: Sight) -> bool {
    &&& s.asked is Some
    &&& s.task.report is Some
    &&& verify::underway(
        checks,
        text::texts(ctx.verify.checks@),
        n,
        s.task.run,
        s.task.told,
        s.task.ended,
        s.asked->0,
        s.exit,
        s.printed,
    )
}

/// Whether the flow's checks have come to what a history shows.
pub open spec fn checked(ctx: KernelContext, n: u32, task: Task, outcome: VerifyOutcome) -> bool {
    verify::ran(
        text::texts(ctx.verify.checks@),
        n,
        task.run,
        task.told,
        task.ended,
        outcome,
    )
}

/// Whether a turn of the flow's checks is one that a history calls for.
pub open spec fn checks_turn(
    ctx: KernelContext,
    n: u32,
    turn: Turn<Checks, Result<VerifyOutcome, KernelError>>,
    h: Sight,
) -> bool {
    match turn {
        Turn::Act(next, effect) => {
            &&& checks_rightly(ctx, n, h, effect)
            &&& checks_stand(ctx, next, n, see(h, effect))
            &&& see(h, effect).task.report == h.task.report
            &&& see(h, effect).task.stage == h.task.stage
            &&& see(h, effect).task.domain == h.task.domain
            &&& see(h, effect).task.file == h.task.file
            &&& see(h, effect).task.verdict == h.task.verdict
            &&& kernel::stays_inside(effect)
        },
        Turn::End(Ok(outcome)) => checked(ctx, n, h.task, outcome),
        Turn::End(Err(error)) => accounted(h, error),
    }
}

proof fn lemma_checks_turn(
    ctx: KernelContext,
    n: u32,
    turn: Turn<Checks, Result<VerifyOutcome, KernelError>>,
    asked: Effect,
    reply: Reply,
    h: Sight,
)
    requires
        h.task.report is Some,
        h.heard == Some(reply),
        h.asked == Some(asked),
        reply is Failed ==> h.failed.contains(reply->Failed_0),
        !trace::answers(asked, reply) ==> h.strayed,
        verify::standing(
            turn,
            text::texts(ctx.verify.checks@),
            n,
            h.task.run,
            h.task.told,
            h.task.ended,
            asked,
            reply,
            h.exit,
            h.printed,
        ),
        turn matches Turn::Act(_, effect) ==> {
            &&& effect is Exec || effect is NextOutput || effect is Emit
            &&& effect is Exec ==> !red(h.task)
            &&& effect matches Effect::Emit(event) ==> event@ is VerifyCheckFinished && asked
                is NextOutput && reply is OutputEnd
        },
        asked is NextOutput && reply is OutputEnd ==> h.task.ended.len() > 0 && h.clean
            == h.task.ended.last().clean,
    ensures
        checks_turn(ctx, n, turn, h),
{
    let all = text::texts(ctx.verify.checks@);
    assert(all.len() == ctx.verify.checks@.len());
    if let Turn::Act(checks, effect) = turn {
        verify::lemma_told_by(effect);
        let k = all.len() - 1 - checks.rest@.len();
        let g = see(h, effect);
        match effect {
            Effect::Exec(spec) => {
                let more = h.task.run.push(text::texts(spec.argv@));
                assert(h.task.run + trace::starts(effect) =~= more);
                assert(h.task.told + verify::told_by(effect) =~= h.task.told);
                assert(more == verify::shelled(all.take(k + 1)));
                assert(more.len() == k + 1);
                assert(more[k] == seq!["sh"@, "-c"@, all[k]]);
                assert(all[k] == ctx.verify.checks@[k]@);
            },
            Effect::NextOutput => {
                assert(h.task.run + trace::starts(effect) =~= h.task.run);
                assert(h.task.told + verify::told_by(effect) =~= h.task.told);
            },
            Effect::Emit(event) => {
                assert(h.task.run + trace::starts(effect) =~= h.task.run);
                assert(h.task.told + verify::told_by(effect) =~= g.task.told);
                assert(h.task.run.len() == k + 1);
                let told = g.task.told;
                assert(told.len() == k + 1 && h.task.told.len() == k);
                assert(told[k] == verify::told_by(effect)[0]);
                assert(verify::judges(told[k], h.task.ended[k]));
                assert(all[k] == ctx.verify.checks@[k]@);
                assert(told[k].command == checks.command@);
            },
            _ => {},
        }
    }
}

/// The flow's checks begin once the report has been logged.
pub proof fn lemma_checks_begin(
    ctx: KernelContext,
    n: u32,
    turn: Turn<Checks, Result<VerifyOutcome, KernelError>>,
    reply: Reply,
    s: Sight,
)
    requires
        s.asked is Some,
        s.asked->0 is Emit,
        s.task.report is Some,
        s.task.run.len() == 0,
        s.task.told.len() == 0,
        s.task.ended.len() == 0,
        verify::enters(n, text::texts(ctx.verify.checks@), turn),
    ensures
        checks_turn(ctx, n, turn, hear(s, reply)),
{
    let all = text::texts(ctx.verify.checks@);
    let h = hear(s, reply);
    lemma_hear(s, reply);
    assert(all.skip(0) =~= all);
    assert(h.task.run =~= verify::shelled(all.take(0)));
    assert(h.task.told =~= verify::all_passed(n, all.take(0)));
    assert(h.task.ended =~= Seq::empty());
    verify::lemma_enters(
        turn,
        all,
        0,
        n,
        h.task.run,
        h.task.told,
        h.task.ended,
        s.asked->0,
        reply,
        h.exit,
        h.printed,
    );
    lemma_checks_turn(ctx, n, turn, s.asked->0, reply, h);
}

/// One step of the flow's checks, seen from their history.
pub proof fn lemma_checks(
    checks: Checks,
    ctx: KernelContext,
    n: u32,
    reply: Reply,
    turn: Turn<Checks, Result<VerifyOutcome, KernelError>>,
    s: Sight,
)
    requires
        checks_stand(ctx, checks, n, s),
        checks.steps(reply, turn),
    ensures
        checks_turn(ctx, n, turn, hear(s, reply)),
        same_chances(hear(s, reply).task, s.task),
{
    let h = hear(s, reply);
    verify::lemma_check_step(
        checks,
        reply,
        turn,
        text::texts(ctx.verify.checks@),
        n,
        s.task.run,
        s.task.told,
        s.task.ended,
        s.asked->0,
        s.exit,
        s.printed,
    );
    lemma_checks_turn(ctx, n, turn, s.asked->0, reply, h);
}

} // verus!
