//! Verify checks: the flow's configured commands, run in the iteration's
//! sandbox once the agent has stopped. They are the loop's definition of
//! progress: an iteration counts only when they pass. A failure is not fatal;
//! it feeds the next preamble and the retry budget, so the run corrects
//! course instead of advancing on confidently broken work.

use crate::event::{self, RunEvent};
use crate::kernel::{self, Effect, KernelContext, KernelError, Reply, Turn};
use crate::sandbox::{self, ExecEvent, ExecSpec, ExitStatus};
use crate::text;
use crate::trace;
use crate::utf8;
use vstd::prelude::*;
use vstd::utf8::*;

verus! {

/// How much of a failing check's output the next preamble carries. Capped
/// because it is agent-influenced text re-entering a prompt every retry. The
/// tail is kept: the error a build or test run stops on is the last thing it
/// prints.
pub const OUTPUT_TAIL_CHARS: usize = 4000;

/// Bounds the raw bytes retained while a check streams: a check that prints
/// without end must not balloon the host. Wide enough to always yield
/// [`OUTPUT_TAIL_CHARS`] characters, with a margin that keeps [`tail`]
/// marking the cut whenever bytes were dropped.
pub const MAX_OUTPUT_BYTES: usize = 16004;

/// What stands where earlier output was dropped.
pub const CUT_MARK: &'static str = "…(earlier output truncated)…\n";

/// How an iteration came out of the verify gate. `Skipped` is distinct from
/// `Passed` so nothing downstream can mistake an unverified iteration for a
/// verified one.
#[derive(Debug, PartialEq, Eq)]
pub enum VerifyOutcome {
    Passed,
    /// No checks ran: the report's status pauses the run on the agent's own
    /// word, so there is no progress to verify.
    Skipped,
    /// The failing command and its output for the next preamble.
    Failed { command: String, output: String },
}

/// The newest bytes, as many as are retained.
pub open spec fn bounded(bytes: Seq<u8>) -> Seq<u8> {
    if bytes.len() > MAX_OUTPUT_BYTES {
        bytes.skip(bytes.len() - MAX_OUTPUT_BYTES)
    } else {
        bytes
    }
}

/// Appends a chunk to the bounded raw-byte tail, dropping from the front once
/// the cap is passed: the newest output is the output that matters.
pub fn push_bounded(output: &mut Vec<u8>, bytes: &[u8])
    ensures
        final(output)@ == bounded(old(output)@ + bytes@),
{
    let ghost all = output@ + bytes@;
    output.extend_from_slice(bytes);
    assert(output@ =~= all);
    if output.len() > MAX_OUTPUT_BYTES {
        let dropped: usize = output.len() - MAX_OUTPUT_BYTES;
        let kept = output.split_off(dropped);
        assert(kept@ =~= all.skip(dropped as int));
        *output = kept;
    }
}

/// The bytes without the continuation bytes they open with: those of a
/// codepoint that the byte cap cut open.
pub open spec fn shed(bytes: Seq<u8>) -> Seq<u8>
    decreases bytes.len(),
{
    if bytes.len() > 0 && is_continuation_byte(bytes[0]) {
        shed(bytes.skip(1))
    } else {
        bytes
    }
}

/// One decode for the whole stream: chunks arrive at arbitrary byte
/// boundaries and can split codepoints, so decoding per chunk would mangle
/// them. The front may sit inside a codepoint the byte cap cut; the orphaned
/// continuation bytes are shed so the decode stays clean.
pub fn decode_tail(output: Vec<u8>) -> (s: String)
    ensures
        s@ == utf8::text_of(shed(output@)),
{
    let mut output = output;
    let ghost all = output@;
    let mut at: usize = 0;
    assert(all.skip(0) =~= all);
    while at < output.len() && 0x80 <= output[at] && output[at] <= 0xBF
        invariant
            output@ == all,
            at <= all.len(),
            shed(all.skip(at as int)) == shed(all),
        decreases all.len() - at,
    {
        assert(all.skip(at as int)[0] == all[at as int]);
        assert(all.skip(at as int).skip(1) =~= all.skip(at + 1));
        at = at + 1;
    }
    let kept = output.split_off(at);
    assert(kept@ =~= all.skip(at as int));
    assert(kept@.len() > 0 ==> kept@[0] == all[at as int]);
    utf8::into_text(kept)
}

/// The last characters of an output, as many as are carried, behind a mark
/// where any were dropped.
pub open spec fn clipped(output: Seq<char>) -> Seq<char> {
    if output.len() > OUTPUT_TAIL_CHARS {
        CUT_MARK@ + output.skip(output.len() - OUTPUT_TAIL_CHARS)
    } else {
        output
    }
}

/// Keeps the last [`OUTPUT_TAIL_CHARS`] characters, marking the cut so the
/// agent knows output was dropped.
pub fn tail(output: &str) -> (s: String)
    ensures
        s@ == clipped(output@),
{
    let chars = text::chars_of(output);
    if chars.len() > OUTPUT_TAIL_CHARS {
        let kept = text::slice_from(&chars, chars.len() - OUTPUT_TAIL_CHARS);
        let words = text::string_of(kept.as_slice());
        let mut s = CUT_MARK.to_owned();
        s.append(words.as_str());
        s
    } else {
        output.to_owned()
    }
}

/// The output that a failing check leaves for the next preamble.
pub open spec fn told(bytes: Seq<u8>) -> Seq<char> {
    clipped(utf8::text_of(shed(bounded(bytes))))
}

/// Retaining the newest bytes chunk by chunk retains the newest bytes.
pub proof fn bounding_chunk_by_chunk_is_bounding(before: Seq<u8>, chunk: Seq<u8>)
    ensures
        bounded(bounded(before) + chunk) == bounded(before + chunk),
        bounded(before).len() <= MAX_OUTPUT_BYTES,
{
    assert(bounded(bounded(before) + chunk) =~= bounded(before + chunk));
}

/// Dropping bytes never costs a character that would have been carried, and
/// never hides that something was dropped: of UTF-8 output, what a failing
/// check tells is the tail of the whole output.
pub proof fn the_byte_cap_does_not_show(output: Seq<u8>)
    requires
        valid_utf8(output),
    ensures
        told(output) == clipped(decode_utf8(output)),
{
    if output.len() > MAX_OUTPUT_BYTES {
        let at = output.len() - MAX_OUTPUT_BYTES;
        lemma_shed(output, at);
        let kept = shed(output.skip(at));
        let front = output.len() - kept.len();
        lemma_few_bytes_each(kept);
        utf8::lemma_valid_text(kept);
        let whole = decode_utf8(output);
        let rest = decode_utf8(kept);
        let lost = whole.len() - rest.len();
        assert(whole.skip(lost) == rest);
        assert(whole.skip(whole.len() - OUTPUT_TAIL_CHARS) =~= rest.skip(
            rest.len() - OUTPUT_TAIL_CHARS,
        )) by {
            assert(forall|i: int| 0 <= i < rest.len() ==> #[trigger] rest[i] == whole[lost + i]);
        }
    } else {
        utf8::lemma_valid_text(output);
        if output.len() > 0 {
            assert(!is_continuation_byte(output[0]));
        }
    }
}

/// What is left of UTF-8 output after a cut, once it is shed, is UTF-8 and
/// ends the text; at most three bytes are shed.
proof fn lemma_shed(bytes: Seq<u8>, at: int)
    requires
        valid_utf8(bytes),
        0 <= at <= bytes.len(),
    ensures
        valid_utf8(shed(bytes.skip(at))),
        shed(bytes.skip(at)).len() + 3 >= bytes.len() - at,
        decode_utf8(shed(bytes.skip(at))).len() <= decode_utf8(bytes).len(),
        decode_utf8(bytes).skip(
            decode_utf8(bytes).len() - decode_utf8(shed(bytes.skip(at))).len(),
        ) == decode_utf8(shed(bytes.skip(at))),
    decreases bytes.len(),
{
    let whole = decode_utf8(bytes);
    if at == 0 {
        assert(bytes.skip(0) =~= bytes);
        assert(shed(bytes) == bytes);
        assert(whole.skip(0) =~= whole);
    } else {
        let first = vstd::utf8::length_of_first_scalar(bytes);
        let rest = pop_first_scalar(bytes);
        let inner = if at >= first {
            at - first
        } else {
            0
        };
        lemma_shed(rest, inner);
        if at >= first {
            assert(bytes.skip(at) =~= rest.skip(inner));
        } else {
            lemma_shed_partial(bytes, at, first);
            assert(rest.skip(0) =~= rest);
            assert(shed(rest) == rest) by {
                reveal_with_fuel(valid_utf8, 2);
            }
        }
        let kept = decode_utf8(shed(bytes.skip(at)));
        assert(decode_utf8(rest) =~= whole.skip(1));
        assert(whole.skip(whole.len() - kept.len()) =~= whole.skip(1).skip(
            whole.skip(1).len() - kept.len(),
        ));
    }
}

/// A cut inside the first codepoint sheds the rest of that codepoint.
proof fn lemma_shed_partial(bytes: Seq<u8>, at: int, first: int)
    requires
        valid_utf8(bytes),
        bytes.len() > 0,
        first == vstd::utf8::length_of_first_scalar(bytes),
        0 < at <= first,
    ensures
        shed(bytes.skip(at)) == shed(pop_first_scalar(bytes)),
    decreases first - at,
{
    if at < first {
        assert(bytes.skip(at)[0] == bytes[at]);
        assert(is_continuation_byte(bytes[at]));
        assert(bytes.skip(at).skip(1) =~= bytes.skip(at + 1));
        lemma_shed_partial(bytes, at + 1, first);
    } else {
        assert(bytes.skip(at) =~= pop_first_scalar(bytes));
    }
}

/// A character takes at most four bytes.
proof fn lemma_few_bytes_each(bytes: Seq<u8>)
    requires
        valid_utf8(bytes),
    ensures
        bytes.len() <= 4 * decode_utf8(bytes).len(),
    decreases bytes.len(),
{
    if bytes.len() > 0 {
        lemma_few_bytes_each(pop_first_scalar(bytes));
    }
}

/// Where the running checks stand.
pub enum ChecksPhase {
    /// The check is being started.
    Starting,
    /// The check runs. Both streams are merged in arrival order: the
    /// preamble shows the failure as the terminal did.
    Running { output: Vec<u8>, exit: Option<ExitStatus> },
    /// How the check came out is being logged.
    Logging { passed: bool, output: String },
}

/// The flow's checks, run in order up to the first failure: later checks
/// assume earlier ones passed, so running them past a failure only buries the
/// real error.
pub struct Checks {
    pub iteration: u32,
    pub command: String,
    pub rest: Vec<String>,
    pub phase: ChecksPhase,
}

/// Whether an effect runs a check. A check is a user-authored command line,
/// so it runs through a shell.
pub open spec fn runs_check(command: Seq<char>, effect: Effect) -> bool {
    effect matches Effect::Exec(spec) && text::texts(spec.argv@) == seq!["sh"@, "-c"@, command]
        && spec.cwd is None
}

/// Whether `turn` begins the first of the checks that are left; where none
/// is, every check has passed.
pub open spec fn enters(
    iteration: u32,
    rest: Seq<Seq<char>>,
    turn: Turn<Checks, Result<VerifyOutcome, KernelError>>,
) -> bool {
    if rest.len() == 0 {
        turn matches Turn::End(Ok(VerifyOutcome::Passed))
    } else {
        &&& turn matches Turn::Act(next, effect)
        &&& next.iteration == iteration
        &&& next.command@ == rest[0]
        &&& text::texts(next.rest@) == rest.skip(1)
        &&& next.phase is Starting
        &&& runs_check(rest[0], effect)
    }
}

/// Begins the checks that are left.
fn enter(iteration: u32, rest: Vec<String>) -> (turn: Turn<
    Checks,
    Result<VerifyOutcome, KernelError>,
>)
    ensures
        enters(iteration, text::texts(rest@), turn),
{
    let mut rest = rest;
    if rest.len() == 0 {
        return Turn::End(Ok(VerifyOutcome::Passed));
    }
    let ghost all = text::texts(rest@);
    let command = rest.remove(0);
    assert(text::texts(rest@) =~= all.skip(1));
    let argv = vec!["sh".to_owned(), "-c".to_owned(), command.clone()];
    assert(text::texts(argv@) =~= seq!["sh"@, "-c"@, command@]);
    Turn::Act(
        Checks { iteration, command, rest, phase: ChecksPhase::Starting },
        Effect::Exec(ExecSpec { argv, cwd: None }),
    )
}

/// Begins the flow's checks. No checks configured means every iteration
/// passes.
pub fn run_checks(ctx: &KernelContext, iteration: u32) -> (turn: Turn<
    Checks,
    Result<VerifyOutcome, KernelError>,
>)
    ensures
        enters(iteration, text::texts(ctx.verify.checks@), turn),
        forall|
            effects: Seq<Effect>,
            replies: Seq<Reply>,
            end: Result<VerifyOutcome, KernelError>,
        | #[trigger]
            plays(turn, effects, replies, end) ==> ended_well(
                text::texts(ctx.verify.checks@),
                iteration,
                effects,
                replies,
                end,
            ),
{
    let turn = enter(iteration, text::copied_all(&ctx.verify.checks));
    proof {
        assert forall|
            effects: Seq<Effect>,
            replies: Seq<Reply>,
            end: Result<VerifyOutcome, KernelError>,
        | #[trigger] plays(turn, effects, replies, end) implies ended_well(
            text::texts(ctx.verify.checks@),
            iteration,
            effects,
            replies,
            end,
        ) by {
            every_check_runs_up_to_the_first_failure(*ctx, iteration, turn, effects, replies, end);
        }
    }
    turn
}

impl Checks {
    /// Whether `turn` goes on to hear the check, the bytes `output` retained.
    pub open spec fn listens(
        self,
        output: Seq<u8>,
        exit: Option<ExitStatus>,
        turn: Turn<Checks, Result<VerifyOutcome, KernelError>>,
    ) -> bool {
        &&& turn matches Turn::Act(next, effect)
        &&& effect is NextOutput
        &&& next.iteration == self.iteration
        &&& next.command == self.command
        &&& next.rest == self.rest
        &&& next.phase matches ChecksPhase::Running { output: kept, exit: ended }
        &&& kept@ == output
        &&& ended == exit
    }

    /// Whether `turn` is where the checks stand after `reply`. Every check
    /// that ran is logged; only a failure's output is worth carrying.
    pub open spec fn steps(
        self,
        reply: Reply,
        turn: Turn<Checks, Result<VerifyOutcome, KernelError>>,
    ) -> bool {
        if reply is Failed {
            turn == Turn::<Checks, Result<VerifyOutcome, KernelError>>::End(Err(reply->Failed_0))
        } else {
            match self.phase {
                ChecksPhase::Starting => self.listens(Seq::empty(), None, turn),
                ChecksPhase::Running { output, exit } => match reply {
                    Reply::Output(ExecEvent::Stdout(bytes)) => self.listens(
                        bounded(output@ + bytes@),
                        exit,
                        turn,
                    ),
                    Reply::Output(ExecEvent::Stderr(bytes)) => self.listens(
                        bounded(output@ + bytes@),
                        exit,
                        turn,
                    ),
                    Reply::Output(ExecEvent::Exited(status)) => self.listens(
                        output@,
                        Some(status),
                        turn,
                    ),
                    Reply::OutputEnd => {
                        let passed = sandbox::clean_exit(exit);
                        let told = if passed {
                            Seq::empty()
                        } else {
                            clipped(utf8::text_of(shed(output@)))
                        };
                        &&& turn matches Turn::Act(next, effect)
                        &&& next.iteration == self.iteration
                        &&& next.command == self.command
                        &&& next.rest == self.rest
                        &&& next.phase matches ChecksPhase::Logging { passed: p, output: o }
                        &&& p == passed
                        &&& o@ == told
                        &&& kernel::emits(
                            effect,
                            event::EventView::VerifyCheckFinished {
                                iteration: self.iteration,
                                command: self.command@,
                                passed,
                                output: told,
                            },
                        )
                    },
                    _ => turn matches Turn::End(Err(KernelError::OutOfStep)),
                },
                ChecksPhase::Logging { passed, output } => if passed {
                    enters(self.iteration, text::texts(self.rest@), turn)
                } else {
                    turn == Turn::<Checks, Result<VerifyOutcome, KernelError>>::End(
                        Ok(VerifyOutcome::Failed { command: self.command, output }),
                    )
                },
            }
        }
    }

    /// Takes the checks one reply further.
    pub fn step(self, reply: Reply) -> (turn: Turn<Checks, Result<VerifyOutcome, KernelError>>)
        ensures
            self.steps(reply, turn),
    {
        let Checks { iteration, command, rest, phase } = self;
        match (phase, reply) {
            (_, Reply::Failed(error)) => Turn::End(Err(error)),
            (ChecksPhase::Starting, _) => {
                let output: Vec<u8> = Vec::new();
                Turn::Act(
                    Checks {
                        iteration,
                        command,
                        rest,
                        phase: ChecksPhase::Running { output, exit: None },
                    },
                    Effect::NextOutput,
                )
            },
            (
                ChecksPhase::Running { output, exit },
                Reply::Output(ExecEvent::Stdout(bytes)),
            ) => {
                let mut output = output;
                push_bounded(&mut output, bytes.as_slice());
                Turn::Act(
                    Checks {
                        iteration,
                        command,
                        rest,
                        phase: ChecksPhase::Running { output, exit },
                    },
                    Effect::NextOutput,
                )
            },
            (
                ChecksPhase::Running { output, exit },
                Reply::Output(ExecEvent::Stderr(bytes)),
            ) => {
                let mut output = output;
                push_bounded(&mut output, bytes.as_slice());
                Turn::Act(
                    Checks {
                        iteration,
                        command,
                        rest,
                        phase: ChecksPhase::Running { output, exit },
                    },
                    Effect::NextOutput,
                )
            },
            (
                ChecksPhase::Running { output, exit: _ },
                Reply::Output(ExecEvent::Exited(status)),
            ) => Turn::Act(
                Checks {
                    iteration,
                    command,
                    rest,
                    phase: ChecksPhase::Running { output, exit: Some(status) },
                },
                Effect::NextOutput,
            ),
            (ChecksPhase::Running { output, exit }, Reply::OutputEnd) => {
                let passed: bool = sandbox::exited_cleanly(&exit);
                let told: String = if passed {
                    let none = String::new();
                    assert(none@ =~= Seq::empty());
                    none
                } else {
                    let whole = decode_tail(output);
                    tail(whole.as_str())
                };
                let event = RunEvent::VerifyCheckFinished {
                    iteration,
                    command: command.clone(),
                    passed,
                    output: told.clone(),
                };
                Turn::Act(
                    Checks {
                        iteration,
                        command,
                        rest,
                        phase: ChecksPhase::Logging { passed, output: told },
                    },
                    Effect::Emit(event),
                )
            },
            (ChecksPhase::Running { .. }, _) => Turn::End(Err(KernelError::OutOfStep)),
            (ChecksPhase::Logging { passed, output }, _) => if passed {
                enter(iteration, rest)
            } else {
                Turn::End(Ok(VerifyOutcome::Failed { command, output }))
            },
        }
    }
}

/// Checks run in order and stop at the first failure: they pass only where
/// none is left to run, and another one begins only after the one before it
/// has passed and has been logged.
pub proof fn checks_stop_at_the_first_failure(
    before: Checks,
    reply: Reply,
    turn: Turn<Checks, Result<VerifyOutcome, KernelError>>,
)
    requires
        before.steps(reply, turn),
    ensures
        turn matches Turn::End(Ok(outcome)) ==> before.phase is Logging && match outcome {
            VerifyOutcome::Passed => before.phase->passed && before.rest@.len() == 0,
            VerifyOutcome::Skipped => false,
            VerifyOutcome::Failed { command, .. } => !before.phase->passed && command
                == before.command,
        },
        turn matches Turn::Act(next, effect) && (effect is Exec) ==> before.phase is Logging
            && before.phase->passed,
{
}

/// Checks never boot or destroy a sandbox.
pub proof fn checks_mind_their_sandbox(
    before: Checks,
    reply: Reply,
    next: Checks,
    effect: Effect,
)
    requires
        before.steps(reply, Turn::Act(next, effect)),
    ensures
        kernel::stays_inside(effect),
{
}

/// Whether checks that stand at `turn` get `replies`, in order, ask for
/// `effects` and end in `end`.
pub open spec fn plays(
    turn: Turn<Checks, Result<VerifyOutcome, KernelError>>,
    effects: Seq<Effect>,
    replies: Seq<Reply>,
    end: Result<VerifyOutcome, KernelError>,
) -> bool
    decreases replies.len(),
{
    match turn {
        Turn::End(result) => effects.len() == 0 && replies.len() == 0 && result == end,
        Turn::Act(checks, effect) => {
            &&& effects.len() > 0
            &&& replies.len() > 0
            &&& effects[0] == effect
            &&& exists|next: Turn<Checks, Result<VerifyOutcome, KernelError>>| #[trigger]
                checks.steps(replies[0], next) && plays(
                    next,
                    effects.skip(1),
                    replies.skip(1),
                    end,
                )
        },
    }
}

/// One check's verdict as it is logged.
#[verifier::ext_equal]
pub ghost struct CheckView {
    pub iteration: u32,
    pub command: Seq<char>,
    pub passed: bool,
    pub output: Seq<char>,
}

/// The verdicts on checks among some events, in order.
pub open spec fn verdicts(events: Seq<event::EventView>) -> Seq<CheckView>
    decreases events.len(),
{
    if events.len() == 0 {
        Seq::empty()
    } else {
        match events.last() {
            event::EventView::VerifyCheckFinished {
                iteration,
                command,
                passed,
                output,
            } => verdicts(events.drop_last()).push(
                CheckView { iteration, command, passed, output },
            ),
            _ => verdicts(events.drop_last()),
        }
    }
}

/// The argument vectors that run command lines through a shell.
pub open spec fn shelled(commands: Seq<Seq<char>>) -> Seq<Seq<Seq<char>>> {
    commands.map_values(|command: Seq<char>| seq!["sh"@, "-c"@, command])
}

/// The verdicts on checks that all passed.
pub open spec fn all_passed(iteration: u32, commands: Seq<Seq<char>>) -> Seq<CheckView> {
    commands.map_values(
        |command: Seq<char>|
            CheckView { iteration, command, passed: true, output: Seq::empty() },
    )
}

/// Whether a verdict is the one on a command that ended so: it passed where
/// the command ended with code 0, and a failure tells the last characters of
/// what the command printed.
pub open spec fn judges(verdict: CheckView, end: trace::CommandEnd) -> bool {
    &&& verdict.passed == end.clean
    &&& verdict.passed ==> verdict.output.len() == 0
    &&& !verdict.passed && valid_utf8(end.output) ==> {
        let said = decode_utf8(end.output);
        verdict.output == if said.len() > 4000 {
            CUT_MARK@ + said.skip(said.len() - 4000)
        } else {
            said
        }
    }
}

/// Whether the checks `all` have run as they are to: up to the first that
/// failed, in order, each through a shell, and each judged on the log by how
/// it ended. `run` are the commands that were started, `told` the verdicts
/// that were logged, and `ended` how the commands ended.
pub open spec fn ran(
    all: Seq<Seq<char>>,
    iteration: u32,
    run: Seq<Seq<Seq<char>>>,
    told: Seq<CheckView>,
    ended: Seq<trace::CommandEnd>,
    outcome: VerifyOutcome,
) -> bool {
    &&& told.len() == ended.len()
    &&& forall|i: int| 0 <= i < told.len() ==> judges(#[trigger] told[i], ended[i])
    &&& match outcome {
        VerifyOutcome::Passed => {
            &&& run == shelled(all)
            &&& told == all_passed(iteration, all)
        },
        VerifyOutcome::Failed { command, output } => {
            &&& 0 < told.len() <= all.len()
            &&& command@ == all[told.len() - 1]
            &&& run == shelled(all.take(told.len() as int))
            &&& told.drop_last() == all_passed(iteration, all.take(told.len() - 1))
            &&& told.last() == (CheckView {
                iteration,
                command: command@,
                passed: false,
                output: output@,
            })
        },
        VerifyOutcome::Skipped => false,
    }
}

/// Whether `end` is how the checks `all` may end once `effects` and `replies`
/// went to and fro: as they ran, or with an error that is the host's.
pub open spec fn ended_well(
    all: Seq<Seq<char>>,
    iteration: u32,
    effects: Seq<Effect>,
    replies: Seq<Reply>,
    end: Result<VerifyOutcome, KernelError>,
) -> bool {
    match end {
        Ok(outcome) => ran(
            all,
            iteration,
            trace::executed(effects),
            verdicts(trace::logged(effects)),
            trace::ends(effects, replies),
            outcome,
        ),
        Err(error) => replies.len() > 0 && trace::is_the_hosts(
            effects[replies.len() - 1],
            replies.last(),
            error,
        ),
    }
}

/// Whether running checks stand where `run`, `told` and `ended` say that they
/// have come, having asked for `asked`; the running one ended with `exit`, as
/// far as it has, and has printed `printed`.
pub open spec fn underway(
    checks: Checks,
    all: Seq<Seq<char>>,
    iteration: u32,
    run: Seq<Seq<Seq<char>>>,
    told: Seq<CheckView>,
    ended: Seq<trace::CommandEnd>,
    asked: Effect,
    exit: Option<ExitStatus>,
    printed: Seq<u8>,
) -> bool {
    let n = all.len() - 1 - checks.rest@.len();
    let done = all_passed(iteration, all.take(n));
    &&& 0 <= n < all.len()
    &&& checks.iteration == iteration
    &&& checks.command@ == all[n]
    &&& text::texts(checks.rest@) == all.skip(n + 1)
    &&& run == shelled(all.take(n + 1))
    &&& told.len() == ended.len()
    &&& forall|i: int| 0 <= i < told.len() ==> judges(#[trigger] told[i], ended[i])
    &&& match checks.phase {
        ChecksPhase::Starting => told == done && (asked matches Effect::Exec(spec)
            && spec.cwd is None),
        ChecksPhase::Running { output, exit: heard } => {
            &&& told == done
            &&& asked is NextOutput
            &&& heard == exit
            &&& output@ == bounded(printed)
        },
        ChecksPhase::Logging { passed, output } => {
            &&& asked is Emit
            &&& told == done.push(
                CheckView { iteration, command: checks.command@, passed, output: output@ },
            )
        },
    }
}

/// The verdict that an effect logs, if it logs one.
pub open spec fn told_by(effect: Effect) -> Seq<CheckView> {
    verdicts(trace::logs(effect))
}

/// Whether `turn` is one at which running checks may stand, `reply` being the
/// last answer, to `asked`.
pub open spec fn standing(
    turn: Turn<Checks, Result<VerifyOutcome, KernelError>>,
    all: Seq<Seq<char>>,
    iteration: u32,
    run: Seq<Seq<Seq<char>>>,
    told: Seq<CheckView>,
    ended: Seq<trace::CommandEnd>,
    asked: Effect,
    reply: Reply,
    exit: Option<ExitStatus>,
    printed: Seq<u8>,
) -> bool {
    match turn {
        Turn::Act(next, effect) => underway(
            next,
            all,
            iteration,
            run + trace::starts(effect),
            told + told_by(effect),
            ended,
            effect,
            exit,
            printed,
        ),
        Turn::End(Ok(outcome)) => ran(all, iteration, run, told, ended, outcome),
        Turn::End(Err(error)) => trace::is_the_hosts(asked, reply, error),
    }
}

/// What an effect tells of a check.
pub proof fn lemma_told_by(effect: Effect)
    ensures
        told_by(effect) == match effect {
            Effect::Emit(event) => match event@ {
                event::EventView::VerifyCheckFinished {
                    iteration,
                    command,
                    passed,
                    output,
                } => seq![CheckView { iteration, command, passed, output }],
                _ => Seq::empty(),
            },
            _ => Seq::empty(),
        },
{
    reveal_with_fuel(verdicts, 3);
    let events = trace::logs(effect);
    if events.len() > 0 {
        assert(events.drop_last() =~= Seq::empty());
        if let event::EventView::VerifyCheckFinished { iteration, command, passed, output } =
            events.last() {
            assert(verdicts(events) =~= seq![CheckView { iteration, command, passed, output }]);
        }
    }
}

/// The first of the checks that are left begins after those before it have
/// passed.
pub proof fn lemma_enters(
    turn: Turn<Checks, Result<VerifyOutcome, KernelError>>,
    all: Seq<Seq<char>>,
    n: int,
    iteration: u32,
    run: Seq<Seq<Seq<char>>>,
    told: Seq<CheckView>,
    ended: Seq<trace::CommandEnd>,
    asked: Effect,
    reply: Reply,
    exit: Option<ExitStatus>,
    printed: Seq<u8>,
)
    requires
        0 <= n <= all.len(),
        enters(iteration, all.skip(n), turn),
        run == shelled(all.take(n)),
        told == all_passed(iteration, all.take(n)),
        told.len() == ended.len(),
        forall|i: int| 0 <= i < told.len() ==> judges(#[trigger] told[i], ended[i]),
    ensures
        standing(turn, all, iteration, run, told, ended, asked, reply, exit, printed),
{
    match turn {
        Turn::Act(next, effect) => {
            lemma_told_by(effect);
            let rest = all.skip(n);
            assert(rest.len() > 0 && rest[0] == all[n]);
            assert(rest.skip(1) =~= all.skip(n + 1));
            assert(text::texts(next.rest@).len() == next.rest@.len());
            assert(all.len() - 1 - next.rest@.len() == n);
            assert(run + trace::starts(effect) =~= shelled(all.take(n + 1)));
            assert(told + told_by(effect) =~= told);
        },
        Turn::End(_) => {
            if all.skip(n).len() == 0 {
                assert(all.take(n) =~= all);
            }
        },
    }
}

/// One step of running checks, seen from what has been run, told and ended.
pub proof fn lemma_check_step(
    checks: Checks,
    reply: Reply,
    turn: Turn<Checks, Result<VerifyOutcome, KernelError>>,
    all: Seq<Seq<char>>,
    iteration: u32,
    run: Seq<Seq<Seq<char>>>,
    told: Seq<CheckView>,
    ended: Seq<trace::CommandEnd>,
    asked: Effect,
    exit: Option<ExitStatus>,
    printed: Seq<u8>,
)
    requires
        underway(checks, all, iteration, run, told, ended, asked, exit, printed),
        checks.steps(reply, turn),
    ensures
        standing(
            turn,
            all,
            iteration,
            run,
            told,
            ended + trace::ended_by(exit, printed, asked, reply),
            asked,
            reply,
            trace::exit_after(exit, asked, reply),
            trace::printed_after(printed, asked, reply),
        ),
        turn is Act ==> kernel::stays_inside(turn->Act_1),
{
    let n = all.len() - 1 - checks.rest@.len();
    let by = trace::ended_by(exit, printed, asked, reply);
    if !(reply is Failed) {
        if let Turn::Act(next, effect) = turn {
            lemma_told_by(effect);
        }
        match checks.phase {
            ChecksPhase::Starting => {
                let (next, effect) = (turn->Act_0, turn->Act_1);
                assert(run + trace::starts(effect) =~= run);
                assert(told + told_by(effect) =~= told);
                assert(ended + by =~= ended);
                assert(bounded(Seq::<u8>::empty()) == Seq::<u8>::empty());
            },
            ChecksPhase::Running { output, exit: heard } => {
                if let Reply::Output(said) = reply {
                    let effect = turn->Act_1;
                    assert(run + trace::starts(effect) =~= run);
                    assert(told + told_by(effect) =~= told);
                    assert(ended + by =~= ended);
                    match said {
                        ExecEvent::Stdout(bytes) => {
                            bounding_chunk_by_chunk_is_bounding(printed, bytes@);
                        },
                        ExecEvent::Stderr(bytes) => {
                            bounding_chunk_by_chunk_is_bounding(printed, bytes@);
                        },
                        _ => {},
                    }
                }
                if reply is OutputEnd {
                    let (next, effect) = (turn->Act_0, turn->Act_1);
                    let end = trace::CommandEnd {
                        clean: exit matches Some(status) && status.code == Some(0i32),
                        output: printed,
                    };
                    assert(by =~= seq![end]);
                    assert(run + trace::starts(effect) =~= run);
                    let verdict = CheckView {
                        iteration,
                        command: checks.command@,
                        passed: next.phase->passed,
                        output: next.phase->Logging_output@,
                    };
                    assert(told + told_by(effect) =~= told.push(verdict));
                    assert(ended + by =~= ended.push(end));
                    assert(judges(verdict, end)) by {
                        if !verdict.passed && valid_utf8(printed) {
                            the_byte_cap_does_not_show(printed);
                        }
                    }
                }
            },
            ChecksPhase::Logging { passed, output } => {
                assert(ended + by =~= ended);
                if passed {
                    assert(judges(told[n], ended[n]));
                    assert(told[n].output =~= Seq::empty());
                    assert(told =~= all_passed(iteration, all.take(n + 1)));
                    lemma_enters(
                        turn,
                        all,
                        n + 1,
                        iteration,
                        run,
                        told,
                        ended,
                        asked,
                        reply,
                        trace::exit_after(exit, asked, reply),
                        trace::printed_after(printed, asked, reply),
                    );
                } else {
                    assert(told.drop_last() =~= all_passed(iteration, all.take(n)));
                    assert(told.len() == n + 1);
                }
            },
        }
    }
}

proof fn lemma_plays(
    turn: Turn<Checks, Result<VerifyOutcome, KernelError>>,
    all: Seq<Seq<char>>,
    iteration: u32,
    past: Seq<Effect>,
    heard: Seq<Reply>,
    effects: Seq<Effect>,
    replies: Seq<Reply>,
    end: Result<VerifyOutcome, KernelError>,
)
    requires
        past.len() == heard.len(),
        past.len() == 0 ==> !(turn is End && turn->End_0 is Err),
        standing(
            turn,
            all,
            iteration,
            trace::executed(past),
            verdicts(trace::logged(past)),
            trace::ends(past, heard),
            past.last(),
            heard.last(),
            trace::exit_of(past, heard),
            trace::printed_by(past, heard),
        ),
        plays(turn, effects, replies, end),
    ensures
        ended_well(
            all,
            iteration,
            past + effects,
            heard + replies,
            end,
        ),
    decreases replies.len(),
{
    match turn {
        Turn::End(_) => {
            assert(past + effects =~= past);
            assert(heard + replies =~= heard);
        },
        Turn::Act(checks, effect) => {
            let next = choose|next: Turn<Checks, Result<VerifyOutcome, KernelError>>| #[trigger]
                checks.steps(replies[0], next) && plays(
                    next,
                    effects.skip(1),
                    replies.skip(1),
                    end,
                );
            let longer = past.push(effect);
            trace::lemma_one_more(past, effect);
            lemma_verdicts_join(trace::logged(past), trace::logs(effect));
            trace::lemma_later_effects(past, heard, effect);
            lemma_check_step(
                checks,
                replies[0],
                next,
                all,
                iteration,
                trace::executed(longer),
                verdicts(trace::logged(longer)),
                trace::ends(longer, heard),
                effect,
                trace::exit_of(longer, heard),
                trace::printed_by(longer, heard),
            );
            trace::lemma_one_more_reply(longer, heard, replies[0]);
            lemma_plays(
                next,
                all,
                iteration,
                longer,
                heard.push(replies[0]),
                effects.skip(1),
                replies.skip(1),
                end,
            );
            assert(longer + effects.skip(1) =~= past + effects);
            assert(heard.push(replies[0]) + replies.skip(1) =~= heard + replies);
        },
    }
}

/// The verdicts among some events and more.
pub proof fn lemma_verdicts_join(a: Seq<event::EventView>, b: Seq<event::EventView>)
    ensures
        verdicts(a + b) == verdicts(a) + verdicts(b),
    decreases b.len(),
{
    if b.len() == 0 {
        assert(a + b =~= a);
        assert(verdicts(a) + verdicts(b) =~= verdicts(a));
    } else {
        lemma_verdicts_join(a, b.drop_last());
        assert((a + b).drop_last() =~= a + b.drop_last());
        assert((a + b).last() == b.last());
        assert(verdicts(a + b) =~= verdicts(a) + verdicts(b));
    }
}

/// The flow's checks run in order and up to the first failure, and no
/// further: they come out as passed only where every one of them was run
/// through a shell and ended with code 0, and as failed over the first that
/// did not, whose last words go along. Each that ran is judged on the log.
pub proof fn every_check_runs_up_to_the_first_failure(
    ctx: KernelContext,
    iteration: u32,
    turn: Turn<Checks, Result<VerifyOutcome, KernelError>>,
    effects: Seq<Effect>,
    replies: Seq<Reply>,
    end: Result<VerifyOutcome, KernelError>,
)
    requires
        enters(iteration, text::texts(ctx.verify.checks@), turn),
        plays(turn, effects, replies, end),
    ensures
        ended_well(text::texts(ctx.verify.checks@), iteration, effects, replies, end),
{
    let all = text::texts(ctx.verify.checks@);
    let none = Seq::<Effect>::empty();
    let unheard = Seq::<Reply>::empty();
    assert(all.skip(0) =~= all);
    assert(shelled(all.take(0)) =~= trace::executed(none));
    assert(all_passed(iteration, all.take(0)) =~= verdicts(trace::logged(none)));
    lemma_enters(
        turn,
        all,
        0,
        iteration,
        trace::executed(none),
        verdicts(trace::logged(none)),
        trace::ends(none, unheard),
        none.last(),
        unheard.last(),
        trace::exit_of(none, unheard),
        trace::printed_by(none, unheard),
    );
    lemma_plays(turn, all, iteration, none, unheard, effects, replies, end);
    assert(none + effects =~= effects);
    assert(unheard + replies =~= replies);
}

} // verus!
