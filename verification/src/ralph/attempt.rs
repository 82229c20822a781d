//! One agent attempt of the single-prompt loop, and the way of an iteration
//! to its report: a full attempt, and the one repair re-prompt that a
//! rejected report earns.

use crate::agent::AgentAdapter;
use crate::event::{self, OutputStream, RunEvent};
use crate::invocation;
use crate::json;
use crate::kernel::{self, Effect, KernelContext, KernelError, Reply, Turn};
use crate::progress::{self, ProgressReport};
use crate::ralph::frame;
use crate::sandbox::{self, ExecEvent, ExitStatus};
use crate::text;
use crate::utf8;
use crate::workspace::{self, PROGRESS_FILE};
use vstd::prelude::*;

verus! {

/// What one agent attempt left behind.
#[derive(Debug, PartialEq, Eq)]
pub enum AttemptEnd {
    /// The agent exited non-zero or was killed; there is no report to trust.
    Crashed,
    /// The report is missing or malformed; the errors are what the repair
    /// re-prompt carries back.
    Rejected(Vec<String>),
    Reported(ProgressReport),
}

/// Whether `end` is what the raw report comes to.
pub open spec fn reads_as(raw: Seq<u8>, end: AttemptEnd) -> bool {
    if !vstd::utf8::valid_utf8(raw) {
        end matches AttemptEnd::Rejected(errors) && text::texts(errors@)
            == seq!["progress report is not UTF-8: "@ + utf8::utf8_fault(raw)]
    } else {
        let words = vstd::utf8::decode_utf8(raw);
        match end {
            AttemptEnd::Reported(report) => progress::reads_progress(words, Ok(report)),
            AttemptEnd::Rejected(errors) => errors@.len() == 1 && progress::reads_progress(
                words,
                Err(errors@[0]),
            ),
            AttemptEnd::Crashed => false,
        }
    }
}

/// Reads the raw report.
pub fn parse_report(raw: &Vec<u8>) -> (end: AttemptEnd)
    ensures
        reads_as(raw@, end),
{
    match utf8::read_utf8(raw.as_slice()) {
        Err(fault) => {
            let mut error = "progress report is not UTF-8: ".to_owned();
            error.append(fault.as_str());
            let errors = vec![error];
            assert(text::texts(errors@) =~= seq![error@]);
            AttemptEnd::Rejected(errors)
        },
        Ok(words) => match ProgressReport::from_agent_json(words.as_str()) {
            Ok(report) => AttemptEnd::Reported(report),
            Err(error) => AttemptEnd::Rejected(vec![error]),
        },
    }
}

/// Where an attempt stands.
pub enum AttemptPhase {
    /// The agent is being started.
    Starting,
    /// The agent runs.
    Streaming { stdout: String, exit: Option<ExitStatus> },
    /// A chunk of output is being logged.
    Logging { stdout: String, exit: Option<ExitStatus> },
    /// The agent's bill is being logged.
    Billing { clean: bool },
    /// What the agent changed is being committed.
    Saving,
    /// The commit is being logged.
    Recording,
    /// The report is being fetched.
    Fetching,
}

/// One agent attempt: invoke it headless, checkpoint what it changed, collect
/// its report.
pub struct Attempt {
    pub iteration: u32,
    pub phase: AttemptPhase,
}

/// Where an attempt stands after a reply.
pub type AttemptTurn = Turn<Attempt, Result<AttemptEnd, KernelError>>;

/// Begins an attempt.
pub fn attempt(ctx: &KernelContext, iteration: u32, prompt: &str) -> (r: (Attempt, Effect))
    ensures
        r.0 == (Attempt { iteration, phase: AttemptPhase::Starting }),
        invocation::runs_agent(*ctx, prompt@, r.1),
{
    (
        Attempt { iteration, phase: AttemptPhase::Starting },
        Effect::Exec(ctx.agent.invocation(prompt)),
    )
}

/// The message of the commit that an attempt makes.
pub open spec fn attempt_message(iteration: u32) -> Seq<char> {
    "hako: iteration "@ + text::decimal(iteration as nat)
}

/// Where the progress report lies inside the sandbox.
pub open spec fn progress_path() -> Seq<char> {
    workspace::below(workspace::GUEST_ROOT@, PROGRESS_FILE@)
}

impl Attempt {
    /// Whether `turn` hears on, `stdout` collected so far.
    pub open spec fn listens(
        self,
        stdout: Seq<char>,
        exit: Option<ExitStatus>,
        turn: AttemptTurn,
    ) -> bool {
        &&& turn matches Turn::Act(next, effect)
        &&& effect is NextOutput
        &&& next.iteration == self.iteration
        &&& next.phase matches AttemptPhase::Streaming { stdout: kept, exit: ended }
        &&& kept@ == stdout
        &&& ended == exit
    }

    /// Whether `turn` logs a chunk of output before it hears on.
    pub open spec fn logs(
        self,
        stream: OutputStream,
        chunk: Seq<char>,
        stdout: Seq<char>,
        exit: Option<ExitStatus>,
        turn: AttemptTurn,
    ) -> bool {
        &&& turn matches Turn::Act(next, effect)
        &&& kernel::emits(
            effect,
            event::EventView::AgentOutput { iteration: self.iteration, stream, chunk },
        )
        &&& next.iteration == self.iteration
        &&& next.phase matches AttemptPhase::Logging { stdout: kept, exit: ended }
        &&& kept@ == stdout
        &&& ended == exit
    }

    /// Whether `turn` is the one after the agent's end: a bad exit ends the
    /// attempt, a clean one commits what the agent changed.
    pub open spec fn saves(self, clean: bool, turn: AttemptTurn) -> bool {
        if !clean {
            turn == AttemptTurn::End(Ok(AttemptEnd::Crashed))
        } else {
            &&& turn matches Turn::Act(next, effect)
            &&& next == (Attempt { phase: AttemptPhase::Saving, ..self })
            &&& effect matches Effect::Checkpoint(message)
            &&& message@ == attempt_message(self.iteration)
        }
    }

    /// Whether `turn` fetches the report.
    pub open spec fn fetches(self, turn: AttemptTurn) -> bool {
        &&& turn matches Turn::Act(next, effect)
        &&& next == (Attempt { phase: AttemptPhase::Fetching, ..self })
        &&& effect matches Effect::ReadFile(path)
        &&& path@ == progress_path()
    }

    /// Whether `turn` is where the attempt stands after `reply`.
    pub open spec fn steps(self, ctx: KernelContext, reply: Reply, turn: AttemptTurn) -> bool {
        if self.phase is Fetching {
            match reply {
                Reply::File(raw) => exists|end: AttemptEnd| #[trigger]
                    reads_as(raw@, end) && turn == AttemptTurn::End(Ok(end)),
                Reply::Failed(error) => turn matches Turn::End(Ok(AttemptEnd::Rejected(errors)))
                    && text::texts(errors@) == seq![
                    "progress report missing: "@ + error.message(),
                ],
                _ => turn matches Turn::End(Err(KernelError::OutOfStep)),
            }
        } else if reply is Failed {
            turn == AttemptTurn::End(Err(reply->Failed_0))
        } else {
            match self.phase {
                AttemptPhase::Starting => self.listens(Seq::empty(), None, turn),
                AttemptPhase::Streaming { stdout, exit } => match reply {
                    Reply::Output(ExecEvent::Stdout(bytes)) => self.logs(
                        OutputStream::Stdout,
                        utf8::text_of(bytes@),
                        stdout@ + utf8::text_of(bytes@),
                        exit,
                        turn,
                    ),
                    Reply::Output(ExecEvent::Stderr(bytes)) => self.logs(
                        OutputStream::Stderr,
                        utf8::text_of(bytes@),
                        stdout@,
                        exit,
                        turn,
                    ),
                    Reply::Output(ExecEvent::Exited(status)) => self.listens(
                        stdout@,
                        Some(status),
                        turn,
                    ),
                    Reply::OutputEnd => match ctx.agent.bill(stdout@) {
                        Some(usage) => {
                            &&& turn matches Turn::Act(next, effect)
                            &&& next == (Attempt {
                                phase: AttemptPhase::Billing { clean: sandbox::clean_exit(exit) },
                                ..self
                            })
                            &&& kernel::emits(
                                effect,
                                event::EventView::TokensUsed { iteration: self.iteration, usage },
                            )
                        },
                        None => self.saves(sandbox::clean_exit(exit), turn),
                    },
                    _ => turn matches Turn::End(Err(KernelError::OutOfStep)),
                },
                AttemptPhase::Logging { stdout, exit } => self.listens(stdout@, exit, turn),
                AttemptPhase::Billing { clean } => self.saves(clean, turn),
                AttemptPhase::Saving => match reply {
                    Reply::Committed(Some(commit)) => {
                        &&& turn matches Turn::Act(next, effect)
                        &&& next == (Attempt { phase: AttemptPhase::Recording, ..self })
                        &&& kernel::emits(
                            effect,
                            event::EventView::WorkspaceCheckpointed {
                                iteration: self.iteration,
                                commit: commit@,
                            },
                        )
                    },
                    Reply::Committed(None) => self.fetches(turn),
                    _ => turn matches Turn::End(Err(KernelError::OutOfStep)),
                },
                AttemptPhase::Recording => self.fetches(turn),
                AttemptPhase::Fetching => false,
            }
        }
    }

    fn listen(iteration: u32, stdout: String, exit: Option<ExitStatus>) -> (turn: AttemptTurn)
        ensures
            turn == AttemptTurn::Act(
                Attempt { iteration, phase: AttemptPhase::Streaming { stdout, exit } },
                Effect::NextOutput,
            ),
    {
        Turn::Act(
            Attempt { iteration, phase: AttemptPhase::Streaming { stdout, exit } },
            Effect::NextOutput,
        )
    }

    fn save(before: Ghost<Attempt>, iteration: u32, clean: bool) -> (turn: AttemptTurn)
        requires
            before@.iteration == iteration,
        ensures
            before@.saves(clean, turn),
    {
        if !clean {
            return Turn::End(Ok(AttemptEnd::Crashed));
        }
        let mut message = "hako: iteration ".to_owned();
        let number = text::decimal_of(iteration as u64);
        message.append(number.as_str());
        Turn::Act(
            Attempt { iteration, phase: AttemptPhase::Saving },
            Effect::Checkpoint(message),
        )
    }

    fn fetch(before: Ghost<Attempt>, ctx: &KernelContext, iteration: u32) -> (turn: AttemptTurn)
        requires
            before@.iteration == iteration,
        ensures
            before@.fetches(turn),
    {
        Turn::Act(
            Attempt { iteration, phase: AttemptPhase::Fetching },
            Effect::ReadFile(ctx.workspace.guest_progress_path()),
        )
    }

    /// Takes the attempt one reply further.
    pub fn step(self, ctx: &KernelContext, reply: Reply) -> (turn: AttemptTurn)
        ensures
            self.steps(*ctx, reply, turn),
    {
        let ghost before = self;
        let Attempt { iteration, phase } = self;
        match (phase, reply) {
            (AttemptPhase::Fetching, Reply::File(raw)) => Turn::End(Ok(parse_report(&raw))),
            (AttemptPhase::Fetching, Reply::Failed(error)) => {
                let mut message = "progress report missing: ".to_owned();
                let detail = error.to_text();
                message.append(detail.as_str());
                let errors = vec![message];
                assert(text::texts(errors@) =~= seq![message@]);
                Turn::End(Ok(AttemptEnd::Rejected(errors)))
            },
            (AttemptPhase::Fetching, _) => Turn::End(Err(KernelError::OutOfStep)),
            (_, Reply::Failed(error)) => Turn::End(Err(error)),
            (AttemptPhase::Starting, _) => {
                let stdout = String::new();
                assert(stdout@ =~= Seq::empty());
                Attempt::listen(iteration, stdout, None)
            },
            (
                AttemptPhase::Streaming { stdout, exit },
                Reply::Output(ExecEvent::Stdout(bytes)),
            ) => {
                let mut stdout = stdout;
                let chunk = utf8::into_text(bytes);
                stdout.append(chunk.as_str());
                Turn::Act(
                    Attempt { iteration, phase: AttemptPhase::Logging { stdout, exit } },
                    Effect::Emit(
                        RunEvent::AgentOutput { iteration, stream: OutputStream::Stdout, chunk },
                    ),
                )
            },
            (
                AttemptPhase::Streaming { stdout, exit },
                Reply::Output(ExecEvent::Stderr(bytes)),
            ) => {
                let chunk = utf8::into_text(bytes);
                Turn::Act(
                    Attempt { iteration, phase: AttemptPhase::Logging { stdout, exit } },
                    Effect::Emit(
                        RunEvent::AgentOutput { iteration, stream: OutputStream::Stderr, chunk },
                    ),
                )
            },
            (
                AttemptPhase::Streaming { stdout, exit: _ },
                Reply::Output(ExecEvent::Exited(status)),
            ) => Attempt::listen(iteration, stdout, Some(status)),
            (AttemptPhase::Streaming { stdout, exit }, Reply::OutputEnd) => {
                let clean: bool = sandbox::exited_cleanly(&exit);
                match ctx.agent.token_usage(stdout.as_str()) {
                    Some(usage) => Turn::Act(
                        Attempt { iteration, phase: AttemptPhase::Billing { clean } },
                        Effect::Emit(RunEvent::TokensUsed { iteration, usage }),
                    ),
                    None => Attempt::save(Ghost(before), iteration, clean),
                }
            },
            (AttemptPhase::Streaming { .. }, _) => Turn::End(Err(KernelError::OutOfStep)),
            (AttemptPhase::Logging { stdout, exit }, _) => Attempt::listen(
                iteration,
                stdout,
                exit,
            ),
            (AttemptPhase::Billing { clean }, _) => Attempt::save(Ghost(before), iteration, clean),
            (AttemptPhase::Saving, Reply::Committed(Some(commit))) => Turn::Act(
                Attempt { iteration, phase: AttemptPhase::Recording },
                Effect::Emit(RunEvent::WorkspaceCheckpointed { iteration, commit }),
            ),
            (AttemptPhase::Saving, Reply::Committed(None)) => Attempt::fetch(
                Ghost(before),
                ctx,
                iteration,
            ),
            (AttemptPhase::Saving, _) => Turn::End(Err(KernelError::OutOfStep)),
            (AttemptPhase::Recording, _) => Attempt::fetch(Ghost(before), ctx, iteration),
        }
    }
}

/// Where the way to a progress report stands.
pub enum AgentDrivePhase {
    /// The agent works.
    First(Attempt),
    /// Its report was rejected; the rejection is being logged.
    Repairing { prompt: String },
    /// The agent has its one second chance.
    Second(Attempt),
    /// The second report was rejected too; that is being logged.
    GivingUp,
}

/// The way of an iteration to its report. The repair runs in the same
/// sandbox: the workspace already holds the iteration's work, and only the
/// report is being repaired.
pub struct AgentDrive {
    pub iteration: u32,
    pub phase: AgentDrivePhase,
}

/// Where the way to a progress report stands after a reply.
pub type AgentDriveTurn = Turn<AgentDrive, Result<Option<ProgressReport>, KernelError>>;

/// Begins to drive the agent to its report.
pub fn drive_agent(ctx: &KernelContext, iteration: u32, prompt: &str) -> (r: (AgentDrive, Effect))
    ensures
        r.0 == (AgentDrive {
            iteration,
            phase: AgentDrivePhase::First(Attempt { iteration, phase: AttemptPhase::Starting }),
        }),
        invocation::runs_agent(*ctx, prompt@, r.1),
{
    let (attempt, effect) = attempt(ctx, iteration, prompt);
    (AgentDrive { iteration, phase: AgentDrivePhase::First(attempt) }, effect)
}

impl AgentDrive {
    /// Whether `turn` is where the drive stands after its attempt has taken a
    /// turn of its own: every rejection is logged, and only the first earns a
    /// repair.
    pub open spec fn follows(self, inner: AttemptTurn, turn: AgentDriveTurn) -> bool {
        match inner {
            Turn::Act(attempt, effect) => turn == AgentDriveTurn::Act(
                AgentDrive {
                    phase: if self.phase is First {
                        AgentDrivePhase::First(attempt)
                    } else {
                        AgentDrivePhase::Second(attempt)
                    },
                    ..self
                },
                effect,
            ),
            Turn::End(Err(error)) => turn == AgentDriveTurn::End(Err(error)),
            Turn::End(Ok(AttemptEnd::Crashed)) => turn == AgentDriveTurn::End(Ok(None)),
            Turn::End(Ok(AttemptEnd::Reported(report))) => turn == AgentDriveTurn::End(
                Ok(Some(report)),
            ),
            Turn::End(Ok(AttemptEnd::Rejected(errors))) => {
                &&& turn matches Turn::Act(next, effect)
                &&& next.iteration == self.iteration
                &&& kernel::emits(
                    effect,
                    event::EventView::ProgressRejected {
                        iteration: self.iteration,
                        errors: text::texts(errors@),
                    },
                )
                &&& if self.phase is First {
                    next.phase matches AgentDrivePhase::Repairing { prompt } && prompt@
                        == frame::repair_text(text::texts(errors@))
                } else {
                    next.phase is GivingUp
                }
            },
        }
    }

    /// Whether `turn` is where the drive stands after its attempt got `reply`.
    pub open spec fn runs(
        self,
        ctx: KernelContext,
        attempt: Attempt,
        reply: Reply,
        turn: AgentDriveTurn,
    ) -> bool {
        exists|inner: AttemptTurn| #[trigger]
            attempt.steps(ctx, reply, inner) && self.follows(inner, turn)
    }

    /// Whether `turn` is where the drive stands after `reply`.
    pub open spec fn steps(self, ctx: KernelContext, reply: Reply, turn: AgentDriveTurn) -> bool {
        match self.phase {
            AgentDrivePhase::First(attempt) => self.runs(ctx, attempt, reply, turn),
            AgentDrivePhase::Second(attempt) => self.runs(ctx, attempt, reply, turn),
            AgentDrivePhase::Repairing { prompt } => if reply is Failed {
                turn == AgentDriveTurn::End(Err(reply->Failed_0))
            } else {
                &&& turn matches Turn::Act(next, effect)
                &&& next == (AgentDrive {
                    phase: AgentDrivePhase::Second(
                        Attempt { iteration: self.iteration, phase: AttemptPhase::Starting },
                    ),
                    ..self
                })
                &&& invocation::runs_agent(ctx, prompt@, effect)
            },
            AgentDrivePhase::GivingUp => if reply is Failed {
                turn == AgentDriveTurn::End(Err(reply->Failed_0))
            } else {
                turn == AgentDriveTurn::End(Ok(None))
            },
        }
    }

    fn follow(
        before: Ghost<AgentDrive>,
        iteration: u32,
        first: bool,
        ctx: &KernelContext,
        attempt: Attempt,
        reply: Reply,
    ) -> (turn: AgentDriveTurn)
        requires
            before@.iteration == iteration,
            before@.phase is First == first,
        ensures
            before@.runs(*ctx, attempt, reply, turn),
    {
        match attempt.step(ctx, reply) {
            Turn::Act(attempt, effect) => {
                let phase: AgentDrivePhase = if first {
                    AgentDrivePhase::First(attempt)
                } else {
                    AgentDrivePhase::Second(attempt)
                };
                Turn::Act(AgentDrive { iteration, phase }, effect)
            },
            Turn::End(Err(error)) => Turn::End(Err(error)),
            Turn::End(Ok(AttemptEnd::Crashed)) => Turn::End(Ok(None)),
            Turn::End(Ok(AttemptEnd::Reported(report))) => Turn::End(Ok(Some(report))),
            Turn::End(Ok(AttemptEnd::Rejected(errors))) => {
                let phase: AgentDrivePhase = if first {
                    AgentDrivePhase::Repairing { prompt: frame::repair(&errors) }
                } else {
                    AgentDrivePhase::GivingUp
                };
                Turn::Act(
                    AgentDrive { iteration, phase },
                    Effect::Emit(RunEvent::ProgressRejected { iteration, errors }),
                )
            },
        }
    }

    /// Takes the drive one reply further.
    pub fn step(self, ctx: &KernelContext, reply: Reply) -> (turn: AgentDriveTurn)
        ensures
            self.steps(*ctx, reply, turn),
    {
        let ghost before = self;
        let AgentDrive { iteration, phase } = self;
        match phase {
            AgentDrivePhase::First(attempt) => AgentDrive::follow(
                Ghost(before),
                iteration,
                true,
                ctx,
                attempt,
                reply,
            ),
            AgentDrivePhase::Second(attempt) => AgentDrive::follow(
                Ghost(before),
                iteration,
                false,
                ctx,
                attempt,
                reply,
            ),
            AgentDrivePhase::Repairing { prompt } => match reply {
                Reply::Failed(error) => Turn::End(Err(error)),
                _ => {
                    let (attempt, effect) = attempt(ctx, iteration, prompt.as_str());
                    Turn::Act(
                        AgentDrive { iteration, phase: AgentDrivePhase::Second(attempt) },
                        effect,
                    )
                },
            },
            AgentDrivePhase::GivingUp => match reply {
                Reply::Failed(error) => Turn::End(Err(error)),
                _ => Turn::End(Ok(None)),
            },
        }
    }
}

/// A rejected progress report earns exactly one repair: a second chance comes
/// only after the first rejection was logged, and never a third.
pub proof fn a_rejected_progress_report_earns_one_repair(
    before: AgentDrive,
    ctx: KernelContext,
    reply: Reply,
    next: AgentDrive,
    effect: Effect,
)
    requires
        before.steps(ctx, reply, Turn::Act(next, effect)),
    ensures
        before.phase is Repairing ==> next.phase is Second,
        before.phase is Second ==> next.phase is Second || next.phase is GivingUp,
        next.phase is Second ==> before.phase is Repairing || before.phase is Second,
        !(before.phase is GivingUp),
{
}

/// Driving an agent to its report never boots or destroys a sandbox.
pub proof fn an_agent_drive_minds_its_sandbox(
    before: AgentDrive,
    ctx: KernelContext,
    reply: Reply,
    next: AgentDrive,
    effect: Effect,
)
    requires
        before.steps(ctx, reply, Turn::Act(next, effect)),
    ensures
        kernel::stays_inside(effect),
{
}

} // verus!
