//! What every kernel works through: the context a run is given, the effects
//! a kernel asks of its host, the replies it gets, and the shape of a
//! machine that alternates the two.
//!
//! A kernel never performs an effect itself. It decides, from where it
//! stands and what the host answered, which effect comes next; the host
//! performs it and answers. The whole loop can so be driven in-process: no
//! VMs, no LLMs, no network.

use crate::agents::Agent;
use crate::budget::{Budgets, Duration};
use crate::event::{self, EventEnvelope, RunEvent};
use crate::flow::{PromptsConfig, VerifyConfig};
use crate::notify::{Notification, NotifierError};
use crate::run::RunId;
use crate::run_spawner::{ChildRunSpec, RunSpawnerError};
use crate::sandbox::{ExecEvent, ExecSpec, SandboxError, SandboxSpec};
use crate::secrets::{self, SecretEnv, SecretsError};
use crate::sink::EventSinkError;
use crate::workspace::{self, Workspace, WorkspaceError};
use vstd::prelude::*;

verus! {

/// Everything a kernel may know of its run.
pub struct KernelContext {
    pub run_id: RunId,
    pub budgets: Budgets,
    /// The replayed event log when the host relaunches a paused run. The
    /// owning kernel derives its resume point from it.
    pub replay: Option<Vec<EventEnvelope>>,
    /// The verify checks an iteration must pass to count as progress, and
    /// what to do when they keep failing.
    pub verify: VerifyConfig,
    /// The flow's configured prompt slots. Core slots override shipped
    /// defaults; optional slots enable their stage.
    pub prompts: PromptsConfig,
    /// What a parent run assigned to this one.
    pub scope: Option<String>,
    /// Prepared before the kernel starts; the kernel mounts it and
    /// checkpoints it.
    pub workspace: Workspace,
    pub agent: Agent,
    /// The run's secrets, already resolved: injected into every sandbox and
    /// scrubbed back out of what comes off the agent.
    pub secrets: SecretEnv,
}

impl KernelContext {
    /// What every sandbox of the run is built from: the workspace, and the
    /// secrets resolved once, at submit.
    pub fn sandbox_spec(&self) -> (r: SandboxSpec)
        ensures
            boots_from(r, *self),
    {
        SandboxSpec {
            workspace: self.workspace.mount(),
            env: secrets::copied_vars(self.secrets.vars()),
        }
    }
}

/// Whether a sandbox built from `spec` has the run's workspace mounted and
/// the run's secrets in its environment.
pub open spec fn boots_from(spec: SandboxSpec, ctx: KernelContext) -> bool {
    &&& spec.workspace.host@ == ctx.workspace.root@
    &&& spec.workspace.guest@ == workspace::GUEST_ROOT@
    &&& secrets::vars_view(spec.env@) == ctx.secrets.env()
}

/// An infrastructure failure the kernel cannot recover from, distinct from a
/// run that ends badly.
#[derive(Debug, PartialEq, Eq)]
pub enum KernelError {
    Sandbox(SandboxError),
    Events(EventSinkError),
    Notifier(NotifierError),
    Secrets(SecretsError),
    /// Host-side workspace work: clone, branch, checkpoint.
    Workspace(WorkspaceError),
    Spawner(RunSpawnerError),
    /// The replayed log does not describe a valid resume point for the
    /// selected kernel.
    Resume(String),
    /// The host answered something else than what it was asked.
    OutOfStep,
}

impl KernelError {
    /// The message the failure is told by.
    pub open spec fn message(self) -> Seq<char> {
        match self {
            KernelError::Sandbox(error) => error.message(),
            KernelError::Events(error) => "event sink failure: "@ + error.0@,
            KernelError::Notifier(error) => error.message(),
            KernelError::Secrets(error) => error.message(),
            KernelError::Workspace(error) => "workspace failure: "@ + error.0@,
            KernelError::Spawner(error) => error.message(),
            KernelError::Resume(detail) => "cannot resume run: "@ + detail@,
            KernelError::OutOfStep => "the host answered out of step"@,
        }
    }

    pub fn to_text(&self) -> (s: String)
        ensures
            s@ == self.message(),
    {
        match self {
            KernelError::Sandbox(error) => error.to_text(),
            KernelError::Events(error) => error.to_text(),
            KernelError::Notifier(error) => error.to_text(),
            KernelError::Secrets(error) => error.to_text(),
            KernelError::Workspace(error) => error.to_text(),
            KernelError::Spawner(error) => error.to_text(),
            KernelError::Resume(detail) => {
                let mut s = "cannot resume run: ".to_owned();
                s.append(detail.as_str());
                s
            },
            KernelError::OutOfStep => "the host answered out of step".to_owned(),
        }
    }
}

/// What a kernel asks of its host.
pub enum Effect {
    /// Append one event to the run's log.
    Emit(RunEvent),
    /// Read the commit the workspace stands at.
    Head,
    /// Commit everything but scratch, under a message.
    Checkpoint(String),
    /// Look whether the run has been cancelled.
    PollCancel,
    /// Boot a fresh sandbox from `spec`. Until it is to be destroyed, the
    /// host answers a cancelled run and a passed deadline as soon as they
    /// happen, in place of whatever was asked.
    Boot { spec: SandboxSpec, deadline: Option<Duration> },
    /// Destroy the sandbox.
    Destroy,
    /// Remove a file of the sandbox, if it is there.
    RemoveFile(String),
    /// Read a file of the sandbox.
    ReadFile(String),
    /// Read a text file of the host.
    ReadHostText(String),
    /// Start a command in the sandbox.
    Exec(ExecSpec),
    /// Wait for the next piece of the running command's life.
    NextOutput,
    /// Tell the human, as well as can be.
    Notify(Notification),
    /// Submit a child run.
    Spawn(ChildRunSpec),
    /// Start watching child runs.
    Watch(Vec<RunId>),
    /// Wait until the next watched child run has settled.
    NextSettled,
}

/// What the host answers.
#[derive(Debug, PartialEq, Eq)]
pub enum Reply {
    /// The effect was performed and has nothing to tell.
    Done,
    /// The commit the workspace stands at.
    Head(String),
    /// The new commit; none where there was nothing to commit.
    Committed(Option<String>),
    /// The bytes of a file.
    File(Vec<u8>),
    /// The text of a file.
    Text(String),
    /// A piece of a running command's life.
    Output(ExecEvent),
    /// The running command's life is over.
    OutputEnd,
    /// The identity of a submitted child run.
    Spawned(RunId),
    /// A child run is no longer running; its events account for it.
    Settled(RunId, Vec<EventEnvelope>),
    /// A child run can no longer be observed.
    WatchLost(RunSpawnerError),
    /// Every watched child run has settled.
    AllSettled,
    /// The run has been cancelled.
    Cancelled,
    /// The sandbox's deadline has passed.
    TimedOut,
    /// The effect failed.
    Failed(KernelError),
}

/// Where a machine stands after a reply: it asks for the next effect, or it
/// has ended.
pub enum Turn<S, T> {
    Act(S, Effect),
    End(T),
}

/// Whether an effect appends the event `e`.
pub open spec fn emits(effect: Effect, e: event::EventView) -> bool {
    effect matches Effect::Emit(emitted) && emitted@ == e
}

/// Whether an effect is one that work inside a sandbox may ask for: booting
/// and destroying the sandbox are not its business.
pub open spec fn stays_inside(effect: Effect) -> bool {
    !(effect is Boot) && !(effect is Destroy) && !(effect is PollCancel)
}

/// Work that runs while a sandbox is alive. Its first reply tells it that
/// the sandbox has booted.
pub trait Work: Sized {
    /// What the work is about. It outlives the work.
    type Brief;

    /// What the work comes to.
    type Out;

    /// Whether `turn` is where the work stands after `reply`.
    spec fn steps(
        self,
        ctx: KernelContext,
        brief: Self::Brief,
        reply: Reply,
        turn: Turn<Self, Result<Self::Out, KernelError>>,
    ) -> bool;

    /// Takes the work one reply further.
    fn step(self, ctx: &KernelContext, brief: &Self::Brief, reply: Reply) -> (turn: Turn<
        Self,
        Result<Self::Out, KernelError>,
    >)
        ensures
            self.steps(*ctx, *brief, reply, turn),
    ;

    /// Work never boots or destroys a sandbox.
    proof fn minds_its_sandbox(
        self,
        ctx: KernelContext,
        brief: Self::Brief,
        reply: Reply,
        next: Self,
        effect: Effect,
    )
        requires
            self.steps(ctx, brief, reply, Turn::Act(next, effect)),
        ensures
            stays_inside(effect),
    ;
}

} // verus!
