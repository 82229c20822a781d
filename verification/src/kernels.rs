//! The kernels a flow can select, behind one door: which loop a run follows
//! is decided once, by name, and driven alike from there on.

use crate::budget::{BudgetUsage, Duration};
use crate::fanout::run::{FanoutKernel, FanoutRun, FanoutTurn};
use crate::flow::KernelName;
use crate::kernel::{Effect, KernelContext, KernelError, Reply, Turn};
use crate::pipeline::run::{PipelineKernel, PipelineRun, PipelineTurn};
use crate::ralph::run::{RalphKernel, RalphRun, RalphTurn, Resume};
use crate::run::RunOutcome;
use vstd::prelude::*;

verus! {

/// A loop pattern. Kernels own all control flow (iterate, verify, retry,
/// stop), leaving flow files nothing to program.
#[derive(Debug, Clone, Copy, PartialEq, Eq)]
pub enum Kernel {
    Pipeline(PipelineKernel),
    Fanout(FanoutKernel),
    Ralph(RalphKernel),
}

impl Kernel {
    /// The name flows select the kernel by.
    pub open spec fn known_as(self) -> KernelName {
        match self {
            Kernel::Pipeline(_) => KernelName::Pipeline,
            Kernel::Fanout(_) => KernelName::Fanout,
            Kernel::Ralph(_) => KernelName::Ralph,
        }
    }
}

/// The kernel a flow's `[loop]` table selects. Infallible: the kernel set is
/// closed and every name it admits has a kernel.
pub fn resolve(name: KernelName) -> (r: Kernel)
    ensures
        r.known_as() == name,
{
    match name {
        KernelName::Pipeline => Kernel::Pipeline(PipelineKernel),
        KernelName::Fanout => Kernel::Fanout(FanoutKernel),
        KernelName::Ralph => Kernel::Ralph(RalphKernel),
    }
}

/// A run of any kernel. The single-prompt loop keeps no books of its own.
pub enum KernelRun {
    Pipeline(PipelineRun),
    Fanout(FanoutRun),
    Ralph(RalphRun, BudgetUsage),
}

/// Where a run stands after a reply; a run that has ended gives its books
/// back.
pub type KernelTurn = Turn<KernelRun, (Result<RunOutcome, KernelError>, BudgetUsage)>;

/// A turn of the pipeline as a turn of its kernel's run.
pub open spec fn of_pipeline(turn: PipelineTurn) -> KernelTurn {
    match turn {
        Turn::Act(run, effect) => KernelTurn::Act(KernelRun::Pipeline(run), effect),
        Turn::End(end) => KernelTurn::End(end),
    }
}

/// A turn of the fanout as a turn of its kernel's run.
pub open spec fn of_fanout(turn: FanoutTurn) -> KernelTurn {
    match turn {
        Turn::Act(run, effect) => KernelTurn::Act(KernelRun::Fanout(run), effect),
        Turn::End(end) => KernelTurn::End(end),
    }
}

/// A turn of the single-prompt loop as a turn of its kernel's run.
pub open spec fn of_ralph(turn: RalphTurn, usage: BudgetUsage) -> KernelTurn {
    match turn {
        Turn::Act(run, effect) => KernelTurn::Act(KernelRun::Ralph(run, usage), effect),
        Turn::End(result) => KernelTurn::End((result, usage)),
    }
}

impl Kernel {
    /// Whether `turn` is how a run of the kernel is launched.
    pub open spec fn launches(
        self,
        ctx: KernelContext,
        usage: BudgetUsage,
        now: Duration,
        resume: Option<Resume>,
        turn: KernelTurn,
    ) -> bool {
        match self {
            Kernel::Pipeline(_) => exists|inner: PipelineTurn| #[trigger]
                crate::pipeline::run::launches(ctx, usage, now, inner) && turn == of_pipeline(
                    inner,
                ),
            Kernel::Fanout(_) => exists|inner: FanoutTurn| #[trigger]
                crate::fanout::run::launches(ctx, usage, now, inner) && turn == of_fanout(inner),
            Kernel::Ralph(_) => {
                &&& turn matches Turn::Act(begun, effect)
                &&& begun matches KernelRun::Ralph(run, kept)
                &&& kept == usage
                &&& crate::ralph::run::launches(ctx, resume, run, effect)
            },
        }
    }

    /// Begins a run at the reading `now` of the host's clock. What the host
    /// says of a pause reaches the single-prompt loop; the other kernels read
    /// it off the replayed log.
    pub fn run(
        &self,
        ctx: &KernelContext,
        usage: BudgetUsage,
        now: Duration,
        resume: Option<Resume>,
    ) -> (turn: KernelTurn)
        ensures
            self.launches(*ctx, usage, now, resume, turn),
    {
        match self {
            Kernel::Pipeline(kernel) => match kernel.run(ctx, usage, now) {
                Turn::Act(run, effect) => Turn::Act(KernelRun::Pipeline(run), effect),
                Turn::End(end) => Turn::End(end),
            },
            Kernel::Fanout(kernel) => match kernel.run(ctx, usage, now) {
                Turn::Act(run, effect) => Turn::Act(KernelRun::Fanout(run), effect),
                Turn::End(end) => Turn::End(end),
            },
            Kernel::Ralph(kernel) => {
                let (run, effect) = kernel.run(ctx, resume);
                Turn::Act(KernelRun::Ralph(run, usage), effect)
            },
        }
    }
}

impl KernelRun {
    /// Whether `turn` is where the run stands after `reply`, at the reading
    /// `now`.
    pub open spec fn steps(
        self,
        ctx: KernelContext,
        now: Duration,
        reply: Reply,
        turn: KernelTurn,
    ) -> bool {
        match self {
            KernelRun::Pipeline(run) => exists|inner: PipelineTurn| #[trigger]
                run.steps(ctx, now, reply, inner) && turn == of_pipeline(inner),
            KernelRun::Fanout(run) => exists|inner: FanoutTurn| #[trigger]
                run.steps(ctx, now, reply, inner) && turn == of_fanout(inner),
            KernelRun::Ralph(run, usage) => exists|inner: RalphTurn| #[trigger]
                run.steps(ctx, reply, inner) && turn == of_ralph(inner, usage),
        }
    }

    /// Takes the run one reply further, at the reading `now` of the host's
    /// clock.
    pub fn step(self, ctx: &KernelContext, now: Duration, reply: Reply) -> (turn: KernelTurn)
        ensures
            self.steps(*ctx, now, reply, turn),
    {
        match self {
            KernelRun::Pipeline(run) => match run.step(ctx, now, reply) {
                Turn::Act(run, effect) => Turn::Act(KernelRun::Pipeline(run), effect),
                Turn::End(end) => Turn::End(end),
            },
            KernelRun::Fanout(run) => match run.step(ctx, now, reply) {
                Turn::Act(run, effect) => Turn::Act(KernelRun::Fanout(run), effect),
                Turn::End(end) => Turn::End(end),
            },
            KernelRun::Ralph(run, usage) => match run.step(ctx, reply) {
                Turn::Act(run, effect) => Turn::Act(KernelRun::Ralph(run, usage), effect),
                Turn::End(result) => Turn::End((result, usage)),
            },
        }
    }
}

} // verus!
