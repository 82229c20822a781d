//! The sandbox bracket: work runs in a fresh sandbox, and the sandbox is
//! destroyed on every path. Neither an error nor a cancellation nor a passed
//! deadline can leak a live VM.

use crate::budget::Duration;
use crate::kernel::{self, Effect, KernelContext, KernelError, Reply, Turn, Work};
use vstd::prelude::*;

verus! {

/// How a sandbox bracket ended: the work ran to its value, or the run was
/// cancelled or its deadline passed mid-work and the rest was abandoned.
/// That changes what comes back, never whether teardown runs.
#[derive(Debug, PartialEq, Eq)]
pub enum Bracketed<T> {
    Finished(T),
    Cancelled,
    TimedOut,
}

/// Where a bracket stands.
pub enum BracketPhase<W: Work> {
    /// The host looks whether the run has been cancelled.
    Polling(W),
    /// The sandbox boots.
    Booting(W),
    /// The sandbox lives and the work goes on.
    Working(W),
    /// The sandbox is being destroyed; this is what comes back.
    Destroying(Result<Bracketed<W::Out>, KernelError>),
}

/// Work inside a sandbox of its own. One bracket may span several execs: a
/// repair re-prompt and the verify checks belong in the same sandbox as the
/// invocation whose work they judge.
pub struct Bracket<W: Work> {
    pub deadline: Option<Duration>,
    pub phase: BracketPhase<W>,
}

/// Opens a bracket around `work`, to be abandoned when `deadline` passes.
pub fn in_fresh_sandbox<W: Work>(work: W, deadline: Option<Duration>) -> (r: (Bracket<W>, Effect))
    ensures
        r.0 == (Bracket { deadline, phase: BracketPhase::Polling(work) }),
        r.1 is PollCancel,
{
    (Bracket { deadline, phase: BracketPhase::Polling(work) }, Effect::PollCancel)
}

/// What comes back when the work is over.
pub open spec fn finished<T>(result: Result<T, KernelError>) -> Result<Bracketed<T>, KernelError> {
    match result {
        Ok(out) => Ok(Bracketed::Finished(out)),
        Err(error) => Err(error),
    }
}

impl<W: Work> Bracket<W> {
    /// Whether the bracket's sandbox is alive and at work.
    pub open spec fn at_work(self) -> bool {
        self.phase is Working
    }

    /// Whether `turn` is where the bracket stands after its work has taken a
    /// turn of its own: work that is over has its sandbox destroyed.
    pub open spec fn follows(
        self,
        inner: Turn<W, Result<W::Out, KernelError>>,
        turn: Turn<Bracket<W>, Result<Bracketed<W::Out>, KernelError>>,
    ) -> bool {
        match inner {
            Turn::Act(work, effect) => turn == Turn::<
                Bracket<W>,
                Result<Bracketed<W::Out>, KernelError>,
            >::Act(Bracket { phase: BracketPhase::Working(work), ..self }, effect),
            Turn::End(result) => self.tears_down(finished(result), turn),
        }
    }

    /// Whether `turn` destroys the sandbox, `result` to come back.
    pub open spec fn tears_down(
        self,
        result: Result<Bracketed<W::Out>, KernelError>,
        turn: Turn<Bracket<W>, Result<Bracketed<W::Out>, KernelError>>,
    ) -> bool {
        turn == Turn::<Bracket<W>, Result<Bracketed<W::Out>, KernelError>>::Act(
            Bracket { phase: BracketPhase::Destroying(result), ..self },
            Effect::Destroy,
        )
    }

    /// Whether `turn` is where the bracket stands after its work got `reply`.
    pub open spec fn works(
        self,
        ctx: KernelContext,
        brief: W::Brief,
        work: W,
        reply: Reply,
        turn: Turn<Bracket<W>, Result<Bracketed<W::Out>, KernelError>>,
    ) -> bool {
        exists|inner: Turn<W, Result<W::Out, KernelError>>| #[trigger]
            work.steps(ctx, brief, reply, inner) && self.follows(inner, turn)
    }

    /// Whether `turn` is where the bracket stands after `reply`. A run that
    /// is already cancelled boots nothing. A failure to destroy comes back
    /// only where the work itself did not fail.
    pub open spec fn steps(
        self,
        ctx: KernelContext,
        brief: W::Brief,
        reply: Reply,
        turn: Turn<Bracket<W>, Result<Bracketed<W::Out>, KernelError>>,
    ) -> bool {
        match self.phase {
            BracketPhase::Polling(work) => match reply {
                Reply::Cancelled => turn matches Turn::End(Ok(Bracketed::Cancelled)),
                Reply::Failed(error) => turn == Turn::<
                    Bracket<W>,
                    Result<Bracketed<W::Out>, KernelError>,
                >::End(Err(error)),
                _ => {
                    &&& turn matches Turn::Act(next, effect)
                    &&& next == (Bracket { phase: BracketPhase::Booting(work), ..self })
                    &&& effect matches Effect::Boot { spec, deadline }
                    &&& kernel::boots_from(spec, ctx)
                    &&& deadline == self.deadline
                },
            },
            BracketPhase::Booting(work) => match reply {
                Reply::Failed(error) => turn == Turn::<
                    Bracket<W>,
                    Result<Bracketed<W::Out>, KernelError>,
                >::End(Err(error)),
                _ => self.works(ctx, brief, work, Reply::Done, turn),
            },
            BracketPhase::Working(work) => match reply {
                Reply::Cancelled => self.tears_down(Ok(Bracketed::Cancelled), turn),
                Reply::TimedOut => self.tears_down(Ok(Bracketed::TimedOut), turn),
                _ => self.works(ctx, brief, work, reply, turn),
            },
            BracketPhase::Destroying(result) => turn == Turn::<
                Bracket<W>,
                Result<Bracketed<W::Out>, KernelError>,
            >::End(
                match (result, reply) {
                    (Err(error), _) => Err(error),
                    (Ok(_), Reply::Failed(error)) => Err(error),
                    (Ok(bracketed), _) => Ok(bracketed),
                },
            ),
        }
    }

    /// The turn that destroys the sandbox.
    fn tear_down(
        deadline: Option<Duration>,
        result: Result<Bracketed<W::Out>, KernelError>,
    ) -> (turn: Turn<Bracket<W>, Result<Bracketed<W::Out>, KernelError>>)
        ensures
            turn == Turn::<Bracket<W>, Result<Bracketed<W::Out>, KernelError>>::Act(
                Bracket { deadline, phase: BracketPhase::Destroying(result) },
                Effect::Destroy,
            ),
    {
        Turn::Act(Bracket { deadline, phase: BracketPhase::Destroying(result) }, Effect::Destroy)
    }

    /// The turn after the work got a reply.
    fn work(
        before: Ghost<Bracket<W>>,
        deadline: Option<Duration>,
        ctx: &KernelContext,
        brief: &W::Brief,
        work: W,
        reply: Reply,
    ) -> (turn: Turn<Bracket<W>, Result<Bracketed<W::Out>, KernelError>>)
        requires
            before@.deadline == deadline,
        ensures
            before@.works(*ctx, *brief, work, reply, turn),
    {
        match work.step(ctx, brief, reply) {
            Turn::Act(work, effect) => Turn::Act(
                Bracket { deadline, phase: BracketPhase::Working(work) },
                effect,
            ),
            Turn::End(Ok(out)) => Bracket::tear_down(deadline, Ok(Bracketed::Finished(out))),
            Turn::End(Err(error)) => Bracket::tear_down(deadline, Err(error)),
        }
    }

    /// Takes the bracket one reply further.
    pub fn step(self, ctx: &KernelContext, brief: &W::Brief, reply: Reply) -> (turn: Turn<
        Bracket<W>,
        Result<Bracketed<W::Out>, KernelError>,
    >)
        ensures
            self.steps(*ctx, *brief, reply, turn),
    {
        let deadline = self.deadline;
        let ghost before = self;
        match self.phase {
            BracketPhase::Polling(work) => match reply {
                Reply::Cancelled => Turn::End(Ok(Bracketed::Cancelled)),
                Reply::Failed(error) => Turn::End(Err(error)),
                _ => Turn::Act(
                    Bracket { deadline, phase: BracketPhase::Booting(work) },
                    Effect::Boot { spec: ctx.sandbox_spec(), deadline },
                ),
            },
            BracketPhase::Booting(work) => match reply {
                Reply::Failed(error) => Turn::End(Err(error)),
                _ => Bracket::work(Ghost(before), deadline, ctx, brief, work, Reply::Done),
            },
            BracketPhase::Working(work) => match reply {
                Reply::Cancelled => Bracket::tear_down(deadline, Ok(Bracketed::Cancelled)),
                Reply::TimedOut => Bracket::tear_down(deadline, Ok(Bracketed::TimedOut)),
                reply => Bracket::work(Ghost(before), deadline, ctx, brief, work, reply),
            },
            BracketPhase::Destroying(result) => match (result, reply) {
                (Err(error), _) => Turn::End(Err(error)),
                (Ok(_), Reply::Failed(error)) => Turn::End(Err(error)),
                (Ok(bracketed), _) => Turn::End(Ok(bracketed)),
            },
        }
    }
}

/// Whether a bracket that gets `replies`, in order, asks for `effects` and
/// ends with the last reply.
pub open spec fn plays<W: Work>(
    bracket: Bracket<W>,
    ctx: KernelContext,
    brief: W::Brief,
    replies: Seq<Reply>,
    effects: Seq<Effect>,
) -> bool
    decreases replies.len(),
{
    replies.len() > 0 && exists|turn: Turn<Bracket<W>, Result<Bracketed<W::Out>, KernelError>>|
        #[trigger] bracket.steps(ctx, brief, replies[0], turn) && match turn {
            Turn::End(_) => replies.len() == 1 && effects.len() == 0,
            Turn::Act(next, effect) => effects.len() > 0 && effects[0] == effect && plays(
                next,
                ctx,
                brief,
                replies.skip(1),
                effects.skip(1),
            ),
        }
}

/// Whether effects that begin in a live sandbox end with its destruction,
/// and neither boot nor destroy before that.
pub open spec fn ends_torn_down(effects: Seq<Effect>) -> bool {
    &&& effects.len() > 0
    &&& effects.last() is Destroy
    &&& forall|i: int| 0 <= i < effects.len() - 1 ==> kernel::stays_inside(#[trigger] effects[i])
}

/// No sandbox leaks. Whatever the host answers, a bracket that has ended
/// either booted nothing, or asked for one boot that failed, or asked for
/// one boot first, for one destruction last, and for neither in between.
pub proof fn a_sandbox_never_leaks<W: Work>(
    bracket: Bracket<W>,
    ctx: KernelContext,
    brief: W::Brief,
    replies: Seq<Reply>,
    effects: Seq<Effect>,
)
    requires
        bracket.phase is Polling,
        plays(bracket, ctx, brief, replies, effects),
    ensures
        effects.len() == 0 || (effects[0] is Boot && ((effects.len() == 1 && replies.last() is Failed)
            || ends_torn_down(effects.skip(1)))),
{
    if effects.len() > 0 {
        lemma_booted(bracket, ctx, brief, replies, effects);
    }
}

proof fn lemma_booted<W: Work>(
    bracket: Bracket<W>,
    ctx: KernelContext,
    brief: W::Brief,
    replies: Seq<Reply>,
    effects: Seq<Effect>,
)
    requires
        bracket.phase is Polling,
        plays(bracket, ctx, brief, replies, effects),
        effects.len() > 0,
    ensures
        effects[0] is Boot,
        (effects.len() == 1 && replies.last() is Failed) || ends_torn_down(effects.skip(1)),
{
    let turn = choose|turn: Turn<Bracket<W>, Result<Bracketed<W::Out>, KernelError>>|
        #[trigger] bracket.steps(ctx, brief, replies[0], turn) && match turn {
            Turn::End(_) => replies.len() == 1 && effects.len() == 0,
            Turn::Act(next, effect) => effects.len() > 0 && effects[0] == effect && plays(
                next,
                ctx,
                brief,
                replies.skip(1),
                effects.skip(1),
            ),
        };
    let booting = turn->Act_0;
    let rest = replies.skip(1);
    let more = effects.skip(1);
    let booted = choose|turn: Turn<Bracket<W>, Result<Bracketed<W::Out>, KernelError>>|
        #[trigger] booting.steps(ctx, brief, rest[0], turn) && match turn {
            Turn::End(_) => rest.len() == 1 && more.len() == 0,
            Turn::Act(next, effect) => more.len() > 0 && more[0] == effect && plays(
                next,
                ctx,
                brief,
                rest.skip(1),
                more.skip(1),
            ),
        };
    if booted is Act {
        lemma_first_step(booting, ctx, brief, rest[0], booted->Act_0, booted->Act_1);
        lemma_torn_down(booted->Act_0, ctx, brief, rest.skip(1), more.skip(1));
        assert(more =~= seq![more[0]] + more.skip(1));
    }
}

proof fn lemma_first_step<W: Work>(
    bracket: Bracket<W>,
    ctx: KernelContext,
    brief: W::Brief,
    reply: Reply,
    next: Bracket<W>,
    effect: Effect,
)
    requires
        bracket.phase is Booting || bracket.phase is Working,
        bracket.steps(ctx, brief, reply, Turn::Act(next, effect)),
    ensures
        next.phase is Working && kernel::stays_inside(effect) || next.phase is Destroying
            && effect is Destroy,
{
    let work = if bracket.phase is Booting {
        bracket.phase->Booting_0
    } else {
        bracket.phase->Working_0
    };
    let heard = if bracket.phase is Booting {
        Reply::Done
    } else {
        reply
    };
    if next.phase is Working {
        let inner = choose|inner: Turn<W, Result<W::Out, KernelError>>| #[trigger]
            work.steps(ctx, brief, heard, inner) && bracket.follows(inner, Turn::Act(next, effect));
        work.minds_its_sandbox(ctx, brief, heard, inner->Act_0, effect);
    }
}

proof fn lemma_torn_down<W: Work>(
    bracket: Bracket<W>,
    ctx: KernelContext,
    brief: W::Brief,
    replies: Seq<Reply>,
    effects: Seq<Effect>,
)
    requires
        bracket.phase is Working || bracket.phase is Destroying,
        plays(bracket, ctx, brief, replies, effects),
    ensures
        bracket.phase is Destroying ==> effects.len() == 0,
        bracket.phase is Working ==> ends_torn_down(effects),
    decreases replies.len(),
{
    let turn = choose|turn: Turn<Bracket<W>, Result<Bracketed<W::Out>, KernelError>>|
        #[trigger] bracket.steps(ctx, brief, replies[0], turn) && match turn {
            Turn::End(_) => replies.len() == 1 && effects.len() == 0,
            Turn::Act(next, effect) => effects.len() > 0 && effects[0] == effect && plays(
                next,
                ctx,
                brief,
                replies.skip(1),
                effects.skip(1),
            ),
        };
    if bracket.phase is Working {
        lemma_first_step(bracket, ctx, brief, replies[0], turn->Act_0, turn->Act_1);
        lemma_torn_down(turn->Act_0, ctx, brief, replies.skip(1), effects.skip(1));
        assert(effects =~= seq![effects[0]] + effects.skip(1));
    }
}

/// While its sandbox is at work, a bracket goes on with it or destroys it.
pub proof fn lemma_at_work<W: Work>(
    bracket: Bracket<W>,
    ctx: KernelContext,
    brief: W::Brief,
    reply: Reply,
    turn: Turn<Bracket<W>, Result<Bracketed<W::Out>, KernelError>>,
)
    requires
        bracket.steps(ctx, brief, reply, turn),
        bracket.at_work(),
    ensures
        turn is Act,
        turn->Act_0.at_work() || turn->Act_1 is Destroy,
{
}

} // verus!
