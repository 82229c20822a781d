//! One batch of child runs: launched unit by unit, and drained whole. One
//! failed watch must not abandon its siblings: they keep running either way,
//! and only draining them lands their outcomes and token usage in the
//! parent's account.

use crate::budget::{self, BudgetUsage, TokenUsage};
use crate::event::{self, EventEnvelope, RunEvent};
use crate::kernel::{self, Effect, KernelError, Reply, Turn};
use crate::pipeline::guardrails;
use crate::run::{RunId, RunState};
use crate::run_spawner::{ChildRunSpec, RunSpawnerError};
use crate::text;
use vstd::prelude::*;

verus! {

/// What a child's history bills in all; none where it bills nothing.
pub open spec fn bill_of(history: Seq<event::EnvelopeView>) -> Option<TokenUsage>
    decreases history.len(),
{
    if history.len() == 0 {
        None
    } else {
        let before = bill_of(history.drop_last());
        match history.last().event {
            event::EventView::TokensUsed { iteration, usage } => Some(
                match before {
                    Some(bill) => bill.with(usage),
                    None => (TokenUsage { input: 0, output: 0 }).with(usage),
                },
            ),
            _ => before,
        }
    }
}

/// What the parent has spent once a child's history is counted.
pub open spec fn spent_through(spent: Option<u64>, history: Seq<event::EnvelopeView>) -> Option<u64>
    decreases history.len(),
{
    if history.len() == 0 {
        spent
    } else {
        let before = spent_through(spent, history.drop_last());
        match history.last().event {
            event::EventView::TokensUsed { iteration, usage } => Some(
                budget::capped_sum(
                    match before {
                        Some(tokens) => tokens as int,
                        None => 0,
                    },
                    usage.total(),
                ) as u64,
            ),
            _ => before,
        }
    }
}

/// A count of finished iterations once a child's history is counted.
pub open spec fn finished_through(count: u32, history: Seq<event::EnvelopeView>) -> u32
    decreases history.len(),
{
    if history.len() == 0 {
        count
    } else {
        let before = finished_through(count, history.drop_last());
        match history.last().event {
            event::EventView::IterationFinished { iteration, outcome } => guardrails::one_more(
                before,
            ),
            _ => before,
        }
    }
}

/// The last state a child's history lands it in, other than running.
pub open spec fn settled_state(history: Seq<event::EnvelopeView>) -> Option<RunState>
    decreases history.len(),
{
    if history.len() == 0 {
        None
    } else {
        match history.last().event {
            event::EventView::StateChanged { state } => if state != RunState::Running {
                Some(state)
            } else {
                settled_state(history.drop_last())
            },
            _ => settled_state(history.drop_last()),
        }
    }
}

/// What a child's history accounts for.
struct ChildAccount {
    usage: BudgetUsage,
    completed: u32,
    iterations: u32,
    bill: Option<TokenUsage>,
    state: Option<RunState>,
}

/// Reads a child's history into the parent's books.
fn account(usage: BudgetUsage, completed: u32, history: &Vec<EventEnvelope>) -> (r: ChildAccount)
    ensures
        r.usage.spent() == spent_through(usage.spent(), event::envelope_views(history@)),
        r.usage.settled() == usage.settled(),
        r.usage.running_since() == usage.running_since(),
        r.completed == finished_through(completed, event::envelope_views(history@)),
        r.iterations == finished_through(0, event::envelope_views(history@)),
        r.bill == bill_of(event::envelope_views(history@)),
        r.state == settled_state(event::envelope_views(history@)),
{
    let ghost all = event::envelope_views(history@);
    let mut account = ChildAccount { usage, completed, iterations: 0, bill: None, state: None };
    assert(all.take(0) =~= Seq::empty());
    for i in 0..history.len()
        invariant
            all == event::envelope_views(history@),
            account.usage.spent() == spent_through(usage.spent(), all.take(i as int)),
            account.usage.settled() == usage.settled(),
            account.usage.running_since() == usage.running_since(),
            account.completed == finished_through(completed, all.take(i as int)),
            account.iterations == finished_through(0, all.take(i as int)),
            account.bill == bill_of(all.take(i as int)),
            account.state == settled_state(all.take(i as int)),
    {
        assert(all.take(i + 1).drop_last() =~= all.take(i as int));
        assert(all.take(i + 1).last() == history@[i as int]@);
        match &history[i].event {
            RunEvent::TokensUsed { usage, .. } => {
                account.usage.record_tokens(*usage);
                let bill = match account.bill {
                    Some(bill) => bill,
                    None => TokenUsage::default(),
                };
                account.bill = Some(bill.plus(usage));
            },
            RunEvent::IterationFinished { .. } => {
                account.iterations = account.iterations.saturating_add(1);
                account.completed = account.completed.saturating_add(1);
            },
            RunEvent::StateChanged { state } => {
                if *state != RunState::Running {
                    account.state = Some(*state);
                }
            },
            _ => {},
        }
    }
    assert(all.take(history@.len() as int) =~= all);
    account
}

/// Where a batch stands.
pub enum BatchPhase {
    /// A child for the unit `scope` is being submitted.
    Spawning { scope: String, left: Vec<String>, children: Vec<RunId> },
    /// A child's start is being logged.
    Launching { left: Vec<String>, children: Vec<RunId> },
    /// The children begin to be watched.
    Watching,
    /// The next child to settle is waited for.
    Settling,
    /// A child's end is being logged.
    Reporting,
}

/// A batch of child runs.
pub struct Batch {
    /// The iterations that the settled children have finished.
    pub completed: u32,
    /// The first watch that failed. Raised once the whole batch has settled.
    pub failure: Option<RunSpawnerError>,
    pub phase: BatchPhase,
}

/// Where a batch stands after a reply.
pub type BatchTurn = Turn<Batch, Result<u32, KernelError>>;

/// What a list of run identities names.
pub open spec fn names(children: Seq<RunId>) -> Seq<Seq<char>> {
    children.map_values(|id: RunId| id@)
}

/// Whether the next step of a launching batch is `next` with `effect`: the
/// first unit that is left is submitted; once none is, the children are
/// watched.
pub open spec fn launches(
    left: Seq<String>,
    children: Seq<RunId>,
    next: Batch,
    effect: Effect,
) -> bool {
    &&& next.completed == 0
    &&& next.failure is None
    &&& if left.len() == 0 {
        &&& next.phase is Watching
        &&& effect matches Effect::Watch(watched)
        &&& watched@ == children
    } else {
        &&& next.phase matches BatchPhase::Spawning { scope, left: rest, children: so_far }
        &&& scope@ == left[0]@
        &&& rest@ == left.skip(1)
        &&& so_far@ == children
        &&& effect matches Effect::Spawn(spec)
        &&& spec.scope@ == left[0]@
    }
}

/// Takes the next step of a launching batch.
fn launch(left: Vec<String>, children: Vec<RunId>) -> (r: (Batch, Effect))
    ensures
        launches(left@, children@, r.0, r.1),
{
    let mut left = left;
    if left.len() == 0 {
        return (
            Batch { completed: 0, failure: None, phase: BatchPhase::Watching },
            Effect::Watch(children),
        );
    }
    let ghost all = left@;
    let scope = left.remove(0);
    assert(left@ =~= all.skip(1));
    let asked = scope.clone();
    (
        Batch {
            completed: 0,
            failure: None,
            phase: BatchPhase::Spawning { scope, left, children },
        },
        Effect::Spawn(ChildRunSpec { scope: asked }),
    )
}

/// Begins a batch with one child for each unit.
pub fn spawn_batch(units: Vec<String>) -> (r: (Batch, Effect))
    ensures
        launches(units@, Seq::empty(), r.0, r.1),
{
    let children: Vec<RunId> = Vec::new();
    assert(children@ =~= Seq::empty());
    launch(units, children)
}

/// The failure of a child that settled in no state.
pub open spec fn stateless(child: Seq<char>) -> Seq<char> {
    "child "@ + child + " settled without a state event"@
}

impl Batch {
    /// Whether `after` are the parent's books `before` once a reply has come:
    /// a settled child's history is counted, everything else costs nothing.
    pub open spec fn bills(self, before: BudgetUsage, reply: Reply, after: BudgetUsage) -> bool {
        &&& after.settled() == before.settled()
        &&& after.running_since() == before.running_since()
        &&& after.spent() == match (self.phase, reply) {
            (BatchPhase::Settling, Reply::Settled(_, history)) => spent_through(
                before.spent(),
                event::envelope_views(history@),
            ),
            _ => before.spent(),
        }
    }

    /// Whether `turn` waits for the next child to settle, the first failure
    /// kept.
    pub open spec fn drains(
        self,
        completed: u32,
        lost: Option<Seq<char>>,
        turn: BatchTurn,
    ) -> bool {
        &&& turn matches Turn::Act(next, effect)
        &&& effect is NextSettled
        &&& next.phase is Settling
        &&& next.completed == completed
        &&& match (self.failure, lost) {
            (Some(_), _) => next.failure == self.failure,
            (None, Some(words)) => next.failure matches Some(error) && error.0@ == words,
            (None, None) => next.failure is None,
        }
    }

    /// Whether `turn` is where the batch stands after `reply`.
    pub open spec fn steps(self, reply: Reply, turn: BatchTurn) -> bool {
        if reply is Failed {
            turn == BatchTurn::End(Err(reply->Failed_0))
        } else {
            match self.phase {
                BatchPhase::Spawning { scope, left, children } => match reply {
                    Reply::Spawned(child) => {
                        &&& turn matches Turn::Act(next, effect)
                        &&& next.completed == self.completed
                        &&& next.failure == self.failure
                        &&& next.phase matches BatchPhase::Launching {
                            left: rest,
                            children: launched,
                        }
                        &&& rest == left
                        &&& launched@ == children@.push(child)
                        &&& kernel::emits(
                            effect,
                            event::EventView::ChildRunStarted {
                                child_run_id: child@,
                                scope: scope@,
                            },
                        )
                    },
                    _ => turn matches Turn::End(Err(KernelError::OutOfStep)),
                },
                BatchPhase::Launching { left, children } => {
                    &&& turn matches Turn::Act(next, effect)
                    &&& launches(left@, children@, next, effect)
                },
                BatchPhase::Watching => self.drains(self.completed, None, turn),
                BatchPhase::Reporting => self.drains(self.completed, None, turn),
                BatchPhase::Settling => match reply {
                    Reply::Settled(child, history) => {
                        let told = event::envelope_views(history@);
                        match settled_state(told) {
                            None => self.drains(
                                finished_through(self.completed, told),
                                Some(stateless(child@)),
                                turn,
                            ),
                            Some(state) => {
                                &&& turn matches Turn::Act(next, effect)
                                &&& next == (Batch {
                                    completed: finished_through(self.completed, told),
                                    failure: self.failure,
                                    phase: BatchPhase::Reporting,
                                })
                                &&& kernel::emits(
                                    effect,
                                    event::EventView::ChildRunFinished {
                                        child_run_id: child@,
                                        state,
                                        iterations: finished_through(0, told),
                                        usage: bill_of(told),
                                    },
                                )
                            },
                        }
                    },
                    Reply::WatchLost(error) => self.drains(self.completed, Some(error.0@), turn),
                    Reply::AllSettled => match self.failure {
                        Some(error) => turn == BatchTurn::End(Err(KernelError::Spawner(error))),
                        None => turn == BatchTurn::End(Ok(self.completed)),
                    },
                    _ => turn matches Turn::End(Err(KernelError::OutOfStep)),
                },
            }
        }
    }

    /// The turn that waits for the next child to settle.
    fn drain(
        before: Ghost<Batch>,
        failure: Option<RunSpawnerError>,
        completed: u32,
        lost: Option<RunSpawnerError>,
    ) -> (turn: BatchTurn)
        requires
            before@.failure == failure,
        ensures
            before@.drains(
                completed,
                match lost {
                    Some(error) => Some(error.0@),
                    None => None,
                },
                turn,
            ),
    {
        let failure: Option<RunSpawnerError> = match failure {
            Some(first) => Some(first),
            None => lost,
        };
        Turn::Act(Batch { completed, failure, phase: BatchPhase::Settling }, Effect::NextSettled)
    }

    /// Takes the batch one reply further, a settled child counted in the
    /// parent's books.
    pub fn step(self, usage: BudgetUsage, reply: Reply) -> (r: (BatchTurn, BudgetUsage))
        ensures
            self.steps(reply, r.0),
            self.bills(usage, reply, r.1),
    {
        let ghost before = self;
        let Batch { completed, failure, phase } = self;
        match (phase, reply) {
            (BatchPhase::Settling, Reply::Settled(child, history)) => {
                let account = account(usage, completed, &history);
                match account.state {
                    None => {
                        let mut words = "child ".to_owned();
                        words.append(child.as_str());
                        words.append(" settled without a state event");
                        (
                            Batch::drain(
                                Ghost(before),
                                failure,
                                account.completed,
                                Some(RunSpawnerError(words)),
                            ),
                            account.usage,
                        )
                    },
                    Some(state) => (
                        Turn::Act(
                            Batch {
                                completed: account.completed,
                                failure,
                                phase: BatchPhase::Reporting,
                            },
                            Effect::Emit(
                                RunEvent::ChildRunFinished {
                                    child_run_id: child.as_str().to_owned(),
                                    state,
                                    iterations: account.iterations,
                                    usage: account.bill,
                                },
                            ),
                        ),
                        account.usage,
                    ),
                }
            },
            (_, Reply::Failed(error)) => (Turn::End(Err(error)), usage),
            (BatchPhase::Spawning { scope, left, children }, Reply::Spawned(child)) => {
                let mut children = children;
                let event = RunEvent::ChildRunStarted {
                    child_run_id: child.as_str().to_owned(),
                    scope,
                };
                children.push(child);
                (
                    Turn::Act(
                        Batch {
                            completed,
                            failure,
                            phase: BatchPhase::Launching { left, children },
                        },
                        Effect::Emit(event),
                    ),
                    usage,
                )
            },
            (BatchPhase::Spawning { .. }, _) => (Turn::End(Err(KernelError::OutOfStep)), usage),
            (BatchPhase::Launching { left, children }, _) => {
                let (next, effect) = launch(left, children);
                (Turn::Act(next, effect), usage)
            },
            (BatchPhase::Watching, _) => (
                Batch::drain(Ghost(before), failure, completed, None),
                usage,
            ),
            (BatchPhase::Reporting, _) => (
                Batch::drain(Ghost(before), failure, completed, None),
                usage,
            ),
            (BatchPhase::Settling, Reply::WatchLost(error)) => (
                Batch::drain(Ghost(before), failure, completed, Some(error)),
                usage,
            ),
            (BatchPhase::Settling, Reply::AllSettled) => match failure {
                Some(error) => (Turn::End(Err(KernelError::Spawner(error))), usage),
                None => (Turn::End(Ok(completed)), usage),
            },
            (BatchPhase::Settling, _) => (Turn::End(Err(KernelError::OutOfStep)), usage),
        }
    }
}

/// No sibling is abandoned: while its children settle, a batch goes on to
/// wait for the others through every lost watch, and keeps the first loss it
/// met; it ends well only where none was lost.
pub proof fn no_sibling_is_abandoned(before: Batch, reply: Reply, turn: BatchTurn)
    requires
        before.phase is Settling,
        before.steps(reply, turn),
        reply is WatchLost || reply is Settled,
    ensures
        turn is Act,
        before.failure is Some ==> (turn->Act_0).failure == before.failure,
        reply is WatchLost ==> (turn->Act_0).failure is Some,
        (turn->Act_0).completed >= before.completed,
{
    if let Reply::Settled(child, history) = reply {
        lemma_finished_grows(before.completed, event::envelope_views(history@));
    }
}

proof fn lemma_finished_grows(count: u32, history: Seq<event::EnvelopeView>)
    ensures
        finished_through(count, history) >= count,
    decreases history.len(),
{
    if history.len() > 0 {
        lemma_finished_grows(count, history.drop_last());
    }
}

} // verus!
