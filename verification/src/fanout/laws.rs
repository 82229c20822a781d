//! What a batch of child runs comes to, read off what went to and fro: who
//! was submitted, who was watched, and how each came out.

use crate::budget::TokenUsage;
use crate::event::{self, EventView};
use crate::fanout::batch::{self, Batch, BatchPhase, BatchTurn};
use crate::kernel::{Effect, KernelError, Reply, Turn};
use crate::run::{RunId, RunState};
use crate::text;
use crate::trace;
use vstd::prelude::*;

verus! {

/// Whether a batch that stands at `turn` gets `replies`, in order, asks for
/// `effects` and ends in `end`.
pub open spec fn plays(
    turn: BatchTurn,
    effects: Seq<Effect>,
    replies: Seq<Reply>,
    end: Result<u32, KernelError>,
) -> bool
    decreases replies.len(),
{
    match turn {
        Turn::End(result) => effects.len() == 0 && replies.len() == 0 && result == end,
        Turn::Act(batch, effect) => {
            &&& effects.len() > 0
            &&& replies.len() > 0
            &&& effects[0] == effect
            &&& exists|next: BatchTurn| #[trigger]
                batch.steps(replies[0], next) && plays(
                    next,
                    effects.skip(1),
                    replies.skip(1),
                    end,
                )
        },
    }
}

/// The scopes of the children that were submitted, in order.
pub open spec fn submitted(effects: Seq<Effect>) -> Seq<Seq<char>>
    decreases effects.len(),
{
    if effects.len() == 0 {
        Seq::empty()
    } else {
        match effects.last() {
            Effect::Spawn(spec) => submitted(effects.drop_last()).push(spec.scope@),
            _ => submitted(effects.drop_last()),
        }
    }
}

/// The identities that the submitted children were given, in order.
pub open spec fn born(effects: Seq<Effect>, replies: Seq<Reply>) -> Seq<Seq<char>>
    decreases replies.len(),
{
    if replies.len() == 0 {
        Seq::empty()
    } else {
        match (effects[replies.len() - 1], replies.last()) {
            (Effect::Spawn(_), Reply::Spawned(child)) => born(effects, replies.drop_last()).push(
                child@,
            ),
            _ => born(effects, replies.drop_last()),
        }
    }
}

/// The lists of children that were to be watched, in order.
pub open spec fn watched(effects: Seq<Effect>) -> Seq<Seq<Seq<char>>>
    decreases effects.len(),
{
    if effects.len() == 0 {
        Seq::empty()
    } else {
        match effects.last() {
            Effect::Watch(children) => watched(effects.drop_last()).push(
                batch::names(children@),
            ),
            _ => watched(effects.drop_last()),
        }
    }
}

/// The starts of child runs among some events: each child with its scope.
pub open spec fn begun(events: Seq<EventView>) -> Seq<(Seq<char>, Seq<char>)>
    decreases events.len(),
{
    if events.len() == 0 {
        Seq::empty()
    } else {
        match events.last() {
            EventView::ChildRunStarted { child_run_id, scope } => begun(events.drop_last()).push(
                (child_run_id, scope),
            ),
            _ => begun(events.drop_last()),
        }
    }
}

/// A child run's end as it is logged.
#[verifier::ext_equal]
pub ghost struct ChildEnd {
    pub child: Seq<char>,
    pub state: RunState,
    pub iterations: u32,
    pub usage: Option<TokenUsage>,
}

/// The ends of child runs among some events.
pub open spec fn over(events: Seq<EventView>) -> Seq<ChildEnd>
    decreases events.len(),
{
    if events.len() == 0 {
        Seq::empty()
    } else {
        match events.last() {
            EventView::ChildRunFinished { child_run_id, state, iterations, usage } => over(
                events.drop_last(),
            ).push(ChildEnd { child: child_run_id, state, iterations, usage }),
            _ => over(events.drop_last()),
        }
    }
}

/// How many iterations a history finished.
pub open spec fn iterations_in(history: Seq<event::EnvelopeView>) -> nat {
    history.filter(|e: event::EnvelopeView| e.event is IterationFinished).len()
}

/// A count, as far as it can be written down.
pub open spec fn capped(n: nat) -> u32 {
    if n <= u32::MAX {
        n as u32
    } else {
        u32::MAX
    }
}

/// What has come back of the children: the histories of those that settled,
/// in order, and why any could not be followed to an end.
#[verifier::ext_equal]
pub ghost struct Returns {
    /// How many iterations the settled children finished in all.
    pub iterations: nat,
    /// The ends that are told of.
    pub ends: Seq<ChildEnd>,
    /// The words for each child that was lost.
    pub losses: Seq<Seq<char>>,
}

/// What has come back of the children by the replies to one wait after the
/// other.
pub open spec fn returned(effects: Seq<Effect>, replies: Seq<Reply>) -> Returns
    decreases replies.len(),
{
    if replies.len() == 0 {
        Returns { iterations: 0, ends: Seq::empty(), losses: Seq::empty() }
    } else {
        let before = returned(effects, replies.drop_last());
        match (effects[replies.len() - 1], replies.last()) {
            (Effect::NextSettled, Reply::Settled(child, history)) => {
                let told = event::envelope_views(history@);
                Returns {
                    iterations: before.iterations + iterations_in(told),
                    ends: match batch::settled_state(told) {
                        Some(state) => before.ends.push(
                            ChildEnd {
                                child: child@,
                                state,
                                iterations: capped(iterations_in(told)),
                                usage: batch::bill_of(told),
                            },
                        ),
                        None => before.ends,
                    },
                    losses: match batch::settled_state(told) {
                        Some(_) => before.losses,
                        None => before.losses.push(
                            "child "@ + child@ + " settled without a state event"@,
                        ),
                    },
                }
            },
            (Effect::NextSettled, Reply::WatchLost(error)) => Returns {
                losses: before.losses.push(error.0@),
                ..before
            },
            _ => before,
        }
    }
}

/// Each child with the unit that it was submitted for.
pub open spec fn paired(children: Seq<Seq<char>>, units: Seq<Seq<char>>) -> Seq<
    (Seq<char>, Seq<char>),
> {
    Seq::new(children.len(), |i: int| (children[i], units[i]))
}

/// Whether `end` is how a batch over `units` may end once `effects` and
/// `replies` went to and fro. Where it does not break off with an error of
/// the host's, one child was submitted for each unit, in order; each was
/// logged under its unit's name; all of them and no others were watched; the
/// end of each that settled was logged; and the batch counts what they did,
/// or raises the first that was lost.
pub open spec fn settles(
    units: Seq<Seq<char>>,
    effects: Seq<Effect>,
    replies: Seq<Reply>,
    end: Result<u32, KernelError>,
) -> bool {
    let events = trace::logged(effects);
    let children = born(effects, replies);
    let back = returned(effects, replies);
    let whole = {
        &&& submitted(effects) == units
        &&& children.len() == units.len()
        &&& begun(events) == paired(children, units)
        &&& watched(effects) == seq![children]
        &&& over(events) == back.ends
        &&& replies.len() > 0
        &&& effects.len() == replies.len()
        &&& effects.last() is NextSettled
        &&& replies.last() is AllSettled
    };
    match end {
        Ok(completed) => whole && completed == capped(back.iterations) && back.losses.len() == 0,
        Err(error) => {
            ||| replies.len() > 0 && trace::is_the_hosts(
                effects[replies.len() - 1],
                replies.last(),
                error,
            )
            ||| whole && back.losses.len() > 0 && (error matches KernelError::Spawner(lost)
                && lost.0@ == back.losses[0])
        },
    }
}

/// Whether a batch stands where what went to and fro has brought it.
pub open spec fn underway(
    state: Batch,
    units: Seq<Seq<char>>,
    effects: Seq<Effect>,
    replies: Seq<Reply>,
) -> bool {
    let events = trace::logged(effects);
    let children = born(effects, replies);
    let back = returned(effects, replies);
    let none = Returns { iterations: 0, ends: Seq::empty(), losses: Seq::empty() };
    let drained = {
        &&& submitted(effects) == units
        &&& children.len() == units.len()
        &&& begun(events) == paired(children, units)
        &&& watched(effects) == seq![children]
        &&& over(events) == back.ends
        &&& state.completed == capped(back.iterations)
        &&& match state.failure {
            Some(error) => back.losses.len() > 0 && error.0@ == back.losses[0],
            None => back.losses.len() == 0,
        }
    };
    &&& effects.len() == replies.len() + 1
    &&& match state.phase {
        BatchPhase::Spawning { scope, left, children: launched } => {
            let n = units.len() - 1 - left@.len();
            &&& 0 <= n
            &&& scope@ == units[n]
            &&& text::texts(left@) == units.skip(n + 1)
            &&& batch::names(launched@) == children
            &&& children.len() == n
            &&& submitted(effects) == units.take(n + 1)
            &&& begun(events) == paired(children, units)
            &&& watched(effects).len() == 0
            &&& over(events).len() == 0
            &&& back == none
            &&& state.completed == 0
            &&& state.failure is None
            &&& effects.last() is Spawn
        },
        BatchPhase::Launching { left, children: launched } => {
            let n = units.len() - left@.len();
            &&& 0 <= n
            &&& text::texts(left@) == units.skip(n)
            &&& batch::names(launched@) == children
            &&& children.len() == n
            &&& submitted(effects) == units.take(n)
            &&& begun(events) == paired(children, units)
            &&& watched(effects).len() == 0
            &&& over(events).len() == 0
            &&& back == none
            &&& state.completed == 0
            &&& state.failure is None
            &&& effects.last() is Emit
        },
        BatchPhase::Watching => drained && effects.last() is Watch,
        BatchPhase::Settling => drained && effects.last() is NextSettled,
        BatchPhase::Reporting => drained && effects.last() is Emit,
    }
}

/// Whether `turn` is one at which a batch may stand.
pub open spec fn standing(
    turn: BatchTurn,
    units: Seq<Seq<char>>,
    effects: Seq<Effect>,
    replies: Seq<Reply>,
) -> bool {
    match turn {
        Turn::Act(next, effect) => underway(next, units, effects.push(effect), replies),
        Turn::End(end) => settles(units, effects, replies, end),
    }
}

/// One more effect, seen from what a batch has done.
proof fn lemma_one_more(effects: Seq<Effect>, replies: Seq<Reply>, effect: Effect)
    requires
        replies.len() <= effects.len(),
    ensures
        born(effects.push(effect), replies) == born(effects, replies),
        returned(effects.push(effect), replies) == returned(effects, replies),
        submitted(effects.push(effect)) == match effect {
            Effect::Spawn(spec) => submitted(effects).push(spec.scope@),
            _ => submitted(effects),
        },
        watched(effects.push(effect)) == match effect {
            Effect::Watch(children) => watched(effects).push(batch::names(children@)),
            _ => watched(effects),
        },
        begun(trace::logged(effects.push(effect))) == match effect {
            Effect::Emit(emitted) => match emitted@ {
                EventView::ChildRunStarted { child_run_id, scope } => begun(
                    trace::logged(effects),
                ).push((child_run_id, scope)),
                _ => begun(trace::logged(effects)),
            },
            _ => begun(trace::logged(effects)),
        },
        over(trace::logged(effects.push(effect))) == match effect {
            Effect::Emit(emitted) => match emitted@ {
                EventView::ChildRunFinished { child_run_id, state, iterations, usage } => over(
                    trace::logged(effects),
                ).push(ChildEnd { child: child_run_id, state, iterations, usage }),
                _ => over(trace::logged(effects)),
            },
            _ => over(trace::logged(effects)),
        },
    decreases replies.len(),
{
    let more = effects.push(effect);
    assert(more.drop_last() =~= effects);
    assert(more.last() == effect);
    if replies.len() > 0 {
        lemma_one_more(effects, replies.drop_last(), effect);
        assert(more[replies.len() - 1] == effects[replies.len() - 1]);
    }
    let events = trace::logged(effects);
    trace::lemma_one_more(effects, effect);
    if let Effect::Emit(emitted) = effect {
        assert(trace::logged(more) =~= events.push(emitted@));
        assert(events.push(emitted@).drop_last() =~= events);
    } else {
        assert(trace::logged(more) =~= events);
    }
}

/// The count of finished iterations is what it says.
pub proof fn finished_iterations_are_counted(count: u32, history: Seq<event::EnvelopeView>)
    ensures
        batch::finished_through(count, history) == capped(
            (count + iterations_in(history)) as nat,
        ),
    decreases history.len(),
{
    let finishes = |e: event::EnvelopeView| e.event is IterationFinished;
    reveal(Seq::filter);
    if history.len() > 0 {
        finished_iterations_are_counted(count, history.drop_last());
    }
}

/// The first of the units that are left is submitted once those before it
/// have been.
proof fn lemma_launches(
    left: Seq<String>,
    launched: Seq<RunId>,
    next: Batch,
    effect: Effect,
    units: Seq<Seq<char>>,
    effects: Seq<Effect>,
    replies: Seq<Reply>,
)
    requires
        batch::launches(left, launched, next, effect),
        effects.len() == replies.len(),
        left.len() <= units.len(),
        text::texts(left) == units.skip(units.len() - left.len()),
        batch::names(launched) == born(effects, replies),
        launched.len() == units.len() - left.len(),
        submitted(effects) == units.take(units.len() - left.len()),
        begun(trace::logged(effects)) == paired(born(effects, replies), units),
        watched(effects).len() == 0,
        over(trace::logged(effects)).len() == 0,
        returned(effects, replies) == (Returns {
            iterations: 0,
            ends: Seq::empty(),
            losses: Seq::empty(),
        }),
    ensures
        underway(next, units, effects.push(effect), replies),
{
    lemma_one_more(effects, replies, effect);
    let n = units.len() - left.len();
    if left.len() == 0 {
        assert(units.take(n as int) =~= units);
        assert(watched(effects.push(effect)) =~= seq![born(effects, replies)]);
        assert(over(trace::logged(effects.push(effect))) =~= Seq::empty());
    } else {
        assert(text::texts(left)[0] == left[0]@);
        assert(left[0]@ == units[n as int]);
        assert(units.take(n as int).push(units[n as int]) =~= units.take(n + 1));
        assert(text::texts(left.skip(1)) =~= units.skip(n + 1)) by {
            assert forall|i: int| 0 <= i < left.len() - 1 implies #[trigger] text::texts(
                left.skip(1),
            )[i] == units.skip(n + 1)[i] by {
                assert(text::texts(left)[i + 1] == left[i + 1]@);
            }
        }
    }
}

/// One step of a batch, seen from what went to and fro.
pub proof fn lemma_step(
    state: Batch,
    reply: Reply,
    turn: BatchTurn,
    units: Seq<Seq<char>>,
    effects: Seq<Effect>,
    replies: Seq<Reply>,
)
    requires
        underway(state, units, effects, replies),
        state.steps(reply, turn),
    ensures
        standing(turn, units, effects, replies.push(reply)),
{
    let heard = replies.push(reply);
    assert(heard.drop_last() =~= replies);
    assert(effects[heard.len() - 1] == effects.last());
    if let Turn::Act(next, effect) = turn {
        lemma_one_more(effects, heard, effect);
    }
    if !(reply is Failed) {
        match state.phase {
            BatchPhase::Spawning { scope, left, children: launched } => {
                if let Reply::Spawned(child) = reply {
                    let children = born(effects, replies);
                    let n = units.len() - 1 - left@.len();
                    let next = turn->Act_0;
                    let more = next.phase->Launching_children@;
                    assert(batch::names(more) =~= children.push(child@));
                    assert(paired(children, units).push((child@, units[n])) =~= paired(
                        children.push(child@),
                        units,
                    ));
                }
            },
            BatchPhase::Launching { left, children: launched } => {
                lemma_launches(
                    left@,
                    launched@,
                    turn->Act_0,
                    turn->Act_1,
                    units,
                    effects,
                    heard,
                );
            },
            BatchPhase::Settling => {
                if let Reply::Settled(child, history) = reply {
                    let told = event::envelope_views(history@);
                    finished_iterations_are_counted(state.completed, told);
                    finished_iterations_are_counted(0, told);
                }
            },
            _ => {},
        }
    }
}

/// A batch begins with none of its units submitted.
pub proof fn lemma_begins(units: Seq<String>, begun: Batch, first: Effect)
    requires
        batch::launches(units, Seq::empty(), begun, first),
    ensures
        underway(
            begun,
            text::texts(units),
            Seq::<Effect>::empty().push(first),
            Seq::<Reply>::empty(),
        ),
        first is Spawn || first is Watch,
{
    let all = text::texts(units);
    let none = Seq::<Effect>::empty();
    let unheard = Seq::<Reply>::empty();
    assert(all.skip(0) =~= all);
    assert(batch::names(Seq::empty()) =~= born(none, unheard));
    assert(submitted(none) =~= all.take(0));
    assert(self::begun(trace::logged(none)) =~= paired(born(none, unheard), all));
    lemma_launches(units, Seq::empty(), begun, first, all, none, unheard);
}

/// What a batch may ask for.
pub proof fn lemma_kinds(state: Batch, reply: Reply, next: Batch, effect: Effect)
    requires
        state.steps(reply, Turn::Act(next, effect)),
    ensures
        match effect {
            Effect::Spawn(_) | Effect::Watch(_) | Effect::NextSettled => true,
            Effect::Emit(event) => event@ is ChildRunStarted || event@ is ChildRunFinished,
            _ => false,
        },
{
}

proof fn lemma_plays(
    turn: BatchTurn,
    units: Seq<Seq<char>>,
    past: Seq<Effect>,
    heard: Seq<Reply>,
    effects: Seq<Effect>,
    replies: Seq<Reply>,
    end: Result<u32, KernelError>,
)
    requires
        past.len() == heard.len(),
        standing(turn, units, past, heard),
        plays(turn, effects, replies, end),
    ensures
        settles(units, past + effects, heard + replies, end),
    decreases replies.len(),
{
    match turn {
        Turn::End(_) => {
            assert(past + effects =~= past);
            assert(heard + replies =~= heard);
        },
        Turn::Act(batch, effect) => {
            let next = choose|next: BatchTurn| #[trigger]
                batch.steps(replies[0], next) && plays(
                    next,
                    effects.skip(1),
                    replies.skip(1),
                    end,
                );
            lemma_step(batch, replies[0], next, units, past.push(effect), heard);
            lemma_plays(
                next,
                units,
                past.push(effect),
                heard.push(replies[0]),
                effects.skip(1),
                replies.skip(1),
                end,
            );
            assert(past.push(effect) + effects.skip(1) =~= past + effects);
            assert(heard.push(replies[0]) + replies.skip(1) =~= heard + replies);
        },
    }
}

/// Every unit gets a child of its own, and every child its due. Whatever the
/// host answers, a batch that has ended has submitted one child for each
/// unit, in order and with that unit as its scope, has logged each under the
/// same scope, has watched exactly those children, has logged the end of
/// each that settled, and has drained them all before it counted their
/// iterations or raised the first that was lost; or else it broke off with
/// an error of the host's.
pub proof fn every_unit_gets_its_child(
    units: Seq<String>,
    begun: Batch,
    first: Effect,
    effects: Seq<Effect>,
    replies: Seq<Reply>,
    end: Result<u32, KernelError>,
)
    requires
        batch::launches(units, Seq::empty(), begun, first),
        plays(Turn::Act(begun, first), effects, replies, end),
    ensures
        settles(text::texts(units), effects, replies, end),
{
    let all = text::texts(units);
    let none = Seq::<Effect>::empty();
    let unheard = Seq::<Reply>::empty();
    lemma_begins(units, begun, first);
    lemma_plays(Turn::Act(begun, first), all, none, unheard, effects, replies, end);
    assert(none + effects =~= effects);
    assert(unheard + replies =~= replies);
}

/// Whether an event lands a run in a state other than running.
pub open spec fn lands_in(e: EventView, state: RunState) -> bool {
    e == (EventView::StateChanged { state }) && state != RunState::Running
}

/// A child settles in the last state that its history lands it in, and in
/// none where its history never lands it.
pub proof fn a_child_settles_in_its_last_state(history: Seq<event::EnvelopeView>)
    ensures
        match batch::settled_state(history) {
            Some(state) => exists|i: int|
                0 <= i < history.len() && lands_in((#[trigger] history[i]).event, state) && forall|
                    j: int,
                    other: RunState,
                |
                    i < j < history.len() ==> !#[trigger] lands_in(history[j].event, other),
            None => forall|j: int, other: RunState|
                0 <= j < history.len() ==> !#[trigger] lands_in(history[j].event, other),
        },
    decreases history.len(),
{
    if history.len() > 0 {
        let less = history.drop_last();
        let last = history.len() - 1;
        a_child_settles_in_its_last_state(less);
        let here = history[last].event matches EventView::StateChanged { state } && state
            != RunState::Running;
        if here {
            assert(lands_in(history[last].event, batch::settled_state(history)->0));
        } else {
            match batch::settled_state(less) {
                Some(state) => {
                    let i = choose|i: int|
                        0 <= i < less.len() && lands_in((#[trigger] less[i]).event, state)
                            && forall|j: int, other: RunState|
                            i < j < less.len() ==> !#[trigger] lands_in(less[j].event, other);
                    assert(history[i] == less[i]);
                    assert forall|j: int, other: RunState| i < j < history.len() implies
                        !#[trigger] lands_in(history[j].event, other) by {
                        if j < last {
                            assert(history[j] == less[j]);
                            assert(!lands_in(less[j].event, other));
                        }
                    }
                },
                None => {
                    assert forall|j: int, other: RunState| 0 <= j < history.len() implies
                        !#[trigger] lands_in(history[j].event, other) by {
                        if j < last {
                            assert(history[j] == less[j]);
                            assert(!lands_in(less[j].event, other));
                        }
                    }
                },
            }
        }
    }
}

/// The bills of a history, in order.
pub open spec fn bills(history: Seq<event::EnvelopeView>) -> Seq<TokenUsage>
    decreases history.len(),
{
    if history.len() == 0 {
        Seq::empty()
    } else {
        match history.last().event {
            EventView::TokensUsed { iteration, usage } => bills(history.drop_last()).push(usage),
            _ => bills(history.drop_last()),
        }
    }
}

/// The tokens that some bills count as input, in all.
pub open spec fn inputs(all: Seq<TokenUsage>) -> nat
    decreases all.len(),
{
    if all.len() == 0 {
        0
    } else {
        inputs(all.drop_last()) + all.last().input as nat
    }
}

/// The tokens that some bills count as output, in all.
pub open spec fn outputs(all: Seq<TokenUsage>) -> nat
    decreases all.len(),
{
    if all.len() == 0 {
        0
    } else {
        outputs(all.drop_last()) + all.last().output as nat
    }
}

/// A count of tokens, as far as it can be written down.
pub open spec fn capped_tokens(n: nat) -> u64 {
    if n <= u64::MAX {
        n as u64
    } else {
        u64::MAX
    }
}

/// A child's bill is the sum of its history's bills, on either side; it has
/// none where its history has none.
pub proof fn a_child_bills_what_its_history_bills(history: Seq<event::EnvelopeView>)
    ensures
        match batch::bill_of(history) {
            Some(bill) => {
                &&& bills(history).len() > 0
                &&& bill.input == capped_tokens(inputs(bills(history)))
                &&& bill.output == capped_tokens(outputs(bills(history)))
            },
            None => bills(history).len() == 0,
        },
    decreases history.len(),
{
    if history.len() > 0 {
        let less = history.drop_last();
        a_child_bills_what_its_history_bills(less);
        if let EventView::TokensUsed { iteration, usage } = history.last().event {
            assert(bills(history).drop_last() =~= bills(less));
            assert(bills(history).last() == usage);
            assert(inputs(bills(history)) == inputs(bills(less)) + usage.input as nat);
            assert(outputs(bills(history)) == outputs(bills(less)) + usage.output as nat);
            if batch::bill_of(less) is None {
                assert(inputs(bills(less)) == 0 && outputs(bills(less)) == 0);
            }
        }
    }
}

} // verus!
