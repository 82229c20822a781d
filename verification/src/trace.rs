//! What a machine has done so far, read off the effects it has asked for and
//! the replies it got: the events that were logged, the commands that ran,
//! and how each of them ended. `replies[i]` answers `effects[i]`; the last
//! effect may still wait for its reply.

use crate::event::EventView;
use crate::kernel::{Effect, KernelError, Reply};
use crate::sandbox::{ExecEvent, ExitStatus};
use crate::text;
use vstd::prelude::*;

verus! {

/// The event that an effect logs, if it logs one.
pub open spec fn logs(effect: Effect) -> Seq<EventView> {
    match effect {
        Effect::Emit(event) => seq![event@],
        _ => Seq::empty(),
    }
}

/// The events that were logged, in order.
pub open spec fn logged(effects: Seq<Effect>) -> Seq<EventView>
    decreases effects.len(),
{
    if effects.len() == 0 {
        Seq::empty()
    } else {
        logged(effects.drop_last()) + logs(effects.last())
    }
}

/// The argument vector of the command that an effect starts, if it starts
/// one.
pub open spec fn starts(effect: Effect) -> Seq<Seq<Seq<char>>> {
    match effect {
        Effect::Exec(spec) => seq![text::texts(spec.argv@)],
        _ => Seq::empty(),
    }
}

/// The argument vectors of the commands that were started, in order.
pub open spec fn executed(effects: Seq<Effect>) -> Seq<Seq<Seq<char>>>
    decreases effects.len(),
{
    if effects.len() == 0 {
        Seq::empty()
    } else {
        executed(effects.drop_last()) + starts(effects.last())
    }
}

/// The status of the running command once `reply` has answered `effect`, where
/// it was `exit` before: a fresh command has none.
pub open spec fn exit_after(exit: Option<ExitStatus>, effect: Effect, reply: Reply) -> Option<
    ExitStatus,
> {
    match (effect, reply) {
        (Effect::Exec(_), _) => None,
        (Effect::NextOutput, Reply::Output(ExecEvent::Exited(status))) => Some(status),
        _ => exit,
    }
}

/// The status with which the command that was started last has ended, as far
/// as it has.
pub open spec fn exit_of(effects: Seq<Effect>, replies: Seq<Reply>) -> Option<ExitStatus>
    decreases replies.len(),
{
    if replies.len() == 0 {
        None
    } else {
        exit_after(
            exit_of(effects, replies.drop_last()),
            effects[replies.len() - 1],
            replies.last(),
        )
    }
}

/// What the running command has printed once `reply` has answered `effect`,
/// where it was `printed` before: both streams in the order of arrival.
pub open spec fn printed_after(printed: Seq<u8>, effect: Effect, reply: Reply) -> Seq<u8> {
    match (effect, reply) {
        (Effect::Exec(_), _) => Seq::empty(),
        (Effect::NextOutput, Reply::Output(ExecEvent::Stdout(bytes))) => printed + bytes@,
        (Effect::NextOutput, Reply::Output(ExecEvent::Stderr(bytes))) => printed + bytes@,
        _ => printed,
    }
}

/// What the command that was started last has printed so far.
pub open spec fn printed_by(effects: Seq<Effect>, replies: Seq<Reply>) -> Seq<u8>
    decreases replies.len(),
{
    if replies.len() == 0 {
        Seq::empty()
    } else {
        printed_after(
            printed_by(effects, replies.drop_last()),
            effects[replies.len() - 1],
            replies.last(),
        )
    }
}

/// How a command ended: whether with code 0, and what it had printed.
#[verifier::ext_equal]
pub ghost struct CommandEnd {
    pub clean: bool,
    pub output: Seq<u8>,
}

/// How the running command ended, if `reply` to `effect` ended it: its status
/// was `exit` and it had printed `printed`.
pub open spec fn ended_by(
    exit: Option<ExitStatus>,
    printed: Seq<u8>,
    effect: Effect,
    reply: Reply,
) -> Seq<CommandEnd> {
    match (effect, reply) {
        (Effect::NextOutput, Reply::OutputEnd) => seq![
            CommandEnd {
                clean: exit matches Some(status) && status.code == Some(0i32),
                output: printed,
            },
        ],
        _ => Seq::empty(),
    }
}

/// How the commands ended whose output came to its end, in order.
pub open spec fn ends(effects: Seq<Effect>, replies: Seq<Reply>) -> Seq<CommandEnd>
    decreases replies.len(),
{
    if replies.len() == 0 {
        Seq::empty()
    } else {
        ends(effects, replies.drop_last()) + ended_by(
            exit_of(effects, replies.drop_last()),
            printed_by(effects, replies.drop_last()),
            effects[replies.len() - 1],
            replies.last(),
        )
    }
}

/// Whether a reply is of the kind that an effect asks for. An effect that has
/// nothing to tell takes any reply for its being done.
pub open spec fn answers(effect: Effect, reply: Reply) -> bool {
    match effect {
        Effect::Head => reply is Head,
        Effect::Checkpoint(_) => reply is Committed,
        Effect::ReadFile(_) => reply is File,
        Effect::ReadHostText(_) => reply is Text,
        Effect::NextOutput => reply is Output || reply is OutputEnd,
        Effect::Spawn(_) => reply is Spawned,
        Effect::NextSettled => reply is Settled || reply is WatchLost || reply is AllSettled,
        _ => true,
    }
}

/// Whether an error is the host's own doing: the one it failed with, or word
/// of a reply that does not answer what was asked.
pub open spec fn is_the_hosts(effect: Effect, reply: Reply, error: KernelError) -> bool {
    reply == Reply::Failed(error) || (error is OutOfStep && !answers(effect, reply))
}

/// Effects that are asked for later change nothing of how the commands
/// before them ended.
pub proof fn lemma_later_effects(effects: Seq<Effect>, replies: Seq<Reply>, effect: Effect)
    requires
        replies.len() <= effects.len(),
    ensures
        exit_of(effects.push(effect), replies) == exit_of(effects, replies),
        printed_by(effects.push(effect), replies) == printed_by(effects, replies),
        ends(effects.push(effect), replies) == ends(effects, replies),
    decreases replies.len(),
{
    if replies.len() > 0 {
        lemma_later_effects(effects, replies.drop_last(), effect);
        assert(effects.push(effect)[replies.len() - 1] == effects[replies.len() - 1]);
    }
}

/// One more effect, seen from what was logged and started.
pub proof fn lemma_one_more(effects: Seq<Effect>, effect: Effect)
    ensures
        logged(effects.push(effect)) == logged(effects) + logs(effect),
        executed(effects.push(effect)) == executed(effects) + starts(effect),
{
    assert(effects.push(effect).drop_last() =~= effects);
    assert(effects.push(effect).last() == effect);
}

/// One more reply, seen from how the commands ended.
pub proof fn lemma_one_more_reply(effects: Seq<Effect>, replies: Seq<Reply>, reply: Reply)
    requires
        replies.len() < effects.len(),
    ensures
        exit_of(effects, replies.push(reply)) == exit_after(
            exit_of(effects, replies),
            effects[replies.len() as int],
            reply,
        ),
        printed_by(effects, replies.push(reply)) == printed_after(
            printed_by(effects, replies),
            effects[replies.len() as int],
            reply,
        ),
        ends(effects, replies.push(reply)) == ends(effects, replies) + ended_by(
            exit_of(effects, replies),
            printed_by(effects, replies),
            effects[replies.len() as int],
            reply,
        ),
{
    assert(replies.push(reply).drop_last() =~= replies);
}

} // verus!
