//! What a command of the program does, read off what went to and fro alone:
//! wherever it stands, its history calls for what it asks for next.

use crate::cli::{self, Action, Command, CommandTurn, Dispatch, Failure, Happening, Stand};
use crate::client::{self, Client, Request};
use crate::dto::{self, ListRunsResponse, RunStatusResponse, SubmitRunResponse};
use crate::report;
use crate::wire;
use vstd::prelude::*;

verus! {

/// What a command's history shows.
#[verifier::ext_equal]
pub ghost struct Log {
    /// The action that was asked for last, and what came of it.
    pub asked: Option<Action>,
    pub heard: Option<Happening>,
    /// The flow that was read.
    pub flow: Seq<char>,
    /// The daemon's address and token, and whether it could be started here.
    pub address: Seq<char>,
    pub token: Seq<char>,
    pub local: bool,
    /// How many requests were sent.
    pub sent: nat,
}

/// A history in which nothing has happened.
pub open spec fn nothing() -> Log {
    Log {
        asked: None,
        heard: None,
        flow: Seq::empty(),
        address: Seq::empty(),
        token: Seq::empty(),
        local: false,
        sent: 0,
    }
}

/// A history with one more action asked for.
pub open spec fn see(l: Log, action: Action) -> Log {
    Log {
        asked: Some(action),
        heard: None,
        sent: if action is Send {
            l.sent + 1
        } else {
            l.sent
        },
        ..l
    }
}

/// A history with what came of the last action.
pub open spec fn hear(l: Log, happening: Happening) -> Log {
    let told = Log { heard: Some(happening), ..l };
    match (l.asked, happening) {
        (Some(Action::ReadFlow(_)), Happening::Flow(Ok(flow))) => Log { flow: flow@, ..told },
        (Some(Action::Connect), Happening::Connected { address, token, local }) => Log {
            address: address@,
            token: token@,
            local,
            ..told
        },
        _ => told,
    }
}

/// Whether a client is the one of the daemon that was made out.
pub open spec fn is_daemons(client: Client, l: Log) -> bool {
    client.address@ == l.address && client.authorization@ == "Bearer "@ + l.token
}

/// Whether the daemon has just been made out.
pub open spec fn made_out(l: Log) -> bool {
    &&& l.asked matches Some(Action::Connect)
    &&& l.heard matches Some(Happening::Connected { .. })
    &&& l.sent == 0
}

/// Whether a history calls for a request: the one that the command is for; a
/// submission once more where a local daemon was started in between; and an
/// answer once the pending questions were printed.
pub open spec fn sends_rightly(command: Command, l: Log, client: Client, request: Request) -> bool {
    match command {
        Command::Run { flow } => {
            &&& client.submits(request, l.flow)
            &&& made_out(l) || {
                &&& l.sent == 1
                &&& l.local
                &&& l.asked matches Some(Action::StartDaemon)
                &&& l.heard matches Some(Happening::Started(Ok(_)))
            }
        },
        Command::List => made_out(l) && client.lists(request),
        Command::Attach { run } => false,
        Command::Answer { run, question, answer } => {
            ||| made_out(l) && client.inspects(request, run@)
            ||| {
                &&& l.sent == 1
                &&& l.asked matches Some(Action::Print(_))
                &&& question matches Some(question)
                &&& answer matches Some(answer)
                &&& client.answers(
                    request,
                    run@,
                    report::AnswerView { question_id: question@, answer: answer@ },
                )
            }
        },
        Command::Resume { run, note } => made_out(l) && client.resumes(
            request,
            run@,
            wire::opt_text(note),
        ),
        Command::Cancel { run } => made_out(l) && client.cancels(request, run@),
        Command::Validate { flow } => false,
        Command::Schema => false,
    }
}

/// Whether a history calls for the action that a command asks for next.
pub open spec fn asks_rightly(command: Command, l: Log, action: Action) -> bool {
    match action {
        Action::ReadFlow(path) => l.asked is None && match command {
            Command::Run { flow } => path@ == flow@,
            Command::Validate { flow } => path@ == flow@,
            _ => false,
        },
        Action::DraftSchema => l.asked is None && command is Schema,
        Action::Connect => match command {
            Command::Run { .. } => {
                &&& l.asked matches Some(Action::ReadFlow(_))
                &&& l.heard matches Some(Happening::Flow(Ok(_)))
            },
            Command::Validate { .. } => false,
            Command::Schema => false,
            _ => l.asked is None,
        },
        Action::Follow(run) => made_out(l) && (command matches Command::Attach { run: given }
            && run@ == given@),
        Action::StartDaemon => {
            &&& command is Run
            &&& l.local
            &&& l.sent == 1
            &&& l.asked matches Some(Action::Send(_))
            &&& l.heard matches Some(Happening::Replied(Err(_)))
        },
        Action::Print(words) => {
            &&& command is Answer
            &&& l.sent == 1
            &&& l.asked matches Some(Action::Send(_))
            &&& l.heard matches Some(Happening::Replied(reply))
            &&& exists|status: RunStatusResponse| #[trigger]
                client::reports_to("status"@, reply, Ok(status)) && words@ == cli::questions_words(
                    report::question_views(status.pending_questions@),
                )
        },
        Action::Send(request) => exists|client: Client|
            is_daemons(client, l) && #[trigger] sends_rightly(command, l, client, request),
    }
}

/// Whether what a command prints at its end is what its history shows.
pub open spec fn prints_rightly(command: Command, l: Log, words: Seq<char>) -> bool {
    match command {
        Command::Validate { flow } => {
            &&& l.asked matches Some(Action::ReadFlow(_))
            &&& l.heard matches Some(Happening::Flow(Ok(_)))
            &&& words == flow@ + ": valid flow\n"@
        },
        Command::Schema => l.heard matches Some(Happening::Schema(schema)) && words == schema@,
        Command::Attach { .. } => l.heard matches Some(Happening::Followed(Ok(_))) && words.len()
            == 0,
        Command::Run { .. } => l.heard matches Some(Happening::Replied(reply)) && exists|
            response: SubmitRunResponse,
        | #[trigger]
            client::submits_to(reply, Ok(response)) && words == response.run_id@ + "\n"@,
        Command::List => l.heard matches Some(Happening::Replied(reply)) && exists|
            list: ListRunsResponse,
        | #[trigger]
            client::lists_to(reply, Ok(list)) && words == cli::table(dto::entry_views(list.runs@)),
        Command::Answer { run, question, answer } => if question is Some && answer is Some {
            &&& l.sent == 2
            &&& l.heard matches Some(Happening::Replied(reply))
            &&& exists|status: RunStatusResponse| #[trigger]
                client::reports_to("answer"@, reply, Ok(status))
            &&& words == "answered "@ + question->0@ + "\n"@
        } else {
            &&& l.asked matches Some(Action::Print(_))
            &&& words.len() == 0
        },
        Command::Resume { run, note } => {
            &&& l.heard matches Some(Happening::Replied(reply))
            &&& exists|status: RunStatusResponse| #[trigger]
                client::reports_to("resume"@, reply, Ok(status))
            &&& words == "resumed "@ + run@ + "\n"@
        },
        Command::Cancel { run } => {
            &&& l.heard matches Some(Happening::Replied(reply))
            &&& exists|status: RunStatusResponse| #[trigger]
                client::reports_to("cancel"@, reply, Ok(status))
            &&& words == "cancelled "@ + run@ + "\n"@
        },
    }
}

/// Whether a command's end is what its history shows. A flow that is not
/// valid is told of under its path, and no other failure is one of
/// validation.
pub open spec fn ends_rightly(command: Command, l: Log, end: Result<String, Failure>) -> bool {
    match end {
        Ok(words) => prints_rightly(command, l, words@),
        Err(Failure::Validation(words)) => {
            &&& l.asked matches Some(Action::ReadFlow(path))
            &&& l.heard matches Some(Happening::Flow(Err(error)))
            &&& words@ == path@ + ": "@ + error@
        },
        Err(Failure::Daemon(words)) => {
            // What was done as it should be is no failure.
            &&& !(l.heard matches Some(Happening::Printed) && l.asked matches Some(
                Action::Print(_),
            ))
            &&& l.asked matches Some(Action::ReadFlow(_)) ==> !(l.heard matches Some(
                Happening::Flow(_),
            ))
            &&& l.asked matches Some(Action::Connect) ==> !(l.heard matches Some(
                Happening::Connected { .. },
            ))
        },
    }
}

/// What the history of a command shows that asked for `actions`, and what
/// came of each.
pub open spec fn sight(actions: Seq<Action>, happenings: Seq<Happening>) -> Log
    decreases happenings.len(),
{
    if happenings.len() == 0 {
        nothing()
    } else {
        hear(
            see(sight(actions.drop_last(), happenings.drop_last()), actions.last()),
            happenings.last(),
        )
    }
}

/// Whether a command that began at `start` stands at `turn` once it has asked
/// for `actions`, and each of them came to something.
pub open spec fn comes_to(
    start: CommandTurn,
    actions: Seq<Action>,
    happenings: Seq<Happening>,
    turn: CommandTurn,
) -> bool
    decreases happenings.len(),
{
    &&& actions.len() == happenings.len()
    &&& if happenings.len() == 0 {
        turn == start
    } else {
        exists|before: Dispatch| #[trigger]
            before.answered(happenings.last(), turn) && comes_to(
                start,
                actions.drop_last(),
                happenings.drop_last(),
                CommandTurn::Act(before, actions.last()),
            )
    }
}

/// Whether a command stands where its history shows it.
spec fn stands(d: Dispatch, command: Command, l: Log) -> bool {
    let linked = is_daemons(d.client, l) && d.local == l.local;
    &&& d.command == command
    &&& d.well_formed()
    &&& l.asked is Some
    &&& match d.stand {
        Stand::Reading => l.asked->0 matches Action::ReadFlow(path) && path@ == d.path() && l.sent
            == 0,
        Stand::Connecting => l.asked->0 is Connect && l.sent == 0 && (command is Run ==> d.flow@
            == l.flow),
        Stand::Submitting => l.asked->0 is Send && l.sent == 1 && linked && d.flow@ == l.flow,
        Stand::Starting => l.asked->0 is StartDaemon && l.sent == 1 && linked && l.local && d.flow@
            == l.flow,
        Stand::Resubmitting => l.asked->0 is Send && l.sent == 2,
        Stand::Listing => l.asked->0 is Send && l.sent == 1,
        Stand::Following => l.asked->0 is Follow,
        Stand::Reviewing => l.asked->0 is Send && l.sent == 1 && linked,
        Stand::Showing => l.asked->0 is Print && l.sent == 1 && linked,
        Stand::Answering => l.asked->0 is Send && l.sent == 2,
        Stand::Resuming => l.asked->0 is Send && l.sent == 1,
        Stand::Cancelling => l.asked->0 is Send && l.sent == 1,
        Stand::Drafting => l.asked->0 is DraftSchema,
    }
}

/// One step of a command, seen from its history.
proof fn lemma_step(d: Dispatch, command: Command, l: Log, happening: Happening, turn: CommandTurn)
    requires
        stands(d, command, l),
        d.answered(happening, turn),
    ensures
        match turn {
            CommandTurn::Act(next, action) => {
                &&& asks_rightly(command, hear(l, happening), action)
                &&& stands(next, command, see(hear(l, happening), action))
            },
            CommandTurn::End(end) => ends_rightly(command, hear(l, happening), end),
        },
{
    let h = hear(l, happening);
    if let CommandTurn::Act(next, action) = turn {
        if let Action::Send(request) = action {
            assert(is_daemons(next.client, h));
            assert(sends_rightly(command, h, next.client, request));
        }
    }
}

proof fn lemma_course(
    command: Command,
    begun: Dispatch,
    first: Action,
    actions: Seq<Action>,
    happenings: Seq<Happening>,
    turn: CommandTurn,
)
    requires
        begins(command, begun, first),
        comes_to(CommandTurn::Act(begun, first), actions, happenings, turn),
    ensures
        match turn {
            CommandTurn::Act(next, action) => {
                &&& asks_rightly(command, sight(actions, happenings), action)
                &&& stands(next, command, see(sight(actions, happenings), action))
            },
            CommandTurn::End(end) => ends_rightly(command, sight(actions, happenings), end),
        },
    decreases happenings.len(),
{
    let start = CommandTurn::Act(begun, first);
    if happenings.len() > 0 {
        let before = choose|before: Dispatch| #[trigger]
            before.answered(happenings.last(), turn) && comes_to(
                start,
                actions.drop_last(),
                happenings.drop_last(),
                CommandTurn::Act(before, actions.last()),
            );
        lemma_course(
            command,
            begun,
            first,
            actions.drop_last(),
            happenings.drop_last(),
            CommandTurn::Act(before, actions.last()),
        );
        let l = see(sight(actions.drop_last(), happenings.drop_last()), actions.last());
        lemma_step(before, command, l, happenings.last(), turn);
    }
}

/// Whether a command begins so.
pub open spec fn begins(command: Command, begun: Dispatch, first: Action) -> bool {
    &&& begun.command == command
    &&& begun.well_formed()
    &&& begun.asks(first)
    &&& begun.stand == match command {
        Command::Run { .. } => Stand::Reading,
        Command::Validate { .. } => Stand::Reading,
        Command::Schema => Stand::Drafting,
        _ => Stand::Connecting,
    }
}

/// What a command does, its history calls for. Whatever comes of its actions,
/// the one that it asks for next is one that the history calls for, and its
/// end is one that the history shows: a command sends the request that it is
/// for and no other, submits at most twice and only where it has started a
/// local daemon in between, and answers only once the questions were printed.
pub proof fn a_command_goes_by_its_history(
    command: Command,
    begun: Dispatch,
    first: Action,
    actions: Seq<Action>,
    happenings: Seq<Happening>,
    turn: CommandTurn,
)
    requires
        begins(command, begun, first),
        comes_to(CommandTurn::Act(begun, first), actions, happenings, turn),
    ensures
        match turn {
            CommandTurn::Act(_, action) => asks_rightly(
                command,
                sight(actions, happenings),
                action,
            ),
            CommandTurn::End(end) => ends_rightly(command, sight(actions, happenings), end),
        },
{
    lemma_course(command, begun, first, actions, happenings, turn);
}

} // verus!
