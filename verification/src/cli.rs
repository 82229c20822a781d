//! The commands of the client program: what each of them asks of the daemon
//! and of the host, in which order, and what it prints in the end.

use crate::client::{self, Client, ClientError, Reply, Request};
use crate::dto::{self, ListRunsResponse, RunListEntry, RunStatusResponse, SubmitRunResponse};
use crate::report::{self, Question};
use crate::run::RunState;
use crate::text;
use crate::wire;
use vstd::prelude::*;

verus! {

/// The exit code of a flow that does not validate.
pub const VALIDATION_FAILURE: u8 = 2;

/// The exit code of a daemon that cannot be reached or refuses.
pub const DAEMON_FAILURE: u8 = 3;

/// The two variants are the two published exit codes; each carries the line
/// the process exits with.
#[derive(Debug, Clone, PartialEq, Eq)]
pub enum Failure {
    Validation(String),
    Daemon(String),
}

impl Failure {
    /// A failed operation on the daemon.
    pub fn daemon(operation: &str, error: &str) -> (r: Failure)
        ensures
            r matches Failure::Daemon(words) && words@ == operation@ + " failed: "@ + error@,
    {
        let mut s = operation.to_owned();
        s.append(" failed: ");
        s.append(error);
        Failure::Daemon(s)
    }

    pub fn exit_code(&self) -> (r: u8)
        ensures
            r == match self {
                Failure::Validation(_) => VALIDATION_FAILURE,
                Failure::Daemon(_) => DAEMON_FAILURE,
            },
    {
        match self {
            Failure::Validation(_) => VALIDATION_FAILURE,
            Failure::Daemon(_) => DAEMON_FAILURE,
        }
    }

    pub fn to_text(&self) -> (s: String)
        ensures
            s@ == match self {
                Failure::Validation(words) => words@,
                Failure::Daemon(words) => words@,
            },
    {
        match self {
            Failure::Validation(words) => words.clone(),
            Failure::Daemon(words) => words.clone(),
        }
    }
}

/// A run's state as the list shows it.
pub open spec fn state_words(state: RunState) -> Seq<char> {
    match state {
        RunState::Paused { reason } => "paused ("@ + reason.word() + ")"@,
        _ => state.word(),
    }
}

/// [`state_words`], computed.
pub fn state(shown: RunState) -> (s: String)
    ensures
        s@ == state_words(shown),
{
    match shown {
        RunState::Paused { reason } => {
            let mut s = "paused (".to_owned();
            s.append(reason.as_str());
            s.append(")");
            s
        },
        _ => shown.as_str().to_owned(),
    }
}

/// One line of the list.
pub open spec fn entry_line(e: dto::EntryView) -> Seq<char> {
    match e {
        dto::EntryView::Run(run) => run.run_id + "\t"@ + state_words(run.state) + "\t"@ + run.kernel
            + "\t"@ + run.agent + "\t"@ + run.updated_at + "\n"@,
        dto::EntryView::Unreadable(run) => run.run_id + "\tunreadable ("@ + run.reason + ")\t"@
            + run.kernel + "\t"@ + run.agent + "\t-\n"@,
    }
}

/// The list as it is printed: a heading, and a line for each run.
pub open spec fn table(runs: Seq<dto::EntryView>) -> Seq<char>
    decreases runs.len(),
{
    if runs.len() == 0 {
        "RUN ID\tSTATE\tKERNEL\tAGENT\tUPDATED\n"@
    } else {
        table(runs.drop_last()) + entry_line(runs.last())
    }
}

fn line_of(entry: &RunListEntry) -> (s: String)
    ensures
        s@ == entry_line(entry@),
{
    match entry {
        RunListEntry::Run(run) => {
            let mut s = run.run_id.clone();
            s.append("\t");
            let words = state(run.state);
            s.append(words.as_str());
            s.append("\t");
            s.append(run.kernel.as_str());
            s.append("\t");
            s.append(run.agent.as_str());
            s.append("\t");
            s.append(run.updated_at.as_str());
            s.append("\n");
            s
        },
        RunListEntry::Unreadable(run) => {
            let mut s = run.run_id.clone();
            s.append("\tunreadable (");
            s.append(run.reason.as_str());
            s.append(")\t");
            s.append(run.kernel.as_str());
            s.append("\t");
            s.append(run.agent.as_str());
            s.append("\t-\n");
            s
        },
    }
}

/// [`table`], computed.
pub fn print_runs(list: &ListRunsResponse) -> (s: String)
    ensures
        s@ == table(dto::entry_views(list.runs@)),
{
    let ghost all = dto::entry_views(list.runs@);
    let mut s = "RUN ID\tSTATE\tKERNEL\tAGENT\tUPDATED\n".to_owned();
    assert(all.take(0) =~= Seq::empty());
    for i in 0..list.runs.len()
        invariant
            all == dto::entry_views(list.runs@),
            s@ == table(all.take(i as int)),
    {
        let line = line_of(&list.runs[i]);
        s.append(line.as_str());
        assert(all.take(i + 1).drop_last() =~= all.take(i as int));
        assert(all.take(i + 1).last() == list.runs@[i as int]@);
    }
    assert(all.take(all.len() as int) =~= all);
    s
}

/// A pending question as it is printed: its id and text, and the suggested
/// answers where there are some.
pub open spec fn question_words(q: report::QuestionView) -> Seq<char> {
    let asked = q.id + ": "@ + q.text + "\n"@;
    if q.options.len() == 0 {
        asked
    } else {
        asked + "  options: "@ + text::joined(q.options, ", "@) + "\n"@
    }
}

/// Pending questions as they are printed.
pub open spec fn questions_words(questions: Seq<report::QuestionView>) -> Seq<char>
    decreases questions.len(),
{
    if questions.len() == 0 {
        Seq::empty()
    } else {
        questions_words(questions.drop_last()) + question_words(questions.last())
    }
}

/// [`questions_words`], computed.
pub fn print_questions(questions: &Vec<Question>) -> (s: String)
    ensures
        s@ == questions_words(report::question_views(questions@)),
{
    let ghost all = report::question_views(questions@);
    let mut s: String = String::new();
    assert(all.take(0) =~= Seq::empty());
    assert(s@ =~= questions_words(all.take(0)));
    for i in 0..questions.len()
        invariant
            all == report::question_views(questions@),
            s@ == questions_words(all.take(i as int)),
    {
        let ghost before = s@;
        let ghost q = questions@[i as int]@;
        s.append(questions[i].id.as_str());
        s.append(": ");
        s.append(questions[i].text.as_str());
        s.append("\n");
        if questions[i].options.len() > 0 {
            s.append("  options: ");
            let options = text::join(&questions[i].options, ", ");
            s.append(options.as_str());
            s.append("\n");
        }
        assert(all.take(i + 1).drop_last() =~= all.take(i as int));
        assert(all.take(i + 1).last() == q);
        assert(s@ =~= before + question_words(q));
    }
    assert(all.take(all.len() as int) =~= all);
    s
}

/// A command of the program.
#[derive(Debug, Clone, PartialEq, Eq)]
pub enum Command {
    /// Submit a flow to the daemon and return immediately.
    Run { flow: String },
    /// List every run and its current state.
    List,
    /// Replay a run's events, then follow it until it finishes.
    Attach { run: String },
    /// Show a paused run's pending questions, and answer one of them where a
    /// question and its answer are given.
    Answer { run: String, question: Option<String>, answer: Option<String> },
    /// Resume a paused run.
    Resume { run: String, note: Option<String> },
    /// Cancel a run cleanly.
    Cancel { run: String },
    /// Validate a flow file without a daemon.
    Validate { flow: String },
    /// Print the schema of flow files.
    Schema,
}

impl Command {
    /// How a failure names the command.
    pub open spec fn operation(self) -> Seq<char> {
        match self {
            Command::Run { .. } => "submit"@,
            Command::List => "list"@,
            Command::Attach { .. } => "attach"@,
            Command::Answer { .. } => "answer"@,
            Command::Resume { .. } => "resume"@,
            Command::Cancel { .. } => "cancel"@,
            Command::Validate { .. } => "validate"@,
            Command::Schema => "schema"@,
        }
    }

    fn name(&self) -> (s: &'static str)
        ensures
            s@ == self.operation(),
    {
        match self {
            Command::Run { .. } => "submit",
            Command::List => "list",
            Command::Attach { .. } => "attach",
            Command::Answer { .. } => "answer",
            Command::Resume { .. } => "resume",
            Command::Cancel { .. } => "cancel",
            Command::Validate { .. } => "validate",
            Command::Schema => "schema",
        }
    }
}

/// Where a command stands: at the action whose outcome it awaits.
#[derive(Debug, Clone, Copy, PartialEq, Eq, Structural)]
pub enum Stand {
    /// Reading a flow file and holding it to the flow format.
    Reading,
    /// Making out the daemon's address and token.
    Connecting,
    Submitting,
    /// Starting a local daemon.
    Starting,
    /// Submitting once more, and for the last time.
    Resubmitting,
    Listing,
    Following,
    /// Asking for the pending questions.
    Reviewing,
    /// Printing them.
    Showing,
    Answering,
    Resuming,
    Cancelling,
    /// Drawing up the schema.
    Drafting,
}

/// What a command asks to be done.
#[derive(Debug, Clone, PartialEq, Eq)]
pub enum Action {
    ReadFlow(String),
    Connect,
    Send(Request),
    StartDaemon,
    /// Follow a run until it finishes.
    Follow(String),
    Print(String),
    DraftSchema,
}

/// What came of an action.
#[derive(Debug, PartialEq, Eq)]
pub enum Happening {
    /// The text of a valid flow, or why there is none.
    Flow(Result<String, String>),
    /// The daemon's address and token, and whether it is one that could be
    /// started here.
    Connected { address: String, token: String, local: bool },
    Unconfigured(String),
    Replied(Result<Reply, String>),
    Started(Result<(), String>),
    Followed(Result<(), String>),
    Printed,
    Schema(String),
}

/// Where a command goes: to its next action, or to its end and what it
/// prints there.
pub enum CommandTurn {
    Act(Dispatch, Action),
    End(Result<String, Failure>),
}

/// A command under way.
pub struct Dispatch {
    pub command: Command,
    pub stand: Stand,
    /// The flow to be submitted, once it was read.
    pub flow: String,
    /// The daemon's client, once there is one.
    pub client: Client,
    pub local: bool,
}

/// Whether a command ends by printing `words`.
pub open spec fn prints(to: CommandTurn, words: Seq<char>) -> bool {
    to matches CommandTurn::End(Ok(printed)) && printed@ == words
}

/// Whether a command ends with a validation failure that says `words`.
pub open spec fn invalid(to: CommandTurn, words: Seq<char>) -> bool {
    to matches CommandTurn::End(Err(Failure::Validation(told))) && told@ == words
}

/// Whether a command ends with a failure of the daemon that says `words`.
pub open spec fn breaks(to: CommandTurn, words: Seq<char>) -> bool {
    to matches CommandTurn::End(Err(Failure::Daemon(told))) && told@ == words
}

impl Dispatch {
    /// The run a command is about.
    pub open spec fn run(&self) -> Seq<char> {
        match self.command {
            Command::Attach { run } => run@,
            Command::Answer { run, .. } => run@,
            Command::Resume { run, .. } => run@,
            Command::Cancel { run } => run@,
            _ => Seq::empty(),
        }
    }

    /// The path of the flow file a command is about.
    pub open spec fn path(&self) -> Seq<char> {
        match self.command {
            Command::Run { flow } => flow@,
            Command::Validate { flow } => flow@,
            _ => Seq::empty(),
        }
    }

    /// The answer that is to be given, where there is one.
    pub open spec fn given(&self) -> Option<report::AnswerView> {
        match self.command {
            Command::Answer { question: Some(question), answer: Some(answer), .. } => Some(
                report::AnswerView { question_id: question@, answer: answer@ },
            ),
            _ => None,
        }
    }

    /// The guidance a resumed run gets.
    pub open spec fn note(&self) -> Option<Seq<char>> {
        match self.command {
            Command::Resume { note, .. } => wire::opt_text(note),
            _ => None,
        }
    }

    /// Whether an action is the one the command stands at. What is printed
    /// depends on the reply before it, and is not said here.
    pub open spec fn asks(&self, action: Action) -> bool {
        match self.stand {
            Stand::Reading => action matches Action::ReadFlow(path) && path@ == self.path(),
            Stand::Connecting => action is Connect,
            Stand::Submitting => action matches Action::Send(request) && self.client.submits(
                request,
                self.flow@,
            ),
            Stand::Resubmitting => action matches Action::Send(request) && self.client.submits(
                request,
                self.flow@,
            ),
            Stand::Starting => action is StartDaemon,
            Stand::Listing => action matches Action::Send(request) && self.client.lists(request),
            Stand::Following => action matches Action::Follow(run) && run@ == self.run(),
            Stand::Reviewing => action matches Action::Send(request) && self.client.inspects(
                request,
                self.run(),
            ),
            Stand::Showing => action is Print,
            Stand::Answering => self.given() is Some && (action matches Action::Send(request)
                && self.client.answers(request, self.run(), self.given()->0)),
            Stand::Resuming => action matches Action::Send(request) && self.client.resumes(
                request,
                self.run(),
                self.note(),
            ),
            Stand::Cancelling => action matches Action::Send(request) && self.client.cancels(
                request,
                self.run(),
            ),
            Stand::Drafting => action is DraftSchema,
        }
    }

    /// Whether the command at hand is one that gets where it stands.
    pub open spec fn well_formed(&self) -> bool {
        match self.stand {
            Stand::Reading => self.command is Run || self.command is Validate,
            Stand::Connecting => !(self.command is Validate) && !(self.command is Schema),
            Stand::Submitting => self.command is Run,
            Stand::Starting => self.command is Run,
            Stand::Resubmitting => self.command is Run,
            Stand::Listing => self.command is List,
            Stand::Following => self.command is Attach,
            Stand::Reviewing => self.command is Answer,
            Stand::Showing => self.command is Answer,
            Stand::Answering => self.given() is Some,
            Stand::Resuming => self.command is Resume,
            Stand::Cancelling => self.command is Cancel,
            Stand::Drafting => self.command is Schema,
        }
    }

    /// Where a connected command stands.
    pub open spec fn connected(&self) -> Stand {
        match self.command {
            Command::Run { .. } => Stand::Submitting,
            Command::List => Stand::Listing,
            Command::Attach { .. } => Stand::Following,
            Command::Answer { .. } => Stand::Reviewing,
            Command::Resume { .. } => Stand::Resuming,
            _ => Stand::Cancelling,
        }
    }

    /// Whether `to` is the command at another action, all else as it was.
    pub open spec fn proceeds(&self, stand: Stand, to: CommandTurn) -> bool {
        &&& to matches CommandTurn::Act(next, action)
        &&& next == (Dispatch { stand, ..*self })
        &&& next.asks(action)
    }

    /// The words for a failed operation.
    pub open spec fn failed(&self, error: Seq<char>) -> Seq<char> {
        self.command.operation() + " failed: "@ + error
    }

    /// Whether `to` is the end with what came of a request: `words` where it
    /// succeeded.
    pub open spec fn concludes(
        &self,
        outcome: Result<RunStatusResponse, ClientError>,
        words: Seq<char>,
        to: CommandTurn,
    ) -> bool {
        match outcome {
            Ok(_) => prints(to, words),
            Err(error) => breaks(to, self.failed(error.message())),
        }
    }

    /// Where the reply to a submission takes the command. A local daemon that
    /// is simply not up is worth starting; anything else, a rejection or a
    /// remote address, is the user's answer. One retry only.
    pub open spec fn submission_answered(
        &self,
        outcome: Result<SubmitRunResponse, ClientError>,
        to: CommandTurn,
    ) -> bool {
        match outcome {
            Ok(response) => prints(to, response.run_id@ + "\n"@),
            Err(error) => if self.stand is Submitting && error is Transport && self.local {
                self.proceeds(Stand::Starting, to)
            } else {
                breaks(to, self.failed(error.message()))
            },
        }
    }

    /// Where a reply of the daemon takes the command.
    pub open spec fn reply_answered(&self, reply: Result<Reply, String>, to: CommandTurn) -> bool {
        match self.stand {
            Stand::Submitting => exists|r: Result<SubmitRunResponse, ClientError>| #[trigger]
                client::submits_to(reply, r) && self.submission_answered(r, to),
            Stand::Resubmitting => exists|r: Result<SubmitRunResponse, ClientError>| #[trigger]
                client::submits_to(reply, r) && self.submission_answered(r, to),
            Stand::Listing => exists|r: Result<ListRunsResponse, ClientError>| #[trigger]
                client::lists_to(reply, r) && match r {
                    Ok(list) => prints(to, table(dto::entry_views(list.runs@))),
                    Err(error) => breaks(to, self.failed(error.message())),
                },
            Stand::Reviewing => exists|r: Result<RunStatusResponse, ClientError>| #[trigger]
                client::reports_to("status"@, reply, r) && match r {
                    Ok(status) => {
                        &&& to matches CommandTurn::Act(next, Action::Print(words))
                        &&& next == (Dispatch { stand: Stand::Showing, ..*self })
                        &&& words@ == questions_words(
                            report::question_views(status.pending_questions@),
                        )
                    },
                    Err(error) => breaks(to, self.failed(error.message())),
                },
            Stand::Answering => exists|r: Result<RunStatusResponse, ClientError>| #[trigger]
                client::reports_to("answer"@, reply, r) && self.concludes(
                    r,
                    "answered "@ + self.given()->0.question_id + "\n"@,
                    to,
                ),
            Stand::Resuming => exists|r: Result<RunStatusResponse, ClientError>| #[trigger]
                client::reports_to("resume"@, reply, r) && self.concludes(
                    r,
                    "resumed "@ + self.run() + "\n"@,
                    to,
                ),
            Stand::Cancelling => exists|r: Result<RunStatusResponse, ClientError>| #[trigger]
                client::reports_to("cancel"@, reply, r) && self.concludes(
                    r,
                    "cancelled "@ + self.run() + "\n"@,
                    to,
                ),
            _ => breaks(to, self.failed("a reply arrived out of step"@)),
        }
    }

    /// Where what came of an action takes the command.
    pub open spec fn answered(&self, happening: Happening, to: CommandTurn) -> bool {
        match (self.stand, happening) {
            (Stand::Reading, Happening::Flow(Err(error))) => invalid(
                to,
                self.path() + ": "@ + error@,
            ),
            (Stand::Reading, Happening::Flow(Ok(flow))) => if self.command is Run {
                &&& to matches CommandTurn::Act(next, Action::Connect)
                &&& next == (Dispatch { stand: Stand::Connecting, flow, ..*self })
            } else {
                prints(to, self.path() + ": valid flow\n"@)
            },
            (Stand::Connecting, Happening::Unconfigured(error)) => breaks(
                to,
                self.failed(error@),
            ),
            (Stand::Connecting, Happening::Connected { address, token, local }) => {
                &&& to matches CommandTurn::Act(next, action)
                &&& next == (Dispatch {
                    stand: self.connected(),
                    client: next.client,
                    local,
                    ..*self
                })
                &&& next.client.address@ == address@
                &&& next.client.authorization@ == "Bearer "@ + token@
                &&& next.asks(action)
            },
            (Stand::Starting, Happening::Started(Ok(_))) => self.proceeds(Stand::Resubmitting, to),
            (Stand::Starting, Happening::Started(Err(error))) => breaks(to, self.failed(error@)),
            (Stand::Following, Happening::Followed(Ok(_))) => prints(to, Seq::empty()),
            (Stand::Following, Happening::Followed(Err(error))) => breaks(
                to,
                self.failed(error@),
            ),
            (Stand::Showing, Happening::Printed) => if self.given() is Some {
                self.proceeds(Stand::Answering, to)
            } else {
                prints(to, Seq::empty())
            },
            (Stand::Drafting, Happening::Schema(schema)) => prints(to, schema@),
            (_, Happening::Replied(reply)) => self.reply_answered(reply, to),
            _ => breaks(to, self.failed("a reply arrived out of step"@)),
        }
    }

    fn run_name(&self) -> (s: String)
        ensures
            s@ == self.run(),
    {
        match &self.command {
            Command::Attach { run } => run.clone(),
            Command::Answer { run, .. } => run.clone(),
            Command::Resume { run, .. } => run.clone(),
            Command::Cancel { run } => run.clone(),
            _ => {
                let s: String = String::new();
                assert(s@ =~= Seq::empty());
                s
            },
        }
    }

    fn flow_path(&self) -> (s: String)
        ensures
            s@ == self.path(),
    {
        match &self.command {
            Command::Run { flow } => flow.clone(),
            Command::Validate { flow } => flow.clone(),
            _ => {
                let s: String = String::new();
                assert(s@ =~= Seq::empty());
                s
            },
        }
    }

    fn fail(&self, error: &str) -> (r: CommandTurn)
        ensures
            breaks(r, self.failed(error@)),
    {
        CommandTurn::End(Err(Failure::daemon(self.command.name(), error)))
    }

    fn say(first: &str, middle: &str, last: &str) -> (r: CommandTurn)
        ensures
            prints(r, first@ + middle@ + last@),
    {
        let mut s = first.to_owned();
        s.append(middle);
        s.append(last);
        CommandTurn::End(Ok(s))
    }

    fn say_nothing() -> (r: CommandTurn)
        ensures
            prints(r, Seq::empty()),
    {
        let s: String = String::new();
        assert(s@ =~= Seq::empty());
        CommandTurn::End(Ok(s))
    }

    /// The command at the action it stands at.
    fn act(self) -> (r: CommandTurn)
        requires
            self.well_formed(),
            !(self.stand is Showing),
        ensures
            r matches CommandTurn::Act(next, action) && next == self && next.asks(action),
    {
        let action = match self.stand {
            Stand::Reading => Action::ReadFlow(self.flow_path()),
            Stand::Connecting => Action::Connect,
            Stand::Submitting => Action::Send(self.client.submit(self.flow.as_str())),
            Stand::Resubmitting => Action::Send(self.client.submit(self.flow.as_str())),
            Stand::Starting => Action::StartDaemon,
            Stand::Listing => Action::Send(self.client.list()),
            Stand::Following => Action::Follow(self.run_name()),
            Stand::Reviewing => {
                let run = self.run_name();
                Action::Send(self.client.status(run.as_str()))
            },
            Stand::Resuming => {
                let run = self.run_name();
                let note: Option<String> = match &self.command {
                    Command::Resume { note, .. } => text::copied(note),
                    _ => None,
                };
                Action::Send(self.client.resume(run.as_str(), note))
            },
            Stand::Cancelling => {
                let run = self.run_name();
                Action::Send(self.client.cancel(run.as_str()))
            },
            Stand::Drafting => Action::DraftSchema,
            _ => match &self.command {
                Command::Answer { run, question: Some(question), answer: Some(answer) } => {
                    Action::Send(
                        self.client.answer(run.as_str(), question.as_str(), answer.as_str()),
                    )
                },
                _ => Action::Connect,
            },
        };
        CommandTurn::Act(self, action)
    }

    /// What came of an operation on a run.
    fn conclude(
        &self,
        outcome: Result<RunStatusResponse, ClientError>,
        first: &str,
        middle: &str,
    ) -> (r: CommandTurn)
        ensures
            self.concludes(outcome, first@ + middle@ + "\n"@, r),
    {
        match outcome {
            Ok(_) => Dispatch::say(first, middle, "\n"),
            Err(error) => {
                let words = error.to_text();
                self.fail(words.as_str())
            },
        }
    }

    fn answer_submission(self, outcome: Result<SubmitRunResponse, ClientError>) -> (r: CommandTurn)
        requires
            self.well_formed(),
            self.stand is Submitting || self.stand is Resubmitting,
        ensures
            self.submission_answered(outcome, r),
            r matches CommandTurn::Act(next, _) ==> next.well_formed(),
    {
        match outcome {
            Ok(response) => {
                let mut s = response.run_id;
                s.append("\n");
                CommandTurn::End(Ok(s))
            },
            Err(error) => {
                if let Stand::Submitting = self.stand {
                    if error.is_transport() && self.local {
                        let mut next = self;
                        next.stand = Stand::Starting;
                        return next.act();
                    }
                }
                let words = error.to_text();
                self.fail(words.as_str())
            },
        }
    }

    fn answer_reply(self, reply: Result<Reply, String>) -> (r: CommandTurn)
        requires
            self.well_formed(),
        ensures
            self.reply_answered(reply, r),
            r matches CommandTurn::Act(next, _) ==> next.well_formed(),
    {
        match self.stand {
            Stand::Submitting => self.answer_submission(client::submitted(reply)),
            Stand::Resubmitting => self.answer_submission(client::submitted(reply)),
            Stand::Listing => match client::listed(reply) {
                Ok(list) => CommandTurn::End(Ok(print_runs(&list))),
                Err(error) => {
                    let words = error.to_text();
                    self.fail(words.as_str())
                },
            },
            Stand::Reviewing => match client::reported("status", reply) {
                Ok(status) => {
                    let words = print_questions(&status.pending_questions);
                    let mut next = self;
                    next.stand = Stand::Showing;
                    CommandTurn::Act(next, Action::Print(words))
                },
                Err(error) => {
                    let words = error.to_text();
                    self.fail(words.as_str())
                },
            },
            Stand::Answering => {
                let outcome = client::reported("answer", reply);
                match &self.command {
                    Command::Answer { question: Some(question), .. } => {
                        self.conclude(outcome, "answered ", question.as_str())
                    },
                    _ => self.fail("a reply arrived out of step"),
                }
            },
            Stand::Resuming => {
                let run = self.run_name();
                self.conclude(client::reported("resume", reply), "resumed ", run.as_str())
            },
            Stand::Cancelling => {
                let run = self.run_name();
                self.conclude(client::reported("cancel", reply), "cancelled ", run.as_str())
            },
            _ => self.fail("a reply arrived out of step"),
        }
    }

    /// Takes what came of the action at hand.
    pub fn answer(self, happening: Happening) -> (r: CommandTurn)
        requires
            self.well_formed(),
        ensures
            self.answered(happening, r),
            r matches CommandTurn::Act(next, _) ==> next.well_formed(),
    {
        match (self.stand, happening) {
            (Stand::Reading, Happening::Flow(Err(error))) => {
                let mut s = self.flow_path();
                s.append(": ");
                s.append(error.as_str());
                CommandTurn::End(Err(Failure::Validation(s)))
            },
            (Stand::Reading, Happening::Flow(Ok(flow))) => match &self.command {
                Command::Run { .. } => {
                    let mut next = self;
                    next.flow = flow;
                    next.stand = Stand::Connecting;
                    next.act()
                },
                _ => {
                    let mut s = self.flow_path();
                    s.append(": valid flow\n");
                    CommandTurn::End(Ok(s))
                },
            },
            (Stand::Connecting, Happening::Unconfigured(error)) => self.fail(error.as_str()),
            (Stand::Connecting, Happening::Connected { address, token, local }) => {
                let stand = match &self.command {
                    Command::Run { .. } => Stand::Submitting,
                    Command::List => Stand::Listing,
                    Command::Attach { .. } => Stand::Following,
                    Command::Answer { .. } => Stand::Reviewing,
                    Command::Resume { .. } => Stand::Resuming,
                    _ => Stand::Cancelling,
                };
                let mut next = self;
                next.client = Client::new(address.as_str(), token.as_str());
                next.local = local;
                next.stand = stand;
                next.act()
            },
            (Stand::Starting, Happening::Started(Ok(_))) => {
                let mut next = self;
                next.stand = Stand::Resubmitting;
                next.act()
            },
            (Stand::Starting, Happening::Started(Err(error))) => self.fail(error.as_str()),
            (Stand::Following, Happening::Followed(Ok(_))) => Dispatch::say_nothing(),
            (Stand::Following, Happening::Followed(Err(error))) => self.fail(error.as_str()),
            (Stand::Showing, Happening::Printed) => {
                let given = match &self.command {
                    Command::Answer { question: Some(_), answer: Some(_), .. } => true,
                    _ => false,
                };
                if given {
                    let mut next = self;
                    next.stand = Stand::Answering;
                    next.act()
                } else {
                    Dispatch::say_nothing()
                }
            },
            (Stand::Drafting, Happening::Schema(schema)) => CommandTurn::End(Ok(schema)),
            (_, Happening::Replied(reply)) => self.answer_reply(reply),
            _ => self.fail("a reply arrived out of step"),
        }
    }
}

/// Where a command begins: the ones about a flow by reading it, the schema by
/// drawing it up, all others by making out the daemon.
pub fn dispatch(command: Command) -> (r: CommandTurn)
    ensures
        r matches CommandTurn::Act(next, action) && {
            &&& next.command == command
            &&& next.well_formed()
            &&& next.asks(action)
            &&& next.stand == match command {
                Command::Run { .. } => Stand::Reading,
                Command::Validate { .. } => Stand::Reading,
                Command::Schema => Stand::Drafting,
                _ => Stand::Connecting,
            }
        },
{
    let stand = match &command {
        Command::Run { .. } => Stand::Reading,
        Command::Validate { .. } => Stand::Reading,
        Command::Schema => Stand::Drafting,
        _ => Stand::Connecting,
    };
    let nobody = Client { address: String::new(), authorization: String::new() };
    let dispatch = Dispatch { command, stand, flow: String::new(), client: nobody, local: false };
    dispatch.act()
}

/// Validation is offline: a command that validates never talks to a daemon.
pub proof fn validation_is_offline(dispatch: Dispatch, happening: Happening, to: CommandTurn)
    requires
        dispatch.well_formed(),
        dispatch.command is Validate,
        dispatch.answered(happening, to),
    ensures
        to is End,
{
}

/// Only a daemon that could run here is ever started, and only by a
/// submission that did not get through.
pub proof fn only_a_local_daemon_is_started(
    dispatch: Dispatch,
    happening: Happening,
    next: Dispatch,
    action: Action,
)
    requires
        dispatch.answered(happening, CommandTurn::Act(next, action)),
        action is StartDaemon,
    ensures
        dispatch.local,
        dispatch.stand is Submitting,
        happening matches Happening::Replied(Err(_)),
{
}

} // verus!
