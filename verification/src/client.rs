//! Talking to the daemon: the requests a client sends, and what it makes of
//! the replies.

use crate::dto::{
    self, AnswerRequest, ApiError, ListRunsResponse, ResumeRequest, RunStatusResponse,
    SubmitRunRequest, SubmitRunResponse,
};
use crate::json::{self, Json};
use crate::report::{self, Answer};
use crate::text;
use crate::utf8;
use crate::wire;
use vstd::prelude::*;
use vstd::utf8::*;

verus! {

/// What a request asks of its target.
#[derive(Debug, Clone, Copy, PartialEq, Eq, Structural)]
pub enum Method {
    Get,
    Post,
}

/// A request, ready to be sent.
#[derive(Debug, Clone, PartialEq, Eq)]
pub struct Request {
    pub method: Method,
    pub url: String,
    /// The value of the `Authorization` header.
    pub authorization: String,
    /// The value of the `Last-Event-ID` header, where the request has one.
    pub last_event_id: Option<String>,
    /// The JSON body, where the request has one.
    pub body: Option<String>,
}

/// A reply, received whole.
#[derive(Debug, Clone, PartialEq, Eq)]
pub struct Reply {
    pub status: u16,
    /// The status as it is shown, such as `409 Conflict`.
    pub status_line: String,
    pub body: Vec<u8>,
}

/// Why a request came to nothing: it did not get through, or the reply was
/// not what was hoped for.
#[derive(Debug, Clone, PartialEq, Eq)]
pub enum ClientError {
    Transport(String),
    Response(String),
}

impl ClientError {
    /// The message the failure is told by.
    pub open spec fn message(self) -> Seq<char> {
        match self {
            ClientError::Transport(error) => error@,
            ClientError::Response(message) => message@,
        }
    }

    pub fn to_text(&self) -> (s: String)
        ensures
            s@ == self.message(),
    {
        match self {
            ClientError::Transport(error) => error.clone(),
            ClientError::Response(message) => message.clone(),
        }
    }

    pub fn is_transport(&self) -> (r: bool)
        ensures
            r == (self is Transport),
    {
        match self {
            ClientError::Transport(_) => true,
            ClientError::Response(_) => false,
        }
    }
}

/// Whether a status reports success.
pub open spec fn is_success(status: u16) -> bool {
    200 <= status < 300
}

/// The document that the bytes of a body hold.
pub open spec fn document_in(body: Seq<u8>) -> Option<json::JsonView> {
    if valid_utf8(body) {
        json::parsed(decode_utf8(body))
    } else {
        None
    }
}

/// What is wrong with a body that holds no document.
pub open spec fn no_document(body: Seq<u8>) -> Seq<char> {
    if valid_utf8(body) {
        json::malformed(decode_utf8(body))
    } else {
        utf8::utf8_fault(body)
    }
}

/// [`document_in`], computed.
fn read_document(body: &Vec<u8>) -> (r: Result<Json, String>)
    ensures
        match r {
            Ok(v) => document_in(body@) == Some(v@),
            Err(words) => document_in(body@) is None && words@ == no_document(body@),
        },
{
    match utf8::read_utf8(body.as_slice()) {
        Ok(words) => Json::parse(words.as_str()),
        Err(error) => Err(error),
    }
}

/// What a rejection adds from its body: the daemon's own message, where the
/// body carries one.
pub open spec fn detail(body: Seq<u8>) -> Seq<char> {
    match document_in(body) {
        Some(v) => match dto::as_failure(v) {
            Some(error) => ": "@ + error.message,
            None => Seq::empty(),
        },
        None => Seq::empty(),
    }
}

/// The words for a rejected request.
pub open spec fn rejected(operation: Seq<char>, reply: Reply) -> Seq<char> {
    "daemon rejected "@ + operation + " with HTTP "@ + reply.status_line@ + detail(reply.body@)
}

/// [`rejected`], as the failure it is.
fn rejection(operation: &str, reply: &Reply) -> (r: ClientError)
    ensures
        r matches ClientError::Response(words) && words@ == rejected(operation@, *reply),
{
    let mut s = "daemon rejected ".to_owned();
    s.append(operation);
    s.append(" with HTTP ");
    s.append(reply.status_line.as_str());
    let ghost before = s@;
    if let Ok(v) = read_document(&reply.body) {
        if let Ok(error) = ApiError::from_json(&v) {
            s.append(": ");
            s.append(error.message.as_str());
            assert(s@ =~= before + detail(reply.body@));
            return ClientError::Response(s);
        }
    }
    assert(s@ =~= before + detail(reply.body@));
    ClientError::Response(s)
}

/// How the words for a reply that cannot be read begin.
pub open spec fn unreadable() -> Seq<char> {
    "invalid daemon response: "@
}

fn unreadable_reply(error: &str) -> (r: ClientError)
    ensures
        r matches ClientError::Response(words) && words@ == unreadable() + error@,
{
    let mut s = "invalid daemon response: ".to_owned();
    s.append(error);
    ClientError::Response(s)
}

/// Whether `error` is what a reply without a document of the hoped-for shape
/// comes to, where `why` says what is wrong with it.
pub open spec fn tells_unreadable(error: ClientError, why: Seq<char>) -> bool {
    error matches ClientError::Response(words) && words@ == unreadable() + why
}

/// Whether `r` is what a reply comes to: a document where it reports success
/// and holds one.
pub open spec fn receives(
    operation: Seq<char>,
    outcome: Result<Reply, String>,
    r: Result<Json, ClientError>,
) -> bool {
    match outcome {
        Err(error) => r == Err::<Json, ClientError>(ClientError::Transport(error)),
        Ok(reply) => if !is_success(reply.status) {
            r matches Err(ClientError::Response(words)) && words@ == rejected(operation, reply)
        } else {
            match (document_in(reply.body@), r) {
                (Some(v), Ok(found)) => found@ == v,
                (None, Err(error)) => tells_unreadable(error, no_document(reply.body@)),
                _ => false,
            }
        },
    }
}

/// What a reply comes to.
pub fn receive(operation: &str, outcome: Result<Reply, String>) -> (r: Result<Json, ClientError>)
    ensures
        receives(operation@, outcome, r),
{
    match outcome {
        Err(error) => Err(ClientError::Transport(error)),
        Ok(reply) => {
            if reply.status < 200 || reply.status >= 300 {
                return Err(rejection(operation, &reply));
            }
            match read_document(&reply.body) {
                Ok(v) => Ok(v),
                Err(error) => Err(unreadable_reply(error.as_str())),
            }
        },
    }
}

/// A client of one daemon.
#[derive(Debug, Clone, PartialEq, Eq)]
pub struct Client {
    /// The canonical base URL: scheme in front, no slash behind.
    pub address: String,
    /// The value of the `Authorization` header.
    pub authorization: String,
}

/// The path of a run, below the daemon's address.
pub open spec fn run_path(address: Seq<char>, run: Seq<char>) -> Seq<char> {
    address + "/v1/runs/"@ + run
}

impl Client {
    pub fn new(address: &str, token: &str) -> (r: Client)
        ensures
            r.address@ == address@,
            r.authorization@ == "Bearer "@ + token@,
    {
        let mut authorization = "Bearer ".to_owned();
        authorization.append(token);
        Client { address: address.to_owned(), authorization }
    }

    /// Whether a request has this target and carries nothing but the client's
    /// authorization and this body.
    pub open spec fn asks(
        self,
        request: Request,
        method: Method,
        url: Seq<char>,
        body: Option<Seq<char>>,
    ) -> bool {
        &&& request.method == method
        &&& request.url@ == url
        &&& request.authorization@ == self.authorization@
        &&& request.last_event_id is None
        &&& match (body, request.body) {
            (Some(words), Some(sent)) => sent@ == words,
            (None, None) => true,
            _ => false,
        }
    }

    /// Whether a request submits a flow.
    pub open spec fn submits(self, request: Request, flow: Seq<char>) -> bool {
        self.asks(
            request,
            Method::Post,
            self.address@ + "/v1/runs"@,
            Some(json::printed(dto::submission_json(flow))),
        )
    }

    /// Whether a request lists every run.
    pub open spec fn lists(self, request: Request) -> bool {
        self.asks(request, Method::Get, self.address@ + "/v1/runs"@, None)
    }

    /// Whether a request asks where a run stands.
    pub open spec fn inspects(self, request: Request, run: Seq<char>) -> bool {
        self.asks(request, Method::Get, run_path(self.address@, run), None)
    }

    /// Whether a request answers one question of a run.
    pub open spec fn answers(
        self,
        request: Request,
        run: Seq<char>,
        answer: report::AnswerView,
    ) -> bool {
        self.asks(
            request,
            Method::Post,
            run_path(self.address@, run) + "/answer"@,
            Some(json::printed(dto::answers_json(seq![answer]))),
        )
    }

    /// Whether a request resumes a run.
    pub open spec fn resumes(
        self,
        request: Request,
        run: Seq<char>,
        note: Option<Seq<char>>,
    ) -> bool {
        self.asks(
            request,
            Method::Post,
            run_path(self.address@, run) + "/resume"@,
            Some(json::printed(dto::resume_json(dto::ResumeView { note, extend: None }))),
        )
    }

    /// Whether a request cancels a run.
    pub open spec fn cancels(self, request: Request, run: Seq<char>) -> bool {
        self.asks(request, Method::Post, run_path(self.address@, run) + "/cancel"@, None)
    }

    fn request(&self, method: Method, url: String, body: Option<String>) -> (r: Request)
        ensures
            r.method == method,
            r.url == url,
            r.authorization@ == self.authorization@,
            r.last_event_id is None,
            r.body == body,
    {
        Request {
            method,
            url,
            authorization: self.authorization.clone(),
            last_event_id: None,
            body,
        }
    }

    fn runs_url(&self) -> (s: String)
        ensures
            s@ == self.address@ + "/v1/runs"@,
    {
        let mut s = self.address.clone();
        s.append("/v1/runs");
        s
    }

    fn run_url(&self, run: &str, rest: &str) -> (s: String)
        ensures
            s@ == run_path(self.address@, run@) + rest@,
    {
        let mut s = self.address.clone();
        s.append("/v1/runs/");
        s.append(run);
        s.append(rest);
        s
    }

    /// Submits a flow, verbatim.
    pub fn submit(&self, flow: &str) -> (r: Request)
        ensures
            self.submits(r, flow@),
    {
        let body = SubmitRunRequest { flow: flow.to_owned() }.to_json().to_text();
        self.request(Method::Post, self.runs_url(), Some(body))
    }

    /// Lists every run.
    pub fn list(&self) -> (r: Request)
        ensures
            self.lists(r),
    {
        self.request(Method::Get, self.runs_url(), None)
    }

    /// Asks where a run stands.
    pub fn status(&self, run: &str) -> (r: Request)
        ensures
            self.inspects(r, run@),
    {
        let url = self.run_url(run, "");
        proof {
            reveal_strlit("");
            assert(run_path(self.address@, run@) + ""@ =~= run_path(self.address@, run@));
        }
        self.request(Method::Get, url, None)
    }

    /// Answers one question of a run.
    pub fn answer(&self, run: &str, question: &str, answer: &str) -> (r: Request)
        ensures
            self.answers(r, run@, report::AnswerView { question_id: question@, answer: answer@ }),
    {
        let only = Answer { question_id: question.to_owned(), answer: answer.to_owned() };
        let request = AnswerRequest { answers: vec![only] };
        assert(report::answer_views(request.answers@) =~= seq![
            report::AnswerView { question_id: question@, answer: answer@ },
        ]);
        let body = request.to_json().to_text();
        self.request(Method::Post, self.run_url(run, "/answer"), Some(body))
    }

    /// Resumes a run, with guidance where there is some.
    pub fn resume(&self, run: &str, note: Option<String>) -> (r: Request)
        ensures
            self.resumes(r, run@, wire::opt_text(note)),
    {
        let request = ResumeRequest { note, extend: None };
        let body = request.to_json().to_text();
        self.request(Method::Post, self.run_url(run, "/resume"), Some(body))
    }

    /// Cancels a run.
    pub fn cancel(&self, run: &str) -> (r: Request)
        ensures
            self.cancels(r, run@),
    {
        self.request(Method::Post, self.run_url(run, "/cancel"), None)
    }

    /// Asks for a run's events, from the one after the last that arrived.
    pub fn events(&self, run: &str, last_event_id: Option<u64>) -> (r: Request)
        ensures
            r.method == Method::Get,
            r.url@ == run_path(self.address@, run@) + "/events"@,
            r.authorization@ == self.authorization@,
            r.body is None,
            match last_event_id {
                Some(seq) => r.last_event_id matches Some(words) && words@ == text::decimal(
                    seq as nat,
                ),
                None => r.last_event_id is None,
            },
    {
        let last: Option<String> = match last_event_id {
            Some(seq) => Some(text::decimal_of(seq)),
            None => None,
        };
        Request {
            method: Method::Get,
            url: self.run_url(run, "/events"),
            authorization: self.authorization.clone(),
            last_event_id: last,
            body: None,
        }
    }
}

/// Whether `r` is what the reply to a submission comes to.
pub open spec fn submits_to(
    outcome: Result<Reply, String>,
    r: Result<SubmitRunResponse, ClientError>,
) -> bool {
    exists|reply: Result<Json, ClientError>| #[trigger]
        receives("submission"@, outcome, reply) && match reply {
            Err(error) => r == Err::<SubmitRunResponse, ClientError>(error),
            Ok(v) => match (wire::text_at(v@, "run_id"@), r) {
                (Some(run_id), Ok(response)) => response.run_id@ == run_id,
                (None, Err(error)) => dto::submitted_fault(v@) matches Some(why)
                    && tells_unreadable(error, why),
                _ => false,
            },
        }
}

/// What the reply to a submission comes to.
pub fn submitted(outcome: Result<Reply, String>) -> (r: Result<SubmitRunResponse, ClientError>)
    ensures
        submits_to(outcome, r),
{
    match receive("submission", outcome) {
        Err(error) => Err(error),
        Ok(v) => match SubmitRunResponse::from_json(&v) {
            Ok(response) => Ok(response),
            Err(error) => Err(unreadable_reply(error.as_str())),
        },
    }
}

/// Whether `r` is what the reply to a request for the list comes to.
pub open spec fn lists_to(
    outcome: Result<Reply, String>,
    r: Result<ListRunsResponse, ClientError>,
) -> bool {
    exists|reply: Result<Json, ClientError>| #[trigger]
        receives("list"@, outcome, reply) && match reply {
            Err(error) => r == Err::<ListRunsResponse, ClientError>(error),
            Ok(v) => match (dto::as_list(v@), r) {
                (Some(runs), Ok(response)) => dto::entry_views(response.runs@) == runs,
                (None, Err(error)) => dto::list_fault(v@) matches Some(why) && tells_unreadable(
                    error,
                    why,
                ),
                _ => false,
            },
        }
}

/// What the reply to a request for the list comes to.
pub fn listed(outcome: Result<Reply, String>) -> (r: Result<ListRunsResponse, ClientError>)
    ensures
        lists_to(outcome, r),
{
    match receive("list", outcome) {
        Err(error) => Err(error),
        Ok(v) => match ListRunsResponse::from_json(&v) {
            Ok(response) => Ok(response),
            Err(error) => Err(unreadable_reply(error.as_str())),
        },
    }
}

/// Whether `r` is what the reply to an operation on one run comes to: where
/// the run stands.
pub open spec fn reports_to(
    operation: Seq<char>,
    outcome: Result<Reply, String>,
    r: Result<RunStatusResponse, ClientError>,
) -> bool {
    exists|reply: Result<Json, ClientError>| #[trigger]
        receives(operation, outcome, reply) && match reply {
            Err(error) => r == Err::<RunStatusResponse, ClientError>(error),
            Ok(v) => match (dto::as_status(v@), r) {
                (Some(status), Ok(response)) => response@ == status,
                (None, Err(error)) => dto::status_fault(v@) matches Some(why) && tells_unreadable(
                    error,
                    why,
                ),
                _ => false,
            },
        }
}

/// What the reply to an operation on one run comes to: where the run stands.
pub fn reported(operation: &str, outcome: Result<Reply, String>) -> (r: Result<
    RunStatusResponse,
    ClientError,
>)
    ensures
        reports_to(operation@, outcome, r),
{
    match receive(operation, outcome) {
        Err(error) => Err(error),
        Ok(v) => match RunStatusResponse::from_json(&v) {
            Ok(response) => Ok(response),
            Err(error) => Err(unreadable_reply(error.as_str())),
        },
    }
}

} // verus!
