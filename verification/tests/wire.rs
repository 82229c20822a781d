//! The wire: bodies, events, the stream that carries them, and the client's
//! side of it all.

use hako::attach::{is_terminal, AttachError, Attachment};
use hako::cli::{
    dispatch, print_questions, print_runs, state, Action, Command, CommandTurn, Dispatch, Failure,
    Happening, DAEMON_FAILURE, VALIDATION_FAILURE,
};
use hako::client::{receive, Client, ClientError, Method, Reply, Request};
use hako::config::{
    bind_candidate, env_text, local_bind_address, normalize, resolve_address, resolve_token,
    token_path, BindCandidate, FileReply, IpLiteral, LocalToken, SocketLiteral, TokenAction,
    TokenSource, TokenTurn, DEFAULT_ADDRESS,
};
use hako::daemon::{look, StartError, Startup};
use hako::dto::{
    AnswerRequest, ApiError, BudgetExtension, ErrorCode, ListRunsResponse, ResumeRequest,
    RunListEntry, RunStatusResponse, RunSummary, SubmitRunRequest, SubmitRunResponse,
    UnreadableRun, UnreadableState,
};
use hako::event::{EventEnvelope, RunEvent};
use hako::json::Json;
use hako::report::{Answer, Question};
use hako::run::{PauseReason, RunState};

fn value(v: &Json) -> serde_json::Value {
    serde_json::from_str(&v.to_text()).unwrap()
}

fn json(text: &str) -> serde_json::Value {
    serde_json::from_str(text).unwrap()
}

fn doc(text: &str) -> Json {
    Json::parse(text).unwrap()
}

fn reread(v: &Json) -> Json {
    doc(&v.to_text())
}

fn paused_summary() -> RunSummary {
    RunSummary {
        run_id: "r1".into(),
        state: RunState::Paused {
            reason: PauseReason::Budget,
        },
        kernel: "pipeline".into(),
        agent: "codex".into(),
        created_at: "2026-07-13T08:00:00Z".into(),
        updated_at: "2026-07-13T09:30:00Z".into(),
    }
}

fn unreadable_run() -> UnreadableRun {
    UnreadableRun {
        run_id: "r2".into(),
        state: UnreadableState::Unreadable,
        reason: "corrupt run record events.jsonl: line 3".into(),
        kernel: "pipeline".into(),
        agent: "codex".into(),
        created_at: "2026-07-13T07:00:00Z".into(),
    }
}

#[test]
fn a_paused_summary_reads_flat() {
    assert_eq!(
        value(&paused_summary().to_json()),
        json(
            r#"{"run_id": "r1", "state": "paused", "reason": "budget", "kernel": "pipeline",
                "agent": "codex", "created_at": "2026-07-13T08:00:00Z",
                "updated_at": "2026-07-13T09:30:00Z"}"#
        )
    );
}

#[test]
fn a_list_mixing_healthy_and_unreadable_runs_reads_flat_and_round_trips() {
    let list = ListRunsResponse {
        runs: vec![
            RunListEntry::Run(paused_summary()),
            RunListEntry::Unreadable(unreadable_run()),
        ],
    };
    assert_eq!(
        value(&list.runs[1].to_json()),
        json(
            r#"{"run_id": "r2", "state": "unreadable",
                "reason": "corrupt run record events.jsonl: line 3", "kernel": "pipeline",
                "agent": "codex", "created_at": "2026-07-13T07:00:00Z"}"#
        )
    );
    assert_eq!(
        ListRunsResponse::from_json(&reread(&list.to_json())).unwrap(),
        list
    );
}

#[test]
fn list_entry_shapes_stay_disjoint_so_state_alone_discriminates() {
    let paused_with_reason = doc(
        r#"{"run_id": "r1", "state": "paused", "reason": "budget", "kernel": "pipeline",
            "agent": "codex", "created_at": "2026-07-13T08:00:00Z",
            "updated_at": "2026-07-13T09:30:00Z"}"#,
    );
    assert!(matches!(
        RunListEntry::from_json(&paused_with_reason).unwrap(),
        RunListEntry::Run(_)
    ));

    let unreadable_with_drifted_field = doc(
        r#"{"run_id": "r2", "state": "unreadable",
            "reason": "corrupt run record events.jsonl: line 3", "kernel": "pipeline",
            "agent": "codex", "created_at": "2026-07-13T07:00:00Z",
            "updated_at": "2026-07-13T08:00:00Z"}"#,
    );
    assert!(matches!(
        RunListEntry::from_json(&unreadable_with_drifted_field).unwrap(),
        RunListEntry::Unreadable(_)
    ));

    let matches_neither = doc(
        r#"{"run_id": "r3", "state": "running", "kernel": "pipeline", "agent": "codex",
            "created_at": "2026-07-13T08:00:00Z"}"#,
    );
    RunListEntry::from_json(&matches_neither).unwrap_err();
}

#[test]
fn commands_round_trip() {
    let submit = SubmitRunRequest {
        flow: "[loop]\nkernel = \"pipeline\"\n".into(),
    };
    let answer = AnswerRequest {
        answers: vec![Answer {
            question_id: "q1".into(),
            answer: "plain files".into(),
        }],
    };
    let resume = ResumeRequest {
        note: Some("skip the flaky suite".into()),
        extend: Some(BudgetExtension {
            max_iterations: Some(30),
            max_wall_clock_seconds: None,
            max_tokens: None,
        }),
    };
    assert_eq!(
        SubmitRunRequest::from_json(&reread(&submit.to_json())).unwrap(),
        submit
    );
    assert_eq!(
        AnswerRequest::from_json(&reread(&answer.to_json())).unwrap(),
        answer
    );
    assert_eq!(
        ResumeRequest::from_json(&reread(&resume.to_json())).unwrap(),
        resume
    );
    let response = SubmitRunResponse {
        run_id: "run-1".into(),
    };
    assert_eq!(
        SubmitRunResponse::from_json(&reread(&response.to_json())).unwrap(),
        response
    );
    assert!(ResumeRequest::from_json(&doc(r#"{"extend": 3}"#)).is_err());
    assert!(AnswerRequest::from_json(&doc(r#"{"answers": [{"answer": "x"}]}"#)).is_err());
}

#[test]
fn error_codes_keep_their_wire_strings() {
    for (code, wire) in [
        (ErrorCode::Unauthorized, "unauthorized"),
        (ErrorCode::InvalidRequest, "invalid_request"),
        (ErrorCode::InvalidFlow, "invalid_flow"),
        (ErrorCode::InvalidAgent, "invalid_agent"),
        (ErrorCode::MissingSecret, "missing_secret"),
        (ErrorCode::RunNotFound, "run_not_found"),
        (ErrorCode::RunNotRunning, "run_not_running"),
        (ErrorCode::NotAwaitingInput, "not_awaiting_input"),
        (ErrorCode::UnknownQuestion, "unknown_question"),
        (ErrorCode::NotPaused, "not_paused"),
        (ErrorCode::NotResumable, "not_resumable"),
        (ErrorCode::InternalError, "internal_error"),
        (ErrorCode::Unknown, "unknown"),
    ] {
        assert_eq!(code.as_str(), wire);
        let error = ApiError {
            code,
            message: "no such run".into(),
        };
        assert_eq!(ApiError::from_json(&reread(&error.to_json())).unwrap(), error);
    }
}

#[test]
fn a_code_from_a_newer_daemon_still_reads_as_an_api_error() {
    let error = ApiError::from_json(&doc(
        r#"{"code": "newer_daemon_code", "message": "upgrade the client"}"#,
    ))
    .unwrap();
    assert_eq!(error.code, ErrorCode::Unknown);
    assert_eq!(error.message, "upgrade the client");
}

#[test]
fn a_status_reads_flat_like_a_summary() {
    let status = RunStatusResponse {
        run: RunSummary {
            run_id: "r9".into(),
            state: RunState::Running,
            kernel: "pipeline".into(),
            agent: "codex".into(),
            created_at: "2026-07-13T08:00:00Z".into(),
            updated_at: "2026-07-13T09:30:00Z".into(),
        },
        iterations_completed: 4,
        last_summary: Some("parser ported, printer next".into()),
        pending_questions: vec![],
    };
    assert_eq!(
        value(&status.to_json()),
        json(
            r#"{"run_id": "r9", "state": "running", "kernel": "pipeline", "agent": "codex",
                "created_at": "2026-07-13T08:00:00Z", "updated_at": "2026-07-13T09:30:00Z",
                "iterations_completed": 4, "last_summary": "parser ported, printer next",
                "pending_questions": []}"#
        )
    );
    assert_eq!(
        RunStatusResponse::from_json(&reread(&status.to_json())).unwrap(),
        status
    );
}

#[test]
fn the_envelope_is_flat_on_the_wire() {
    let envelope = EventEnvelope {
        seq: 42,
        run_id: "r1".into(),
        at: "2026-07-13T09:00:00Z".into(),
        event: RunEvent::IterationStarted { iteration: 5 },
    };
    assert_eq!(
        value(&envelope.to_json()),
        json(
            r#"{"seq": 42, "run_id": "r1", "at": "2026-07-13T09:00:00Z",
                "type": "iteration_started", "iteration": 5}"#
        )
    );
}

#[test]
fn envelopes_round_trip() {
    let envelope = EventEnvelope {
        seq: 7,
        run_id: "r2".into(),
        at: "2026-07-13T09:00:00Z".into(),
        event: RunEvent::StateChanged {
            state: RunState::Done,
        },
    };
    assert_eq!(
        EventEnvelope::from_json(&reread(&envelope.to_json())).unwrap(),
        envelope
    );
}

#[test]
fn members_are_written_in_their_own_order() {
    assert_eq!(
        paused_summary().to_json().to_text(),
        r#"{"run_id":"r1","state":"paused","reason":"budget","kernel":"pipeline","agent":"codex","created_at":"2026-07-13T08:00:00Z","updated_at":"2026-07-13T09:30:00Z"}"#
    );
    let request = AnswerRequest {
        answers: vec![Answer {
            question_id: "q1".into(),
            answer: "sqlite".into(),
        }],
    };
    assert_eq!(
        request.to_json().to_text(),
        r#"{"answers":[{"question_id":"q1","answer":"sqlite"}]}"#
    );
    // A name that comes again keeps its place and takes the new value.
    assert_eq!(doc(r#"{"b":1,"a":2,"b":3}"#).to_text(), r#"{"b":3,"a":2}"#);
    let twice = Json::Object(vec![
        ("b".into(), Json::Uint(1)),
        ("a".into(), Json::Int(-2)),
        ("b".into(), Json::Uint(3)),
    ]);
    assert_eq!(twice.to_text(), r#"{"b":3,"a":-2}"#);
}

/// One line for every variant of the event vocabulary.
const LINES: &[&str] = &[
    r#"{"type":"run_started","kernel":"pipeline","agent":"codex"}"#,
    r#"{"type":"state_changed","state":"paused","reason":"awaiting_human"}"#,
    r#"{"type":"iteration_started","iteration":1}"#,
    r#"{"type":"iteration_finished","iteration":1,"outcome":"completed"}"#,
    r#"{"type":"agent_output","iteration":1,"stream":"stderr","chunk":"boom\n"}"#,
    r#"{"type":"stage_started","iteration":1,"stage":"plan"}"#,
    r#"{"type":"stage_reported","iteration":1,"stage":"plan","report":{"status":"continue","cost":0.5}}"#,
    r#"{"type":"report_rejected","iteration":1,"errors":["missing field `summary`"]}"#,
    r#"{"type":"progress_reported","iteration":2,"report":{"status":"done","summary":"s"}}"#,
    r#"{"type":"progress_rejected","iteration":2,"errors":["not UTF-8"]}"#,
    r#"{"type":"verify_check_finished","iteration":1,"command":"cargo test","passed":false,"output":"FAILED"}"#,
    r#"{"type":"skeptic_verdict","iteration":1,"refuted":true,"findings":["a TODO remains"]}"#,
    r#"{"type":"tokens_used","iteration":1,"usage":{"input":10,"output":3}}"#,
    r#"{"type":"workspace_checkpointed","iteration":1,"commit":"abc123"}"#,
    r#"{"type":"budget_exhausted","budget":"wall_clock"}"#,
    r#"{"type":"question_answered","question_id":"q1","answer":"sqlite"}"#,
    r#"{"type":"run_resumed","note":"go on"}"#,
];

#[test]
fn every_event_line_reserializes_identically() {
    for line in LINES {
        let event = RunEvent::from_json(&doc(line)).unwrap_or_else(|e| panic!("{line}: {e}"));
        assert_eq!(value(&event.to_json()), json(line), "{line}");
        assert_eq!(event.to_json().to_text(), *line);
    }
    assert!(RunEvent::from_json(&doc(r#"{"type":"nobody_knows"}"#)).is_err());
}

const FIRST: &str = r#"{"seq":0,"run_id":"r-done","at":"2026-08-12T08:00:00Z","type":"run_started","kernel":"pipeline","agent":"codex"}"#;
const SECOND: &str = r#"{"seq":1,"run_id":"r-done","at":"2026-08-12T09:00:00Z","type":"state_changed","state":"done"}"#;

/// Feeds a stream's lines; gives what was printed and whether the run ended.
fn follow(attachment: &mut Attachment, stream: &str) -> Result<(String, bool), AttachError> {
    let mut printed = String::new();
    attachment.connect();
    for line in stream.split_inclusive('\n') {
        if let Some(delivery) = attachment.take_line(line)? {
            printed.push_str(&delivery.line);
            if delivery.terminal {
                return Ok((printed, true));
            }
        }
    }
    Ok((printed, false))
}

#[test]
fn attach_replays_a_finished_run_and_exits() {
    let body = format!("id: 0\ndata: {FIRST}\n\nid: 1\ndata: {SECOND}\n\n");
    let mut attachment = Attachment::new();
    assert_eq!(
        follow(&mut attachment, &body),
        Ok((format!("{FIRST}\n{SECOND}\n"), true))
    );
    let request = Client::new("http://127.0.0.1:1", "t").events("r-done", None);
    assert_eq!(request.url, "http://127.0.0.1:1/v1/runs/r-done/events");
    assert_eq!(request.last_event_id, None);
}

#[test]
fn attach_follows_live_and_resumes_after_a_dropped_connection() {
    let replayed = r#"{"seq":0,"run_id":"r-live","at":"2026-08-12T08:00:00Z","type":"run_started","kernel":"pipeline","agent":"codex"}"#;
    let live = r#"{"seq":1,"run_id":"r-live","at":"2026-08-12T08:01:00Z","type":"iteration_started","iteration":1}"#;
    let terminal = r#"{"seq":2,"run_id":"r-live","at":"2026-08-12T08:02:00Z","type":"state_changed","state":"cancelled"}"#;
    let first = format!("id: 0\ndata: {replayed}\n\nid: 1\ndata: {live}\n\n");
    let resumed = format!("id: 2\ndata: {terminal}\n\n");
    let client = Client::new("http://127.0.0.1:1", "t");
    let mut attachment = Attachment::new();

    let request = client.events("r-live", attachment.last_event_id);
    assert_eq!(request.last_event_id, None);
    assert_eq!(
        follow(&mut attachment, &first),
        Ok((format!("{replayed}\n{live}\n"), false))
    );
    let request = client.events("r-live", attachment.last_event_id);
    assert_eq!(request.last_event_id.as_deref(), Some("1"));
    assert_eq!(
        follow(&mut attachment, &resumed),
        Ok((format!("{terminal}\n"), true))
    );
}

#[test]
fn a_replayed_event_is_not_delivered_twice() {
    let client = Client::new("http://127.0.0.1:1", "t");
    let mut attachment = Attachment::new();
    let broken = format!(": keep-alive\nevent: run\nid: 0\ndata: {FIRST}\r\n\r\nid: 1\ndata: {{\"se");
    assert_eq!(
        follow(&mut attachment, &broken),
        Ok((format!("{FIRST}\n"), false))
    );
    let lost = ClientError::Transport("refused".into());
    assert!(attachment.tries_again(&lost));
    let resumed = client.events("r-done", attachment.last_event_id);
    assert_eq!(resumed.last_event_id.as_deref(), Some("0"));

    let rest = format!("id: 0\ndata: {FIRST}\n\nid: 1\ndata: {SECOND}\n\n");
    assert_eq!(
        follow(&mut attachment, &rest),
        Ok((format!("{SECOND}\n"), true))
    );
}

#[test]
fn attach_rejects_a_gap_in_the_event_history() {
    let mut attachment = Attachment::new();
    let error = follow(&mut attachment, &format!("id: 1\ndata: {SECOND}\n\n")).unwrap_err();
    assert_eq!(error.to_text(), "event sequence jumped from start to 1");
}

#[test]
fn a_malformed_stream_is_told_by_its_fault() {
    for (stream, expected) in [
        (
            format!("data: {FIRST}\n\n"),
            "event is missing its SSE id".to_owned(),
        ),
        (
            format!("id: x\ndata: {FIRST}\n\n"),
            "event has a non-numeric SSE id".to_owned(),
        ),
        (
            format!("id: 4\ndata: {FIRST}\n\n"),
            "SSE id 4 does not match event sequence 0".to_owned(),
        ),
    ] {
        let error = follow(&mut Attachment::new(), &stream).unwrap_err();
        assert_eq!(error.to_text(), expected);
    }
    let error = follow(&mut Attachment::new(), "id: 0\ndata: nonsense\n\n").unwrap_err();
    assert!(error.to_text().starts_with("invalid event data: "));
    assert_eq!(
        AttachError::Output("broken pipe".into()).to_text(),
        "could not print event: broken pipe"
    );
}

#[test]
fn a_first_connection_that_fails_is_the_users_answer() {
    let attachment = Attachment::new();
    assert!(!attachment.tries_again(&ClientError::Transport("refused".into())));
    let mut attachment = Attachment::new();
    attachment.connect();
    assert!(!attachment.tries_again(&ClientError::Response("no".into())));
}

#[test]
fn only_final_states_end_a_run() {
    for (state, terminal) in [
        (RunState::Running, false),
        (
            RunState::Paused {
                reason: PauseReason::Blocked,
            },
            false,
        ),
        (RunState::Done, true),
        (RunState::Failed, true),
        (RunState::Cancelled, true),
    ] {
        assert_eq!(is_terminal(&RunEvent::StateChanged { state }), terminal);
    }
    assert!(!is_terminal(&RunEvent::IterationStarted { iteration: 1 }));
}

fn reply(status: u16, line: &str, body: &str) -> Result<Reply, String> {
    Ok(Reply {
        status,
        status_line: line.into(),
        body: body.as_bytes().to_vec(),
    })
}

#[test]
fn a_reply_is_a_document_or_a_reason() {
    assert_eq!(
        receive("list", reply(200, "200 OK", "{}")),
        Ok(Json::Object(vec![]))
    );
    let error = receive("list", Err("connection refused".into())).unwrap_err();
    assert!(error.is_transport());
    let error = receive("list", reply(500, "500 Internal Server Error", "oops")).unwrap_err();
    assert_eq!(
        error.to_text(),
        "daemon rejected list with HTTP 500 Internal Server Error"
    );
    let error = receive(
        "list",
        reply(
            401,
            "401 Unauthorized",
            r#"{"code":"unauthorized","message":"bad token"}"#,
        ),
    )
    .unwrap_err();
    assert_eq!(
        error.to_text(),
        "daemon rejected list with HTTP 401 Unauthorized: bad token"
    );
    let error = receive("list", reply(200, "200 OK", "not json")).unwrap_err();
    assert!(error.to_text().starts_with("invalid daemon response: "));
}

/// Drives a command; what it asks is answered in order.
fn drive(
    command: Command,
    happenings: Vec<Happening>,
) -> (Vec<Action>, Result<String, Failure>) {
    let mut turn = dispatch(command);
    let mut actions = Vec::new();
    let mut happenings = happenings.into_iter();
    loop {
        match turn {
            CommandTurn::Act(next, action) => {
                actions.push(action);
                let happening = happenings.next().expect("one more happening");
                turn = Dispatch::answer(next, happening);
            }
            CommandTurn::End(end) => return (actions, end),
        }
    }
}

fn connected(local: bool) -> Happening {
    Happening::Connected {
        address: "http://daemon:1".into(),
        token: "t0ken".into(),
        local,
    }
}

fn sent(action: &Action) -> &Request {
    match action {
        Action::Send(request) => request,
        other => panic!("{other:?}"),
    }
}

fn run() -> Command {
    Command::Run {
        flow: "flow.toml".into(),
    }
}

#[test]
fn run_submits_to_a_remote_daemon_and_returns_the_run_id() {
    let (actions, end) = drive(
        run(),
        vec![
            Happening::Flow(Ok("[loop]\n".into())),
            connected(false),
            Happening::Replied(reply(201, "201 Created", r#"{"run_id":"run-123"}"#)),
        ],
    );
    assert_eq!(end, Ok("run-123\n".into()));
    let request = sent(&actions[2]);
    assert_eq!(request.method, Method::Post);
    assert_eq!(request.url, "http://daemon:1/v1/runs");
    assert_eq!(request.authorization, "Bearer t0ken");
    assert_eq!(
        json(request.body.as_ref().unwrap()),
        json(r#"{"flow": "[loop]\n"}"#)
    );
}

#[test]
fn run_distinguishes_validation_failure_from_submit_failure() {
    let (_, end) = drive(
        run(),
        vec![Happening::Flow(Err("unknown kernel `pypeline`".into()))],
    );
    let failure = end.unwrap_err();
    assert_eq!(failure.exit_code(), VALIDATION_FAILURE);
    assert_eq!(failure.to_text(), "flow.toml: unknown kernel `pypeline`");

    let (actions, end) = drive(
        run(),
        vec![
            Happening::Flow(Ok("x".into())),
            connected(false),
            Happening::Replied(Err("connection refused".into())),
        ],
    );
    let failure = end.unwrap_err();
    assert_eq!(failure.exit_code(), DAEMON_FAILURE);
    assert_eq!(failure.to_text(), "submit failed: connection refused");
    assert!(!actions.contains(&Action::StartDaemon));
    assert_eq!((VALIDATION_FAILURE, DAEMON_FAILURE), (2, 3));
}

#[test]
fn run_auto_starts_a_local_daemon_and_retries_once() {
    let lost = || Happening::Replied(Err("connection refused".into()));
    let (actions, end) = drive(
        run(),
        vec![
            Happening::Flow(Ok("x".into())),
            connected(true),
            lost(),
            Happening::Started(Ok(())),
            Happening::Replied(reply(201, "201 Created", r#"{"run_id":"local-run"}"#)),
        ],
    );
    assert_eq!(end, Ok("local-run\n".into()));
    assert_eq!(actions[3], Action::StartDaemon);
    assert_eq!(actions[4], actions[2]);

    let (actions, end) = drive(
        run(),
        vec![
            Happening::Flow(Ok("x".into())),
            connected(true),
            lost(),
            Happening::Started(Ok(())),
            lost(),
        ],
    );
    assert_eq!(actions.len(), 5);
    assert_eq!(end.unwrap_err().to_text(), "submit failed: connection refused");

    let (_, end) = drive(
        run(),
        vec![
            Happening::Flow(Ok("x".into())),
            connected(true),
            lost(),
            Happening::Started(Err("could not start `hakod`: gone".into())),
        ],
    );
    assert_eq!(
        end.unwrap_err().to_text(),
        "submit failed: could not start `hakod`: gone"
    );
}

#[test]
fn list_renders_every_state_and_pause_reason() {
    let mut rows = String::new();
    for (id, state) in [
        ("r-running", r#""state":"running""#),
        ("r-blocked", r#""state":"paused","reason":"blocked""#),
        ("r-verify", r#""state":"paused","reason":"verify_failed""#),
        ("r-timeout", r#""state":"paused","reason":"timeout""#),
        ("r-drift", r#""state":"paused","reason":"drift""#),
        ("r-budget", r#""state":"paused","reason":"budget""#),
        ("r-human", r#""state":"paused","reason":"awaiting_human""#),
        ("r-done", r#""state":"done""#),
        ("r-failed", r#""state":"failed""#),
        ("r-cancelled", r#""state":"cancelled""#),
    ] {
        rows.push_str(&format!(
            r#"{{"run_id":"{id}",{state},"kernel":"pipeline","agent":"codex","created_at":"2026-08-12T08:00:00Z","updated_at":"2026-08-12T09:00:00Z"}},"#
        ));
    }
    let body = format!(
        r#"{{"runs":[{rows}{{"run_id":"r-broken","state":"unreadable","reason":"bad event log","kernel":"pipeline","agent":"codex","created_at":"2026-08-12T08:00:00Z"}}]}}"#
    );
    let (_, end) = drive(
        Command::List,
        vec![
            connected(false),
            Happening::Replied(reply(200, "200 OK", &body)),
        ],
    );
    let stdout = end.unwrap();
    assert!(stdout.starts_with("RUN ID\tSTATE\tKERNEL\tAGENT\tUPDATED\n"));
    for expected in [
        "r-running\trunning",
        "r-blocked\tpaused (blocked)",
        "r-verify\tpaused (verify_failed)",
        "r-timeout\tpaused (timeout)",
        "r-drift\tpaused (drift)",
        "r-budget\tpaused (budget)",
        "r-human\tpaused (awaiting_human)",
        "r-done\tdone",
        "r-failed\tfailed",
        "r-cancelled\tcancelled",
        "r-broken\tunreadable (bad event log)\tpipeline\tcodex\t-\n",
    ] {
        assert!(
            stdout.contains(expected),
            "missing `{expected}` in:\n{stdout}"
        );
    }
    assert_eq!(state(RunState::Done), "done");
    assert_eq!(
        print_runs(&ListRunsResponse { runs: vec![] }),
        "RUN ID\tSTATE\tKERNEL\tAGENT\tUPDATED\n"
    );
}

const PAUSED: &str = r#"{"run_id":"r-paused","state":"paused","reason":"awaiting_human",
    "kernel":"pipeline","agent":"codex",
    "created_at":"2026-08-12T08:00:00Z","updated_at":"2026-08-12T09:00:00Z",
    "iterations_completed":1,"last_summary":"need a decision",
    "pending_questions":[
        {"id":"database","text":"Which database?","options":["sqlite","files"]},
        {"id":"retention","text":"Retain logs?","options":[]}
    ]}"#;

#[test]
fn answer_displays_pending_questions_and_submits_one_structured_answer() {
    let (actions, end) = drive(
        Command::Answer {
            run: "r-paused".into(),
            question: Some("database".into()),
            answer: Some("sqlite".into()),
        },
        vec![
            connected(false),
            Happening::Replied(reply(200, "200 OK", PAUSED)),
            Happening::Printed,
            Happening::Replied(reply(200, "200 OK", PAUSED)),
        ],
    );
    let mut stdout = String::new();
    for action in &actions {
        if let Action::Print(words) = action {
            stdout.push_str(words);
        }
    }
    stdout.push_str(&end.unwrap());
    assert_eq!(
        stdout,
        "database: Which database?\n  options: sqlite, files\nretention: Retain logs?\nanswered database\n"
    );
    let status = sent(&actions[1]);
    assert_eq!(status.method, Method::Get);
    assert_eq!(status.url, "http://daemon:1/v1/runs/r-paused");
    let answer = sent(&actions[3]);
    assert_eq!(answer.url, "http://daemon:1/v1/runs/r-paused/answer");
    assert_eq!(
        json(answer.body.as_ref().unwrap()),
        json(r#"{"answers": [{"question_id": "database", "answer": "sqlite"}]}"#)
    );
}

#[test]
fn answer_without_a_question_only_displays() {
    let (actions, end) = drive(
        Command::Answer {
            run: "r-paused".into(),
            question: None,
            answer: None,
        },
        vec![
            connected(false),
            Happening::Replied(reply(200, "200 OK", PAUSED)),
            Happening::Printed,
        ],
    );
    assert_eq!(end, Ok(String::new()));
    assert_eq!(actions.len(), 3);
    assert_eq!(
        print_questions(&vec![Question {
            id: "q".into(),
            text: "why?".into(),
            options: vec![],
        }]),
        "q: why?\n"
    );
}

#[test]
fn resume_sends_guidance_to_the_run() {
    let (actions, end) = drive(
        Command::Resume {
            run: "r-budget".into(),
            note: Some("focus on the parser".into()),
        },
        vec![
            connected(false),
            Happening::Replied(reply(200, "200 OK", PAUSED)),
        ],
    );
    assert_eq!(end, Ok("resumed r-budget\n".into()));
    let request = sent(&actions[1]);
    assert_eq!(request.url, "http://daemon:1/v1/runs/r-budget/resume");
    assert_eq!(
        json(request.body.as_ref().unwrap()),
        json(r#"{"note": "focus on the parser", "extend": null}"#)
    );
}

#[test]
fn cancel_drives_the_runs_cancel_endpoint() {
    let (actions, end) = drive(
        Command::Cancel {
            run: "r-running".into(),
        },
        vec![
            connected(false),
            Happening::Replied(reply(200, "200 OK", PAUSED)),
        ],
    );
    assert_eq!(end, Ok("cancelled r-running\n".into()));
    let request = sent(&actions[1]);
    assert_eq!(request.method, Method::Post);
    assert_eq!(request.url, "http://daemon:1/v1/runs/r-running/cancel");
}

#[test]
fn interaction_rejections_use_the_daemon_failure_exit_code() {
    let (_, end) = drive(
        Command::Cancel {
            run: "r-done".into(),
        },
        vec![
            connected(false),
            Happening::Replied(reply(
                409,
                "409 Conflict",
                r#"{"code":"run_not_running","message":"run already finished"}"#,
            )),
        ],
    );
    let failure = end.unwrap_err();
    assert_eq!(failure.exit_code(), 3);
    let stderr = failure.to_text();
    assert!(stderr.contains("cancel failed"), "{stderr}");
    assert!(stderr.contains("run already finished"), "{stderr}");
}

#[test]
fn validation_and_the_schema_need_no_daemon() {
    let (actions, end) = drive(
        Command::Validate {
            flow: "f.toml".into(),
        },
        vec![Happening::Flow(Ok("x".into()))],
    );
    assert_eq!(end, Ok("f.toml: valid flow\n".into()));
    assert_eq!(actions, [Action::ReadFlow("f.toml".into())]);
    let (_, end) = drive(Command::Schema, vec![Happening::Schema("{}\n".into())]);
    assert_eq!(end, Ok("{}\n".into()));
    let (_, end) = drive(
        Command::List,
        vec![Happening::Unconfigured("no token".into())],
    );
    assert_eq!(end.unwrap_err().to_text(), "list failed: no token");
    let (_, end) = drive(
        Command::Attach { run: "r1".into() },
        vec![connected(false), Happening::Followed(Ok(()))],
    );
    assert_eq!(end, Ok(String::new()));
}

/// The socket address that a text spells, where it is one.
fn spelled(authority: &str) -> Option<SocketLiteral> {
    let (host, port) = authority.rsplit_once(':')?;
    let port = port.parse::<u16>().ok()?;
    if host == "[::1]" {
        let ip = IpLiteral::V6(0, 0, 0, 0, 0, 0, 0, 1);
        return Some(SocketLiteral { ip, port });
    }
    let bytes: Option<Vec<u8>> = host.split('.').map(|byte| byte.parse().ok()).collect();
    match bytes?[..] {
        [a, b, c, d] => Some(SocketLiteral {
            ip: IpLiteral::V4(a, b, c, d),
            port,
        }),
        _ => None,
    }
}

fn bind(address: &str) -> Option<SocketLiteral> {
    let candidate = bind_candidate(&normalize(address));
    let literal = match &candidate {
        BindCandidate::Literal(authority) => spelled(authority),
        _ => None,
    };
    local_bind_address(&candidate, literal)
}

#[test]
fn every_spelling_of_a_loopback_address_is_local() {
    let expected = spelled("127.0.0.1:7878").unwrap();
    for form in [
        "127.0.0.1:7878",
        "127.0.0.1:7878/",
        "http://127.0.0.1:7878",
        "http://127.0.0.1:7878/",
    ] {
        assert_eq!(bind(form), Some(expected), "{form}");
        assert_eq!(
            bind_candidate(&normalize(form)),
            BindCandidate::Literal("127.0.0.1:7878".into()),
            "{form}"
        );
        assert_eq!(normalize(form), "http://127.0.0.1:7878");
    }
}

#[test]
fn localhost_and_ipv6_loopback_are_local() {
    assert_eq!(bind("localhost:7878"), spelled("127.0.0.1:7878"));
    assert_eq!(bind("http://[::1]:7878"), spelled("[::1]:7878"));
    assert_eq!(bind("localhost:78789"), None);
    assert_eq!(
        bind_candidate("http://[::1]:7878"),
        BindCandidate::Literal("[::1]:7878".into())
    );
}

#[test]
fn remote_shapes_never_get_a_bind_address() {
    for form in [
        "https://127.0.0.1:7878",
        "192.0.2.7:7878",
        "daemon.internal:7878",
        "http://127.0.0.1:7878/api",
    ] {
        assert_eq!(bind(form), None, "{form}");
    }
}

#[test]
fn a_loopback_address_is_one_of_the_machine_itself() {
    assert!(IpLiteral::V4(127, 0, 0, 1).is_loopback());
    assert!(IpLiteral::V4(127, 9, 8, 7).is_loopback());
    assert!(!IpLiteral::V4(128, 0, 0, 1).is_loopback());
    assert!(IpLiteral::V6(0, 0, 0, 0, 0, 0, 0, 1).is_loopback());
    assert!(!IpLiteral::V6(0, 0, 0, 0, 0, 0, 0, 0).is_loopback());
    assert!(!IpLiteral::V6(0, 0, 0, 0, 0, 0xffff, 0x7f00, 1).is_loopback());
}

fn raw(text: &str) -> Option<Vec<u8>> {
    Some(text.as_bytes().to_vec())
}

#[test]
fn an_empty_environment_address_reads_as_unset() {
    assert_eq!(resolve_address(None, &raw("")).unwrap(), DEFAULT_ADDRESS);
    assert_eq!(resolve_address(None, &None).unwrap(), DEFAULT_ADDRESS);
    assert_eq!(
        resolve_address(None, &raw("daemon:1/")).unwrap(),
        "http://daemon:1"
    );
    assert_eq!(
        resolve_address(Some("https://hako.example.com".into()), &raw("daemon:1")).unwrap(),
        "https://hako.example.com"
    );
}

#[test]
fn an_empty_environment_token_falls_back_to_the_local_token() {
    assert_eq!(
        resolve_token(None, &raw(""), true).unwrap(),
        TokenSource::File
    );
    assert_eq!(
        token_path(&raw("/cfg"), &None).unwrap(),
        b"/cfg/hako/token".to_vec()
    );
    assert_eq!(
        token_path(&raw(""), &raw("/home/u/")).unwrap(),
        b"/home/u/.config/hako/token".to_vec()
    );
    assert_eq!(
        token_path(&None, &raw("")).unwrap_err().to_text(),
        "cannot locate a user config directory for local auth"
    );

    // The first use writes a token, and later ones read it back.
    let TokenTurn::Act(at, TokenAction::Read) = LocalToken::begin() else {
        panic!("the file is read first");
    };
    let TokenTurn::Act(at, TokenAction::MakeDir) = at.answer(FileReply::NotFound) else {
        panic!("a missing file is made");
    };
    let TokenTurn::Act(at, TokenAction::Create(token)) = at.answer(FileReply::Done) else {
        panic!("a token is written");
    };
    assert_eq!(token.len(), 32);
    assert!(token.chars().all(|c| c.is_ascii_hexdigit()));
    let TokenTurn::End(Ok(made)) = at.answer(FileReply::Done) else {
        panic!("the token is the one that was written");
    };
    assert_eq!(made, token);
    let TokenTurn::End(Ok(read)) = LocalToken::Reading.answer(FileReply::Text(token.clone() + "\n"))
    else {
        panic!("the token reads back");
    };
    assert_eq!(read, token);
}

#[test]
fn another_process_may_write_the_token_first() {
    let at = LocalToken::Creating("mine".into());
    let TokenTurn::Act(at, TokenAction::Read) = at.answer(FileReply::AlreadyExists) else {
        panic!("the file is read again");
    };
    let TokenTurn::End(Ok(token)) = at.answer(FileReply::Text("theirs\n".into())) else {
        panic!("their token is the one");
    };
    assert_eq!(token, "theirs");
    let TokenTurn::End(Err(error)) = LocalToken::Reading.answer(FileReply::Text(" \n".into()))
    else {
        panic!("an empty file is refused");
    };
    assert_eq!(error.to_text(), "the local daemon token file is empty");
    let TokenTurn::End(Err(error)) = LocalToken::Reading.answer(FileReply::Failed {
        path: "/t".into(),
        error: "denied".into(),
    }) else {
        panic!("a failure ends it");
    };
    assert_eq!(error.to_text(), "/t: denied");
}

#[test]
fn an_explicitly_empty_token_flag_is_an_error() {
    let error = resolve_token(Some(String::new()), &None, true).unwrap_err();
    assert!(error.to_text().contains("empty"));
}

#[test]
fn a_remote_daemon_without_a_token_is_refused() {
    let error = resolve_token(None, &None, false).unwrap_err();
    assert!(error.to_text().contains("--token"));
    assert_eq!(
        resolve_token(None, &raw("t"), false).unwrap(),
        TokenSource::Given("t".into())
    );
}

#[test]
fn a_garbled_environment_value_names_its_variable() {
    let error = resolve_token(None, &Some(vec![0xff]), true)
        .unwrap_err()
        .to_text();
    assert!(error.contains("HAKO_TOKEN"), "{error}");
    assert!(error.contains("UTF-8"), "{error}");
    let error = resolve_address(None, &Some(vec![0xff])).unwrap_err();
    assert_eq!(error.to_text(), "HAKO_ADDR is not valid UTF-8");
    assert_eq!(env_text("X", &raw("y")).unwrap().as_deref(), Some("y"));
}

#[test]
fn a_starting_daemon_is_ready_gone_or_late() {
    let down = || Err(ClientError::Transport("refused".into()));
    assert_eq!(look(Ok(()), None, true), Startup::Ready);
    assert_eq!(look(down(), None, false), Startup::Wait);
    let late = look(down(), None, true);
    assert_eq!(late, Startup::Failed(StartError::NotReady("refused".into())));
    let gone = look(down(), Some("exit status: 1".into()), false);
    let Startup::Failed(error) = gone else {
        panic!("a dead child is reported");
    };
    assert_eq!(
        error.to_text(),
        "`hakod` exited before becoming ready (exit status: 1)"
    );
    assert_eq!(
        StartError::Spawn("x".into()).to_text(),
        "could not start `hakod`: x"
    );
    assert_eq!(
        StartError::NotReady("x".into()).to_text(),
        "`hakod` did not become ready: x"
    );
}
