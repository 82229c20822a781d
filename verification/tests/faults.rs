//! What a document that does not read is refused for.

use hako::agent::requirements;
use hako::agents::codex::CodexAdapter;
use hako::attach::{AttachError, Attachment, StreamNews, StreamStep};
use hako::client::{listed, reported, submitted, ClientError, Reply};
use hako::dto::{ApiError, ResumeRequest, RunStatusResponse, RunSummary, UnreadableRun};
use hako::event::{EventEnvelope, RunEvent};
use hako::fanout::contract::PlanContract;
use hako::invocation::ReportContract;
use hako::json::Json;
use hako::pipeline::contract::{Stage, StageReport};
use hako::progress::ProgressReport;
use hako::projection::RunProjection;
use hako::report::{Question, ReportCore};
use hako::run::{RunId, RunState};
use hako::secrets::{SecretEnv, SecretValue};
use hako::sink::scrub_event;
use hako::skeptic::SkepticContract;
use hako::store::{RunDir, StoreError};

fn doc(text: &str) -> Json {
    Json::parse(text).unwrap()
}

#[test]
fn a_malformed_text_is_refused_in_the_parsers_words() {
    for text in ["", "{", "[1,]", "{\"a\": tru}", "1 2"] {
        let said = serde_json::from_str::<serde_json::Value>(text)
            .unwrap_err()
            .to_string();
        assert_eq!(Json::parse(text).unwrap_err(), said);
        assert_eq!(StageReport::from_stage_json(Stage::Plan, text).unwrap_err(), said);
        assert_eq!(ProgressReport::from_agent_json(text).unwrap_err(), said);
        assert_eq!(PlanContract.parse(text).unwrap_err(), said);
        assert_eq!(SkepticContract.parse(text).unwrap_err(), said);
    }
}

#[test]
fn a_mistyped_member_is_refused_in_the_readers_words() {
    for value in ["null", "true", "false", "7", "-7", "1.5", "1e300", "[]", "{}"] {
        let said = serde_json::from_str::<serde_json::Value>(value)
            .and_then(serde_json::from_value::<String>)
            .unwrap_err()
            .to_string();
        let question = doc(&format!(r#"{{"id": {value}, "text": "t"}}"#));
        assert_eq!(Question::from_json(&question).unwrap_err(), said);
    }
    for value in ["null", "\"a\\\"b\\n\"", "-1", "4294967296", "1.5", "[]", "{}"] {
        let said = serde_json::from_str::<serde_json::Value>(value)
            .and_then(serde_json::from_value::<u32>)
            .unwrap_err()
            .to_string();
        let event = doc(&format!(r#"{{"type": "iteration_started", "iteration": {value}}}"#));
        assert_eq!(RunEvent::from_json(&event).unwrap_err(), said);
    }
    for value in ["null", "\"a\"", "[\"a\", 1]", "[null]", "{}"] {
        let said = serde_json::from_str::<serde_json::Value>(value)
            .and_then(serde_json::from_value::<Vec<String>>)
            .unwrap_err()
            .to_string();
        let question = doc(&format!(r#"{{"id": "i", "text": "t", "options": {value}}}"#));
        assert_eq!(Question::from_json(&question).unwrap_err(), said);
    }
    let verdict = SkepticContract.parse(r#"{"refuted": "no", "findings": []}"#);
    assert_eq!(
        verdict.unwrap_err(),
        r#"invalid type: string "no", expected a boolean"#
    );
}

#[test]
fn the_first_bad_member_is_named_and_a_missing_one_last() {
    let read = |text: &str| StageReport::from_stage_json(Stage::Plan, text).unwrap_err();
    assert_eq!(read("[]"), "invalid type: sequence, expected struct PlanReport");
    assert_eq!(read("{}"), "missing field `status`");
    assert_eq!(read(r#"{"status": "done"}"#), "missing field `summary`");
    assert_eq!(
        read(r#"{"summary": 1, "mystery": 2}"#),
        "invalid type: integer `1`, expected a string"
    );
    assert_eq!(
        read(r#"{"mystery": 2, "summary": 1}"#),
        "unknown field `mystery`, expected one of `status`, `summary`, `work_unit`, `steps`, \
         `blockers`, `questions`"
    );
    assert_eq!(
        read(r#"{"status": "finished", "summary": "s"}"#),
        "unknown variant `finished`, expected one of `continue`, `done`, `blocked`, `needs_input`"
    );
    assert_eq!(
        SkepticContract.parse(r#"{"mystery": 1}"#).unwrap_err(),
        "unknown field `mystery`, expected `refuted` or `findings`"
    );
    assert_eq!(
        PlanContract.parse(r#"{"status": "continue", "units": []}"#).unwrap_err(),
        "missing field `summary`"
    );
    assert_eq!(
        ProgressReport::from_agent_json(r#"{"status": "done", "summary": "s", "remaining": 1}"#)
            .unwrap_err(),
        "invalid type: integer `1`, expected a sequence"
    );
    assert_eq!(
        ReportCore::from_json(&doc(r#"{"status": 1, "summary": "s"}"#)).unwrap_err(),
        "invalid type: integer `1`, expected string or map"
    );
}

#[test]
fn a_tagged_document_is_refused_for_its_tag_first() {
    let read = |text: &str| RunState::from_json(&doc(text)).unwrap_err();
    assert_eq!(read("3"), "invalid type: integer `3`, expected internally tagged enum RunState");
    assert_eq!(read("{}"), "missing field `state`");
    assert_eq!(read(r#"{"state": 1}"#), "invalid type: integer `1`, expected variant identifier");
    assert_eq!(
        read(r#"{"state": "asleep"}"#),
        "unknown variant `asleep`, expected one of `running`, `paused`, `done`, `failed`, `cancelled`"
    );
    assert_eq!(read(r#"{"state": "paused"}"#), "missing field `reason`");
    let envelope = |text: &str| EventEnvelope::from_json(&doc(text)).unwrap_err();
    assert_eq!(envelope(r#"{"type": "nope"}"#), "missing field `seq`");
    let head = r#""seq": 0, "run_id": "r", "at": "t""#;
    assert_eq!(envelope(&format!("{{{head}}}")), "missing field `type`");
    assert_eq!(
        envelope(&format!(r#"{{{head}, "type": "state_changed"}}"#)),
        "missing field `state`"
    );
    assert_eq!(
        envelope(&format!(r#"{{{head}, "type": "tokens_used", "iteration": 1, "usage": {{}}}}"#)),
        "missing field `input`"
    );
}

#[test]
fn the_bodies_of_the_api_are_refused_in_words() {
    assert_eq!(
        RunSummary::from_json(&doc(r#"{"run_id": "r"}"#)).unwrap_err(),
        "missing field `kernel`"
    );
    assert_eq!(
        RunStatusResponse::from_json(&doc("{}")).unwrap_err(),
        "missing field `iterations_completed`"
    );
    assert_eq!(
        UnreadableRun::from_json(&doc(r#"{"state": "running"}"#)).unwrap_err(),
        "unknown variant `running`, expected `unreadable`"
    );
    assert_eq!(
        ResumeRequest::from_json(&doc(r#"{"extend": {"max_tokens": "many"}}"#)).unwrap_err(),
        r#"invalid type: string "many", expected u64"#
    );
    assert_eq!(
        ApiError::from_json(&doc(r#"{"code": {}, "message": "m"}"#)).unwrap_err(),
        "invalid value: map, expected map with a single key"
    );
}

fn reply(body: &[u8]) -> Result<Reply, String> {
    Ok(Reply {
        status: 200,
        status_line: "200 OK".into(),
        body: body.to_vec(),
    })
}

fn words<T>(r: Result<T, ClientError>) -> String {
    match r {
        Ok(_) => panic!("the reply was read"),
        Err(error) => error.to_text(),
    }
}

#[test]
fn an_unreadable_reply_says_what_is_wrong_with_it() {
    assert_eq!(
        words(submitted(reply(b"{}"))),
        "invalid daemon response: missing field `run_id`"
    );
    assert_eq!(
        words(listed(reply(br#"{"runs": [{}]}"#))),
        "invalid daemon response: data did not match any variant of untagged enum RunListEntry"
    );
    assert_eq!(
        words(reported("status", reply(b"[]"))),
        "invalid daemon response: invalid type: sequence, expected struct RunStatusResponse"
    );
    let said = serde_json::from_str::<serde_json::Value>("{").unwrap_err();
    assert_eq!(
        words(submitted(reply(b"{"))),
        format!("invalid daemon response: {said}")
    );
}

#[test]
fn a_corrupt_record_says_what_is_wrong_with_it() {
    let detail = |r: Result<RunDir, StoreError>| match r {
        Err(StoreError::Corrupt { detail, .. }) => detail,
        _ => panic!("the record was read"),
    };
    let run = RunId::new("r1");
    assert_eq!(
        detail(RunDir::open("/runs", &run, Some(r#"{"run_id": "r1"}"#))),
        "missing field `kernel`"
    );
    let meta = r#"{"run_id": "r1", "kernel": "k", "agent": "a", "created_at": "t"}"#;
    let dir = RunDir::open("/runs", &run, Some(meta)).unwrap();
    match dir.read_log(&b"{\"seq\": \"0\"}\n".to_vec()) {
        Err(StoreError::Corrupt { detail, .. }) => {
            assert_eq!(detail, "line 1: invalid type: string \"0\", expected u64")
        }
        _ => panic!("the log was read"),
    }
    let envelope = EventEnvelope {
        seq: 4,
        run_id: "r1".into(),
        at: "t".into(),
        event: RunEvent::StageReported {
            iteration: 1,
            stage: "plan".into(),
            report: doc(r#"{"status": "done"}"#),
        },
    };
    let error = RunProjection::of(&vec![envelope]).err().unwrap();
    assert_eq!(error.seq, 4);
    assert_eq!(error.detail, "missing field `summary`");
}

#[test]
fn an_event_that_cannot_be_scrubbed_says_why() {
    let env = SecretEnv::new(vec![("A".into(), SecretValue::new("kernel"))]);
    let event = RunEvent::RunStarted {
        kernel: "pipeline".into(),
        agent: "codex".into(),
    };
    assert_eq!(
        scrub_event(&env, event).unwrap_err().0,
        "cannot scrub event: missing field `kernel`"
    );
}

#[test]
fn a_stream_is_followed_step_by_step() {
    let refused = || ClientError::Transport("connection refused".into());
    let mut attachment = Attachment::new();
    assert!(matches!(
        attachment.step(StreamNews::Refused(refused())),
        StreamStep::End(Err(AttachError::Client(ClientError::Transport(_))))
    ));
    let mut attachment = Attachment::new();
    assert!(matches!(attachment.step(StreamNews::Opened), StreamStep::Read));
    for line in ["id: 0\n", "data: {\"seq\": 0, \"run_id\": \"r\", \"at\": \"t\",\n"] {
        assert!(matches!(
            attachment.step(StreamNews::Line(line.into())),
            StreamStep::Read
        ));
    }
    let rest = "data: \"type\": \"state_changed\", \"state\": \"done\"}\n";
    attachment.step(StreamNews::Line(rest.into()));
    match attachment.step(StreamNews::Line("\n".into())) {
        StreamStep::Print { line, terminal } => {
            assert!(terminal);
            assert!(line.ends_with("\"state\":\"done\"}\n"), "{line}");
        }
        _ => panic!("nothing was printed"),
    }
    assert_eq!(attachment.last_event_id, Some(0));
    assert!(matches!(attachment.step(StreamNews::Dropped), StreamStep::Retry));
    assert!(matches!(
        attachment.step(StreamNews::Refused(refused())),
        StreamStep::Retry
    ));
    attachment.step(StreamNews::Opened);
    attachment.step(StreamNews::Line("id: 1\n".into()));
    attachment.step(StreamNews::Line("data: {}\n".into()));
    match attachment.step(StreamNews::Line("\n".into())) {
        StreamStep::End(Err(AttachError::Stream(words))) => {
            assert_eq!(words, "invalid event data: missing field `seq`")
        }
        _ => panic!("the event was read"),
    }
    assert!(matches!(
        attachment.step(StreamNews::Printed { terminal: true }),
        StreamStep::End(Ok(()))
    ));
}

#[test]
fn an_agents_names_are_requirements_of_one_name_each() {
    let needed = requirements(&CodexAdapter);
    assert_eq!(needed.len(), 1);
    assert_eq!(needed[0].to_text(), "CODEX_API_KEY");
}
