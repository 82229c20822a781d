//! The run store and the projection of its logs.

use hako::event::{EventEnvelope, IterationOutcome, RunEvent};
use hako::json::Json;
use hako::projection::RunProjection;
use hako::report::ReportStatus;
use hako::run::{PauseReason, RunId, RunState};
use hako::store::{
    reduce_state, FileEventSink, RunDir, RunMeta, StoreError, EVENT_LOG_FILE, META_FILE,
    STATE_FILE,
};

fn created() -> RunDir {
    RunDir::create("/runs", RunId::new("r1"), "pipeline", "codex")
}

fn started() -> RunEvent {
    RunEvent::RunStarted {
        kernel: "pipeline".into(),
        agent: "codex".into(),
    }
}

fn paused() -> RunEvent {
    RunEvent::StateChanged {
        state: RunState::Paused {
            reason: PauseReason::Drift,
        },
    }
}

fn json(text: &str) -> serde_json::Value {
    serde_json::from_str(text).unwrap()
}

/// Appends events the way a host would: cut the log, write each line,
/// acknowledge it.
fn append(dir: &RunDir, raw: &mut Vec<u8>, events: Vec<RunEvent>) -> Vec<Option<String>> {
    let (mut sink, cut) = dir.event_sink(raw).unwrap();
    raw.truncate(cut);
    let mut mirrors = Vec::new();
    for event in events {
        let append = sink.emit(event);
        raw.extend_from_slice(append.line.as_bytes());
        mirrors.push(append.mirror);
        sink.acknowledge();
    }
    mirrors
}

fn events(dir: &RunDir, raw: &Vec<u8>) -> Vec<EventEnvelope> {
    dir.read_log(raw).unwrap().0
}

#[test]
fn creating_a_run_lays_down_the_directory_of_plain_files() {
    let dir = created();
    assert_eq!(dir.path(), "/runs/r1");
    let files = dir.founding_files();
    assert_eq!(files[0].0, format!("/runs/r1/{META_FILE}"));
    assert_eq!(files[1].0, format!("/runs/r1/{STATE_FILE}"));
    assert_eq!(files[2].0, format!("/runs/r1/{EVENT_LOG_FILE}"));

    let meta = RunMeta::from_json(&Json::parse(&files[0].1).unwrap()).unwrap();
    assert_eq!(&meta, dir.meta());
    assert_eq!(meta.run_id, RunId::new("r1"));
    assert_eq!(meta.kernel, "pipeline");
    assert_eq!(meta.agent, "codex");
    meta.created_at
        .parse::<jiff::Timestamp>()
        .expect("created_at is RFC 3339");
    assert!(files[0].1.ends_with("}\n"));

    assert_eq!(json(&files[1].1), json(r#"{"state": "running"}"#));
    assert_eq!(files[1].1, "{\n  \"state\": \"running\"\n}\n");
    assert_eq!(files[2].1, "");
}

#[test]
fn a_duplicate_run_id_is_rejected() {
    let error = StoreError::AlreadyExists(RunId::new("r1"));
    assert_eq!(error.to_text(), "run already exists: r1");
}

#[test]
fn opening_a_missing_run_is_not_found() {
    let error = RunDir::open("/runs", &RunId::new("ghost"), None).unwrap_err();
    assert!(matches!(&error, StoreError::NotFound(id) if *id == RunId::new("ghost")));
    assert_eq!(error.to_text(), "no such run: ghost");
}

#[test]
fn events_append_as_one_json_object_per_line_with_monotonic_ids() {
    let dir = created();
    let mut raw = Vec::new();
    append(
        &dir,
        &mut raw,
        vec![
            started(),
            RunEvent::IterationStarted { iteration: 1 },
            paused(),
        ],
    );
    let text = String::from_utf8(raw).unwrap();
    let lines: Vec<&str> = text.lines().collect();
    assert_eq!(lines.len(), 3);
    for (position, line) in lines.iter().enumerate() {
        let envelope = EventEnvelope::from_json(&Json::parse(line).unwrap()).unwrap();
        assert_eq!(envelope.seq, position as u64);
        assert_eq!(envelope.run_id, "r1");
        envelope
            .at
            .parse::<jiff::Timestamp>()
            .expect("timestamp is RFC 3339");
    }
}

#[test]
fn a_state_change_refreshes_the_state_mirror() {
    let dir = created();
    let mirrors = append(&dir, &mut Vec::new(), vec![started(), paused()]);
    assert_eq!(mirrors[0], None);
    let mirror = mirrors[1].as_ref().unwrap();
    assert_eq!(
        json(mirror),
        json(r#"{"state": "paused", "reason": "drift"}"#)
    );
    assert!(mirror.ends_with('\n'));
    assert!(mirror.lines().count() > 1, "printed to be read by eye");
}

#[test]
fn a_restart_reconstructs_state_and_history_from_disk_alone() {
    let mut raw = Vec::new();
    let meta = {
        let dir = created();
        append(
            &dir,
            &mut raw,
            vec![
                started(),
                RunEvent::IterationStarted { iteration: 1 },
                paused(),
            ],
        );
        dir.founding_files().remove(0).1
    };

    let dir = RunDir::open("/runs", &RunId::new("r1"), Some(&meta)).unwrap();
    assert_eq!(dir.meta().kernel, "pipeline");
    let events = events(&dir, &raw);
    assert_eq!(events.len(), 3);
    assert_eq!(events[0].event, started());
    assert_eq!(events[2].event, paused());
    assert_eq!(
        dir.state(&raw).unwrap(),
        RunState::Paused {
            reason: PauseReason::Drift
        }
    );
    assert_eq!(
        reduce_state(&events),
        RunState::Paused {
            reason: PauseReason::Drift
        }
    );
}

#[test]
fn a_reopened_sink_continues_the_sequence() {
    let dir = created();
    let mut raw = Vec::new();
    append(&dir, &mut raw, vec![started(), paused()]);
    append(&dir, &mut raw, vec![RunEvent::RunResumed { note: None }]);
    let events = events(&dir, &raw);
    assert_eq!(events.len(), 3);
    assert_eq!(events[2].seq, 2);
    assert_eq!(events[2].event, RunEvent::RunResumed { note: None });
}

#[test]
fn a_run_with_no_state_change_yet_is_running() {
    let dir = created();
    let mut raw = Vec::new();
    append(&dir, &mut raw, vec![started()]);
    assert_eq!(dir.state(&raw).unwrap(), RunState::Running);
}

#[test]
fn a_torn_final_line_is_not_history() {
    let dir = created();
    let mut raw = Vec::new();
    append(&dir, &mut raw, vec![started()]);
    raw.extend_from_slice(br#"{"seq":1,"run_id":"r1","at":"20"#);
    let events = events(&dir, &raw);
    assert_eq!(events.len(), 1);
    assert_eq!(events[0].event, started());
    assert_eq!(dir.state(&raw).unwrap(), RunState::Running);
}

#[test]
fn the_sink_heals_a_torn_tail_before_appending() {
    let dir = created();
    let mut raw = Vec::new();
    append(&dir, &mut raw, vec![started()]);
    let whole = raw.len();
    // A torn tail need not even be text: the crash can cut a multi-byte
    // character in half.
    raw.extend_from_slice(&[0xff, 0xfe]);
    let (_, cut) = dir.event_sink(&raw).unwrap();
    assert_eq!(cut, whole);
    append(&dir, &mut raw, vec![paused()]);
    let events = events(&dir, &raw);
    assert_eq!(events.len(), 2);
    assert_eq!(events[1].seq, 1);
    assert_eq!(events[1].event, paused());
    assert_eq!(String::from_utf8(raw).unwrap().lines().count(), 2);
}

#[test]
fn a_log_that_is_all_torn_tail_heals_to_empty() {
    let dir = created();
    let mut raw = br#"{"seq":0,"run_"#.to_vec();
    assert!(events(&dir, &raw).is_empty());
    append(&dir, &mut raw, vec![started()]);
    let events = events(&dir, &raw);
    assert_eq!(events.len(), 1);
    assert_eq!(events[0].seq, 0);
}

fn corruption(raw: &[u8]) -> String {
    let error = created().read_log(&raw.to_vec()).unwrap_err();
    assert!(matches!(error, StoreError::Corrupt { .. }));
    error.to_text()
}

#[test]
fn a_corrupt_log_line_is_an_error_naming_the_file() {
    let error = corruption(b"not json\n");
    assert!(error.contains(EVENT_LOG_FILE), "{error}");
    assert!(error.contains("line 1"), "{error}");
    let error = corruption(b"\xff\n");
    assert!(
        error.starts_with("corrupt run record /runs/r1/events.jsonl: invalid utf-8"),
        "{error}"
    );
}

fn line(seq: u64, run_id: &str) -> Vec<u8> {
    let sink = FileEventSink {
        run_id: RunId::new(run_id),
        next_seq: seq,
    };
    sink.append("2026-07-13T09:00:00Z", started())
        .line
        .into_bytes()
}

#[test]
fn a_log_lying_about_its_ids_is_corrupt() {
    let error = corruption(&line(7, "r1"));
    assert!(error.contains("line 1: seq 7 out of sequence"), "{error}");
}

#[test]
fn an_event_from_another_run_is_corrupt() {
    let error = corruption(&line(0, "r2"));
    assert!(error.contains("belongs to run `r2`"), "{error}");
}

#[test]
fn metadata_naming_another_run_is_corrupt() {
    let meta = created().founding_files().remove(0).1;
    let stray = meta.replace("\"r1\"", "\"r2\"");
    let error = RunDir::open("/runs", &RunId::new("r1"), Some(&stray)).unwrap_err();
    assert!(error.to_text().contains("names run `r2`"));
    let error = RunDir::open("/runs", &RunId::new("r1"), Some("{}")).unwrap_err();
    assert!(matches!(error, StoreError::Corrupt { .. }));
}

#[test]
fn store_failures_are_told_by_their_path() {
    let error = StoreError::Io {
        path: "/runs/r1/state.json".into(),
        source: "disk full".into(),
    };
    assert_eq!(
        error.to_text(),
        "run store I/O on /runs/r1/state.json: disk full"
    );
    let error = StoreError::Encode {
        path: "x".into(),
        detail: "y".into(),
    };
    assert_eq!(error.to_text(), "cannot encode x: y");
}

/// A log: the events enveloped in order.
fn log(events: Vec<RunEvent>) -> Vec<EventEnvelope> {
    events
        .into_iter()
        .enumerate()
        .map(|(seq, event)| EventEnvelope {
            seq: seq as u64,
            run_id: "r1".into(),
            at: format!("2026-07-13T09:{:02}:00Z", seq),
            event,
        })
        .collect()
}

fn reported(stage: &str, report: &str) -> RunEvent {
    RunEvent::StageReported {
        iteration: 1,
        stage: stage.into(),
        report: Json::parse(report).unwrap(),
    }
}

fn finished(iteration: u32) -> RunEvent {
    RunEvent::IterationFinished {
        iteration,
        outcome: IterationOutcome::Completed,
    }
}

fn paused_on(reason: PauseReason) -> RunEvent {
    RunEvent::StateChanged {
        state: RunState::Paused { reason },
    }
}

#[test]
fn an_empty_log_projects_a_fresh_run() {
    let projection = RunProjection::of(&vec![]).unwrap();
    assert_eq!(
        projection,
        RunProjection {
            state: RunState::Running,
            updated_at: None,
            iterations_completed: 0,
            last_report: None,
            last_seq: None,
        }
    );
}

#[test]
fn a_full_history_projects_in_one_value() {
    let events = log(vec![
        started(),
        RunEvent::IterationStarted { iteration: 1 },
        reported(
            "plan",
            r#"{"status": "continue", "summary": "picked issue #7", "steps": ["a", "b"]}"#,
        ),
        finished(1),
        paused_on(PauseReason::Drift),
    ]);
    let projection = RunProjection::of(&events).unwrap();
    assert_eq!(
        projection.state,
        RunState::Paused {
            reason: PauseReason::Drift
        }
    );
    assert_eq!(
        projection.updated_at.as_deref(),
        Some("2026-07-13T09:04:00Z")
    );
    assert_eq!(projection.iterations_completed, 1);
    assert_eq!(projection.last_seq, Some(4));
    let core = projection.last_report.unwrap();
    assert_eq!(core.status, ReportStatus::Continue);
    assert_eq!(core.summary, "picked issue #7");
    assert!(core.questions.is_empty());
}

#[test]
fn the_last_state_change_and_the_last_report_win() {
    let events = log(vec![
        paused_on(PauseReason::Budget),
        reported("plan", r#"{"status": "continue", "summary": "first"}"#),
        finished(1),
        reported("review", r#"{"status": "done", "summary": "second"}"#),
        finished(2),
        RunEvent::StateChanged {
            state: RunState::Done,
        },
    ]);
    let projection = RunProjection::of(&events).unwrap();
    assert_eq!(projection.state, RunState::Done);
    assert_eq!(projection.iterations_completed, 2);
    let core = projection.last_report.unwrap();
    assert_eq!(core.summary, "second");
    assert_eq!(core.status, ReportStatus::Done);
}

#[test]
fn a_pausing_reports_questions_ride_the_core() {
    let events = log(vec![
        reported(
            "plan",
            r#"{"status": "needs_input", "summary": "need a decision", "work_unit": "issue #7",
                "questions": [{"id": "q1", "text": "which shape?", "options": ["a", "b"]}]}"#,
        ),
        paused_on(PauseReason::AwaitingHuman),
    ]);
    let core = RunProjection::of(&events).unwrap().last_report.unwrap();
    assert_eq!(core.status, ReportStatus::NeedsInput);
    assert_eq!(core.questions.len(), 1);
    assert_eq!(core.questions[0].id, "q1");
    assert_eq!(core.questions[0].options, ["a", "b"]);
}

#[test]
fn questions_are_pending_only_while_awaiting_a_human() {
    let asked = || {
        vec![
            reported(
                "plan",
                r#"{"status": "needs_input", "summary": "need a decision",
                    "questions": [{"id": "q1", "text": "which shape?"}]}"#,
            ),
            paused_on(PauseReason::AwaitingHuman),
        ]
    };
    let waiting = RunProjection::of(&log(asked())).unwrap();
    assert_eq!(waiting.pending_questions().len(), 1);
    assert_eq!(waiting.pending_questions()[0].id, "q1");

    let mut answered = asked();
    answered.push(RunEvent::StateChanged {
        state: RunState::Running,
    });
    let resumed = RunProjection::of(&log(answered)).unwrap();
    assert!(resumed.pending_questions().is_empty());
}

#[test]
fn a_report_without_the_core_is_an_error_naming_its_seq() {
    let events = log(vec![
        RunEvent::IterationStarted { iteration: 1 },
        reported("plan", r#"{"weird": true}"#),
    ]);
    let error = RunProjection::of(&events).unwrap_err();
    assert_eq!(error.seq, 1);
    assert!(error.to_text().contains("seq 1"));
}
