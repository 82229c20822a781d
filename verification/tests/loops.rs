//! Whole loops, driven in-process over the staged stand-ins.

use hako::agent::AgentAdapter;
use hako::agents::Agent;
use hako::budget::{BudgetUsage, Budgets, Duration, TokenUsage};
use hako::event::{EventEnvelope, IterationOutcome, RunEvent};
use hako::flow::{FailAction, KernelName, OnFail, PromptsConfig, VerifyConfig};
use hako::json::Json;
use hako::kernel::{Effect, KernelContext, KernelError, Reply, Turn};
use hako::kernels::resolve;
use hako::notify::Notifier;
use hako::pipeline::resume::ResumePoint;
use hako::progress::{ProgressReport, ProgressStatus};
use hako::ralph::run::{RalphKernel, Resume};
use hako::report::Answer;
use hako::run::{PauseReason, RunId, RunOutcome, RunState};
use hako::run_spawner::RunSpawnerError;
use hako::sink::EventSink;
use hako::testkit::{
    carries_handoff, carries_human_input, carries_report_from, carries_verify_feedback, context,
    crashes, exec, kinds, malformed, omits_report, pipeline_context, reports, secret_env,
    stage_events, AgentStep, NoAgent, NoSandbox, RecordingNotifier, RecordingSink, ScriptedAgent,
    ScriptedSandbox, StagedSandbox, StubNotifier, UNREFUTED_SKEPTIC_REPORT,
};
use hako::workspace::WorkspaceError;

const ROOT: &str = "/srv/runs/r1/workspace";

/// A context over the scripted agent.
fn staged() -> KernelContext {
    pipeline_context(ROOT, VerifyConfig::default(), PromptsConfig::default()).0
}

/// A host over the stand-ins: it performs what a kernel asks, in memory.
struct Host {
    sandbox: StagedSandbox,
    scripted: Option<ScriptedSandbox>,
    sink: RecordingSink,
    notifier: RecordingNotifier,
    /// How many work files the last checkpoint had seen.
    seen: u32,
    commits: u32,
    texts: Vec<(String, String)>,
    /// Answered in place of the effect of this number, or of the next one that
    /// neither boots nor destroys.
    interrupt: Option<(usize, Reply)>,
    effects: usize,
    /// The child runs that settle, in order.
    settling: Vec<Reply>,
    spawned: u32,
    clock: Vec<u64>,
}

impl Host {
    fn new(steps: Vec<AgentStep>, checks: Vec<i32>) -> Host {
        Host {
            sandbox: StagedSandbox::new(ROOT.into(), steps, checks),
            scripted: None,
            sink: RecordingSink::new(),
            notifier: RecordingNotifier::new(),
            seen: 0,
            commits: 0,
            texts: vec![],
            interrupt: None,
            effects: 0,
            settling: vec![],
            spawned: 0,
            clock: vec![],
        }
    }

    fn perform(&mut self, effect: Effect) -> Reply {
        let number = self.effects;
        self.effects += 1;
        let shielded = matches!(effect, Effect::Boot { .. } | Effect::Destroy);
        if !shielded && self.interrupt.as_ref().is_some_and(|(at, _)| *at <= number) {
            return self.interrupt.take().unwrap().1;
        }
        match effect {
            Effect::Emit(event) => {
                self.sink.emit(event).unwrap();
                Reply::Done
            }
            Effect::Head => Reply::Head(format!("commit-{}", self.commits)),
            Effect::Checkpoint(_) => {
                let work = match &self.scripted {
                    Some(sandbox) => sandbox.execs().len() as u32,
                    None => self.sandbox.work_files,
                };
                if work > self.seen {
                    self.seen = work;
                    self.commits += 1;
                    Reply::Committed(Some(format!("commit-{}", self.commits)))
                } else {
                    Reply::Committed(None)
                }
            }
            Effect::PollCancel => Reply::Done,
            Effect::ReadHostText(path) => {
                match self.texts.iter().find(|(name, _)| *name == path) {
                    Some((_, text)) => Reply::Text(text.clone()),
                    None => Reply::Failed(KernelError::Workspace(WorkspaceError(format!(
                        "cannot read {path}"
                    )))),
                }
            }
            Effect::Notify(notification) => {
                self.notifier.notify(&notification).unwrap();
                Reply::Done
            }
            Effect::Spawn(_) => {
                self.spawned += 1;
                Reply::Spawned(RunId::new(&format!("child-{}", self.spawned)))
            }
            Effect::Watch(_) => Reply::Done,
            Effect::NextSettled => {
                if self.settling.is_empty() {
                    Reply::AllSettled
                } else {
                    self.settling.remove(0)
                }
            }
            other => match &mut self.scripted {
                Some(sandbox) => sandbox.serve(other),
                None => self.sandbox.serve(other),
            },
        }
    }

    fn now(&mut self) -> Duration {
        Duration::from_secs(if self.clock.is_empty() {
            0
        } else {
            self.clock.remove(0)
        })
    }

    fn events(&self) -> &Vec<RunEvent> {
        self.sink.events()
    }

    fn kinds(&self) -> Vec<String> {
        kinds(self.events())
            .into_iter()
            .filter(|kind| kind != "agent_output")
            .collect()
    }

    fn reasons(&self) -> Vec<PauseReason> {
        self.notifier
            .notifications()
            .iter()
            .map(|notification| notification.reason)
            .collect()
    }
}

/// Runs a kernel to its end on a host.
fn drive(
    name: KernelName,
    ctx: &KernelContext,
    host: &mut Host,
    resume: Option<Resume>,
) -> (Result<RunOutcome, KernelError>, BudgetUsage) {
    let mut turn = resolve(name).run(ctx, BudgetUsage::default(), host.now(), resume);
    for _ in 0..5000 {
        match turn {
            Turn::Act(run, effect) => {
                let reply = host.perform(effect);
                turn = run.step(ctx, host.now(), reply);
            }
            Turn::End(end) => return end,
        }
    }
    panic!("the run did not end");
}

fn pipeline(ctx: &KernelContext, host: &mut Host) -> Result<RunOutcome, KernelError> {
    drive(KernelName::Pipeline, ctx, host, None).0
}

fn unrefuted() -> AgentStep {
    AgentStep {
        stdout: "looking\n".into(),
        code: 0,
        report: Some(UNREFUTED_SKEPTIC_REPORT.into()),
    }
}

fn refuted(finding: &str) -> AgentStep {
    AgentStep {
        stdout: "looking\n".into(),
        code: 0,
        report: Some(format!(r#"{{"refuted": true, "findings": ["{finding}"]}}"#)),
    }
}

/// The steps of an iteration that finishes without a claim.
fn iteration() -> Vec<AgentStep> {
    vec![
        reports("continue", "planned"),
        reports("continue", "implemented"),
        reports("continue", "reviewed"),
        reports("continue", "simplified"),
    ]
}

fn checked(retries: u32, action: FailAction) -> VerifyConfig {
    VerifyConfig {
        checks: vec!["cargo test".into()],
        on_fail: OnFail { retries, action },
    }
}

#[test]
fn every_kernel_name_resolves_to_a_live_kernel() {
    for name in KernelName::all() {
        let ctx = staged();
        let turn = resolve(name).run(&ctx, BudgetUsage::default(), Duration::zero(), None);
        assert!(matches!(turn, Turn::Act(_, _)), "{name:?}");
    }
}

#[test]
fn the_kernel_answers_to_the_name_flows_select() {
    assert_eq!(
        KernelName::named(RalphKernel.name()),
        Some(KernelName::Ralph)
    );
}

#[test]
fn a_survived_claim_ends_the_run_as_done() {
    let ctx = KernelContext {
        verify: checked(0, FailAction::Pause),
        ..staged()
    };
    let mut host = Host::new(
        vec![
            reports("continue", "planned"),
            reports("done", "all of it"),
            unrefuted(),
        ],
        vec![],
    );
    assert_eq!(pipeline(&ctx, &mut host), Ok(RunOutcome::Done));
    assert_eq!(
        stage_events(host.events())
            .iter()
            .map(|(kind, stage)| format!("{kind} {stage}"))
            .collect::<Vec<_>>(),
        [
            "stage_started plan",
            "stage_reported plan",
            "stage_started implement",
            "stage_reported implement",
        ]
    );
    let kinds = host.kinds();
    assert_eq!(kinds[0], "run_started");
    assert!(kinds.contains(&"verify_check_finished".to_owned()));
    assert!(kinds.contains(&"skeptic_verdict".to_owned()));
    assert_eq!(
        host.events().last().unwrap(),
        &RunEvent::StateChanged {
            state: RunState::Done
        }
    );
    assert_eq!(host.sandbox.created(), host.sandbox.destroyed());
    let prompts = host.sandbox.agent_prompts();
    assert!(!carries_handoff(&prompts[0]));
    assert!(carries_report_from(
        &prompts[1],
        hako::pipeline::contract::Stage::Plan
    ));
    assert!(prompts[2].starts_with("# hako pipeline — skeptic iteration"));
}

#[test]
fn a_refuted_claim_sends_the_findings_to_the_next_plan() {
    let ctx = staged();
    let mut host = Host::new(
        vec![
            reports("done", "all of it"),
            refuted("a TODO remains"),
            reports("done", "really"),
            unrefuted(),
        ],
        vec![],
    );
    assert_eq!(pipeline(&ctx, &mut host), Ok(RunOutcome::Done));
    let prompts = host.sandbox.agent_prompts();
    assert!(prompts[2].contains("a TODO remains"), "{}", prompts[2]);
    assert!(prompts[2].contains("## Completion claim refuted"));
}

#[test]
fn a_blocked_stage_pauses_the_run_and_tells_the_human() {
    let ctx = staged();
    let mut host = Host::new(vec![reports("blocked", "no network")], vec![]);
    assert_eq!(
        pipeline(&ctx, &mut host),
        Ok(RunOutcome::Paused(PauseReason::Blocked))
    );
    assert_eq!(host.reasons(), [PauseReason::Blocked]);
    assert_eq!(
        host.notifier.notifications()[0].summary.as_deref(),
        Some("no network")
    );
    assert_eq!(
        host.events().last().unwrap(),
        &RunEvent::StateChanged {
            state: RunState::Paused {
                reason: PauseReason::Blocked
            }
        }
    );
}

#[test]
fn a_question_awaits_a_human() {
    let ctx = staged();
    let mut host = Host::new(vec![reports("needs_input", "which shape?")], vec![]);
    assert_eq!(
        pipeline(&ctx, &mut host),
        Ok(RunOutcome::Paused(PauseReason::AwaitingHuman))
    );
}

#[test]
fn red_checks_are_retried_with_feedback_and_pause_in_the_end() {
    let ctx = KernelContext {
        verify: checked(1, FailAction::Pause),
        ..staged()
    };
    let mut host = Host::new(
        vec![
            reports("continue", "planned"),
            reports("continue", "first try"),
            reports("continue", "second try"),
        ],
        vec![1, 1],
    );
    assert_eq!(
        pipeline(&ctx, &mut host),
        Ok(RunOutcome::Paused(PauseReason::VerifyFailed))
    );
    let prompts = host.sandbox.agent_prompts();
    assert!(!carries_verify_feedback(&prompts[1]));
    assert!(carries_verify_feedback(&prompts[2]));
    assert!(prompts[2].contains("assertion failed: boom"));
}

#[test]
fn a_flow_may_fail_a_run_over_red_checks() {
    let ctx = KernelContext {
        verify: checked(0, FailAction::Fail),
        ..staged()
    };
    let mut host = Host::new(
        vec![
            reports("continue", "planned"),
            reports("continue", "first try"),
        ],
        vec![1],
    );
    assert_eq!(pipeline(&ctx, &mut host), Ok(RunOutcome::Failed));
    assert!(host.reasons().is_empty());
}

#[test]
fn a_rejected_report_gets_one_repair() {
    let ctx = staged();
    let mut host = Host::new(
        vec![malformed(), reports("blocked", "repaired")],
        vec![],
    );
    assert_eq!(
        pipeline(&ctx, &mut host),
        Ok(RunOutcome::Paused(PauseReason::Blocked))
    );
    let prompts = host.sandbox.agent_prompts();
    assert_eq!(prompts.len(), 2);
    assert!(prompts[1].contains("unknown field"), "{}", prompts[1]);
    assert_eq!(
        host.kinds()
            .iter()
            .filter(|kind| *kind == "report_rejected")
            .count(),
        1
    );
}

#[test]
fn a_stale_report_does_not_count_as_a_fresh_one() {
    let ctx = staged();
    let mut host = Host::new(
        vec![
            reports("continue", "planned"),
            omits_report(),
            omits_report(),
            reports("blocked", "next"),
        ],
        vec![],
    );
    pipeline(&ctx, &mut host).unwrap();
    assert_eq!(
        host.kinds()
            .iter()
            .filter(|kind| *kind == "report_rejected")
            .count(),
        2
    );
}

#[test]
fn a_run_that_commits_nothing_drifts() {
    let ctx = staged();
    let mut steps = Vec::new();
    for _ in 0..5 {
        steps.extend(iteration());
    }
    let mut host = Host::new(steps, vec![]);
    // Whatever the agent leaves is never committed.
    host.seen = u32::MAX;
    assert_eq!(
        pipeline(&ctx, &mut host),
        Ok(RunOutcome::Paused(PauseReason::Drift))
    );
    assert_eq!(host.reasons(), [PauseReason::Drift]);
}

#[test]
fn a_crashed_agent_fails_the_run() {
    let ctx = staged();
    let mut host = Host::new(vec![crashes()], vec![]);
    assert_eq!(pipeline(&ctx, &mut host), Ok(RunOutcome::Failed));
    assert_eq!(host.sandbox.created(), host.sandbox.destroyed());
}

#[test]
fn an_iteration_opens_only_within_its_budget() {
    let ctx = KernelContext {
        budgets: Budgets {
            max_iterations: Some(1),
            ..Budgets::default()
        },
        ..staged()
    };
    let mut host = Host::new(iteration(), vec![]);
    assert_eq!(
        pipeline(&ctx, &mut host),
        Ok(RunOutcome::Paused(PauseReason::Budget))
    );
    assert!(host.kinds().contains(&"budget_exhausted".to_owned()));
    let started = host
        .kinds()
        .iter()
        .filter(|kind| *kind == "iteration_started")
        .count();
    assert_eq!(started, 1);
}

#[test]
fn tokens_the_agent_reports_count_against_the_budget() {
    let usage = TokenUsage {
        input: 6,
        output: 4,
    };
    let ctx = KernelContext {
        budgets: Budgets {
            max_tokens: Some(40),
            ..Budgets::default()
        },
        agent: Agent::Scripted(ScriptedAgent::new().reporting(usage)),
        ..staged()
    };
    let mut steps = iteration();
    for step in &mut steps {
        step.stdout = "tokens used\n".into();
    }
    let mut host = Host::new(steps, vec![]);
    let (outcome, books) = drive(KernelName::Pipeline, &ctx, &mut host, None);
    assert_eq!(outcome, Ok(RunOutcome::Paused(PauseReason::Budget)));
    assert_eq!(books.tokens(), Some(40));
}

#[test]
fn a_cancelled_run_destroys_its_sandbox() {
    for at in 0..40 {
        let ctx = staged();
        let mut host = Host::new(vec![reports("blocked", "x")], vec![]);
        host.interrupt = Some((at, Reply::Cancelled));
        let outcome = pipeline(&ctx, &mut host);
        assert_eq!(
            host.sandbox.created(),
            host.sandbox.destroyed(),
            "interrupted at {at}: {outcome:?}"
        );
    }
}

#[test]
fn a_timed_out_iteration_is_retried_with_feedback_and_then_pauses() {
    let ctx = staged();
    let mut host = Host::new(
        vec![reports("continue", "x"), reports("blocked", "x")],
        vec![],
    );
    // The reply to the first exec.
    let mut probe = Host::new(vec![reports("blocked", "x")], vec![]);
    let mut turn = resolve(KernelName::Pipeline).run(
        &ctx,
        BudgetUsage::default(),
        Duration::zero(),
        None,
    );
    let mut at = 0;
    loop {
        match turn {
            Turn::Act(run, effect) => {
                if matches!(effect, Effect::Exec(_)) {
                    break;
                }
                at += 1;
                let reply = probe.perform(effect);
                turn = run.step(&ctx, Duration::zero(), reply);
            }
            Turn::End(_) => panic!("no exec"),
        }
    }
    host.interrupt = Some((at, Reply::TimedOut));
    let outcome = pipeline(&ctx, &mut host);
    assert!(outcome.is_ok());
    assert!(host.events().contains(&RunEvent::IterationFinished {
        iteration: 1,
        outcome: IterationOutcome::TimedOut,
    }));
    assert_eq!(host.sandbox.created(), host.sandbox.destroyed());
}

#[test]
fn a_failing_host_is_told_and_leaks_no_sandbox() {
    for at in 0..30 {
        let ctx = staged();
        let mut host = Host::new(vec![reports("blocked", "x")], vec![]);
        host.interrupt = Some((
            at,
            Reply::Failed(KernelError::Sandbox(hako::sandbox::SandboxError(
                "gone".into(),
            ))),
        ));
        let outcome = pipeline(&ctx, &mut host);
        assert_eq!(
            host.sandbox.created(),
            host.sandbox.destroyed(),
            "failed at {at}: {outcome:?}"
        );
        if at == 0 {
            assert_eq!(outcome.unwrap_err().to_text(), "sandbox failure: gone");
        }
    }
}

/// The events of a run, as its log holds them.
fn envelopes(events: &[RunEvent]) -> Vec<EventEnvelope> {
    events
        .iter()
        .enumerate()
        .map(|(seq, event)| EventEnvelope {
            seq: seq as u64,
            run_id: "r1".into(),
            at: "2026-07-13T09:00:00Z".into(),
            event: RunEvent::from_json(&event.to_json()).unwrap(),
        })
        .collect()
}

/// A log once more.
fn log_of(log: &[EventEnvelope]) -> Vec<EventEnvelope> {
    log.iter()
        .map(|envelope| EventEnvelope {
            seq: envelope.seq,
            run_id: envelope.run_id.clone(),
            at: envelope.at.clone(),
            event: RunEvent::from_json(&envelope.event.to_json()).unwrap(),
        })
        .collect()
}

#[test]
fn an_answered_question_reaches_the_stage_that_asked() {
    let ctx = staged();
    let mut host = Host::new(
        vec![
            reports("continue", "planned"),
            AgentStep {
                stdout: "asking\n".into(),
                code: 0,
                report: Some(
                    r#"{"status": "needs_input", "summary": "need a decision",
                        "questions": [{"id": "q1", "text": "sqlite or files?"}]}"#
                        .into(),
                ),
            },
        ],
        vec![],
    );
    assert_eq!(
        pipeline(&ctx, &mut host),
        Ok(RunOutcome::Paused(PauseReason::AwaitingHuman))
    );
    let mut log = envelopes(host.events());
    for event in [
        RunEvent::QuestionAnswered {
            question_id: "q1".into(),
            answer: "sqlite".into(),
        },
        RunEvent::RunResumed {
            note: Some("keep it simple".into()),
        },
    ] {
        let seq = log.len() as u64;
        log.push(EventEnvelope {
            seq,
            run_id: "r1".into(),
            at: "2026-07-13T10:00:00Z".into(),
            event,
        });
    }
    let point = ResumePoint::from_events(&log).unwrap();
    // What the resumed run logs changes nothing of the point it resumed from.
    let mut longer = log_of(&log);
    for event in [
        RunEvent::IterationStarted { iteration: 9 },
        RunEvent::StateChanged {
            state: RunState::Paused {
                reason: PauseReason::Budget,
            },
        },
        RunEvent::QuestionAnswered {
            question_id: "q1".into(),
            answer: "files".into(),
        },
    ] {
        let seq = longer.len() as u64;
        longer.push(EventEnvelope {
            seq,
            run_id: "r1".into(),
            at: "2026-07-13T11:00:00Z".into(),
            event,
        });
    }
    assert_eq!(ResumePoint::from_events(&longer).unwrap(), point);

    let ctx = KernelContext {
        replay: Some(log),
        ..staged()
    };
    let mut host = Host::new(vec![reports("blocked", "x")], vec![]);
    assert_eq!(
        pipeline(&ctx, &mut host),
        Ok(RunOutcome::Paused(PauseReason::Blocked))
    );
    let prompt = &host.sandbox.agent_prompts()[0];
    assert!(prompt.starts_with("# hako pipeline — implement stage"), "{prompt}");
    assert!(carries_human_input(prompt));
    assert!(prompt.contains("sqlite or files?"));
    assert!(prompt.contains("keep it simple"));
    assert!(carries_handoff(prompt));
}

#[test]
fn a_log_without_a_pause_is_no_resume_point() {
    let log = envelopes(&[RunEvent::RunStarted {
        kernel: "pipeline".into(),
        agent: "scripted".into(),
    }]);
    let ctx = KernelContext {
        replay: Some(log),
        ..staged()
    };
    let mut host = Host::new(vec![], vec![]);
    let error = pipeline(&ctx, &mut host).unwrap_err();
    assert!(matches!(error, KernelError::Resume(_)), "{error:?}");
    assert!(error.to_text().starts_with("cannot resume run: "));
}

#[test]
fn a_prompt_override_is_read_from_the_workspace() {
    let ctx = KernelContext {
        prompts: PromptsConfig {
            slots: vec![("plan".into(), "prompts/plan.md".into())],
        },
        ..staged()
    };
    let mut host = Host::new(vec![reports("blocked", "x")], vec![]);
    host.sandbox.seed_guest_file(
        "/workspace/prompts/plan.md",
        b"PLAN BY OUR RULES".to_vec(),
    );
    host.texts.push((
        "/srv/runs/r1/workspace/prompts/plan.md".into(),
        "PLAN BY OUR RULES".into(),
    ));
    assert_eq!(
        pipeline(&ctx, &mut host),
        Ok(RunOutcome::Paused(PauseReason::Blocked))
    );
    assert!(host.sandbox.agent_prompts()[0].contains("PLAN BY OUR RULES"));
}

#[test]
fn what_the_agent_prints_of_a_secret_is_redacted_in_the_log() {
    let ctx = KernelContext {
        secrets: secret_env(&vec![("GH_TOKEN", "ghp_leaked")]),
        ..staged()
    };
    let mut step = reports("blocked", "x");
    step.stdout = "GH_TOKEN=ghp_leaked\n".into();
    let mut host = Host::new(vec![step], vec![]);
    pipeline(&ctx, &mut host).unwrap();
    let logged = host
        .events()
        .iter()
        .map(|event| event.to_json().to_text())
        .collect::<String>();
    assert!(logged.contains("[redacted secret]"), "{logged}");
    assert!(!logged.contains("ghp_leaked"), "{logged}");
}

fn unit_plan(status: &str, units: &[&str]) -> AgentStep {
    let units: Vec<String> = units.iter().map(|unit| format!("{unit:?}")).collect();
    AgentStep {
        stdout: "planning\n".into(),
        code: 0,
        report: Some(format!(
            r#"{{"status": "{status}", "summary": "split", "units": [{}]}}"#,
            units.join(", ")
        )),
    }
}

fn child_log(state: RunState, usage: Option<TokenUsage>) -> Vec<EventEnvelope> {
    let mut events = vec![RunEvent::IterationFinished {
        iteration: 1,
        outcome: IterationOutcome::Completed,
    }];
    if let Some(usage) = usage {
        events.push(RunEvent::TokensUsed {
            iteration: 1,
            usage,
        });
    }
    events.push(RunEvent::StateChanged { state });
    envelopes(&events)
}

#[test]
fn a_fanout_spawns_its_units_and_plans_again_once_all_settled() {
    let ctx = staged();
    let mut host = Host::new(
        vec![
            unit_plan("continue", &["unit a", "unit b"]),
            unit_plan("done", &[]),
            unrefuted(),
        ],
        vec![],
    );
    host.settling = vec![
        Reply::Settled(RunId::new("child-2"), child_log(RunState::Done, None)),
        Reply::Settled(
            RunId::new("child-1"),
            child_log(
                RunState::Failed,
                Some(TokenUsage {
                    input: 5,
                    output: 5,
                }),
            ),
        ),
    ];
    let (outcome, books) = drive(KernelName::Fanout, &ctx, &mut host, None);
    assert_eq!(outcome, Ok(RunOutcome::Done), "{:?}", host.kinds());
    assert_eq!(host.spawned, 2);
    assert_eq!(books.tokens(), Some(10));
    let kinds = host.kinds();
    assert_eq!(
        kinds
            .iter()
            .filter(|kind| *kind == "child_run_finished")
            .count(),
        2
    );
}

#[test]
fn a_child_that_is_lost_fails_the_fanout_after_its_siblings_settled() {
    let ctx = staged();
    let mut host = Host::new(vec![unit_plan("continue", &["a", "b"])], vec![]);
    host.settling = vec![
        Reply::WatchLost(RunSpawnerError("gone".into())),
        Reply::Settled(RunId::new("child-2"), child_log(RunState::Done, None)),
    ];
    let (outcome, _) = drive(KernelName::Fanout, &ctx, &mut host, None);
    assert_eq!(
        outcome,
        Err(KernelError::Spawner(RunSpawnerError("gone".into())))
    );
    assert!(host.settling.is_empty(), "no sibling is abandoned");
}

const PROGRESS: &str = "/workspace/.hako/progress.json";

fn ralph_host(reports: &[&str], code: i32) -> Host {
    let mut host = Host::new(vec![], vec![]);
    let mut sandbox = ScriptedSandbox::repeating(exec("working\n", code));
    if let Some(report) = reports.first() {
        sandbox.serve_file(PROGRESS, report.as_bytes().to_vec());
    }
    host.scripted = Some(sandbox);
    host.texts.push((
        "/srv/runs/r1/workspace/PROMPT.md".into(),
        "domain rules\n".into(),
    ));
    host
}

#[test]
fn the_single_prompt_loop_ends_with_the_agents_done() {
    let ctx = staged();
    let mut host = ralph_host(&[r#"{"status": "done", "summary": "all of it"}"#], 0);
    let (outcome, _) = drive(KernelName::Ralph, &ctx, &mut host, None);
    assert_eq!(outcome, Ok(RunOutcome::Done), "{:?}", host.kinds());
    let sandbox = host.scripted.as_ref().unwrap();
    assert_eq!(sandbox.created(), sandbox.destroyed());
    let prompt = &sandbox.execs()[0].argv[2];
    assert!(prompt.contains("domain rules"), "{prompt}");
    assert!(host
        .kinds()
        .contains(&"progress_reported".to_owned()));
}

#[test]
fn red_checks_never_end_the_single_prompt_loop_as_done() {
    let ctx = KernelContext {
        verify: checked(0, FailAction::Pause),
        ..staged()
    };
    let mut host = ralph_host(&[r#"{"status": "done", "summary": "all of it"}"#], 0);
    let sandbox = host.scripted.as_mut().unwrap();
    sandbox.script = vec![exec("working\n", 0), exec("FAILED\n", 1)];
    let (outcome, _) = drive(KernelName::Ralph, &ctx, &mut host, None);
    assert_eq!(
        outcome,
        Ok(RunOutcome::Paused(PauseReason::VerifyFailed)),
        "{:?}",
        host.kinds()
    );
}

#[test]
fn no_kernel_drops_a_live_sandbox() {
    for at in 0..40 {
        for sudden in [
            Reply::Cancelled,
            Reply::TimedOut,
            Reply::Failed(KernelError::Sandbox(hako::sandbox::SandboxError(
                "gone".into(),
            ))),
        ] {
            let ctx = staged();
            let mut host = Host::new(vec![unit_plan("done", &[]), unrefuted()], vec![]);
            host.interrupt = Some((at, sudden));
            let (outcome, _) = drive(KernelName::Fanout, &ctx, &mut host, None);
            assert_eq!(
                host.sandbox.created(),
                host.sandbox.destroyed(),
                "fanout interrupted at {at}: {outcome:?}"
            );
            // Done takes a skeptic of its own, which came back unrefuted.
            if outcome == Ok(RunOutcome::Done) {
                assert!(host.kinds().contains(&"skeptic_verdict".to_owned()));
                assert_eq!(host.sandbox.created(), 2);
            }
        }
        let ctx = staged();
        let mut host = ralph_host(&[r#"{"status": "done", "summary": "all of it"}"#], 0);
        host.interrupt = Some((at, Reply::Cancelled));
        let (outcome, _) = drive(KernelName::Ralph, &ctx, &mut host, None);
        let sandbox = host.scripted.as_ref().unwrap();
        assert_eq!(
            sandbox.created(),
            sandbox.destroyed(),
            "single prompt interrupted at {at}: {outcome:?}"
        );
    }
}

#[test]
fn a_resumed_single_prompt_loop_carries_the_humans_words() {
    let ctx = staged();
    let mut host = ralph_host(&[r#"{"status": "blocked", "summary": "stuck"}"#], 0);
    let resume = Resume {
        iteration: 3,
        report: ProgressReport {
            status: ProgressStatus::NeedsInput,
            summary: "asked".into(),
            remaining: vec![],
            blockers: vec![],
            questions: vec![],
        },
        answers: vec![Answer {
            question_id: "q1".into(),
            answer: "sqlite".into(),
        }],
        note: Some("go on".into()),
    };
    let (outcome, _) = drive(KernelName::Ralph, &ctx, &mut host, Some(resume));
    assert_eq!(outcome, Ok(RunOutcome::Paused(PauseReason::Blocked)));
    let prompt = &host.scripted.as_ref().unwrap().execs()[0].argv[2];
    assert!(prompt.contains("sqlite"), "{prompt}");
    assert!(prompt.contains("go on"), "{prompt}");
    assert!(host
        .events()
        .contains(&RunEvent::IterationStarted { iteration: 4 }));
}

#[test]
fn the_stand_ins_answer_as_they_are_told() {
    assert_eq!(NoAgent.name(), "none");
    assert!(NoAgent.required_secrets().is_empty());
    let agent = ScriptedAgent::new().requiring("GH_TOKEN");
    assert_eq!(agent.required_secrets()[0].as_str(), "GH_TOKEN");
    assert_eq!(
        agent.invocation("go").argv,
        ["scripted-agent", "--prompt", "go"]
    );
    assert!(matches!(
        NoSandbox.serve(&Effect::Destroy),
        Reply::Failed(KernelError::Sandbox(_))
    ));
    let mut sandbox = ScriptedSandbox::scripted(vec![]);
    sandbox.seed_file("/a", b"one".to_vec());
    sandbox.serve_report("{}");
    assert_eq!(
        sandbox.serve(Effect::ReadFile("/a".into())),
        Reply::File(b"one".to_vec())
    );
    sandbox.serve(Effect::RemoveFile("/a".into()));
    assert!(matches!(
        sandbox.serve(Effect::ReadFile("/a".into())),
        Reply::Failed(_)
    ));
    sandbox.serve(Effect::RemoveFile("/workspace/.hako/report.json".into()));
    assert_eq!(
        sandbox.serve(Effect::ReadFile("/workspace/.hako/report.json".into())),
        Reply::File(b"{}".to_vec())
    );
    let notification = hako::notify::Notification {
        run_id: RunId::new("r1"),
        reason: PauseReason::Budget,
        summary: None,
    };
    assert!(StubNotifier.notify(&notification).is_ok());
    assert_eq!(
        Json::parse(UNREFUTED_SKEPTIC_REPORT).unwrap().to_text(),
        r#"{"refuted":false,"findings":[]}"#
    );
}

#[test]
fn the_default_context_is_inert() {
    let ctx = context();
    assert_eq!(ctx.run_id.as_str(), "r1");
    assert_eq!(ctx.agent, Agent::Absent(NoAgent));
    assert_eq!(ctx.agent.name(), "none");
    assert_eq!(ctx.budgets, Budgets::default());
    assert!(ctx.verify.checks.is_empty());
    assert!(ctx.prompts.slots.is_empty());
    assert!(ctx.replay.is_none());
    assert!(ctx.scope.is_none());
    assert!(ctx.secrets.is_empty());
    let (ctx, sink) = pipeline_context(
        "/w",
        checked(2, FailAction::Pause),
        PromptsConfig::default(),
    );
    assert_eq!(ctx.workspace.root, "/w");
    assert_eq!(ctx.verify.on_fail.retries, 2);
    assert_eq!(ctx.agent, Agent::Scripted(ScriptedAgent::new()));
    assert!(sink.events().is_empty());
}

fn boot() -> Effect {
    Effect::Boot {
        spec: staged().sandbox_spec(),
        deadline: None,
    }
}

#[test]
fn the_most_sandboxes_alive_at_once_are_counted() {
    let mut sandbox = ScriptedSandbox::scripted(vec![]);
    assert_eq!(sandbox.max_active(), 0);
    for effect in [boot(), boot(), Effect::Destroy, boot(), Effect::Destroy] {
        assert_eq!(sandbox.serve(effect), Reply::Done);
    }
    assert_eq!(sandbox.created(), 3);
    assert_eq!(sandbox.destroyed(), 2);
    assert_eq!(sandbox.max_active(), 2);
}

#[test]
fn a_boot_carries_the_workspace_and_the_secrets() {
    let ctx = KernelContext {
        secrets: secret_env(&vec![("GH_TOKEN", "ghp_1")]),
        ..staged()
    };
    let run = resolve(KernelName::Pipeline).run(
        &ctx,
        BudgetUsage::default(),
        Duration::zero(),
        None,
    );
    let mut host = Host::new(vec![], vec![]);
    let mut turn = run;
    for _ in 0..50 {
        match turn {
            Turn::Act(_, Effect::Boot { spec, .. }) => {
                assert_eq!(spec.workspace.host, ROOT);
                assert_eq!(spec.workspace.guest, "/workspace");
                assert_eq!(spec.env.len(), 1);
                assert_eq!(spec.env[0].0, "GH_TOKEN");
                assert_eq!(spec.env[0].1.expose(), "ghp_1");
                return;
            }
            Turn::Act(run, effect) => {
                let reply = host.perform(effect);
                turn = run.step(&ctx, Duration::zero(), reply);
            }
            Turn::End(_) => break,
        }
    }
    panic!("the run booted nothing");
}

#[test]
fn a_staged_sandbox_works_on_the_hosts_files() {
    let mut sandbox = StagedSandbox::new(ROOT.into(), vec![reports("continue", "x")], vec![]);
    let agent = ScriptedAgent::new().invocation("go");
    assert_eq!(sandbox.serve(Effect::Exec(agent)), Reply::Done);
    assert_eq!(
        sandbox.serve(Effect::ReadFile("/workspace/work-0.txt".into())),
        Reply::File(b"work\n".to_vec())
    );
    assert_eq!(
        sandbox.serve(Effect::ReadFile(format!("{ROOT}/work-0.txt"))),
        Reply::File(b"work\n".to_vec())
    );
    assert_eq!(
        sandbox.serve(Effect::ReadFile("work-0.txt".into())),
        Reply::File(b"work\n".to_vec())
    );
    assert_eq!(
        sandbox.serve(Effect::ReadFile("/workspace/none.txt".into())),
        Reply::Failed(KernelError::Sandbox(hako::sandbox::SandboxError(
            "no such file /workspace/none.txt: No such file or directory (os error 2)".into()
        )))
    );
    let report = "/workspace/.hako/report.json";
    assert!(matches!(
        sandbox.serve(Effect::ReadFile(report.into())),
        Reply::File(_)
    ));
    sandbox.serve(Effect::RemoveFile(report.into()));
    assert!(matches!(
        sandbox.serve(Effect::ReadFile(report.into())),
        Reply::Failed(_)
    ));
}
