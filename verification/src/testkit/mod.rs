//! Stand-ins for what a run talks to, so that a whole loop can be driven
//! in-process: no VMs, no LLMs, no network. Nothing here stands in for the
//! engine's own logic; a test goes by the events a run emitted, what it came
//! to, and what it asked of its host.

pub mod fakes;
pub mod prompt;
pub mod sandbox;

pub use fakes::{
    exec, secret_env, MapSecrets, NoAgent, NoSecrets, RecordingNotifier, RecordingSink,
    ScriptedAgent, StubNotifier, Transcript, AGENT_BIN,
};
pub use prompt::{
    carries_handoff, carries_human_input, carries_report_from, carries_verify_feedback,
};
pub use sandbox::{
    crashes, malformed, omits_report, reports, AgentStep, NoSandbox, ScriptedSandbox,
    StagedSandbox, UNREFUTED_SKEPTIC_REPORT,
};

use crate::agents::Agent;
use crate::budget::{Budgets, Duration, DEFAULT_ITERATION_TIMEOUT_SECS};
use crate::event::{self, RunEvent};
use crate::flow::{FailAction, OnFail, PromptsConfig, VerifyConfig};
use crate::json;
use crate::kernel::KernelContext;
use crate::run::RunId;
use crate::secrets::SecretEnv;
use crate::sink::EventSink;
use crate::text;
use crate::wire;
use crate::workspace::Workspace;
use vstd::prelude::*;

verus! {

/// The tag an event has on the wire.
pub open spec fn kind(e: event::EventView) -> Seq<char> {
    match wire::text_at(json::JsonView::Object(event::event_fields(e)), "type"@) {
        Some(tag) => tag,
        None => Seq::empty(),
    }
}

/// The events' tags, in order: the compact sequence to compare against.
pub fn kinds(events: &Vec<RunEvent>) -> (r: Vec<String>)
    ensures
        text::texts(r@) == event::event_views(events@).map_values(|e: event::EventView| kind(e)),
{
    let mut r: Vec<String> = Vec::new();
    for i in 0..events.len()
        invariant
            r@.len() == i,
            forall|j: int| 0 <= j < i ==> #[trigger] r@[j]@ == kind(events@[j]@),
    {
        let tag = match wire::read_text(&events[i].to_json(), "type") {
            Some(tag) => tag,
            None => {
                let none: String = String::new();
                assert(none@ =~= Seq::empty());
                none
            },
        };
        r.push(tag);
    }
    assert(text::texts(r@) =~= event::event_views(events@).map_values(
        |e: event::EventView| kind(e),
    ));
    r
}

/// What a stage-scoped event is about: its tag and its stage; nothing for
/// any other event.
pub open spec fn stage_event(e: event::EventView) -> Option<(Seq<char>, Seq<char>)> {
    match e {
        event::EventView::StageStarted { stage, .. } => Some(("stage_started"@, stage)),
        event::EventView::StageReported { stage, .. } => Some(("stage_reported"@, stage)),
        _ => None,
    }
}

/// The stage-scoped ones among events.
pub open spec fn staged(events: Seq<event::EventView>) -> Seq<(Seq<char>, Seq<char>)>
    decreases events.len(),
{
    if events.len() == 0 {
        Seq::empty()
    } else {
        match stage_event(events.last()) {
            Some(pair) => staged(events.drop_last()).push(pair),
            None => staged(events.drop_last()),
        }
    }
}

/// The stage-scoped events in order, as pairs of tag and stage.
pub fn stage_events(events: &Vec<RunEvent>) -> (r: Vec<(String, String)>)
    ensures
        r@.map_values(|p: (String, String)| (p.0@, p.1@)) == staged(event::event_views(events@)),
{
    let ghost all = event::event_views(events@);
    let mut r: Vec<(String, String)> = Vec::new();
    assert(all.take(0) =~= Seq::empty());
    assert(r@.map_values(|p: (String, String)| (p.0@, p.1@)) =~= Seq::empty());
    for i in 0..events.len()
        invariant
            all == event::event_views(events@),
            r@.map_values(|p: (String, String)| (p.0@, p.1@)) == staged(all.take(i as int)),
    {
        assert(all.take(i + 1).drop_last() =~= all.take(i as int));
        assert(all.take(i + 1).last() == events@[i as int]@);
        let pair: Option<(String, String)> = match &events[i] {
            RunEvent::StageStarted { stage, .. } => Some(
                ("stage_started".to_owned(), stage.clone()),
            ),
            RunEvent::StageReported { stage, .. } => Some(
                ("stage_reported".to_owned(), stage.clone()),
            ),
            _ => None,
        };
        if let Some(pair) = pair {
            let ghost before = r@.map_values(|p: (String, String)| (p.0@, p.1@));
            let ghost added = (pair.0@, pair.1@);
            r.push(pair);
            assert(r@.map_values(|p: (String, String)| (p.0@, p.1@)) =~= before.push(added));
        }
    }
    assert(all.take(all.len() as int) =~= all);
    r
}

/// A context with everything defaulted and inert: no caps but the
/// iteration's, no checks, no prompts of the flow's own, no secrets, and no
/// agent, so that a test names what it cares about.
pub fn context() -> (r: KernelContext)
    ensures
        r.run_id@ == "r1"@,
        r.budgets.max_iterations is None,
        r.budgets.max_wall_clock is None,
        r.budgets.max_tokens is None,
        r.budgets.iteration_timeout == Duration::of_secs(DEFAULT_ITERATION_TIMEOUT_SECS),
        r.replay is None,
        r.verify.checks@.len() == 0,
        r.verify.on_fail == (OnFail { retries: 0, action: FailAction::Pause }),
        forall|slot: Seq<char>| r.prompts.file(slot) is None,
        r.scope is None,
        r.workspace.root@ == "/srv/runs/r1/workspace"@,
        r.workspace.push_branch is None,
        r.workspace.lock is None,
        r.agent == Agent::Absent(NoAgent),
        r.secrets.env() == Map::<Seq<char>, Seq<char>>::empty(),
{
    KernelContext {
        run_id: RunId::new("r1"),
        budgets: Budgets::default(),
        replay: None,
        verify: VerifyConfig::default(),
        prompts: PromptsConfig::default(),
        scope: None,
        workspace: Workspace::at("/srv/runs/r1/workspace"),
        agent: Agent::Absent(NoAgent),
        secrets: SecretEnv::default(),
    }
}

/// A context over a scripted agent, and a sink that records: [`context`] with
/// a workspace, checks and prompts of the test's own.
pub fn pipeline_context(workspace: &str, verify: VerifyConfig, prompts: PromptsConfig) -> (r: (
    KernelContext,
    RecordingSink,
))
    ensures
        r.0.run_id@ == "r1"@,
        r.0.budgets.max_iterations is None,
        r.0.budgets.max_wall_clock is None,
        r.0.budgets.max_tokens is None,
        r.0.budgets.iteration_timeout == Duration::of_secs(DEFAULT_ITERATION_TIMEOUT_SECS),
        r.0.replay is None,
        r.0.verify == verify,
        r.0.prompts == prompts,
        r.0.scope is None,
        r.0.workspace.root@ == workspace@,
        r.0.workspace.push_branch is None,
        r.0.workspace.lock is None,
        r.0.agent matches Agent::Scripted(agent) && agent.secrets@.len() == 0
            && agent.usage is None,
        r.0.secrets.env() == Map::<Seq<char>, Seq<char>>::empty(),
        r.1.landed().len() == 0,
{
    let ctx = KernelContext {
        verify,
        prompts,
        workspace: Workspace::at(workspace),
        agent: Agent::Scripted(ScriptedAgent::new()),
        ..context()
    };
    (ctx, RecordingSink::new())
}

} // verus!
