//! The events of a run and their wire form: one flat JSON object per event,
//! told apart by its `type`. The log a sink writes is already the published
//! format that the daemon streams verbatim.

use crate::budget::{BudgetKind, TokenUsage};
use crate::fault::{self, Field, FieldView};
use crate::json::{self, Json};
use crate::run::{self, RunState};
use crate::text;
use crate::wire;
use vstd::prelude::*;

verus! {

/// How an iteration ended.
#[derive(Debug, Clone, Copy, PartialEq, Eq, Structural)]
pub enum IterationOutcome {
    Completed,
    Failed,
    TimedOut,
}

impl IterationOutcome {
    /// The word the wire format has for the outcome.
    pub open spec fn word(self) -> Seq<char> {
        match self {
            IterationOutcome::Completed => "completed"@,
            IterationOutcome::Failed => "failed"@,
            IterationOutcome::TimedOut => "timed_out"@,
        }
    }

    pub fn as_str(&self) -> (s: &'static str)
        ensures
            s@ == self.word(),
    {
        match self {
            IterationOutcome::Completed => "completed",
            IterationOutcome::Failed => "failed",
            IterationOutcome::TimedOut => "timed_out",
        }
    }
}

/// Which of the agent's streams a chunk came from.
#[derive(Debug, Clone, Copy, PartialEq, Eq, Structural)]
pub enum OutputStream {
    Stdout,
    Stderr,
}

impl OutputStream {
    /// The word the wire format has for the stream.
    pub open spec fn word(self) -> Seq<char> {
        match self {
            OutputStream::Stdout => "stdout"@,
            OutputStream::Stderr => "stderr"@,
        }
    }

    pub fn as_str(&self) -> (s: &'static str)
        ensures
            s@ == self.word(),
    {
        match self {
            OutputStream::Stdout => "stdout",
            OutputStream::Stderr => "stderr",
        }
    }
}

/// The member as an iteration's outcome.
pub open spec fn outcome_at(v: json::JsonView, key: Seq<char>) -> Option<IterationOutcome> {
    match wire::text_at(v, key) {
        None => None,
        Some(word) => if word == "completed"@ {
            Some(IterationOutcome::Completed)
        } else if word == "failed"@ {
            Some(IterationOutcome::Failed)
        } else if word == "timed_out"@ {
            Some(IterationOutcome::TimedOut)
        } else {
            None
        },
    }
}

/// [`outcome_at`], computed.
fn read_outcome(v: &Json, key: &str) -> (r: Option<IterationOutcome>)
    ensures
        r == outcome_at(v@, key@),
{
    let word = wire::read_text(v, key)?;
    if text::same(word.as_str(), "completed") {
        Some(IterationOutcome::Completed)
    } else if text::same(word.as_str(), "failed") {
        Some(IterationOutcome::Failed)
    } else if text::same(word.as_str(), "timed_out") {
        Some(IterationOutcome::TimedOut)
    } else {
        None
    }
}

/// The words of the wire format for an iteration's outcome.
pub open spec fn outcome_words() -> Seq<Seq<char>> {
    seq!["completed"@, "failed"@, "timed_out"@]
}

/// The member as an iteration's outcome.
pub open spec fn outcome_field(v: json::JsonView, key: Seq<char>) -> FieldView {
    fault::word_field(v, key, outcome_words())
}

/// [`outcome_field`], computed.
fn look_for_outcome(v: &Json, key: &'static str) -> (r: Field)
    ensures
        r@ == outcome_field(v@, key@),
{
    let words: Vec<&'static str> = vec!["completed", "failed", "timed_out"];
    assert(fault::spelled(words@) =~= outcome_words());
    fault::look_for_word(v, key, &words)
}

proof fn lemma_outcome_field(v: json::JsonView, key: Seq<char>)
    ensures
        fault::sound(v, outcome_field(v, key)) <==> outcome_at(v, key) is Some,
{
    let words = outcome_words();
    assert(words[0] == "completed"@ && words[1] == "failed"@ && words[2] == "timed_out"@);
}

/// The member as an output stream.
pub open spec fn stream_at(v: json::JsonView, key: Seq<char>) -> Option<OutputStream> {
    match wire::text_at(v, key) {
        None => None,
        Some(word) => if word == "stdout"@ {
            Some(OutputStream::Stdout)
        } else if word == "stderr"@ {
            Some(OutputStream::Stderr)
        } else {
            None
        },
    }
}

/// [`stream_at`], computed.
fn read_stream(v: &Json, key: &str) -> (r: Option<OutputStream>)
    ensures
        r == stream_at(v@, key@),
{
    let word = wire::read_text(v, key)?;
    if text::same(word.as_str(), "stdout") {
        Some(OutputStream::Stdout)
    } else if text::same(word.as_str(), "stderr") {
        Some(OutputStream::Stderr)
    } else {
        None
    }
}

/// The words of the wire format for an output stream.
pub open spec fn stream_words() -> Seq<Seq<char>> {
    seq!["stdout"@, "stderr"@]
}

/// The member as an output stream.
pub open spec fn stream_field(v: json::JsonView, key: Seq<char>) -> FieldView {
    fault::word_field(v, key, stream_words())
}

/// [`stream_field`], computed.
fn look_for_stream(v: &Json, key: &'static str) -> (r: Field)
    ensures
        r@ == stream_field(v@, key@),
{
    let words: Vec<&'static str> = vec!["stdout", "stderr"];
    assert(fault::spelled(words@) =~= stream_words());
    fault::look_for_word(v, key, &words)
}

proof fn lemma_stream_field(v: json::JsonView, key: Seq<char>)
    ensures
        fault::sound(v, stream_field(v, key)) <==> stream_at(v, key) is Some,
{
    let words = stream_words();
    assert(words[0] == "stdout"@ && words[1] == "stderr"@);
}

/// The member as the name of a budget.
pub open spec fn budget_at(v: json::JsonView, key: Seq<char>) -> Option<BudgetKind> {
    match wire::text_at(v, key) {
        None => None,
        Some(word) => if word == "iterations"@ {
            Some(BudgetKind::Iterations)
        } else if word == "wall_clock"@ {
            Some(BudgetKind::WallClock)
        } else if word == "tokens"@ {
            Some(BudgetKind::Tokens)
        } else {
            None
        },
    }
}

/// [`budget_at`], computed.
fn read_budget(v: &Json, key: &str) -> (r: Option<BudgetKind>)
    ensures
        r == budget_at(v@, key@),
{
    let word = wire::read_text(v, key)?;
    if text::same(word.as_str(), "iterations") {
        Some(BudgetKind::Iterations)
    } else if text::same(word.as_str(), "wall_clock") {
        Some(BudgetKind::WallClock)
    } else if text::same(word.as_str(), "tokens") {
        Some(BudgetKind::Tokens)
    } else {
        None
    }
}

/// The words of the wire format for the name of a budget.
pub open spec fn budget_words() -> Seq<Seq<char>> {
    seq!["iterations"@, "wall_clock"@, "tokens"@]
}

/// The member as the name of a budget.
pub open spec fn budget_field(v: json::JsonView, key: Seq<char>) -> FieldView {
    fault::word_field(v, key, budget_words())
}

/// [`budget_field`], computed.
fn look_for_budget(v: &Json, key: &'static str) -> (r: Field)
    ensures
        r@ == budget_field(v@, key@),
{
    let words: Vec<&'static str> = vec!["iterations", "wall_clock", "tokens"];
    assert(fault::spelled(words@) =~= budget_words());
    fault::look_for_word(v, key, &words)
}

proof fn lemma_budget_field(v: json::JsonView, key: Seq<char>)
    ensures
        fault::sound(v, budget_field(v, key)) <==> budget_at(v, key) is Some,
{
    let words = budget_words();
    assert(words[0] == "iterations"@ && words[1] == "wall_clock"@ && words[2] == "tokens"@);
}

/// A usage as a document.
pub open spec fn usage_json(usage: TokenUsage) -> json::JsonView {
    json::JsonView::Object(
        json::Members::empty().insert("input"@, json::JsonView::Number(usage.input as int)).insert(
            "output"@,
            json::JsonView::Number(usage.output as int),
        ),
    )
}

/// The usage a document holds.
pub open spec fn as_usage(v: json::JsonView) -> Option<TokenUsage> {
    match (
        wire::count_at(v, "input"@, u64::MAX as int),
        wire::count_at(v, "output"@, u64::MAX as int),
    ) {
        (Some(input), Some(output)) => Some(
            TokenUsage { input: input as u64, output: output as u64 },
        ),
        _ => None,
    }
}

/// [`usage_json`], computed.
pub fn usage_to_json(usage: &TokenUsage) -> (r: Json)
    ensures
        r@ == usage_json(*usage),
{
    let mut fields: Vec<(String, Json)> = Vec::new();
    wire::put(&mut fields, "input", Json::Uint(usage.input));
    wire::put(&mut fields, "output", Json::Uint(usage.output));
    Json::Object(fields)
}

/// [`as_usage`], computed.
fn usage_from_json(v: &Json) -> (r: Option<TokenUsage>)
    ensures
        r == as_usage(v@),
{
    let input: u64 = wire::read_u64(v, "input")?;
    let output: u64 = wire::read_u64(v, "output")?;
    Some(TokenUsage { input, output })
}

/// What is known of the members of a usage.
pub open spec fn usage_fields(v: json::JsonView) -> Seq<FieldView> {
    seq![fault::u64_field(v, "input"@), fault::u64_field(v, "output"@)]
}

/// What is wrong with a document that is to be a usage.
pub open spec fn usage_fault(v: json::JsonView) -> Option<Seq<char>> {
    fault::record_fault(v, "struct TokenUsage"@, usage_fields(v), false)
}

/// [`usage_fault`], computed.
fn no_usage(v: &Json) -> (r: Option<String>)
    ensures
        wire::opt_text(r) == usage_fault(v@),
{
    let fields = vec![fault::look_for_u64(v, "input"), fault::look_for_u64(v, "output")];
    assert(fault::field_views(fields@) =~= usage_fields(v@));
    fault::look_over(v, "struct TokenUsage", &fields, false)
}

/// A document is refused exactly where it holds no usage.
proof fn lemma_usage(v: json::JsonView)
    requires
        json::orderly(v),
    ensures
        usage_fault(v) is None <==> as_usage(v) is Some,
{
    let fields = usage_fields(v);
    fault::lemma_record(v, "struct TokenUsage"@, fields, false);
    assert(fault::all_sound(v, fields) <==> fault::sound(v, fields[0]) && fault::sound(
        v,
        fields[1],
    ));
}

/// The member as a usage, which may or may not be missing or `null`.
pub open spec fn usage_field(v: json::JsonView, key: Seq<char>, required: bool) -> FieldView {
    FieldView {
        key,
        required,
        fault: match json::member(v, key) {
            Some(m) => if required {
                usage_fault(m)
            } else {
                fault::or_null(m, usage_fault(m))
            },
            None => None,
        },
    }
}

/// [`usage_field`], computed.
fn look_for_usage(v: &Json, key: &'static str, required: bool) -> (r: Field)
    ensures
        r@ == usage_field(v@, key@, required),
{
    let fault = match v.get(key) {
        Some(Json::Null) => if required {
            no_usage(&Json::Null)
        } else {
            None
        },
        Some(m) => no_usage(m),
        None => None,
    };
    Field { key, required, fault }
}

proof fn lemma_usage_field(v: json::JsonView, key: Seq<char>)
    requires
        json::orderly(v),
    ensures
        fault::sound(v, usage_field(v, key, true)) <==> usage_at(v, key) is Some,
        fault::sound(v, usage_field(v, key, false)) <==> opt_usage_at(v, key) is Some,
{
    if let Some(m) = json::member(v, key) {
        assert(v->Object_0.dom().contains(key));
        lemma_usage(m);
    }
}

/// The member as a usage.
pub open spec fn usage_at(v: json::JsonView, key: Seq<char>) -> Option<TokenUsage> {
    match json::member(v, key) {
        Some(usage) => as_usage(usage),
        None => None,
    }
}

/// [`usage_at`], computed.
fn read_usage(v: &Json, key: &str) -> (r: Option<TokenUsage>)
    ensures
        r == usage_at(v@, key@),
{
    match v.get(key) {
        Some(usage) => usage_from_json(usage),
        None => None,
    }
}

/// An optional usage as a document.
pub open spec fn opt_usage_json(usage: Option<TokenUsage>) -> json::JsonView {
    match usage {
        Some(usage) => usage_json(usage),
        None => json::JsonView::Null,
    }
}

/// [`opt_usage_json`], computed.
fn opt_usage_to_json(usage: &Option<TokenUsage>) -> (r: Json)
    ensures
        r@ == opt_usage_json(*usage),
{
    match usage {
        Some(usage) => usage_to_json(usage),
        None => Json::Null,
    }
}

/// The member as a usage that may be missing.
pub open spec fn opt_usage_at(v: json::JsonView, key: Seq<char>) -> Option<Option<TokenUsage>> {
    match json::member(v, key) {
        None => Some(None),
        Some(json::JsonView::Null) => Some(None),
        Some(usage) => match as_usage(usage) {
            Some(usage) => Some(Some(usage)),
            None => None,
        },
    }
}

/// [`opt_usage_at`], computed.
fn read_opt_usage(v: &Json, key: &str) -> (r: Option<Option<TokenUsage>>)
    ensures
        r == opt_usage_at(v@, key@),
{
    match v.get(key) {
        None => Some(None),
        Some(Json::Null) => Some(None),
        Some(usage) => match usage_from_json(usage) {
            Some(usage) => Some(Some(usage)),
            None => None,
        },
    }
}

/// A copy of the member.
fn read_member(v: &Json, key: &str) -> (r: Option<Json>)
    ensures
        match r {
            Some(value) => json::member(v@, key@) == Some(value@),
            None => json::member(v@, key@) is None,
        },
{
    match v.get(key) {
        Some(value) => Some(value.copy()),
        None => None,
    }
}

/// The members of an object, with its tag after those it has already.
pub open spec fn tagged(fields: json::Members, tag: Seq<char>) -> json::Members {
    fields.insert("type"@, json::JsonView::Str(tag))
}

/// [`tagged`], computed.
fn put_tag(fields: &mut Vec<(String, Json)>, tag: &str)
    ensures
        json::fields_view(final(fields)@) == tagged(json::fields_view(old(fields)@), tag@),
{
    wire::put(fields, "type", wire::text_json(tag));
}

/// One thing that happened in a run.
#[derive(Debug, PartialEq, Eq)]
pub enum RunEvent {
    /// A kernel took the run up.
    RunStarted { kernel: String, agent: String },
    /// The run moved to another state.
    StateChanged { state: RunState },
    /// An iteration began.
    IterationStarted { iteration: u32 },
    /// An iteration ended.
    IterationFinished { iteration: u32, outcome: IterationOutcome },
    /// The agent printed something.
    AgentOutput { iteration: u32, stream: OutputStream, chunk: String },
    /// A stage of the iteration began.
    StageStarted { iteration: u32, stage: String },
    /// A stage left its report, in its kernel's dialect.
    StageReported { iteration: u32, stage: String, report: Json },
    /// A report did not meet its contract.
    ReportRejected { iteration: u32, errors: Vec<String> },
    /// A single-prompt iteration left its progress report.
    ProgressReported { iteration: u32, report: Json },
    /// A progress report did not meet its contract.
    ProgressRejected { iteration: u32, errors: Vec<String> },
    /// A verify check ran to its end.
    VerifyCheckFinished { iteration: u32, command: String, passed: bool, output: String },
    /// The skeptic judged a completion claim.
    SkepticVerdict { iteration: u32, refuted: bool, findings: Vec<String> },
    /// The agent reported what an invocation cost.
    TokensUsed { iteration: u32, usage: TokenUsage },
    /// The workspace was committed.
    WorkspaceCheckpointed { iteration: u32, commit: String },
    /// The run outgrew a cap.
    BudgetExhausted { budget: BudgetKind },
    /// A human answered a question.
    QuestionAnswered { question_id: String, answer: String },
    /// A human sent the run on.
    RunResumed { note: Option<String> },
    /// A child run was submitted.
    ChildRunStarted { child_run_id: String, scope: String },
    /// A child run settled.
    ChildRunFinished {
        child_run_id: String,
        state: RunState,
        iterations: u32,
        usage: Option<TokenUsage>,
    },
}

/// What an event says.
#[verifier::ext_equal]
pub ghost enum EventView {
    RunStarted { kernel: Seq<char>, agent: Seq<char> },
    StateChanged { state: RunState },
    IterationStarted { iteration: u32 },
    IterationFinished { iteration: u32, outcome: IterationOutcome },
    AgentOutput { iteration: u32, stream: OutputStream, chunk: Seq<char> },
    StageStarted { iteration: u32, stage: Seq<char> },
    StageReported { iteration: u32, stage: Seq<char>, report: json::JsonView },
    ReportRejected { iteration: u32, errors: Seq<Seq<char>> },
    ProgressReported { iteration: u32, report: json::JsonView },
    ProgressRejected { iteration: u32, errors: Seq<Seq<char>> },
    VerifyCheckFinished { iteration: u32, command: Seq<char>, passed: bool, output: Seq<char> },
    SkepticVerdict { iteration: u32, refuted: bool, findings: Seq<Seq<char>> },
    TokensUsed { iteration: u32, usage: TokenUsage },
    WorkspaceCheckpointed { iteration: u32, commit: Seq<char> },
    BudgetExhausted { budget: BudgetKind },
    QuestionAnswered { question_id: Seq<char>, answer: Seq<char> },
    RunResumed { note: Option<Seq<char>> },
    ChildRunStarted { child_run_id: Seq<char>, scope: Seq<char> },
    ChildRunFinished {
        child_run_id: Seq<char>,
        state: RunState,
        iterations: u32,
        usage: Option<TokenUsage>,
    },
}

impl View for RunEvent {
    type V = EventView;

    open spec fn view(&self) -> EventView {
        match self {
            RunEvent::RunStarted { kernel, agent } => EventView::RunStarted {
                kernel: kernel@,
                agent: agent@,
            },
            RunEvent::StateChanged { state } => EventView::StateChanged { state: *state },
            RunEvent::IterationStarted { iteration } => EventView::IterationStarted {
                iteration: *iteration,
            },
            RunEvent::IterationFinished { iteration, outcome } => EventView::IterationFinished {
                iteration: *iteration,
                outcome: *outcome,
            },
            RunEvent::AgentOutput { iteration, stream, chunk } => EventView::AgentOutput {
                iteration: *iteration,
                stream: *stream,
                chunk: chunk@,
            },
            RunEvent::StageStarted { iteration, stage } => EventView::StageStarted {
                iteration: *iteration,
                stage: stage@,
            },
            RunEvent::StageReported { iteration, stage, report } => EventView::StageReported {
                iteration: *iteration,
                stage: stage@,
                report: report@,
            },
            RunEvent::ReportRejected { iteration, errors } => EventView::ReportRejected {
                iteration: *iteration,
                errors: text::texts(errors@),
            },
            RunEvent::ProgressReported { iteration, report } => EventView::ProgressReported {
                iteration: *iteration,
                report: report@,
            },
            RunEvent::ProgressRejected { iteration, errors } => EventView::ProgressRejected {
                iteration: *iteration,
                errors: text::texts(errors@),
            },
            RunEvent::VerifyCheckFinished { iteration, command, passed, output } => EventView::VerifyCheckFinished {
                iteration: *iteration,
                command: command@,
                passed: *passed,
                output: output@,
            },
            RunEvent::SkepticVerdict { iteration, refuted, findings } => EventView::SkepticVerdict {
                iteration: *iteration,
                refuted: *refuted,
                findings: text::texts(findings@),
            },
            RunEvent::TokensUsed { iteration, usage } => EventView::TokensUsed {
                iteration: *iteration,
                usage: *usage,
            },
            RunEvent::WorkspaceCheckpointed { iteration, commit } => EventView::WorkspaceCheckpointed {
                iteration: *iteration,
                commit: commit@,
            },
            RunEvent::BudgetExhausted { budget } => EventView::BudgetExhausted { budget: *budget },
            RunEvent::QuestionAnswered { question_id, answer } => EventView::QuestionAnswered {
                question_id: question_id@,
                answer: answer@,
            },
            RunEvent::RunResumed { note } => EventView::RunResumed { note: wire::opt_text(*note) },
            RunEvent::ChildRunStarted { child_run_id, scope } => EventView::ChildRunStarted {
                child_run_id: child_run_id@,
                scope: scope@,
            },
            RunEvent::ChildRunFinished { child_run_id, state, iterations, usage } => EventView::ChildRunFinished {
                child_run_id: child_run_id@,
                state: *state,
                iterations: *iterations,
                usage: *usage,
            },
        }
    }
}

/// The members of the object that stands for an event.
pub open spec fn event_fields(e: EventView) -> json::Members {
    event_onto(e, json::Members::empty())
}

/// The members of an object that carries an event flat, after those it has
/// already.
pub open spec fn event_onto(e: EventView, fields: json::Members) -> json::Members {
    match e {
        EventView::RunStarted { kernel, agent } => tagged(fields, "run_started"@)
            .insert("kernel"@, json::JsonView::Str(kernel))
            .insert("agent"@, json::JsonView::Str(agent)),
        EventView::StateChanged { state } => state.onto(tagged(fields, "state_changed"@)),
        EventView::IterationStarted { iteration } => tagged(fields, "iteration_started"@)
            .insert("iteration"@, json::JsonView::Number(iteration as int)),
        EventView::IterationFinished { iteration, outcome } => tagged(fields, "iteration_finished"@)
            .insert("iteration"@, json::JsonView::Number(iteration as int))
            .insert("outcome"@, json::JsonView::Str(outcome.word())),
        EventView::AgentOutput { iteration, stream, chunk } => tagged(fields, "agent_output"@)
            .insert("iteration"@, json::JsonView::Number(iteration as int))
            .insert("stream"@, json::JsonView::Str(stream.word()))
            .insert("chunk"@, json::JsonView::Str(chunk)),
        EventView::StageStarted { iteration, stage } => tagged(fields, "stage_started"@)
            .insert("iteration"@, json::JsonView::Number(iteration as int))
            .insert("stage"@, json::JsonView::Str(stage)),
        EventView::StageReported { iteration, stage, report } => tagged(fields, "stage_reported"@)
            .insert("iteration"@, json::JsonView::Number(iteration as int))
            .insert("stage"@, json::JsonView::Str(stage))
            .insert("report"@, report),
        EventView::ReportRejected { iteration, errors } => tagged(fields, "report_rejected"@)
            .insert("iteration"@, json::JsonView::Number(iteration as int))
            .insert("errors"@, wire::texts_view(errors)),
        EventView::ProgressReported { iteration, report } => tagged(fields, "progress_reported"@)
            .insert("iteration"@, json::JsonView::Number(iteration as int))
            .insert("report"@, report),
        EventView::ProgressRejected { iteration, errors } => tagged(fields, "progress_rejected"@)
            .insert("iteration"@, json::JsonView::Number(iteration as int))
            .insert("errors"@, wire::texts_view(errors)),
        EventView::VerifyCheckFinished { iteration, command, passed, output } => tagged(
            fields,
            "verify_check_finished"@,
        )
            .insert("iteration"@, json::JsonView::Number(iteration as int))
            .insert("command"@, json::JsonView::Str(command))
            .insert("passed"@, json::JsonView::Bool(passed))
            .insert("output"@, json::JsonView::Str(output)),
        EventView::SkepticVerdict { iteration, refuted, findings } => tagged(fields, "skeptic_verdict"@)
            .insert("iteration"@, json::JsonView::Number(iteration as int))
            .insert("refuted"@, json::JsonView::Bool(refuted))
            .insert("findings"@, wire::texts_view(findings)),
        EventView::TokensUsed { iteration, usage } => tagged(fields, "tokens_used"@)
            .insert("iteration"@, json::JsonView::Number(iteration as int))
            .insert("usage"@, usage_json(usage)),
        EventView::WorkspaceCheckpointed { iteration, commit } => tagged(
            fields,
            "workspace_checkpointed"@,
        )
            .insert("iteration"@, json::JsonView::Number(iteration as int))
            .insert("commit"@, json::JsonView::Str(commit)),
        EventView::BudgetExhausted { budget } => tagged(fields, "budget_exhausted"@)
            .insert("budget"@, json::JsonView::Str(budget.word())),
        EventView::QuestionAnswered { question_id, answer } => tagged(fields, "question_answered"@)
            .insert("question_id"@, json::JsonView::Str(question_id))
            .insert("answer"@, json::JsonView::Str(answer)),
        EventView::RunResumed { note } => tagged(fields, "run_resumed"@)
            .insert("note"@, wire::opt_text_view(note)),
        EventView::ChildRunStarted { child_run_id, scope } => tagged(fields, "child_run_started"@)
            .insert("child_run_id"@, json::JsonView::Str(child_run_id))
            .insert("scope"@, json::JsonView::Str(scope)),
        EventView::ChildRunFinished { child_run_id, state, iterations, usage } => state.onto(
            tagged(fields, "child_run_finished"@).insert(
                "child_run_id"@,
                json::JsonView::Str(child_run_id),
            ),
        )
            .insert("iterations"@, json::JsonView::Number(iterations as int))
            .insert("usage"@, opt_usage_json(usage)),
    }
}

/// The event that an object stands for. Members it does not name are ignored.
pub open spec fn as_event(v: json::JsonView) -> Option<EventView> {
    match wire::text_at(v, "type"@) {
        None => None,
        Some(tag) => as_tagged(tag, v),
    }
}

/// The event that an object with the tag `tag` stands for.
pub open spec fn as_tagged(tag: Seq<char>, v: json::JsonView) -> Option<EventView> {
    if tag == "run_started"@ {
        match (wire::text_at(v, "kernel"@), wire::text_at(v, "agent"@)) {
            (Some(kernel), Some(agent)) => Some(EventView::RunStarted { kernel, agent }),
            _ => None,
        }
    } else if tag == "state_changed"@ {
        match run::as_state(v) {
            Some(state) => Some(EventView::StateChanged { state }),
            None => None,
        }
    } else if tag == "iteration_started"@ {
        match wire::count_at(v, "iteration"@, u32::MAX as int) {
            Some(iteration) => Some(EventView::IterationStarted { iteration: iteration as u32 }),
            None => None,
        }
    } else if tag == "iteration_finished"@ {
        match (wire::count_at(v, "iteration"@, u32::MAX as int), outcome_at(v, "outcome"@)) {
            (Some(iteration), Some(outcome)) => Some(
                EventView::IterationFinished { iteration: iteration as u32, outcome },
            ),
            _ => None,
        }
    } else if tag == "agent_output"@ {
        match (
            wire::count_at(v, "iteration"@, u32::MAX as int),
            stream_at(v, "stream"@),
            wire::text_at(v, "chunk"@),
        ) {
            (Some(iteration), Some(stream), Some(chunk)) => Some(
                EventView::AgentOutput { iteration: iteration as u32, stream, chunk },
            ),
            _ => None,
        }
    } else if tag == "stage_started"@ {
        match (wire::count_at(v, "iteration"@, u32::MAX as int), wire::text_at(v, "stage"@)) {
            (Some(iteration), Some(stage)) => Some(
                EventView::StageStarted { iteration: iteration as u32, stage },
            ),
            _ => None,
        }
    } else if tag == "stage_reported"@ {
        match (
            wire::count_at(v, "iteration"@, u32::MAX as int),
            wire::text_at(v, "stage"@),
            json::member(v, "report"@),
        ) {
            (Some(iteration), Some(stage), Some(report)) => Some(
                EventView::StageReported { iteration: iteration as u32, stage, report },
            ),
            _ => None,
        }
    } else if tag == "report_rejected"@ {
        match (wire::count_at(v, "iteration"@, u32::MAX as int), wire::texts_at(v, "errors"@)) {
            (Some(iteration), Some(errors)) => Some(
                EventView::ReportRejected { iteration: iteration as u32, errors },
            ),
            _ => None,
        }
    } else if tag == "progress_reported"@ {
        match (wire::count_at(v, "iteration"@, u32::MAX as int), json::member(v, "report"@)) {
            (Some(iteration), Some(report)) => Some(
                EventView::ProgressReported { iteration: iteration as u32, report },
            ),
            _ => None,
        }
    } else if tag == "progress_rejected"@ {
        match (wire::count_at(v, "iteration"@, u32::MAX as int), wire::texts_at(v, "errors"@)) {
            (Some(iteration), Some(errors)) => Some(
                EventView::ProgressRejected { iteration: iteration as u32, errors },
            ),
            _ => None,
        }
    } else if tag == "verify_check_finished"@ {
        match (
            wire::count_at(v, "iteration"@, u32::MAX as int),
            wire::text_at(v, "command"@),
            wire::flag_at(v, "passed"@),
            wire::text_at(v, "output"@),
        ) {
            (Some(iteration), Some(command), Some(passed), Some(output)) => Some(
                EventView::VerifyCheckFinished {
                    iteration: iteration as u32,
                    command,
                    passed,
                    output,
                },
            ),
            _ => None,
        }
    } else if tag == "skeptic_verdict"@ {
        match (
            wire::count_at(v, "iteration"@, u32::MAX as int),
            wire::flag_at(v, "refuted"@),
            wire::texts_at(v, "findings"@),
        ) {
            (Some(iteration), Some(refuted), Some(findings)) => Some(
                EventView::SkepticVerdict { iteration: iteration as u32, refuted, findings },
            ),
            _ => None,
        }
    } else if tag == "tokens_used"@ {
        match (wire::count_at(v, "iteration"@, u32::MAX as int), usage_at(v, "usage"@)) {
            (Some(iteration), Some(usage)) => Some(
                EventView::TokensUsed { iteration: iteration as u32, usage },
            ),
            _ => None,
        }
    } else if tag == "workspace_checkpointed"@ {
        match (wire::count_at(v, "iteration"@, u32::MAX as int), wire::text_at(v, "commit"@)) {
            (Some(iteration), Some(commit)) => Some(
                EventView::WorkspaceCheckpointed { iteration: iteration as u32, commit },
            ),
            _ => None,
        }
    } else if tag == "budget_exhausted"@ {
        match budget_at(v, "budget"@) {
            Some(budget) => Some(EventView::BudgetExhausted { budget }),
            None => None,
        }
    } else if tag == "question_answered"@ {
        match (wire::text_at(v, "question_id"@), wire::text_at(v, "answer"@)) {
            (Some(question_id), Some(answer)) => Some(
                EventView::QuestionAnswered { question_id, answer },
            ),
            _ => None,
        }
    } else if tag == "run_resumed"@ {
        match wire::opt_text_at(v, "note"@) {
            Some(note) => Some(EventView::RunResumed { note }),
            None => None,
        }
    } else if tag == "child_run_started"@ {
        match (wire::text_at(v, "child_run_id"@), wire::text_at(v, "scope"@)) {
            (Some(child_run_id), Some(scope)) => Some(
                EventView::ChildRunStarted { child_run_id, scope },
            ),
            _ => None,
        }
    } else if tag == "child_run_finished"@ {
        match (
            wire::text_at(v, "child_run_id"@),
            run::as_state(v),
            wire::count_at(v, "iterations"@, u32::MAX as int),
            opt_usage_at(v, "usage"@),
        ) {
            (Some(child_run_id), Some(state), Some(iterations), Some(usage)) => Some(
                EventView::ChildRunFinished {
                    child_run_id,
                    state,
                    iterations: iterations as u32,
                    usage,
                },
            ),
            _ => None,
        }
    } else {
        None
    }
}

impl RunEvent {
    /// The event as a document.
    pub fn to_json(&self) -> (r: Json)
        ensures
            r@ == json::JsonView::Object(event_fields(self@)),
    {
        let mut fields: Vec<(String, Json)> = Vec::new();
        self.put_onto(&mut fields);
        Json::Object(fields)
    }

    /// [`event_onto`], computed.
    pub fn put_onto(&self, fields: &mut Vec<(String, Json)>)
        ensures
            json::fields_view(final(fields)@) == event_onto(
                self@,
                json::fields_view(old(fields)@),
            ),
    {
        match self {
            RunEvent::RunStarted { kernel, agent } => {
                put_tag(fields, "run_started");
                wire::put(fields, "kernel", wire::text_json(kernel.as_str()));
                wire::put(fields, "agent", wire::text_json(agent.as_str()));
            },
            RunEvent::StateChanged { state } => {
                put_tag(fields, "state_changed");
                state.put_onto(fields);
            },
            RunEvent::IterationStarted { iteration } => {
                put_tag(fields, "iteration_started");
                wire::put(fields, "iteration", Json::Uint(*iteration as u64));
            },
            RunEvent::IterationFinished { iteration, outcome } => {
                put_tag(fields, "iteration_finished");
                wire::put(fields, "iteration", Json::Uint(*iteration as u64));
                wire::put(fields, "outcome", wire::text_json(outcome.as_str()));
            },
            RunEvent::AgentOutput { iteration, stream, chunk } => {
                put_tag(fields, "agent_output");
                wire::put(fields, "iteration", Json::Uint(*iteration as u64));
                wire::put(fields, "stream", wire::text_json(stream.as_str()));
                wire::put(fields, "chunk", wire::text_json(chunk.as_str()));
            },
            RunEvent::StageStarted { iteration, stage } => {
                put_tag(fields, "stage_started");
                wire::put(fields, "iteration", Json::Uint(*iteration as u64));
                wire::put(fields, "stage", wire::text_json(stage.as_str()));
            },
            RunEvent::StageReported { iteration, stage, report } => {
                put_tag(fields, "stage_reported");
                wire::put(fields, "iteration", Json::Uint(*iteration as u64));
                wire::put(fields, "stage", wire::text_json(stage.as_str()));
                wire::put(fields, "report", report.copy());
            },
            RunEvent::ReportRejected { iteration, errors } => {
                put_tag(fields, "report_rejected");
                wire::put(fields, "iteration", Json::Uint(*iteration as u64));
                wire::put(fields, "errors", wire::texts_json(errors));
            },
            RunEvent::ProgressReported { iteration, report } => {
                put_tag(fields, "progress_reported");
                wire::put(fields, "iteration", Json::Uint(*iteration as u64));
                wire::put(fields, "report", report.copy());
            },
            RunEvent::ProgressRejected { iteration, errors } => {
                put_tag(fields, "progress_rejected");
                wire::put(fields, "iteration", Json::Uint(*iteration as u64));
                wire::put(fields, "errors", wire::texts_json(errors));
            },
            RunEvent::VerifyCheckFinished { iteration, command, passed, output } => {
                put_tag(fields, "verify_check_finished");
                wire::put(fields, "iteration", Json::Uint(*iteration as u64));
                wire::put(fields, "command", wire::text_json(command.as_str()));
                wire::put(fields, "passed", Json::Bool(*passed));
                wire::put(fields, "output", wire::text_json(output.as_str()));
            },
            RunEvent::SkepticVerdict { iteration, refuted, findings } => {
                put_tag(fields, "skeptic_verdict");
                wire::put(fields, "iteration", Json::Uint(*iteration as u64));
                wire::put(fields, "refuted", Json::Bool(*refuted));
                wire::put(fields, "findings", wire::texts_json(findings));
            },
            RunEvent::TokensUsed { iteration, usage } => {
                put_tag(fields, "tokens_used");
                wire::put(fields, "iteration", Json::Uint(*iteration as u64));
                wire::put(fields, "usage", usage_to_json(usage));
            },
            RunEvent::WorkspaceCheckpointed { iteration, commit } => {
                put_tag(fields, "workspace_checkpointed");
                wire::put(fields, "iteration", Json::Uint(*iteration as u64));
                wire::put(fields, "commit", wire::text_json(commit.as_str()));
            },
            RunEvent::BudgetExhausted { budget } => {
                put_tag(fields, "budget_exhausted");
                wire::put(fields, "budget", wire::text_json(budget.as_str()));
            },
            RunEvent::QuestionAnswered { question_id, answer } => {
                put_tag(fields, "question_answered");
                wire::put(fields, "question_id", wire::text_json(question_id.as_str()));
                wire::put(fields, "answer", wire::text_json(answer.as_str()));
            },
            RunEvent::RunResumed { note } => {
                put_tag(fields, "run_resumed");
                wire::put(fields, "note", wire::opt_text_json(note));
            },
            RunEvent::ChildRunStarted { child_run_id, scope } => {
                put_tag(fields, "child_run_started");
                wire::put(fields, "child_run_id", wire::text_json(child_run_id.as_str()));
                wire::put(fields, "scope", wire::text_json(scope.as_str()));
            },
            RunEvent::ChildRunFinished { child_run_id, state, iterations, usage } => {
                put_tag(fields, "child_run_finished");
                wire::put(fields, "child_run_id", wire::text_json(child_run_id.as_str()));
                state.put_onto(fields);
                wire::put(fields, "iterations", Json::Uint(*iterations as u64));
                wire::put(fields, "usage", opt_usage_to_json(usage));
            },
        }
    }

    /// [`as_event`], computed.
    fn read(v: &Json) -> (r: Option<RunEvent>)
        ensures
            match r {
                Some(event) => as_event(v@) == Some(event@),
                None => as_event(v@) is None,
            },
    {
        let tag = wire::read_text(v, "type")?;
        let tag = tag.as_str();
        if text::same(tag, "run_started") {
            let kernel: String = wire::read_text(v, "kernel")?;
            let agent: String = wire::read_text(v, "agent")?;
            Some(RunEvent::RunStarted { kernel, agent })
        } else if text::same(tag, "state_changed") {
            let state: RunState = RunState::read(v)?;
            Some(RunEvent::StateChanged { state })
        } else if text::same(tag, "iteration_started") {
            let iteration: u32 = wire::read_u32(v, "iteration")?;
            Some(RunEvent::IterationStarted { iteration })
        } else if text::same(tag, "iteration_finished") {
            let iteration: u32 = wire::read_u32(v, "iteration")?;
            let outcome: IterationOutcome = read_outcome(v, "outcome")?;
            Some(RunEvent::IterationFinished { iteration, outcome })
        } else if text::same(tag, "agent_output") {
            let iteration: u32 = wire::read_u32(v, "iteration")?;
            let stream: OutputStream = read_stream(v, "stream")?;
            let chunk: String = wire::read_text(v, "chunk")?;
            Some(RunEvent::AgentOutput { iteration, stream, chunk })
        } else if text::same(tag, "stage_started") {
            let iteration: u32 = wire::read_u32(v, "iteration")?;
            let stage: String = wire::read_text(v, "stage")?;
            Some(RunEvent::StageStarted { iteration, stage })
        } else if text::same(tag, "stage_reported") {
            let iteration: u32 = wire::read_u32(v, "iteration")?;
            let stage: String = wire::read_text(v, "stage")?;
            let report: Json = read_member(v, "report")?;
            Some(RunEvent::StageReported { iteration, stage, report })
        } else if text::same(tag, "report_rejected") {
            let iteration: u32 = wire::read_u32(v, "iteration")?;
            let errors: Vec<String> = wire::read_texts(v, "errors")?;
            Some(RunEvent::ReportRejected { iteration, errors })
        } else if text::same(tag, "progress_reported") {
            let iteration: u32 = wire::read_u32(v, "iteration")?;
            let report: Json = read_member(v, "report")?;
            Some(RunEvent::ProgressReported { iteration, report })
        } else if text::same(tag, "progress_rejected") {
            let iteration: u32 = wire::read_u32(v, "iteration")?;
            let errors: Vec<String> = wire::read_texts(v, "errors")?;
            Some(RunEvent::ProgressRejected { iteration, errors })
        } else if text::same(tag, "verify_check_finished") {
            let iteration: u32 = wire::read_u32(v, "iteration")?;
            let command: String = wire::read_text(v, "command")?;
            let passed: bool = wire::read_flag(v, "passed")?;
            let output: String = wire::read_text(v, "output")?;
            Some(RunEvent::VerifyCheckFinished { iteration, command, passed, output })
        } else if text::same(tag, "skeptic_verdict") {
            let iteration: u32 = wire::read_u32(v, "iteration")?;
            let refuted: bool = wire::read_flag(v, "refuted")?;
            let findings: Vec<String> = wire::read_texts(v, "findings")?;
            Some(RunEvent::SkepticVerdict { iteration, refuted, findings })
        } else if text::same(tag, "tokens_used") {
            let iteration: u32 = wire::read_u32(v, "iteration")?;
            let usage: TokenUsage = read_usage(v, "usage")?;
            Some(RunEvent::TokensUsed { iteration, usage })
        } else if text::same(tag, "workspace_checkpointed") {
            let iteration: u32 = wire::read_u32(v, "iteration")?;
            let commit: String = wire::read_text(v, "commit")?;
            Some(RunEvent::WorkspaceCheckpointed { iteration, commit })
        } else if text::same(tag, "budget_exhausted") {
            let budget: BudgetKind = read_budget(v, "budget")?;
            Some(RunEvent::BudgetExhausted { budget })
        } else if text::same(tag, "question_answered") {
            let question_id: String = wire::read_text(v, "question_id")?;
            let answer: String = wire::read_text(v, "answer")?;
            Some(RunEvent::QuestionAnswered { question_id, answer })
        } else if text::same(tag, "run_resumed") {
            let note: Option<String> = wire::read_opt_text(v, "note")?;
            Some(RunEvent::RunResumed { note })
        } else if text::same(tag, "child_run_started") {
            let child_run_id: String = wire::read_text(v, "child_run_id")?;
            let scope: String = wire::read_text(v, "scope")?;
            Some(RunEvent::ChildRunStarted { child_run_id, scope })
        } else if text::same(tag, "child_run_finished") {
            let child_run_id: String = wire::read_text(v, "child_run_id")?;
            let state: RunState = RunState::read(v)?;
            let iterations: u32 = wire::read_u32(v, "iterations")?;
            let usage: Option<TokenUsage> = read_opt_usage(v, "usage")?;
            Some(RunEvent::ChildRunFinished { child_run_id, state, iterations, usage })
        } else {
            None
        }
    }

    /// [`event_fault`], computed.
    fn refusal(v: &Json) -> (r: Option<String>)
        ensures
            wire::opt_text(r) == event_fault(v@),
    {
        let words: Vec<&'static str> = vec![
            "run_started",
            "state_changed",
            "iteration_started",
            "iteration_finished",
            "agent_output",
            "stage_started",
            "stage_reported",
            "report_rejected",
            "progress_reported",
            "progress_rejected",
            "verify_check_finished",
            "skeptic_verdict",
            "tokens_used",
            "workspace_checkpointed",
            "budget_exhausted",
            "question_answered",
            "run_resumed",
            "child_run_started",
            "child_run_finished",
        ];
        assert(fault::spelled(words@) =~= event_words());
        let untagged = fault::look_at_tag(v, "internally tagged enum RunEvent", "type", &words);
        if untagged.is_some() {
            return untagged;
        }
        let tag: &str = match v.get("type") {
            Some(Json::Str(word)) => word.as_str(),
            _ => "",
        };
        let fields = variant_members(v, tag);
        let fault = fault::look_over(v, "struct variant of RunEvent", &fields, false);
        if fault.is_some() {
            return fault;
        }
        if text::same(tag, "state_changed") || text::same(tag, "child_run_finished") {
            RunState::refusal(v)
        } else {
            None
        }
    }

    /// Reads an event from a document.
    pub fn from_json(v: &Json) -> (r: Result<RunEvent, String>)
        ensures
            match r {
                Ok(event) => as_event(v@) == Some(event@),
                Err(words) => as_event(v@) is None && event_fault(v@) == Some(words@),
            },
    {
        proof {
            json::every_document_is_orderly(*v);
            lemma_event(v@);
        }
        match RunEvent::refusal(v) {
            Some(words) => Err(words),
            None => Ok(RunEvent::read(v).unwrap()),
        }
    }
}

/// The tags of the wire format for an event.
pub open spec fn event_words() -> Seq<Seq<char>> {
    seq![
        "run_started"@,
        "state_changed"@,
        "iteration_started"@,
        "iteration_finished"@,
        "agent_output"@,
        "stage_started"@,
        "stage_reported"@,
        "report_rejected"@,
        "progress_reported"@,
        "progress_rejected"@,
        "verify_check_finished"@,
        "skeptic_verdict"@,
        "tokens_used"@,
        "workspace_checkpointed"@,
        "budget_exhausted"@,
        "question_answered"@,
        "run_resumed"@,
        "child_run_started"@,
        "child_run_finished"@,
    ]
}

/// What is known of the members of an event with a tag.
pub open spec fn variant_fields(v: json::JsonView, tag: Seq<char>) -> Seq<FieldView> {
    if tag == "run_started"@ {
        seq![
            fault::text_field(v, "kernel"@),
            fault::text_field(v, "agent"@),
        ]
    } else if tag == "state_changed"@ {
        Seq::empty()
    } else if tag == "iteration_started"@ {
        seq![fault::u32_field(v, "iteration"@)]
    } else if tag == "iteration_finished"@ {
        seq![
            fault::u32_field(v, "iteration"@),
            outcome_field(v, "outcome"@),
        ]
    } else if tag == "agent_output"@ {
        seq![
            fault::u32_field(v, "iteration"@),
            stream_field(v, "stream"@),
            fault::text_field(v, "chunk"@),
        ]
    } else if tag == "stage_started"@ {
        seq![
            fault::u32_field(v, "iteration"@),
            fault::text_field(v, "stage"@),
        ]
    } else if tag == "stage_reported"@ {
        seq![
            fault::u32_field(v, "iteration"@),
            fault::text_field(v, "stage"@),
            fault::any_field("report"@),
        ]
    } else if tag == "report_rejected"@ {
        seq![
            fault::u32_field(v, "iteration"@),
            fault::texts_field(v, "errors"@, true),
        ]
    } else if tag == "progress_reported"@ {
        seq![
            fault::u32_field(v, "iteration"@),
            fault::any_field("report"@),
        ]
    } else if tag == "progress_rejected"@ {
        seq![
            fault::u32_field(v, "iteration"@),
            fault::texts_field(v, "errors"@, true),
        ]
    } else if tag == "verify_check_finished"@ {
        seq![
            fault::u32_field(v, "iteration"@),
            fault::text_field(v, "command"@),
            fault::flag_field(v, "passed"@),
            fault::text_field(v, "output"@),
        ]
    } else if tag == "skeptic_verdict"@ {
        seq![
            fault::u32_field(v, "iteration"@),
            fault::flag_field(v, "refuted"@),
            fault::texts_field(v, "findings"@, true),
        ]
    } else if tag == "tokens_used"@ {
        seq![
            fault::u32_field(v, "iteration"@),
            usage_field(v, "usage"@, true),
        ]
    } else if tag == "workspace_checkpointed"@ {
        seq![
            fault::u32_field(v, "iteration"@),
            fault::text_field(v, "commit"@),
        ]
    } else if tag == "budget_exhausted"@ {
        seq![budget_field(v, "budget"@)]
    } else if tag == "question_answered"@ {
        seq![
            fault::text_field(v, "question_id"@),
            fault::text_field(v, "answer"@),
        ]
    } else if tag == "run_resumed"@ {
        seq![fault::opt_text_field(v, "note"@)]
    } else if tag == "child_run_started"@ {
        seq![
            fault::text_field(v, "child_run_id"@),
            fault::text_field(v, "scope"@),
        ]
    } else if tag == "child_run_finished"@ {
        seq![
            fault::text_field(v, "child_run_id"@),
            fault::u32_field(v, "iterations"@),
            usage_field(v, "usage"@, false),
        ]
    } else {
        Seq::empty()
    }
}

/// [`variant_fields`], computed.
fn variant_members(v: &Json, tag: &str) -> (r: Vec<Field>)
    ensures
        fault::field_views(r@) == variant_fields(v@, tag@),
{
    let r: Vec<Field> = if text::same(tag, "run_started") {
        vec![
            fault::look_for_text(v, "kernel"),
            fault::look_for_text(v, "agent"),
        ]
    } else if text::same(tag, "state_changed") {
        Vec::new()
    } else if text::same(tag, "iteration_started") {
        vec![fault::look_for_u32(v, "iteration")]
    } else if text::same(tag, "iteration_finished") {
        vec![
            fault::look_for_u32(v, "iteration"),
            look_for_outcome(v, "outcome"),
        ]
    } else if text::same(tag, "agent_output") {
        vec![
            fault::look_for_u32(v, "iteration"),
            look_for_stream(v, "stream"),
            fault::look_for_text(v, "chunk"),
        ]
    } else if text::same(tag, "stage_started") {
        vec![
            fault::look_for_u32(v, "iteration"),
            fault::look_for_text(v, "stage"),
        ]
    } else if text::same(tag, "stage_reported") {
        vec![
            fault::look_for_u32(v, "iteration"),
            fault::look_for_text(v, "stage"),
            fault::look_for_any("report"),
        ]
    } else if text::same(tag, "report_rejected") {
        vec![
            fault::look_for_u32(v, "iteration"),
            fault::look_for_texts(v, "errors", true),
        ]
    } else if text::same(tag, "progress_reported") {
        vec![
            fault::look_for_u32(v, "iteration"),
            fault::look_for_any("report"),
        ]
    } else if text::same(tag, "progress_rejected") {
        vec![
            fault::look_for_u32(v, "iteration"),
            fault::look_for_texts(v, "errors", true),
        ]
    } else if text::same(tag, "verify_check_finished") {
        vec![
            fault::look_for_u32(v, "iteration"),
            fault::look_for_text(v, "command"),
            fault::look_for_flag(v, "passed"),
            fault::look_for_text(v, "output"),
        ]
    } else if text::same(tag, "skeptic_verdict") {
        vec![
            fault::look_for_u32(v, "iteration"),
            fault::look_for_flag(v, "refuted"),
            fault::look_for_texts(v, "findings", true),
        ]
    } else if text::same(tag, "tokens_used") {
        vec![
            fault::look_for_u32(v, "iteration"),
            look_for_usage(v, "usage", true),
        ]
    } else if text::same(tag, "workspace_checkpointed") {
        vec![
            fault::look_for_u32(v, "iteration"),
            fault::look_for_text(v, "commit"),
        ]
    } else if text::same(tag, "budget_exhausted") {
        vec![look_for_budget(v, "budget")]
    } else if text::same(tag, "question_answered") {
        vec![
            fault::look_for_text(v, "question_id"),
            fault::look_for_text(v, "answer"),
        ]
    } else if text::same(tag, "run_resumed") {
        vec![fault::look_for_opt_text(v, "note")]
    } else if text::same(tag, "child_run_started") {
        vec![
            fault::look_for_text(v, "child_run_id"),
            fault::look_for_text(v, "scope"),
        ]
    } else if text::same(tag, "child_run_finished") {
        vec![
            fault::look_for_text(v, "child_run_id"),
            fault::look_for_u32(v, "iterations"),
            look_for_usage(v, "usage", false),
        ]
    } else {
        Vec::new()
    };
    assert(fault::field_views(r@) =~= variant_fields(v@, tag@));
    r
}

/// What is wrong with a document that is to be an event: its tag, then the
/// members of the tag's own, then the state that it carries flat.
pub open spec fn event_fault(v: json::JsonView) -> Option<Seq<char>> {
    match fault::tag_fault(v, "internally tagged enum RunEvent"@, "type"@, event_words()) {
        Some(words) => Some(words),
        None => {
            let tag = match wire::text_at(v, "type"@) {
                Some(tag) => tag,
                None => ""@,
            };
            fault::or_else(
                fault::record_fault(
                    v,
                    "struct variant of RunEvent"@,
                    variant_fields(v, tag),
                    false,
                ),
                if tag == "state_changed"@ || tag == "child_run_finished"@ {
                    run::state_fault(v)
                } else {
                    None
                },
            )
        },
    }
}

proof fn lemma_event_words(tag: Seq<char>)
    ensures
        event_words().contains(tag) <==> (tag == "run_started"@
            || tag == "state_changed"@
            || tag == "iteration_started"@
            || tag == "iteration_finished"@
            || tag == "agent_output"@
            || tag == "stage_started"@
            || tag == "stage_reported"@
            || tag == "report_rejected"@
            || tag == "progress_reported"@
            || tag == "progress_rejected"@
            || tag == "verify_check_finished"@
            || tag == "skeptic_verdict"@
            || tag == "tokens_used"@
            || tag == "workspace_checkpointed"@
            || tag == "budget_exhausted"@
            || tag == "question_answered"@
            || tag == "run_resumed"@
            || tag == "child_run_started"@
            || tag == "child_run_finished"@),
{
    let words = event_words();
    assert(words[0] == "run_started"@
        && words[1] == "state_changed"@
        && words[2] == "iteration_started"@
        && words[3] == "iteration_finished"@
        && words[4] == "agent_output"@
        && words[5] == "stage_started"@
        && words[6] == "stage_reported"@
        && words[7] == "report_rejected"@
        && words[8] == "progress_reported"@
        && words[9] == "progress_rejected"@
        && words[10] == "verify_check_finished"@
        && words[11] == "skeptic_verdict"@
        && words[12] == "tokens_used"@
        && words[13] == "workspace_checkpointed"@
        && words[14] == "budget_exhausted"@
        && words[15] == "question_answered"@
        && words[16] == "run_resumed"@
        && words[17] == "child_run_started"@
        && words[18] == "child_run_finished"@);
}

/// A document is refused exactly where it holds no event.
pub proof fn lemma_event(v: json::JsonView)
    requires
        json::orderly(v),
    ensures
        event_fault(v) is None <==> as_event(v) is Some,
{
    if let Some(tag) = wire::text_at(v, "type"@) {
        lemma_event_words(tag);
        run::lemma_state(v);
        if event_words().contains(tag) {
            lemma_variant(v, tag);
        }
    }
}

/// The members of a tag's own are sound exactly where they read.
proof fn lemma_variant(v: json::JsonView, tag: Seq<char>)
    requires
        json::orderly(v),
        wire::text_at(v, "type"@) == Some(tag),
        event_words().contains(tag),
    ensures
        as_event(v) is Some <==> fault::record_fault(
            v,
            "struct variant of RunEvent"@,
            variant_fields(v, tag),
            false,
        ) is None && (tag == "state_changed"@ || tag == "child_run_finished"@ ==> run::as_state(v)
            is Some),
{
    lemma_event_words(tag);
    lemma_tags_differ();
    let fields = variant_fields(v, tag);
    fault::lemma_record(v, "struct variant of RunEvent"@, fields, false);
    if tag == "run_started"@ {
        assert(fault::all_sound(v, fields) <==> fault::sound(v, fields[0]) && fault::sound(v, fields[1]));
    } else if tag == "state_changed"@ {
    } else if tag == "iteration_started"@ {
        assert(fault::all_sound(v, fields) <==> fault::sound(v, fields[0]));
    } else if tag == "iteration_finished"@ {
        lemma_outcome_field(v, "outcome"@);
        assert(fault::all_sound(v, fields) <==> fault::sound(v, fields[0]) && fault::sound(v, fields[1]));
    } else if tag == "agent_output"@ {
        lemma_stream_field(v, "stream"@);
        assert(fault::all_sound(v, fields) <==> fault::sound(v, fields[0]) && fault::sound(v, fields[1]) && fault::sound(v, fields[2]));
    } else if tag == "stage_started"@ {
        assert(fault::all_sound(v, fields) <==> fault::sound(v, fields[0]) && fault::sound(v, fields[1]));
    } else if tag == "stage_reported"@ {
        assert(fault::all_sound(v, fields) <==> fault::sound(v, fields[0]) && fault::sound(v, fields[1]) && fault::sound(v, fields[2]));
    } else if tag == "report_rejected"@ {
        if let Some(list) = json::member(v, "errors"@) {
            fault::lemma_texts_fault(list);
        }
        assert(fault::all_sound(v, fields) <==> fault::sound(v, fields[0]) && fault::sound(v, fields[1]));
    } else if tag == "progress_reported"@ {
        assert(fault::all_sound(v, fields) <==> fault::sound(v, fields[0]) && fault::sound(v, fields[1]));
    } else if tag == "progress_rejected"@ {
        if let Some(list) = json::member(v, "errors"@) {
            fault::lemma_texts_fault(list);
        }
        assert(fault::all_sound(v, fields) <==> fault::sound(v, fields[0]) && fault::sound(v, fields[1]));
    } else if tag == "verify_check_finished"@ {
        assert(fault::all_sound(v, fields) <==> fault::sound(v, fields[0]) && fault::sound(v, fields[1]) && fault::sound(v, fields[2]) && fault::sound(v, fields[3]));
    } else if tag == "skeptic_verdict"@ {
        if let Some(list) = json::member(v, "findings"@) {
            fault::lemma_texts_fault(list);
        }
        assert(fault::all_sound(v, fields) <==> fault::sound(v, fields[0]) && fault::sound(v, fields[1]) && fault::sound(v, fields[2]));
    } else if tag == "tokens_used"@ {
        lemma_usage_field(v, "usage"@);
        assert(fault::all_sound(v, fields) <==> fault::sound(v, fields[0]) && fault::sound(v, fields[1]));
    } else if tag == "workspace_checkpointed"@ {
        assert(fault::all_sound(v, fields) <==> fault::sound(v, fields[0]) && fault::sound(v, fields[1]));
    } else if tag == "budget_exhausted"@ {
        lemma_budget_field(v, "budget"@);
        assert(fault::all_sound(v, fields) <==> fault::sound(v, fields[0]));
    } else if tag == "question_answered"@ {
        assert(fault::all_sound(v, fields) <==> fault::sound(v, fields[0]) && fault::sound(v, fields[1]));
    } else if tag == "run_resumed"@ {
        assert(fault::all_sound(v, fields) <==> fault::sound(v, fields[0]));
    } else if tag == "child_run_started"@ {
        assert(fault::all_sound(v, fields) <==> fault::sound(v, fields[0]) && fault::sound(v, fields[1]));
    } else if tag == "child_run_finished"@ {
        lemma_usage_field(v, "usage"@);
        assert(fault::all_sound(v, fields) <==> fault::sound(v, fields[0]) && fault::sound(v, fields[1]) && fault::sound(v, fields[2]));
    }
}

/// One event as it crosses the wire. `seq` doubles as the stream's event id,
/// so a client that reconnects resumes exactly where it dropped.
#[derive(Debug, PartialEq, Eq)]
pub struct EventEnvelope {
    /// Position in the run's append-only event log, starting at 0.
    pub seq: u64,
    pub run_id: String,
    /// RFC 3339 UTC timestamp of when the event was recorded.
    pub at: String,
    pub event: RunEvent,
}

/// What an envelope says.
#[verifier::ext_equal]
pub ghost struct EnvelopeView {
    pub seq: u64,
    pub run_id: Seq<char>,
    pub at: Seq<char>,
    pub event: EventView,
}

impl View for EventEnvelope {
    type V = EnvelopeView;

    open spec fn view(&self) -> EnvelopeView {
        EnvelopeView {
            seq: self.seq,
            run_id: self.run_id@,
            at: self.at@,
            event: self.event@,
        }
    }
}

/// What a list of events says.
pub open spec fn event_views(v: Seq<RunEvent>) -> Seq<EventView> {
    v.map_values(|e: RunEvent| e@)
}

/// What a list of envelopes says.
pub open spec fn envelope_views(v: Seq<EventEnvelope>) -> Seq<EnvelopeView> {
    v.map_values(|e: EventEnvelope| e@)
}

/// The members of an envelope that are not its event's.
pub open spec fn envelope_head(e: EnvelopeView) -> json::Members {
    json::Members::empty().insert("seq"@, json::JsonView::Number(e.seq as int)).insert(
        "run_id"@,
        json::JsonView::Str(e.run_id),
    ).insert("at"@, json::JsonView::Str(e.at))
}

/// An envelope as a document: the envelope's members, and the event's own
/// beside them.
pub open spec fn envelope_json(e: EnvelopeView) -> json::JsonView {
    json::JsonView::Object(event_onto(e.event, envelope_head(e)))
}

/// The envelope a document holds. Members it does not name are ignored.
pub open spec fn as_envelope(v: json::JsonView) -> Option<EnvelopeView> {
    match (
        wire::count_at(v, "seq"@, u64::MAX as int),
        wire::text_at(v, "run_id"@),
        wire::text_at(v, "at"@),
        as_event(v),
    ) {
        (Some(seq), Some(run_id), Some(at), Some(event)) => Some(
            EnvelopeView { seq: seq as u64, run_id, at, event },
        ),
        _ => None,
    }
}

impl EventEnvelope {
    /// The envelope as a document.
    pub fn to_json(&self) -> (r: Json)
        ensures
            r@ == envelope_json(self@),
    {
        let mut fields: Vec<(String, Json)> = Vec::new();
        wire::put(&mut fields, "seq", Json::Uint(self.seq));
        wire::put(&mut fields, "run_id", wire::text_json(self.run_id.as_str()));
        wire::put(&mut fields, "at", wire::text_json(self.at.as_str()));
        self.event.put_onto(&mut fields);
        Json::Object(fields)
    }

    /// [`as_envelope`], computed.
    fn read(v: &Json) -> (r: Option<EventEnvelope>)
        ensures
            match r {
                Some(e) => as_envelope(v@) == Some(e@),
                None => as_envelope(v@) is None,
            },
    {
        let seq: u64 = wire::read_u64(v, "seq")?;
        let run_id = wire::read_text(v, "run_id")?;
        let at = wire::read_text(v, "at")?;
        let event = RunEvent::read(v)?;
        Some(EventEnvelope { seq, run_id, at, event })
    }

    /// [`envelope_fault`], computed.
    fn refusal(v: &Json) -> (r: Option<String>)
        ensures
            wire::opt_text(r) == envelope_fault(v@),
    {
        let fields = vec![
            fault::look_for_u64(v, "seq"),
            fault::look_for_text(v, "run_id"),
            fault::look_for_text(v, "at"),
        ];
        assert(fault::field_views(fields@) =~= envelope_fields(v@));
        let fault = fault::look_over(v, "struct EventEnvelope", &fields, false);
        if fault.is_some() {
            return fault;
        }
        RunEvent::refusal(v)
    }

    /// Reads an envelope from a document.
    pub fn from_json(v: &Json) -> (r: Result<EventEnvelope, String>)
        ensures
            match r {
                Ok(e) => as_envelope(v@) == Some(e@),
                Err(words) => as_envelope(v@) is None && envelope_fault(v@) == Some(words@),
            },
    {
        proof {
            json::every_document_is_orderly(*v);
            lemma_envelope(v@);
        }
        match EventEnvelope::refusal(v) {
            Some(words) => Err(words),
            None => Ok(EventEnvelope::read(v).unwrap()),
        }
    }
}

/// What is known of the members of an envelope.
pub open spec fn envelope_fields(v: json::JsonView) -> Seq<FieldView> {
    seq![
        fault::u64_field(v, "seq"@),
        fault::text_field(v, "run_id"@),
        fault::text_field(v, "at"@),
    ]
}

/// What is wrong with a document that is to be an envelope: the envelope's
/// members, then the event's.
pub open spec fn envelope_fault(v: json::JsonView) -> Option<Seq<char>> {
    fault::or_else(
        fault::record_fault(v, "struct EventEnvelope"@, envelope_fields(v), false),
        event_fault(v),
    )
}

/// A document is refused exactly where it holds no envelope.
pub proof fn lemma_envelope(v: json::JsonView)
    requires
        json::orderly(v),
    ensures
        envelope_fault(v) is None <==> as_envelope(v) is Some,
{
    let fields = envelope_fields(v);
    fault::lemma_record(v, "struct EventEnvelope"@, fields, false);
    lemma_event(v);
    assert(fault::all_sound(v, fields) <==> fault::sound(v, fields[0]) && fault::sound(
        v,
        fields[1],
    ) && fault::sound(v, fields[2]));
}

/// Enough of the spelling of every tag to tell it from the others.
proof fn lemma_tags_differ()
    ensures
        "run_started"@.len() == 11,
        "run_started"@[0] == 'r',
        "run_started"@[4] == 's',
        "state_changed"@.len() == 13,
        "state_changed"@[3] == 't',
        "iteration_started"@.len() == 17,
        "iteration_started"@[0] == 'i',
        "iteration_finished"@.len() == 18,
        "iteration_finished"@[0] == 'i',
        "agent_output"@.len() == 12,
        "stage_started"@.len() == 13,
        "stage_started"@[3] == 'g',
        "stage_reported"@.len() == 14,
        "report_rejected"@.len() == 15,
        "report_rejected"@[0] == 'r',
        "progress_reported"@.len() == 17,
        "progress_reported"@[0] == 'p',
        "progress_reported"@[11] == 'p',
        "progress_rejected"@.len() == 17,
        "progress_rejected"@[0] == 'p',
        "progress_rejected"@[11] == 'j',
        "verify_check_finished"@.len() == 21,
        "skeptic_verdict"@.len() == 15,
        "skeptic_verdict"@[0] == 's',
        "tokens_used"@.len() == 11,
        "tokens_used"@[0] == 't',
        "workspace_checkpointed"@.len() == 22,
        "budget_exhausted"@.len() == 16,
        "question_answered"@.len() == 17,
        "question_answered"@[0] == 'q',
        "run_resumed"@.len() == 11,
        "run_resumed"@[0] == 'r',
        "run_resumed"@[4] == 'r',
        "child_run_started"@.len() == 17,
        "child_run_started"@[0] == 'c',
        "child_run_finished"@.len() == 18,
        "child_run_finished"@[0] == 'c',
{
    reveal_strlit("run_started");
    reveal_strlit("state_changed");
    reveal_strlit("iteration_started");
    reveal_strlit("iteration_finished");
    reveal_strlit("agent_output");
    reveal_strlit("stage_started");
    reveal_strlit("stage_reported");
    reveal_strlit("report_rejected");
    reveal_strlit("progress_reported");
    reveal_strlit("progress_rejected");
    reveal_strlit("verify_check_finished");
    reveal_strlit("skeptic_verdict");
    reveal_strlit("tokens_used");
    reveal_strlit("workspace_checkpointed");
    reveal_strlit("budget_exhausted");
    reveal_strlit("question_answered");
    reveal_strlit("run_resumed");
    reveal_strlit("child_run_started");
    reveal_strlit("child_run_finished");
}

/// Enough of the spelling of every member's name to tell it from the others.
proof fn lemma_keys_differ()
    ensures
        "type"@.len() == 4,
        "type"@[0] == 't',
        "kernel"@.len() == 6,
        "kernel"@[0] == 'k',
        "agent"@.len() == 5,
        "agent"@[0] == 'a',
        "state"@.len() == 5,
        "state"@[0] == 's',
        "state"@[1] == 't',
        "state"@[3] == 't',
        "reason"@.len() == 6,
        "reason"@[0] == 'r',
        "reason"@[1] == 'e',
        "reason"@[2] == 'a',
        "iteration"@.len() == 9,
        "outcome"@.len() == 7,
        "outcome"@[0] == 'o',
        "stream"@.len() == 6,
        "stream"@[0] == 's',
        "chunk"@.len() == 5,
        "chunk"@[0] == 'c',
        "stage"@.len() == 5,
        "stage"@[0] == 's',
        "stage"@[1] == 't',
        "stage"@[3] == 'g',
        "report"@.len() == 6,
        "report"@[0] == 'r',
        "report"@[1] == 'e',
        "report"@[2] == 'p',
        "errors"@.len() == 6,
        "errors"@[0] == 'e',
        "command"@.len() == 7,
        "command"@[0] == 'c',
        "passed"@.len() == 6,
        "passed"@[0] == 'p',
        "output"@.len() == 6,
        "output"@[0] == 'o',
        "refuted"@.len() == 7,
        "refuted"@[0] == 'r',
        "findings"@.len() == 8,
        "usage"@.len() == 5,
        "usage"@[0] == 'u',
        "commit"@.len() == 6,
        "commit"@[0] == 'c',
        "budget"@.len() == 6,
        "budget"@[0] == 'b',
        "question_id"@.len() == 11,
        "answer"@.len() == 6,
        "answer"@[0] == 'a',
        "note"@.len() == 4,
        "note"@[0] == 'n',
        "child_run_id"@.len() == 12,
        "scope"@.len() == 5,
        "scope"@[0] == 's',
        "scope"@[1] == 'c',
        "iterations"@.len() == 10,
        "input"@.len() == 5,
        "input"@[0] == 'i',
        "seq"@.len() == 3,
        "run_id"@.len() == 6,
        "run_id"@[0] == 'r',
        "run_id"@[1] == 'u',
        "at"@.len() == 2,
{
    reveal_strlit("type");
    reveal_strlit("kernel");
    reveal_strlit("agent");
    reveal_strlit("state");
    reveal_strlit("reason");
    reveal_strlit("iteration");
    reveal_strlit("outcome");
    reveal_strlit("stream");
    reveal_strlit("chunk");
    reveal_strlit("stage");
    reveal_strlit("report");
    reveal_strlit("errors");
    reveal_strlit("command");
    reveal_strlit("passed");
    reveal_strlit("output");
    reveal_strlit("refuted");
    reveal_strlit("findings");
    reveal_strlit("usage");
    reveal_strlit("commit");
    reveal_strlit("budget");
    reveal_strlit("question_id");
    reveal_strlit("answer");
    reveal_strlit("note");
    reveal_strlit("child_run_id");
    reveal_strlit("scope");
    reveal_strlit("iterations");
    reveal_strlit("input");
    reveal_strlit("seq");
    reveal_strlit("run_id");
    reveal_strlit("at");
}

proof fn lemma_words_read_back()
    ensures
        "completed"@ != "failed"@,
        "completed"@ != "timed_out"@,
        "failed"@ != "timed_out"@,
        "stdout"@ != "stderr"@,
        "iterations"@ != "wall_clock"@,
        "iterations"@ != "tokens"@,
        "wall_clock"@ != "tokens"@,
{
    reveal_strlit("completed");
    reveal_strlit("failed");
    reveal_strlit("timed_out");
    reveal_strlit("stdout");
    reveal_strlit("stderr");
    reveal_strlit("iterations");
    reveal_strlit("wall_clock");
    reveal_strlit("tokens");
    assert("completed"@.len() == 9 && "failed"@.len() == 6 && "timed_out"@.len() == 9);
    assert("completed"@[0] == 'c' && "timed_out"@[0] == 't');
    assert("stdout"@[3] == 'o' && "stderr"@[3] == 'e');
    assert("iterations"@.len() == 10 && "wall_clock"@.len() == 10 && "tokens"@.len() == 6);
    assert("iterations"@[0] == 'i' && "wall_clock"@[0] == 'w');
}

/// An event written as an object reads back as it was, whatever else the
/// object carries.
#[verifier::rlimit(40)]
#[verifier::spinoff_prover]
pub proof fn events_read_back(e: EventView, fields: json::Members)
    requires
        event_fields(e).within(fields),
    ensures
        as_event(json::JsonView::Object(fields)) == Some(e),
{
    lemma_tags_differ();
    lemma_keys_differ();
    lemma_words_read_back();
    let v = json::JsonView::Object(fields);
    let own = event_fields(e);
    assert forall|k: Seq<char>| own.dom().contains(k) implies #[trigger] json::lookup(fields, k)
        == Some(own[k]) by {
        assert(fields.dom().contains(k));
    }
    assert(own.dom().contains("type"@));
    match e {
        EventView::StateChanged { state } => {
            run::states_read_back(state, tagged(json::Members::empty(), "state_changed"@));
            lemma_state_carries_over(own, fields);
        },
        EventView::ChildRunFinished { child_run_id, state, iterations, usage } => {
            let start = tagged(json::Members::empty(), "child_run_finished"@).insert(
                "child_run_id"@,
                json::JsonView::Str(child_run_id),
            );
            run::states_read_back(state, start);
            lemma_state_members(state, start);
            lemma_usage_reads_back(usage);
            assert(json::lookup(own, "state"@) == json::lookup(state.onto(start), "state"@));
            assert(json::lookup(own, "reason"@) == json::lookup(state.onto(start), "reason"@));
            assert(run::as_state(json::JsonView::Object(own)) == Some(state));
            lemma_state_carries_over(own, fields);
        },
        EventView::ReportRejected { iteration, errors } => {
            wire::lemma_texts_read_back(errors);
        },
        EventView::ProgressRejected { iteration, errors } => {
            wire::lemma_texts_read_back(errors);
        },
        EventView::SkepticVerdict { iteration, refuted, findings } => {
            wire::lemma_texts_read_back(findings);
        },
        EventView::TokensUsed { iteration, usage } => {
            lemma_usage_reads_back(Some(usage));
        },
        _ => {},
    }
}

proof fn lemma_state_members(state: RunState, start: json::Members)
    ensures
        state.onto(start).dom().contains("state"@),
{
}

/// A state read from some members reads the same from more.
proof fn lemma_state_carries_over(
    own: json::Members,
    fields: json::Members,
)
    requires
        own.within(fields),
        run::as_state(json::JsonView::Object(own)) is Some,
    ensures
        run::as_state(json::JsonView::Object(fields)) == run::as_state(json::JsonView::Object(own)),
{
    assert(own.dom().contains("state"@));
    assert(fields.dom().contains("state"@));
    if own.dom().contains("reason"@) {
        assert(fields.dom().contains("reason"@));
    }
}

proof fn lemma_usage_reads_back(usage: Option<TokenUsage>)
    ensures
        usage matches Some(u) ==> as_usage(usage_json(u)) == Some(u),
{
    lemma_keys_differ();
}

/// An envelope written as a document reads back as it was.
pub proof fn envelopes_read_back(e: EnvelopeView)
    ensures
        as_envelope(envelope_json(e)) == Some(e),
{
    lemma_keys_differ();
    lemma_event_stands_beside(e.event, envelope_head(e));
    events_read_back(e.event, envelope_json(e)->Object_0);
}

/// An event carried flat changes no member that is not its own, and reads as
/// it does alone.
proof fn lemma_event_stands_beside(e: EventView, fields: json::Members)
    ensures
        event_fields(e).within(event_onto(e, fields)),
        json::lookup(event_onto(e, fields), "seq"@) == json::lookup(fields, "seq"@),
        json::lookup(event_onto(e, fields), "run_id"@) == json::lookup(fields, "run_id"@),
        json::lookup(event_onto(e, fields), "at"@) == json::lookup(fields, "at"@),
{
    lemma_keys_differ();
}

} // verus!
