//! Shared enforcement for a verified completion. Kernels compose their own
//! evidence prompt; this module owns the strict verdict contract, the repair
//! loop around it, and its event.

use crate::event::{self, RunEvent};
use crate::invocation::{self, Drive, ReportContract};
use crate::fault::{self, FieldView};
use crate::json::{self, Json};
use crate::kernel::{self, Effect, KernelContext, KernelError, Reply, Turn};
use crate::text;
use crate::wire;
use vstd::prelude::*;

verus! {

/// The schema of a skeptic's report.
pub const REPORT_SCHEMA: &'static str = r##"{
  "$schema": "https://json-schema.org/draft/2020-12/schema",
  "title": "SkepticReport",
  "type": "object",
  "properties": {
    "refuted": {
      "description": "Whether concrete evidence shows the domain prompts are not yet satisfied.",
      "type": "boolean"
    },
    "findings": {
      "description": "Concrete unmet requirements; empty when the claim survives scrutiny.",
      "type": "array",
      "items": { "type": "string" }
    }
  },
  "required": ["refuted", "findings"],
  "additionalProperties": false,
  "if": {
    "properties": { "refuted": { "const": true } }
  },
  "then": {
    "properties": { "findings": { "minItems": 1 } }
  },
  "else": {
    "properties": { "findings": { "maxItems": 0 } }
  }
}"##;

/// What a skeptic found.
#[derive(Debug, PartialEq, Eq)]
pub struct SkepticReport {
    pub refuted: bool,
    pub findings: Vec<String>,
}

/// The two members of a skeptic's report, where a document holds exactly
/// them.
pub open spec fn verdict_in(v: json::JsonView) -> Option<(bool, Seq<Seq<char>>)> {
    if !wire::only_has(v, seq!["refuted"@, "findings"@]) {
        None
    } else {
        match (wire::flag_at(v, "refuted"@), wire::texts_at(v, "findings"@)) {
            (Some(refuted), Some(findings)) => Some((refuted, findings)),
            _ => None,
        }
    }
}

/// The strict verdict contract.
#[derive(Debug, Clone, Copy, PartialEq, Eq)]
pub struct SkepticContract;

impl ReportContract for SkepticContract {
    type Report = SkepticReport;

    open spec fn shape(&self) -> Seq<char> {
        REPORT_SCHEMA@
    }

    /// The verdict and its findings must agree: a refutation names what it
    /// found, and an unrefuted claim has nothing to name.
    open spec fn reads(&self, text: Seq<char>, r: Result<SkepticReport, String>) -> bool {
        match json::parsed(text) {
            None => r matches Err(error) && error@ == json::malformed(text),
            Some(v) => match verdict_in(v) {
                None => r matches Err(error) && verdict_fault(v) == Some(error@),
                Some((refuted, findings)) => if refuted && findings.len() == 0 {
                    r matches Err(error) && error@ == "a refutation requires at least one finding"@
                } else if !refuted && findings.len() > 0 {
                    r matches Err(error) && error@ == "an unrefuted claim must have no findings"@
                } else {
                    r matches Ok(report) && report.refuted == refuted && text::texts(
                        report.findings@,
                    ) == findings
                },
            },
        }
    }

    fn schema(&self) -> (s: &str) {
        REPORT_SCHEMA
    }

    fn parse(&self, text: &str) -> (r: Result<SkepticReport, String>) {
        let v = match Json::parse(text) {
            Ok(v) => v,
            Err(error) => return Err(error),
        };
        let (refuted, findings) = match verdict_of(&v) {
            Ok(verdict) => verdict,
            Err(error) => return Err(error),
        };
        if refuted && findings.len() == 0 {
            return Err("a refutation requires at least one finding".to_owned());
        }
        if !refuted && findings.len() > 0 {
            return Err("an unrefuted claim must have no findings".to_owned());
        }
        Ok(SkepticReport { refuted, findings })
    }
}

/// What is known of the members of a verdict.
pub open spec fn verdict_fields(v: json::JsonView) -> Seq<FieldView> {
    seq![fault::flag_field(v, "refuted"@), fault::texts_field(v, "findings"@, true)]
}

/// What is wrong with a document that is to be a verdict.
pub open spec fn verdict_fault(v: json::JsonView) -> Option<Seq<char>> {
    fault::record_fault(v, "struct SkepticReport"@, verdict_fields(v), true)
}

/// A document is refused exactly where it holds no verdict.
pub proof fn lemma_verdict(v: json::JsonView)
    requires
        json::orderly(v),
    ensures
        verdict_fault(v) is None <==> verdict_in(v) is Some,
{
    let fields = verdict_fields(v);
    fault::lemma_record(v, "struct SkepticReport"@, fields, true);
    if let Some(list) = json::member(v, "findings"@) {
        fault::lemma_texts_fault(list);
    }
    assert(fault::keys(fields) =~= seq!["refuted"@, "findings"@]);
    assert(fault::all_sound(v, fields) <==> fault::sound(v, fields[0]) && fault::sound(
        v,
        fields[1],
    ));
}

/// The verdict in a document, as it stands.
fn read_verdict(v: &Json) -> (r: Option<(bool, Vec<String>)>)
    ensures
        match r {
            Some((refuted, findings)) => wire::flag_at(v@, "refuted"@) == Some(refuted)
                && wire::texts_at(v@, "findings"@) == Some(text::texts(findings@)),
            None => wire::flag_at(v@, "refuted"@) is None || wire::texts_at(v@, "findings"@)
                is None,
        },
{
    let refuted: bool = wire::read_flag(v, "refuted")?;
    let findings = wire::read_texts(v, "findings")?;
    Some((refuted, findings))
}

/// [`verdict_in`], computed.
fn verdict_of(v: &Json) -> (r: Result<(bool, Vec<String>), String>)
    ensures
        match r {
            Ok(verdict) => verdict_in(v@) == Some((verdict.0, text::texts(verdict.1@))),
            Err(words) => verdict_in(v@) is None && verdict_fault(v@) == Some(words@),
        },
{
    let fields = vec![
        fault::look_for_flag(v, "refuted"),
        fault::look_for_texts(v, "findings", true),
    ];
    proof {
        assert(fault::field_views(fields@) =~= verdict_fields(v@));
        json::every_document_is_orderly(*v);
        lemma_verdict(v@);
    }
    match fault::look_over(v, "struct SkepticReport", &fields, true) {
        Some(words) => Err(words),
        None => Ok(read_verdict(v).unwrap()),
    }
}

/// How a skeptic's iteration ended.
#[derive(Debug, PartialEq, Eq)]
pub enum SkepticEnd {
    Unrefuted,
    Refuted(Vec<String>),
    /// The skeptic left no trustworthy report.
    Failed,
}

/// Where a skeptic's invocation stands.
pub enum EvaluationPhase {
    /// The skeptic is driven to its report.
    Driving(Drive),
    /// Its verdict is being logged.
    Logging(SkepticEnd),
}

/// One skeptic invocation: its prompt driven to a verdict, and the verdict
/// logged.
pub struct Evaluation {
    pub iteration: u32,
    pub phase: EvaluationPhase,
}

/// Begins a skeptic's invocation.
pub fn evaluate(ctx: &KernelContext, iteration: u32, prompt: String) -> (r: (Evaluation, Effect))
    ensures
        r.0 == begun(iteration, prompt),
        r.1 matches Effect::RemoveFile(path) && path@ == invocation::report_path(),
{
    let (drive, effect) = invocation::invoke_to_report(ctx, iteration, prompt);
    (Evaluation { iteration, phase: EvaluationPhase::Driving(drive) }, effect)
}

/// An evaluation that has just begun.
pub open spec fn begun(iteration: u32, prompt: String) -> Evaluation {
    Evaluation {
        iteration,
        phase: EvaluationPhase::Driving(
            Drive {
                iteration,
                phase: invocation::DrivePhase::First(
                    invocation::Invocation {
                        iteration,
                        phase: invocation::InvocationPhase::Clearing { prompt },
                    },
                ),
            },
        ),
    }
}

/// Whether `end` is what a report comes to.
pub open spec fn comes_to(report: SkepticReport, end: SkepticEnd) -> bool {
    if report.refuted {
        end matches SkepticEnd::Refuted(findings) && text::texts(findings@) == text::texts(
            report.findings@,
        )
    } else {
        end is Unrefuted
    }
}

impl Evaluation {
    /// Whether `turn` is where the evaluation stands after its drive has
    /// taken a turn of its own. A verdict is logged before it counts.
    pub open spec fn follows(
        self,
        inner: Turn<Drive, Result<Option<SkepticReport>, KernelError>>,
        turn: Turn<Evaluation, Result<SkepticEnd, KernelError>>,
    ) -> bool {
        match inner {
            Turn::Act(drive, effect) => turn == Turn::<
                Evaluation,
                Result<SkepticEnd, KernelError>,
            >::Act(Evaluation { phase: EvaluationPhase::Driving(drive), ..self }, effect),
            Turn::End(Err(error)) => turn == Turn::<
                Evaluation,
                Result<SkepticEnd, KernelError>,
            >::End(Err(error)),
            Turn::End(Ok(None)) => turn matches Turn::End(Ok(SkepticEnd::Failed)),
            Turn::End(Ok(Some(report))) => {
                &&& turn matches Turn::Act(next, effect)
                &&& next.iteration == self.iteration
                &&& next.phase matches EvaluationPhase::Logging(end)
                &&& comes_to(report, end)
                &&& kernel::emits(
                    effect,
                    event::EventView::SkepticVerdict {
                        iteration: self.iteration,
                        refuted: report.refuted,
                        findings: text::texts(report.findings@),
                    },
                )
            },
        }
    }

    /// Whether `turn` is where the evaluation stands after `reply`.
    pub open spec fn steps(
        self,
        ctx: KernelContext,
        reply: Reply,
        turn: Turn<Evaluation, Result<SkepticEnd, KernelError>>,
    ) -> bool {
        match self.phase {
            EvaluationPhase::Driving(drive) => exists|
                inner: Turn<Drive, Result<Option<SkepticReport>, KernelError>>,
            | #[trigger]
                drive.steps(ctx, SkepticContract, reply, inner) && self.follows(inner, turn),
            EvaluationPhase::Logging(end) => if reply is Failed {
                turn == Turn::<Evaluation, Result<SkepticEnd, KernelError>>::End(
                    Err(reply->Failed_0),
                )
            } else {
                turn == Turn::<Evaluation, Result<SkepticEnd, KernelError>>::End(Ok(end))
            },
        }
    }

    /// Takes the evaluation one reply further.
    pub fn step(self, ctx: &KernelContext, reply: Reply) -> (turn: Turn<
        Evaluation,
        Result<SkepticEnd, KernelError>,
    >)
        ensures
            self.steps(*ctx, reply, turn),
    {
        let iteration: u32 = self.iteration;
        match self.phase {
            EvaluationPhase::Driving(drive) => {
                match drive.step(ctx, &SkepticContract, reply) {
                    Turn::Act(drive, effect) => Turn::Act(
                        Evaluation { iteration, phase: EvaluationPhase::Driving(drive) },
                        effect,
                    ),
                    Turn::End(Err(error)) => Turn::End(Err(error)),
                    Turn::End(Ok(None)) => Turn::End(Ok(SkepticEnd::Failed)),
                    Turn::End(Ok(Some(report))) => {
                        let event = RunEvent::SkepticVerdict {
                            iteration,
                            refuted: report.refuted,
                            findings: text::copied_all(&report.findings),
                        };
                        let end: SkepticEnd = if report.refuted {
                            SkepticEnd::Refuted(report.findings)
                        } else {
                            SkepticEnd::Unrefuted
                        };
                        Turn::Act(
                            Evaluation { iteration, phase: EvaluationPhase::Logging(end) },
                            Effect::Emit(event),
                        )
                    },
                }
            },
            EvaluationPhase::Logging(end) => match reply {
                Reply::Failed(error) => Turn::End(Err(error)),
                _ => Turn::End(Ok(end)),
            },
        }
    }
}

/// A claim survives only through a logged verdict that does not refute it:
/// an evaluation that ends unrefuted has just logged its verdict, and the
/// step that set out to log it logged a verdict without a finding.
pub proof fn a_claim_survives_only_by_a_logged_verdict(
    before: Evaluation,
    ctx: KernelContext,
    reply: Reply,
    turn: Turn<Evaluation, Result<SkepticEnd, KernelError>>,
)
    requires
        before.steps(ctx, reply, turn),
    ensures
        turn matches Turn::End(Ok(SkepticEnd::Unrefuted)) ==> before.phase
            == EvaluationPhase::Logging(SkepticEnd::Unrefuted) && !(reply is Failed),
        turn is Act && turn->Act_0.phase == EvaluationPhase::Logging(SkepticEnd::Unrefuted)
            ==> kernel::emits(
            turn->Act_1,
            event::EventView::SkepticVerdict {
                iteration: before.iteration,
                refuted: false,
                findings: Seq::empty(),
            },
        ),
{
    if let EvaluationPhase::Driving(drive) = before.phase {
        let inner = choose|inner: Turn<Drive, Result<Option<SkepticReport>, KernelError>>|
            #[trigger] drive.steps(ctx, SkepticContract, reply, inner) && before.follows(
                inner,
                turn,
            );
        if let Turn::End(Ok(Some(report))) = inner {
            if !report.refuted {
                assert(text::texts(report.findings@) =~= Seq::empty());
            }
        }
    }
}

/// A skeptic's invocation never boots or destroys a sandbox.
pub proof fn an_evaluation_minds_its_sandbox(
    before: Evaluation,
    ctx: KernelContext,
    reply: Reply,
    next: Evaluation,
    effect: Effect,
)
    requires
        before.steps(ctx, reply, Turn::Act(next, effect)),
    ensures
        kernel::stays_inside(effect),
{
    if let EvaluationPhase::Driving(drive) = before.phase {
        let inner = choose|inner: Turn<Drive, Result<Option<SkepticReport>, KernelError>>|
            #[trigger] drive.steps(ctx, SkepticContract, reply, inner) && before.follows(
                inner,
                Turn::Act(next, effect),
            );
        if inner is Act {
            invocation::a_drive_minds_its_sandbox(
                drive,
                ctx,
                SkepticContract,
                reply,
                inner->Act_0,
                inner->Act_1,
            );
        }
    }
}

} // verus!
