//! The fanout kernel's dialect and shipped assets: the report its plan
//! leaves, the default prompt, and the schema the prompt quotes.

use crate::invocation::ReportContract;
use crate::fault::{self, FieldView};
use crate::json::{self, Json};
use crate::report::{self, Question, ReportStatus};
use crate::text;
use crate::wire;
use vstd::prelude::*;

verus! {

pub const PLAN_PROMPT: &'static str = "# Plan\n\nRead the workspace and name the units of work that are ready and independent\nof each other. Each unit becomes one child pipeline, so word it such that its\nplanner needs nothing else. Change nothing in the workspace.\n";

pub const PLAN_SCHEMA: &'static str = r##"{
  "$schema": "https://json-schema.org/draft/2020-12/schema",
  "title": "PlanReport",
  "description": "What the fanout plan leaves behind.",
  "type": "object",
  "properties": {
    "status": {
      "$ref": "#/$defs/ReportStatus"
    },
    "summary": {
      "type": "string"
    },
    "units": {
      "description": "The ready units; each scopes one child pipeline.",
      "type": "array",
      "items": {
        "type": "string"
      }
    },
    "blockers": {
      "type": "array",
      "items": {
        "type": "string"
      }
    },
    "questions": {
      "type": "array",
      "items": {
        "$ref": "#/$defs/Question"
      }
    }
  },
  "required": [
    "status",
    "summary"
  ],
  "additionalProperties": false,
  "$defs": {
    "ReportStatus": {
      "type": "string",
      "enum": [
        "continue",
        "done",
        "blocked",
        "needs_input"
      ]
    },
    "Question": {
      "type": "object",
      "properties": {
        "id": {
          "type": "string"
        },
        "text": {
          "type": "string"
        },
        "options": {
          "type": "array",
          "items": {
            "type": "string"
          }
        }
      },
      "required": [
        "id",
        "text"
      ]
    }
  }
}"##;

/// The shipped default prompt of the plan.
pub fn default_prompt() -> (s: &'static str)
    ensures
        s@ == PLAN_PROMPT@,
{
    PLAN_PROMPT
}

/// The schema of the plan's report.
pub fn report_schema() -> (s: &'static str)
    ensures
        s@ == PLAN_SCHEMA@,
{
    PLAN_SCHEMA
}

/// What a fanout plan leaves: the units that are ready. Unit strings are
/// opaque to the engine.
#[derive(Debug, PartialEq, Eq)]
pub struct PlanReport {
    pub status: ReportStatus,
    pub summary: String,
    pub units: Vec<String>,
    pub blockers: Vec<String>,
    pub questions: Vec<Question>,
}

/// What a plan's report says.
#[verifier::ext_equal]
pub ghost struct PlanReportView {
    pub status: ReportStatus,
    pub summary: Seq<char>,
    pub units: Seq<Seq<char>>,
    pub blockers: Seq<Seq<char>>,
    pub questions: Seq<report::QuestionView>,
}

impl View for PlanReport {
    type V = PlanReportView;

    open spec fn view(&self) -> PlanReportView {
        PlanReportView {
            status: self.status,
            summary: self.summary@,
            units: text::texts(self.units@),
            blockers: text::texts(self.blockers@),
            questions: report::question_views(self.questions@),
        }
    }
}

/// The members of the object that stands for a plan's report.
pub open spec fn plan_fields(r: PlanReportView) -> json::Members {
    json::Members::empty().insert("status"@, json::JsonView::Str(r.status.word())).insert(
        "summary"@,
        json::JsonView::Str(r.summary),
    ).insert("units"@, wire::texts_view(r.units)).insert(
        "blockers"@,
        wire::texts_view(r.blockers),
    ).insert("questions"@, report::questions_json(r.questions))
}

/// The members a plan's report may have.
pub open spec fn plan_members() -> Seq<Seq<char>> {
    seq!["status"@, "summary"@, "units"@, "blockers"@, "questions"@]
}

/// The report that a document holds. Strict: an unknown member is refused.
/// Lists may be left out.
pub open spec fn as_plan_report(v: json::JsonView) -> Option<PlanReportView> {
    if !wire::only_has(v, plan_members()) {
        None
    } else {
        match (
            report::status_at(v, "status"@),
            wire::text_at(v, "summary"@),
            wire::texts_or_none_at(v, "units"@),
            wire::texts_or_none_at(v, "blockers"@),
            report::questions_at(v, "questions"@),
        ) {
            (Some(status), Some(summary), Some(units), Some(blockers), Some(questions)) => Some(
                PlanReportView { status, summary, units, blockers, questions },
            ),
            _ => None,
        }
    }
}

impl PlanReport {
    /// The report as a document.
    pub fn to_json_value(&self) -> (r: Json)
        ensures
            r@ == json::JsonView::Object(plan_fields(self@)),
    {
        let mut fields: Vec<(String, Json)> = Vec::new();
        proof {
            json::lemma_fields(fields@);
        }
        wire::put(&mut fields, "status", wire::text_json(self.status.as_str()));
        wire::put(&mut fields, "summary", wire::text_json(self.summary.as_str()));
        wire::put(&mut fields, "units", wire::texts_json(&self.units));
        wire::put(&mut fields, "blockers", wire::texts_json(&self.blockers));
        wire::put(&mut fields, "questions", report::questions_to_json(&self.questions));
        Json::Object(fields)
    }

    /// The report in a document, whatever else it holds.
    fn read(v: &Json) -> (r: Option<PlanReport>)
        ensures
            match r {
                Some(read) => wire::only_has(v@, plan_members()) ==> as_plan_report(v@) == Some(read@),
                None => as_plan_report(v@) is None,
            },
    {
        let status = report::read_status(v, "status")?;
        let summary = wire::read_text(v, "summary")?;
        let units = wire::read_texts_or_none(v, "units")?;
        let blockers = wire::read_texts_or_none(v, "blockers")?;
        let questions = report::read_questions(v, "questions")?;
        Some(PlanReport { status, summary, units, blockers, questions })
    }

    /// [`plan_fault`], computed.
    fn refusal(v: &Json) -> (r: Option<String>)
        ensures
            wire::opt_text(r) == plan_fault(v@),
    {
        let fields = vec![
            report::look_for_status(v, "status"),
            fault::look_for_text(v, "summary"),
            fault::look_for_texts(v, "units", false),
            fault::look_for_texts(v, "blockers", false),
            report::look_for_questions(v, "questions"),
        ];
        assert(fault::field_views(fields@) =~= plan_known(v@));
        fault::look_over(v, "struct PlanReport", &fields, true)
    }

    /// Reads a plan's report from a document, strictly.
    pub fn from_json(v: &Json) -> (r: Result<PlanReport, String>)
        ensures
            match r {
                Ok(read) => as_plan_report(v@) == Some(read@),
                Err(words) => as_plan_report(v@) is None && plan_fault(v@) == Some(words@),
            },
    {
        proof {
            json::every_document_is_orderly(*v);
            lemma_plan(v@);
        }
        match PlanReport::refusal(v) {
            Some(words) => Err(words),
            None => Ok(PlanReport::read(v).unwrap()),
        }
    }
}

/// What is known of the members of a plan's report.
pub open spec fn plan_known(v: json::JsonView) -> Seq<FieldView> {
    seq![
        report::status_field(v, "status"@),
        fault::text_field(v, "summary"@),
        fault::texts_field(v, "units"@, false),
        fault::texts_field(v, "blockers"@, false),
        report::questions_field(v, "questions"@),
    ]
}

/// What is wrong with a document that is to be a plan's report.
pub open spec fn plan_fault(v: json::JsonView) -> Option<Seq<char>> {
    fault::record_fault(v, "struct PlanReport"@, plan_known(v), true)
}

/// A document is refused exactly where it is not a plan's report.
pub proof fn lemma_plan(v: json::JsonView)
    requires
        json::orderly(v),
    ensures
        plan_fault(v) is None <==> as_plan_report(v) is Some,
{
    let fields = plan_known(v);
    fault::lemma_record(v, "struct PlanReport"@, fields, true);
    report::lemma_status_field(v, "status"@);
    if let Some(list) = json::member(v, "units"@) {
        fault::lemma_texts_fault(list);
    }
    if let Some(list) = json::member(v, "blockers"@) {
        fault::lemma_texts_fault(list);
    }
    report::lemma_questions_field(v, "questions"@);
    assert(fault::keys(fields) =~= plan_members());
    assert(fault::all_sound(v, fields) <==> fault::sound(v, fields[0]) && fault::sound(v, fields[1]) && fault::sound(v, fields[2]) && fault::sound(v, fields[3]) && fault::sound(v, fields[4]));
}

/// A plan's report written as a document reads back as it was.
pub proof fn plan_reports_read_back(r: PlanReportView)
    ensures
        as_plan_report(json::JsonView::Object(plan_fields(r))) == Some(r),
{
    reveal_strlit("status");
    reveal_strlit("summary");
    reveal_strlit("units");
    reveal_strlit("blockers");
    reveal_strlit("questions");
    assert("status"@.len() == 6 && "summary"@.len() == 7 && "units"@.len() == 5
        && "blockers"@.len() == 8 && "questions"@.len() == 9);
    report::lemma_status_word_names_it(r.status);
    report::lemma_questions_read_back(r.questions);
    wire::lemma_texts_read_back(r.units);
    wire::lemma_texts_read_back(r.blockers);
    let known = plan_members();
    assert(known[0] == "status"@ && known[1] == "summary"@ && known[2] == "units"@ && known[3]
        == "blockers"@ && known[4] == "questions"@);
    let fields = plan_fields(r);
    assert forall|k: Seq<char>| fields.dom().contains(k) implies #[trigger] known.contains(k) by {
        assert(known.len() == 5);
    }
}

/// The strict contract of a plan's report.
#[derive(Debug, Clone, Copy, PartialEq, Eq)]
pub struct PlanContract;

impl ReportContract for PlanContract {
    type Report = PlanReport;

    open spec fn shape(&self) -> Seq<char> {
        PLAN_SCHEMA@
    }

    open spec fn reads(&self, text: Seq<char>, r: Result<PlanReport, String>) -> bool {
        match (json::parsed(text), r) {
            (Some(v), Ok(report)) => as_plan_report(v) == Some(report@),
            (Some(v), Err(words)) => as_plan_report(v) is None && plan_fault(v) == Some(words@),
            (None, Ok(_)) => false,
            (None, Err(words)) => words@ == json::malformed(text),
        }
    }

    fn schema(&self) -> (s: &str) {
        report_schema()
    }

    fn parse(&self, text: &str) -> (r: Result<PlanReport, String>) {
        match Json::parse(text) {
            Ok(v) => PlanReport::from_json(&v),
            Err(error) => Err(error),
        }
    }
}

} // verus!
