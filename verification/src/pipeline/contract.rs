//! The pipeline kernel's dialect and shipped assets: its stages, the report
//! each stage leaves, a default prompt for every stage that is part of every
//! flow, and the schema each stage quotes.

use crate::invocation::ReportContract;
use crate::fault::{self, Field, FieldView};
use crate::json::{self, Json};
use crate::report::{self, Question, ReportStatus};
use crate::text;
use crate::wire;
use vstd::prelude::*;

verus! {

/// One step of the pipeline's fixed sequence.
#[derive(Debug, Clone, Copy, PartialEq, Eq, Structural)]
pub enum Stage {
    Plan,
    Implement,
    Review,
    Simplify,
    Deliver,
}

/// The stages in the order an iteration runs them.
pub open spec fn stage_at(i: int) -> Stage {
    if i == 0 {
        Stage::Plan
    } else if i == 1 {
        Stage::Implement
    } else if i == 2 {
        Stage::Review
    } else if i == 3 {
        Stage::Simplify
    } else {
        Stage::Deliver
    }
}

/// How many stages there are.
pub const STAGES: usize = 5;

impl Stage {
    /// The name the wire format and the prompts have for the stage.
    pub open spec fn word(self) -> Seq<char> {
        match self {
            Stage::Plan => "plan"@,
            Stage::Implement => "implement"@,
            Stage::Review => "review"@,
            Stage::Simplify => "simplify"@,
            Stage::Deliver => "deliver"@,
        }
    }

    pub fn as_str(&self) -> (s: &'static str)
        ensures
            s@ == self.word(),
    {
        match self {
            Stage::Plan => "plan",
            Stage::Implement => "implement",
            Stage::Review => "review",
            Stage::Simplify => "simplify",
            Stage::Deliver => "deliver",
        }
    }

    /// Where the stage stands in the sequence.
    pub open spec fn position(self) -> int {
        match self {
            Stage::Plan => 0,
            Stage::Implement => 1,
            Stage::Review => 2,
            Stage::Simplify => 3,
            Stage::Deliver => 4,
        }
    }

    /// [`Stage::position`], computed.
    pub fn index(&self) -> (i: usize)
        ensures
            i == self.position(),
            i < STAGES,
    {
        match self {
            Stage::Plan => 0,
            Stage::Implement => 1,
            Stage::Review => 2,
            Stage::Simplify => 3,
            Stage::Deliver => 4,
        }
    }

    /// The stage at a position of the sequence.
    pub fn at(i: usize) -> (r: Stage)
        requires
            i < STAGES,
        ensures
            r == stage_at(i as int),
            r.position() == i,
    {
        match i {
            0 => Stage::Plan,
            1 => Stage::Implement,
            2 => Stage::Review,
            3 => Stage::Simplify,
            _ => Stage::Deliver,
        }
    }

    /// The stages in the order an iteration runs them.
    pub fn all() -> (r: Vec<Stage>)
        ensures
            r@.len() == STAGES,
            forall|i: int| 0 <= i < STAGES ==> #[trigger] r@[i] == stage_at(i),
    {
        vec![Stage::Plan, Stage::Implement, Stage::Review, Stage::Simplify, Stage::Deliver]
    }

    /// The stage that a name of the wire format stands for.
    pub fn named(word: &str) -> (r: Option<Stage>)
        ensures
            r == stage_named(word@),
    {
        if text::same(word, "plan") {
            Some(Stage::Plan)
        } else if text::same(word, "implement") {
            Some(Stage::Implement)
        } else if text::same(word, "review") {
            Some(Stage::Review)
        } else if text::same(word, "simplify") {
            Some(Stage::Simplify)
        } else if text::same(word, "deliver") {
            Some(Stage::Deliver)
        } else {
            None
        }
    }
}

/// The stage that a name of the wire format stands for.
pub open spec fn stage_named(word: Seq<char>) -> Option<Stage> {
    if word == "plan"@ {
        Some(Stage::Plan)
    } else if word == "implement"@ {
        Some(Stage::Implement)
    } else if word == "review"@ {
        Some(Stage::Review)
    } else if word == "simplify"@ {
        Some(Stage::Simplify)
    } else if word == "deliver"@ {
        Some(Stage::Deliver)
    } else {
        None
    }
}

/// Every stage is the one its name stands for.
pub proof fn stages_are_told_apart_by_name(stage: Stage)
    ensures
        stage_named(stage.word()) == Some(stage),
        stage_at(stage.position()) == stage,
{
    reveal_strlit("plan");
    reveal_strlit("implement");
    reveal_strlit("review");
    reveal_strlit("simplify");
    reveal_strlit("deliver");
    assert("plan"@.len() == 4 && "implement"@.len() == 9 && "review"@.len() == 6
        && "simplify"@.len() == 8 && "deliver"@.len() == 7);
}

/// The plan stage's report: the one unit of work the iteration drives.
#[derive(Debug, PartialEq, Eq)]
pub struct PlanReport {
    pub status: ReportStatus,
    pub summary: String,
    pub work_unit: Option<String>,
    pub steps: Vec<String>,
    pub blockers: Vec<String>,
    pub questions: Vec<Question>,
}

/// The implement stage's report: what of the unit is left.
#[derive(Debug, PartialEq, Eq)]
pub struct ImplementReport {
    pub status: ReportStatus,
    pub summary: String,
    pub remaining: Vec<String>,
    pub blockers: Vec<String>,
    pub questions: Vec<Question>,
}

/// The review stage's report: what it found and fixed.
#[derive(Debug, PartialEq, Eq)]
pub struct ReviewReport {
    pub status: ReportStatus,
    pub summary: String,
    pub findings: Vec<String>,
    pub blockers: Vec<String>,
    pub questions: Vec<Question>,
}

/// The simplify stage's report.
#[derive(Debug, PartialEq, Eq)]
pub struct SimplifyReport {
    pub status: ReportStatus,
    pub summary: String,
    pub blockers: Vec<String>,
    pub questions: Vec<Question>,
}

/// The deliver stage's report.
#[derive(Debug, PartialEq, Eq)]
pub struct DeliverReport {
    pub status: ReportStatus,
    pub summary: String,
    pub blockers: Vec<String>,
    pub questions: Vec<Question>,
}

/// The report a stage leaves.
#[derive(Debug, PartialEq, Eq)]
pub enum StageReport {
    Plan(PlanReport),
    Implement(ImplementReport),
    Review(ReviewReport),
    Simplify(SimplifyReport),
    Deliver(DeliverReport),
}

/// What a stage's report says. `items` is the one list that is the stage's
/// own: a plan's steps, what an implementation leaves, what a review found.
#[verifier::ext_equal]
pub ghost struct StageReportView {
    pub stage: Stage,
    pub status: ReportStatus,
    pub summary: Seq<char>,
    pub work_unit: Option<Seq<char>>,
    pub items: Seq<Seq<char>>,
    pub blockers: Seq<Seq<char>>,
    pub questions: Seq<report::QuestionView>,
}

impl View for StageReport {
    type V = StageReportView;

    open spec fn view(&self) -> StageReportView {
        match self {
            StageReport::Plan(r) => StageReportView {
                stage: Stage::Plan,
                status: r.status,
                summary: r.summary@,
                work_unit: wire::opt_text(r.work_unit),
                items: text::texts(r.steps@),
                blockers: text::texts(r.blockers@),
                questions: report::question_views(r.questions@),
            },
            StageReport::Implement(r) => StageReportView {
                stage: Stage::Implement,
                status: r.status,
                summary: r.summary@,
                work_unit: None,
                items: text::texts(r.remaining@),
                blockers: text::texts(r.blockers@),
                questions: report::question_views(r.questions@),
            },
            StageReport::Review(r) => StageReportView {
                stage: Stage::Review,
                status: r.status,
                summary: r.summary@,
                work_unit: None,
                items: text::texts(r.findings@),
                blockers: text::texts(r.blockers@),
                questions: report::question_views(r.questions@),
            },
            StageReport::Simplify(r) => StageReportView {
                stage: Stage::Simplify,
                status: r.status,
                summary: r.summary@,
                work_unit: None,
                items: Seq::empty(),
                blockers: text::texts(r.blockers@),
                questions: report::question_views(r.questions@),
            },
            StageReport::Deliver(r) => StageReportView {
                stage: Stage::Deliver,
                status: r.status,
                summary: r.summary@,
                work_unit: None,
                items: Seq::empty(),
                blockers: text::texts(r.blockers@),
                questions: report::question_views(r.questions@),
            },
        }
    }
}

/// What a list of stage reports says.
pub open spec fn report_views(v: Seq<StageReport>) -> Seq<StageReportView> {
    v.map_values(|r: StageReport| r@)
}

/// The name of the list that is a stage's own.
pub open spec fn items_key(stage: Stage) -> Option<Seq<char>> {
    match stage {
        Stage::Plan => Some("steps"@),
        Stage::Implement => Some("remaining"@),
        Stage::Review => Some("findings"@),
        _ => None,
    }
}

/// The members of the object that stands for a stage's report.
pub open spec fn report_fields(r: StageReportView) -> json::Members {
    let opening = json::Members::empty().insert(
        "status"@,
        json::JsonView::Str(r.status.word()),
    ).insert("summary"@, json::JsonView::Str(r.summary));
    let picked = if r.stage == Stage::Plan {
        opening.insert("work_unit"@, wire::opt_text_view(r.work_unit))
    } else {
        opening
    };
    let listed = match items_key(r.stage) {
        Some(key) => picked.insert(key, wire::texts_view(r.items)),
        None => picked,
    };
    listed.insert("blockers"@, wire::texts_view(r.blockers)).insert(
        "questions"@,
        report::questions_json(r.questions),
    )
}

/// The members a stage's report may have.
pub open spec fn known_members(stage: Stage) -> Seq<Seq<char>> {
    match stage {
        Stage::Plan => seq![
            "status"@,
            "summary"@,
            "work_unit"@,
            "steps"@,
            "blockers"@,
            "questions"@,
        ],
        Stage::Implement => seq!["status"@, "summary"@, "remaining"@, "blockers"@, "questions"@],
        Stage::Review => seq!["status"@, "summary"@, "findings"@, "blockers"@, "questions"@],
        _ => seq!["status"@, "summary"@, "blockers"@, "questions"@],
    }
}

/// The report that a document holds for a stage. Strict: a member the stage
/// does not know is refused. Lists may be left out.
pub open spec fn as_stage_report(stage: Stage, v: json::JsonView) -> Option<StageReportView> {
    if !wire::only_has(v, known_members(stage)) {
        None
    } else {
        match (
            report::status_at(v, "status"@),
            wire::text_at(v, "summary"@),
            own_items(stage, v),
            own_unit(stage, v),
            wire::texts_or_none_at(v, "blockers"@),
            report::questions_at(v, "questions"@),
        ) {
            (
                Some(status),
                Some(summary),
                Some(items),
                Some(work_unit),
                Some(blockers),
                Some(questions),
            ) => Some(
                StageReportView { stage, status, summary, work_unit, items, blockers, questions },
            ),
            _ => None,
        }
    }
}

/// The list that is the stage's own.
pub open spec fn own_items(stage: Stage, v: json::JsonView) -> Option<Seq<Seq<char>>> {
    match items_key(stage) {
        Some(key) => wire::texts_or_none_at(v, key),
        None => Some(Seq::empty()),
    }
}

/// The unit of work, which only a plan names.
pub open spec fn own_unit(stage: Stage, v: json::JsonView) -> Option<Option<Seq<char>>> {
    if stage == Stage::Plan {
        wire::opt_text_at(v, "work_unit"@)
    } else {
        Some(None)
    }
}

impl StageReport {
    pub fn stage(&self) -> (r: Stage)
        ensures
            r == self@.stage,
    {
        match self {
            StageReport::Plan(_) => Stage::Plan,
            StageReport::Implement(_) => Stage::Implement,
            StageReport::Review(_) => Stage::Review,
            StageReport::Simplify(_) => Stage::Simplify,
            StageReport::Deliver(_) => Stage::Deliver,
        }
    }

    pub fn status(&self) -> (r: ReportStatus)
        ensures
            r == self@.status,
    {
        match self {
            StageReport::Plan(r) => r.status,
            StageReport::Implement(r) => r.status,
            StageReport::Review(r) => r.status,
            StageReport::Simplify(r) => r.status,
            StageReport::Deliver(r) => r.status,
        }
    }

    pub fn summary(&self) -> (s: &str)
        ensures
            s@ == self@.summary,
    {
        match self {
            StageReport::Plan(r) => r.summary.as_str(),
            StageReport::Implement(r) => r.summary.as_str(),
            StageReport::Review(r) => r.summary.as_str(),
            StageReport::Simplify(r) => r.summary.as_str(),
            StageReport::Deliver(r) => r.summary.as_str(),
        }
    }

    pub fn questions(&self) -> (r: &Vec<Question>)
        ensures
            report::question_views(r@) == self@.questions,
    {
        match self {
            StageReport::Plan(r) => &r.questions,
            StageReport::Implement(r) => &r.questions,
            StageReport::Review(r) => &r.questions,
            StageReport::Simplify(r) => &r.questions,
            StageReport::Deliver(r) => &r.questions,
        }
    }

    fn blockers(&self) -> (r: &Vec<String>)
        ensures
            text::texts(r@) == self@.blockers,
    {
        match self {
            StageReport::Plan(r) => &r.blockers,
            StageReport::Implement(r) => &r.blockers,
            StageReport::Review(r) => &r.blockers,
            StageReport::Simplify(r) => &r.blockers,
            StageReport::Deliver(r) => &r.blockers,
        }
    }

    /// The report as a document.
    pub fn to_json_value(&self) -> (r: Json)
        ensures
            r@ == json::JsonView::Object(report_fields(self@)),
    {
        let mut fields: Vec<(String, Json)> = Vec::new();
        proof {
            json::lemma_fields(fields@);
        }
        wire::put(&mut fields, "status", wire::text_json(self.status().as_str()));
        wire::put(&mut fields, "summary", wire::text_json(self.summary()));
        match self {
            StageReport::Plan(r) => {
                wire::put(&mut fields, "work_unit", wire::opt_text_json(&r.work_unit));
                wire::put(&mut fields, "steps", wire::texts_json(&r.steps));
            },
            StageReport::Implement(r) => {
                wire::put(&mut fields, "remaining", wire::texts_json(&r.remaining));
            },
            StageReport::Review(r) => {
                wire::put(&mut fields, "findings", wire::texts_json(&r.findings));
            },
            _ => {},
        }
        wire::put(&mut fields, "blockers", wire::texts_json(self.blockers()));
        wire::put(&mut fields, "questions", report::questions_to_json(self.questions()));
        Json::Object(fields)
    }

    /// The report as indented text.
    pub fn to_pretty_json(&self) -> (s: String)
        ensures
            s@ == json::pretty_printed(json::JsonView::Object(report_fields(self@))),
            json::quotes_plainly(json::JsonView::Object(report_fields(self@))),
    {
        self.to_json_value().to_pretty_text()
    }

    /// The report in a document, whatever else it holds.
    fn read(stage: Stage, v: &Json) -> (r: Option<StageReport>)
        ensures
            match r {
                Some(report) => wire::only_has(v@, known_members(stage)) ==> as_stage_report(
                    stage,
                    v@,
                ) == Some(report@),
                None => as_stage_report(stage, v@) is None,
            },
    {
        let status = report::read_status(v, "status")?;
        let summary = wire::read_text(v, "summary")?;
        let blockers = wire::read_texts_or_none(v, "blockers")?;
        let questions = report::read_questions(v, "questions")?;
        match stage {
            Stage::Plan => {
                let steps = wire::read_texts_or_none(v, "steps")?;
                let work_unit = wire::read_opt_text(v, "work_unit")?;
                Some(
                    StageReport::Plan(
                        PlanReport { status, summary, work_unit, steps, blockers, questions },
                    ),
                )
            },
            Stage::Implement => {
                let remaining = wire::read_texts_or_none(v, "remaining")?;
                Some(
                    StageReport::Implement(
                        ImplementReport { status, summary, remaining, blockers, questions },
                    ),
                )
            },
            Stage::Review => {
                let findings = wire::read_texts_or_none(v, "findings")?;
                Some(
                    StageReport::Review(
                        ReviewReport { status, summary, findings, blockers, questions },
                    ),
                )
            },
            Stage::Simplify => Some(
                StageReport::Simplify(SimplifyReport { status, summary, blockers, questions }),
            ),
            Stage::Deliver => Some(
                StageReport::Deliver(DeliverReport { status, summary, blockers, questions }),
            ),
        }
    }

    /// [`stage_report_fault`], computed.
    fn refusal(stage: Stage, v: &Json) -> (r: Option<String>)
        ensures
            wire::opt_text(r) == stage_report_fault(stage, v@),
    {
        let status = report::look_for_status(v, "status");
        let summary = fault::look_for_text(v, "summary");
        let blockers = fault::look_for_texts(v, "blockers", false);
        let questions = report::look_for_questions(v, "questions");
        let fields: Vec<Field> = match stage {
            Stage::Plan => vec![
                status,
                summary,
                fault::look_for_opt_text(v, "work_unit"),
                fault::look_for_texts(v, "steps", false),
                blockers,
                questions,
            ],
            Stage::Implement => vec![
                status,
                summary,
                fault::look_for_texts(v, "remaining", false),
                blockers,
                questions,
            ],
            Stage::Review => vec![
                status,
                summary,
                fault::look_for_texts(v, "findings", false),
                blockers,
                questions,
            ],
            _ => vec![status, summary, blockers, questions],
        };
        assert(fault::field_views(fields@) =~= known_fields(stage, v@));
        let expected = match stage {
            Stage::Plan => "struct PlanReport",
            Stage::Implement => "struct ImplementReport",
            Stage::Review => "struct ReviewReport",
            Stage::Simplify => "struct SimplifyReport",
            Stage::Deliver => "struct DeliverReport",
        };
        fault::look_over(v, expected, &fields, true)
    }

    /// Reads a stage's report from a document, strictly.
    pub fn from_json(stage: Stage, v: &Json) -> (r: Result<StageReport, String>)
        ensures
            match r {
                Ok(report) => as_stage_report(stage, v@) == Some(report@),
                Err(words) => as_stage_report(stage, v@) is None && stage_report_fault(stage, v@)
                    == Some(words@),
            },
    {
        proof {
            json::every_document_is_orderly(*v);
            lemma_stage_report(stage, v@);
        }
        match StageReport::refusal(stage, v) {
            Some(words) => Err(words),
            None => Ok(StageReport::read(stage, v).unwrap()),
        }
    }

    /// Reads a stage's report from the text its agent wrote, strictly.
    pub fn from_stage_json(stage: Stage, text: &str) -> (r: Result<StageReport, String>)
        ensures
            reads_report(stage, text@, r),
    {
        match Json::parse(text) {
            Ok(v) => StageReport::from_json(stage, &v),
            Err(error) => Err(error),
        }
    }
}

/// Whether `r` is how an agent's text reads as a stage's report: the report
/// it holds, what makes it no document, or what the document is refused for.
pub open spec fn reads_report(
    stage: Stage,
    text: Seq<char>,
    r: Result<StageReport, String>,
) -> bool {
    match (json::parsed(text), r) {
        (Some(v), Ok(report)) => as_stage_report(stage, v) == Some(report@),
        (Some(v), Err(words)) => as_stage_report(stage, v) is None && stage_report_fault(stage, v)
            == Some(words@),
        (None, Ok(_)) => false,
        (None, Err(words)) => words@ == json::malformed(text),
    }
}

/// What is known of the members of a stage's report.
pub open spec fn known_fields(stage: Stage, v: json::JsonView) -> Seq<FieldView> {
    let status = report::status_field(v, "status"@);
    let summary = fault::text_field(v, "summary"@);
    let blockers = fault::texts_field(v, "blockers"@, false);
    let questions = report::questions_field(v, "questions"@);
    match stage {
        Stage::Plan => seq![
            status,
            summary,
            fault::opt_text_field(v, "work_unit"@),
            fault::texts_field(v, "steps"@, false),
            blockers,
            questions,
        ],
        Stage::Implement => seq![
            status,
            summary,
            fault::texts_field(v, "remaining"@, false),
            blockers,
            questions,
        ],
        Stage::Review => seq![
            status,
            summary,
            fault::texts_field(v, "findings"@, false),
            blockers,
            questions,
        ],
        _ => seq![status, summary, blockers, questions],
    }
}

/// What a document is expected to be where it is to be a stage's report.
pub open spec fn expected_report(stage: Stage) -> Seq<char> {
    match stage {
        Stage::Plan => "struct PlanReport"@,
        Stage::Implement => "struct ImplementReport"@,
        Stage::Review => "struct ReviewReport"@,
        Stage::Simplify => "struct SimplifyReport"@,
        Stage::Deliver => "struct DeliverReport"@,
    }
}

/// What is wrong with a document that is to be a stage's report.
pub open spec fn stage_report_fault(stage: Stage, v: json::JsonView) -> Option<Seq<char>> {
    fault::record_fault(v, expected_report(stage), known_fields(stage, v), true)
}

/// What is wrong with a document that holds no report of the stage.
pub open spec fn no_report(stage: Stage, v: json::JsonView) -> Seq<char> {
    match stage_report_fault(stage, v) {
        Some(words) => words,
        None => Seq::empty(),
    }
}

/// A document is refused exactly where it holds no report of the stage.
pub proof fn lemma_stage_report(stage: Stage, v: json::JsonView)
    requires
        json::orderly(v),
    ensures
        stage_report_fault(stage, v) is None <==> as_stage_report(stage, v) is Some,
{
    let fields = known_fields(stage, v);
    fault::lemma_record(v, expected_report(stage), fields, true);
    report::lemma_status_field(v, "status"@);
    report::lemma_questions_field(v, "questions"@);
    if let Some(list) = json::member(v, "blockers"@) {
        fault::lemma_texts_fault(list);
    }
    if let Some(key) = items_key(stage) {
        if let Some(list) = json::member(v, key) {
            fault::lemma_texts_fault(list);
        }
    }
    assert(fault::keys(fields) =~= known_members(stage));
    let sound = |i: int| fault::sound(v, fields[i]);
    match stage {
        Stage::Plan => {
            assert(fault::all_sound(v, fields) <==> sound(0) && sound(1) && sound(2) && sound(3)
                && sound(4) && sound(5));
        },
        Stage::Implement | Stage::Review => {
            assert(fault::all_sound(v, fields) <==> sound(0) && sound(1) && sound(2) && sound(3)
                && sound(4));
        },
        _ => {
            assert(fault::all_sound(v, fields) <==> sound(0) && sound(1) && sound(2) && sound(3));
        },
    }
}

/// Whether a view is one that a report of its stage can have: only a plan
/// names a unit of work, and a stage without a list of its own has no items.
pub open spec fn proper(r: StageReportView) -> bool {
    &&& r.stage != Stage::Plan ==> r.work_unit is None
    &&& items_key(r.stage) is None ==> r.items.len() == 0
}

/// A report written as a document reads back as it was.
pub proof fn stage_reports_read_back(r: StageReportView)
    requires
        proper(r),
    ensures
        as_stage_report(r.stage, json::JsonView::Object(report_fields(r))) == Some(r),
{
    lemma_members_differ();
    report::lemma_status_word_names_it(r.status);
    report::lemma_questions_read_back(r.questions);
    wire::lemma_texts_read_back(r.items);
    wire::lemma_texts_read_back(r.blockers);
    let known = known_members(r.stage);
    let fields = report_fields(r);
    assert(known[0] == "status"@ && known[1] == "summary"@);
    match r.stage {
        Stage::Plan => {
            assert(known[2] == "work_unit"@ && known[3] == "steps"@ && known[4] == "blockers"@
                && known[5] == "questions"@);
        },
        Stage::Implement => {
            assert(known[2] == "remaining"@ && known[3] == "blockers"@ && known[4]
                == "questions"@);
        },
        Stage::Review => {
            assert(known[2] == "findings"@ && known[3] == "blockers"@ && known[4]
                == "questions"@);
        },
        _ => {
            assert(known[2] == "blockers"@ && known[3] == "questions"@);
            assert(r.items =~= Seq::empty());
        },
    }
    assert forall|k: Seq<char>| fields.dom().contains(k) implies #[trigger] known.contains(k) by {
        assert(known.len() >= 4);
    }
}

/// Every report's view is one that a report of its stage can have.
pub proof fn lemma_proper(report: StageReport)
    ensures
        proper(report@),
{
    assert(text::texts(Seq::<String>::empty()) =~= Seq::empty());
}

/// Where a report, written as a document, says that the work stands.
pub proof fn lemma_status_member(r: StageReportView)
    ensures
        wire::text_at(json::JsonView::Object(report_fields(r)), "status"@) == Some(
            r.status.word(),
        ),
{
    lemma_members_differ();
}

proof fn lemma_members_differ()
    ensures
        "status"@.len() == 6,
        "summary"@.len() == 7,
        "blockers"@.len() == 8,
        "blockers"@[0] == 'b',
        "questions"@.len() == 9,
        "questions"@[0] == 'q',
        "steps"@.len() == 5,
        "work_unit"@.len() == 9,
        "work_unit"@[0] == 'w',
        "remaining"@.len() == 9,
        "remaining"@[0] == 'r',
        "findings"@.len() == 8,
        "findings"@[0] == 'f',
{
    reveal_strlit("status");
    reveal_strlit("summary");
    reveal_strlit("blockers");
    reveal_strlit("questions");
    reveal_strlit("steps");
    reveal_strlit("work_unit");
    reveal_strlit("remaining");
    reveal_strlit("findings");
}

/// A stage is its own report contract: its schema and the strict dialect
/// parse.
impl ReportContract for Stage {
    type Report = StageReport;

    open spec fn shape(&self) -> Seq<char> {
        crate::pipeline::assets::schema_text(*self)
    }

    open spec fn reads(&self, text: Seq<char>, r: Result<StageReport, String>) -> bool {
        reads_report(*self, text, r)
    }

    fn schema(&self) -> (s: &str) {
        crate::pipeline::assets::report_schema(*self)
    }

    fn parse(&self, text: &str) -> (r: Result<StageReport, String>) {
        StageReport::from_stage_json(*self, text)
    }
}

} // verus!
