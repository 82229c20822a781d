//! The progress report of the single-prompt loop, as an agent writes it and
//! as it appears in streamed events. The agent's own text is read strictly;
//! the wire is read leniently about unknown members, so older clients
//! survive newer daemons.

use crate::fault::{self, FieldView};
use crate::json::{self, Json};
use crate::report::{self, Question, ReportStatus};
use crate::text;
use crate::wire;
use vstd::prelude::*;

verus! {

/// The agent's claim about where the loop stands. `done` is a claim the
/// engine independently verifies, never a verdict.
#[derive(Debug, Clone, Copy, PartialEq, Eq, Structural)]
pub enum ProgressStatus {
    Continue,
    Done,
    Blocked,
    NeedsInput,
}

impl ProgressStatus {
    /// The shared status that says the same.
    pub open spec fn shared(self) -> ReportStatus {
        match self {
            ProgressStatus::Continue => ReportStatus::Continue,
            ProgressStatus::Done => ReportStatus::Done,
            ProgressStatus::Blocked => ReportStatus::Blocked,
            ProgressStatus::NeedsInput => ReportStatus::NeedsInput,
        }
    }

    /// [`ProgressStatus::shared`], computed.
    pub fn as_shared(&self) -> (r: ReportStatus)
        ensures
            r == self.shared(),
    {
        match self {
            ProgressStatus::Continue => ReportStatus::Continue,
            ProgressStatus::Done => ReportStatus::Done,
            ProgressStatus::Blocked => ReportStatus::Blocked,
            ProgressStatus::NeedsInput => ReportStatus::NeedsInput,
        }
    }

    /// The word the wire format has for the status.
    pub fn as_str(&self) -> (s: &'static str)
        ensures
            s@ == self.shared().word(),
    {
        self.as_shared().as_str()
    }
}

/// The progress status that says the same as a shared one.
pub open spec fn progress_of(status: ReportStatus) -> ProgressStatus {
    match status {
        ReportStatus::Continue => ProgressStatus::Continue,
        ReportStatus::Done => ProgressStatus::Done,
        ReportStatus::Blocked => ProgressStatus::Blocked,
        ReportStatus::NeedsInput => ProgressStatus::NeedsInput,
    }
}

/// [`progress_of`], computed.
pub fn from_shared(status: ReportStatus) -> (r: ProgressStatus)
    ensures
        r == progress_of(status),
{
    match status {
        ReportStatus::Continue => ProgressStatus::Continue,
        ReportStatus::Done => ProgressStatus::Done,
        ReportStatus::Blocked => ProgressStatus::Blocked,
        ReportStatus::NeedsInput => ProgressStatus::NeedsInput,
    }
}

/// What the agent declared at the end of an iteration.
#[derive(Debug, PartialEq, Eq)]
pub struct ProgressReport {
    pub status: ProgressStatus,
    /// What happened this iteration, in the agent's words.
    pub summary: String,
    pub remaining: Vec<String>,
    pub blockers: Vec<String>,
    /// Present when the status is `needs_input`.
    pub questions: Vec<Question>,
}

/// What a progress report says.
#[verifier::ext_equal]
pub ghost struct ProgressView {
    pub status: ProgressStatus,
    pub summary: Seq<char>,
    pub remaining: Seq<Seq<char>>,
    pub blockers: Seq<Seq<char>>,
    pub questions: Seq<report::QuestionView>,
}

impl View for ProgressReport {
    type V = ProgressView;

    open spec fn view(&self) -> ProgressView {
        ProgressView {
            status: self.status,
            summary: self.summary@,
            remaining: text::texts(self.remaining@),
            blockers: text::texts(self.blockers@),
            questions: report::question_views(self.questions@),
        }
    }
}

/// The members of the object that stands for a progress report.
pub open spec fn progress_fields(r: ProgressView) -> json::Members {
    json::Members::empty().insert("status"@, json::JsonView::Str(r.status.shared().word())).insert(
        "summary"@,
        json::JsonView::Str(r.summary),
    ).insert("remaining"@, wire::texts_view(r.remaining)).insert(
        "blockers"@,
        wire::texts_view(r.blockers),
    ).insert("questions"@, report::questions_json(r.questions))
}

/// The report a document holds. Lists may be left out, and members it does
/// not know are passed over.
pub open spec fn as_progress(v: json::JsonView) -> Option<ProgressView> {
    match (
        report::status_at(v, "status"@),
        wire::text_at(v, "summary"@),
        wire::texts_or_none_at(v, "remaining"@),
        wire::texts_or_none_at(v, "blockers"@),
        report::questions_at(v, "questions"@),
    ) {
        (Some(status), Some(summary), Some(remaining), Some(blockers), Some(questions)) => Some(
            ProgressView {
                status: progress_of(status),
                summary,
                remaining,
                blockers,
                questions,
            },
        ),
        _ => None,
    }
}

/// The members a progress report may have where it is read strictly.
pub open spec fn progress_members() -> Seq<Seq<char>> {
    seq!["status"@, "summary"@, "remaining"@, "blockers"@, "questions"@]
}

/// The report a document holds, read strictly.
pub open spec fn as_agent_progress(v: json::JsonView) -> Option<ProgressView> {
    if wire::only_has(v, progress_members()) {
        as_progress(v)
    } else {
        None
    }
}

impl ProgressReport {
    /// The report as a document.
    pub fn to_json(&self) -> (r: Json)
        ensures
            r@ == json::JsonView::Object(progress_fields(self@)),
    {
        let mut fields: Vec<(String, Json)> = Vec::new();
        proof {
            json::lemma_fields(fields@);
        }
        wire::put(&mut fields, "status", wire::text_json(self.status.as_str()));
        wire::put(&mut fields, "summary", wire::text_json(self.summary.as_str()));
        wire::put(&mut fields, "remaining", wire::texts_json(&self.remaining));
        wire::put(&mut fields, "blockers", wire::texts_json(&self.blockers));
        wire::put(&mut fields, "questions", report::questions_to_json(&self.questions));
        Json::Object(fields)
    }

    /// [`as_progress`], computed.
    fn read(v: &Json) -> (r: Option<ProgressReport>)
        ensures
            match r {
                Some(report) => as_progress(v@) == Some(report@),
                None => as_progress(v@) is None,
            },
    {
        let status = report::read_status(v, "status")?;
        let summary = wire::read_text(v, "summary")?;
        let remaining = wire::read_texts_or_none(v, "remaining")?;
        let blockers = wire::read_texts_or_none(v, "blockers")?;
        let questions = report::read_questions(v, "questions")?;
        Some(
            ProgressReport {
                status: from_shared(status),
                summary,
                remaining,
                blockers,
                questions,
            },
        )
    }

    /// [`progress_fault`], computed.
    fn refusal(v: &Json, strict: bool) -> (r: Option<String>)
        ensures
            wire::opt_text(r) == progress_fault(v@, strict),
    {
        let fields = vec![
            report::look_for_status(v, "status"),
            fault::look_for_text(v, "summary"),
            fault::look_for_texts(v, "remaining", false),
            fault::look_for_texts(v, "blockers", false),
            report::look_for_questions(v, "questions"),
        ];
        assert(fault::field_views(fields@) =~= progress_known(v@));
        fault::look_over(v, "struct ProgressReport", &fields, strict)
    }

    /// Reads a report off the wire, leniently.
    pub fn from_json(v: &Json) -> (r: Result<ProgressReport, String>)
        ensures
            match r {
                Ok(report) => as_progress(v@) == Some(report@),
                Err(words) => as_progress(v@) is None && progress_fault(v@, false) == Some(words@),
            },
    {
        proof {
            json::every_document_is_orderly(*v);
            lemma_progress(v@);
        }
        match ProgressReport::refusal(v, false) {
            Some(words) => Err(words),
            None => Ok(ProgressReport::read(v).unwrap()),
        }
    }

    /// Reads a report from the text its agent wrote, strictly.
    pub fn from_agent_json(text: &str) -> (r: Result<ProgressReport, String>)
        ensures
            reads_progress(text@, r),
    {
        let v = match Json::parse(text) {
            Ok(v) => v,
            Err(error) => return Err(error),
        };
        proof {
            json::every_document_is_orderly(v);
            lemma_progress(v@);
        }
        match ProgressReport::refusal(&v, true) {
            Some(words) => Err(words),
            None => Ok(ProgressReport::read(&v).unwrap()),
        }
    }
}

/// Whether `r` is how an agent's text reads as a progress report: the report
/// it holds, what makes it no document, or what the document is refused for.
pub open spec fn reads_progress(text: Seq<char>, r: Result<ProgressReport, String>) -> bool {
    match (json::parsed(text), r) {
        (Some(v), Ok(report)) => as_agent_progress(v) == Some(report@),
        (Some(v), Err(words)) => as_agent_progress(v) is None && progress_fault(v, true) == Some(
            words@,
        ),
        (None, Ok(_)) => false,
        (None, Err(words)) => words@ == json::malformed(text),
    }
}

/// What is known of the members of a progress report.
pub open spec fn progress_known(v: json::JsonView) -> Seq<FieldView> {
    seq![
        report::status_field(v, "status"@),
        fault::text_field(v, "summary"@),
        fault::texts_field(v, "remaining"@, false),
        fault::texts_field(v, "blockers"@, false),
        report::questions_field(v, "questions"@),
    ]
}

/// What is wrong with a document that is to be a progress report.
pub open spec fn progress_fault(v: json::JsonView, strict: bool) -> Option<Seq<char>> {
    fault::record_fault(v, "struct ProgressReport"@, progress_known(v), strict)
}

/// A document is refused exactly where it holds no progress report.
pub proof fn lemma_progress(v: json::JsonView)
    requires
        json::orderly(v),
    ensures
        progress_fault(v, false) is None <==> as_progress(v) is Some,
        progress_fault(v, true) is None <==> as_agent_progress(v) is Some,
{
    let fields = progress_known(v);
    fault::lemma_record(v, "struct ProgressReport"@, fields, false);
    fault::lemma_record(v, "struct ProgressReport"@, fields, true);
    report::lemma_status_field(v, "status"@);
    report::lemma_questions_field(v, "questions"@);
    if let Some(list) = json::member(v, "remaining"@) {
        fault::lemma_texts_fault(list);
    }
    if let Some(list) = json::member(v, "blockers"@) {
        fault::lemma_texts_fault(list);
    }
    assert(fault::keys(fields) =~= progress_members());
    assert(fault::all_sound(v, fields) <==> fault::sound(v, fields[0]) && fault::sound(
        v,
        fields[1],
    ) && fault::sound(v, fields[2]) && fault::sound(v, fields[3]) && fault::sound(v, fields[4]));
}

/// A progress report written as a document reads back as it was, strictly
/// and leniently.
pub proof fn progress_reports_read_back(r: ProgressView)
    ensures
        as_progress(json::JsonView::Object(progress_fields(r))) == Some(r),
        as_agent_progress(json::JsonView::Object(progress_fields(r))) == Some(r),
{
    reveal_strlit("status");
    reveal_strlit("summary");
    reveal_strlit("remaining");
    reveal_strlit("blockers");
    reveal_strlit("questions");
    assert("status"@.len() == 6 && "summary"@.len() == 7 && "remaining"@.len() == 9
        && "blockers"@.len() == 8 && "questions"@.len() == 9);
    assert("remaining"@[0] == 'r' && "questions"@[0] == 'q');
    report::lemma_status_word_names_it(r.status.shared());
    report::lemma_questions_read_back(r.questions);
    wire::lemma_texts_read_back(r.remaining);
    wire::lemma_texts_read_back(r.blockers);
    let known = progress_members();
    assert(known[0] == "status"@ && known[1] == "summary"@ && known[2] == "remaining"@ && known[3]
        == "blockers"@ && known[4] == "questions"@);
    let fields = progress_fields(r);
    assert forall|k: Seq<char>| fields.dom().contains(k) implies #[trigger] known.contains(k) by {
        assert(known.len() == 5);
    }
}

} // verus!
