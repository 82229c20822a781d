//! Request and response bodies for the daemon's commands.

use crate::fault::{self, Field, FieldView};
use crate::json::{self, Json};
use crate::report::{self, Answer, Question};
use crate::run::{self, RunState};
use crate::text;
use crate::wire;
use vstd::prelude::*;

verus! {

/// Submit a flow for execution as a new run.
#[derive(Debug, Clone, PartialEq, Eq)]
pub struct SubmitRunRequest {
    /// The flow file, verbatim. Sent as text so the daemon is the single
    /// validator; clients may check it first but never re-encode it.
    pub flow: String,
}

/// A submission as a document.
pub open spec fn submission_json(flow: Seq<char>) -> json::JsonView {
    json::JsonView::Object(json::Members::empty().insert("flow"@, json::JsonView::Str(flow)))
}

impl SubmitRunRequest {
    pub fn to_json(&self) -> (r: Json)
        ensures
            r@ == submission_json(self.flow@),
    {
        let mut fields: Vec<(String, Json)> = Vec::new();
        wire::put(&mut fields, "flow", wire::text_json(self.flow.as_str()));
        Json::Object(fields)
    }

    /// The submission in a document.
    fn read(v: &Json) -> (r: Option<SubmitRunRequest>)
        ensures
            match r {
                Some(read) => wire::text_at(v@, "flow"@) == Some(read.flow@),
                None => wire::text_at(v@, "flow"@) is None,
            },
    {
        let flow = wire::read_text(v, "flow")?;
        Some(SubmitRunRequest { flow })
    }

    /// [`submission_fault`], computed.
    fn refusal(v: &Json) -> (r: Option<String>)
        ensures
            wire::opt_text(r) == submission_fault(v@),
    {
        let fields = vec![fault::look_for_text(v, "flow")];
        assert(fault::field_views(fields@) =~= submission_known(v@));
        fault::look_over(v, "struct SubmitRunRequest", &fields, false)
    }

    pub fn from_json(v: &Json) -> (r: Result<SubmitRunRequest, String>)
        ensures
            match r {
                Ok(read) => wire::text_at(v@, "flow"@) == Some(read.flow@),
                Err(words) => wire::text_at(v@, "flow"@) is None && submission_fault(v@) == Some(words@),
            },
    {
        proof {
            json::every_document_is_orderly(*v);
            lemma_submission(v@);
        }
        match SubmitRunRequest::refusal(v) {
            Some(words) => Err(words),
            None => Ok(SubmitRunRequest::read(v).unwrap()),
        }
    }
}

/// What is known of the members of a submission.
pub open spec fn submission_known(v: json::JsonView) -> Seq<FieldView> {
    seq![fault::text_field(v, "flow"@)]
}

/// What is wrong with a document that is to be a submission.
pub open spec fn submission_fault(v: json::JsonView) -> Option<Seq<char>> {
    fault::record_fault(v, "struct SubmitRunRequest"@, submission_known(v), false)
}

/// A document is refused exactly where it is not a submission.
pub proof fn lemma_submission(v: json::JsonView)
    requires
        json::orderly(v),
    ensures
        submission_fault(v) is None <==> wire::text_at(v, "flow"@) is Some,
{
    let fields = submission_known(v);
    fault::lemma_record(v, "struct SubmitRunRequest"@, fields, false);
    assert(fault::all_sound(v, fields) <==> fault::sound(v, fields[0]));
}

/// A submitted flow arrives verbatim.
pub proof fn submissions_read_back(flow: Seq<char>)
    ensures
        wire::text_at(submission_json(flow), "flow"@) == Some(flow),
{
}

/// What a submission is answered with.
#[derive(Debug, Clone, PartialEq, Eq)]
pub struct SubmitRunResponse {
    pub run_id: String,
}

/// The answer to a submission as a document.
pub open spec fn submitted_json(run_id: Seq<char>) -> json::JsonView {
    json::JsonView::Object(json::Members::empty().insert("run_id"@, json::JsonView::Str(run_id)))
}

impl SubmitRunResponse {
    pub fn to_json(&self) -> (r: Json)
        ensures
            r@ == submitted_json(self.run_id@),
    {
        let mut fields: Vec<(String, Json)> = Vec::new();
        wire::put(&mut fields, "run_id", wire::text_json(self.run_id.as_str()));
        Json::Object(fields)
    }

    /// The answer in a document.
    fn read(v: &Json) -> (r: Option<SubmitRunResponse>)
        ensures
            match r {
                Some(read) => wire::text_at(v@, "run_id"@) == Some(read.run_id@),
                None => wire::text_at(v@, "run_id"@) is None,
            },
    {
        let run_id = wire::read_text(v, "run_id")?;
        Some(SubmitRunResponse { run_id })
    }

    /// [`submitted_fault`], computed.
    fn refusal(v: &Json) -> (r: Option<String>)
        ensures
            wire::opt_text(r) == submitted_fault(v@),
    {
        let fields = vec![fault::look_for_text(v, "run_id")];
        assert(fault::field_views(fields@) =~= submitted_known(v@));
        fault::look_over(v, "struct SubmitRunResponse", &fields, false)
    }

    pub fn from_json(v: &Json) -> (r: Result<SubmitRunResponse, String>)
        ensures
            match r {
                Ok(read) => wire::text_at(v@, "run_id"@) == Some(read.run_id@),
                Err(words) => wire::text_at(v@, "run_id"@) is None && submitted_fault(v@) == Some(words@),
            },
    {
        proof {
            json::every_document_is_orderly(*v);
            lemma_submitted(v@);
        }
        match SubmitRunResponse::refusal(v) {
            Some(words) => Err(words),
            None => Ok(SubmitRunResponse::read(v).unwrap()),
        }
    }
}

/// What is known of the members of the answer to a submission.
pub open spec fn submitted_known(v: json::JsonView) -> Seq<FieldView> {
    seq![fault::text_field(v, "run_id"@)]
}

/// What is wrong with a document that is to be the answer to a submission.
pub open spec fn submitted_fault(v: json::JsonView) -> Option<Seq<char>> {
    fault::record_fault(v, "struct SubmitRunResponse"@, submitted_known(v), false)
}

/// A document is refused exactly where it is not the answer to a submission.
pub proof fn lemma_submitted(v: json::JsonView)
    requires
        json::orderly(v),
    ensures
        submitted_fault(v) is None <==> wire::text_at(v, "run_id"@) is Some,
{
    let fields = submitted_known(v);
    fault::lemma_record(v, "struct SubmitRunResponse"@, fields, false);
    assert(fault::all_sound(v, fields) <==> fault::sound(v, fields[0]));
}

/// The answer to a submission reads back as it was.
pub proof fn submitted_runs_read_back(run_id: Seq<char>)
    ensures
        wire::text_at(submitted_json(run_id), "run_id"@) == Some(run_id),
{
}

/// One line of the run list: enough to see what a run is and where it
/// stands, nothing more.
#[derive(Debug, Clone, PartialEq, Eq)]
pub struct RunSummary {
    pub run_id: String,
    /// Flat on the wire: `"state": "paused", "reason": "budget"` sit directly
    /// on the summary object.
    pub state: RunState,
    pub kernel: String,
    pub agent: String,
    /// RFC 3339 UTC timestamp.
    pub created_at: String,
    /// RFC 3339 UTC timestamp of the last event.
    pub updated_at: String,
}

/// What a summary says.
#[verifier::ext_equal]
pub ghost struct SummaryView {
    pub run_id: Seq<char>,
    pub state: RunState,
    pub kernel: Seq<char>,
    pub agent: Seq<char>,
    pub created_at: Seq<char>,
    pub updated_at: Seq<char>,
}

impl View for RunSummary {
    type V = SummaryView;

    open spec fn view(&self) -> SummaryView {
        SummaryView {
            run_id: self.run_id@,
            state: self.state,
            kernel: self.kernel@,
            agent: self.agent@,
            created_at: self.created_at@,
            updated_at: self.updated_at@,
        }
    }
}

/// The members of an object that carries a summary flat, beside those it has
/// already.
pub open spec fn summary_onto(s: SummaryView, fields: json::Members) -> json::Members {
    s.state.onto(fields.insert("run_id"@, json::JsonView::Str(s.run_id))).insert(
        "kernel"@,
        json::JsonView::Str(s.kernel),
    ).insert("agent"@, json::JsonView::Str(s.agent)).insert(
        "created_at"@,
        json::JsonView::Str(s.created_at),
    ).insert("updated_at"@, json::JsonView::Str(s.updated_at))
}

/// A summary as a document.
pub open spec fn summary_json(s: SummaryView) -> json::JsonView {
    json::JsonView::Object(summary_onto(s, json::Members::empty()))
}

/// The summary that an object carries flat.
pub open spec fn as_summary(v: json::JsonView) -> Option<SummaryView> {
    match (
        wire::text_at(v, "run_id"@),
        run::as_state(v),
        wire::text_at(v, "kernel"@),
        wire::text_at(v, "agent"@),
        wire::text_at(v, "created_at"@),
        wire::text_at(v, "updated_at"@),
    ) {
        (
            Some(run_id),
            Some(state),
            Some(kernel),
            Some(agent),
            Some(created_at),
            Some(updated_at),
        ) => Some(SummaryView { run_id, state, kernel, agent, created_at, updated_at }),
        _ => None,
    }
}

proof fn lemma_summary_members()
    ensures
        "run_id"@.len() == 6,
        "kernel"@.len() == 6,
        "agent"@.len() == 5,
        "created_at"@.len() == 10,
        "updated_at"@.len() == 10,
        "state"@.len() == 5,
        "reason"@.len() == 6,
        "run_id"@[1] == 'u',
        "reason"@[1] == 'e',
        "run_id"@[0] == 'r',
        "reason"@[0] == 'r',
        "kernel"@[0] == 'k',
        "agent"@[0] == 'a',
        "state"@[0] == 's',
        "created_at"@[0] == 'c',
        "updated_at"@[0] == 'u',
{
    reveal_strlit("run_id");
    reveal_strlit("kernel");
    reveal_strlit("agent");
    reveal_strlit("created_at");
    reveal_strlit("updated_at");
    reveal_strlit("state");
    reveal_strlit("reason");
}

/// A summary carried flat on an object reads back as it was, whatever else
/// the object carries.
pub proof fn summaries_read_back(s: SummaryView, fields: json::Members)
    ensures
        as_summary(json::JsonView::Object(summary_onto(s, fields))) == Some(s),
{
    lemma_summary_members();
    let stated = s.state.onto(fields.insert("run_id"@, json::JsonView::Str(s.run_id)));
    run::states_read_back(s.state, fields.insert("run_id"@, json::JsonView::Str(s.run_id)));
    let all = summary_onto(s, fields);
    assert(json::lookup(all, "state"@) == json::lookup(stated, "state"@));
    assert(json::lookup(all, "reason"@) == json::lookup(stated, "reason"@));
}

impl RunSummary {
    /// [`summary_onto`], computed.
    fn put_onto(&self, fields: &mut Vec<(String, Json)>)
        ensures
            json::fields_view(final(fields)@) == summary_onto(
                self@,
                json::fields_view(old(fields)@),
            ),
    {
        wire::put(fields, "run_id", wire::text_json(self.run_id.as_str()));
        self.state.put_onto(fields);
        wire::put(fields, "kernel", wire::text_json(self.kernel.as_str()));
        wire::put(fields, "agent", wire::text_json(self.agent.as_str()));
        wire::put(fields, "created_at", wire::text_json(self.created_at.as_str()));
        wire::put(fields, "updated_at", wire::text_json(self.updated_at.as_str()));
    }

    pub fn to_json(&self) -> (r: Json)
        ensures
            r@ == summary_json(self@),
    {
        let mut fields: Vec<(String, Json)> = Vec::new();
        proof {
            json::lemma_fields(fields@);
        }
        self.put_onto(&mut fields);
        Json::Object(fields)
    }

    /// [`as_summary`], computed.
    fn read(v: &Json) -> (r: Option<RunSummary>)
        ensures
            match r {
                Some(read) => as_summary(v@) == Some(read@),
                None => as_summary(v@) is None,
            },
    {
        let run_id = wire::read_text(v, "run_id")?;
        let state = RunState::read(v)?;
        let kernel = wire::read_text(v, "kernel")?;
        let agent = wire::read_text(v, "agent")?;
        let created_at = wire::read_text(v, "created_at")?;
        let updated_at = wire::read_text(v, "updated_at")?;
        Some(RunSummary { run_id, state, kernel, agent, created_at, updated_at })
    }

    /// [`summary_fault`], computed.
    fn refusal(v: &Json) -> (r: Option<String>)
        ensures
            wire::opt_text(r) == summary_fault(v@),
    {
        let fields = vec![
            fault::look_for_text(v, "run_id"),
            fault::look_for_text(v, "kernel"),
            fault::look_for_text(v, "agent"),
            fault::look_for_text(v, "created_at"),
            fault::look_for_text(v, "updated_at"),
        ];
        assert(fault::field_views(fields@) =~= summary_known(v@));
        let fault = fault::look_over(v, "struct RunSummary", &fields, false);
        if fault.is_some() {
            return fault;
        }
        RunState::refusal(v)
    }

    /// Reads the summary that an object carries flat.
    pub fn from_json(v: &Json) -> (r: Result<RunSummary, String>)
        ensures
            match r {
                Ok(read) => as_summary(v@) == Some(read@),
                Err(words) => as_summary(v@) is None && summary_fault(v@) == Some(words@),
            },
    {
        proof {
            json::every_document_is_orderly(*v);
            lemma_summary(v@);
        }
        match RunSummary::refusal(v) {
            Some(words) => Err(words),
            None => Ok(RunSummary::read(v).unwrap()),
        }
    }
}

/// What is known of the members of a summary.
pub open spec fn summary_known(v: json::JsonView) -> Seq<FieldView> {
    seq![
        fault::text_field(v, "run_id"@),
        fault::text_field(v, "kernel"@),
        fault::text_field(v, "agent"@),
        fault::text_field(v, "created_at"@),
        fault::text_field(v, "updated_at"@),
    ]
}

/// What is wrong with a document that is to be a summary.
pub open spec fn summary_fault(v: json::JsonView) -> Option<Seq<char>> {
    fault::or_else(
        fault::record_fault(v, "struct RunSummary"@, summary_known(v), false),
        run::state_fault(v),
    )
}

/// A document is refused exactly where it is not a summary.
pub proof fn lemma_summary(v: json::JsonView)
    requires
        json::orderly(v),
    ensures
        summary_fault(v) is None <==> as_summary(v) is Some,
{
    let fields = summary_known(v);
    fault::lemma_record(v, "struct RunSummary"@, fields, false);
    run::lemma_state(v);
    assert(fault::all_sound(v, fields) <==> fault::sound(v, fields[0]) && fault::sound(v, fields[1]) && fault::sound(v, fields[2]) && fault::sound(v, fields[3]) && fault::sound(v, fields[4]));
}

/// The one value [`UnreadableRun::state`] ever holds. A type, not a string,
/// so the wire literal is pinned where the shape is defined.
#[derive(Debug, Clone, Copy, PartialEq, Eq)]
pub enum UnreadableState {
    Unreadable,
}

/// A run that exists but cannot be read: its metadata is intact, but
/// projecting its event log failed, so it has no state to report.
#[derive(Debug, Clone, PartialEq, Eq)]
pub struct UnreadableRun {
    pub run_id: String,
    /// Always `"unreadable"`: what tells this entry from a run summary.
    pub state: UnreadableState,
    /// Human-readable description of what failed; never parse this. Names
    /// files within the run's directory, never a daemon-side path.
    pub reason: String,
    pub kernel: String,
    pub agent: String,
    /// RFC 3339 UTC timestamp.
    pub created_at: String,
}

/// What an unreadable entry says.
#[verifier::ext_equal]
pub ghost struct UnreadableView {
    pub run_id: Seq<char>,
    pub reason: Seq<char>,
    pub kernel: Seq<char>,
    pub agent: Seq<char>,
    pub created_at: Seq<char>,
}

impl View for UnreadableRun {
    type V = UnreadableView;

    open spec fn view(&self) -> UnreadableView {
        UnreadableView {
            run_id: self.run_id@,
            reason: self.reason@,
            kernel: self.kernel@,
            agent: self.agent@,
            created_at: self.created_at@,
        }
    }
}

/// An unreadable entry as a document.
pub open spec fn unreadable_json(u: UnreadableView) -> json::JsonView {
    json::JsonView::Object(
        json::Members::empty().insert("run_id"@, json::JsonView::Str(u.run_id)).insert(
            "state"@,
            json::JsonView::Str("unreadable"@),
        ).insert("reason"@, json::JsonView::Str(u.reason)).insert(
            "kernel"@,
            json::JsonView::Str(u.kernel),
        ).insert("agent"@, json::JsonView::Str(u.agent)).insert(
            "created_at"@,
            json::JsonView::Str(u.created_at),
        ),
    )
}

/// The unreadable entry a document holds.
pub open spec fn as_unreadable(v: json::JsonView) -> Option<UnreadableView> {
    if wire::text_at(v, "state"@) != Some("unreadable"@) {
        None
    } else {
        match (
            wire::text_at(v, "run_id"@),
            wire::text_at(v, "reason"@),
            wire::text_at(v, "kernel"@),
            wire::text_at(v, "agent"@),
            wire::text_at(v, "created_at"@),
        ) {
            (Some(run_id), Some(reason), Some(kernel), Some(agent), Some(created_at)) => Some(
                UnreadableView { run_id, reason, kernel, agent, created_at },
            ),
            _ => None,
        }
    }
}

/// An unreadable entry written as a document reads back as it was.
pub proof fn unreadable_runs_read_back(u: UnreadableView)
    ensures
        as_unreadable(unreadable_json(u)) == Some(u),
{
    lemma_summary_members();
}

impl UnreadableRun {
    pub fn to_json(&self) -> (r: Json)
        ensures
            r@ == unreadable_json(self@),
    {
        let mut fields: Vec<(String, Json)> = Vec::new();
        wire::put(&mut fields, "run_id", wire::text_json(self.run_id.as_str()));
        match self.state {
            UnreadableState::Unreadable => {
                wire::put(&mut fields, "state", wire::text_json("unreadable"));
            },
        }
        wire::put(&mut fields, "reason", wire::text_json(self.reason.as_str()));
        wire::put(&mut fields, "kernel", wire::text_json(self.kernel.as_str()));
        wire::put(&mut fields, "agent", wire::text_json(self.agent.as_str()));
        wire::put(&mut fields, "created_at", wire::text_json(self.created_at.as_str()));
        Json::Object(fields)
    }

    /// [`as_unreadable`], computed.
    fn read(v: &Json) -> (r: Option<UnreadableRun>)
        ensures
            match r {
                Some(read) => as_unreadable(v@) == Some(read@),
                None => as_unreadable(v@) is None,
            },
    {
        let word = wire::read_text(v, "state")?;
        if !text::same(word.as_str(), "unreadable") {
            return None;
        }
        let run_id = wire::read_text(v, "run_id")?;
        let reason = wire::read_text(v, "reason")?;
        let kernel = wire::read_text(v, "kernel")?;
        let agent = wire::read_text(v, "agent")?;
        let created_at = wire::read_text(v, "created_at")?;
        Some(
            UnreadableRun {
                run_id,
                state: UnreadableState::Unreadable,
                reason,
                kernel,
                agent,
                created_at,
            },
        )
    }

    /// [`unreadable_fault`], computed.
    fn refusal(v: &Json) -> (r: Option<String>)
        ensures
            wire::opt_text(r) == unreadable_fault(v@),
    {
        let fields = vec![
            fault::look_for_text(v, "run_id"),
            look_for_unreadable(v, "state"),
            fault::look_for_text(v, "reason"),
            fault::look_for_text(v, "kernel"),
            fault::look_for_text(v, "agent"),
            fault::look_for_text(v, "created_at"),
        ];
        assert(fault::field_views(fields@) =~= unreadable_known(v@));
        fault::look_over(v, "struct UnreadableRun", &fields, false)
    }

    pub fn from_json(v: &Json) -> (r: Result<UnreadableRun, String>)
        ensures
            match r {
                Ok(read) => as_unreadable(v@) == Some(read@),
                Err(words) => as_unreadable(v@) is None && unreadable_fault(v@) == Some(words@),
            },
    {
        proof {
            json::every_document_is_orderly(*v);
            lemma_unreadable(v@);
        }
        match UnreadableRun::refusal(v) {
            Some(words) => Err(words),
            None => Ok(UnreadableRun::read(v).unwrap()),
        }
    }
}

fn look_for_unreadable(v: &Json, key: &'static str) -> (r: Field)
    ensures
        r@ == fault::word_field(v@, key@, seq!["unreadable"@]),
{
    let words: Vec<&'static str> = vec!["unreadable"];
    assert(fault::spelled(words@) =~= seq!["unreadable"@]);
    fault::look_for_word(v, key, &words)
}

/// What is known of the members of an unreadable entry.
pub open spec fn unreadable_known(v: json::JsonView) -> Seq<FieldView> {
    seq![
        fault::text_field(v, "run_id"@),
        fault::word_field(v, "state"@, seq!["unreadable"@]),
        fault::text_field(v, "reason"@),
        fault::text_field(v, "kernel"@),
        fault::text_field(v, "agent"@),
        fault::text_field(v, "created_at"@),
    ]
}

/// What is wrong with a document that is to be an unreadable entry.
pub open spec fn unreadable_fault(v: json::JsonView) -> Option<Seq<char>> {
    fault::record_fault(v, "struct UnreadableRun"@, unreadable_known(v), false)
}

/// A document is refused exactly where it is not an unreadable entry.
pub proof fn lemma_unreadable(v: json::JsonView)
    requires
        json::orderly(v),
    ensures
        unreadable_fault(v) is None <==> as_unreadable(v) is Some,
{
    let fields = unreadable_known(v);
    fault::lemma_record(v, "struct UnreadableRun"@, fields, false);
    assert(seq!["unreadable"@][0] == "unreadable"@);
    assert(fault::all_sound(v, fields) <==> fault::sound(v, fields[0]) && fault::sound(v, fields[1]) && fault::sound(v, fields[2]) && fault::sound(v, fields[3]) && fault::sound(v, fields[4]) && fault::sound(v, fields[5]));
}

/// One entry of the run list. Usually a readable run's summary; a run whose
/// durable record the daemon cannot read is still listed, because omitting it
/// would make absence ambiguous between "gone" and "broken". Untagged on the
/// wire: both are flat objects told apart by their `state`.
#[derive(Debug, Clone, PartialEq, Eq)]
pub enum RunListEntry {
    Run(RunSummary),
    Unreadable(UnreadableRun),
}

/// What an entry says.
#[verifier::ext_equal]
pub ghost enum EntryView {
    Run(SummaryView),
    Unreadable(UnreadableView),
}

impl View for RunListEntry {
    type V = EntryView;

    open spec fn view(&self) -> EntryView {
        match self {
            RunListEntry::Run(summary) => EntryView::Run(summary@),
            RunListEntry::Unreadable(run) => EntryView::Unreadable(run@),
        }
    }
}

/// An entry as a document.
pub open spec fn entry_json(e: EntryView) -> json::JsonView {
    match e {
        EntryView::Run(summary) => summary_json(summary),
        EntryView::Unreadable(run) => unreadable_json(run),
    }
}

/// The entry a document holds: a summary where it reads as one.
pub open spec fn as_entry(v: json::JsonView) -> Option<EntryView> {
    match as_summary(v) {
        Some(summary) => Some(EntryView::Run(summary)),
        None => match as_unreadable(v) {
            Some(run) => Some(EntryView::Unreadable(run)),
            None => None,
        },
    }
}

/// The two shapes of an entry stay disjoint, so `state` alone tells them
/// apart: a summary's state is never `unreadable`.
pub proof fn no_document_is_both_entries(v: json::JsonView)
    ensures
        as_summary(v) is None || as_unreadable(v) is None,
{
    reveal_strlit("unreadable");
    reveal_strlit("running");
    reveal_strlit("paused");
    reveal_strlit("done");
    reveal_strlit("failed");
    reveal_strlit("cancelled");
    assert("unreadable"@.len() == 10 && "running"@.len() == 7 && "paused"@.len() == 6
        && "done"@.len() == 4 && "failed"@.len() == 6 && "cancelled"@.len() == 9);
}

/// An entry written as a document reads back as it was.
pub proof fn entries_read_back(e: EntryView)
    ensures
        as_entry(entry_json(e)) == Some(e),
{
    match e {
        EntryView::Run(summary) => summaries_read_back(summary, json::Members::empty()),
        EntryView::Unreadable(run) => {
            unreadable_runs_read_back(run);
            no_document_is_both_entries(unreadable_json(run));
        },
    }
}

impl RunListEntry {
    pub fn to_json(&self) -> (r: Json)
        ensures
            r@ == entry_json(self@),
    {
        match self {
            RunListEntry::Run(summary) => summary.to_json(),
            RunListEntry::Unreadable(run) => run.to_json(),
        }
    }

    /// [`as_entry`], computed.
    fn read(v: &Json) -> (r: Option<RunListEntry>)
        ensures
            match r {
                Some(entry) => as_entry(v@) == Some(entry@),
                None => as_entry(v@) is None,
            },
    {
        match RunSummary::read(v) {
            Some(summary) => Some(RunListEntry::Run(summary)),
            None => match UnreadableRun::read(v) {
                Some(run) => Some(RunListEntry::Unreadable(run)),
                None => None,
            },
        }
    }

    /// [`entry_fault`], computed.
    fn refusal(v: &Json) -> (r: Option<String>)
        ensures
            wire::opt_text(r) == entry_fault(v@),
    {
        match RunListEntry::read(v) {
            Some(_) => None,
            None => Some(NO_ENTRY.to_owned()),
        }
    }

    pub fn from_json(v: &Json) -> (r: Result<RunListEntry, String>)
        ensures
            match r {
                Ok(entry) => as_entry(v@) == Some(entry@),
                Err(words) => as_entry(v@) is None && entry_fault(v@) == Some(words@),
            },
    {
        match RunListEntry::read(v) {
            Some(entry) => Ok(entry),
            None => Err(NO_ENTRY.to_owned()),
        }
    }
}

/// The words for an entry that is neither kind.
pub const NO_ENTRY: &'static str = "data did not match any variant of untagged enum RunListEntry";

/// What is wrong with a document that is to be an entry.
pub open spec fn entry_fault(v: json::JsonView) -> Option<Seq<char>> {
    match as_entry(v) {
        Some(_) => None,
        None => Some(NO_ENTRY@),
    }
}

/// Every run, as the daemon lists them.
#[derive(Debug, Clone, PartialEq, Eq)]
pub struct ListRunsResponse {
    pub runs: Vec<RunListEntry>,
}

/// What a list of entries says.
pub open spec fn entry_views(v: Seq<RunListEntry>) -> Seq<EntryView> {
    v.map_values(|e: RunListEntry| e@)
}

/// A run list as a document.
pub open spec fn list_json(runs: Seq<EntryView>) -> json::JsonView {
    json::JsonView::Object(
        json::Members::empty().insert(
            "runs"@,
            json::JsonView::Array(runs.map_values(|e: EntryView| entry_json(e))),
        ),
    )
}

/// The run list a document holds.
pub open spec fn as_list(v: json::JsonView) -> Option<Seq<EntryView>> {
    match json::member(v, "runs"@) {
        Some(json::JsonView::Array(items)) => if forall|i: int|
            0 <= i < items.len() ==> #[trigger] as_entry(items[i]) is Some {
            Some(items.map_values(|item: json::JsonView| as_entry(item)->0))
        } else {
            None
        },
        _ => None,
    }
}

/// A run list written as a document reads back as it was.
pub proof fn lists_read_back(runs: Seq<EntryView>)
    ensures
        as_list(list_json(runs)) == Some(runs),
{
    let items = runs.map_values(|e: EntryView| entry_json(e));
    assert(json::member(list_json(runs), "runs"@) == Some(json::JsonView::Array(items)));
    assert forall|i: int| 0 <= i < items.len() implies #[trigger] as_entry(items[i]) == Some(
        runs[i],
    ) by {
        entries_read_back(runs[i]);
    }
    assert(items.map_values(|item: json::JsonView| as_entry(item)->0) =~= runs);
}

impl ListRunsResponse {
    pub fn to_json(&self) -> (r: Json)
        ensures
            r@ == list_json(entry_views(self.runs@)),
    {
        let mut items: Vec<Json> = Vec::new();
        for i in 0..self.runs.len()
            invariant
                items@.len() == i,
                forall|j: int| 0 <= j < i ==> #[trigger] items@[j]@ == entry_json(self.runs@[j]@),
        {
            items.push(self.runs[i].to_json());
        }
        proof {
            json::lemma_items(items@);
        }
        assert(json::items_view(items@) =~= entry_views(self.runs@).map_values(
            |e: EntryView| entry_json(e),
        ));
        let mut fields: Vec<(String, Json)> = Vec::new();
        wire::put(&mut fields, "runs", Json::Array(items));
        Json::Object(fields)
    }

    /// [`as_list`], computed.
    fn read(v: &Json) -> (r: Option<ListRunsResponse>)
        ensures
            match r {
                Some(read) => as_list(v@) == Some(entry_views(read.runs@)),
                None => as_list(v@) is None,
            },
    {
        match v.get("runs") {
            Some(Json::Array(items)) => {
                let mut runs: Vec<RunListEntry> = Vec::new();
                let ghost views = json::items_view(items@);
                proof {
                    json::lemma_items(items@);
                }
                for i in 0..items.len()
                    invariant
                        forall|j: int| 0 <= j < items@.len() ==> #[trigger] views[j] == items@[j]@,
                        views.len() == items@.len(),
                        json::member(v@, "runs"@) == Some(json::JsonView::Array(views)),
                        runs@.len() == i,
                        forall|j: int|
                            0 <= j < i ==> #[trigger] as_entry(views[j]) == Some(runs@[j]@),
                {
                    match RunListEntry::read(&items[i]) {
                        Some(entry) => runs.push(entry),
                        None => {
                            assert(as_entry(views[i as int]) is None);
                            return None;
                        },
                    }
                }
                assert(views.map_values(|item: json::JsonView| as_entry(item)->0) =~= entry_views(
                    runs@,
                ));
                Some(ListRunsResponse { runs })
            },
            _ => None,
        }
    }

    /// [`list_fault`], computed.
    fn refusal(v: &Json) -> (r: Option<String>)
        ensures
            wire::opt_text(r) == list_fault(v@),
    {
        let fields = vec![look_for_entries(v, "runs")];
        assert(fault::field_views(fields@) =~= list_known(v@));
        fault::look_over(v, "struct ListRunsResponse", &fields, false)
    }

    pub fn from_json(v: &Json) -> (r: Result<ListRunsResponse, String>)
        ensures
            match r {
                Ok(read) => as_list(v@) == Some(entry_views(read.runs@)),
                Err(words) => as_list(v@) is None && list_fault(v@) == Some(words@),
            },
    {
        proof {
            json::every_document_is_orderly(*v);
            lemma_list(v@);
        }
        match ListRunsResponse::refusal(v) {
            Some(words) => Err(words),
            None => Ok(ListRunsResponse::read(v).unwrap()),
        }
    }
}

/// What is wrong with a document that is to be a list of entries.
pub open spec fn entries_fault(v: json::JsonView) -> Option<Seq<char>> {
    match v {
        json::JsonView::Array(items) => fault::first_of(
            items.map_values(|item: json::JsonView| entry_fault(item)),
        ),
        _ => Some(fault::invalid_type(v, "a sequence"@)),
    }
}

/// [`entries_fault`], computed.
fn no_entries(v: &Json) -> (r: Option<String>)
    ensures
        wire::opt_text(r) == entries_fault(v@),
{
    match v {
        Json::Array(items) => {
            let ghost faults = json::items_view(items@).map_values(
                |item: json::JsonView| entry_fault(item),
            );
            proof {
                json::lemma_items(items@);
                fault::lemma_first_of(faults);
            }
            for i in 0..items.len()
                invariant
                    v@ == json::JsonView::Array(json::items_view(items@)),
                    faults == json::items_view(items@).map_values(
                        |item: json::JsonView| entry_fault(item),
                    ),
                    faults.len() == items@.len(),
                    forall|j: int|
                        0 <= j < items@.len() ==> #[trigger] faults[j] == entry_fault(
                            items@[j]@,
                        ),
                    forall|j: int| 0 <= j < i ==> #[trigger] faults[j] is None,
                    fault::first_of(faults) is None <==> forall|j: int|
                        0 <= j < faults.len() ==> #[trigger] faults[j] is None,
                    forall|j: int|
                        0 <= j < faults.len() && #[trigger] faults[j] is Some && (forall|k: int|
                            0 <= k < j ==> #[trigger] faults[k] is None) ==> fault::first_of(faults)
                            == faults[j],
            {
                let words = RunListEntry::refusal(&items[i]);
                assert(faults[i as int] == wire::opt_text(words));
                if words.is_some() {
                    return words;
                }
            }
            None
        },
        _ => Some(fault::no_list(v)),
    }
}

/// The member as a list of entries.
pub open spec fn entries_field(v: json::JsonView, key: Seq<char>) -> FieldView {
    FieldView {
        key,
        required: true,
        fault: match json::member(v, key) {
            Some(m) => entries_fault(m),
            None => None,
        },
    }
}

fn look_for_entries(v: &Json, key: &'static str) -> (r: Field)
    ensures
        r@ == entries_field(v@, key@),
{
    let fault = match v.get(key) {
        Some(m) => no_entries(m),
        None => None,
    };
    Field { key, required: true, fault }
}

/// What is known of the members of a run list.
pub open spec fn list_known(v: json::JsonView) -> Seq<FieldView> {
    seq![entries_field(v, "runs"@)]
}

/// What is wrong with a document that is to be a run list.
pub open spec fn list_fault(v: json::JsonView) -> Option<Seq<char>> {
    fault::record_fault(v, "struct ListRunsResponse"@, list_known(v), false)
}

/// A document is refused exactly where it is not a run list.
pub proof fn lemma_list(v: json::JsonView)
    requires
        json::orderly(v),
    ensures
        list_fault(v) is None <==> as_list(v) is Some,
{
    let fields = list_known(v);
    fault::lemma_record(v, "struct ListRunsResponse"@, fields, false);
    if let Some(json::JsonView::Array(items)) = json::member(v, "runs"@) {
        let faults = items.map_values(|item: json::JsonView| entry_fault(item));
        fault::lemma_first_of(faults);
        assert forall|i: int|
            #![trigger faults[i]]
            #![trigger as_entry(items[i])]
            0 <= i < items.len() implies (faults[i] is None <==> as_entry(items[i]) is Some) by {}
    }
    assert(fault::all_sound(v, fields) <==> fault::sound(v, fields[0]));
}

/// The full picture of one run, also returned by every command that changes
/// a run so clients see the effect without a second request. On the wire it
/// reads as one flat object, a summary with depth.
#[derive(Debug, Clone, PartialEq, Eq)]
pub struct RunStatusResponse {
    pub run: RunSummary,
    pub iterations_completed: u32,
    /// The summary from the agent's most recent report.
    pub last_summary: Option<String>,
    /// Open questions when paused `awaiting_human`; empty otherwise.
    pub pending_questions: Vec<Question>,
}

/// What a status says.
#[verifier::ext_equal]
pub ghost struct StatusView {
    pub run: SummaryView,
    pub iterations_completed: u32,
    pub last_summary: Option<Seq<char>>,
    pub pending_questions: Seq<report::QuestionView>,
}

impl View for RunStatusResponse {
    type V = StatusView;

    open spec fn view(&self) -> StatusView {
        StatusView {
            run: self.run@,
            iterations_completed: self.iterations_completed,
            last_summary: wire::opt_text(self.last_summary),
            pending_questions: report::question_views(self.pending_questions@),
        }
    }
}

/// A status as a document.
pub open spec fn status_json(s: StatusView) -> json::JsonView {
    json::JsonView::Object(
        summary_onto(s.run, json::Members::empty()).insert(
            "iterations_completed"@,
            json::JsonView::Number(s.iterations_completed as int),
        ).insert("last_summary"@, wire::opt_text_view(s.last_summary)).insert(
            "pending_questions"@,
            report::questions_json(s.pending_questions),
        ),
    )
}

/// The status a document holds.
pub open spec fn as_status(v: json::JsonView) -> Option<StatusView> {
    match (
        as_summary(v),
        wire::count_at(v, "iterations_completed"@, u32::MAX as int),
        wire::opt_text_at(v, "last_summary"@),
        report::questions_at(v, "pending_questions"@),
    ) {
        (Some(run), Some(completed), Some(last_summary), Some(pending_questions)) => Some(
            StatusView {
                run,
                iterations_completed: completed as u32,
                last_summary,
                pending_questions,
            },
        ),
        _ => None,
    }
}

/// A status written as a document reads back as it was.
pub proof fn statuses_read_back(s: StatusView)
    ensures
        as_status(status_json(s)) == Some(s),
{
    let summary = summary_onto(s.run, json::Members::empty());
    let all = status_json(s)->Object_0;
    summaries_read_back(s.run, json::Members::empty());
    report::lemma_questions_read_back(s.pending_questions);
    lemma_summary_members();
    reveal_strlit("iterations_completed");
    reveal_strlit("last_summary");
    reveal_strlit("pending_questions");
    assert("iterations_completed"@.len() == 20 && "last_summary"@.len() == 12
        && "pending_questions"@.len() == 17);
    assert(json::lookup(all, "run_id"@) == json::lookup(summary, "run_id"@));
    assert(json::lookup(all, "state"@) == json::lookup(summary, "state"@));
    assert(json::lookup(all, "reason"@) == json::lookup(summary, "reason"@));
    assert(json::lookup(all, "kernel"@) == json::lookup(summary, "kernel"@));
    assert(json::lookup(all, "agent"@) == json::lookup(summary, "agent"@));
    assert(json::lookup(all, "created_at"@) == json::lookup(summary, "created_at"@));
    assert(json::lookup(all, "updated_at"@) == json::lookup(summary, "updated_at"@));
}

impl RunStatusResponse {
    pub fn to_json(&self) -> (r: Json)
        ensures
            r@ == status_json(self@),
    {
        let mut fields: Vec<(String, Json)> = Vec::new();
        self.run.put_onto(&mut fields);
        wire::put(&mut fields, "iterations_completed", Json::Uint(self.iterations_completed as u64));
        wire::put(&mut fields, "last_summary", wire::opt_text_json(&self.last_summary));
        wire::put(
            &mut fields,
            "pending_questions",
            report::questions_to_json(&self.pending_questions),
        );
        Json::Object(fields)
    }

    /// [`as_status`], computed.
    fn read(v: &Json) -> (r: Option<RunStatusResponse>)
        ensures
            match r {
                Some(read) => as_status(v@) == Some(read@),
                None => as_status(v@) is None,
            },
    {
        let run = RunSummary::read(v)?;
        let iterations_completed: u32 = wire::read_u32(v, "iterations_completed")?;
        let last_summary = wire::read_opt_text(v, "last_summary")?;
        let pending_questions = report::read_questions(v, "pending_questions")?;
        Some(RunStatusResponse { run, iterations_completed, last_summary, pending_questions })
    }

    /// [`status_fault`], computed.
    fn refusal(v: &Json) -> (r: Option<String>)
        ensures
            wire::opt_text(r) == status_fault(v@),
    {
        let fields = vec![
            fault::look_for_u32(v, "iterations_completed"),
            fault::look_for_opt_text(v, "last_summary"),
            report::look_for_questions(v, "pending_questions"),
        ];
        assert(fault::field_views(fields@) =~= status_known(v@));
        let fault = fault::look_over(v, "struct RunStatusResponse", &fields, false);
        if fault.is_some() {
            return fault;
        }
        RunSummary::refusal(v)
    }

    pub fn from_json(v: &Json) -> (r: Result<RunStatusResponse, String>)
        ensures
            match r {
                Ok(read) => as_status(v@) == Some(read@),
                Err(words) => as_status(v@) is None && status_fault(v@) == Some(words@),
            },
    {
        proof {
            json::every_document_is_orderly(*v);
            lemma_status(v@);
        }
        match RunStatusResponse::refusal(v) {
            Some(words) => Err(words),
            None => Ok(RunStatusResponse::read(v).unwrap()),
        }
    }
}

/// What is known of the members of a status.
pub open spec fn status_known(v: json::JsonView) -> Seq<FieldView> {
    seq![
        fault::u32_field(v, "iterations_completed"@),
        fault::opt_text_field(v, "last_summary"@),
        report::questions_field(v, "pending_questions"@),
    ]
}

/// What is wrong with a document that is to be a status.
pub open spec fn status_fault(v: json::JsonView) -> Option<Seq<char>> {
    fault::or_else(
        fault::record_fault(v, "struct RunStatusResponse"@, status_known(v), false),
        summary_fault(v),
    )
}

/// A document is refused exactly where it is not a status.
pub proof fn lemma_status(v: json::JsonView)
    requires
        json::orderly(v),
    ensures
        status_fault(v) is None <==> as_status(v) is Some,
{
    let fields = status_known(v);
    fault::lemma_record(v, "struct RunStatusResponse"@, fields, false);
    report::lemma_questions_field(v, "pending_questions"@);
    lemma_summary(v);
    assert(fault::all_sound(v, fields) <==> fault::sound(v, fields[0]) && fault::sound(v, fields[1]) && fault::sound(v, fields[2]));
}

/// Answer one or more of a paused run's questions.
#[derive(Debug, Clone, PartialEq, Eq)]
pub struct AnswerRequest {
    pub answers: Vec<Answer>,
}

/// Answers as a document.
pub open spec fn answers_json(answers: Seq<report::AnswerView>) -> json::JsonView {
    json::JsonView::Object(
        json::Members::empty().insert(
            "answers"@,
            json::JsonView::Array(
                answers.map_values(|a: report::AnswerView| report::answer_json(a)),
            ),
        ),
    )
}

/// The answers a document holds.
pub open spec fn as_answers(v: json::JsonView) -> Option<Seq<report::AnswerView>> {
    match json::member(v, "answers"@) {
        Some(json::JsonView::Array(items)) => if forall|i: int|
            0 <= i < items.len() ==> #[trigger] report::as_answer(items[i]) is Some {
            Some(items.map_values(|item: json::JsonView| report::as_answer(item)->0))
        } else {
            None
        },
        _ => None,
    }
}

/// Answers written as a document read back as they were.
pub proof fn answer_requests_read_back(answers: Seq<report::AnswerView>)
    ensures
        as_answers(answers_json(answers)) == Some(answers),
{
    let items = answers.map_values(|a: report::AnswerView| report::answer_json(a));
    assert(json::member(answers_json(answers), "answers"@) == Some(json::JsonView::Array(items)));
    assert forall|i: int| 0 <= i < items.len() implies #[trigger] report::as_answer(items[i])
        == Some(answers[i]) by {
        report::answers_read_back(answers[i]);
    }
    assert(items.map_values(|item: json::JsonView| report::as_answer(item)->0) =~= answers);
}

impl AnswerRequest {
    pub fn to_json(&self) -> (r: Json)
        ensures
            r@ == answers_json(report::answer_views(self.answers@)),
    {
        let mut items: Vec<Json> = Vec::new();
        for i in 0..self.answers.len()
            invariant
                items@.len() == i,
                forall|j: int|
                    0 <= j < i ==> #[trigger] items@[j]@ == report::answer_json(self.answers@[j]@),
        {
            items.push(self.answers[i].to_json());
        }
        proof {
            json::lemma_items(items@);
        }
        assert(json::items_view(items@) =~= report::answer_views(self.answers@).map_values(
            |a: report::AnswerView| report::answer_json(a),
        ));
        let mut fields: Vec<(String, Json)> = Vec::new();
        wire::put(&mut fields, "answers", Json::Array(items));
        Json::Object(fields)
    }

    /// [`as_answers`], computed.
    fn read(v: &Json) -> (r: Option<AnswerRequest>)
        ensures
            match r {
                Some(read) => as_answers(v@) == Some(report::answer_views(read.answers@)),
                None => as_answers(v@) is None,
            },
    {
        match v.get("answers") {
            Some(Json::Array(items)) => {
                let mut answers: Vec<Answer> = Vec::new();
                let ghost views = json::items_view(items@);
                proof {
                    json::lemma_items(items@);
                }
                for i in 0..items.len()
                    invariant
                        forall|j: int| 0 <= j < items@.len() ==> #[trigger] views[j] == items@[j]@,
                        views.len() == items@.len(),
                        json::member(v@, "answers"@) == Some(json::JsonView::Array(views)),
                        answers@.len() == i,
                        forall|j: int|
                            0 <= j < i ==> #[trigger] report::as_answer(views[j]) == Some(
                                answers@[j]@,
                            ),
                {
                    match Answer::from_json(&items[i]) {
                        Ok(answer) => answers.push(answer),
                        Err(_) => {
                            assert(report::as_answer(views[i as int]) is None);
                            return None;
                        },
                    }
                }
                assert(views.map_values(|item: json::JsonView| report::as_answer(item)->0)
                    =~= report::answer_views(answers@));
                Some(AnswerRequest { answers })
            },
            _ => None,
        }
    }

    /// [`answers_fault`], computed.
    fn refusal(v: &Json) -> (r: Option<String>)
        ensures
            wire::opt_text(r) == answers_fault(v@),
    {
        let fields = vec![look_for_answers(v, "answers")];
        assert(fault::field_views(fields@) =~= answers_known(v@));
        fault::look_over(v, "struct AnswerRequest", &fields, false)
    }

    pub fn from_json(v: &Json) -> (r: Result<AnswerRequest, String>)
        ensures
            match r {
                Ok(read) => as_answers(v@) == Some(report::answer_views(read.answers@)),
                Err(words) => as_answers(v@) is None && answers_fault(v@) == Some(words@),
            },
    {
        proof {
            json::every_document_is_orderly(*v);
            lemma_answers(v@);
        }
        match AnswerRequest::refusal(v) {
            Some(words) => Err(words),
            None => Ok(AnswerRequest::read(v).unwrap()),
        }
    }
}

/// What is wrong with a document that is to be a list of answers.
pub open spec fn answer_list_fault(v: json::JsonView) -> Option<Seq<char>> {
    match v {
        json::JsonView::Array(items) => fault::first_of(
            items.map_values(|item: json::JsonView| report::answer_fault(item)),
        ),
        _ => Some(fault::invalid_type(v, "a sequence"@)),
    }
}

/// [`answer_list_fault`], computed.
fn no_answers(v: &Json) -> (r: Option<String>)
    ensures
        wire::opt_text(r) == answer_list_fault(v@),
{
    match v {
        Json::Array(items) => {
            let ghost faults = json::items_view(items@).map_values(
                |item: json::JsonView| report::answer_fault(item),
            );
            proof {
                json::lemma_items(items@);
                fault::lemma_first_of(faults);
            }
            for i in 0..items.len()
                invariant
                    v@ == json::JsonView::Array(json::items_view(items@)),
                    faults == json::items_view(items@).map_values(
                        |item: json::JsonView| report::answer_fault(item),
                    ),
                    faults.len() == items@.len(),
                    forall|j: int|
                        0 <= j < items@.len() ==> #[trigger] faults[j] == report::answer_fault(
                            items@[j]@,
                        ),
                    forall|j: int| 0 <= j < i ==> #[trigger] faults[j] is None,
                    fault::first_of(faults) is None <==> forall|j: int|
                        0 <= j < faults.len() ==> #[trigger] faults[j] is None,
                    forall|j: int|
                        0 <= j < faults.len() && #[trigger] faults[j] is Some && (forall|k: int|
                            0 <= k < j ==> #[trigger] faults[k] is None) ==> fault::first_of(faults)
                            == faults[j],
            {
                let words = Answer::refusal(&items[i]);
                assert(faults[i as int] == wire::opt_text(words));
                if words.is_some() {
                    return words;
                }
            }
            None
        },
        _ => Some(fault::no_list(v)),
    }
}

/// The member as a list of answers.
pub open spec fn answers_field(v: json::JsonView, key: Seq<char>) -> FieldView {
    FieldView {
        key,
        required: true,
        fault: match json::member(v, key) {
            Some(m) => answer_list_fault(m),
            None => None,
        },
    }
}

fn look_for_answers(v: &Json, key: &'static str) -> (r: Field)
    ensures
        r@ == answers_field(v@, key@),
{
    let fault = match v.get(key) {
        Some(m) => no_answers(m),
        None => None,
    };
    Field { key, required: true, fault }
}

/// What is known of the members of a set of answers.
pub open spec fn answers_known(v: json::JsonView) -> Seq<FieldView> {
    seq![answers_field(v, "answers"@)]
}

/// What is wrong with a document that is to be a set of answers.
pub open spec fn answers_fault(v: json::JsonView) -> Option<Seq<char>> {
    fault::record_fault(v, "struct AnswerRequest"@, answers_known(v), false)
}

proof fn lemma_answer_list(items: Seq<json::JsonView>)
    requires
        json::orderly(json::JsonView::Array(items)),
    ensures
        answer_list_fault(json::JsonView::Array(items)) is None <==> forall|i: int|
            0 <= i < items.len() ==> #[trigger] report::as_answer(items[i]) is Some,
{
    let faults = items.map_values(|item: json::JsonView| report::answer_fault(item));
    fault::lemma_first_of(faults);
    assert forall|i: int|
        #![trigger faults[i]]
        #![trigger report::as_answer(items[i])]
        0 <= i < items.len() implies (faults[i] is None <==> report::as_answer(items[i])
        is Some) by {
        report::lemma_answer(items[i]);
    }
}

/// A document is refused exactly where it is not a set of answers.
pub proof fn lemma_answers(v: json::JsonView)
    requires
        json::orderly(v),
    ensures
        answers_fault(v) is None <==> as_answers(v) is Some,
{
    let fields = answers_known(v);
    fault::lemma_record(v, "struct AnswerRequest"@, fields, false);
    if let Some(json::JsonView::Array(items)) = json::member(v, "answers"@) {
        assert(v->Object_0.dom().contains("answers"@));
        lemma_answer_list(items);
    }
    assert(fault::all_sound(v, fields) <==> fault::sound(v, fields[0]));
}

/// New caps for a paused run; absent ones keep their current value.
#[derive(Debug, Clone, Copy, PartialEq, Eq, Structural)]
pub struct BudgetExtension {
    pub max_iterations: Option<u32>,
    pub max_wall_clock_seconds: Option<u64>,
    pub max_tokens: Option<u64>,
}

/// A cap that may be absent as a document.
pub open spec fn cap_json(cap: Option<u64>) -> json::JsonView {
    match cap {
        Some(n) => json::JsonView::Number(n as int),
        None => json::JsonView::Null,
    }
}

/// [`cap_json`], computed.
fn cap_to_json(cap: Option<u64>) -> (r: Json)
    ensures
        r@ == cap_json(cap),
{
    match cap {
        Some(n) => Json::Uint(n),
        None => Json::Null,
    }
}

/// The extension's cap on iterations, as wide as the others.
pub open spec fn widened(cap: Option<u32>) -> Option<u64> {
    match cap {
        Some(n) => Some(n as u64),
        None => None,
    }
}

/// An extension as a document.
pub open spec fn extension_json(e: BudgetExtension) -> json::JsonView {
    json::JsonView::Object(
        json::Members::empty().insert("max_iterations"@, cap_json(widened(e.max_iterations))).insert(
            "max_wall_clock_seconds"@,
            cap_json(e.max_wall_clock_seconds),
        ).insert("max_tokens"@, cap_json(e.max_tokens)),
    )
}

/// The extension a document holds; a document that is no object holds none.
pub open spec fn as_extension(v: json::JsonView) -> Option<BudgetExtension> {
    match (
        v,
        wire::opt_count_at(v, "max_iterations"@, u32::MAX as int),
        wire::opt_count_at(v, "max_wall_clock_seconds"@, u64::MAX as int),
        wire::opt_count_at(v, "max_tokens"@, u64::MAX as int),
    ) {
        (json::JsonView::Object(_), Some(iterations), Some(seconds), Some(tokens)) => Some(
            BudgetExtension {
                max_iterations: match iterations {
                    Some(n) => Some(n as u32),
                    None => None,
                },
                max_wall_clock_seconds: match seconds {
                    Some(n) => Some(n as u64),
                    None => None,
                },
                max_tokens: match tokens {
                    Some(n) => Some(n as u64),
                    None => None,
                },
            },
        ),
        _ => None,
    }
}

/// An extension written as a document reads back as it was.
pub proof fn extensions_read_back(e: BudgetExtension)
    ensures
        as_extension(extension_json(e)) == Some(e),
{
    reveal_strlit("max_iterations");
    reveal_strlit("max_wall_clock_seconds");
    reveal_strlit("max_tokens");
    assert("max_iterations"@.len() == 14 && "max_wall_clock_seconds"@.len() == 22
        && "max_tokens"@.len() == 10);
}

impl BudgetExtension {
    pub fn to_json(&self) -> (r: Json)
        ensures
            r@ == extension_json(*self),
    {
        let iterations: Option<u64> = match self.max_iterations {
            Some(n) => Some(n as u64),
            None => None,
        };
        let mut fields: Vec<(String, Json)> = Vec::new();
        wire::put(&mut fields, "max_iterations", cap_to_json(iterations));
        wire::put(
            &mut fields,
            "max_wall_clock_seconds",
            cap_to_json(self.max_wall_clock_seconds),
        );
        wire::put(&mut fields, "max_tokens", cap_to_json(self.max_tokens));
        Json::Object(fields)
    }

    /// [`as_extension`], computed.
    fn read(v: &Json) -> (r: Option<BudgetExtension>)
        ensures
            match r {
                Some(read) => as_extension(v@) == Some(read),
                None => as_extension(v@) is None,
            },
    {
        match v {
            Json::Object(_) => {
                let max_iterations: Option<u32> = wire::read_opt_u32(v, "max_iterations")?;
                let max_wall_clock_seconds: Option<u64> = wire::read_opt_u64(
                    v,
                    "max_wall_clock_seconds",
                )?;
                let max_tokens: Option<u64> = wire::read_opt_u64(v, "max_tokens")?;
                Some(BudgetExtension { max_iterations, max_wall_clock_seconds, max_tokens })
            },
            _ => None,
        }
    }

    /// [`extension_fault`], computed.
    fn refusal(v: &Json) -> (r: Option<String>)
        ensures
            wire::opt_text(r) == extension_fault(v@),
    {
        let fields = vec![
            fault::look_for_opt_u32(v, "max_iterations"),
            fault::look_for_opt_u64(v, "max_wall_clock_seconds"),
            fault::look_for_opt_u64(v, "max_tokens"),
        ];
        assert(fault::field_views(fields@) =~= extension_known(v@));
        fault::look_over(v, "struct BudgetExtension", &fields, false)
    }

    pub fn from_json(v: &Json) -> (r: Result<BudgetExtension, String>)
        ensures
            match r {
                Ok(read) => as_extension(v@) == Some(read),
                Err(words) => as_extension(v@) is None && extension_fault(v@) == Some(words@),
            },
    {
        proof {
            json::every_document_is_orderly(*v);
            lemma_extension(v@);
        }
        match BudgetExtension::refusal(v) {
            Some(words) => Err(words),
            None => Ok(BudgetExtension::read(v).unwrap()),
        }
    }
}

/// What is known of the members of an extension.
pub open spec fn extension_known(v: json::JsonView) -> Seq<FieldView> {
    seq![
        fault::opt_u32_field(v, "max_iterations"@),
        fault::opt_u64_field(v, "max_wall_clock_seconds"@),
        fault::opt_u64_field(v, "max_tokens"@),
    ]
}

/// What is wrong with a document that is to be an extension.
pub open spec fn extension_fault(v: json::JsonView) -> Option<Seq<char>> {
    fault::record_fault(v, "struct BudgetExtension"@, extension_known(v), false)
}

/// A document is refused exactly where it is not an extension.
pub proof fn lemma_extension(v: json::JsonView)
    requires
        json::orderly(v),
    ensures
        extension_fault(v) is None <==> as_extension(v) is Some,
{
    let fields = extension_known(v);
    fault::lemma_record(v, "struct BudgetExtension"@, fields, false);
    assert(fault::all_sound(v, fields) <==> fault::sound(v, fields[0]) && fault::sound(v, fields[1]) && fault::sound(v, fields[2]));
}

/// Resume a paused run.
#[derive(Debug, Clone, PartialEq, Eq)]
pub struct ResumeRequest {
    /// Guidance injected into the next iteration's prompt preamble.
    pub note: Option<String>,
    /// New caps for a run paused on its budget; absent fields keep their
    /// current cap.
    pub extend: Option<BudgetExtension>,
}

/// What a request to resume says.
#[verifier::ext_equal]
pub ghost struct ResumeView {
    pub note: Option<Seq<char>>,
    pub extend: Option<BudgetExtension>,
}

impl View for ResumeRequest {
    type V = ResumeView;

    open spec fn view(&self) -> ResumeView {
        ResumeView { note: wire::opt_text(self.note), extend: self.extend }
    }
}

/// A request to resume as a document.
pub open spec fn resume_json(r: ResumeView) -> json::JsonView {
    json::JsonView::Object(
        json::Members::empty().insert("note"@, wire::opt_text_view(r.note)).insert(
            "extend"@,
            match r.extend {
                Some(extension) => extension_json(extension),
                None => json::JsonView::Null,
            },
        ),
    )
}

/// The member as an extension that may be missing: nothing or `null` is no
/// extension.
pub open spec fn extend_at(v: json::JsonView) -> Option<Option<BudgetExtension>> {
    match json::member(v, "extend"@) {
        None => Some(None),
        Some(json::JsonView::Null) => Some(None),
        Some(inner) => match as_extension(inner) {
            Some(extension) => Some(Some(extension)),
            None => None,
        },
    }
}

/// The request to resume that a document holds; a document that is no object
/// holds none.
pub open spec fn as_resume(v: json::JsonView) -> Option<ResumeView> {
    match (v, wire::opt_text_at(v, "note"@), extend_at(v)) {
        (json::JsonView::Object(_), Some(note), Some(extend)) => Some(ResumeView { note, extend }),
        _ => None,
    }
}

/// A request to resume written as a document reads back as it was.
pub proof fn resume_requests_read_back(r: ResumeView)
    ensures
        as_resume(resume_json(r)) == Some(r),
{
    reveal_strlit("note");
    reveal_strlit("extend");
    assert("note"@.len() == 4 && "extend"@.len() == 6);
    if let Some(extension) = r.extend {
        extensions_read_back(extension);
    }
}

impl ResumeRequest {
    pub fn to_json(&self) -> (r: Json)
        ensures
            r@ == resume_json(self@),
    {
        let mut fields: Vec<(String, Json)> = Vec::new();
        wire::put(&mut fields, "note", wire::opt_text_json(&self.note));
        let extend = match &self.extend {
            Some(extension) => extension.to_json(),
            None => Json::Null,
        };
        wire::put(&mut fields, "extend", extend);
        Json::Object(fields)
    }

    /// [`as_resume`], computed.
    fn read(v: &Json) -> (r: Option<ResumeRequest>)
        ensures
            match r {
                Some(read) => as_resume(v@) == Some(read@),
                None => as_resume(v@) is None,
            },
    {
        match v {
            Json::Object(_) => {
                let note = wire::read_opt_text(v, "note")?;
                let extend: Option<BudgetExtension> = match v.get("extend") {
                    None => None,
                    Some(Json::Null) => None,
                    Some(inner) => Some(BudgetExtension::read(inner)?),
                };
                Some(ResumeRequest { note, extend })
            },
            _ => None,
        }
    }

    /// [`resume_fault`], computed.
    fn refusal(v: &Json) -> (r: Option<String>)
        ensures
            wire::opt_text(r) == resume_fault(v@),
    {
        let fields = vec![
            fault::look_for_opt_text(v, "note"),
            look_for_extension(v, "extend"),
        ];
        assert(fault::field_views(fields@) =~= resume_known(v@));
        fault::look_over(v, "struct ResumeRequest", &fields, false)
    }

    pub fn from_json(v: &Json) -> (r: Result<ResumeRequest, String>)
        ensures
            match r {
                Ok(read) => as_resume(v@) == Some(read@),
                Err(words) => as_resume(v@) is None && resume_fault(v@) == Some(words@),
            },
    {
        proof {
            json::every_document_is_orderly(*v);
            lemma_resume(v@);
        }
        match ResumeRequest::refusal(v) {
            Some(words) => Err(words),
            None => Ok(ResumeRequest::read(v).unwrap()),
        }
    }
}

/// The member as an extension that may be missing or `null`.
pub open spec fn extend_field(v: json::JsonView, key: Seq<char>) -> FieldView {
    FieldView {
        key,
        required: false,
        fault: match json::member(v, key) {
            Some(m) => fault::or_null(m, extension_fault(m)),
            None => None,
        },
    }
}

fn look_for_extension(v: &Json, key: &'static str) -> (r: Field)
    ensures
        r@ == extend_field(v@, key@),
{
    let fault = match v.get(key) {
        Some(Json::Null) => None,
        Some(m) => BudgetExtension::refusal(m),
        None => None,
    };
    Field { key, required: false, fault }
}

/// What is known of the members of a request to resume.
pub open spec fn resume_known(v: json::JsonView) -> Seq<FieldView> {
    seq![
        fault::opt_text_field(v, "note"@),
        extend_field(v, "extend"@),
    ]
}

/// What is wrong with a document that is to be a request to resume.
pub open spec fn resume_fault(v: json::JsonView) -> Option<Seq<char>> {
    fault::record_fault(v, "struct ResumeRequest"@, resume_known(v), false)
}

/// A document is refused exactly where it is not a request to resume.
pub proof fn lemma_resume(v: json::JsonView)
    requires
        json::orderly(v),
    ensures
        resume_fault(v) is None <==> as_resume(v) is Some,
{
    let fields = resume_known(v);
    fault::lemma_record(v, "struct ResumeRequest"@, fields, false);
    if let Some(m) = json::member(v, "extend"@) {
        assert(v->Object_0.dom().contains("extend"@));
        lemma_extension(m);
    }
    assert(fault::all_sound(v, fields) <==> fault::sound(v, fields[0]) && fault::sound(v, fields[1]));
}

/// Every machine-readable failure code the daemon answers with. Closed on
/// the producing end; open on the consuming end: a client older than its
/// daemon reads a code it does not know as [`ErrorCode::Unknown`] and still
/// gets the message.
#[derive(Debug, Clone, Copy, PartialEq, Eq, Structural)]
pub enum ErrorCode {
    Unauthorized,
    InvalidRequest,
    InvalidFlow,
    InvalidAgent,
    /// A secret the flow or its agent needs is not provisioned on the daemon.
    MissingSecret,
    RunNotFound,
    RunNotRunning,
    NotAwaitingInput,
    UnknownQuestion,
    NotPaused,
    /// The run predates a daemon restart: the material to relaunch it died
    /// with the old process.
    NotResumable,
    InternalError,
    /// Never produced by the daemon: what a reader makes of a code newer than
    /// itself.
    Unknown,
}

impl ErrorCode {
    /// The word the wire format has for the code.
    pub open spec fn word(self) -> Seq<char> {
        match self {
            ErrorCode::Unauthorized => "unauthorized"@,
            ErrorCode::InvalidRequest => "invalid_request"@,
            ErrorCode::InvalidFlow => "invalid_flow"@,
            ErrorCode::InvalidAgent => "invalid_agent"@,
            ErrorCode::MissingSecret => "missing_secret"@,
            ErrorCode::RunNotFound => "run_not_found"@,
            ErrorCode::RunNotRunning => "run_not_running"@,
            ErrorCode::NotAwaitingInput => "not_awaiting_input"@,
            ErrorCode::UnknownQuestion => "unknown_question"@,
            ErrorCode::NotPaused => "not_paused"@,
            ErrorCode::NotResumable => "not_resumable"@,
            ErrorCode::InternalError => "internal_error"@,
            ErrorCode::Unknown => "unknown"@,
        }
    }

    pub fn as_str(&self) -> (s: &'static str)
        ensures
            s@ == self.word(),
    {
        match self {
            ErrorCode::Unauthorized => "unauthorized",
            ErrorCode::InvalidRequest => "invalid_request",
            ErrorCode::InvalidFlow => "invalid_flow",
            ErrorCode::InvalidAgent => "invalid_agent",
            ErrorCode::MissingSecret => "missing_secret",
            ErrorCode::RunNotFound => "run_not_found",
            ErrorCode::RunNotRunning => "run_not_running",
            ErrorCode::NotAwaitingInput => "not_awaiting_input",
            ErrorCode::UnknownQuestion => "unknown_question",
            ErrorCode::NotPaused => "not_paused",
            ErrorCode::NotResumable => "not_resumable",
            ErrorCode::InternalError => "internal_error",
            ErrorCode::Unknown => "unknown",
        }
    }
}

/// The code a word names; a word that is nobody's names the unknown code.
pub open spec fn code_named(word: Seq<char>) -> ErrorCode {
    if word == "unauthorized"@ {
        ErrorCode::Unauthorized
    } else if word == "invalid_request"@ {
        ErrorCode::InvalidRequest
    } else if word == "invalid_flow"@ {
        ErrorCode::InvalidFlow
    } else if word == "invalid_agent"@ {
        ErrorCode::InvalidAgent
    } else if word == "missing_secret"@ {
        ErrorCode::MissingSecret
    } else if word == "run_not_found"@ {
        ErrorCode::RunNotFound
    } else if word == "run_not_running"@ {
        ErrorCode::RunNotRunning
    } else if word == "not_awaiting_input"@ {
        ErrorCode::NotAwaitingInput
    } else if word == "unknown_question"@ {
        ErrorCode::UnknownQuestion
    } else if word == "not_paused"@ {
        ErrorCode::NotPaused
    } else if word == "not_resumable"@ {
        ErrorCode::NotResumable
    } else if word == "internal_error"@ {
        ErrorCode::InternalError
    } else {
        ErrorCode::Unknown
    }
}

/// [`code_named`], computed.
pub fn named_code(word: &str) -> (r: ErrorCode)
    ensures
        r == code_named(word@),
{
    if text::same(word, "unauthorized") {
        ErrorCode::Unauthorized
    } else if text::same(word, "invalid_request") {
        ErrorCode::InvalidRequest
    } else if text::same(word, "invalid_flow") {
        ErrorCode::InvalidFlow
    } else if text::same(word, "invalid_agent") {
        ErrorCode::InvalidAgent
    } else if text::same(word, "missing_secret") {
        ErrorCode::MissingSecret
    } else if text::same(word, "run_not_found") {
        ErrorCode::RunNotFound
    } else if text::same(word, "run_not_running") {
        ErrorCode::RunNotRunning
    } else if text::same(word, "not_awaiting_input") {
        ErrorCode::NotAwaitingInput
    } else if text::same(word, "unknown_question") {
        ErrorCode::UnknownQuestion
    } else if text::same(word, "not_paused") {
        ErrorCode::NotPaused
    } else if text::same(word, "not_resumable") {
        ErrorCode::NotResumable
    } else if text::same(word, "internal_error") {
        ErrorCode::InternalError
    } else {
        ErrorCode::Unknown
    }
}

/// Every code is the one its word names.
pub proof fn codes_read_back(code: ErrorCode)
    ensures
        code_named(code.word()) == code,
{
    reveal_strlit("unauthorized");
    reveal_strlit("invalid_request");
    reveal_strlit("invalid_flow");
    reveal_strlit("invalid_agent");
    reveal_strlit("missing_secret");
    reveal_strlit("run_not_found");
    reveal_strlit("run_not_running");
    reveal_strlit("not_awaiting_input");
    reveal_strlit("unknown_question");
    reveal_strlit("not_paused");
    reveal_strlit("not_resumable");
    reveal_strlit("internal_error");
    reveal_strlit("unknown");
    assert("unauthorized"@.len() == 12 && "invalid_request"@.len() == 15 && "invalid_flow"@.len() == 12
        && "invalid_agent"@.len() == 13 && "missing_secret"@.len() == 14 && "run_not_found"@.len() == 13
        && "run_not_running"@.len() == 15 && "not_awaiting_input"@.len() == 18 && "unknown_question"@.len() == 16
        && "not_paused"@.len() == 10 && "not_resumable"@.len() == 13 && "internal_error"@.len() == 14
        && "unknown"@.len() == 7);
    assert("unauthorized"@[0] == 'u' && "invalid_flow"@[0] == 'i');
    assert("invalid_request"@[0] == 'i' && "run_not_running"@[0] == 'r');
    assert("invalid_agent"@[0] == 'i' && "run_not_found"@[0] == 'r' && "not_resumable"@[0] == 'n');
    assert("missing_secret"@[0] == 'm' && "internal_error"@[0] == 'i');
}

/// Every failed request is answered with this body.
#[derive(Debug, Clone, PartialEq, Eq)]
pub struct ApiError {
    pub code: ErrorCode,
    /// Human-readable; never parse this.
    pub message: String,
}

/// What a failure says.
#[verifier::ext_equal]
pub ghost struct ApiErrorView {
    pub code: ErrorCode,
    pub message: Seq<char>,
}

impl View for ApiError {
    type V = ApiErrorView;

    open spec fn view(&self) -> ApiErrorView {
        ApiErrorView { code: self.code, message: self.message@ }
    }
}

/// A failure as a document.
pub open spec fn failure_json(e: ApiErrorView) -> json::JsonView {
    json::JsonView::Object(
        json::Members::empty().insert("code"@, json::JsonView::Str(e.code.word())).insert(
            "message"@,
            json::JsonView::Str(e.message),
        ),
    )
}

/// The failure a document holds.
pub open spec fn as_failure(v: json::JsonView) -> Option<ApiErrorView> {
    match (wire::text_at(v, "code"@), wire::text_at(v, "message"@)) {
        (Some(word), Some(message)) => Some(ApiErrorView { code: code_named(word), message }),
        _ => None,
    }
}

/// A failure written as a document reads back as it was.
pub proof fn failures_read_back(e: ApiErrorView)
    ensures
        as_failure(failure_json(e)) == Some(e),
{
    codes_read_back(e.code);
    reveal_strlit("code");
    reveal_strlit("message");
    assert("code"@.len() == 4 && "message"@.len() == 7);
}

/// A code from a newer daemon never hides the message that explains it: any
/// document with a code and a message reads as a failure with that message.
pub proof fn a_newer_code_keeps_its_message(v: json::JsonView)
    requires
        wire::text_at(v, "code"@) is Some,
        wire::text_at(v, "message"@) is Some,
    ensures
        as_failure(v) is Some,
        as_failure(v)->0.message == wire::text_at(v, "message"@)->0,
{
}

impl ApiError {
    pub fn to_json(&self) -> (r: Json)
        ensures
            r@ == failure_json(self@),
    {
        let mut fields: Vec<(String, Json)> = Vec::new();
        wire::put(&mut fields, "code", wire::text_json(self.code.as_str()));
        wire::put(&mut fields, "message", wire::text_json(self.message.as_str()));
        Json::Object(fields)
    }

    /// [`as_failure`], computed.
    fn read(v: &Json) -> (r: Option<ApiError>)
        ensures
            match r {
                Some(read) => as_failure(v@) == Some(read@),
                None => as_failure(v@) is None,
            },
    {
        let word = wire::read_text(v, "code")?;
        let message = wire::read_text(v, "message")?;
        Some(ApiError { code: named_code(word.as_str()), message })
    }

    /// [`failure_fault`], computed.
    fn refusal(v: &Json) -> (r: Option<String>)
        ensures
            wire::opt_text(r) == failure_fault(v@),
    {
        let fields = vec![
            fault::look_for_any_word(v, "code"),
            fault::look_for_text(v, "message"),
        ];
        assert(fault::field_views(fields@) =~= failure_known(v@));
        fault::look_over(v, "struct ApiError", &fields, false)
    }

    pub fn from_json(v: &Json) -> (r: Result<ApiError, String>)
        ensures
            match r {
                Ok(read) => as_failure(v@) == Some(read@),
                Err(words) => as_failure(v@) is None && failure_fault(v@) == Some(words@),
            },
    {
        proof {
            json::every_document_is_orderly(*v);
            lemma_failure(v@);
        }
        match ApiError::refusal(v) {
            Some(words) => Err(words),
            None => Ok(ApiError::read(v).unwrap()),
        }
    }
}

/// What is known of the members of a failure.
pub open spec fn failure_known(v: json::JsonView) -> Seq<FieldView> {
    seq![
        fault::any_word_field(v, "code"@),
        fault::text_field(v, "message"@),
    ]
}

/// What is wrong with a document that is to be a failure.
pub open spec fn failure_fault(v: json::JsonView) -> Option<Seq<char>> {
    fault::record_fault(v, "struct ApiError"@, failure_known(v), false)
}

/// A document is refused exactly where it is not a failure.
pub proof fn lemma_failure(v: json::JsonView)
    requires
        json::orderly(v),
    ensures
        failure_fault(v) is None <==> as_failure(v) is Some,
{
    let fields = failure_known(v);
    fault::lemma_record(v, "struct ApiError"@, fields, false);
    assert(fault::all_sound(v, fields) <==> fault::sound(v, fields[0]) && fault::sound(v, fields[1]));
}

} // verus!
