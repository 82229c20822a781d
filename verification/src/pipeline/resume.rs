//! Pipeline-owned replay of the event log into the exact stage, typed
//! reports, and human input needed to resume in place.

use crate::event::{self, EventEnvelope, RunEvent};
use crate::json::{self, Json};
use crate::pipeline::contract::{self, Stage, StageReport};
use crate::preamble::{self, HumanInput};
use crate::report::{self, Answer, Question};
use crate::run::RunState;
use crate::text;
use crate::wire;
use vstd::prelude::*;

verus! {

/// Where a paused run takes up its work again.
#[derive(Debug, PartialEq, Eq)]
pub struct ResumePoint {
    pub iteration: u32,
    pub position: Position,
    /// What the human sent back.
    pub human: Option<HumanInput>,
    /// The summary of the latest report that still counts.
    pub notification_summary: Option<String>,
}

/// Whether a resumed run opens an iteration or re-enters one.
#[derive(Debug, PartialEq, Eq)]
pub enum Position {
    NewIteration,
    Interrupted { stage: Stage, completed: Vec<StageReport> },
}

/// Whether a resumed run opens an iteration or re-enters one.
#[verifier::ext_equal]
pub ghost enum PositionView {
    NewIteration,
    Interrupted { stage: Stage, completed: Seq<contract::StageReportView> },
}

impl View for Position {
    type V = PositionView;

    open spec fn view(&self) -> PositionView {
        match self {
            Position::NewIteration => PositionView::NewIteration,
            Position::Interrupted { stage, completed } => PositionView::Interrupted {
                stage: *stage,
                completed: contract::report_views(completed@),
            },
        }
    }
}

/// A replayed log that describes no valid resume point.
#[derive(Debug, Clone, PartialEq, Eq)]
pub enum ResumeError {
    MissingResume,
    MissingPause,
    MissingIteration,
    UnknownStage { seq: u64, name: String },
    InvalidReport { seq: u64, detail: String },
}

impl ResumeError {
    /// The message the failure is told by.
    pub open spec fn message(self) -> Seq<char> {
        match self {
            ResumeError::MissingResume => "replayed log has no resume command"@,
            ResumeError::MissingPause => "replayed log has no pause before its resume command"@,
            ResumeError::MissingIteration => "replayed log has no iteration before its pause"@,
            ResumeError::UnknownStage { seq, name } => "stage event at seq "@ + text::decimal(
                seq as nat,
            ) + " names unknown pipeline stage `"@ + name@ + "`"@,
            ResumeError::InvalidReport { seq, detail } => "stage report at seq "@ + text::decimal(
                seq as nat,
            ) + " is invalid: "@ + detail@,
        }
    }

    pub fn to_text(&self) -> (s: String)
        ensures
            s@ == self.message(),
    {
        match self {
            ResumeError::MissingResume => "replayed log has no resume command".to_owned(),
            ResumeError::MissingPause => {
                "replayed log has no pause before its resume command".to_owned()
            },
            ResumeError::MissingIteration => {
                "replayed log has no iteration before its pause".to_owned()
            },
            ResumeError::UnknownStage { seq, name } => {
                let mut s = "stage event at seq ".to_owned();
                let number = text::decimal_of(*seq);
                s.append(number.as_str());
                s.append(" names unknown pipeline stage `");
                s.append(name.as_str());
                s.append("`");
                s
            },
            ResumeError::InvalidReport { seq, detail } => {
                let mut s = "stage report at seq ".to_owned();
                let number = text::decimal_of(*seq);
                s.append(number.as_str());
                s.append(" is invalid: ");
                s.append(detail.as_str());
                s
            },
        }
    }
}

/// Why a log describes no valid resume point.
#[verifier::ext_equal]
pub ghost enum Fault {
    MissingResume,
    MissingPause,
    MissingIteration,
    UnknownStage { seq: u64, name: Seq<char> },
    InvalidReport { seq: u64, detail: Seq<char> },
}

impl ResumeError {
    /// The fault the error reports.
    pub open spec fn fault(self) -> Fault {
        match self {
            ResumeError::MissingResume => Fault::MissingResume,
            ResumeError::MissingPause => Fault::MissingPause,
            ResumeError::MissingIteration => Fault::MissingIteration,
            ResumeError::UnknownStage { seq, name } => Fault::UnknownStage { seq, name: name@ },
            ResumeError::InvalidReport { seq, detail } => Fault::InvalidReport {
                seq,
                detail: detail@,
            },
        }
    }
}

/// What a replay looks for in a log.
#[derive(Debug, Clone, Copy, PartialEq, Eq, Structural)]
pub enum Mark {
    /// A resume command.
    Resumed,
    /// A pause.
    Paused,
    /// The start of an iteration.
    Started,
}

/// Whether an event is the one looked for.
pub open spec fn marks(mark: Mark, e: event::EventView) -> bool {
    match mark {
        Mark::Resumed => e is RunResumed,
        Mark::Paused => e matches event::EventView::StateChanged { state } && state is Paused,
        Mark::Started => e is IterationStarted,
    }
}

/// Where the last event of a kind stands; -1 where there is none.
pub open spec fn last_mark(mark: Mark, events: Seq<event::EnvelopeView>) -> int
    decreases events.len(),
{
    if events.len() == 0 {
        -1
    } else if marks(mark, events.last().event) {
        events.len() - 1
    } else {
        last_mark(mark, events.drop_last())
    }
}

/// Where the last event of a kind stands among the first `limit`.
fn find_last(mark: Mark, events: &Vec<EventEnvelope>, limit: usize) -> (r: Option<usize>)
    requires
        limit <= events@.len(),
    ensures
        match r {
            Some(i) => i < limit && i == last_mark(
                mark,
                event::envelope_views(events@).take(limit as int),
            ) && marks(mark, events@[i as int]@.event),
            None => last_mark(mark, event::envelope_views(events@).take(limit as int)) == -1,
        },
{
    let ghost all = event::envelope_views(events@);
    let mut i: usize = limit;
    while i > 0
        invariant
            i <= limit <= events@.len(),
            all == event::envelope_views(events@),
            last_mark(mark, all.take(i as int)) == last_mark(mark, all.take(limit as int)),
        decreases i,
    {
        i = i - 1;
        assert(all.take(i + 1).drop_last() =~= all.take(i as int));
        assert(all.take(i + 1).last() == events@[i as int]@);
        let found: bool = match (&events[i].event, mark) {
            (RunEvent::RunResumed { .. }, Mark::Resumed) => true,
            (RunEvent::StateChanged { state: RunState::Paused { .. } }, Mark::Paused) => true,
            (RunEvent::IterationStarted { .. }, Mark::Started) => true,
            _ => false,
        };
        if found {
            return Some(i);
        }
    }
    assert(all.take(0) =~= Seq::empty());
    None
}

/// Whether iteration `n` is closed somewhere in `span`.
pub open spec fn finishes(span: Seq<event::EnvelopeView>, n: u32) -> bool {
    exists|i: int|
        0 <= i < span.len() && (#[trigger] span[i].event matches event::EventView::IterationFinished {
            iteration,
            ..
        } && iteration == n)
}

/// The last stage that iteration `n` announced in `span`.
pub open spec fn last_stage(span: Seq<event::EnvelopeView>, n: u32) -> Result<Option<Stage>, Fault>
    decreases span.len(),
{
    if span.len() == 0 {
        Ok(None)
    } else {
        match span.last().event {
            event::EventView::StageStarted { iteration, stage } => if iteration == n {
                match contract::stage_named(stage) {
                    Some(stage) => Ok(Some(stage)),
                    None => Err(Fault::UnknownStage { seq: span.last().seq, name: stage }),
                }
            } else {
                last_stage(span.drop_last(), n)
            },
            _ => last_stage(span.drop_last(), n),
        }
    }
}

/// The reports that iteration `n` left in `span` for the stages before
/// `limit`, by their place in the sequence, the latest of each stage.
pub open spec fn reports_before(
    span: Seq<event::EnvelopeView>,
    n: u32,
    limit: int,
) -> Result<Map<int, contract::StageReportView>, Fault>
    decreases span.len(),
{
    if span.len() == 0 {
        Ok(Map::empty())
    } else {
        match reports_before(span.drop_last(), n, limit) {
            Err(fault) => Err(fault),
            Ok(reports) => match span.last().event {
                event::EventView::StageReported { iteration, stage, report } => if iteration != n {
                    Ok(reports)
                } else {
                    match contract::stage_named(stage) {
                        None => Err(Fault::UnknownStage { seq: span.last().seq, name: stage }),
                        Some(stage) => if stage.position() >= limit {
                            Ok(reports)
                        } else {
                            match contract::as_stage_report(stage, report) {
                                None => Err(
                                    Fault::InvalidReport {
                                        seq: span.last().seq,
                                        detail: contract::no_report(stage, report),
                                    },
                                ),
                                Some(r) => Ok(reports.insert(stage.position(), r)),
                            }
                        },
                    }
                },
                _ => Ok(reports),
            },
        }
    }
}

/// The reports at the first `k` places, in order.
pub open spec fn in_order(
    reports: Map<int, contract::StageReportView>,
    k: int,
) -> Seq<contract::StageReportView>
    decreases k,
{
    if k <= 0 {
        Seq::empty()
    } else if reports.dom().contains(k - 1) {
        in_order(reports, k - 1).push(reports[k - 1])
    } else {
        in_order(reports, k - 1)
    }
}

/// The questions of the last report that the interrupted stage left in
/// `span`.
pub open spec fn open_questions(
    span: Seq<event::EnvelopeView>,
    n: u32,
    interrupted: Stage,
) -> Result<Seq<report::QuestionView>, Fault>
    decreases span.len(),
{
    if span.len() == 0 {
        Ok(Seq::empty())
    } else {
        match span.last().event {
            event::EventView::StageReported { iteration, stage, report } => if iteration != n {
                open_questions(span.drop_last(), n, interrupted)
            } else {
                match contract::stage_named(stage) {
                    None => Err(Fault::UnknownStage { seq: span.last().seq, name: stage }),
                    Some(stage) => if stage != interrupted {
                        open_questions(span.drop_last(), n, interrupted)
                    } else {
                        match contract::as_stage_report(stage, report) {
                            None => Err(
                                Fault::InvalidReport {
                                    seq: span.last().seq,
                                    detail: contract::no_report(stage, report),
                                },
                            ),
                            Some(r) => Ok(r.questions),
                        }
                    },
                }
            },
            _ => open_questions(span.drop_last(), n, interrupted),
        }
    }
}

/// The summary of the latest report that still counts: a refutation retires
/// the claim it refutes.
pub open spec fn latest_summary(events: Seq<event::EnvelopeView>) -> Option<Seq<char>>
    decreases events.len(),
{
    if events.len() == 0 {
        None
    } else {
        match events.last().event {
            event::EventView::StageReported { iteration, stage, report } => match wire::text_at(
                report,
                "summary"@,
            ) {
                Some(summary) => Some(summary),
                None => latest_summary(events.drop_last()),
            },
            event::EventView::SkepticVerdict { iteration, refuted, findings } => if refuted {
                None
            } else {
                latest_summary(events.drop_last())
            },
            _ => latest_summary(events.drop_last()),
        }
    }
}

/// The answers given in `span`, by the question they name, the latest of
/// each.
pub open spec fn answers_given(span: Seq<event::EnvelopeView>) -> Map<Seq<char>, Seq<char>>
    decreases span.len(),
{
    if span.len() == 0 {
        Map::empty()
    } else {
        let before = answers_given(span.drop_last());
        match span.last().event {
            event::EventView::QuestionAnswered { question_id, answer } => before.insert(
                question_id,
                answer,
            ),
            _ => before,
        }
    }
}

/// The note of the last resume command in `span`.
pub open spec fn note_given(span: Seq<event::EnvelopeView>) -> Option<Seq<char>>
    decreases span.len(),
{
    if span.len() == 0 {
        None
    } else {
        match span.last().event {
            event::EventView::RunResumed { note } => note,
            _ => note_given(span.drop_last()),
        }
    }
}

/// Whether `answers` lists a map of answers in the order of the questions'
/// names.
pub open spec fn lists(answers: Seq<report::AnswerView>, given: Map<Seq<char>, Seq<char>>) -> bool {
    &&& forall|i: int, j: int|
        0 <= i < j < answers.len() ==> text::precedes(
            #[trigger] answers[i].question_id,
            #[trigger] answers[j].question_id,
        )
    &&& forall|i: int|
        0 <= i < answers.len() ==> given.dom().contains(#[trigger] answers[i].question_id)
            && given[answers[i].question_id] == answers[i].answer
    &&& forall|id: Seq<char>| #[trigger]
        given.dom().contains(id) ==> names_question(answers, id)
}

/// Whether some answer names the question `id`.
pub open spec fn names_question(answers: Seq<report::AnswerView>, id: Seq<char>) -> bool {
    exists|i: int| 0 <= i < answers.len() && #[trigger] answers[i].question_id == id
}

/// Whether `human` is what the human said between the pause and the resume:
/// nothing, or the latest answer to each question, the questions they
/// address, and the note.
pub open spec fn said(
    span: Seq<event::EnvelopeView>,
    questions: Seq<report::QuestionView>,
    human: Option<preamble::HumanInputView>,
) -> bool {
    match human {
        None => answers_given(span) == Map::<Seq<char>, Seq<char>>::empty() && note_given(
            span,
        ) is None,
        Some(input) => {
            &&& lists(input.answers, answers_given(span))
            &&& input.questions == questions
            &&& input.note == note_given(span)
            &&& input.answers.len() > 0 || input.note is Some
        },
    }
}

/// What a replay finds: where the run goes on, and the questions that the
/// human's answers address.
#[verifier::ext_equal]
pub ghost struct Found {
    pub iteration: u32,
    pub position: PositionView,
    pub questions: Seq<report::QuestionView>,
}

/// Where iteration `n`, which began before `span`, is to be taken up.
pub open spec fn found_in(span: Seq<event::EnvelopeView>, n: u32) -> Result<Found, Fault> {
    if finishes(span, n) {
        Ok(
            Found {
                iteration: if n == u32::MAX {
                    n
                } else {
                    (n + 1) as u32
                },
                position: PositionView::NewIteration,
                questions: Seq::empty(),
            },
        )
    } else {
        match last_stage(span, n) {
            Err(fault) => Err(fault),
            Ok(last) => {
                let stage = match last {
                    Some(stage) => stage,
                    None => Stage::Plan,
                };
                match (
                    reports_before(span, n, stage.position()),
                    open_questions(span, n, stage),
                ) {
                    (Err(fault), _) => Err(fault),
                    (_, Err(fault)) => Err(fault),
                    (Ok(reports), Ok(questions)) => Ok(
                        Found {
                            iteration: n,
                            position: PositionView::Interrupted {
                                stage,
                                completed: in_order(reports, contract::STAGES as int),
                            },
                            questions,
                        },
                    ),
                }
            },
        }
    }
}

/// Whether `r` is the resume point that a log describes: after its last
/// resume command, the pause before that, and the iteration that the pause
/// interrupted or followed.
pub open spec fn resumes(
    events: Seq<event::EnvelopeView>,
    r: Result<ResumePoint, ResumeError>,
) -> bool {
    let resumed = last_mark(Mark::Resumed, events);
    let paused = last_mark(Mark::Paused, events.take(resumed));
    let started = last_mark(Mark::Started, events.take(paused));
    if resumed < 0 {
        r matches Err(e) && e.fault() == Fault::MissingResume
    } else if paused < 0 {
        r matches Err(e) && e.fault() == Fault::MissingPause
    } else if started < 0 {
        r matches Err(e) && e.fault() == Fault::MissingIteration
    } else {
        let n = events[started].event->IterationStarted_iteration;
        match found_in(events.subrange(started + 1, paused + 1), n) {
            Err(fault) => r matches Err(e) && e.fault() == fault,
            Ok(found) => {
                &&& r matches Ok(point)
                &&& point.iteration == found.iteration
                &&& point.position@ == found.position
                &&& said(
                    events.subrange(paused + 1, resumed + 1),
                    found.questions,
                    match point.human {
                        Some(human) => Some(human@),
                        None => None,
                    },
                )
                &&& wire::opt_text(point.notification_summary) == latest_summary(
                    events.take(paused + 1),
                )
            },
        }
    }
}

fn unknown_stage(seq: u64, name: &str) -> (r: ResumeError)
    ensures
        r.fault() == (Fault::UnknownStage { seq, name: name@ }),
{
    ResumeError::UnknownStage { seq, name: name.to_owned() }
}

/// [`finishes`], computed on a range of the log.
fn is_finished(events: &Vec<EventEnvelope>, from: usize, to: usize, n: u32) -> (r: bool)
    requires
        from <= to <= events@.len(),
    ensures
        r == finishes(event::envelope_views(events@).subrange(from as int, to as int), n),
{
    let ghost all = event::envelope_views(events@);
    let ghost span = all.subrange(from as int, to as int);
    for i in from..to
        invariant
            from <= to <= events@.len(),
            all == event::envelope_views(events@),
            span == all.subrange(from as int, to as int),
            forall|j: int|
                0 <= j < i - from ==> !(#[trigger] span[j].event matches event::EventView::IterationFinished {
                    iteration,
                    ..
                } && iteration == n),
    {
        assert(span[i - from] == events@[i as int]@);
        if let RunEvent::IterationFinished { iteration, .. } = &events[i].event {
            if *iteration == n {
                return true;
            }
        }
    }
    false
}

/// [`last_stage`], computed on a range of the log.
fn last_started_stage(events: &Vec<EventEnvelope>, from: usize, to: usize, n: u32) -> (r: Result<
    Option<Stage>,
    ResumeError,
>)
    requires
        from <= to <= events@.len(),
    ensures
        match r {
            Ok(stage) => last_stage(
                event::envelope_views(events@).subrange(from as int, to as int),
                n,
            ) == Ok::<Option<Stage>, Fault>(stage),
            Err(e) => last_stage(
                event::envelope_views(events@).subrange(from as int, to as int),
                n,
            ) == Err::<Option<Stage>, Fault>(e.fault()),
        },
{
    let ghost all = event::envelope_views(events@);
    let ghost whole = all.subrange(from as int, to as int);
    let mut i: usize = to;
    while i > from
        invariant
            from <= i <= to <= events@.len(),
            all == event::envelope_views(events@),
            whole == all.subrange(from as int, to as int),
            last_stage(all.subrange(from as int, i as int), n) == last_stage(whole, n),
        decreases i,
    {
        i = i - 1;
        assert(all.subrange(from as int, i + 1).drop_last() =~= all.subrange(
            from as int,
            i as int,
        ));
        assert(all.subrange(from as int, i + 1).last() == events@[i as int]@);
        if let RunEvent::StageStarted { iteration, stage } = &events[i].event {
            if *iteration == n {
                return match Stage::named(stage.as_str()) {
                    Some(stage) => Ok(Some(stage)),
                    None => Err(unknown_stage(events[i].seq, stage.as_str())),
                };
            }
        }
    }
    assert(all.subrange(from as int, from as int) =~= Seq::empty());
    Ok(None)
}

/// Reads a logged report in its stage's dialect.
fn parse_report(seq: u64, stage: Stage, raw: &Json) -> (r: Result<StageReport, ResumeError>)
    ensures
        match r {
            Ok(report) => contract::as_stage_report(stage, raw@) == Some(report@),
            Err(e) => contract::as_stage_report(stage, raw@) is None && e.fault()
                == (Fault::InvalidReport { seq, detail: contract::no_report(stage, raw@) }),
        },
{
    match StageReport::from_json(stage, raw) {
        Ok(report) => Ok(report),
        Err(detail) => Err(ResumeError::InvalidReport { seq, detail }),
    }
}

/// What the slots of a table of reports hold.
spec fn slot_views(slots: Seq<Option<StageReport>>) -> Map<int, contract::StageReportView> {
    Map::new(
        |i: int| 0 <= i < slots.len() && slots[i] is Some,
        |i: int| slots[i]->0@,
    )
}

/// The reports that the stages before the interrupted one completed, in
/// order.
fn completed_reports(
    events: &Vec<EventEnvelope>,
    from: usize,
    to: usize,
    n: u32,
    interrupted: Stage,
) -> (r: Result<Vec<StageReport>, ResumeError>)
    requires
        from <= to <= events@.len(),
    ensures
        match r {
            Ok(reports) => reports_before(
                event::envelope_views(events@).subrange(from as int, to as int),
                n,
                interrupted.position(),
            ) matches Ok(m) && contract::report_views(reports@) == in_order(
                m,
                contract::STAGES as int,
            ),
            Err(e) => reports_before(
                event::envelope_views(events@).subrange(from as int, to as int),
                n,
                interrupted.position(),
            ) == Err::<Map<int, contract::StageReportView>, Fault>(e.fault()),
        },
{
    let ghost all = event::envelope_views(events@);
    let ghost limit = interrupted.position();
    let mut slots: Vec<Option<StageReport>> = vec![None, None, None, None, None];
    assert(slot_views(slots@) =~= Map::empty());
    assert(all.subrange(from as int, from as int) =~= Seq::empty());
    let mut i: usize = from;
    while i < to
        invariant
            from <= i <= to <= events@.len(),
            all == event::envelope_views(events@),
            limit == interrupted.position(),
            slots@.len() == contract::STAGES,
            reports_before(all.subrange(from as int, i as int), n, limit) == Ok::<
                Map<int, contract::StageReportView>,
                Fault,
            >(slot_views(slots@)),
        decreases to - i,
    {
        let ghost longer = all.subrange(from as int, i + 1);
        assert(longer.drop_last() =~= all.subrange(from as int, i as int));
        assert(longer.last() == events@[i as int]@);
        let ghost before = slots@;
        if let RunEvent::StageReported { iteration, stage, report } = &events[i].event {
            if *iteration == n {
                match Stage::named(stage.as_str()) {
                    None => {
                        let error = unknown_stage(events[i].seq, stage.as_str());
                        proof {
                            lemma_fault_persists(all, from as int, i + 1, to as int, n, limit);
                        }
                        return Err(error);
                    },
                    Some(stage) => {
                        if stage.index() < interrupted.index() {
                            match parse_report(events[i].seq, stage, report) {
                                Ok(report) => {
                                    let ghost view = report@;
                                    let at: usize = stage.index();
                                    slots.set(at, Some(report));
                                    assert(slot_views(slots@) =~= slot_views(before).insert(
                                        at as int,
                                        view,
                                    ));
                                },
                                Err(error) => {
                                    proof {
                                        lemma_fault_persists(
                                            all,
                                            from as int,
                                            i + 1,
                                            to as int,
                                            n,
                                            limit,
                                        );
                                    }
                                    return Err(error);
                                },
                            }
                        }
                    },
                }
            }
        }
        i = i + 1;
    }
    let ghost m = slot_views(slots@);
    let mut reports: Vec<StageReport> = Vec::new();
    let mut k: usize = 0;
    let ghost full = slots@;
    assert(slots@ =~= full.subrange(0, contract::STAGES as int));
    assert(contract::report_views(reports@) =~= Seq::empty());
    while k < contract::STAGES
        invariant
            k <= contract::STAGES,
            full.len() == contract::STAGES,
            m == slot_views(full),
            slots@ == full.subrange(k as int, contract::STAGES as int),
            contract::report_views(reports@) == in_order(m, k as int),
        decreases contract::STAGES - k,
    {
        let ghost before = reports@;
        let slot = slots.remove(0);
        assert(slot == full[k as int]);
        if let Some(report) = slot {
            reports.push(report);
            assert(contract::report_views(reports@) =~= contract::report_views(before).push(
                report@,
            ));
        }
        k = k + 1;
    }
    Ok(reports)
}

/// A fault found early in a log is the log's fault.
proof fn lemma_fault_persists(
    all: Seq<event::EnvelopeView>,
    from: int,
    i: int,
    to: int,
    n: u32,
    limit: int,
)
    requires
        0 <= from <= i <= to <= all.len(),
        reports_before(all.subrange(from, i), n, limit) is Err,
    ensures
        reports_before(all.subrange(from, to), n, limit) == reports_before(
            all.subrange(from, i),
            n,
            limit,
        ),
    decreases to - i,
{
    if i < to {
        assert(all.subrange(from, to).drop_last() =~= all.subrange(from, to - 1));
        lemma_fault_persists(all, from, i, to - 1, n, limit);
    }
}

/// The questions that the interrupted stage's last report asked.
fn interrupted_questions(
    events: &Vec<EventEnvelope>,
    from: usize,
    to: usize,
    n: u32,
    interrupted: Stage,
) -> (r: Result<Vec<Question>, ResumeError>)
    requires
        from <= to <= events@.len(),
    ensures
        match r {
            Ok(questions) => open_questions(
                event::envelope_views(events@).subrange(from as int, to as int),
                n,
                interrupted,
            ) == Ok::<Seq<report::QuestionView>, Fault>(report::question_views(questions@)),
            Err(e) => open_questions(
                event::envelope_views(events@).subrange(from as int, to as int),
                n,
                interrupted,
            ) == Err::<Seq<report::QuestionView>, Fault>(e.fault()),
        },
{
    let ghost all = event::envelope_views(events@);
    let ghost whole = all.subrange(from as int, to as int);
    let mut i: usize = to;
    while i > from
        invariant
            from <= i <= to <= events@.len(),
            all == event::envelope_views(events@),
            whole == all.subrange(from as int, to as int),
            open_questions(all.subrange(from as int, i as int), n, interrupted) == open_questions(
                whole,
                n,
                interrupted,
            ),
        decreases i,
    {
        i = i - 1;
        assert(all.subrange(from as int, i + 1).drop_last() =~= all.subrange(
            from as int,
            i as int,
        ));
        assert(all.subrange(from as int, i + 1).last() == events@[i as int]@);
        if let RunEvent::StageReported { iteration, stage, report } = &events[i].event {
            if *iteration == n {
                match Stage::named(stage.as_str()) {
                    None => return Err(unknown_stage(events[i].seq, stage.as_str())),
                    Some(stage) => {
                        if stage == interrupted {
                            return match parse_report(events[i].seq, stage, report) {
                                Ok(report) => Ok(report::copied_questions(report.questions())),
                                Err(error) => Err(error),
                            };
                        }
                    },
                }
            }
        }
    }
    assert(all.subrange(from as int, from as int) =~= Seq::empty());
    let none: Vec<Question> = Vec::new();
    assert(report::question_views(none@) =~= Seq::empty());
    Ok(none)
}

/// Lists one answer more, in its place, over an earlier one to the same
/// question.
fn place_answer(answers: &mut Vec<Answer>, id: &str, answer: &str, given: Ghost<
    Map<Seq<char>, Seq<char>>,
>)
    requires
        lists(report::answer_views(old(answers)@), given@),
    ensures
        lists(report::answer_views(final(answers)@), given@.insert(id@, answer@)),
{
    let ghost before = report::answer_views(answers@);
    let mut at: usize = 0;
    while at < answers.len() && text::comes_before(answers[at].question_id.as_str(), id)
        invariant
            report::answer_views(answers@) == before,
            at <= answers@.len(),
            forall|i: int| 0 <= i < at ==> text::precedes(#[trigger] before[i].question_id, id@),
        decreases answers@.len() - at,
    {
        assert(before[at as int] == answers@[at as int]@);
        at = at + 1;
    }
    let replaces: bool = at < answers.len() && text::same(
        answers[at].question_id.as_str(),
        id,
    );
    let placed = Answer { question_id: id.to_owned(), answer: answer.to_owned() };
    let ghost new = placed@;
    if replaces {
        assert(before[at as int] == answers@[at as int]@);
        answers.set(at, placed);
        assert(report::answer_views(answers@) =~= before.update(at as int, new));
        let ghost after = before.update(at as int, new);
        proof {
            let grown = given@.insert(id@, answer@);
            assert forall|i: int| 0 <= i < after.len() implies grown.dom().contains(
                #[trigger] after[i].question_id,
            ) && grown[after[i].question_id] == after[i].answer by {
                assert(after[i].question_id == before[i].question_id);
                if i != at {
                    if i < at {
                        text::lemma_precedes_orders(
                            before[i].question_id,
                            before[at as int].question_id,
                        );
                    } else {
                        text::lemma_precedes_orders(
                            before[at as int].question_id,
                            before[i].question_id,
                        );
                    }
                }
            }
            assert forall|k: Seq<char>| #[trigger] grown.dom().contains(k) implies names_question(
                after,
                k,
            ) by {
                if k == id@ {
                    assert(after[at as int].question_id == k);
                } else {
                    assert(given@.dom().contains(k));
                    let i = choose|i: int|
                        0 <= i < before.len() && #[trigger] before[i].question_id == k;
                    assert(after[i].question_id == k);
                }
            }
            assert forall|i: int, j: int| 0 <= i < j < after.len() implies text::precedes(
                #[trigger] after[i].question_id,
                #[trigger] after[j].question_id,
            ) by {
                assert(after[i].question_id == before[i].question_id);
                assert(after[j].question_id == before[j].question_id);
            }
        }
    } else {
        answers.insert(at, placed);
        let ghost after = report::answer_views(answers@);
        assert(after =~= before.insert(at as int, new));
        proof {
            assert forall|i: int| at <= i < before.len() implies text::precedes(
                id@,
                #[trigger] before[i].question_id,
            ) by {
                text::lemma_precedes_orders(before[at as int].question_id, id@);
                if i > at {
                    text::lemma_precedes_chains(
                        id@,
                        before[at as int].question_id,
                        before[i].question_id,
                    );
                }
            }
            let grown = given@.insert(id@, answer@);
            assert forall|i: int| 0 <= i < after.len() implies grown.dom().contains(
                #[trigger] after[i].question_id,
            ) && grown[after[i].question_id] == after[i].answer by {
                if i < at {
                    assert(after[i] == before[i]);
                    text::lemma_precedes_orders(before[i].question_id, id@);
                } else if i > at {
                    assert(after[i] == before[i - 1]);
                    text::lemma_precedes_orders(id@, before[i - 1].question_id);
                }
            }
            assert forall|k: Seq<char>| #[trigger] grown.dom().contains(k) implies names_question(
                after,
                k,
            ) by {
                if k == id@ {
                    assert(after[at as int].question_id == k);
                } else {
                    assert(given@.dom().contains(k));
                    let i = choose|i: int|
                        0 <= i < before.len() && #[trigger] before[i].question_id == k;
                    if i < at {
                        assert(after[i].question_id == k);
                    } else {
                        assert(after[i + 1].question_id == k);
                    }
                }
            }
            assert forall|i: int, j: int| 0 <= i < j < after.len() implies text::precedes(
                #[trigger] after[i].question_id,
                #[trigger] after[j].question_id,
            ) by {
                if i < at {
                    assert(after[i] == before[i]);
                } else if i > at {
                    assert(after[i] == before[i - 1]);
                }
                if j < at {
                    assert(after[j] == before[j]);
                } else if j > at {
                    assert(after[j] == before[j - 1]);
                }
            }
        }
    }
}

/// What the human said in a range of the log.
fn human_input(events: &Vec<EventEnvelope>, from: usize, to: usize, questions: Vec<Question>) -> (r:
    Option<HumanInput>)
    requires
        from <= to <= events@.len(),
    ensures
        said(
            event::envelope_views(events@).subrange(from as int, to as int),
            report::question_views(questions@),
            match r {
                Some(human) => Some(human@),
                None => None,
            },
        ),
{
    let ghost all = event::envelope_views(events@);
    let mut answers: Vec<Answer> = Vec::new();
    let mut note: Option<String> = None;
    assert(all.subrange(from as int, from as int) =~= Seq::empty());
    assert(report::answer_views(answers@) =~= Seq::empty());
    for i in from..to
        invariant
            from <= to <= events@.len(),
            all == event::envelope_views(events@),
            lists(
                report::answer_views(answers@),
                answers_given(all.subrange(from as int, i as int)),
            ),
            wire::opt_text(note) == note_given(all.subrange(from as int, i as int)),
    {
        let ghost longer = all.subrange(from as int, i + 1);
        assert(longer.drop_last() =~= all.subrange(from as int, i as int));
        assert(longer.last() == events@[i as int]@);
        match &events[i].event {
            RunEvent::QuestionAnswered { question_id, answer } => {
                place_answer(
                    &mut answers,
                    question_id.as_str(),
                    answer.as_str(),
                    Ghost(answers_given(all.subrange(from as int, i as int))),
                );
            },
            RunEvent::RunResumed { note: resumed } => {
                note = match resumed {
                    Some(words) => Some(words.clone()),
                    None => None,
                };
            },
            _ => {},
        }
    }
    let ghost given = answers_given(all.subrange(from as int, to as int));
    if answers.len() == 0 && note.is_none() {
        assert(report::answer_views(answers@) =~= Seq::empty());
        assert forall|k: Seq<char>| !(#[trigger] given.dom().contains(k)) by {
            assert(given.dom().contains(k) ==> names_question(
                report::answer_views(answers@),
                k,
            ));
        }
        assert(given =~= Map::empty());
        return None;
    }
    Some(HumanInput { answers, questions, note })
}

/// The summary of the latest report that still counts, among the first `to`
/// events.
fn eligible_summary(events: &Vec<EventEnvelope>, to: usize) -> (r: Option<String>)
    requires
        to <= events@.len(),
    ensures
        wire::opt_text(r) == latest_summary(event::envelope_views(events@).take(to as int)),
{
    let ghost all = event::envelope_views(events@);
    let mut i: usize = to;
    while i > 0
        invariant
            i <= to <= events@.len(),
            all == event::envelope_views(events@),
            latest_summary(all.take(i as int)) == latest_summary(all.take(to as int)),
        decreases i,
    {
        i = i - 1;
        assert(all.take(i + 1).drop_last() =~= all.take(i as int));
        assert(all.take(i + 1).last() == events@[i as int]@);
        match &events[i].event {
            RunEvent::StageReported { report, .. } => {
                if let Some(summary) = wire::read_text(report, "summary") {
                    return Some(summary);
                }
            },
            RunEvent::SkepticVerdict { refuted, .. } => {
                if *refuted {
                    return None;
                }
            },
            _ => {},
        }
    }
    assert(all.take(0) =~= Seq::empty());
    None
}

impl ResumePoint {
    /// Replays a log into the point a resumed run goes on from.
    pub fn from_events(events: &Vec<EventEnvelope>) -> (r: Result<ResumePoint, ResumeError>)
        ensures
            resumes(event::envelope_views(events@), r),
    {
        let ghost all = event::envelope_views(events@);
        assert(all.take(events@.len() as int) =~= all);
        let resumed_at: usize = match find_last(Mark::Resumed, events, events.len()) {
            Some(i) => i,
            None => return Err(ResumeError::MissingResume),
        };
        let paused_at: usize = match find_last(Mark::Paused, events, resumed_at) {
            Some(i) => i,
            None => return Err(ResumeError::MissingPause),
        };
        let started_at: usize = match find_last(Mark::Started, events, paused_at) {
            Some(i) => i,
            None => return Err(ResumeError::MissingIteration),
        };
        assert(all[started_at as int] == events@[started_at as int]@);
        let n: u32 = match &events[started_at].event {
            RunEvent::IterationStarted { iteration } => *iteration,
            _ => 0,
        };
        let from: usize = started_at + 1;
        let to: usize = paused_at + 1;
        let (iteration, position, questions): (u32, Position, Vec<Question>) = if is_finished(
            events,
            from,
            to,
            n,
        ) {
            let none: Vec<Question> = Vec::new();
            assert(report::question_views(none@) =~= Seq::empty());
            (n.saturating_add(1), Position::NewIteration, none)
        } else {
            let stage: Stage = match last_started_stage(events, from, to, n) {
                Ok(Some(stage)) => stage,
                Ok(None) => Stage::Plan,
                Err(error) => return Err(error),
            };
            let completed = match completed_reports(events, from, to, n, stage) {
                Ok(completed) => completed,
                Err(error) => return Err(error),
            };
            let questions = match interrupted_questions(events, from, to, n, stage) {
                Ok(questions) => questions,
                Err(error) => return Err(error),
            };
            (n, Position::Interrupted { stage, completed }, questions)
        };
        let human = human_input(events, to, resumed_at + 1, questions);
        let notification_summary = eligible_summary(events, to);
        Ok(ResumePoint { iteration, position, human, notification_summary })
    }
}

/// Whether a log holds an event of a kind.
pub open spec fn has_mark(mark: Mark, events: Seq<event::EnvelopeView>) -> bool {
    exists|i: int| 0 <= i < events.len() && marks(mark, #[trigger] events[i].event)
}

proof fn lemma_last_mark(mark: Mark, events: Seq<event::EnvelopeView>)
    ensures
        -1 <= last_mark(mark, events) < events.len(),
        has_mark(mark, events) ==> last_mark(mark, events) >= 0,
    decreases events.len(),
{
    if events.len() > 0 && !marks(mark, events.last().event) {
        let rest = events.drop_last();
        lemma_last_mark(mark, rest);
        if has_mark(mark, events) {
            let i = choose|i: int|
                0 <= i < events.len() && marks(mark, #[trigger] events[i].event);
            assert(rest[i].event == events[i].event);
        }
    }
}

proof fn lemma_last_mark_stays(
    mark: Mark,
    events: Seq<event::EnvelopeView>,
    extra: Seq<event::EnvelopeView>,
)
    requires
        !has_mark(mark, extra),
    ensures
        last_mark(mark, events + extra) == last_mark(mark, events),
    decreases extra.len(),
{
    if extra.len() == 0 {
        assert(events + extra =~= events);
    } else {
        let fewer = extra.drop_last();
        assert(!marks(mark, extra[extra.len() - 1].event));
        assert((events + extra).last() == extra.last());
        assert((events + extra).drop_last() =~= events + fewer);
        assert(!has_mark(mark, fewer)) by {
            if has_mark(mark, fewer) {
                let i = choose|i: int|
                    0 <= i < fewer.len() && marks(mark, #[trigger] fewer[i].event);
                assert(marks(mark, extra[i].event));
            }
        }
        lemma_last_mark_stays(mark, events, fewer);
    }
}

/// What a resumed run has logged since its last resume command changes
/// nothing of the point it is resumed from.
pub proof fn later_events_leave_the_resume_point(
    events: Seq<event::EnvelopeView>,
    extra: Seq<event::EnvelopeView>,
    r: Result<ResumePoint, ResumeError>,
)
    requires
        has_mark(Mark::Resumed, events),
        !has_mark(Mark::Resumed, extra),
    ensures
        resumes(events + extra, r) <==> resumes(events, r),
{
    let all = events + extra;
    lemma_last_mark(Mark::Resumed, events);
    lemma_last_mark_stays(Mark::Resumed, events, extra);
    let resumed = last_mark(Mark::Resumed, events);
    assert(all.take(resumed) =~= events.take(resumed));
    let paused = last_mark(Mark::Paused, events.take(resumed));
    lemma_last_mark(Mark::Paused, events.take(resumed));
    if paused >= 0 {
        assert(all.take(paused) =~= events.take(paused));
        let started = last_mark(Mark::Started, events.take(paused));
        lemma_last_mark(Mark::Started, events.take(paused));
        if started >= 0 {
            assert(all[started] == events[started]);
            assert(all.subrange(started + 1, paused + 1) =~= events.subrange(
                started + 1,
                paused + 1,
            ));
            assert(all.subrange(paused + 1, resumed + 1) =~= events.subrange(
                paused + 1,
                resumed + 1,
            ));
            assert(all.take(paused + 1) =~= events.take(paused + 1));
        }
    }
}

/// A resumed iteration carries over one report each, in order, of stages
/// that come before the one it re-enters.
pub proof fn only_earlier_stages_carry_over(span: Seq<event::EnvelopeView>, n: u32)
    requires
        found_in(span, n) matches Ok(found) && found.position is Interrupted,
    ensures
        ({
            let position = found_in(span, n)->Ok_0.position;
            let completed = position->completed;
            &&& forall|i: int|
                0 <= i < completed.len() ==> (#[trigger] completed[i]).stage.position()
                    < position->stage.position()
            &&& forall|i: int, j: int|
                0 <= i < j < completed.len() ==> (#[trigger] completed[i]).stage.position() < (
                #[trigger] completed[j]).stage.position()
        }),
{
    let position = found_in(span, n)->Ok_0.position;
    let limit = position->stage.position();
    let reports = reports_before(span, n, limit)->Ok_0;
    lemma_reports_sit_in_place(span, n, limit);
    lemma_in_order(reports, contract::STAGES as int, limit);
}

proof fn lemma_reports_sit_in_place(span: Seq<event::EnvelopeView>, n: u32, limit: int)
    requires
        reports_before(span, n, limit) is Ok,
    ensures
        forall|k: int| #[trigger]
            reports_before(span, n, limit)->Ok_0.dom().contains(k) ==> k < limit
                && reports_before(span, n, limit)->Ok_0[k].stage.position() == k,
    decreases span.len(),
{
    if span.len() > 0 {
        lemma_reports_sit_in_place(span.drop_last(), n, limit);
    }
}

proof fn lemma_in_order(reports: Map<int, contract::StageReportView>, k: int, limit: int)
    requires
        forall|i: int| #[trigger]
            reports.dom().contains(i) ==> i < limit && reports[i].stage.position() == i,
    ensures
        ({
            let all = in_order(reports, k);
            &&& forall|i: int|
                0 <= i < all.len() ==> (#[trigger] all[i]).stage.position() < limit
                    && all[i].stage.position() < k
            &&& forall|i: int, j: int|
                0 <= i < j < all.len() ==> (#[trigger] all[i]).stage.position() < (
                #[trigger] all[j]).stage.position()
        }),
    decreases k,
{
    if k > 0 {
        lemma_in_order(reports, k - 1, limit);
    }
}

} // verus!
