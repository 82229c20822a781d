//! The run projection: the single definition of how a run's event log reads
//! back. One pass reduces the whole history to where the run stands now:
//! state, counters, the last report's shared core, and the resume cursor.
//! Every consumer projects through this fold, so no two can disagree about
//! the same log.
//!
//! The projection is dialect-blind: it reads a stage report only through
//! [`ReportCore`], the uniform slice every kernel's dialect flattens into.

use crate::event::{self, EventEnvelope, RunEvent};
use crate::json::{self, Json};
use crate::pipeline::guardrails;
use crate::report::{self, Question, ReportCore};
use crate::run::{PauseReason, RunState};
use crate::text;
use crate::wire;
use vstd::prelude::*;

verus! {

/// The state a log lands its run in: the last one it announces, or running
/// while it announces none.
pub open spec fn state_after(events: Seq<event::EnvelopeView>) -> RunState
    decreases events.len(),
{
    if events.len() == 0 {
        RunState::Running
    } else {
        match events.last().event {
            event::EventView::StateChanged { state } => state,
            _ => state_after(events.drop_last()),
        }
    }
}

/// How many iterations a log closes, whatever their outcome.
pub open spec fn closed_in(events: Seq<event::EnvelopeView>) -> u32
    decreases events.len(),
{
    if events.len() == 0 {
        0
    } else {
        let before = closed_in(events.drop_last());
        match events.last().event {
            event::EventView::IterationFinished { iteration, outcome } => guardrails::one_more(
                before,
            ),
            _ => before,
        }
    }
}

/// The last stage report of a log, with its place in the log.
pub open spec fn last_report_in(events: Seq<event::EnvelopeView>) -> Option<(u64, json::JsonView)>
    decreases events.len(),
{
    if events.len() == 0 {
        None
    } else {
        match events.last().event {
            event::EventView::StageReported { iteration, stage, report } => Some(
                (events.last().seq, report),
            ),
            _ => last_report_in(events.drop_last()),
        }
    }
}

/// Where a run stands, reduced from its full event history.
#[derive(Debug, PartialEq, Eq)]
pub struct RunProjection {
    /// The last announced state, or running while none has landed. A run
    /// that projects running after a restart simply never got further.
    pub state: RunState,
    /// The last event's timestamp; `None` while the log is empty.
    pub updated_at: Option<String>,
    /// How many iterations have finished, whatever their outcome.
    pub iterations_completed: u32,
    /// The shared core of the most recent stage report, whichever kernel and
    /// stage wrote it.
    pub last_report: Option<ReportCore>,
    /// The last event's sequence number: the cursor a resuming reader
    /// continues from.
    pub last_seq: Option<u64>,
}

/// The one way a projection can fail: a logged stage report does not carry
/// the shared report core every dialect promises.
#[derive(Debug, Clone, PartialEq, Eq)]
pub struct ProjectionError {
    pub seq: u64,
    pub detail: String,
}

impl ProjectionError {
    /// The message the failure is told by.
    pub open spec fn message(self) -> Seq<char> {
        "stage report at seq "@ + text::decimal(self.seq as nat)
            + " does not carry the report core: "@ + self.detail@
    }

    pub fn to_text(&self) -> (s: String)
        ensures
            s@ == self.message(),
    {
        let mut s = "stage report at seq ".to_owned();
        let number = text::decimal_of(self.seq);
        s.append(number.as_str());
        s.append(" does not carry the report core: ");
        s.append(self.detail.as_str());
        s
    }
}

/// Whether `r` is what a log projects to. It fails only on a last stage
/// report that cannot yield the shared core.
pub open spec fn projects(
    events: Seq<event::EnvelopeView>,
    r: Result<RunProjection, ProjectionError>,
) -> bool {
    match (last_report_in(events), r) {
        (Some((seq, raw)), Err(error)) => error.seq == seq && report::as_core(raw) is None
            && report::core_fault(raw) == Some(error.detail@),
        (None, Err(_)) => false,
        (last, Ok(p)) => {
            &&& p.state == state_after(events)
            &&& p.iterations_completed == closed_in(events)
            &&& match last {
                Some((seq, raw)) => p.last_report matches Some(core) && report::as_core(raw)
                    == Some(core@),
                None => p.last_report is None,
            }
            &&& if events.len() == 0 {
                p.updated_at is None && p.last_seq is None
            } else {
                wire::opt_text(p.updated_at) == Some(events.last().at) && p.last_seq == Some(
                    events.last().seq,
                )
            }
        },
    }
}

impl RunProjection {
    /// Reduces an event history in one pass.
    pub fn of(events: &Vec<EventEnvelope>) -> (r: Result<RunProjection, ProjectionError>)
        ensures
            projects(event::envelope_views(events@), r),
    {
        let ghost all = event::envelope_views(events@);
        let mut state: RunState = RunState::Running;
        let mut iterations_completed: u32 = 0;
        let mut last: Option<usize> = None;
        assert(all.take(0) =~= Seq::empty());
        for i in 0..events.len()
            invariant
                all == event::envelope_views(events@),
                state == state_after(all.take(i as int)),
                iterations_completed == closed_in(all.take(i as int)),
                match last {
                    Some(at) => at < events@.len() && (all[at as int].event
                        matches event::EventView::StageReported { report, .. }
                        && last_report_in(all.take(i as int)) == Some((all[at as int].seq, report))),
                    None => last_report_in(all.take(i as int)) is None,
                },
        {
            assert(all.take(i + 1).drop_last() =~= all.take(i as int));
            assert(all.take(i + 1).last() == events@[i as int]@);
            assert(all[i as int] == events@[i as int]@);
            match &events[i].event {
                RunEvent::StateChanged { state: changed } => {
                    state = *changed;
                },
                RunEvent::IterationFinished { .. } => {
                    iterations_completed = iterations_completed.saturating_add(1);
                },
                RunEvent::StageReported { .. } => {
                    last = Some(i);
                },
                _ => {},
            }
        }
        assert(all.take(events@.len() as int) =~= all);
        let last_report: Option<ReportCore> = match last {
            Some(at) => {
                assert(all[at as int] == events@[at as int]@);
                match &events[at].event {
                    RunEvent::StageReported { report, .. } => match ReportCore::from_json(report) {
                        Ok(core) => Some(core),
                        Err(detail) => return Err(
                            ProjectionError { seq: events[at].seq, detail },
                        ),
                    },
                    _ => None,
                }
            },
            None => None,
        };
        let (updated_at, last_seq): (Option<String>, Option<u64>) = if events.len() == 0 {
            (None, None)
        } else {
            let end: usize = events.len() - 1;
            assert(all.last() == events@[end as int]@);
            (Some(events[end].at.clone()), Some(events[end].seq))
        };
        Ok(RunProjection { state, updated_at, iterations_completed, last_report, last_seq })
    }

    /// Whether the run is waiting on a human.
    pub open spec fn awaits_human(self) -> bool {
        self.state == (RunState::Paused { reason: PauseReason::AwaitingHuman })
    }

    /// The questions the run is waiting on right now: the last report's,
    /// while the run is paused awaiting a human. Outside that pause a
    /// report's questions are history, not an ask.
    pub fn pending_questions(&self) -> (r: &[Question])
        ensures
            report::question_views(r@) == match self.last_report {
                Some(core) => if self.awaits_human() {
                    core@.questions
                } else {
                    Seq::empty()
                },
                None => Seq::empty(),
            },
    {
        let awaiting: bool = match self.state {
            RunState::Paused { reason } => reason == PauseReason::AwaitingHuman,
            _ => false,
        };
        match &self.last_report {
            Some(core) => {
                if awaiting {
                    return core.questions.as_slice();
                }
            },
            None => {},
        }
        let none: &[Question] = &[];
        assert(report::question_views(none@) =~= Seq::empty());
        none
    }
}

/// Whatever else a log says, what comes after the last announced state does
/// not change where the run stands.
pub proof fn only_a_state_event_moves_the_state(
    events: Seq<event::EnvelopeView>,
    e: event::EnvelopeView,
)
    ensures
        state_after(events.push(e)) == match e.event {
            event::EventView::StateChanged { state } => state,
            _ => state_after(events),
        },
{
    assert(events.push(e).drop_last() =~= events);
}

/// Whether the last event of a log that `picks` is the one at `i`.
pub open spec fn is_last(
    events: Seq<event::EnvelopeView>,
    picks: spec_fn(event::EventView) -> bool,
    i: int,
) -> bool {
    &&& 0 <= i < events.len()
    &&& picks(events[i].event)
    &&& forall|j: int| i < j < events.len() ==> !picks((#[trigger] events[j]).event)
}

/// Whether a log holds no event that `picks`.
pub open spec fn has_none(
    events: Seq<event::EnvelopeView>,
    picks: spec_fn(event::EventView) -> bool,
) -> bool {
    forall|j: int| 0 <= j < events.len() ==> !picks((#[trigger] events[j]).event)
}

/// A log lands its run in the last state that it announces, wherever that
/// stands; and in running where it announces none.
pub proof fn the_last_announced_state_stands(events: Seq<event::EnvelopeView>, i: int)
    ensures
        is_last(events, |e: event::EventView| e is StateChanged, i) ==> state_after(events)
            == events[i].event->StateChanged_state,
        has_none(events, |e: event::EventView| e is StateChanged) ==> state_after(events)
            == RunState::Running,
    decreases events.len(),
{
    if events.len() > 0 && !(events.last().event is StateChanged) {
        let less = events.drop_last();
        the_last_announced_state_stands(less, i);
        let picks = |e: event::EventView| e is StateChanged;
        if is_last(events, picks, i) {
            assert(i < less.len());
            assert forall|j: int| i < j < less.len() implies !picks((#[trigger] less[j]).event) by {
                assert(less[j] == events[j]);
            }
            assert(less[i] == events[i]);
            assert(is_last(less, picks, i));
        }
        if has_none(events, picks) {
            assert forall|j: int| 0 <= j < less.len() implies !picks((#[trigger] less[j]).event) by {
                assert(less[j] == events[j]);
            }
            assert(has_none(less, picks));
        }
    } else if events.len() > 0 {
        let picks = |e: event::EventView| e is StateChanged;
        let last = events.len() - 1;
        assert(picks(events[last].event));
    }
}

/// The last stage report of a log is the one that counts, wherever it stands.
pub proof fn the_last_report_counts(events: Seq<event::EnvelopeView>, i: int)
    ensures
        is_last(events, |e: event::EventView| e is StageReported, i) ==> last_report_in(events)
            == Some((events[i].seq, events[i].event->StageReported_report)),
        has_none(events, |e: event::EventView| e is StageReported) ==> last_report_in(events)
            is None,
    decreases events.len(),
{
    if events.len() > 0 && !(events.last().event is StageReported) {
        let less = events.drop_last();
        the_last_report_counts(less, i);
        let picks = |e: event::EventView| e is StageReported;
        if is_last(events, picks, i) {
            assert(i < less.len());
            assert forall|j: int| i < j < less.len() implies !picks((#[trigger] less[j]).event) by {
                assert(less[j] == events[j]);
            }
            assert(less[i] == events[i]);
            assert(is_last(less, picks, i));
        }
        if has_none(events, picks) {
            assert forall|j: int| 0 <= j < less.len() implies !picks((#[trigger] less[j]).event) by {
                assert(less[j] == events[j]);
            }
            assert(has_none(less, picks));
        }
    } else if events.len() > 0 {
        let picks = |e: event::EventView| e is StageReported;
        let last = events.len() - 1;
        assert(picks(events[last].event));
    }
}

/// A log's closed iterations are counted, whatever their outcome, as far as a
/// count can reach.
pub proof fn closed_iterations_are_counted(events: Seq<event::EnvelopeView>)
    ensures
        closed_in(events) == {
            let all = events.filter(|e: event::EnvelopeView| e.event is IterationFinished).len();
            if all <= u32::MAX {
                all as u32
            } else {
                u32::MAX
            }
        },
    decreases events.len(),
{
    reveal(Seq::filter);
    if events.len() > 0 {
        closed_iterations_are_counted(events.drop_last());
    }
}

} // verus!
