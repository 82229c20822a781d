//! What a replayed log resumes to, said of the log itself: which events
//! decide where a paused run takes up its work, and what it carries over.

use crate::event::{EnvelopeView, EventView};
use crate::pipeline::contract::{self, Stage, StageReportView};
use crate::pipeline::resume::{self, Fault, Mark, Position, PositionView, ResumeError, ResumePoint};
use crate::preamble::HumanInputView;
use crate::report::{self, QuestionView};
use crate::text;
use vstd::prelude::*;

verus! {

/// Whether an event is a pause.
pub open spec fn is_pause(e: EventView) -> bool {
    e matches EventView::StateChanged { state } && state is Paused
}

/// Whether a log was resumed last at `resumed`, paused last before that at
/// `paused`, and had last begun an iteration before that at `started`.
pub open spec fn marked(
    events: Seq<EnvelopeView>,
    started: int,
    paused: int,
    resumed: int,
) -> bool {
    &&& 0 <= started < paused < resumed < events.len()
    &&& events[resumed].event is RunResumed
    &&& forall|i: int|
        resumed < i < events.len() ==> !((#[trigger] events[i]).event is RunResumed)
    &&& is_pause(events[paused].event)
    &&& forall|i: int| paused < i < resumed ==> !is_pause((#[trigger] events[i]).event)
    &&& events[started].event is IterationStarted
    &&& forall|i: int|
        started < i < paused ==> !((#[trigger] events[i]).event is IterationStarted)
}

/// Whether an event closes iteration `n`.
pub open spec fn closes(e: EventView, n: u32) -> bool {
    e matches EventView::IterationFinished { iteration, .. } && iteration == n
}

/// Whether an event begins a stage in iteration `n`.
pub open spec fn begins(e: EventView, n: u32) -> bool {
    e matches EventView::StageStarted { iteration, .. } && iteration == n
}

/// Whether an event is a report of a stage in iteration `n`.
pub open spec fn reports(e: EventView, n: u32, stage: Stage) -> bool {
    e matches EventView::StageReported { iteration, stage: word, .. } && iteration == n && word
        == stage.word()
}

/// Whether the last report of a stage in iteration `n` stands at `i`, among
/// the events from `from` up to `to`.
pub open spec fn reports_last(
    events: Seq<EnvelopeView>,
    from: int,
    to: int,
    n: u32,
    stage: Stage,
    i: int,
) -> bool {
    &&& from <= i < to
    &&& reports(events[i].event, n, stage)
    &&& forall|j: int| i < j < to ==> !reports((#[trigger] events[j]).event, n, stage)
}

/// Where a stage comes in an iteration.
pub open spec fn rank(stage: Stage) -> int {
    match stage {
        Stage::Plan => 0,
        Stage::Implement => 1,
        Stage::Review => 2,
        Stage::Simplify => 3,
        Stage::Deliver => 4,
    }
}

/// Whether the last stage that iteration `n` began is `stage`; the plan,
/// where it began none.
pub open spec fn broke_off_in(
    events: Seq<EnvelopeView>,
    from: int,
    to: int,
    n: u32,
    stage: Stage,
) -> bool {
    ||| stage == Stage::Plan && forall|i: int|
        from <= i < to ==> !begins((#[trigger] events[i]).event, n)
    ||| exists|i: int|
        from <= i < to && begins((#[trigger] events[i]).event, n)
            && events[i].event->StageStarted_stage == stage.word() && forall|j: int|
            i < j < to ==> !begins((#[trigger] events[j]).event, n)
}

/// Whether a report is the last that an earlier stage than `stage` left.
pub open spec fn carried(
    events: Seq<EnvelopeView>,
    from: int,
    to: int,
    n: u32,
    stage: Stage,
    view: StageReportView,
) -> bool {
    rank(view.stage) < rank(stage) && exists|i: int| #[trigger]
        reports_last(events, from, to, n, view.stage, i) && contract::as_stage_report(
            view.stage,
            events[i].event->StageReported_report,
        ) == Some(view)
}

/// Whether questions are those of the last report that `stage` left.
pub open spec fn asked(
    events: Seq<EnvelopeView>,
    from: int,
    to: int,
    n: u32,
    stage: Stage,
    questions: Seq<QuestionView>,
) -> bool {
    ||| questions.len() == 0 && forall|i: int| !reports_last(events, from, to, n, stage, i)
    ||| exists|i: int| #[trigger]
        reports_last(events, from, to, n, stage, i) && (contract::as_stage_report(
            stage,
            events[i].event->StageReported_report,
        ) matches Some(view) && view.questions == questions)
}

/// Whether an event answers the question `id`.
pub open spec fn answers(e: EventView, id: Seq<char>) -> bool {
    e matches EventView::QuestionAnswered { question_id, .. } && question_id == id
}

/// Whether `answer` is the last one given to the question `id`.
pub open spec fn answered(
    events: Seq<EnvelopeView>,
    from: int,
    to: int,
    id: Seq<char>,
    answer: Seq<char>,
) -> bool {
    exists|i: int|
        from <= i < to && answers((#[trigger] events[i]).event, id)
            && events[i].event->QuestionAnswered_answer == answer && forall|j: int|
            i < j < to ==> !answers((#[trigger] events[j]).event, id)
}

/// Whether `point` is where the log's own events say that the run takes up
/// its work. An iteration that the log has closed is never run again: the
/// next one follows. One that it has not is re-entered at the stage it broke
/// off in, with the last report of each stage before that; what the human
/// said since the pause goes along, each answer once and as it was last
/// given.
pub open spec fn taken_up(
    events: Seq<EnvelopeView>,
    started: int,
    paused: int,
    resumed: int,
    point: ResumePoint,
) -> bool {
    let n = events[started].event->IterationStarted_iteration;
    let from = started + 1;
    let closed = exists|i: int| from <= i < paused && closes((#[trigger] events[i]).event, n);
    &&& if closed {
        &&& point.position is NewIteration
        &&& n < u32::MAX ==> point.iteration == n + 1
        &&& n == u32::MAX ==> point.iteration == n
    } else {
        &&& point.iteration == n
        &&& point.position matches Position::Interrupted { stage, completed }
        &&& broke_off_in(events, from, paused, n, stage)
        &&& forall|view: StageReportView| #[trigger]
            contract::report_views(completed@).contains(view) <==> carried(
                events,
                from,
                paused,
                n,
                stage,
                view,
            )
        &&& forall|i: int, j: int|
            0 <= i < j < completed@.len() ==> rank((#[trigger] completed@[i])@.stage) < rank(
                (#[trigger] completed@[j])@.stage,
            )
    }
    &&& match point.human {
        None => {
            &&& events[resumed].event->RunResumed_note is None
            &&& forall|i: int|
                paused < i < resumed ==> !((#[trigger] events[i]).event is QuestionAnswered)
        },
        Some(human) => {
            &&& human@.note == events[resumed].event->RunResumed_note
            &&& human@.note is Some || human@.answers.len() > 0
            &&& forall|i: int, j: int|
                0 <= i < j < human@.answers.len() ==> (#[trigger] human@.answers[i]).question_id
                    != (#[trigger] human@.answers[j]).question_id
            &&& forall|id: Seq<char>, answer: Seq<char>|
                human@.answers.contains(report::AnswerView { question_id: id, answer })
                    <==> #[trigger] answered(events, paused + 1, resumed, id, answer)
            &&& if closed {
                human@.questions.len() == 0
            } else {
                asked(
                    events,
                    from,
                    paused,
                    n,
                    point.position->Interrupted_stage,
                    human@.questions,
                )
            }
        },
    }
}

proof fn lemma_last_mark_is(mark: Mark, events: Seq<EnvelopeView>)
    ensures
        -1 <= resume::last_mark(mark, events) < events.len(),
        resume::last_mark(mark, events) >= 0 ==> resume::marks(
            mark,
            events[resume::last_mark(mark, events)].event,
        ),
        forall|i: int|
            resume::last_mark(mark, events) < i < events.len() ==> !resume::marks(
                mark,
                (#[trigger] events[i]).event,
            ),
    decreases events.len(),
{
    if events.len() > 0 && !resume::marks(mark, events.last().event) {
        let rest = events.drop_last();
        lemma_last_mark_is(mark, rest);
        assert forall|i: int|
            resume::last_mark(mark, events) < i < events.len() implies !resume::marks(
            mark,
            (#[trigger] events[i]).event,
        ) by {
            if i < rest.len() {
                assert(rest[i] == events[i]);
            }
        }
    }
}

/// The stage that a word names is the one with that word.
proof fn lemma_stage_words(word: Seq<char>, stage: Stage)
    ensures
        contract::stage_named(word) == Some(stage) <==> word == stage.word(),
{
    contract::stages_are_told_apart_by_name(stage);
    if let Some(named) = contract::stage_named(word) {
        contract::stages_are_told_apart_by_name(named);
    }
}

proof fn lemma_last_stage(span: Seq<EnvelopeView>, n: u32)
    ensures
        match resume::last_stage(span, n) {
            Ok(Some(stage)) => exists|i: int|
                0 <= i < span.len() && begins((#[trigger] span[i]).event, n)
                    && span[i].event->StageStarted_stage == stage.word() && forall|j: int|
                    i < j < span.len() ==> !begins((#[trigger] span[j]).event, n),
            Ok(None) => forall|i: int| 0 <= i < span.len() ==> !begins((#[trigger] span[i]).event, n),
            Err(_) => true,
        },
    decreases span.len(),
{
    if span.len() > 0 {
        let rest = span.drop_last();
        let last = span.len() - 1;
        if begins(span[last].event, n) {
            if let Some(stage) = contract::stage_named(span[last].event->StageStarted_stage) {
                lemma_stage_words(span[last].event->StageStarted_stage, stage);
                assert(begins(span[last].event, n));
            }
        } else {
            lemma_last_stage(rest, n);
            match resume::last_stage(rest, n) {
                Ok(Some(stage)) => {
                    let i = choose|i: int|
                        0 <= i < rest.len() && begins((#[trigger] rest[i]).event, n)
                            && rest[i].event->StageStarted_stage == stage.word() && forall|j: int|
                            i < j < rest.len() ==> !begins((#[trigger] rest[j]).event, n);
                    assert(begins(span[i].event, n));
                    assert forall|j: int| i < j < span.len() implies !begins(
                        (#[trigger] span[j]).event,
                        n,
                    ) by {
                        if j < rest.len() {
                            assert(rest[j] == span[j]);
                        }
                    }
                },
                Ok(None) => {
                    assert forall|i: int| 0 <= i < span.len() implies !begins(
                        (#[trigger] span[i]).event,
                        n,
                    ) by {
                        if i < rest.len() {
                            assert(rest[i] == span[i]);
                        }
                    }
                },
                Err(_) => {},
            }
        }
    }
}

/// One more event, seen from a stage's last report.
proof fn lemma_reports_last(span: Seq<EnvelopeView>, n: u32, stage: Stage, i: int)
    requires
        span.len() > 0,
    ensures
        reports_last(span, 0, span.len() as int, n, stage, i) <==> if reports(
            span.last().event,
            n,
            stage,
        ) {
            i == span.len() - 1
        } else {
            reports_last(span.drop_last(), 0, span.len() - 1, n, stage, i)
        },
{
    let rest = span.drop_last();
    let last = span.len() - 1;
    assert(span[last] == span.last());
    if reports_last(span, 0, span.len() as int, n, stage, i) && !reports(
        span.last().event,
        n,
        stage,
    ) {
        assert(rest[i] == span[i]);
        assert forall|j: int| i < j < rest.len() implies !reports(
            (#[trigger] rest[j]).event,
            n,
            stage,
        ) by {
            assert(rest[j] == span[j]);
        }
    }
    if reports_last(rest, 0, last, n, stage, i) && !reports(span.last().event, n, stage) {
        assert(rest[i] == span[i]);
        assert forall|j: int| i < j < span.len() implies !reports(
            (#[trigger] span[j]).event,
            n,
            stage,
        ) by {
            if j < last {
                assert(rest[j] == span[j]);
            }
        }
    }
}

proof fn lemma_reports_before(span: Seq<EnvelopeView>, n: u32, limit: int)
    ensures
        resume::reports_before(span, n, limit) matches Ok(m) ==> {
            &&& forall|k: int| #[trigger] m.dom().contains(k) ==> 0 <= k < limit && k < 5
            &&& forall|stage: Stage, i: int| #[trigger]
                reports_last(span, 0, span.len() as int, n, stage, i) && rank(stage) < limit
                    ==> m.dom().contains(rank(stage)) && contract::as_stage_report(
                    stage,
                    span[i].event->StageReported_report,
                ) == Some(m[rank(stage)])
            &&& forall|stage: Stage|
                m.dom().contains(#[trigger] rank(stage)) ==> exists|i: int| #[trigger]
                    reports_last(span, 0, span.len() as int, n, stage, i)
        },
    decreases span.len(),
{
    if span.len() > 0 {
        let rest = span.drop_last();
        lemma_reports_before(rest, n, limit);
        if let Ok(m) = resume::reports_before(span, n, limit) {
            let before = resume::reports_before(rest, n, limit)->Ok_0;
            let last = span.len() - 1;
            assert forall|stage: Stage, i: int| #[trigger]
                reports_last(span, 0, span.len() as int, n, stage, i) && rank(stage)
                    < limit implies m.dom().contains(rank(stage)) && contract::as_stage_report(
                stage,
                span[i].event->StageReported_report,
            ) == Some(m[rank(stage)]) by {
                lemma_reports_last(span, n, stage, i);
                if reports(span.last().event, n, stage) {
                    lemma_stage_words(span.last().event->StageReported_stage, stage);
                    assert(stage.position() == rank(stage));
                } else {
                    assert(rest[i] == span[i]);
                    if let EventView::StageReported { iteration, stage: word, report } =
                        span.last().event {
                        if iteration == n {
                            let other = contract::stage_named(word)->0;
                            lemma_stage_words(word, other);
                            assert(other != stage);
                            assert(other.position() == rank(other));
                        }
                    }
                }
            }
            assert forall|stage: Stage| m.dom().contains(#[trigger] rank(stage)) implies exists|
                i: int,
            | #[trigger] reports_last(span, 0, span.len() as int, n, stage, i) by {
                if reports(span.last().event, n, stage) {
                    lemma_reports_last(span, n, stage, last);
                    assert(reports_last(span, 0, span.len() as int, n, stage, last));
                } else {
                    if let EventView::StageReported { iteration, stage: word, report } =
                        span.last().event {
                        if iteration == n {
                            let other = contract::stage_named(word)->0;
                            lemma_stage_words(word, other);
                            lemma_stage_words(word, stage);
                            assert(other.position() == rank(other));
                        }
                    }
                    assert(before.dom().contains(rank(stage)));
                    let i = choose|i: int| #[trigger]
                        reports_last(rest, 0, rest.len() as int, n, stage, i);
                    lemma_reports_last(span, n, stage, i);
                    assert(reports_last(span, 0, span.len() as int, n, stage, i));
                }
            }
            assert forall|k: int| #[trigger] m.dom().contains(k) implies 0 <= k < limit && k
                < 5 by {
                if !before.dom().contains(k) {
                    let other = contract::stage_named(span.last().event->StageReported_stage)->0;
                    assert(other.position() == k);
                }
            }
        }
    }
}

proof fn lemma_in_order(m: Map<int, StageReportView>, k: int, view: StageReportView)
    ensures
        resume::in_order(m, k).contains(view) <==> exists|i: int|
            0 <= i < k && #[trigger] m.dom().contains(i) && m[i] == view,
    decreases k,
{
    if k > 0 {
        lemma_in_order(m, k - 1, view);
        let before = resume::in_order(m, k - 1);
        let after = resume::in_order(m, k);
        if after.contains(view) {
            let at = choose|at: int| 0 <= at < after.len() && after[at] == view;
            if at < before.len() {
                assert(before[at] == view);
                assert(before.contains(view));
            } else {
                assert(m.dom().contains(k - 1));
            }
        }
        if exists|i: int| 0 <= i < k && #[trigger] m.dom().contains(i) && m[i] == view {
            let i = choose|i: int| 0 <= i < k && #[trigger] m.dom().contains(i) && m[i] == view;
            if i < k - 1 {
                assert(before.contains(view));
                let at = choose|at: int| 0 <= at < before.len() && before[at] == view;
                assert(after[at] == view);
            } else {
                assert(after[before.len() as int] == view);
            }
        }
    } else if resume::in_order(m, k).contains(view) {
        assert(resume::in_order(m, k).len() == 0);
    }
}

proof fn lemma_open_questions(span: Seq<EnvelopeView>, n: u32, stage: Stage)
    ensures
        resume::open_questions(span, n, stage) matches Ok(questions) ==> asked(
            span,
            0,
            span.len() as int,
            n,
            stage,
            questions,
        ),
    decreases span.len(),
{
    if span.len() == 0 {
        if let Ok(questions) = resume::open_questions(span, n, stage) {
            assert(forall|i: int| !reports_last(span, 0, 0, n, stage, i));
        }
    } else {
        let rest = span.drop_last();
        let last = span.len() - 1;
        if reports(span.last().event, n, stage) {
            lemma_stage_words(span.last().event->StageReported_stage, stage);
            lemma_reports_last(span, n, stage, last);
            assert(reports_last(span, 0, span.len() as int, n, stage, last));
        } else {
            lemma_open_questions(rest, n, stage);
            if let EventView::StageReported { iteration, stage: word, report } = span.last().event {
                lemma_stage_words(word, stage);
            }
            if let Ok(questions) = resume::open_questions(span, n, stage) {
                assert(asked(rest, 0, rest.len() as int, n, stage, questions));
                assert forall|i: int| reports_last(span, 0, span.len() as int, n, stage, i)
                    == reports_last(rest, 0, rest.len() as int, n, stage, i) by {
                    lemma_reports_last(span, n, stage, i);
                }
                if exists|i: int| #[trigger] reports_last(rest, 0, rest.len() as int, n, stage, i) {
                    let i = choose|i: int| #[trigger]
                        reports_last(rest, 0, rest.len() as int, n, stage, i);
                    assert(rest[i] == span[i]);
                    assert(reports_last(span, 0, span.len() as int, n, stage, i));
                    let j = choose|j: int| #[trigger]
                        reports_last(rest, 0, rest.len() as int, n, stage, j) && (
                        contract::as_stage_report(stage, rest[j].event->StageReported_report)
                            matches Some(view) && view.questions == questions);
                    assert(rest[j] == span[j]);
                    assert(reports_last(span, 0, span.len() as int, n, stage, j));
                }
            }
        }
    }
}

proof fn lemma_answers_given(span: Seq<EnvelopeView>, id: Seq<char>, answer: Seq<char>)
    ensures
        (resume::answers_given(span).dom().contains(id) && resume::answers_given(span)[id] == answer)
            <==> answered(span, 0, span.len() as int, id, answer),
    decreases span.len(),
{
    if span.len() > 0 {
        let rest = span.drop_last();
        let last = span.len() - 1;
        lemma_answers_given(rest, id, answer);
        if answers(span.last().event, id) {
            assert(answers(span[last].event, id));
            if answered(span, 0, span.len() as int, id, answer) {
                let i = choose|i: int|
                    0 <= i < span.len() && answers((#[trigger] span[i]).event, id)
                        && span[i].event->QuestionAnswered_answer == answer && forall|j: int|
                        i < j < span.len() ==> !answers((#[trigger] span[j]).event, id);
                assert(i == last);
            }
        } else {
            if answered(span, 0, span.len() as int, id, answer) {
                let i = choose|i: int|
                    0 <= i < span.len() && answers((#[trigger] span[i]).event, id)
                        && span[i].event->QuestionAnswered_answer == answer && forall|j: int|
                        i < j < span.len() ==> !answers((#[trigger] span[j]).event, id);
                assert(i < rest.len());
                assert(answers(rest[i].event, id));
                assert forall|j: int| i < j < rest.len() implies !answers(
                    (#[trigger] rest[j]).event,
                    id,
                ) by {
                    assert(rest[j] == span[j]);
                }
            }
            if answered(rest, 0, rest.len() as int, id, answer) {
                let i = choose|i: int|
                    0 <= i < rest.len() && answers((#[trigger] rest[i]).event, id)
                        && rest[i].event->QuestionAnswered_answer == answer && forall|j: int|
                        i < j < rest.len() ==> !answers((#[trigger] rest[j]).event, id);
                assert(answers(span[i].event, id));
                assert forall|j: int| i < j < span.len() implies !answers(
                    (#[trigger] span[j]).event,
                    id,
                ) by {
                    if j < last {
                        assert(rest[j] == span[j]);
                    }
                }
            }
        }
    }
}

proof fn lemma_nobody_answered(span: Seq<EnvelopeView>)
    ensures
        resume::answers_given(span) == Map::<Seq<char>, Seq<char>>::empty() <==> forall|i: int|
            0 <= i < span.len() ==> !((#[trigger] span[i]).event is QuestionAnswered),
    decreases span.len(),
{
    if span.len() > 0 {
        let rest = span.drop_last();
        let last = span.len() - 1;
        lemma_nobody_answered(rest);
        if span[last].event is QuestionAnswered {
            let id = span[last].event->QuestionAnswered_question_id;
            assert(resume::answers_given(span).dom().contains(id));
        }
        if forall|i: int| 0 <= i < rest.len() ==> !((#[trigger] rest[i]).event is QuestionAnswered) {
            assert forall|i: int| 0 <= i < last implies !((
            #[trigger] span[i]).event is QuestionAnswered) by {
                assert(rest[i] == span[i]);
            }
        }
        if forall|i: int| 0 <= i < span.len() ==> !((#[trigger] span[i]).event is QuestionAnswered) {
            assert forall|i: int| 0 <= i < rest.len() implies !((
            #[trigger] rest[i]).event is QuestionAnswered) by {
                assert(rest[i] == span[i]);
            }
        }
    }
}

/// A stage's last report among some events of a log is its last report there.
proof fn lemma_shifted(
    events: Seq<EnvelopeView>,
    from: int,
    to: int,
    n: u32,
    stage: Stage,
    i: int,
)
    requires
        0 <= from <= to < events.len(),
        !(events[to].event is StageReported),
    ensures
        ({
            let span = events.subrange(from, to + 1);
            reports_last(events, from, to, n, stage, i) <==> reports_last(
                span,
                0,
                span.len() as int,
                n,
                stage,
                i - from,
            )
        }),
{
    let span = events.subrange(from, to + 1);
    if reports_last(events, from, to, n, stage, i) {
        assert(span[i - from] == events[i]);
        assert forall|j: int| i - from < j < span.len() implies !reports(
            (#[trigger] span[j]).event,
            n,
            stage,
        ) by {
            assert(span[j] == events[from + j]);
        }
    }
    if reports_last(span, 0, span.len() as int, n, stage, i - from) {
        assert(span[i - from] == events[i]);
        assert forall|j: int| i < j < to implies !reports((#[trigger] events[j]).event, n, stage) by {
            assert(span[j - from] == events[j]);
        }
    }
}

proof fn lemma_position(
    events: Seq<EnvelopeView>,
    from: int,
    to: int,
    n: u32,
    found: resume::Found,
)
    requires
        0 <= from <= to < events.len(),
        is_pause(events[to].event),
        resume::found_in(events.subrange(from, to + 1), n) == Ok::<resume::Found, Fault>(found),
    ensures
        if exists|i: int| from <= i < to && closes((#[trigger] events[i]).event, n) {
            &&& found.position is NewIteration
            &&& found.questions.len() == 0
            &&& n < u32::MAX ==> found.iteration == n + 1
            &&& n == u32::MAX ==> found.iteration == n
        } else {
            &&& found.iteration == n
            &&& found.position matches PositionView::Interrupted { stage, completed }
            &&& broke_off_in(events, from, to, n, stage)
            &&& forall|view: StageReportView| #[trigger]
                completed.contains(view) <==> carried(events, from, to, n, stage, view)
            &&& forall|i: int, j: int|
                0 <= i < j < completed.len() ==> rank((#[trigger] completed[i]).stage) < rank(
                    (#[trigger] completed[j]).stage,
                )
            &&& asked(events, from, to, n, stage, found.questions)
        },
{
    let span = events.subrange(from, to + 1);
    assert(span.last() == events[to]);
    if exists|i: int| from <= i < to && closes((#[trigger] events[i]).event, n) {
        let i = choose|i: int| from <= i < to && closes((#[trigger] events[i]).event, n);
        assert(span[i - from] == events[i]);
        assert(resume::finishes(span, n));
    } else {
        if resume::finishes(span, n) {
            let i = choose|i: int|
                0 <= i < span.len() && (#[trigger] span[i].event
                    matches EventView::IterationFinished { iteration, .. } && iteration == n);
            assert(span[i] == events[from + i]);
            assert(closes(events[from + i].event, n));
        }
        lemma_last_stage(span, n);
        let stage = match resume::last_stage(span, n)->Ok_0 {
            Some(stage) => stage,
            None => Stage::Plan,
        };
        assert(stage.position() == rank(stage));
        assert(broke_off_in(events, from, to, n, stage)) by {
            match resume::last_stage(span, n)->Ok_0 {
                Some(stage) => {
                    let i = choose|i: int|
                        0 <= i < span.len() && begins((#[trigger] span[i]).event, n)
                            && span[i].event->StageStarted_stage == stage.word() && forall|j: int|
                            i < j < span.len() ==> !begins((#[trigger] span[j]).event, n);
                    assert(span[i] == events[from + i]);
                    assert(begins(events[from + i].event, n));
                    assert forall|j: int| from + i < j < to implies !begins(
                        (#[trigger] events[j]).event,
                        n,
                    ) by {
                        assert(span[j - from] == events[j]);
                    }
                },
                None => {
                    assert forall|i: int| from <= i < to implies !begins(
                        (#[trigger] events[i]).event,
                        n,
                    ) by {
                        assert(span[i - from] == events[i]);
                    }
                },
            }
        }
        let m = resume::reports_before(span, n, rank(stage))->Ok_0;
        let completed = resume::in_order(m, contract::STAGES as int);
        lemma_reports_before(span, n, rank(stage));
        resume::only_earlier_stages_carry_over(span, n);
        assert forall|i: int, j: int| 0 <= i < j < completed.len() implies rank(
            (#[trigger] completed[i]).stage,
        ) < rank((#[trigger] completed[j]).stage) by {
            assert(completed[i].stage.position() == rank(completed[i].stage));
            assert(completed[j].stage.position() == rank(completed[j].stage));
        }
        assert forall|view: StageReportView| #[trigger] completed.contains(view) <==> carried(
            events,
            from,
            to,
            n,
            stage,
            view,
        ) by {
            lemma_in_order(m, contract::STAGES as int, view);
            if completed.contains(view) {
                let k = choose|k: int|
                    0 <= k < contract::STAGES && #[trigger] m.dom().contains(k) && m[k] == view;
                let held = contract::stage_at(k);
                assert(rank(held) == k);
                assert(m.dom().contains(rank(held)));
                let i = choose|i: int| #[trigger]
                    reports_last(span, 0, span.len() as int, n, held, i);
                lemma_shifted(events, from, to, n, held, from + i);
                assert(span[i] == events[from + i]);
                assert(reports_last(events, from, to, n, held, from + i));
                assert(view.stage == held);
            }
            if carried(events, from, to, n, stage, view) {
                let i = choose|i: int| #[trigger]
                    reports_last(events, from, to, n, view.stage, i) && contract::as_stage_report(
                        view.stage,
                        events[i].event->StageReported_report,
                    ) == Some(view);
                lemma_shifted(events, from, to, n, view.stage, i);
                assert(span[i - from] == events[i]);
                assert(m.dom().contains(rank(view.stage)));
            }
        }
        lemma_open_questions(span, n, stage);
        assert(asked(events, from, to, n, stage, found.questions)) by {
            if exists|i: int| #[trigger] reports_last(span, 0, span.len() as int, n, stage, i) {
                let i = choose|i: int| #[trigger]
                    reports_last(span, 0, span.len() as int, n, stage, i) && (
                    contract::as_stage_report(stage, span[i].event->StageReported_report)
                        matches Some(view) && view.questions == found.questions);
                lemma_shifted(events, from, to, n, stage, from + i);
                assert(span[i] == events[from + i]);
                assert(reports_last(events, from, to, n, stage, from + i));
            } else {
                assert forall|i: int| !reports_last(events, from, to, n, stage, i) by {
                    lemma_shifted(events, from, to, n, stage, i);
                }
            }
        }
    }
}

proof fn lemma_said(
    events: Seq<EnvelopeView>,
    paused: int,
    resumed: int,
    questions: Seq<QuestionView>,
    human: Option<HumanInputView>,
)
    requires
        0 <= paused < resumed < events.len(),
        events[resumed].event is RunResumed,
        resume::said(events.subrange(paused + 1, resumed + 1), questions, human),
    ensures
        match human {
            None => {
                &&& events[resumed].event->RunResumed_note is None
                &&& forall|i: int|
                    paused < i < resumed ==> !((#[trigger] events[i]).event is QuestionAnswered)
            },
            Some(human) => {
                &&& human.note == events[resumed].event->RunResumed_note
                &&& human.note is Some || human.answers.len() > 0
                &&& human.questions == questions
                &&& forall|i: int, j: int|
                    0 <= i < j < human.answers.len() ==> (#[trigger] human.answers[i]).question_id
                        != (#[trigger] human.answers[j]).question_id
                &&& forall|id: Seq<char>, answer: Seq<char>|
                    human.answers.contains(report::AnswerView { question_id: id, answer })
                        <==> #[trigger] answered(events, paused + 1, resumed, id, answer)
            },
        },
{
    let span = events.subrange(paused + 1, resumed + 1);
    assert(span.last() == events[resumed]);
    assert(resume::note_given(span) == events[resumed].event->RunResumed_note);
    lemma_nobody_answered(span);
    match human {
        None => {
            assert forall|i: int| paused < i < resumed implies !((
            #[trigger] events[i]).event is QuestionAnswered) by {
                assert(span[i - paused - 1] == events[i]);
            }
        },
        Some(input) => {
            let given = resume::answers_given(span);
            assert forall|i: int, j: int| 0 <= i < j < input.answers.len() implies (
            #[trigger] input.answers[i]).question_id != (
            #[trigger] input.answers[j]).question_id by {
                text::lemma_precedes_orders(
                    input.answers[i].question_id,
                    input.answers[j].question_id,
                );
            }
            assert forall|id: Seq<char>, answer: Seq<char>|
                input.answers.contains(report::AnswerView { question_id: id, answer })
                    <==> #[trigger] answered(events, paused + 1, resumed, id, answer) by {
                lemma_answers_given(span, id, answer);
                let view = report::AnswerView { question_id: id, answer };
                if input.answers.contains(view) {
                    let at = choose|at: int|
                        0 <= at < input.answers.len() && input.answers[at] == view;
                    assert(given.dom().contains(input.answers[at].question_id));
                }
                if given.dom().contains(id) && given[id] == answer {
                    assert(resume::names_question(input.answers, id));
                    let at = choose|at: int|
                        0 <= at < input.answers.len() && #[trigger] input.answers[at].question_id
                            == id;
                    assert(input.answers[at] =~= view);
                }
                if answered(span, 0, span.len() as int, id, answer) {
                    let i = choose|i: int|
                        0 <= i < span.len() && answers((#[trigger] span[i]).event, id)
                            && span[i].event->QuestionAnswered_answer == answer && forall|j: int|
                            i < j < span.len() ==> !answers((#[trigger] span[j]).event, id);
                    assert(span[i] == events[paused + 1 + i]);
                    assert(answers(events[paused + 1 + i].event, id));
                    assert forall|j: int| paused + 1 + i < j < resumed implies !answers(
                        (#[trigger] events[j]).event,
                        id,
                    ) by {
                        assert(span[j - paused - 1] == events[j]);
                    }
                }
                if answered(events, paused + 1, resumed, id, answer) {
                    let i = choose|i: int|
                        paused + 1 <= i < resumed && answers((#[trigger] events[i]).event, id)
                            && events[i].event->QuestionAnswered_answer == answer && forall|j: int|
                            i < j < resumed ==> !answers((#[trigger] events[j]).event, id);
                    assert(span[i - paused - 1] == events[i]);
                    assert(answers(span[i - paused - 1].event, id));
                    assert forall|j: int| i - paused - 1 < j < span.len() implies !answers(
                        (#[trigger] span[j]).event,
                        id,
                    ) by {
                        assert(span[j] == events[paused + 1 + j]);
                    }
                }
            }
        },
    }
}

/// A paused run is taken up where its log says that it paused. Whatever the
/// log holds, a resume point stands for the last resume command, the last
/// pause before it and the last iteration begun before that: an iteration
/// that the log has closed is never run again, one that it has not is
/// re-entered at the stage it broke off in, and the human's words go along
/// unchanged.
pub proof fn a_run_is_taken_up_where_it_paused(
    events: Seq<EnvelopeView>,
    started: int,
    paused: int,
    resumed: int,
    r: Result<ResumePoint, ResumeError>,
)
    requires
        marked(events, started, paused, resumed),
        resume::resumes(events, r),
    ensures
        match r {
            Ok(point) => taken_up(events, started, paused, resumed, point),
            Err(error) => error is UnknownStage || error is InvalidReport,
        },
{
    lemma_last_mark_is(Mark::Resumed, events);
    assert(resume::last_mark(Mark::Resumed, events) == resumed);
    let early = events.take(resumed);
    lemma_last_mark_is(Mark::Paused, early);
    assert(resume::last_mark(Mark::Paused, early) == paused) by {
        assert(early[paused] == events[paused]);
        assert forall|i: int| paused < i < resumed implies !is_pause(
            (#[trigger] early[i]).event,
        ) by {
            assert(early[i] == events[i]);
        }
    }
    let earlier = events.take(paused);
    lemma_last_mark_is(Mark::Started, earlier);
    assert(resume::last_mark(Mark::Started, earlier) == started) by {
        assert(earlier[started] == events[started]);
        assert forall|i: int| started < i < paused implies !((
        #[trigger] earlier[i]).event is IterationStarted) by {
            assert(earlier[i] == events[i]);
        }
    }
    let n = events[started].event->IterationStarted_iteration;
    match resume::found_in(events.subrange(started + 1, paused + 1), n) {
        Ok(found) => {
            let point = r->Ok_0;
            lemma_position(events, started + 1, paused, n, found);
            let human = match point.human {
                Some(human) => Some(human@),
                None => None,
            };
            lemma_said(events, paused, resumed, found.questions, human);
            if let Position::Interrupted { stage, completed } = point.position {
                let views = contract::report_views(completed@);
                assert forall|i: int, j: int| 0 <= i < j < completed@.len() implies rank(
                    (#[trigger] completed@[i])@.stage,
                ) < rank((#[trigger] completed@[j])@.stage) by {
                    assert(views[i] == completed@[i]@ && views[j] == completed@[j]@);
                }
            }
        },
        Err(fault) => {
            lemma_faults(events.subrange(started + 1, paused + 1), n, fault);
        },
    }
}

/// Only a stage that nobody knows or a report that does not read keeps an
/// iteration from being taken up.
proof fn lemma_faults(span: Seq<EnvelopeView>, n: u32, fault: Fault)
    requires
        resume::found_in(span, n) == Err::<resume::Found, Fault>(fault),
    ensures
        fault is UnknownStage || fault is InvalidReport,
{
    lemma_stage_fault(span, n);
    assert forall|limit: int| #[trigger]
        resume::reports_before(span, n, limit) matches Err(fault) ==> fault is UnknownStage || fault
            is InvalidReport by {
        lemma_report_fault(span, n, limit);
    }
    assert forall|stage: Stage| #[trigger]
        resume::open_questions(span, n, stage) matches Err(fault) ==> fault is UnknownStage || fault
            is InvalidReport by {
        lemma_question_fault(span, n, stage);
    }
}

proof fn lemma_stage_fault(span: Seq<EnvelopeView>, n: u32)
    ensures
        resume::last_stage(span, n) matches Err(fault) ==> fault is UnknownStage,
    decreases span.len(),
{
    if span.len() > 0 {
        lemma_stage_fault(span.drop_last(), n);
    }
}

proof fn lemma_report_fault(span: Seq<EnvelopeView>, n: u32, limit: int)
    ensures
        resume::reports_before(span, n, limit) matches Err(fault) ==> fault is UnknownStage || fault
            is InvalidReport,
    decreases span.len(),
{
    if span.len() > 0 {
        lemma_report_fault(span.drop_last(), n, limit);
    }
}

proof fn lemma_question_fault(span: Seq<EnvelopeView>, n: u32, stage: Stage)
    ensures
        resume::open_questions(span, n, stage) matches Err(fault) ==> fault is UnknownStage || fault
            is InvalidReport,
    decreases span.len(),
{
    if span.len() > 0 {
        lemma_question_fault(span.drop_last(), n, stage);
    }
}

/// A log without a resume command, a pause before it and an iteration before
/// that is refused, and for the one that it lacks.
pub proof fn a_log_is_refused_for_what_it_lacks(
    events: Seq<EnvelopeView>,
    r: Result<ResumePoint, ResumeError>,
)
    requires
        resume::resumes(events, r),
    ensures
        (forall|i: int| 0 <= i < events.len() ==> !((#[trigger] events[i]).event is RunResumed))
            <==> r == Err::<ResumePoint, ResumeError>(ResumeError::MissingResume),
        r is Ok ==> exists|started: int, paused: int, resumed: int|
            marked(events, started, paused, resumed),
{
    lemma_last_mark_is(Mark::Resumed, events);
    let resumed = resume::last_mark(Mark::Resumed, events);
    if resumed >= 0 {
        let early = events.take(resumed);
        lemma_last_mark_is(Mark::Paused, early);
        let paused = resume::last_mark(Mark::Paused, early);
        if paused >= 0 {
            let earlier = events.take(paused);
            lemma_last_mark_is(Mark::Started, earlier);
            let started = resume::last_mark(Mark::Started, earlier);
            assert(early[paused] == events[paused]);
            assert forall|i: int| paused < i < resumed implies !is_pause(
                (#[trigger] events[i]).event,
            ) by {
                assert(early[i] == events[i]);
            }
            if started >= 0 {
                assert(earlier[started] == events[started]);
                assert forall|i: int| started < i < paused implies !((
                #[trigger] events[i]).event is IterationStarted) by {
                    assert(earlier[i] == events[i]);
                }
                assert(marked(events, started, paused, resumed));
                if r is Err {
                    a_run_is_taken_up_where_it_paused(events, started, paused, resumed, r);
                }
            }
        }
    }
}

} // verus!
