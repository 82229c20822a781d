//! Following a run: its event stream, line by line, across however many
//! connections it takes.

use crate::client::ClientError;
use crate::event::{self, EventEnvelope, RunEvent};
use crate::json::{self, Json};
use crate::run::RunState;
use crate::store;
use crate::text;
use crate::wire;
use vstd::prelude::*;

verus! {

/// Why following a run ended before the run did.
#[derive(Debug, Clone, PartialEq, Eq)]
pub enum AttachError {
    Client(ClientError),
    Stream(String),
    Output(String),
}

impl AttachError {
    /// The message the failure is told by.
    pub open spec fn message(self) -> Seq<char> {
        match self {
            AttachError::Client(error) => error.message(),
            AttachError::Stream(message) => message@,
            AttachError::Output(error) => "could not print event: "@ + error@,
        }
    }

    pub fn to_text(&self) -> (s: String)
        ensures
            s@ == self.message(),
    {
        match self {
            AttachError::Client(error) => error.to_text(),
            AttachError::Stream(message) => message.clone(),
            AttachError::Output(error) => {
                let mut s = "could not print event: ".to_owned();
                s.append(error.as_str());
                s
            },
        }
    }
}

/// Whether an event announces a state that a run never leaves.
pub open spec fn ends_run(e: event::EventView) -> bool {
    e matches event::EventView::StateChanged { state } && (state == RunState::Done || state
        == RunState::Failed || state == RunState::Cancelled)
}

/// [`ends_run`], computed.
pub fn is_terminal(event: &RunEvent) -> (r: bool)
    ensures
        r == ends_run(event@),
{
    match event {
        RunEvent::StateChanged { state } => match state {
            RunState::Done => true,
            RunState::Failed => true,
            RunState::Cancelled => true,
            RunState::Running => false,
            RunState::Paused { .. } => false,
        },
        _ => false,
    }
}

/// One event of the stream while its lines come in.
#[derive(Debug, Clone, PartialEq, Eq)]
pub struct Frame {
    pub id: Option<String>,
    pub data: Vec<String>,
}

/// What the lines of an event have said so far.
#[verifier::ext_equal]
pub ghost struct FrameView {
    pub id: Option<Seq<char>>,
    pub data: Seq<Seq<char>>,
}

impl FrameView {
    /// A frame that no line has touched.
    pub open spec fn blank() -> FrameView {
        FrameView { id: None, data: Seq::empty() }
    }
}

impl View for Frame {
    type V = FrameView;

    open spec fn view(&self) -> FrameView {
        FrameView { id: wire::opt_text(self.id), data: text::texts(self.data@) }
    }
}

/// What is wrong with an event of the stream.
#[verifier::ext_equal]
pub ghost enum Fault {
    MissingId,
    BadId,
    BadData { words: Seq<char> },
    Mismatch { id: u64, seq: u64 },
    Jump { last: Option<u64>, seq: u64 },
}

/// Whether `words` tell a fault.
pub open spec fn tells(fault: Fault, words: Seq<char>) -> bool {
    match fault {
        Fault::MissingId => words == "event is missing its SSE id"@,
        Fault::BadId => words == "event has a non-numeric SSE id"@,
        Fault::BadData { words: why } => words == "invalid event data: "@ + why,
        Fault::Mismatch { id, seq } => words == "SSE id "@ + text::decimal(id as nat)
            + " does not match event sequence "@ + text::decimal(seq as nat),
        Fault::Jump { last, seq } => words == "event sequence jumped from "@ + (match last {
            Some(last) => text::decimal(last as nat),
            None => "start"@,
        }) + " to "@ + text::decimal(seq as nat),
    }
}

/// What a complete frame comes to.
#[verifier::ext_equal]
pub ghost enum Verdict {
    /// Nothing to deliver: a frame without data, or an event that arrived
    /// before.
    Nothing,
    Event(event::EnvelopeView),
    Wrong(Fault),
}

/// The sequence number that is due after the last event that arrived.
pub open spec fn due(last: Option<u64>) -> u64 {
    match last {
        None => 0,
        Some(seq) => if seq == u64::MAX {
            seq
        } else {
            (seq + 1) as u64
        },
    }
}

/// The number that a frame's id writes out, where it writes one.
pub open spec fn id_number(id: Seq<char>) -> Option<u64> {
    match text::natural(id) {
        Some(n) => if n <= u64::MAX {
            Some(n as u64)
        } else {
            None
        },
        None => None,
    }
}

/// What a complete frame comes to after the last event that arrived.
pub open spec fn verdict(frame: FrameView, last: Option<u64>) -> Verdict {
    if frame.data.len() == 0 {
        Verdict::Nothing
    } else {
        match frame.id {
            None => Verdict::Wrong(Fault::MissingId),
            Some(id) => match id_number(id) {
                None => Verdict::Wrong(Fault::BadId),
                Some(id) => match store::event_in(text::joined(frame.data, "\n"@)) {
                    None => Verdict::Wrong(
                        Fault::BadData { words: store::no_event(text::joined(frame.data, "\n"@)) },
                    ),
                    Some(e) => if e.seq != id {
                        Verdict::Wrong(Fault::Mismatch { id, seq: e.seq })
                    } else if e.seq < due(last) {
                        Verdict::Nothing
                    } else if e.seq != due(last) {
                        Verdict::Wrong(Fault::Jump { last, seq: e.seq })
                    } else {
                        Verdict::Event(e)
                    },
                },
            },
        }
    }
}

/// Whether `r` reports a verdict.
pub open spec fn reports(
    verdict: Verdict,
    r: Result<Option<EventEnvelope>, AttachError>,
) -> bool {
    match (verdict, r) {
        (Verdict::Nothing, Ok(None)) => true,
        (Verdict::Event(e), Ok(Some(envelope))) => envelope@ == e,
        (Verdict::Wrong(fault), Err(AttachError::Stream(words))) => tells(fault, words@),
        _ => false,
    }
}

fn refusal(words: &str) -> (r: Result<Option<EventEnvelope>, AttachError>)
    ensures
        r matches Err(AttachError::Stream(told)) && told@ == words@,
{
    Err(AttachError::Stream(words.to_owned()))
}

impl Frame {
    pub fn new() -> (r: Frame)
        ensures
            r@ == FrameView::blank(),
    {
        let r = Frame { id: None, data: Vec::new() };
        assert(text::texts(r.data@) =~= Seq::empty());
        r
    }

    /// The event that a complete frame holds, if it is the one that is due;
    /// the frame is blank again for the next.
    pub fn take_event(&mut self, last_event_id: Option<u64>) -> (r: Result<
        Option<EventEnvelope>,
        AttachError,
    >)
        ensures
            reports(verdict(old(self)@, last_event_id), r),
            final(self)@ == FrameView::blank(),
    {
        let mut frame = Frame::new();
        std::mem::swap(self, &mut frame);
        if frame.data.len() == 0 {
            return Ok(None);
        }
        let id: u64 = match &frame.id {
            None => return refusal("event is missing its SSE id"),
            Some(id) => match text::read_natural(id.as_str(), u64::MAX) {
                None => return refusal("event has a non-numeric SSE id"),
                Some(id) => id,
            },
        };
        let data = text::join(&frame.data, "\n");
        let envelope = match store::read_line(data.as_str()) {
            Ok(envelope) => envelope,
            Err(error) => {
                let mut words = "invalid event data: ".to_owned();
                words.append(error.as_str());
                return Err(AttachError::Stream(words));
            },
        };
        if envelope.seq != id {
            let mut words = "SSE id ".to_owned();
            let number = text::decimal_of(id);
            words.append(number.as_str());
            words.append(" does not match event sequence ");
            let seq = text::decimal_of(envelope.seq);
            words.append(seq.as_str());
            return Err(AttachError::Stream(words));
        }
        let expected: u64 = match last_event_id {
            None => 0,
            Some(seq) => if seq == u64::MAX {
                seq
            } else {
                seq + 1
            },
        };
        if envelope.seq < expected {
            return Ok(None);
        }
        if envelope.seq != expected {
            let mut words = "event sequence jumped from ".to_owned();
            let from = match last_event_id {
                None => "start".to_owned(),
                Some(seq) => text::decimal_of(seq),
            };
            words.append(from.as_str());
            words.append(" to ");
            let seq = text::decimal_of(envelope.seq);
            words.append(seq.as_str());
            return Err(AttachError::Stream(words));
        }
        Ok(Some(envelope))
    }
}

/// A line without the line break it ends with.
pub open spec fn content(line: Seq<char>) -> Seq<char> {
    text::shorn(line, seq!['\r', '\n'])
}

/// The value of a field, without the one space it may begin with.
pub open spec fn field_value(value: Seq<char>) -> Seq<char> {
    if value.len() > 0 && value[0] == ' ' {
        value.skip(1)
    } else {
        value
    }
}

/// What a line that names a field adds to a frame. A line that begins with a
/// colon is a comment; fields other than `id` and `data` are ignored; a line
/// without a colon names a field with an empty value.
pub open spec fn noted(frame: FrameView, line: Seq<char>) -> FrameView {
    let colon = text::first_at(line, ':');
    let field = line.take(colon);
    let value = if colon < line.len() {
        field_value(line.skip(colon + 1))
    } else {
        Seq::empty()
    };
    if colon == 0 {
        frame
    } else if field == "id"@ {
        FrameView { id: Some(value), ..frame }
    } else if field == "data"@ {
        FrameView { data: frame.data.push(value), ..frame }
    } else {
        frame
    }
}

/// What arrived with a line.
#[derive(Debug, PartialEq, Eq)]
pub struct Delivery {
    pub envelope: EventEnvelope,
    /// The event as it is printed, line break included.
    pub line: String,
    /// Whether the run ended with it.
    pub terminal: bool,
}

/// What happens to a run's stream.
pub enum StreamNews {
    /// It is open.
    Opened,
    /// It could not be opened.
    Refused(ClientError),
    /// A line came in.
    Line(String),
    /// It broke off.
    Dropped,
    /// What was to be printed is printed.
    Printed { terminal: bool },
}

/// What is to be done about a run's stream.
pub enum StreamStep {
    /// Read its next line.
    Read,
    /// Wait a little, and open it after the last event that arrived.
    Retry,
    /// Print a line; the run has ended where it is terminal.
    Print { line: String, terminal: bool },
    /// Nothing more.
    End(Result<(), AttachError>),
}

/// A run being followed.
#[derive(Debug, PartialEq, Eq)]
pub struct Attachment {
    pub last_event_id: Option<u64>,
    /// Whether a connection ever came about.
    pub connected: bool,
    pub frame: Frame,
}

impl Attachment {
    pub fn new() -> (r: Attachment)
        ensures
            r.last_event_id is None,
            !r.connected,
            r.frame@ == FrameView::blank(),
    {
        Attachment { last_event_id: None, connected: false, frame: Frame::new() }
    }

    /// A connection came about: its stream begins with a fresh frame, and
    /// what an earlier one left unfinished is gone.
    pub fn connect(&mut self)
        ensures
            final(self).connected,
            final(self).frame@ == FrameView::blank(),
            final(self).last_event_id == old(self).last_event_id,
    {
        self.connected = true;
        self.frame = Frame::new();
    }

    /// Whether a failure to connect is one to try again after: a stream that
    /// was once there and cannot be reached, as opposed to one that was never
    /// there or is refused.
    pub fn tries_again(&self, error: &ClientError) -> (r: bool)
        ensures
            r == (self.connected && error is Transport),
    {
        self.connected && error.is_transport()
    }

    /// Whether `step` is what follows on `news`, and `after` where the
    /// attachment then stands. A stream that drops is opened again, and so is
    /// one that cannot be reached once it was there; a line that completes an
    /// event has it printed; anything wrong with an event ends the matter.
    pub open spec fn follows(&self, news: StreamNews, after: Attachment, step: StreamStep) -> bool {
        match news {
            StreamNews::Opened => {
                &&& step == StreamStep::Read
                &&& after.connected
                &&& after.frame@ == FrameView::blank()
                &&& after.last_event_id == self.last_event_id
            },
            StreamNews::Refused(error) => after == *self && step == if self.connected
                && error is Transport {
                StreamStep::Retry
            } else {
                StreamStep::End(Err(AttachError::Client(error)))
            },
            StreamNews::Dropped => after == *self && step == StreamStep::Retry,
            StreamNews::Printed { terminal } => after == *self && step == if terminal {
                StreamStep::End(Ok(()))
            } else {
                StreamStep::Read
            },
            StreamNews::Line(line) => {
                &&& after.connected == self.connected
                &&& if content(line@).len() > 0 {
                    &&& step == StreamStep::Read
                    &&& after.frame@ == noted(self.frame@, content(line@))
                    &&& after.last_event_id == self.last_event_id
                } else {
                    &&& after.frame@ == FrameView::blank()
                    &&& match (verdict(self.frame@, self.last_event_id), step) {
                        (Verdict::Nothing, StreamStep::Read) => after.last_event_id
                            == self.last_event_id,
                        (Verdict::Event(e), StreamStep::Print { line, terminal }) => {
                            &&& line@ == json::printed(event::envelope_json(e)) + "\n"@
                            &&& terminal == ends_run(e.event)
                            &&& after.last_event_id == Some(e.seq)
                        },
                        (Verdict::Wrong(fault), StreamStep::End(Err(AttachError::Stream(words)))) => {
                            &&& tells(fault, words@)
                            &&& after.last_event_id == self.last_event_id
                        },
                        _ => false,
                    }
                }
            },
        }
    }

    /// What follows on a piece of news of the stream.
    pub fn step(&mut self, news: StreamNews) -> (step: StreamStep)
        ensures
            old(self).follows(news, *final(self), step),
    {
        match news {
            StreamNews::Opened => {
                self.connect();
                StreamStep::Read
            },
            StreamNews::Refused(error) => {
                if self.tries_again(&error) {
                    StreamStep::Retry
                } else {
                    StreamStep::End(Err(AttachError::Client(error)))
                }
            },
            StreamNews::Dropped => StreamStep::Retry,
            StreamNews::Printed { terminal } => if terminal {
                StreamStep::End(Ok(()))
            } else {
                StreamStep::Read
            },
            StreamNews::Line(line) => match self.take_line(line.as_str()) {
                Ok(Some(delivery)) => StreamStep::Print {
                    line: delivery.line,
                    terminal: delivery.terminal,
                },
                Ok(None) => StreamStep::Read,
                Err(error) => StreamStep::End(Err(error)),
            },
        }
    }

    /// Takes one line of the stream.
    pub fn take_line(&mut self, line: &str) -> (r: Result<Option<Delivery>, AttachError>)
        ensures
            final(self).connected == old(self).connected,
            content(line@).len() > 0 ==> {
                &&& r matches Ok(None)
                &&& final(self).frame@ == noted(old(self).frame@, content(line@))
                &&& final(self).last_event_id == old(self).last_event_id
            },
            content(line@).len() == 0 ==> final(self).frame@ == FrameView::blank() && match (
                verdict(old(self).frame@, old(self).last_event_id),
                r,
            ) {
                (Verdict::Nothing, Ok(None)) => final(self).last_event_id
                    == old(self).last_event_id,
                (Verdict::Event(e), Ok(Some(delivery))) => {
                    &&& delivery.envelope@ == e
                    &&& delivery.line@ == json::printed(event::envelope_json(e)) + "\n"@
                    &&& delivery.terminal == ends_run(e.event)
                    &&& final(self).last_event_id == Some(e.seq)
                },
                (Verdict::Wrong(fault), Err(AttachError::Stream(words))) => {
                    &&& tells(fault, words@)
                    &&& final(self).last_event_id == old(self).last_event_id
                },
                _ => false,
            },
    {
        let breaks: [char; 2] = ['\r', '\n'];
        assert(breaks@ =~= seq!['\r', '\n']);
        let words = text::shear(line, &breaks);
        if words.as_str().is_empty() {
            let envelope = match self.frame.take_event(self.last_event_id) {
                Err(error) => return Err(error),
                Ok(None) => return Ok(None),
                Ok(Some(envelope)) => envelope,
            };
            self.last_event_id = Some(envelope.seq);
            let mut printed = envelope.to_json().to_text();
            printed.append("\n");
            let terminal = is_terminal(&envelope.event);
            return Ok(Some(Delivery { envelope, line: printed, terminal }));
        }
        match text::split_once(words.as_str(), ':') {
            Some((field, rest)) => {
                if field.as_str().is_empty() {
                    return Ok(None);
                }
                let value = match text::strip_prefix(rest.as_str(), " ") {
                    Some(value) => value,
                    None => rest,
                };
                proof {
                    reveal_strlit(" ");
                    assert(" "@ =~= seq![' ']);
                    if rest@.len() > 0 {
                        assert(rest@.subrange(0, 1) =~= seq![rest@[0]]);
                        assert(seq![rest@[0]][0] == rest@[0] && seq![' '][0] == ' ');
                    }
                    assert(value@ == field_value(words@.skip(text::first_at(words@, ':') + 1)));
                }
                self.note(field.as_str(), value);
            },
            None => {
                let value: String = String::new();
                proof {
                    assert(value@ =~= Seq::empty());
                    assert(words@.take(words@.len() as int) =~= words@);
                }
                self.note(words.as_str(), value);
            },
        }
        Ok(None)
    }

    fn note(&mut self, field: &str, value: String)
        ensures
            final(self).connected == old(self).connected,
            final(self).last_event_id == old(self).last_event_id,
            final(self).frame@ == if field@ == "id"@ {
                FrameView { id: Some(value@), ..old(self).frame@ }
            } else if field@ == "data"@ {
                FrameView { data: old(self).frame@.data.push(value@), ..old(self).frame@ }
            } else {
                old(self).frame@
            },
    {
        if text::same(field, "id") {
            self.frame.id = Some(value);
        } else if text::same(field, "data") {
            let ghost before = text::texts(self.frame.data@);
            let ghost added = value@;
            self.frame.data.push(value);
            assert(text::texts(self.frame.data@) =~= before.push(added));
        }
    }
}

/// The events that the complete frames of a stream deliver, whatever
/// connections they came over, up to the first fault.
pub open spec fn delivered(frames: Seq<FrameView>, last: Option<u64>) -> Seq<event::EnvelopeView>
    decreases frames.len(),
{
    if frames.len() == 0 {
        Seq::empty()
    } else {
        match verdict(frames[0], last) {
            Verdict::Nothing => delivered(frames.skip(1), last),
            Verdict::Event(e) => seq![e] + delivered(frames.skip(1), Some(e.seq)),
            Verdict::Wrong(_) => Seq::empty(),
        }
    }
}

/// No losses, no duplicates: whatever a stream and its reconnections replay,
/// the events that arrive are numbered from the first on, without a gap.
pub proof fn each_event_arrives_once_and_in_order(frames: Seq<FrameView>)
    requires
        frames.len() <= u64::MAX,
    ensures
        forall|i: int|
            0 <= i < delivered(frames, None).len() ==> (#[trigger] delivered(
                frames,
                None,
            )[i]).seq == i,
{
    lemma_in_order(frames, None, 0);
}

proof fn lemma_in_order(frames: Seq<FrameView>, last: Option<u64>, base: int)
    requires
        base == match last {
            Some(seq) => seq + 1,
            None => 0,
        },
        base + frames.len() <= u64::MAX,
    ensures
        delivered(frames, last).len() <= frames.len(),
        forall|i: int|
            0 <= i < delivered(frames, last).len() ==> (#[trigger] delivered(
                frames,
                last,
            )[i]).seq == base + i,
    decreases frames.len(),
{
    if frames.len() > 0 {
        let rest = frames.skip(1);
        match verdict(frames[0], last) {
            Verdict::Nothing => lemma_in_order(rest, last, base),
            Verdict::Event(e) => {
                lemma_in_order(rest, Some(e.seq), base + 1);
                let after = delivered(rest, Some(e.seq));
                assert forall|i: int| 0 <= i < delivered(frames, last).len() implies (
                #[trigger] delivered(frames, last)[i]).seq == base + i by {
                    if i > 0 {
                        assert(delivered(frames, last)[i] == after[i - 1]);
                    }
                }
            },
            Verdict::Wrong(_) => {},
        }
    }
}

} // verus!
