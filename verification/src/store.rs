//! The run store: a run persisted as a directory of plain files. The JSONL
//! event log is the source of truth. The state file is a mirror the sink
//! refreshes on every state change, so that a human can read the current
//! state without replaying; code always derives state from the log. The
//! metadata is fixed at creation.
//!
//! An event exists once its whole line is on disk, and not before: an append
//! cut short leaves a torn tail that readers ignore and the sink truncates
//! before continuing.

use crate::event::{self, EventEnvelope, RunEvent};
use crate::fault::{self, FieldView};
use crate::json::{self, Json};
use crate::projection;
use crate::run::{RunId, RunState};
use crate::text;
use crate::utf8;
use crate::wire;
use crate::workspace;
use vstd::prelude::*;
use vstd::utf8::*;

verus! {

pub const EVENT_LOG_FILE: &'static str = "events.jsonl";

pub const STATE_FILE: &'static str = "state.json";

pub const META_FILE: &'static str = "meta.json";

/// `jiff::Timestamp::now` and the timestamp's `Display`: the moment of the
/// call, RFC 3339 in UTC, so the text ends with `Z`. Which moment that is
/// depends on the clock, and nothing is claimed of it.
#[verifier::external_body]
fn timestamp() -> (at: String)
    ensures
        at@.len() > 0 && at@.last() == 'Z',
{
    jiff::Timestamp::now().to_string()
}

/// A store failure. `NotFound` and `AlreadyExists` are the two a host answers
/// for; everything else is run-fatal infrastructure.
#[derive(Debug, Clone, PartialEq, Eq)]
pub enum StoreError {
    NotFound(RunId),
    AlreadyExists(RunId),
    Io { path: String, source: String },
    Corrupt { path: String, detail: String },
    Encode { path: String, detail: String },
}

impl StoreError {
    /// The message the failure is told by.
    pub open spec fn message(self) -> Seq<char> {
        match self {
            StoreError::NotFound(run_id) => "no such run: "@ + run_id@,
            StoreError::AlreadyExists(run_id) => "run already exists: "@ + run_id@,
            StoreError::Io { path, source } => "run store I/O on "@ + path@ + ": "@ + source@,
            StoreError::Corrupt { path, detail } => "corrupt run record "@ + path@ + ": "@
                + detail@,
            StoreError::Encode { path, detail } => "cannot encode "@ + path@ + ": "@ + detail@,
        }
    }

    pub fn to_text(&self) -> (s: String)
        ensures
            s@ == self.message(),
    {
        match self {
            StoreError::NotFound(run_id) => {
                let mut s = "no such run: ".to_owned();
                s.append(run_id.as_str());
                s
            },
            StoreError::AlreadyExists(run_id) => {
                let mut s = "run already exists: ".to_owned();
                s.append(run_id.as_str());
                s
            },
            StoreError::Io { path, source } => {
                let mut s = "run store I/O on ".to_owned();
                s.append(path.as_str());
                s.append(": ");
                s.append(source.as_str());
                s
            },
            StoreError::Corrupt { path, detail } => {
                let mut s = "corrupt run record ".to_owned();
                s.append(path.as_str());
                s.append(": ");
                s.append(detail.as_str());
                s
            },
            StoreError::Encode { path, detail } => {
                let mut s = "cannot encode ".to_owned();
                s.append(path.as_str());
                s.append(": ");
                s.append(detail.as_str());
                s
            },
        }
    }

    fn corrupt(path: &str, detail: String) -> (r: StoreError)
        ensures
            r matches StoreError::Corrupt { path: p, detail: d } && p@ == path@ && d == detail,
    {
        StoreError::Corrupt { path: path.to_owned(), detail }
    }
}

/// What identifies a run beyond its log: written once at creation, immutable
/// after.
#[derive(Debug, Clone, PartialEq, Eq)]
pub struct RunMeta {
    pub run_id: RunId,
    /// The kernel name the flow selected.
    pub kernel: String,
    /// The agent adapter name the flow selected.
    pub agent: String,
    /// RFC 3339 UTC timestamp of when the run was created.
    pub created_at: String,
}

/// What a run's metadata says.
#[verifier::ext_equal]
pub ghost struct MetaView {
    pub run_id: Seq<char>,
    pub kernel: Seq<char>,
    pub agent: Seq<char>,
    pub created_at: Seq<char>,
}

impl View for RunMeta {
    type V = MetaView;

    open spec fn view(&self) -> MetaView {
        MetaView {
            run_id: self.run_id@,
            kernel: self.kernel@,
            agent: self.agent@,
            created_at: self.created_at@,
        }
    }
}

/// A run's metadata as a document.
pub open spec fn meta_json(meta: MetaView) -> json::JsonView {
    json::JsonView::Object(
        json::Members::empty().insert("run_id"@, json::JsonView::Str(meta.run_id)).insert(
            "kernel"@,
            json::JsonView::Str(meta.kernel),
        ).insert("agent"@, json::JsonView::Str(meta.agent)).insert(
            "created_at"@,
            json::JsonView::Str(meta.created_at),
        ),
    )
}

/// The metadata a document holds.
pub open spec fn as_meta(v: json::JsonView) -> Option<MetaView> {
    match (
        wire::text_at(v, "run_id"@),
        wire::text_at(v, "kernel"@),
        wire::text_at(v, "agent"@),
        wire::text_at(v, "created_at"@),
    ) {
        (Some(run_id), Some(kernel), Some(agent), Some(created_at)) => Some(
            MetaView { run_id, kernel, agent, created_at },
        ),
        _ => None,
    }
}

/// Metadata written as a document reads back as it was.
pub proof fn metadata_reads_back(meta: MetaView)
    ensures
        as_meta(meta_json(meta)) == Some(meta),
{
    reveal_strlit("run_id");
    reveal_strlit("kernel");
    reveal_strlit("agent");
    reveal_strlit("created_at");
    assert("run_id"@.len() == 6 && "kernel"@.len() == 6 && "agent"@.len() == 5
        && "created_at"@.len() == 10);
    assert("run_id"@[0] == 'r' && "kernel"@[0] == 'k');
}

impl RunMeta {
    /// The metadata as a document.
    pub fn to_json(&self) -> (r: Json)
        ensures
            r@ == meta_json(self@),
    {
        let mut fields: Vec<(String, Json)> = Vec::new();
        proof {
            json::lemma_fields(fields@);
        }
        wire::put(&mut fields, "run_id", wire::text_json(self.run_id.as_str()));
        wire::put(&mut fields, "kernel", wire::text_json(self.kernel.as_str()));
        wire::put(&mut fields, "agent", wire::text_json(self.agent.as_str()));
        wire::put(&mut fields, "created_at", wire::text_json(self.created_at.as_str()));
        Json::Object(fields)
    }

    /// [`as_meta`], computed.
    fn read(v: &Json) -> (r: Option<RunMeta>)
        ensures
            match r {
                Some(read) => as_meta(v@) == Some(read@),
                None => as_meta(v@) is None,
            },
    {
        let run_id = wire::read_text(v, "run_id")?;
        let kernel = wire::read_text(v, "kernel")?;
        let agent = wire::read_text(v, "agent")?;
        let created_at = wire::read_text(v, "created_at")?;
        Some(RunMeta { run_id: RunId::new(run_id.as_str()), kernel, agent, created_at })
    }

    /// [`meta_fault`], computed.
    fn refusal(v: &Json) -> (r: Option<String>)
        ensures
            wire::opt_text(r) == meta_fault(v@),
    {
        let fields = vec![
            fault::look_for_text(v, "run_id"),
            fault::look_for_text(v, "kernel"),
            fault::look_for_text(v, "agent"),
            fault::look_for_text(v, "created_at"),
        ];
        assert(fault::field_views(fields@) =~= meta_known(v@));
        fault::look_over(v, "struct RunMeta", &fields, false)
    }

    /// Reads metadata from a document.
    pub fn from_json(v: &Json) -> (r: Result<RunMeta, String>)
        ensures
            match r {
                Ok(read) => as_meta(v@) == Some(read@),
                Err(words) => as_meta(v@) is None && meta_fault(v@) == Some(words@),
            },
    {
        proof {
            json::every_document_is_orderly(*v);
            lemma_meta(v@);
        }
        match RunMeta::refusal(v) {
            Some(words) => Err(words),
            None => Ok(RunMeta::read(v).unwrap()),
        }
    }
}

/// What is wrong with a text that holds no metadata: what makes it no
/// document, or what the document is refused for.
pub open spec fn no_meta(text: Seq<char>) -> Seq<char> {
    match json::parsed(text) {
        Some(v) => match meta_fault(v) {
            Some(words) => words,
            None => Seq::empty(),
        },
        None => json::malformed(text),
    }
}

/// What is known of the members of metadata.
pub open spec fn meta_known(v: json::JsonView) -> Seq<FieldView> {
    seq![
        fault::text_field(v, "run_id"@),
        fault::text_field(v, "kernel"@),
        fault::text_field(v, "agent"@),
        fault::text_field(v, "created_at"@),
    ]
}

/// What is wrong with a document that is to be metadata.
pub open spec fn meta_fault(v: json::JsonView) -> Option<Seq<char>> {
    fault::record_fault(v, "struct RunMeta"@, meta_known(v), false)
}

/// A document is refused exactly where it is not metadata.
pub proof fn lemma_meta(v: json::JsonView)
    requires
        json::orderly(v),
    ensures
        meta_fault(v) is None <==> as_meta(v) is Some,
{
    let fields = meta_known(v);
    fault::lemma_record(v, "struct RunMeta"@, fields, false);
    assert(fault::all_sound(v, fields) <==> fault::sound(v, fields[0]) && fault::sound(v, fields[1]) && fault::sound(v, fields[2]) && fault::sound(v, fields[3]));
}

/// A run's state as a document.
pub open spec fn state_json(state: RunState) -> json::JsonView {
    json::JsonView::Object(state.onto(json::Members::empty()))
}

/// What the state file holds: pretty-printed with a trailing newline, because
/// it exists to be read by eye.
pub fn state_mirror(state: RunState) -> (s: String)
    ensures
        s@ == json::pretty_printed(state_json(state)) + "\n"@,
{
    let mut fields: Vec<(String, Json)> = Vec::new();
    proof {
        json::lemma_fields(fields@);
    }
    state.put_onto(&mut fields);
    let mut s = Json::Object(fields).to_pretty_text();
    s.append("\n");
    s
}

/// How many bytes of a log are whole lines; anything beyond is a torn tail.
pub open spec fn whole_lines(raw: Seq<u8>) -> int
    decreases raw.len(),
{
    if raw.len() == 0 {
        0
    } else if raw.last() == 10 {
        raw.len() as int
    } else {
        whole_lines(raw.drop_last())
    }
}

/// [`whole_lines`], computed.
fn whole_length(raw: &Vec<u8>) -> (r: usize)
    ensures
        r == whole_lines(raw@),
        r <= raw@.len(),
{
    let mut at: usize = raw.len();
    assert(raw@.take(raw@.len() as int) =~= raw@);
    while at > 0 && raw[at - 1] != 10
        invariant
            at <= raw@.len(),
            whole_lines(raw@.take(at as int)) == whole_lines(raw@),
        decreases at,
    {
        assert(raw@.take(at as int).drop_last() =~= raw@.take(at - 1));
        at = at - 1;
    }
    assert(at > 0 ==> raw@.take(at as int).last() == 10);
    at
}

/// What is wrong with a line of a log.
#[verifier::ext_equal]
pub ghost enum LineFault {
    /// It is no event; the words say why.
    Malformed { line: nat, words: Seq<char> },
    /// It does not sit at the sequence position it claims.
    OutOfSequence { line: nat, seq: u64 },
    /// It belongs to another run.
    Foreign { line: nat, run_id: Seq<char> },
}

/// The event a line of a log holds.
pub open spec fn event_in(line: Seq<char>) -> Option<event::EnvelopeView> {
    match json::parsed(line) {
        Some(v) => event::as_envelope(v),
        None => None,
    }
}

/// What is wrong with a line that holds no event: what makes it no document,
/// or what the document is refused for.
pub open spec fn no_event(line: Seq<char>) -> Seq<char> {
    match json::parsed(line) {
        Some(v) => match event::envelope_fault(v) {
            Some(words) => words,
            None => Seq::empty(),
        },
        None => json::malformed(line),
    }
}

/// The history that the lines of a log tell, replayed strictly: every line
/// must parse, sit at the sequence position it claims, and carry the run's
/// own identity.
pub open spec fn history(run_id: Seq<char>, lines: Seq<Seq<char>>) -> Result<
    Seq<event::EnvelopeView>,
    LineFault,
>
    decreases lines.len(),
{
    if lines.len() == 0 {
        Ok(Seq::empty())
    } else {
        match history(run_id, lines.drop_last()) {
            Err(fault) => Err(fault),
            Ok(before) => match event_in(lines.last()) {
                None => Err(
                    LineFault::Malformed { line: lines.len(), words: no_event(lines.last()) },
                ),
                Some(e) => if e.seq != lines.len() - 1 {
                    Err(LineFault::OutOfSequence { line: lines.len(), seq: e.seq })
                } else if e.run_id != run_id {
                    Err(LineFault::Foreign { line: lines.len(), run_id: e.run_id })
                } else {
                    Ok(before.push(e))
                },
            },
        }
    }
}

/// How the words for a fault in a line begin.
pub open spec fn line_prefix(line: nat) -> Seq<char> {
    "line "@ + text::decimal(line) + ": "@
}

/// Whether `detail` tells a fault.
pub open spec fn tells(fault: LineFault, detail: Seq<char>) -> bool {
    match fault {
        LineFault::Malformed { line, words } => detail == line_prefix(line) + words,
        LineFault::OutOfSequence { line, seq } => detail == line_prefix(line) + "seq "@
            + text::decimal(seq as nat) + " out of sequence"@,
        LineFault::Foreign { line, run_id } => detail == line_prefix(line)
            + "event belongs to run `"@ + run_id + "`"@,
    }
}

/// The words for a fault begin with the line it is in.
fn begin_fault(position: usize) -> (s: String)
    requires
        position < usize::MAX,
    ensures
        s@ == line_prefix((position + 1) as nat),
{
    let mut s = "line ".to_owned();
    let number = text::decimal_of((position + 1) as u64);
    s.append(number.as_str());
    s.append(": ");
    s
}

/// Whether `r` is what a log of raw bytes replays to: its whole lines, read
/// as the run's history. The one tolerated flaw is a torn tail, which was
/// never acknowledged and so is not history.
pub open spec fn replays(
    path: Seq<char>,
    run_id: Seq<char>,
    raw: Seq<u8>,
    r: Result<(Vec<EventEnvelope>, usize), StoreError>,
) -> bool {
    let whole = raw.take(whole_lines(raw));
    if !valid_utf8(whole) {
        r matches Err(StoreError::Corrupt { path: p, detail }) && p@ == path && detail@
            == utf8::utf8_fault(whole)
    } else {
        match (history(run_id, text::lines(decode_utf8(whole))), r) {
            (Ok(events), Ok((envelopes, length))) => event::envelope_views(envelopes@) == events
                && length == whole_lines(raw),
            (Err(fault), Err(StoreError::Corrupt { path: p, detail })) => p@ == path && tells(
                fault,
                detail@,
            ),
            _ => false,
        }
    }
}

/// Replays a log of raw bytes.
pub fn replay(path: &str, run_id: &str, raw: &Vec<u8>) -> (r: Result<
    (Vec<EventEnvelope>, usize),
    StoreError,
>)
    ensures
        replays(path@, run_id@, raw@, r),
{
    let length: usize = whole_length(raw);
    let whole: Vec<u8> = workspace::copied_bytes(raw);
    let mut whole = whole;
    let _ = whole.split_off(length);
    assert(whole@ =~= raw@.take(length as int));
    let words = match utf8::read_utf8(whole.as_slice()) {
        Ok(words) => words,
        Err(fault) => return Err(StoreError::corrupt(path, fault)),
    };
    let lines = text::lines_of(words.as_str());
    let ghost all = text::texts(lines@);
    let mut events: Vec<EventEnvelope> = Vec::new();
    assert(all.take(0) =~= Seq::empty());
    assert(event::envelope_views(events@) =~= Seq::empty());
    for i in 0..lines.len()
        invariant
            all == text::texts(lines@),
            valid_utf8(whole@),
            whole@ == raw@.take(whole_lines(raw@)),
            all == text::lines(decode_utf8(whole@)),
            history(run_id@, all.take(i as int)) == Ok::<Seq<event::EnvelopeView>, LineFault>(
                event::envelope_views(events@),
            ),
    {
        let ghost longer = all.take(i + 1);
        assert(longer.drop_last() =~= all.take(i as int));
        assert(longer.last() == lines@[i as int]@);
        let envelope = match read_line(lines[i].as_str()) {
            Ok(envelope) => envelope,
            Err(error) => {
                let mut detail = begin_fault(i);
                detail.append(error.as_str());
                proof {
                    lemma_fault_persists(run_id@, all, i + 1);
                }
                return Err(StoreError::corrupt(path, detail));
            },
        };
        if envelope.seq != i as u64 {
            let mut detail = begin_fault(i);
            detail.append("seq ");
            let number = text::decimal_of(envelope.seq);
            detail.append(number.as_str());
            detail.append(" out of sequence");
            proof {
                lemma_fault_persists(run_id@, all, i + 1);
            }
            return Err(StoreError::corrupt(path, detail));
        }
        if !text::same(envelope.run_id.as_str(), run_id) {
            let mut detail = begin_fault(i);
            detail.append("event belongs to run `");
            detail.append(envelope.run_id.as_str());
            detail.append("`");
            proof {
                lemma_fault_persists(run_id@, all, i + 1);
            }
            return Err(StoreError::corrupt(path, detail));
        }
        let ghost before = event::envelope_views(events@);
        let ghost view = envelope@;
        events.push(envelope);
        assert(event::envelope_views(events@) =~= before.push(view));
    }
    assert(all.take(lines@.len() as int) =~= all);
    Ok((events, length))
}

/// The event that a line of a log holds.
pub fn read_line(line: &str) -> (r: Result<EventEnvelope, String>)
    ensures
        match r {
            Ok(e) => event_in(line@) == Some(e@),
            Err(words) => event_in(line@) is None && words@ == no_event(line@),
        },
{
    match Json::parse(line) {
        Ok(v) => EventEnvelope::from_json(&v),
        Err(error) => Err(error),
    }
}

/// A fault found early in a log is the log's fault.
proof fn lemma_fault_persists(run_id: Seq<char>, lines: Seq<Seq<char>>, n: int)
    requires
        0 <= n <= lines.len(),
        history(run_id, lines.take(n)) is Err,
    ensures
        history(run_id, lines) == history(run_id, lines.take(n)),
    decreases lines.len() - n,
{
    if n < lines.len() {
        assert(lines.take(n + 1).drop_last() =~= lines.take(n));
        lemma_fault_persists(run_id, lines, n + 1);
    } else {
        assert(lines.take(n) =~= lines);
    }
}

/// The state a run's log reduces to: the last one it announces, or running
/// while it announces none.
pub fn reduce_state(events: &Vec<EventEnvelope>) -> (r: RunState)
    ensures
        r == projection::state_after(event::envelope_views(events@)),
{
    let ghost all = event::envelope_views(events@);
    let mut i: usize = events.len();
    assert(all.take(events@.len() as int) =~= all);
    while i > 0
        invariant
            i <= events@.len(),
            all == event::envelope_views(events@),
            projection::state_after(all.take(i as int)) == projection::state_after(all),
        decreases i,
    {
        i = i - 1;
        assert(all.take(i + 1).drop_last() =~= all.take(i as int));
        assert(all.take(i + 1).last() == events@[i as int]@);
        if let RunEvent::StateChanged { state } = &events[i].event {
            return *state;
        }
    }
    assert(all.take(0) =~= Seq::empty());
    RunState::Running
}

/// One run's directory: the event log, the state mirror, and the metadata
/// beside it.
#[derive(Debug, Clone, PartialEq, Eq)]
pub struct RunDir {
    root: String,
    meta: RunMeta,
}

impl RunDir {
    /// Where the directory lies.
    pub closed spec fn root(&self) -> Seq<char> {
        self.root@
    }

    /// What identifies the run.
    pub closed spec fn about(&self) -> MetaView {
        self.meta@
    }

    /// The directory of a run that comes into existence now, as
    /// `<runs_root>/<run_id>`.
    pub fn create(runs_root: &str, run_id: RunId, kernel: &str, agent: &str) -> (r: RunDir)
        ensures
            r.root() == workspace::below(runs_root@, run_id@),
            r.about() == (MetaView {
                run_id: run_id@,
                kernel: kernel@,
                agent: agent@,
                created_at: r.about().created_at,
            }),
            r.about().created_at.len() > 0 && r.about().created_at.last() == 'Z',
    {
        let created_at = timestamp();
        RunDir::created(runs_root, run_id, kernel, agent, created_at.as_str())
    }

    /// The directory of a run that came into existence at a given time.
    pub fn created(
        runs_root: &str,
        run_id: RunId,
        kernel: &str,
        agent: &str,
        created_at: &str,
    ) -> (r: RunDir)
        ensures
            r.root() == workspace::below(runs_root@, run_id@),
            r.about() == (MetaView {
                run_id: run_id@,
                kernel: kernel@,
                agent: agent@,
                created_at: created_at@,
            }),
    {
        RunDir {
            root: workspace::join(runs_root, run_id.as_str()),
            meta: RunMeta {
                run_id,
                kernel: kernel.to_owned(),
                agent: agent.to_owned(),
                created_at: created_at.to_owned(),
            },
        }
    }

    /// The files that bring a run into existence, in the order they are
    /// written: its metadata, a running state mirror, and an empty log.
    pub fn founding_files(&self) -> (r: Vec<(String, String)>)
        ensures
            r@.len() == 3,
            r@[0].0@ == workspace::below(self.root(), META_FILE@),
            r@[0].1@ == json::pretty_printed(meta_json(self.about())) + "\n"@,
            r@[1].0@ == workspace::below(self.root(), STATE_FILE@),
            r@[1].1@ == json::pretty_printed(state_json(RunState::Running)) + "\n"@,
            r@[2].0@ == workspace::below(self.root(), EVENT_LOG_FILE@),
            r@[2].1@ == Seq::<char>::empty(),
    {
        let mut meta = self.meta.to_json().to_pretty_text();
        meta.append("\n");
        let log: String = String::new();
        assert(log@ =~= Seq::empty());
        vec![
            (self.meta_path(), meta),
            (self.state_path(), state_mirror(RunState::Running)),
            (self.log_path(), log),
        ]
    }

    /// Opens a run's directory from what its metadata file holds; `None`
    /// where there is no such file. Metadata that does not parse, or names
    /// another run, is corrupt.
    pub fn open(runs_root: &str, run_id: &RunId, raw: Option<&str>) -> (r: Result<
        RunDir,
        StoreError,
    >)
        ensures
            ({
                let root = workspace::below(runs_root@, run_id@);
                let held = match raw {
                    Some(words) => match json::parsed(words@) {
                        Some(v) => as_meta(v),
                        None => None,
                    },
                    None => None,
                };
                match r {
                    Ok(dir) => {
                        &&& held == Some(dir.about())
                        &&& dir.about().run_id == run_id@
                        &&& dir.root() == root
                    },
                    Err(StoreError::NotFound(missing)) => raw is None && missing@ == run_id@,
                    Err(StoreError::Corrupt { path, detail }) => {
                        &&& raw is Some
                        &&& path@ == workspace::below(root, META_FILE@)
                        &&& match held {
                            Some(meta) => meta.run_id != run_id@ && detail@
                                == "metadata names run `"@ + meta.run_id + "`"@,
                            None => detail@ == no_meta(raw->0@),
                        }
                    },
                    Err(_) => false,
                }
            }),
    {
        let root = workspace::join(runs_root, run_id.as_str());
        let path = workspace::join(root.as_str(), META_FILE);
        let words = match raw {
            Some(words) => words,
            None => return Err(StoreError::NotFound(run_id.copy())),
        };
        let v = match Json::parse(words) {
            Ok(v) => v,
            Err(error) => return Err(StoreError::corrupt(path.as_str(), error)),
        };
        let meta = match RunMeta::from_json(&v) {
            Ok(meta) => meta,
            Err(error) => return Err(StoreError::corrupt(path.as_str(), error)),
        };
        if !text::same(meta.run_id.as_str(), run_id.as_str()) {
            let mut detail = "metadata names run `".to_owned();
            detail.append(meta.run_id.as_str());
            detail.append("`");
            return Err(StoreError::corrupt(path.as_str(), detail));
        }
        Ok(RunDir { root, meta })
    }

    pub fn path(&self) -> (s: &str)
        ensures
            s@ == self.root(),
    {
        self.root.as_str()
    }

    pub fn meta(&self) -> (r: &RunMeta)
        ensures
            r@ == self.about(),
    {
        &self.meta
    }

    pub fn log_path(&self) -> (s: String)
        ensures
            s@ == workspace::below(self.root(), EVENT_LOG_FILE@),
    {
        workspace::join(self.root.as_str(), EVENT_LOG_FILE)
    }

    pub fn state_path(&self) -> (s: String)
        ensures
            s@ == workspace::below(self.root(), STATE_FILE@),
    {
        workspace::join(self.root.as_str(), STATE_FILE)
    }

    pub fn meta_path(&self) -> (s: String)
        ensures
            s@ == workspace::below(self.root(), META_FILE@),
    {
        workspace::join(self.root.as_str(), META_FILE)
    }

    /// The run's history and the length of the log's whole lines, from the
    /// raw log.
    pub fn read_log(&self, raw: &Vec<u8>) -> (r: Result<(Vec<EventEnvelope>, usize), StoreError>)
        ensures
            replays(
                workspace::below(self.root(), EVENT_LOG_FILE@),
                self.about().run_id,
                raw@,
                r,
            ),
    {
        let path = self.log_path();
        replay(path.as_str(), self.meta.run_id.as_str(), raw)
    }

    /// Where the run stands according to its raw log.
    pub fn state(&self, raw: &Vec<u8>) -> (r: Result<RunState, StoreError>)
        ensures
            exists|read: Result<(Vec<EventEnvelope>, usize), StoreError>| #[trigger]
                replays(
                    workspace::below(self.root(), EVENT_LOG_FILE@),
                    self.about().run_id,
                    raw@,
                    read,
                ) && match read {
                    Ok((events, _)) => r == Ok::<RunState, StoreError>(
                        projection::state_after(event::envelope_views(events@)),
                    ),
                    Err(error) => r == Err::<RunState, StoreError>(error),
                },
    {
        match self.read_log(raw) {
            Ok((events, _)) => Ok(reduce_state(&events)),
            Err(error) => Err(error),
        }
    }

    /// The sink a kernel appends this run's events through, and the length
    /// the log is to be cut to before the first append: the next event must
    /// not land glued onto an unfinished line. Continues after the last
    /// logged sequence number, so ids stay stable across restarts.
    pub fn event_sink(&self, raw: &Vec<u8>) -> (r: Result<(FileEventSink, usize), StoreError>)
        ensures
            exists|read: Result<(Vec<EventEnvelope>, usize), StoreError>| #[trigger]
                replays(
                    workspace::below(self.root(), EVENT_LOG_FILE@),
                    self.about().run_id,
                    raw@,
                    read,
                ) && match read {
                    Ok((events, length)) => r matches Ok((sink, cut)) && sink.run_id@
                        == self.about().run_id && sink.next_seq == events@.len() && cut == length,
                    Err(error) => r == Err::<(FileEventSink, usize), StoreError>(error),
                },
    {
        match self.read_log(raw) {
            Ok((events, length)) => Ok(
                (
                    FileEventSink {
                        run_id: self.meta.run_id.copy(),
                        next_seq: events.len() as u64,
                    },
                    length,
                ),
            ),
            Err(error) => Err(error),
        }
    }
}

/// What appending one event puts on disk.
#[derive(Debug, PartialEq, Eq)]
pub struct Append {
    pub envelope: EventEnvelope,
    /// The line that goes to the log, line break included.
    pub line: String,
    /// What the state mirror is refreshed with, where the event announces a
    /// state.
    pub mirror: Option<String>,
}

/// The log a kernel's events are appended to: each event becomes one
/// enveloped JSON line, the exact shape the daemon later streams.
#[derive(Debug, PartialEq, Eq)]
pub struct FileEventSink {
    pub run_id: RunId,
    pub next_seq: u64,
}

/// Whether a line of a log, without its line break, carries an event: it
/// parses back to it, and nothing in it breaks the line.
pub open spec fn carries(line: Seq<char>, e: event::EnvelopeView) -> bool {
    &&& json::parsed(line) == Some(event::envelope_json(e))
    &&& forall|i: int| 0 <= i < line.len() ==> line[i] != '\n' && line[i] != '\r'
}

impl FileEventSink {
    /// The envelope that an event gets.
    pub open spec fn enveloped(self, at: Seq<char>, e: event::EventView) -> event::EnvelopeView {
        event::EnvelopeView { seq: self.next_seq, run_id: self.run_id@, at, event: e }
    }

    /// Whether `r` is what appending an event that is recorded `at` puts on
    /// disk.
    pub open spec fn appends(self, at: Seq<char>, e: event::EventView, r: Append) -> bool {
        let enveloped = self.enveloped(at, e);
        &&& r.envelope@ == enveloped
        &&& r.line@ == json::printed(event::envelope_json(enveloped)) + "\n"@
        &&& json::portable(event::envelope_json(enveloped)) ==> carries(
            r.line@.drop_last(),
            enveloped,
        )
        &&& match e {
            event::EventView::StateChanged { state } => r.mirror matches Some(words) && words@
                == json::pretty_printed(state_json(state)) + "\n"@,
            _ => r.mirror is None,
        }
    }

    /// What appending an event now puts on disk.
    pub fn emit(&self, event: RunEvent) -> (r: Append)
        ensures
            self.appends(r.envelope@.at, event@, r),
            r.envelope@.at.len() > 0 && r.envelope@.at.last() == 'Z',
    {
        let at = timestamp();
        self.append(at.as_str(), event)
    }

    /// What appending an event that is recorded `at` puts on disk.
    pub fn append(&self, at: &str, event: RunEvent) -> (r: Append)
        ensures
            self.appends(at@, event@, r),
    {
        let mirror: Option<String> = match &event {
            RunEvent::StateChanged { state } => Some(state_mirror(*state)),
            _ => None,
        };
        let envelope = EventEnvelope {
            seq: self.next_seq,
            run_id: self.run_id.as_str().to_owned(),
            at: at.to_owned(),
            event,
        };
        let mut line = envelope.to_json().to_text();
        let ghost words = line@;
        line.append("\n");
        proof {
            reveal_strlit("\n");
            assert(line@.drop_last() =~= words);
        }
        Append { envelope, line, mirror }
    }

    /// The appended line is on disk: the next event gets the next number.
    pub fn acknowledge(&mut self)
        requires
            old(self).next_seq < u64::MAX,
        ensures
            final(self).next_seq == old(self).next_seq + 1,
            final(self).run_id == old(self).run_id,
    {
        self.next_seq = self.next_seq + 1;
    }
}

/// The text of a log made of `lines`.
pub open spec fn log_text(lines: Seq<Seq<char>>) -> Seq<char>
    decreases lines.len(),
{
    if lines.len() == 0 {
        Seq::empty()
    } else {
        lines[0] + seq!['\n'] + log_text(lines.skip(1))
    }
}

/// A restart loses nothing that was acknowledged. A log whose whole lines
/// carry a run's events, in order, replays to exactly those events; an append
/// that was cut short leaves bytes without a line break behind them, and
/// those are not history: the length a sink cuts the log to drops just them.
pub proof fn a_log_replays_what_was_acknowledged(
    run_id: Seq<char>,
    lines: Seq<Seq<char>>,
    events: Seq<event::EnvelopeView>,
    torn: Seq<u8>,
)
    requires
        lines.len() == events.len(),
        forall|i: int| 0 <= i < lines.len() ==> carries(#[trigger] lines[i], events[i]),
        forall|i: int| 0 <= i < events.len() ==> (#[trigger] events[i]).seq == i,
        forall|i: int| 0 <= i < events.len() ==> (#[trigger] events[i]).run_id == run_id,
        forall|i: int| 0 <= i < torn.len() ==> #[trigger] torn[i] != 10,
    ensures
        ({
            let log = encode_utf8(log_text(lines));
            let raw = log + torn;
            &&& whole_lines(raw) == log.len()
            &&& valid_utf8(raw.take(whole_lines(raw)))
            &&& history(run_id, text::lines(decode_utf8(raw.take(whole_lines(raw))))) == Ok::<
                Seq<event::EnvelopeView>,
                LineFault,
            >(events)
        }),
{
    let words = log_text(lines);
    let log = encode_utf8(words);
    lemma_log_ends_whole(lines);
    lemma_torn_tail(log, torn);
    assert((log + torn).take(log.len() as int) =~= log);
    encode_utf8_valid_utf8(words);
    encode_utf8_decode_utf8(words);
    lemma_lines_of_log(lines);
    lemma_history(run_id, lines, events);
}

proof fn lemma_history(
    run_id: Seq<char>,
    lines: Seq<Seq<char>>,
    events: Seq<event::EnvelopeView>,
)
    requires
        lines.len() == events.len(),
        forall|i: int| 0 <= i < lines.len() ==> carries(#[trigger] lines[i], events[i]),
        forall|i: int| 0 <= i < events.len() ==> (#[trigger] events[i]).seq == i,
        forall|i: int| 0 <= i < events.len() ==> (#[trigger] events[i]).run_id == run_id,
    ensures
        history(run_id, lines) == Ok::<Seq<event::EnvelopeView>, LineFault>(events),
    decreases lines.len(),
{
    if lines.len() > 0 {
        let before = lines.drop_last();
        let told = events.drop_last();
        assert forall|i: int| 0 <= i < before.len() implies carries(#[trigger] before[i], told[i])
            by {
            assert(carries(lines[i], events[i]));
        }
        lemma_history(run_id, before, told);
        assert(carries(lines[lines.len() - 1], events[events.len() - 1]));
        event::envelopes_read_back(events.last());
        assert(told.push(events.last()) =~= events);
    } else {
        assert(events =~= Seq::empty());
    }
}

proof fn lemma_lines_of_log(lines: Seq<Seq<char>>)
    requires
        forall|i: int, j: int|
            0 <= i < lines.len() && 0 <= j < lines[i].len() ==> #[trigger] lines[i][j] != '\n'
                && lines[i][j] != '\r',
    ensures
        text::lines(log_text(lines)) == lines,
    decreases lines.len(),
{
    let words = log_text(lines);
    if lines.len() > 0 {
        let first = lines[0];
        let rest = lines.skip(1);
        assert(words == first + seq!['\n'] + log_text(rest));
        let n = first.len() as int;
        assert(words.take(n) =~= first);
        assert forall|j: int| 0 <= j < first.len() implies #[trigger] first[j] != '\n' by {
            assert(lines[0][j] != '\n');
        }
        lemma_line_end(first, words);
        assert(words.skip(n + 1) =~= log_text(rest));
        assert forall|i: int, j: int| 0 <= i < rest.len() && 0 <= j < rest[i].len() implies
            #[trigger] rest[i][j] != '\n' && rest[i][j] != '\r' by {
            assert(rest[i] == lines[i + 1]);
            assert(lines[i + 1][j] != '\n');
        }
        lemma_lines_of_log(rest);
        if first.len() > 0 {
            assert(lines[0][first.len() - 1] != '\r');
        }
        assert(text::chomped(first) == first);
        assert(seq![first] + rest =~= lines);
    } else {
        assert(lines =~= Seq::empty());
    }
}

proof fn lemma_line_end(first: Seq<char>, words: Seq<char>)
    requires
        words.len() > first.len(),
        words.take(first.len() as int) == first,
        words[first.len() as int] == '\n',
        forall|j: int| 0 <= j < first.len() ==> #[trigger] first[j] != '\n',
    ensures
        text::line_end(words) == first.len(),
    decreases first.len(),
{
    if first.len() > 0 {
        assert(words[0] == words.take(first.len() as int)[0]);
        let rest = first.skip(1);
        assert(words.skip(1).take(rest.len() as int) =~= rest);
        lemma_line_end(rest, words.skip(1));
    }
}

proof fn lemma_encode_joins(a: Seq<char>, b: Seq<char>)
    ensures
        encode_utf8(a + b) == encode_utf8(a) + encode_utf8(b),
    decreases a.len(),
{
    if a.len() == 0 {
        assert(a + b =~= b);
        assert(encode_utf8(a) + encode_utf8(b) =~= encode_utf8(b));
    } else {
        lemma_encode_joins(a.drop_first(), b);
        assert((a + b).drop_first() =~= a.drop_first() + b);
        assert(encode_utf8(a + b) =~= encode_utf8(a) + encode_utf8(b));
    }
}

/// A log of whole lines ends with a line break.
proof fn lemma_log_ends_whole(lines: Seq<Seq<char>>)
    ensures
        lines.len() == 0 ==> encode_utf8(log_text(lines)).len() == 0,
        lines.len() > 0 ==> encode_utf8(log_text(lines)).len() > 0 && encode_utf8(
            log_text(lines),
        ).last() == 10,
    decreases lines.len(),
{
    if lines.len() > 0 {
        let rest = lines.skip(1);
        lemma_log_ends_whole(rest);
        let head = lines[0] + seq!['\n'];
        lemma_encode_joins(lines[0], seq!['\n']);
        lemma_encode_joins(head, log_text(rest));
        lemma_line_break();
        if rest.len() == 0 {
            assert(encode_utf8(head) + encode_utf8(log_text(rest)) =~= encode_utf8(head));
        }
    }
}

proof fn lemma_line_break()
    ensures
        encode_utf8(seq!['\n']) == seq![10u8],
{
    let c = '\n' as u32;
    assert(seq!['\n'].drop_first() =~= Seq::empty());
    assert((c & 0x7F) as u8 == 10u8) by (bit_vector)
        requires
            c == 10u32,
    ;
    assert(encode_scalar(c) =~= seq![10u8]);
    assert(encode_utf8(seq!['\n']) =~= seq![10u8]) by {
        reveal_with_fuel(encode_utf8, 2);
    }
}

/// Bytes without a line break add no whole line.
proof fn lemma_torn_tail(log: Seq<u8>, torn: Seq<u8>)
    requires
        log.len() > 0 ==> log.last() == 10,
        forall|i: int| 0 <= i < torn.len() ==> #[trigger] torn[i] != 10,
    ensures
        whole_lines(log + torn) == log.len(),
    decreases torn.len(),
{
    if torn.len() == 0 {
        assert(log + torn =~= log);
    } else {
        assert((log + torn).drop_last() =~= log + torn.drop_last());
        assert((log + torn).last() == torn[torn.len() - 1]);
        lemma_torn_tail(log, torn.drop_last());
    }
}

} // verus!
