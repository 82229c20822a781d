//! Run identity and the run state machine: the states a run is in, why it
//! pauses, and how a kernel's work can end.

use crate::fault::{self, FieldView};
use crate::json::{self, Json};
use crate::text;
use crate::wire;
use vstd::prelude::*;

verus! {

/// Names one run for its whole life: directory name, API path segment,
/// event-log subject.
#[derive(Debug, Clone, PartialEq, Eq, Hash, PartialOrd, Ord)]
pub struct RunId {
    id: String,
}

impl View for RunId {
    type V = Seq<char>;

    closed spec fn view(&self) -> Seq<char> {
        self.id@
    }
}

impl RunId {
    pub fn new(id: &str) -> (r: RunId)
        ensures
            r@ == id@,
    {
        RunId { id: id.to_owned() }
    }

    pub fn as_str(&self) -> (s: &str)
        ensures
            s@ == self@,
    {
        self.id.as_str()
    }

    /// The same identity, once more.
    pub fn copy(&self) -> (r: RunId)
        ensures
            r@ == self@,
    {
        RunId { id: self.id.clone() }
    }
}

/// Why a run waits for somebody.
#[derive(Debug, Clone, Copy, PartialEq, Eq, Structural)]
pub enum PauseReason {
    /// Something outside the agent's control stops all progress.
    Blocked,
    /// Only a human can answer what the agent asked.
    AwaitingHuman,
    /// The verify checks kept failing.
    VerifyFailed,
    /// An iteration ran past its hard cap too often.
    Timeout,
    /// The loop went round without committing anything.
    Drift,
    /// A soft cap on the run was reached.
    Budget,
}

impl PauseReason {
    /// The word the wire format has for the reason.
    pub open spec fn word(self) -> Seq<char> {
        match self {
            PauseReason::Blocked => "blocked"@,
            PauseReason::AwaitingHuman => "awaiting_human"@,
            PauseReason::VerifyFailed => "verify_failed"@,
            PauseReason::Timeout => "timeout"@,
            PauseReason::Drift => "drift"@,
            PauseReason::Budget => "budget"@,
        }
    }

    pub fn as_str(&self) -> (s: &'static str)
        ensures
            s@ == self.word(),
    {
        match self {
            PauseReason::Blocked => "blocked",
            PauseReason::AwaitingHuman => "awaiting_human",
            PauseReason::VerifyFailed => "verify_failed",
            PauseReason::Timeout => "timeout",
            PauseReason::Drift => "drift",
            PauseReason::Budget => "budget",
        }
    }
}

/// Where a run stands.
#[derive(Debug, Clone, Copy, PartialEq, Eq, Structural)]
pub enum RunState {
    Running,
    Paused { reason: PauseReason },
    Done,
    Failed,
    Cancelled,
}

/// How a kernel invocation ended: every run state except `Running`, which
/// would mean the kernel returned while still owing work.
#[derive(Debug, Clone, Copy, PartialEq, Eq, Structural)]
pub enum RunOutcome {
    Done,
    Failed,
    Paused(PauseReason),
    Cancelled,
}

/// The state an outcome lands the run in.
pub open spec fn landed(outcome: RunOutcome) -> RunState {
    match outcome {
        RunOutcome::Done => RunState::Done,
        RunOutcome::Failed => RunState::Failed,
        RunOutcome::Paused(reason) => RunState::Paused { reason },
        RunOutcome::Cancelled => RunState::Cancelled,
    }
}

/// The state an outcome lands the run in: what a kernel's final
/// `state_changed` event carries.
impl From<RunOutcome> for RunState {
    fn from(outcome: RunOutcome) -> (state: RunState) {
        match outcome {
            RunOutcome::Done => RunState::Done,
            RunOutcome::Failed => RunState::Failed,
            RunOutcome::Paused(reason) => RunState::Paused { reason },
            RunOutcome::Cancelled => RunState::Cancelled,
        }
    }
}

impl vstd::std_specs::convert::FromSpecImpl<RunOutcome> for RunState {
    open spec fn obeys_from_spec() -> bool {
        true
    }

    open spec fn from_spec(outcome: RunOutcome) -> RunState {
        landed(outcome)
    }
}

/// No outcome leaves the run running, and different outcomes land it in
/// different states.
pub proof fn outcomes_are_told_apart_by_their_states(a: RunOutcome, b: RunOutcome)
    ensures
        landed(a) != RunState::Running,
        landed(a) == landed(b) ==> a == b,
{
}

/// The reason a word of the wire format stands for.
pub open spec fn reason_named(word: Seq<char>) -> Option<PauseReason> {
    if word == "blocked"@ {
        Some(PauseReason::Blocked)
    } else if word == "awaiting_human"@ {
        Some(PauseReason::AwaitingHuman)
    } else if word == "verify_failed"@ {
        Some(PauseReason::VerifyFailed)
    } else if word == "timeout"@ {
        Some(PauseReason::Timeout)
    } else if word == "drift"@ {
        Some(PauseReason::Drift)
    } else if word == "budget"@ {
        Some(PauseReason::Budget)
    } else {
        None
    }
}

/// [`reason_named`], computed.
pub fn named_reason(word: &str) -> (r: Option<PauseReason>)
    ensures
        r == reason_named(word@),
{
    if text::same(word, "blocked") {
        Some(PauseReason::Blocked)
    } else if text::same(word, "awaiting_human") {
        Some(PauseReason::AwaitingHuman)
    } else if text::same(word, "verify_failed") {
        Some(PauseReason::VerifyFailed)
    } else if text::same(word, "timeout") {
        Some(PauseReason::Timeout)
    } else if text::same(word, "drift") {
        Some(PauseReason::Drift)
    } else if text::same(word, "budget") {
        Some(PauseReason::Budget)
    } else {
        None
    }
}

impl RunState {
    /// The word the wire format has for the state.
    pub open spec fn word(self) -> Seq<char> {
        match self {
            RunState::Running => "running"@,
            RunState::Paused { .. } => "paused"@,
            RunState::Done => "done"@,
            RunState::Failed => "failed"@,
            RunState::Cancelled => "cancelled"@,
        }
    }

    pub fn as_str(&self) -> (s: &'static str)
        ensures
            s@ == self.word(),
    {
        match self {
            RunState::Running => "running",
            RunState::Paused { .. } => "paused",
            RunState::Done => "done",
            RunState::Failed => "failed",
            RunState::Cancelled => "cancelled",
        }
    }

    /// The members of an object that carries the state flat, beside those
    /// it has already: the state's word and, where it is paused, the reason.
    pub open spec fn onto(self, fields: json::Members) -> json::Members {
        let named = fields.insert("state"@, json::JsonView::Str(self.word()));
        match self {
            RunState::Paused { reason } => named.insert(
                "reason"@,
                json::JsonView::Str(reason.word()),
            ),
            _ => named,
        }
    }

    /// [`RunState::onto`], computed.
    pub fn put_onto(&self, fields: &mut Vec<(String, Json)>)
        ensures
            json::fields_view(final(fields)@) == self.onto(json::fields_view(old(fields)@)),
    {
        wire::put(fields, "state", wire::text_json(self.as_str()));
        if let RunState::Paused { reason } = self {
            wire::put(fields, "reason", wire::text_json(reason.as_str()));
        }
    }

    /// [`as_state`], computed.
    pub fn read(v: &Json) -> (r: Option<RunState>)
        ensures
            r == as_state(v@),
    {
        let word = wire::read_text(v, "state")?;
        if text::same(word.as_str(), "running") {
            Some(RunState::Running)
        } else if text::same(word.as_str(), "paused") {
            let reason = wire::read_text(v, "reason")?;
            match named_reason(reason.as_str()) {
                Some(reason) => Some(RunState::Paused { reason }),
                None => None,
            }
        } else if text::same(word.as_str(), "done") {
            Some(RunState::Done)
        } else if text::same(word.as_str(), "failed") {
            Some(RunState::Failed)
        } else if text::same(word.as_str(), "cancelled") {
            Some(RunState::Cancelled)
        } else {
            None
        }
    }

    /// [`state_fault`], computed.
    pub fn refusal(v: &Json) -> (r: Option<String>)
        ensures
            wire::opt_text(r) == state_fault(v@),
    {
        let words: Vec<&'static str> = vec!["running", "paused", "done", "failed", "cancelled"];
        assert(fault::spelled(words@) =~= state_words());
        let untagged = fault::look_at_tag(v, "internally tagged enum RunState", "state", &words);
        if untagged.is_some() {
            return untagged;
        }
        let paused = match v.get("state") {
            Some(Json::Str(word)) => text::same(word.as_str(), "paused"),
            _ => false,
        };
        if !paused {
            return None;
        }
        let reasons: Vec<&'static str> = vec![
            "blocked",
            "awaiting_human",
            "verify_failed",
            "timeout",
            "drift",
            "budget",
        ];
        assert(fault::spelled(reasons@) =~= reason_words());
        let fields = vec![fault::look_for_word(v, "reason", &reasons)];
        assert(fault::field_views(fields@) =~= paused_fields(v@));
        fault::look_over(v, "struct variant RunState::Paused", &fields, false)
    }

    /// Reads the state that an object carries flat.
    pub fn from_json(v: &Json) -> (r: Result<RunState, String>)
        ensures
            match r {
                Ok(state) => as_state(v@) == Some(state),
                Err(words) => as_state(v@) is None && state_fault(v@) == Some(words@),
            },
    {
        proof {
            json::every_document_is_orderly(*v);
            lemma_state(v@);
        }
        match RunState::refusal(v) {
            Some(words) => Err(words),
            None => Ok(RunState::read(v).unwrap()),
        }
    }
}

/// The words of the wire format for a state.
pub open spec fn state_words() -> Seq<Seq<char>> {
    seq!["running"@, "paused"@, "done"@, "failed"@, "cancelled"@]
}

/// The words of the wire format for the reason of a pause.
pub open spec fn reason_words() -> Seq<Seq<char>> {
    seq![
        "blocked"@,
        "awaiting_human"@,
        "verify_failed"@,
        "timeout"@,
        "drift"@,
        "budget"@,
    ]
}

/// What is known of the members of a paused state.
pub open spec fn paused_fields(v: json::JsonView) -> Seq<FieldView> {
    seq![fault::word_field(v, "reason"@, reason_words())]
}

/// What is wrong with an object that is to carry a state flat.
pub open spec fn state_fault(v: json::JsonView) -> Option<Seq<char>> {
    match fault::tag_fault(v, "internally tagged enum RunState"@, "state"@, state_words()) {
        Some(words) => Some(words),
        None => if wire::text_at(v, "state"@) == Some("paused"@) {
            fault::record_fault(v, "struct variant RunState::Paused"@, paused_fields(v), false)
        } else {
            None
        },
    }
}

/// An object is refused exactly where it carries no state.
pub proof fn lemma_state(v: json::JsonView)
    requires
        json::orderly(v),
    ensures
        state_fault(v) is None <==> as_state(v) is Some,
{
    let fields = paused_fields(v);
    fault::lemma_record(v, "struct variant RunState::Paused"@, fields, false);
    assert(fault::all_sound(v, fields) <==> fault::sound(v, fields[0]));
    reveal_strlit("running");
    reveal_strlit("paused");
    assert("running"@.len() == 7 && "paused"@.len() == 6);
    if let Some(word) = wire::text_at(v, "state"@) {
        lemma_state_words(word);
    }
    if let Some(word) = wire::text_at(v, "reason"@) {
        lemma_reason_words(word);
    }
}

proof fn lemma_state_words(word: Seq<char>)
    ensures
        state_words().contains(word) <==> (word == "running"@ || word == "paused"@ || word
            == "done"@ || word == "failed"@ || word == "cancelled"@),
{
    let words = state_words();
    assert(words[0] == "running"@ && words[1] == "paused"@ && words[2] == "done"@ && words[3]
        == "failed"@ && words[4] == "cancelled"@);
}

proof fn lemma_reason_words(word: Seq<char>)
    ensures
        reason_words().contains(word) <==> reason_named(word) is Some,
{
    let words = reason_words();
    assert(words[0] == "blocked"@ && words[1] == "awaiting_human"@ && words[2]
        == "verify_failed"@ && words[3] == "timeout"@ && words[4] == "drift"@ && words[5]
        == "budget"@);
}

/// The state that an object carries flat.
pub open spec fn as_state(v: json::JsonView) -> Option<RunState> {
    match wire::text_at(v, "state"@) {
        None => None,
        Some(word) => if word == "running"@ {
            Some(RunState::Running)
        } else if word == "paused"@ {
            match wire::text_at(v, "reason"@) {
                None => None,
                Some(reason) => match reason_named(reason) {
                    Some(reason) => Some(RunState::Paused { reason }),
                    None => None,
                },
            }
        } else if word == "done"@ {
            Some(RunState::Done)
        } else if word == "failed"@ {
            Some(RunState::Failed)
        } else if word == "cancelled"@ {
            Some(RunState::Cancelled)
        } else {
            None
        },
    }
}

/// Every reason is the one its word names.
pub proof fn lemma_reason_word_names_it(reason: PauseReason)
    ensures
        reason_named(reason.word()) == Some(reason),
{
    reveal_strlit("blocked");
    reveal_strlit("awaiting_human");
    reveal_strlit("verify_failed");
    reveal_strlit("timeout");
    reveal_strlit("drift");
    reveal_strlit("budget");
    assert("blocked"@.len() == 7 && "awaiting_human"@.len() == 14 && "verify_failed"@.len() == 13
        && "timeout"@.len() == 7 && "drift"@.len() == 5 && "budget"@.len() == 6);
    assert("blocked"@[0] == 'b' && "timeout"@[0] == 't');
}

/// A state carried flat on an object reads back as it was, whatever else the
/// object carries.
pub proof fn states_read_back(state: RunState, fields: json::Members)
    ensures
        as_state(json::JsonView::Object(state.onto(fields))) == Some(state),
{
    reveal_strlit("running");
    reveal_strlit("paused");
    reveal_strlit("done");
    reveal_strlit("failed");
    reveal_strlit("cancelled");
    reveal_strlit("state");
    reveal_strlit("reason");
    assert("running"@.len() == 7 && "paused"@.len() == 6 && "done"@.len() == 4 && "failed"@.len()
        == 6 && "cancelled"@.len() == 9 && "state"@.len() == 5 && "reason"@.len() == 6);
    assert("paused"@[0] == 'p' && "failed"@[0] == 'f');
    if let RunState::Paused { reason } = state {
        lemma_reason_word_names_it(reason);
    }
}

} // verus!
