//! The host boundary a fanout kernel uses to launch and observe child runs.

use crate::event::EventEnvelope;
use crate::run::RunId;
use vstd::prelude::*;

verus! {

/// One child pipeline run requested by fanout.
#[derive(Debug, Clone, PartialEq, Eq)]
pub struct ChildRunSpec {
    /// Opaque domain vocabulary passed verbatim into the child's plan
    /// prompt.
    pub scope: String,
}

/// Launches and observes child runs.
pub trait RunSpawner: Sized {
    /// Submits a child and returns as soon as its identity exists.
    fn spawn(&mut self, child: ChildRunSpec) -> (r: Result<RunId, RunSpawnerError>);

    /// Waits until a child is no longer running, and returns the events that
    /// account for its outcome and budget use.
    fn watch(&mut self, run_id: &RunId) -> (r: Result<Vec<EventEnvelope>, RunSpawnerError>);
}

/// A child run that could not be launched or observed.
#[derive(Debug, Clone, PartialEq, Eq)]
pub struct RunSpawnerError(pub String);

impl RunSpawnerError {
    /// The message the failure is told by.
    pub open spec fn message(self) -> Seq<char> {
        "run spawner: "@ + self.0@
    }

    pub fn to_text(&self) -> (s: String)
        ensures
            s@ == self.message(),
    {
        let mut s = "run spawner: ".to_owned();
        s.append(self.0.as_str());
        s
    }
}

} // verus!
