//! Starting a local daemon: what each look at it while it comes up means.

use crate::client::ClientError;
use vstd::prelude::*;

verus! {

/// Why a daemon did not come up.
#[derive(Debug, Clone, PartialEq, Eq)]
pub enum StartError {
    Spawn(String),
    Exited(String),
    NotReady(String),
}

impl StartError {
    /// The message the failure is told by.
    pub open spec fn message(self) -> Seq<char> {
        match self {
            StartError::Spawn(error) => "could not start `hakod`: "@ + error@,
            StartError::Exited(status) => "`hakod` exited before becoming ready ("@ + status@
                + ")"@,
            StartError::NotReady(error) => "`hakod` did not become ready: "@ + error@,
        }
    }

    pub fn to_text(&self) -> (s: String)
        ensures
            s@ == self.message(),
    {
        match self {
            StartError::Spawn(error) => {
                let mut s = "could not start `hakod`: ".to_owned();
                s.append(error.as_str());
                s
            },
            StartError::Exited(status) => {
                let mut s = "`hakod` exited before becoming ready (".to_owned();
                s.append(status.as_str());
                s.append(")");
                s
            },
            StartError::NotReady(error) => {
                let mut s = "`hakod` did not become ready: ".to_owned();
                s.append(error.as_str());
                s
            },
        }
    }
}

/// What to do about a daemon that was started.
#[derive(Debug, Clone, PartialEq, Eq)]
pub enum Startup {
    Ready,
    Failed(StartError),
    /// Look again in a moment.
    Wait,
}

/// What one look at a daemon that was started means: ready once it answers;
/// gone where its process exited, which is reported at once and not as
/// refused connections for the rest of the time; given up when the time is
/// over.
pub fn look(answer: Result<(), ClientError>, exited: Option<String>, overdue: bool) -> (r: Startup)
    ensures
        match (answer, exited) {
            (Ok(_), _) => r == Startup::Ready,
            (Err(_), Some(status)) => r == Startup::Failed(StartError::Exited(status)),
            (Err(error), None) => if overdue {
                r matches Startup::Failed(StartError::NotReady(words)) && words@ == error.message()
            } else {
                r == Startup::Wait
            },
        },
{
    match answer {
        Ok(_) => Startup::Ready,
        Err(error) => match exited {
            Some(status) => Startup::Failed(StartError::Exited(status)),
            None => if overdue {
                Startup::Failed(StartError::NotReady(error.to_text()))
            } else {
                Startup::Wait
            },
        },
    }
}

} // verus!
