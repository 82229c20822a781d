//! The notifier's vocabulary: how a pause reaches the human it is waiting
//! on.

use crate::run::{PauseReason, RunId};
use crate::text;
use crate::wire;
use vstd::prelude::*;

verus! {

/// What a phone needs to show for a human to decide whether to look: which
/// run paused, why, and what it last did.
#[derive(Debug, PartialEq, Eq)]
pub struct Notification {
    pub run_id: RunId,
    pub reason: PauseReason,
    /// `None` where no report of the run still counts.
    pub summary: Option<String>,
}

/// What a notification says.
#[verifier::ext_equal]
pub ghost struct NotificationView {
    pub run_id: Seq<char>,
    pub reason: PauseReason,
    pub summary: Option<Seq<char>>,
}

impl View for Notification {
    type V = NotificationView;

    open spec fn view(&self) -> NotificationView {
        NotificationView {
            run_id: self.run_id@,
            reason: self.reason,
            summary: wire::opt_text(self.summary),
        }
    }
}

impl Notification {
    /// The same notification, once more.
    pub fn copy(&self) -> (r: Notification)
        ensures
            r@ == self@,
    {
        Notification {
            run_id: self.run_id.copy(),
            reason: self.reason,
            summary: text::copied(&self.summary),
        }
    }
}

/// Delivers pause notifications: a webhook in production, a recorder in
/// tests. Failure never takes the run down; a paused run with a lost
/// notification is still resumable.
pub trait Notifier: Sized {
    /// Fires once per pause.
    fn notify(&mut self, notification: &Notification) -> (r: Result<(), NotifierError>);
}

/// A notification that could not be delivered.
#[derive(Debug, Clone, PartialEq, Eq)]
pub struct NotifierError(pub String);

impl NotifierError {
    /// The message the failure is told by.
    pub open spec fn message(self) -> Seq<char> {
        "notification failed: "@ + self.0@
    }

    pub fn to_text(&self) -> (s: String)
        ensures
            s@ == self.message(),
    {
        let mut s = "notification failed: ".to_owned();
        s.append(self.0.as_str());
        s
    }
}

} // verus!
