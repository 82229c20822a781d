//! The single-prompt loop: every iteration runs the same domain prompt, which
//! alone carries the objective. Each gets a fresh sandbox and a fresh agent
//! context; the workspace is the only memory. The agent speaks back only
//! through the progress report, with one repair re-prompt when a report fails
//! validation, and every step lands in the event log.

pub mod frame;
pub mod laws;
pub mod attempt;
pub mod run;
