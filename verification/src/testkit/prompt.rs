//! Markers of framed prompts. A test asks whether a section is there through
//! these and never by spelling the frame's prose.

use crate::pipeline::contract::Stage;
use crate::pipeline::frame;
use crate::preamble;
use crate::text;
use vstd::prelude::*;

verus! {

/// Whether the prompt carries the hand-off of earlier reports.
pub fn carries_handoff(prompt: &str) -> (r: bool)
    ensures
        r == text::contains(prompt@, frame::HANDOFF_HEADING@),
{
    text::stands_in(prompt, frame::HANDOFF_HEADING)
}

/// Whether the hand-off quotes a stage's report.
pub fn carries_report_from(prompt: &str, stage: Stage) -> (r: bool)
    ensures
        r == text::contains(prompt@, frame::report_heading(stage)),
{
    let heading = frame::handoff_report_heading(stage);
    text::stands_in(prompt, heading.as_str())
}

/// Whether the prompt carries the feedback of failed checks.
pub fn carries_verify_feedback(prompt: &str) -> (r: bool)
    ensures
        r == text::contains(prompt@, preamble::VERIFY_FAILED_HEADING@),
{
    text::stands_in(prompt, preamble::VERIFY_FAILED_HEADING)
}

/// Whether the prompt carries the human's answers and note.
pub fn carries_human_input(prompt: &str) -> (r: bool)
    ensures
        r == text::contains(prompt@, preamble::HUMAN_INPUT_HEADING@),
{
    text::stands_in(prompt, preamble::HUMAN_INPUT_HEADING)
}

} // verus!
