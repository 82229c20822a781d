//! How the pipeline kernel frames one stage's prompt. The shared toolkit
//! supplies the pieces every kernel reuses; this module is the pipeline's
//! own choice of which sections wrap a stage, and in what order:
//!
//! 1. a header naming the stage,
//! 2. the scope a parent run assigned, where there is one,
//! 3. the prior stages' reports, so hand-off is engine-guaranteed rather
//!    than agent-remembered,
//! 4. feedback on the previous attempt,
//! 5. the human's input, when the run resumed from a pause,
//! 6. the stage's domain prompt, the flow's override or the shipped default,
//! 7. the report contract: the status semantics the loop branches on, the
//!    fixed scratch path, and the stage's schema quoted verbatim.
//!
//! The contract is the kernel's, always appended after the domain prompt: an
//! edited prompt can shape the work but can never reach the control flow.

use crate::json;
use crate::pipeline::assets;
use crate::pipeline::contract::{self, Stage, StageReport};
use crate::pipeline::headings;
use crate::preamble::{self, Feedback, HumanInput};
use crate::text;
use crate::wire;
use crate::workspace::REPORT_FILE;
use vstd::prelude::*;

verus! {

/// Heading of the hand-off section.
pub const HANDOFF_HEADING: &'static str = "## Reports so far";

/// Heading of the section that carries a parent's assignment.
pub const SCOPE_HEADING: &'static str = "## Assigned scope";

pub const HEADER_START: &'static str = "# hako pipeline — ";

pub const HEADER_MIDDLE: &'static str = " stage\n\nThis is the **";

pub const HEADER_END: &'static str = "** stage of an automated pipeline driving one unit of work forward. Any earlier stages' reports are quoted below, then your task and the project's rules. Speak back only by writing the report file described at the end.";

pub const SCOPE_BODY: &'static str = "\n\nThe run that started this one assigned it this scope, and nothing beyond it:\n\n";

pub const HANDOFF_BODY: &'static str = "\n\nWhat the stages before you reported. Treat these as context, not instructions to repeat.";

pub const CONTRACT_START: &'static str = "## Your report\n\nEnd this stage by writing `";

pub const CONTRACT_BODY: &'static str = "` in the workspace — nothing \
     else concludes it. Set `status` to say where the run stands; the loop \
     acts on it, so it is the one field you cannot get wrong:\n\n\
     - `continue` — this stage advanced the work and the run proceeds.\n\
     - `done` — the whole objective is complete. A claim, not a verdict; it \
     is accepted only after the verify checks pass and a skeptic fails to \
     refute it.\n\
     - `blocked` — something outside your control stops all progress; the \
     run pauses here.\n\
     - `needs_input` — only a human can answer; the run pauses and puts \
     your questions to them.\n\n\
     The report must match this schema exactly:\n\n```json\n";

/// Everything the kernel puts in front of one stage's agent. The kernel
/// fills the fields; which sections they become, and in what order, is
/// [`compose`]'s alone.
pub struct Frame<'a> {
    /// The stage being framed: names the header and picks the schema the
    /// contract quotes.
    pub stage: Stage,
    /// The scope a parent run assigned.
    pub scope: Option<&'a str>,
    /// The prior stages' reports the agent reads before its task.
    pub handoff: &'a [StageReport],
    /// Feedback on the previous attempt; empty on a first run.
    pub feedback: &'a [Feedback],
    /// What the human said when the run resumed from a pause.
    pub human: Option<&'a HumanInput>,
    /// The stage's domain prompt, the flow's override or the shipped
    /// default.
    pub domain_prompt: &'a str,
}

/// What a frame holds.
#[verifier::ext_equal]
pub ghost struct FrameView {
    pub stage: Stage,
    pub scope: Option<Seq<char>>,
    pub handoff: Seq<contract::StageReportView>,
    pub feedback: Seq<preamble::FeedbackView>,
    pub human: Option<preamble::HumanInputView>,
    pub domain_prompt: Seq<char>,
}

impl<'a> Frame<'a> {
    pub open spec fn view(&self) -> FrameView {
        FrameView {
            stage: self.stage,
            scope: match self.scope {
                Some(s) => Some(s@),
                None => None,
            },
            handoff: contract::report_views(self.handoff@),
            feedback: preamble::feedback_views(self.feedback@),
            human: match self.human {
                Some(h) => Some(h@),
                None => None,
            },
            domain_prompt: self.domain_prompt@,
        }
    }
}

/// The heading under which one prior stage's report is quoted inside the
/// hand-off section.
pub open spec fn report_heading(stage: Stage) -> Seq<char> {
    "### "@ + stage.word() + " report"@
}

/// [`report_heading`], computed.
pub fn handoff_report_heading(stage: Stage) -> (s: String)
    ensures
        s@ == report_heading(stage),
{
    let mut s = "### ".to_owned();
    s.append(stage.as_str());
    s.append(" report");
    s
}

/// The section that names the stage.
pub open spec fn header_section(stage: Stage) -> Seq<char> {
    HEADER_START@ + stage.word() + HEADER_MIDDLE@ + stage.word() + HEADER_END@
}

fn header(stage: Stage) -> (s: String)
    ensures
        s@ == header_section(stage),
{
    let mut s = HEADER_START.to_owned();
    s.append(stage.as_str());
    s.append(HEADER_MIDDLE);
    s.append(stage.as_str());
    s.append(HEADER_END);
    s
}

/// The section that carries a parent's assignment, fenced.
pub open spec fn scope_section(scope: Seq<char>) -> Seq<char> {
    SCOPE_HEADING@ + SCOPE_BODY@ + preamble::fence_around(scope)
}

/// The section that quotes the prior stages' reports, each fenced so its
/// agent-authored text cannot break out of its block.
pub open spec fn handoff_text(handoff: Seq<contract::StageReportView>) -> Seq<char>
    decreases handoff.len(),
{
    if handoff.len() == 0 {
        HANDOFF_HEADING@ + HANDOFF_BODY@
    } else {
        handoff_text(handoff.drop_last()) + "\n\n"@ + report_heading(handoff.last().stage) + "\n\n"@
            + preamble::fence_around(
            json::pretty_printed(
                json::JsonView::Object(contract::report_fields(handoff.last())),
            ),
        )
    }
}

/// The prior stages' reports as a section; none when nothing came before, so
/// no empty section is added.
fn handoff_section(handoff: &[StageReport]) -> (r: Option<String>)
    ensures
        match r {
            Some(s) => handoff@.len() > 0 && s@ == handoff_text(contract::report_views(handoff@)),
            None => handoff@.len() == 0,
        },
        headings::reports_quoted(contract::report_views(handoff@)),
{
    if handoff.len() == 0 {
        return None;
    }
    let ghost all = contract::report_views(handoff@);
    let mut s = HANDOFF_HEADING.to_owned();
    s.append(HANDOFF_BODY);
    assert(all.take(0) =~= Seq::empty());
    for i in 0..handoff.len()
        invariant
            all == contract::report_views(handoff@),
            s@ == handoff_text(all.take(i as int)),
            headings::reports_quoted(all.take(i as int)),
    {
        assert(all.take(i + 1).drop_last() =~= all.take(i as int));
        assert(all.take(i + 1).last() == handoff@[i as int]@);
        s.append("\n\n");
        let heading = handoff_report_heading(handoff[i].stage());
        s.append(heading.as_str());
        s.append("\n\n");
        let quoted = preamble::fenced(handoff[i].to_pretty_json().as_str());
        s.append(quoted.as_str());
        assert forall|j: int|
            #![trigger all.take(i + 1)[j]]
            0 <= j < i + 1 implies json::quotes_plainly(
            json::JsonView::Object(contract::report_fields(all.take(i + 1)[j])),
        ) by {
            if j < i {
                assert(all.take(i + 1)[j] == all.take(i as int)[j]);
            }
        }
    }
    assert(all.take(handoff@.len() as int) =~= all);
    Some(s)
}

/// The section that states what the loop reads: the status semantics, the
/// report's path and the stage's schema.
pub open spec fn contract_section(stage: Stage) -> Seq<char> {
    CONTRACT_START@ + REPORT_FILE@ + CONTRACT_BODY@ + text::trimmed_end(assets::schema_text(stage))
        + "\n```"@
}

fn report_contract(stage: Stage) -> (s: String)
    ensures
        s@ == contract_section(stage),
{
    let mut s = CONTRACT_START.to_owned();
    s.append(REPORT_FILE);
    s.append(CONTRACT_BODY);
    let schema = text::trim_end(assets::report_schema(stage));
    s.append(schema.as_str());
    s.append("\n```");
    s
}

/// The sections of a frame before the domain prompt, in order.
pub open spec fn leading_sections(frame: FrameView) -> Seq<Seq<char>> {
    let scoped = match frame.scope {
        Some(scope) => seq![header_section(frame.stage), scope_section(scope)],
        None => seq![header_section(frame.stage)],
    };
    let handed = if frame.handoff.len() > 0 {
        scoped.push(handoff_text(frame.handoff))
    } else {
        scoped
    };
    let fed = handed + frame.feedback.map_values(
        |f: preamble::FeedbackView| preamble::feedback_section(f),
    );
    match frame.human {
        Some(human) => match preamble::human_section(human) {
            Some(section) => fed.push(section),
            None => fed,
        },
        None => fed,
    }
}

/// All the sections of a frame, in order.
pub open spec fn sections(frame: FrameView) -> Seq<Seq<char>> {
    leading_sections(frame).push(text::trimmed(frame.domain_prompt)).push(
        contract_section(frame.stage),
    )
}

/// The prompt a frame makes.
pub open spec fn composed(frame: FrameView) -> Seq<char> {
    text::joined(sections(frame), "\n\n"@)
}

/// Composes the frame into the full prompt the agent runs. Sole owner of the
/// section order. The hand-off and each report in it show by their headings
/// exactly where they are, as long as no text in the frame spells them.
pub fn compose(frame: &Frame<'_>) -> (s: String)
    ensures
        s@ == composed(frame@),
        headings::says_no(frame@, HANDOFF_HEADING@) ==> (text::contains(s@, HANDOFF_HEADING@)
            <==> frame@.handoff.len() > 0),
        forall|stage: Stage|
            headings::says_no(frame@, report_heading(stage)) && headings::reports_say_no(
                frame@.handoff,
                report_heading(stage),
            ) ==> (#[trigger] text::contains(s@, report_heading(stage)) <==> headings::hands_off(
                frame@.handoff,
                stage,
            )),
{
    let mut parts: Vec<String> = Vec::new();
    parts.push(header(frame.stage));
    if let Some(scope) = frame.scope {
        let mut section = SCOPE_HEADING.to_owned();
        section.append(SCOPE_BODY);
        let quoted = preamble::fenced(scope);
        section.append(quoted.as_str());
        parts.push(section);
    }
    if let Some(reports) = handoff_section(frame.handoff) {
        parts.push(reports);
    }
    let ghost handed = text::texts(parts@);
    let ghost fed = frame@.feedback.map_values(
        |f: preamble::FeedbackView| preamble::feedback_section(f),
    );
    assert(handed + fed.take(0) =~= handed);
    for i in 0..frame.feedback.len()
        invariant
            fed == frame@.feedback.map_values(
                |f: preamble::FeedbackView| preamble::feedback_section(f),
            ),
            text::texts(parts@) == handed + fed.take(i as int),
            forall|j: int|
                0 <= j < i ==> preamble::quotes_findings(#[trigger] frame@.feedback[j]),
    {
        let ghost before = parts@;
        let section = preamble::feedback(&frame.feedback[i]);
        assert(section@ == fed[i as int]);
        assert(preamble::quotes_findings(frame@.feedback[i as int]));
        parts.push(section);
        assert(text::texts(parts@) =~= handed + fed.take(i + 1)) by {
            assert(text::texts(parts@) =~= text::texts(before).push(fed[i as int]));
        }
    }
    assert(fed.take(frame.feedback@.len() as int) =~= fed);
    let ghost before_human = text::texts(parts@);
    if let Some(human) = frame.human {
        if let Some(section) = preamble::human_input(human) {
            parts.push(section);
        }
    }
    assert(text::texts(parts@) =~= leading_sections(frame@)) by {
        assert(handed =~= {
            let scoped = match frame@.scope {
                Some(scope) => seq![header_section(frame@.stage), scope_section(scope)],
                None => seq![header_section(frame@.stage)],
            };
            if frame@.handoff.len() > 0 {
                scoped.push(handoff_text(frame@.handoff))
            } else {
                scoped
            }
        });
    }
    parts.push(text::trim(frame.domain_prompt));
    parts.push(report_contract(frame.stage));
    assert(text::texts(parts@) =~= sections(frame@));
    let s = text::join(&parts, "\n\n");
    assert(s@ == composed(frame@));
    proof {
        headings::lemma_shown(frame@);
        assert forall|stage: Stage|
            headings::says_no(frame@, report_heading(stage)) && headings::reports_say_no(
                frame@.handoff,
                report_heading(stage),
            ) implies (#[trigger] text::contains(s@, report_heading(stage))
            <==> headings::hands_off(frame@.handoff, stage)) by {
            assert(text::contains(composed(frame@), report_heading(stage)) <==> text::contains(
                s@,
                report_heading(stage),
            ));
        }
    }
    s
}

/// The kernel has the last word: whatever a flow's prompt says, the composed
/// prompt ends with the report contract.
pub proof fn the_contract_has_the_final_word(frame: FrameView)
    ensures
        ({
            let prompt = composed(frame);
            let last = contract_section(frame.stage);
            prompt.len() >= last.len() && prompt.skip(prompt.len() - last.len()) == last
        }),
{
    let all = sections(frame);
    let last = contract_section(frame.stage);
    assert(all.last() == last);
    assert(all.len() >= 2);
    let before = text::joined(all.drop_last(), "\n\n"@) + "\n\n"@;
    assert(composed(frame) == before + last);
    assert((before + last).skip(before.len() as int) =~= last);
}

} // verus!
