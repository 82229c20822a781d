//! How the fanout kernel frames its two prompts: the plan's and the
//! skeptic's.

use crate::fanout::contract::{self, PlanReport};
use crate::json;
use crate::preamble;
use crate::skeptic;
use crate::text;
use crate::workspace::REPORT_FILE;
use vstd::prelude::*;

verus! {

pub const PLAN_HEADING: &'static str = "# hako fanout — plan stage\n\n";

pub const FINDINGS_HEADING: &'static str = "\n## Skeptic findings\n\nThe previous completion claim was refuted:\n";

pub const PLAN_REPORT_START: &'static str = "\n## Your report\n\nEnd by writing `";

pub const PLAN_REPORT_BODY: &'static str = "`. Unit strings are opaque to the engine; each one scopes exactly one child pipeline. Use `continue` with ready units, `done` only when the whole objective is complete, `blocked` when progress is externally stopped, or `needs_input` for human questions. A `done` claim must pass verification and an independent skeptic.\n\nThe report must match this schema exactly:\n\n```json\n";

pub const SKEPTIC_TASK: &'static str = "# hako fanout — skeptic iteration\n\nIndependently test the completion claim against the workspace and domain prompt. Look for concrete evidence that ready or unfinished work remains. Do not change the workspace.\n\n## Done claim\n\n";

pub const SKEPTIC_REPORT_BODY: &'static str = "` and do nothing else. Set `refuted` to true only when concrete evidence disproves completion, and list that evidence in `findings`. Otherwise set it to false and leave `findings` empty.\n\n```json\n";

/// The lines for a list of findings.
pub open spec fn finding_lines(findings: Seq<Seq<char>>) -> Seq<char>
    decreases findings.len(),
{
    if findings.len() == 0 {
        Seq::empty()
    } else {
        finding_lines(findings.drop_last()) + "- "@ + findings.last() + "\n"@
    }
}

/// The plan's prompt: the domain rules, what the skeptic found in the last
/// completion claim, and the report contract.
pub open spec fn plan_text(domain: Seq<char>, feedback: Seq<Seq<char>>) -> Seq<char> {
    let head = PLAN_HEADING@ + text::trimmed(domain) + "\n"@;
    let told = if feedback.len() == 0 {
        head
    } else {
        head + FINDINGS_HEADING@ + finding_lines(feedback)
    };
    told + PLAN_REPORT_START@ + REPORT_FILE@ + PLAN_REPORT_BODY@ + text::trimmed_end(
        contract::PLAN_SCHEMA@,
    ) + "\n```"@
}

/// [`plan_text`], computed.
pub fn plan(domain: &str, feedback: &Vec<String>) -> (s: String)
    ensures
        s@ == plan_text(domain@, text::texts(feedback@)),
{
    let ghost all = text::texts(feedback@);
    let mut s = PLAN_HEADING.to_owned();
    let rules = text::trim(domain);
    s.append(rules.as_str());
    s.append("\n");
    if feedback.len() > 0 {
        let mut lines: String = String::new();
        assert(all.take(0) =~= Seq::empty());
        assert(lines@ =~= finding_lines(all.take(0)));
        for i in 0..feedback.len()
            invariant
                all == text::texts(feedback@),
                lines@ == finding_lines(all.take(i as int)),
        {
            assert(all.take(i + 1).drop_last() =~= all.take(i as int));
            lines.append("- ");
            lines.append(feedback[i].as_str());
            lines.append("\n");
        }
        assert(all.take(feedback@.len() as int) =~= all);
        s.append(FINDINGS_HEADING);
        s.append(lines.as_str());
    }
    s.append(PLAN_REPORT_START);
    s.append(REPORT_FILE);
    s.append(PLAN_REPORT_BODY);
    let schema = text::trim_end(contract::report_schema());
    s.append(schema.as_str());
    s.append("\n```");
    s
}

/// The skeptic's prompt.
pub open spec fn skeptic_text(claim: contract::PlanReportView, domain: Seq<char>) -> Seq<char> {
    SKEPTIC_TASK@ + preamble::fence_around(
        json::pretty_printed(json::JsonView::Object(contract::plan_fields(claim))),
    ) + "\n\n## Domain prompt\n\n"@ + text::trimmed(domain) + "\n\n## Your report\n\nWrite `"@
        + REPORT_FILE@ + SKEPTIC_REPORT_BODY@ + skeptic::REPORT_SCHEMA@ + "\n```"@
}

/// [`skeptic_text`], computed.
pub fn skeptic(claim: &PlanReport, domain: &str) -> (s: String)
    ensures
        s@ == skeptic_text(claim@, domain@),
{
    let mut s = SKEPTIC_TASK.to_owned();
    let report = claim.to_json_value().to_pretty_text();
    let quoted = preamble::fenced(report.as_str());
    s.append(quoted.as_str());
    s.append("\n\n## Domain prompt\n\n");
    let rules = text::trim(domain);
    s.append(rules.as_str());
    s.append("\n\n## Your report\n\nWrite `");
    s.append(REPORT_FILE);
    s.append(SKEPTIC_REPORT_BODY);
    s.append(skeptic::REPORT_SCHEMA);
    s.append("\n```");
    s
}

} // verus!
