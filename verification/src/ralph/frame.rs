//! How the single-prompt loop frames an iteration: where it stands, the
//! previous report, why the last iteration did not count, what the human
//! said, the domain prompt, and the report contract, in this order.

use crate::json;
use crate::preamble::{self, Feedback, HumanInput};
use crate::progress::{self, ProgressReport};
use crate::text;
use crate::workspace::PROGRESS_FILE;
use vstd::prelude::*;

verus! {

pub const HEADER_START: &'static str = "# hako — iteration ";

pub const HEADER_BODY: &'static str = "\n\nThis is one iteration of an automated loop. Each one starts fresh; the workspace is the only memory. Speak back only by writing the progress report described at the end.";

pub const PREVIOUS_HEADING: &'static str = "## Previous report\n\n";

pub const CONTRACT_START: &'static str = "## Your report\n\nEnd the iteration by writing `";

pub const CONTRACT_BODY: &'static str = "` in the workspace. Set `status` to `continue` when there is more to do, `done` when the whole objective is complete, `blocked` when something outside your control stops all progress, or `needs_input` when only a human can answer.\n\nThe report must match this schema exactly:\n\n```json\n";

pub const PROGRESS_SCHEMA: &'static str = r##"{
  "$schema": "https://json-schema.org/draft/2020-12/schema",
  "title": "ProgressReport",
  "description": "What the agent declares at the end of an iteration.",
  "type": "object",
  "properties": {
    "status": {
      "$ref": "#/$defs/ReportStatus"
    },
    "summary": {
      "type": "string"
    },
    "remaining": {
      "description": "What is left to do.",
      "type": "array",
      "items": {
        "type": "string"
      }
    },
    "blockers": {
      "type": "array",
      "items": {
        "type": "string"
      }
    },
    "questions": {
      "type": "array",
      "items": {
        "$ref": "#/$defs/Question"
      }
    }
  },
  "required": [
    "status",
    "summary"
  ],
  "additionalProperties": false,
  "$defs": {
    "ReportStatus": {
      "type": "string",
      "enum": [
        "continue",
        "done",
        "blocked",
        "needs_input"
      ]
    },
    "Question": {
      "type": "object",
      "properties": {
        "id": {
          "type": "string"
        },
        "text": {
          "type": "string"
        },
        "options": {
          "type": "array",
          "items": {
            "type": "string"
          }
        }
      },
      "required": [
        "id",
        "text"
      ]
    }
  }
}"##;

/// The section that says where the loop stands.
pub open spec fn header_section(iteration: u32, max: Option<u32>) -> Seq<char> {
    let numbered = HEADER_START@ + text::decimal(iteration as nat);
    match max {
        Some(max) => numbered + " of "@ + text::decimal(max as nat) + HEADER_BODY@,
        None => numbered + HEADER_BODY@,
    }
}

/// The section that quotes the previous report.
pub open spec fn previous_section(report: progress::ProgressView) -> Seq<char> {
    PREVIOUS_HEADING@ + preamble::fence_around(
        json::pretty_printed(json::JsonView::Object(progress::progress_fields(report))),
    )
}

/// The report contract.
pub open spec fn contract_section() -> Seq<char> {
    CONTRACT_START@ + PROGRESS_FILE@ + CONTRACT_BODY@ + PROGRESS_SCHEMA@ + "\n```"@
}

/// What the loop puts in front of one iteration's agent.
pub struct Preamble<'a> {
    pub iteration: u32,
    pub max_iterations: Option<u32>,
    pub previous: Option<&'a ProgressReport>,
    /// Why the last iteration did not count.
    pub feedback: Option<&'a Feedback>,
    /// What the human said when the run resumed from a pause.
    pub human: Option<&'a HumanInput>,
}

/// What a preamble holds.
#[verifier::ext_equal]
pub ghost struct PreambleView {
    pub iteration: u32,
    pub max_iterations: Option<u32>,
    pub previous: Option<progress::ProgressView>,
    pub feedback: Option<preamble::FeedbackView>,
    pub human: Option<preamble::HumanInputView>,
}

impl<'a> Preamble<'a> {
    pub open spec fn view(&self) -> PreambleView {
        PreambleView {
            iteration: self.iteration,
            max_iterations: self.max_iterations,
            previous: match self.previous {
                Some(report) => Some(report@),
                None => None,
            },
            feedback: match self.feedback {
                Some(feedback) => Some(feedback@),
                None => None,
            },
            human: match self.human {
                Some(human) => Some(human@),
                None => None,
            },
        }
    }
}

/// The sections of an iteration's prompt, in order.
pub open spec fn sections(preamble: PreambleView, domain: Seq<char>) -> Seq<Seq<char>> {
    let head = seq![header_section(preamble.iteration, preamble.max_iterations)];
    let told = match preamble.previous {
        Some(report) => head.push(previous_section(report)),
        None => head,
    };
    let fed = match preamble.feedback {
        Some(feedback) => told.push(preamble::feedback_section(feedback)),
        None => told,
    };
    let heard = match preamble.human {
        Some(human) => match preamble::human_section(human) {
            Some(section) => fed.push(section),
            None => fed,
        },
        None => fed,
    };
    heard.push(text::trimmed(domain)).push(contract_section())
}

/// The prompt of an iteration.
pub open spec fn composed(preamble: PreambleView, domain: Seq<char>) -> Seq<char> {
    text::joined(sections(preamble, domain), "\n\n"@)
}

/// [`composed`], computed.
pub fn compose(preamble: &Preamble<'_>, domain: &str) -> (s: String)
    ensures
        s@ == composed(preamble@, domain@),
{
    let mut parts: Vec<String> = Vec::new();
    let mut header = HEADER_START.to_owned();
    let number = text::decimal_of(preamble.iteration as u64);
    header.append(number.as_str());
    if let Some(max) = preamble.max_iterations {
        header.append(" of ");
        let limit = text::decimal_of(max as u64);
        header.append(limit.as_str());
    }
    header.append(HEADER_BODY);
    parts.push(header);
    let ghost head = seq![header_section(preamble.iteration, preamble.max_iterations)];
    assert(text::texts(parts@) =~= head);
    if let Some(report) = preamble.previous {
        let mut section = PREVIOUS_HEADING.to_owned();
        let words = report.to_json().to_pretty_text();
        let quoted = preamble::fenced(words.as_str());
        section.append(quoted.as_str());
        parts.push(section);
    }
    if let Some(feedback) = preamble.feedback {
        parts.push(preamble::feedback(feedback));
    }
    if let Some(human) = preamble.human {
        if let Some(section) = preamble::human_input(human) {
            parts.push(section);
        }
    }
    parts.push(text::trim(domain));
    let mut contract = CONTRACT_START.to_owned();
    contract.append(PROGRESS_FILE);
    contract.append(CONTRACT_BODY);
    contract.append(PROGRESS_SCHEMA);
    contract.append("\n```");
    parts.push(contract);
    assert(text::texts(parts@) =~= sections(preamble@, domain@));
    text::join(&parts, "\n\n")
}

/// The repair re-prompt for a rejected progress report.
pub open spec fn repair_text(errors: Seq<Seq<char>>) -> Seq<char> {
    "# hako report repair\n\nThe progress report you wrote was rejected:\n\n"@
        + crate::invocation::error_lines(errors) + "\nWrite a corrected `"@ + PROGRESS_FILE@
        + "` in the workspace and do nothing else:\n\n```json\n"@ + PROGRESS_SCHEMA@ + "\n```\n"@
}

/// [`repair_text`], computed.
pub fn repair(errors: &Vec<String>) -> (s: String)
    ensures
        s@ == repair_text(text::texts(errors@)),
{
    let lines = crate::invocation::listed_errors(errors);
    let mut s: String =
        "# hako report repair\n\nThe progress report you wrote was rejected:\n\n".to_owned();
    s.append(lines.as_str());
    s.append("\nWrite a corrected `");
    s.append(PROGRESS_FILE);
    s.append("` in the workspace and do nothing else:\n\n```json\n");
    s.append(PROGRESS_SCHEMA);
    s.append("\n```\n");
    s
}

} // verus!
