//! The texts the pipeline ships: a default prompt for every stage that is
//! part of every flow, and the schema of each stage's report.

use crate::pipeline::contract::Stage;
use vstd::prelude::*;

verus! {

pub const PLAN_PROMPT: &'static str = "# Plan\n\nRead the workspace and choose the one unit of work that moves the objective\nforward most. Name it, and break it into the steps an implementer can follow\nwithout asking. Change nothing in the workspace.\n";

pub const IMPLEMENT_PROMPT: &'static str = "# Implement\n\nCarry out the plan quoted above, step by step. Keep to its one unit of work,\ncover it with tests, and leave the verify checks green.\n";

pub const REVIEW_PROMPT: &'static str = "# Review\n\nRead the change with fresh eyes: correctness first, then tests, then the\nproject's own conventions. Fix what you find instead of only listing it.\n";

pub const SIMPLIFY_PROMPT: &'static str = "# Simplify\n\nMake the change smaller and plainer without changing what it does: remove\nwhat nothing needs, join what was said twice, and name things for what they\nare.\n";

pub const PLAN_SCHEMA: &'static str = r##"{
  "$schema": "https://json-schema.org/draft/2020-12/schema",
  "title": "PlanReport",
  "description": "What the plan stage leaves behind.",
  "type": "object",
  "properties": {
    "status": {
      "$ref": "#/$defs/ReportStatus"
    },
    "summary": {
      "description": "What this stage did, in the agent's words.",
      "type": "string"
    },
    "work_unit": {
      "description": "The one unit of work this iteration drives.",
      "type": [
        "string",
        "null"
      ]
    },
    "steps": {
      "description": "The steps the unit takes.",
      "type": "array",
      "items": {
        "type": "string"
      }
    },
    "blockers": {
      "description": "What stops progress.",
      "type": "array",
      "items": {
        "type": "string"
      }
    },
    "questions": {
      "description": "What only a human can answer.",
      "type": "array",
      "items": {
        "$ref": "#/$defs/Question"
      }
    }
  },
  "required": [
    "status",
    "summary"
  ],
  "additionalProperties": false,
  "$defs": {
    "ReportStatus": {
      "type": "string",
      "enum": [
        "continue",
        "done",
        "blocked",
        "needs_input"
      ]
    },
    "Question": {
      "type": "object",
      "properties": {
        "id": {
          "type": "string"
        },
        "text": {
          "type": "string"
        },
        "options": {
          "type": "array",
          "items": {
            "type": "string"
          }
        }
      },
      "required": [
        "id",
        "text"
      ]
    }
  }
}"##;

pub const IMPLEMENT_SCHEMA: &'static str = r##"{
  "$schema": "https://json-schema.org/draft/2020-12/schema",
  "title": "ImplementReport",
  "description": "What the implement stage leaves behind.",
  "type": "object",
  "properties": {
    "status": {
      "$ref": "#/$defs/ReportStatus"
    },
    "summary": {
      "description": "What this stage did, in the agent's words.",
      "type": "string"
    },
    "remaining": {
      "description": "What of the unit is left.",
      "type": "array",
      "items": {
        "type": "string"
      }
    },
    "blockers": {
      "description": "What stops progress.",
      "type": "array",
      "items": {
        "type": "string"
      }
    },
    "questions": {
      "description": "What only a human can answer.",
      "type": "array",
      "items": {
        "$ref": "#/$defs/Question"
      }
    }
  },
  "required": [
    "status",
    "summary"
  ],
  "additionalProperties": false,
  "$defs": {
    "ReportStatus": {
      "type": "string",
      "enum": [
        "continue",
        "done",
        "blocked",
        "needs_input"
      ]
    },
    "Question": {
      "type": "object",
      "properties": {
        "id": {
          "type": "string"
        },
        "text": {
          "type": "string"
        },
        "options": {
          "type": "array",
          "items": {
            "type": "string"
          }
        }
      },
      "required": [
        "id",
        "text"
      ]
    }
  }
}"##;

pub const REVIEW_SCHEMA: &'static str = r##"{
  "$schema": "https://json-schema.org/draft/2020-12/schema",
  "title": "ReviewReport",
  "description": "What the review stage leaves behind.",
  "type": "object",
  "properties": {
    "status": {
      "$ref": "#/$defs/ReportStatus"
    },
    "summary": {
      "description": "What this stage did, in the agent's words.",
      "type": "string"
    },
    "findings": {
      "description": "What the review found.",
      "type": "array",
      "items": {
        "type": "string"
      }
    },
    "blockers": {
      "description": "What stops progress.",
      "type": "array",
      "items": {
        "type": "string"
      }
    },
    "questions": {
      "description": "What only a human can answer.",
      "type": "array",
      "items": {
        "$ref": "#/$defs/Question"
      }
    }
  },
  "required": [
    "status",
    "summary"
  ],
  "additionalProperties": false,
  "$defs": {
    "ReportStatus": {
      "type": "string",
      "enum": [
        "continue",
        "done",
        "blocked",
        "needs_input"
      ]
    },
    "Question": {
      "type": "object",
      "properties": {
        "id": {
          "type": "string"
        },
        "text": {
          "type": "string"
        },
        "options": {
          "type": "array",
          "items": {
            "type": "string"
          }
        }
      },
      "required": [
        "id",
        "text"
      ]
    }
  }
}"##;

pub const SIMPLIFY_SCHEMA: &'static str = r##"{
  "$schema": "https://json-schema.org/draft/2020-12/schema",
  "title": "SimplifyReport",
  "description": "What the simplify stage leaves behind.",
  "type": "object",
  "properties": {
    "status": {
      "$ref": "#/$defs/ReportStatus"
    },
    "summary": {
      "description": "What this stage did, in the agent's words.",
      "type": "string"
    },
    "blockers": {
      "description": "What stops progress.",
      "type": "array",
      "items": {
        "type": "string"
      }
    },
    "questions": {
      "description": "What only a human can answer.",
      "type": "array",
      "items": {
        "$ref": "#/$defs/Question"
      }
    }
  },
  "required": [
    "status",
    "summary"
  ],
  "additionalProperties": false,
  "$defs": {
    "ReportStatus": {
      "type": "string",
      "enum": [
        "continue",
        "done",
        "blocked",
        "needs_input"
      ]
    },
    "Question": {
      "type": "object",
      "properties": {
        "id": {
          "type": "string"
        },
        "text": {
          "type": "string"
        },
        "options": {
          "type": "array",
          "items": {
            "type": "string"
          }
        }
      },
      "required": [
        "id",
        "text"
      ]
    }
  }
}"##;

pub const DELIVER_SCHEMA: &'static str = r##"{
  "$schema": "https://json-schema.org/draft/2020-12/schema",
  "title": "DeliverReport",
  "description": "What the deliver stage leaves behind.",
  "type": "object",
  "properties": {
    "status": {
      "$ref": "#/$defs/ReportStatus"
    },
    "summary": {
      "description": "What this stage did, in the agent's words.",
      "type": "string"
    },
    "blockers": {
      "description": "What stops progress.",
      "type": "array",
      "items": {
        "type": "string"
      }
    },
    "questions": {
      "description": "What only a human can answer.",
      "type": "array",
      "items": {
        "$ref": "#/$defs/Question"
      }
    }
  },
  "required": [
    "status",
    "summary"
  ],
  "additionalProperties": false,
  "$defs": {
    "ReportStatus": {
      "type": "string",
      "enum": [
        "continue",
        "done",
        "blocked",
        "needs_input"
      ]
    },
    "Question": {
      "type": "object",
      "properties": {
        "id": {
          "type": "string"
        },
        "text": {
          "type": "string"
        },
        "options": {
          "type": "array",
          "items": {
            "type": "string"
          }
        }
      },
      "required": [
        "id",
        "text"
      ]
    }
  }
}"##;

/// The default prompt of a stage. Delivery has none: its policy is too
/// project-specific for a default.
pub open spec fn default_prompt_text(stage: Stage) -> Option<Seq<char>> {
    match stage {
        Stage::Plan => Some(PLAN_PROMPT@),
        Stage::Implement => Some(IMPLEMENT_PROMPT@),
        Stage::Review => Some(REVIEW_PROMPT@),
        Stage::Simplify => Some(SIMPLIFY_PROMPT@),
        Stage::Deliver => None,
    }
}

/// The shipped default prompt of a stage.
pub fn default_prompt(stage: Stage) -> (r: Option<&'static str>)
    ensures
        match r {
            Some(prompt) => default_prompt_text(stage) == Some(prompt@),
            None => default_prompt_text(stage) is None,
        },
{
    match stage {
        Stage::Plan => Some(PLAN_PROMPT),
        Stage::Implement => Some(IMPLEMENT_PROMPT),
        Stage::Review => Some(REVIEW_PROMPT),
        Stage::Simplify => Some(SIMPLIFY_PROMPT),
        Stage::Deliver => None,
    }
}

/// The schema of a stage's report.
pub open spec fn schema_text(stage: Stage) -> Seq<char> {
    match stage {
        Stage::Plan => PLAN_SCHEMA@,
        Stage::Implement => IMPLEMENT_SCHEMA@,
        Stage::Review => REVIEW_SCHEMA@,
        Stage::Simplify => SIMPLIFY_SCHEMA@,
        Stage::Deliver => DELIVER_SCHEMA@,
    }
}

/// The schema of a stage's report, quoted verbatim in its prompt so the
/// agent's output is constrained and self-repairable.
pub fn report_schema(stage: Stage) -> (s: &'static str)
    ensures
        s@ == schema_text(stage),
{
    match stage {
        Stage::Plan => PLAN_SCHEMA,
        Stage::Implement => IMPLEMENT_SCHEMA,
        Stage::Review => REVIEW_SCHEMA,
        Stage::Simplify => SIMPLIFY_SCHEMA,
        Stage::Deliver => DELIVER_SCHEMA,
    }
}

} // verus!
