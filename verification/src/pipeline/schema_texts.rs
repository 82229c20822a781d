//! No shipped schema has two number signs side by side, so none shows a
//! heading. Only a literal can be read character by character, which is why
//! each schema is spelled out once more.

use crate::pipeline::assets;
use crate::pipeline::headings::{calm, lemma_calm, single};
use vstd::prelude::*;

verus! {

pub proof fn lemma_plan_schema()
    ensures
        single(assets::PLAN_SCHEMA@),
{
    reveal_strlit(r##"{
  "$schema": "https://json-schema.org/draft/2020-12/schema",
  "title": "PlanReport",
  "description": "What the plan stage leaves behind.",
  "type": "object",
  "properties": {
    "status": {
      "$ref": "#/$defs/ReportStatus"
    },
    "summary": {
      "description": "What this stage did, in the agent's words.",
      "type": "string"
    },
    "work_unit": {
      "description": "The one unit of work this iteration drives.",
      "type": [
        "string",
        "null"
      ]
    },
    "steps": {
      "description": "The steps the unit takes.",
      "type": "array",
      "items": {
        "type": "string"
      }
    },
    "blockers": {
      "description": "What stops progress.",
      "type": "array",
      "items": {
        "type": "string"
      }
    },
    "questions": {
      "description": "What only a human can answer.",
      "type": "array",
      "items": {
        "$ref": "#/$defs/Question"
      }
    }
  },
  "required": [
    "status",
    "summary"
  ],
  "additionalProperties": false,
  "$defs": {
    "ReportStatus": {
      "type": "string",
      "enum": [
        "continue",
        "done",
        "blocked",
        "needs_input"
      ]
    },
    "Question": {
      "type": "object",
      "properties": {
        "id": {
          "type": "string"
        },
        "text": {
          "type": "string"
        },
        "options": {
          "type": "array",
          "items": {
            "type": "string"
          }
        }
      },
      "required": [
        "id",
        "text"
      ]
    }
  }
}"##);
    let s = assets::PLAN_SCHEMA@;
    assert(calm(s, 0, (s.len() - 1) as nat)) by {
        reveal_with_fuel(calm, 11);
    }
    lemma_calm(s, 0, (s.len() - 1) as nat);
}

pub proof fn lemma_implement_schema()
    ensures
        single(assets::IMPLEMENT_SCHEMA@),
{
    reveal_strlit(r##"{
  "$schema": "https://json-schema.org/draft/2020-12/schema",
  "title": "ImplementReport",
  "description": "What the implement stage leaves behind.",
  "type": "object",
  "properties": {
    "status": {
      "$ref": "#/$defs/ReportStatus"
    },
    "summary": {
      "description": "What this stage did, in the agent's words.",
      "type": "string"
    },
    "remaining": {
      "description": "What of the unit is left.",
      "type": "array",
      "items": {
        "type": "string"
      }
    },
    "blockers": {
      "description": "What stops progress.",
      "type": "array",
      "items": {
        "type": "string"
      }
    },
    "questions": {
      "description": "What only a human can answer.",
      "type": "array",
      "items": {
        "$ref": "#/$defs/Question"
      }
    }
  },
  "required": [
    "status",
    "summary"
  ],
  "additionalProperties": false,
  "$defs": {
    "ReportStatus": {
      "type": "string",
      "enum": [
        "continue",
        "done",
        "blocked",
        "needs_input"
      ]
    },
    "Question": {
      "type": "object",
      "properties": {
        "id": {
          "type": "string"
        },
        "text": {
          "type": "string"
        },
        "options": {
          "type": "array",
          "items": {
            "type": "string"
          }
        }
      },
      "required": [
        "id",
        "text"
      ]
    }
  }
}"##);
    let s = assets::IMPLEMENT_SCHEMA@;
    assert(calm(s, 0, (s.len() - 1) as nat)) by {
        reveal_with_fuel(calm, 11);
    }
    lemma_calm(s, 0, (s.len() - 1) as nat);
}

pub proof fn lemma_review_schema()
    ensures
        single(assets::REVIEW_SCHEMA@),
{
    reveal_strlit(r##"{
  "$schema": "https://json-schema.org/draft/2020-12/schema",
  "title": "ReviewReport",
  "description": "What the review stage leaves behind.",
  "type": "object",
  "properties": {
    "status": {
      "$ref": "#/$defs/ReportStatus"
    },
    "summary": {
      "description": "What this stage did, in the agent's words.",
      "type": "string"
    },
    "findings": {
      "description": "What the review found.",
      "type": "array",
      "items": {
        "type": "string"
      }
    },
    "blockers": {
      "description": "What stops progress.",
      "type": "array",
      "items": {
        "type": "string"
      }
    },
    "questions": {
      "description": "What only a human can answer.",
      "type": "array",
      "items": {
        "$ref": "#/$defs/Question"
      }
    }
  },
  "required": [
    "status",
    "summary"
  ],
  "additionalProperties": false,
  "$defs": {
    "ReportStatus": {
      "type": "string",
      "enum": [
        "continue",
        "done",
        "blocked",
        "needs_input"
      ]
    },
    "Question": {
      "type": "object",
      "properties": {
        "id": {
          "type": "string"
        },
        "text": {
          "type": "string"
        },
        "options": {
          "type": "array",
          "items": {
            "type": "string"
          }
        }
      },
      "required": [
        "id",
        "text"
      ]
    }
  }
}"##);
    let s = assets::REVIEW_SCHEMA@;
    assert(calm(s, 0, (s.len() - 1) as nat)) by {
        reveal_with_fuel(calm, 11);
    }
    lemma_calm(s, 0, (s.len() - 1) as nat);
}

pub proof fn lemma_simplify_schema()
    ensures
        single(assets::SIMPLIFY_SCHEMA@),
{
    reveal_strlit(r##"{
  "$schema": "https://json-schema.org/draft/2020-12/schema",
  "title": "SimplifyReport",
  "description": "What the simplify stage leaves behind.",
  "type": "object",
  "properties": {
    "status": {
      "$ref": "#/$defs/ReportStatus"
    },
    "summary": {
      "description": "What this stage did, in the agent's words.",
      "type": "string"
    },
    "blockers": {
      "description": "What stops progress.",
      "type": "array",
      "items": {
        "type": "string"
      }
    },
    "questions": {
      "description": "What only a human can answer.",
      "type": "array",
      "items": {
        "$ref": "#/$defs/Question"
      }
    }
  },
  "required": [
    "status",
    "summary"
  ],
  "additionalProperties": false,
  "$defs": {
    "ReportStatus": {
      "type": "string",
      "enum": [
        "continue",
        "done",
        "blocked",
        "needs_input"
      ]
    },
    "Question": {
      "type": "object",
      "properties": {
        "id": {
          "type": "string"
        },
        "text": {
          "type": "string"
        },
        "options": {
          "type": "array",
          "items": {
            "type": "string"
          }
        }
      },
      "required": [
        "id",
        "text"
      ]
    }
  }
}"##);
    let s = assets::SIMPLIFY_SCHEMA@;
    assert(calm(s, 0, (s.len() - 1) as nat)) by {
        reveal_with_fuel(calm, 11);
    }
    lemma_calm(s, 0, (s.len() - 1) as nat);
}

pub proof fn lemma_deliver_schema()
    ensures
        single(assets::DELIVER_SCHEMA@),
{
    reveal_strlit(r##"{
  "$schema": "https://json-schema.org/draft/2020-12/schema",
  "title": "DeliverReport",
  "description": "What the deliver stage leaves behind.",
  "type": "object",
  "properties": {
    "status": {
      "$ref": "#/$defs/ReportStatus"
    },
    "summary": {
      "description": "What this stage did, in the agent's words.",
      "type": "string"
    },
    "blockers": {
      "description": "What stops progress.",
      "type": "array",
      "items": {
        "type": "string"
      }
    },
    "questions": {
      "description": "What only a human can answer.",
      "type": "array",
      "items": {
        "$ref": "#/$defs/Question"
      }
    }
  },
  "required": [
    "status",
    "summary"
  ],
  "additionalProperties": false,
  "$defs": {
    "ReportStatus": {
      "type": "string",
      "enum": [
        "continue",
        "done",
        "blocked",
        "needs_input"
      ]
    },
    "Question": {
      "type": "object",
      "properties": {
        "id": {
          "type": "string"
        },
        "text": {
          "type": "string"
        },
        "options": {
          "type": "array",
          "items": {
            "type": "string"
          }
        }
      },
      "required": [
        "id",
        "text"
      ]
    }
  }
}"##);
    let s = assets::DELIVER_SCHEMA@;
    assert(calm(s, 0, (s.len() - 1) as nat)) by {
        reveal_with_fuel(calm, 11);
    }
    lemma_calm(s, 0, (s.len() - 1) as nat);
}

} // verus!
