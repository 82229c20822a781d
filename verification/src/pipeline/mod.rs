//! The pipeline kernel: a staged loop. One iteration drives one work unit
//! through a fixed sequence of stages: plan, implement, review, simplify,
//! and deliver when the flow enables it.

pub mod assets;
pub mod chronicle;
pub mod contract;
pub mod frame;
pub mod guardrails;
pub mod headings;
pub mod laws;
pub mod pass;
pub mod replay;
pub mod resume;
pub mod run;
pub mod schema_texts;
pub mod skeptic;
pub mod stage;
pub mod story;
pub mod walk;
