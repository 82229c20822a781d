//! The fanout kernel: plan opaque independent units, launch one child
//! pipeline per unit, and account for the whole batch before planning again.
//! Parallelism stays at the run boundary.

pub mod contract;
pub mod frame;
pub mod laws;
pub mod work;
pub mod batch;
pub mod chronicle;
pub mod run;
