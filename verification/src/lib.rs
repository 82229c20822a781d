pub mod accounts;
pub mod agent;
pub mod agents;
pub mod attach;
pub mod bracket;
pub mod budget;
pub mod cli;
pub mod client;
pub mod config;
pub mod daemon;
pub mod dto;
pub mod ending;
pub mod errand;
pub mod event;
pub mod fanout;
pub mod fault;
pub mod flow;
pub mod history;
pub mod invocation;
pub mod json;
pub mod kernel;
pub mod kernels;
pub mod notify;
pub mod outfit;
pub mod pipeline;
pub mod preamble;
pub mod prepare;
pub mod progress;
pub mod projection;
pub mod ralph;
pub mod report;
pub mod run;
pub mod run_spawner;
pub mod sandbox;
pub mod scrub;
pub mod secrets;
pub mod sink;
pub mod store;
pub mod testkit;
pub mod skeptic;
pub mod text;
pub mod trace;
pub mod utf8;
pub mod verify;
pub mod wire;
pub mod workspace;
