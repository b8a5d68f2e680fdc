//! Verified core of a background job runner: job lifecycle state machine,
//! job registry, configuration resolution, duration parsing, log processing
//! and the decisions the daemon and the command line take around them.

pub mod assoc;
pub mod clock;
pub mod command;
pub mod config;
pub mod duration;
pub mod job;
pub mod job_store;
pub mod lines;
pub mod output;
pub mod paths;
pub mod pattern;
pub mod response;
pub mod text;
pub mod types;
pub mod logs;
pub mod lifecycle;
pub mod supervisor;
pub mod persist;
pub mod readiness;
pub mod server;
pub mod audit;
pub mod cli;
pub mod attach;
