//! Requests from the command line to the daemon.

use std::collections::HashMap;
use vstd::prelude::*;
use crate::types::{ReadinessStrategy, RestartPolicy};

verus! {

/// Arguments for the Run command.
#[derive(Debug, Clone, PartialEq)]
pub struct RunArgs {
    pub cmd: Vec<String>,
    pub name: Option<String>,
    pub workspace: Option<String>,
    pub readiness: Option<ReadinessStrategy>,
    pub restart: Option<RestartPolicy>,
    pub pty: bool,
    pub max_runtime_ms: Option<u64>,
    pub max_rss_mb: Option<u64>,
    pub env: HashMap<String, String>,
    pub after: Option<String>,
    pub cwd: Option<String>,
    pub allocate_port: Option<String>,
    pub health_check: Option<ReadinessStrategy>,
    pub health_interval_secs: Option<u64>,
    pub health_threshold: Option<u32>,
    pub pty_cols: Option<u16>,
    pub pty_rows: Option<u16>,
}

/// Arguments for the Kill command.
#[derive(Debug, Clone, PartialEq)]
pub struct KillArgs {
    pub id: Option<String>,
    pub workspace: Option<String>,
}

/// Arguments for the Tail command.
#[derive(Debug, Clone, PartialEq)]
pub struct TailArgs {
    pub id: String,
    pub lines: usize,
    pub digest: bool,
    pub level: Option<String>,
    pub strip_ansi: bool,
    pub stream: Option<String>,
    pub cursor: Option<u64>,
    pub follow: bool,
    pub filter_regex: Option<String>,
}

/// All commands the daemon handles.
#[derive(Debug, Clone, PartialEq)]
pub enum Command {
    Run(RunArgs),
    Status { id: String },
    List { workspace: Option<String> },
    Kill(KillArgs),
    Tail(TailArgs),
    Diff {
        id: String,
        lines: Option<usize>,
        strip_ansi: bool,
        stream: Option<String>,
        filter_regex: Option<String>,
    },
    Wait { id: String, timeout_ms: u64 },
    Send { id: String, data: String },
    Stats { id: String },
    RunGroup { jobs: Vec<RunArgs> },
    Expect { id: String, pattern: String, is_regex: bool, timeout_ms: u64 },
    Attach { id: String },
    ResizePty { id: String, cols: u16, rows: u16 },
    Clean { workspace: Option<String> },
    StreamLogs { id: String },
    Screen { id: String, lines: usize },
}

/// A request sent from the command line to the daemon.
#[derive(Debug, Clone, PartialEq)]
pub struct Request {
    pub id: String,
    pub command: Command,
}

} // verus!
