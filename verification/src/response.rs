//! Replies from the daemon: job records, status, the response envelope, log
//! lines, wait results and log digests.

use std::collections::HashMap;
use vstd::prelude::*;
use crate::types::{JobState, ReadinessStrategy, RestartPolicy};
use crate::text::owned;

verus! {

broadcast use vstd::string::group_string_axioms;

/// A record of a job returned to the client; it carries every run setting so
/// that it can be persisted and read back.
#[derive(Debug, Clone, PartialEq)]
pub struct JobRecord {
    pub id: String,
    pub name: Option<String>,
    pub workspace: Option<String>,
    pub cmd: Vec<String>,
    pub pid: Option<u32>,
    pub state: JobState,
    pub started_at: String,
    pub readiness: Option<ReadinessStrategy>,
    pub restart: Option<RestartPolicy>,
    pub pty: bool,
    pub max_runtime_ms: Option<u64>,
    pub env: HashMap<String, String>,
    pub max_rss_mb: Option<u64>,
    pub cwd: Option<String>,
    pub allocated_port: Option<u16>,
}

/// Whether a flag is off; such flags are left out of a serialized record.
pub fn is_false(b: &bool) -> (r: bool)
    ensures
        r == !*b,
{
    !*b
}

/// The current status of a job.
#[derive(Debug, Clone, PartialEq)]
pub struct JobStatus {
    pub state: JobState,
    pub exit_code: Option<i32>,
    pub ready_at: Option<String>,
    pub restart_count: u32,
    pub last_diff_cursor: u64,
    pub consecutive_failures: u32,
}

/// Response envelope for all daemon replies.
#[derive(Debug, Clone, PartialEq)]
pub struct Response<T> {
    pub id: String,
    pub ok: bool,
    pub data: Option<T>,
    pub error: Option<String>,
}

impl<T> Response<T> {
    /// A success response carrying `data`.
    pub fn ok(id: String, data: T) -> (r: Self)
        ensures
            r.id == id,
            r.ok,
            r.data == Some(data),
            r.error is None,
    {
        Response { id, ok: true, data: Some(data), error: None }
    }

    /// An error response carrying the message `msg`.
    pub fn err(id: String, msg: &str) -> (r: Self)
        ensures
            r.id == id,
            !r.ok,
            r.data is None,
            r.error matches Some(e) && e@ == msg@,
    {
        Response { id, ok: false, data: None, error: Some(owned(msg)) }
    }
}

/// A single log line.
#[derive(Debug, Clone, PartialEq)]
pub struct LogLine {
    pub line_number: u64,
    pub content: String,
    pub timestamp: Option<String>,
}

/// Result of a wait command.
#[derive(Debug, Clone, PartialEq)]
pub struct WaitResult {
    pub ready: bool,
    pub elapsed_ms: u64,
    pub exit_code: Option<i32>,
    pub state: Option<String>,
}

/// Digest summary of a job's log.
#[derive(Debug, Clone, PartialEq)]
pub struct LogDigest {
    pub total_lines: u64,
    pub errors: u64,
    pub warnings: u64,
    pub last_error: Option<String>,
    pub last_error_line: Option<u64>,
}

} // verus!
