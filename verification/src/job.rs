//! A managed job and its lifecycle state machine.
//!
//! Valid transitions: Starting -> Running | Ready; Running -> Ready | Exited |
//! Crashed | Killed; Ready -> Exited | Crashed | Killed. Exited, Crashed and
//! Killed are terminal.

use std::collections::HashMap;
use vstd::prelude::*;
use crate::clock::{format_rfc3339, now_nanos, rfc3339_nanos, rfc3339_of_nanos};
use crate::response::{JobRecord, JobStatus};
use crate::text::{append_str, owned};
use crate::types::{
    copy_opt_strategy, copy_opt_string, copy_strings, state_alive, state_name, state_terminal, JobState,
    ReadinessStrategy, RestartPolicy,
};

verus! {

broadcast use vstd::string::group_string_axioms;

/// Errors that can occur during job operations.
#[derive(Debug)]
pub enum JobError {
    InvalidTransition { from: JobState, to: JobState },
}

impl JobError {
    /// The message: "invalid transition from <from> to <to>".
    pub fn to_string(&self) -> (r: String)
        ensures
            match self {
                JobError::InvalidTransition { from, to } => r@ == "invalid transition from "@
                    + state_name(*from) + " to "@ + state_name(*to),
            },
    {
        match self {
            JobError::InvalidTransition { from, to } => {
                let mut s = owned("invalid transition from ");
                append_str(&mut s, from.to_string().as_str());
                append_str(&mut s, " to ");
                append_str(&mut s, to.to_string().as_str());
                s
            },
        }
    }
}

/// The transition relation of the job lifecycle.
pub open spec fn valid_transition(from: JobState, to: JobState) -> bool {
    match (from, to) {
        (JobState::Starting, JobState::Running) => true,
        (JobState::Starting, JobState::Ready) => true,
        (JobState::Running, JobState::Ready) => true,
        (JobState::Running, JobState::Exited) => true,
        (JobState::Running, JobState::Crashed) => true,
        (JobState::Running, JobState::Killed) => true,
        (JobState::Ready, JobState::Exited) => true,
        (JobState::Ready, JobState::Crashed) => true,
        (JobState::Ready, JobState::Killed) => true,
        _ => false,
    }
}

/// Progress of a state along the lifecycle: 0 starting, 1 running, 2 ready,
/// 3 terminal.
pub open spec fn state_rank(s: JobState) -> nat {
    match s {
        JobState::Starting => 0,
        JobState::Running => 1,
        JobState::Ready => 2,
        _ => 3,
    }
}

/// A managed process tracked by the daemon. Times are nanoseconds since the
/// Unix epoch (UTC).
#[derive(Debug, Clone)]
pub struct Job {
    pub id: String,
    pub name: Option<String>,
    pub workspace: Option<String>,
    pub cmd: Vec<String>,
    pub pid: Option<u32>,
    pub state: JobState,
    pub started_at: i64,
    pub ready_at: Option<i64>,
    pub exit_code: Option<i32>,
    pub restart_count: u32,
    pub last_diff_cursor: u64,
    pub consecutive_failures: u32,
    pub readiness: Option<ReadinessStrategy>,
    pub restart: Option<RestartPolicy>,
    pub pty: bool,
    pub max_runtime_ms: Option<u64>,
    pub max_rss_mb: Option<u64>,
    pub env: HashMap<String, String>,
    pub cwd: Option<String>,
    pub allocated_port: Option<u16>,
}

/// `j` is a newly created job with the given identity, started at
/// `started_at`, with every other setting at its default.
pub open spec fn fresh_job(
    j: Job,
    id: String,
    cmd: Seq<String>,
    name: Option<String>,
    workspace: Option<String>,
) -> bool {
    &&& j.id == id
    &&& j.cmd@ == cmd
    &&& j.name == name
    &&& j.workspace == workspace
    &&& j.pid is None
    &&& j.state == JobState::Starting
    &&& j.ready_at is None
    &&& j.exit_code is None
    &&& j.restart_count == 0
    &&& j.last_diff_cursor == 0
    &&& j.consecutive_failures == 0
    &&& j.readiness is None
    &&& j.restart is None
    &&& !j.pty
    &&& j.max_runtime_ms is None
    &&& j.max_rss_mb is None
    &&& j.env@ == Map::<String, String>::empty()
    &&& j.cwd is None
    &&& j.allocated_port is None
}

impl Job {
    /// Creates a new job in the Starting state, stamped with the current time.
    pub fn new(id: String, cmd: Vec<String>, name: Option<String>, workspace: Option<String>) -> (j:
        Job)
        ensures
            fresh_job(j, id, cmd@, name, workspace),
    {
        let started_at = match now_nanos() {
            Some(t) => t,
            None => i64::MAX,
        };
        Job::new_at(id, cmd, name, workspace, started_at)
    }

    /// Creates a new job in the Starting state with an explicit start time.
    pub fn new_at(
        id: String,
        cmd: Vec<String>,
        name: Option<String>,
        workspace: Option<String>,
        started_at: i64,
    ) -> (j: Job)
        ensures
            fresh_job(j, id, cmd@, name, workspace),
            j.started_at == started_at,
    {
        Job {
            id,
            name,
            workspace,
            cmd,
            pid: None,
            state: JobState::Starting,
            started_at,
            ready_at: None,
            exit_code: None,
            restart_count: 0,
            last_diff_cursor: 0,
            consecutive_failures: 0,
            readiness: None,
            restart: None,
            pty: false,
            max_runtime_ms: None,
            max_rss_mb: None,
            env: HashMap::new(),
            cwd: None,
            allocated_port: None,
        }
    }

    /// Moves the job to `next` if the lifecycle allows it; otherwise leaves it
    /// unchanged and reports the attempted transition.
    pub fn transition(&mut self, next: JobState) -> (r: Result<(), JobError>)
        ensures
            r is Ok <==> valid_transition(old(self).state, next),
            r is Ok ==> *final(self) == (Job { state: next, ..*old(self) }),
            r is Err ==> *final(self) == *old(self),
            r matches Err(JobError::InvalidTransition { from, to }) ==> from == old(self).state
                && to == next,
    {
        let valid = match (self.state, next) {
            (JobState::Starting, JobState::Running)
            | (JobState::Starting, JobState::Ready)
            | (JobState::Running, JobState::Ready)
            | (JobState::Running, JobState::Exited)
            | (JobState::Running, JobState::Crashed)
            | (JobState::Running, JobState::Killed)
            | (JobState::Ready, JobState::Exited)
            | (JobState::Ready, JobState::Crashed)
            | (JobState::Ready, JobState::Killed) => true,
            _ => false,
        };
        if !valid {
            return Err(JobError::InvalidTransition { from: self.state, to: next });
        }
        self.state = next;
        Ok(())
    }

    /// Whether the job is in an alive state (Starting, Running or Ready).
    pub fn is_alive(&self) -> (r: bool)
        ensures
            r == state_alive(self.state),
    {
        matches!(self.state, JobState::Starting | JobState::Running | JobState::Ready)
    }

    /// The job as a record for clients and for persistence.
    pub fn to_record(&self) -> (r: JobRecord)
        ensures
            record_of(*self, r),
    {
        JobRecord {
            id: self.id.clone(),
            name: copy_opt_string(&self.name),
            workspace: copy_opt_string(&self.workspace),
            cmd: copy_strings(&self.cmd),
            pid: self.pid,
            state: self.state,
            started_at: format_rfc3339(self.started_at),
            readiness: copy_opt_strategy(&self.readiness),
            restart: self.restart,
            pty: self.pty,
            max_runtime_ms: self.max_runtime_ms,
            max_rss_mb: self.max_rss_mb,
            env: self.env.clone(),
            cwd: copy_opt_string(&self.cwd),
            allocated_port: self.allocated_port,
        }
    }

    /// The job's current status.
    pub fn status(&self) -> (r: JobStatus)
        ensures
            status_of(*self, r),
    {
        JobStatus {
            state: self.state,
            exit_code: self.exit_code,
            ready_at: match self.ready_at {
                Some(t) => Some(format_rfc3339(t)),
                None => None,
            },
            restart_count: self.restart_count,
            last_diff_cursor: self.last_diff_cursor,
            consecutive_failures: self.consecutive_failures,
        }
    }
}

/// `r` is the record of job `j`.
pub open spec fn record_of(j: Job, r: JobRecord) -> bool {
    &&& r.id == j.id
    &&& r.name == j.name
    &&& r.workspace == j.workspace
    &&& r.cmd@ == j.cmd@
    &&& r.pid == j.pid
    &&& r.state == j.state
    &&& r.started_at@ == rfc3339_of_nanos(j.started_at)
    &&& rfc3339_nanos(r.started_at@) == Some(j.started_at)
    &&& r.readiness == j.readiness
    &&& r.restart == j.restart
    &&& r.pty == j.pty
    &&& r.max_runtime_ms == j.max_runtime_ms
    &&& r.max_rss_mb == j.max_rss_mb
    &&& r.env@ == j.env@
    &&& r.cwd == j.cwd
    &&& r.allocated_port == j.allocated_port
}

/// `r` is the status of job `j`.
pub open spec fn status_of(j: Job, r: JobStatus) -> bool {
    &&& r.state == j.state
    &&& r.exit_code == j.exit_code
    &&& match j.ready_at {
        Some(t) => r.ready_at matches Some(s) && s@ == rfc3339_of_nanos(t) && rfc3339_nanos(s@)
            == Some(t),
        None => r.ready_at is None,
    }
    &&& r.restart_count == j.restart_count
    &&& r.last_diff_cursor == j.last_diff_cursor
    &&& r.consecutive_failures == j.consecutive_failures
}

// ---------------------------------------------------------------------------
// Laws of the lifecycle
// ---------------------------------------------------------------------------

/// A job is alive exactly when its state is not terminal.
pub proof fn law_alive_iff_not_terminal(s: JobState)
    ensures
        state_alive(s) <==> !state_terminal(s),
{
}

/// Terminal states are final: no transition leaves Exited, Crashed or Killed.
pub proof fn law_terminal_states_are_final(from: JobState, to: JobState)
    requires
        state_terminal(from),
    ensures
        !valid_transition(from, to),
{
}

/// Every valid transition starts from an alive state and makes progress: the
/// state's rank strictly increases, so a job takes at most three successful
/// transitions in its life and never returns to Starting.
pub proof fn law_transitions_make_progress(from: JobState, to: JobState)
    requires
        valid_transition(from, to),
    ensures
        state_alive(from),
        state_rank(from) < state_rank(to),
        to != JobState::Starting,
{
}

/// Once a transition into a terminal state succeeds, the job is no longer
/// alive and every later transition is refused, leaving the job unchanged.
pub proof fn law_terminal_transition_ends_life(j: Job, next: JobState, later: JobState)
    requires
        valid_transition(j.state, next),
        state_terminal(next),
    ensures
        !state_alive(next),
        !valid_transition(next, later),
{
}

} // verus!
