//! Shared protocol vocabulary: job states, readiness strategies and restart
//! policies.

use vstd::prelude::*;
use crate::text::owned;

verus! {

broadcast use vstd::string::group_string_axioms;

/// The state of a managed job process.
#[derive(Debug, Clone, Copy, PartialEq, Eq, Structural)]
pub enum JobState {
    Starting,
    Running,
    Ready,
    Exited,
    Crashed,
    Killed,
}

/// The lowercase name of a state, as displayed and serialized.
pub open spec fn state_name(s: JobState) -> Seq<char> {
    match s {
        JobState::Starting => "starting"@,
        JobState::Running => "running"@,
        JobState::Ready => "ready"@,
        JobState::Exited => "exited"@,
        JobState::Crashed => "crashed"@,
        JobState::Killed => "killed"@,
    }
}

/// A job in this state still has (or is about to have) a live process.
pub open spec fn state_alive(s: JobState) -> bool {
    s == JobState::Starting || s == JobState::Running || s == JobState::Ready
}

/// A job in this state has ended for good.
pub open spec fn state_terminal(s: JobState) -> bool {
    s == JobState::Exited || s == JobState::Crashed || s == JobState::Killed
}

impl JobState {
    /// The lowercase name of the state ("starting", "running", ...).
    pub fn to_string(&self) -> (r: String)
        ensures
            r@ == state_name(*self),
    {
        match self {
            JobState::Starting => owned("starting"),
            JobState::Running => owned("running"),
            JobState::Ready => owned("ready"),
            JobState::Exited => owned("exited"),
            JobState::Crashed => owned("crashed"),
            JobState::Killed => owned("killed"),
        }
    }

    /// Whether the state is one of Exited, Crashed, Killed.
    pub fn is_terminal(&self) -> (r: bool)
        ensures
            r == state_terminal(*self),
    {
        matches!(self, JobState::Exited | JobState::Crashed | JobState::Killed)
    }
}

/// Strategy for detecting when a job is ready to serve traffic.
#[derive(Debug, Clone, PartialEq)]
pub enum ReadinessStrategy {
    LogPattern(String),
    LogPatternRegex(String),
    HttpPoll(String),
    TcpPort(u16),
    FileExists(String),
}

impl ReadinessStrategy {
    /// A copy of this strategy.
    pub fn duplicate(&self) -> (r: Self)
        ensures
            r == *self,
    {
        match self {
            ReadinessStrategy::LogPattern(p) => ReadinessStrategy::LogPattern(p.clone()),
            ReadinessStrategy::LogPatternRegex(p) => ReadinessStrategy::LogPatternRegex(p.clone()),
            ReadinessStrategy::HttpPoll(u) => ReadinessStrategy::HttpPoll(u.clone()),
            ReadinessStrategy::TcpPort(p) => ReadinessStrategy::TcpPort(*p),
            ReadinessStrategy::FileExists(f) => ReadinessStrategy::FileExists(f.clone()),
        }
    }
}

/// Policy for restarting a job after it exits.
///
/// - `Never`: never restart, even on crash.
/// - `OnCrash`: restart only when the job lands in `Crashed`.
/// - `OnFailure`: like `OnCrash`, plus a clean exit that never became `Ready`.
/// - `Always`: restart on any terminal state except `Killed`.
#[derive(Debug, Clone, Copy, PartialEq, Eq, Structural)]
pub enum RestartPolicy {
    Never,
    OnCrash { backoff_ms: u64 },
    OnFailure { backoff_ms: u64 },
    Always { backoff_ms: u64 },
}

/// A copy of an optional string.
pub fn copy_opt_string(o: &Option<String>) -> (r: Option<String>)
    ensures
        r == *o,
{
    match o {
        Some(s) => Some(s.clone()),
        None => None,
    }
}

/// A copy of an optional readiness strategy.
pub fn copy_opt_strategy(o: &Option<ReadinessStrategy>) -> (r: Option<ReadinessStrategy>)
    ensures
        r == *o,
{
    match o {
        Some(s) => Some(s.duplicate()),
        None => None,
    }
}

/// A copy of a list of strings.
pub fn copy_strings(v: &Vec<String>) -> (r: Vec<String>)
    ensures
        r@ == v@,
{
    let mut r: Vec<String> = Vec::new();
    let mut i: usize = 0;
    while i < v.len()
        invariant
            i <= v.len(),
            r@ == v@.take(i as int),
        decreases v.len() - i,
    {
        r.push(v[i].clone());
        assert(v@.take(i + 1) == v@.take(i as int).push(v@[i as int]));
        i = i + 1;
    }
    assert(v@.take(v@.len() as int) =~= v@);
    r
}

/// The character sequences of a list of strings.
pub open spec fn views(v: Seq<String>) -> Seq<Seq<char>> {
    v.map_values(|s: String| s@)
}

} // verus!
