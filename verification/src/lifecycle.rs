//! The daemon's decisions over a job's life: the job a spawn creates, what
//! an exit does to it, readiness, restart policies and their backoff, and
//! the arguments a restart re-spawns with.

use vstd::prelude::*;
use crate::command::RunArgs;
use crate::job::{valid_transition, Job};
use crate::types::{copy_opt_strategy, copy_opt_string, copy_strings, state_alive, JobState, ReadinessStrategy, RestartPolicy};

verus! {

broadcast use vstd::string::group_string_axioms;

/// `j` is the job a spawn of `args` creates under `id` for the process
/// `pid`: running, with the settings of `args` and every counter at zero.
pub open spec fn spawned_from(j: Job, id: String, args: RunArgs, pid: u32) -> bool {
    &&& j.id == id
    &&& j.cmd@ == args.cmd@
    &&& j.name == args.name
    &&& j.workspace == args.workspace
    &&& j.pid == Some(pid)
    &&& j.state == JobState::Running
    &&& j.ready_at is None
    &&& j.exit_code is None
    &&& j.restart_count == 0
    &&& j.last_diff_cursor == 0
    &&& j.consecutive_failures == 0
    &&& j.readiness == args.readiness
    &&& j.restart == args.restart
    &&& j.pty == args.pty
    &&& j.max_runtime_ms == args.max_runtime_ms
    &&& j.max_rss_mb == args.max_rss_mb
    &&& j.env@ == args.env@
    &&& j.cwd == args.cwd
    &&& j.allocated_port is None
}

/// The job record for a process just spawned from `args`, stamped with the
/// current time.
pub fn spawned_job(id: String, args: &RunArgs, pid: u32) -> (j: Job)
    ensures
        spawned_from(j, id, *args, pid),
{
    let mut job = Job::new(id, copy_strings(&args.cmd), copy_opt_string(&args.name), copy_opt_string(&args.workspace));
    job.pid = Some(pid);
    job.state = JobState::Running;
    job.readiness = copy_opt_strategy(&args.readiness);
    job.restart = args.restart;
    job.pty = args.pty;
    job.max_runtime_ms = args.max_runtime_ms;
    job.max_rss_mb = args.max_rss_mb;
    job.env = args.env.clone();
    job.cwd = copy_opt_string(&args.cwd);
    job
}

/// The counters a restarted job takes over from the job it replaces.
#[derive(Debug, Clone, Copy, PartialEq, Eq, Structural)]
pub struct Carry {
    pub restart_count: u32,
    pub consecutive_failures: u32,
}

/// What a restart of `j` carries over: one more restart (the count stops at
/// `u32::MAX`) and the failure streak, so the backoff keeps growing across
/// restarts until the job runs long enough or becomes ready.
pub open spec fn carry_of(j: Job) -> Carry {
    Carry {
        restart_count: if j.restart_count < u32::MAX {
            (j.restart_count + 1) as u32
        } else {
            j.restart_count
        },
        consecutive_failures: j.consecutive_failures,
    }
}

/// The counters to carry from `job` into its restart (see `carry_of`).
pub fn carry_from(job: &Job) -> (c: Carry)
    ensures
        c == carry_of(*job),
{
    let restart_count: u32 = if job.restart_count < u32::MAX {
        job.restart_count + 1
    } else {
        job.restart_count
    };
    Carry { restart_count, consecutive_failures: job.consecutive_failures }
}

/// `j` is the job a restart re-spawns from `args` under `id` for `pid`: as a
/// fresh spawn, but with the counters carried over in `c`.
pub open spec fn respawned_from(j: Job, id: String, args: RunArgs, pid: u32, c: Carry) -> bool {
    &&& spawned_from(Job { restart_count: 0, consecutive_failures: 0, ..j }, id, args, pid)
    &&& j.restart_count == c.restart_count
    &&& j.consecutive_failures == c.consecutive_failures
}

/// The job record for a process a restart spawned from `args`, with the
/// counters carried over from the job it replaces.
pub fn respawned_job(id: String, args: &RunArgs, pid: u32, c: Carry) -> (j: Job)
    ensures
        respawned_from(j, id, *args, pid, c),
{
    let mut job = spawned_job(id, args, pid);
    job.restart_count = c.restart_count;
    job.consecutive_failures = c.consecutive_failures;
    job
}

/// A restart continues the job's history: the new job counts one more
/// restart and keeps the failure streak, so the delay before its next restart
/// is the doubled one (see `law_backoff_doubles`), and it keeps the restart
/// policy.
pub proof fn law_restart_continues_history(j: Job, a: RunArgs, j2: Job, id: String, pid: u32)
    requires
        restart_args_for(j, a),
        respawned_from(j2, id, a, pid, carry_of(j)),
        j.restart_count < u32::MAX,
    ensures
        j2.restart_count == j.restart_count + 1,
        j2.consecutive_failures == j.consecutive_failures,
        j2.restart == j.restart,
        j2.cmd@ == j.cmd@,
        j2.state == JobState::Running,
{
}

/// `a` are the arguments a restart of job `j` spawns with: the job's own
/// settings, no dependency to wait for, default terminal size, and no port
/// allocation or health check.
pub open spec fn restart_args_for(j: Job, a: RunArgs) -> bool {
    &&& a.cmd@ == j.cmd@
    &&& a.name == j.name
    &&& a.workspace == j.workspace
    &&& a.readiness == j.readiness
    &&& a.restart == j.restart
    &&& a.pty == j.pty
    &&& a.max_runtime_ms == j.max_runtime_ms
    &&& a.max_rss_mb == j.max_rss_mb
    &&& a.env@ == j.env@
    &&& a.after is None
    &&& a.cwd == j.cwd
    &&& a.allocate_port is None
    &&& a.health_check is None
    &&& a.health_interval_secs is None
    &&& a.health_threshold is None
    &&& a.pty_cols is None
    &&& a.pty_rows is None
}

/// The arguments to re-spawn a job with.
pub fn restart_args(job: &Job) -> (a: RunArgs)
    ensures
        restart_args_for(*job, a),
{
    RunArgs {
        cmd: copy_strings(&job.cmd),
        name: copy_opt_string(&job.name),
        workspace: copy_opt_string(&job.workspace),
        readiness: copy_opt_strategy(&job.readiness),
        restart: job.restart,
        pty: job.pty,
        max_runtime_ms: job.max_runtime_ms,
        max_rss_mb: job.max_rss_mb,
        env: job.env.clone(),
        after: None,
        cwd: copy_opt_string(&job.cwd),
        allocate_port: None,
        health_check: None,
        health_interval_secs: None,
        health_threshold: None,
        pty_cols: None,
        pty_rows: None,
    }
}

/// A restart re-spawns a job with the settings it was started with: for a
/// job spawned from `args`, the restart arguments equal `args` in command,
/// name, workspace, readiness, restart policy, terminal mode, limits,
/// environment and working directory.
pub proof fn law_restart_preserves_settings(j: Job, id: String, args: RunArgs, pid: u32, again: RunArgs)
    requires
        spawned_from(j, id, args, pid),
        restart_args_for(j, again),
    ensures
        again.cmd@ == args.cmd@,
        again.name == args.name,
        again.workspace == args.workspace,
        again.readiness == args.readiness,
        again.restart == args.restart,
        again.pty == args.pty,
        again.max_runtime_ms == args.max_runtime_ms,
        again.max_rss_mb == args.max_rss_mb,
        again.env@ == args.env@,
        again.cwd == args.cwd,
{
}

/// The terminal state an exit code leads to: 0 is a clean exit, anything
/// else (or no code) a crash.
pub open spec fn exit_state(code: Option<i32>) -> JobState {
    if code == Some(0i32) {
        JobState::Exited
    } else {
        JobState::Crashed
    }
}

/// The state a job is in after its process exited with `code`: a killed job
/// stays killed; otherwise it moves to the exit's terminal state where the
/// lifecycle allows it.
pub open spec fn state_after_exit(s: JobState, code: Option<i32>) -> JobState {
    if s == JobState::Killed {
        s
    } else if valid_transition(s, exit_state(code)) {
        exit_state(code)
    } else {
        s
    }
}

impl Job {
    /// Records the exit of the job's process: the exit code, a reset of the
    /// failure streak on a clean exit, and the terminal state.
    pub fn record_exit(&mut self, exit_code: Option<i32>)
        ensures
            *final(self) == (Job {
                exit_code: exit_code,
                consecutive_failures: if exit_code == Some(0i32) {
                    0
                } else {
                    old(self).consecutive_failures
                },
                state: state_after_exit(old(self).state, exit_code),
                ..*old(self)
            }),
    {
        let new_state = match exit_code {
            Some(0) => JobState::Exited,
            _ => JobState::Crashed,
        };
        self.exit_code = exit_code;
        if exit_code == Some(0i32) {
            self.consecutive_failures = 0;
        }
        if self.state != JobState::Killed {
            let _ = self.transition(new_state);
        }
    }

    /// The readiness pattern to look for in the log after the process exited
    /// with `exit_code`: only a running job with a log-pattern readiness that
    /// exited cleanly is checked.
    pub fn post_exit_pattern(&self, exit_code: Option<i32>) -> (r: Option<String>)
        ensures
            r is Some <==> (self.state == JobState::Running && exit_code == Some(0i32) && (
            self.readiness matches Some(ReadinessStrategy::LogPattern(_)))),
            r matches Some(p) ==> self.readiness == Some(ReadinessStrategy::LogPattern(p)),
    {
        if self.state != JobState::Running || exit_code != Some(0i32) {
            return None;
        }
        match &self.readiness {
            Some(ReadinessStrategy::LogPattern(p)) => Some(p.clone()),
            _ => None,
        }
    }

    /// After a clean exit whose log shows the readiness pattern, a job still
    /// running passes through Ready at time `now`.
    pub fn ready_after_exit(&mut self, now: i64)
        ensures
            old(self).state == JobState::Running ==> *final(self) == (Job {
                state: JobState::Ready,
                ready_at: Some(now),
                ..*old(self)
            }),
            old(self).state != JobState::Running ==> *final(self) == *old(self),
    {
        if self.state == JobState::Running {
            let _ = self.transition(JobState::Ready);
            self.ready_at = Some(now);
        }
    }

    /// The readiness check fired at time `now`: the job becomes Ready (where
    /// the lifecycle allows it), is stamped, and its failure streak is reset.
    /// Returns whether the transition happened.
    pub fn on_ready_signal(&mut self, now: i64) -> (r: bool)
        ensures
            r == valid_transition(old(self).state, JobState::Ready),
            r ==> *final(self) == (Job {
                state: JobState::Ready,
                ready_at: Some(now),
                consecutive_failures: 0,
                ..*old(self)
            }),
            !r ==> *final(self) == *old(self),
    {
        match self.transition(JobState::Ready) {
            Ok(()) => {
                self.ready_at = Some(now);
                self.consecutive_failures = 0;
                true
            },
            Err(_) => false,
        }
    }

    /// A re-adopted process was found dead: an alive job crashes with exit
    /// code -1; a job already finished is left alone.
    pub fn adopted_process_died(&mut self)
        ensures
            crate::types::state_alive(old(self).state) ==> *final(self) == (Job {
                exit_code: Some(-1i32),
                state: if valid_transition(old(self).state, JobState::Crashed) {
                    JobState::Crashed
                } else {
                    old(self).state
                },
                ..*old(self)
            }),
            !crate::types::state_alive(old(self).state) ==> *final(self) == *old(self),
    {
        if self.is_alive() {
            self.exit_code = Some(-1);
            let _ = self.transition(JobState::Crashed);
        }
    }
}

/// A process that exits while its job runs or is ready leaves the job in a
/// terminal state (Exited for code 0, Crashed otherwise); a killed job stays
/// Killed whatever the code.
pub proof fn law_exit_ends_the_job(s: JobState, code: Option<i32>)
    requires
        s == JobState::Running || s == JobState::Ready || s == JobState::Killed,
    ensures
        crate::types::state_terminal(state_after_exit(s, code)),
        s == JobState::Killed ==> state_after_exit(s, code) == JobState::Killed,
        s != JobState::Killed ==> state_after_exit(s, code) == exit_state(code),
{
}

// ---------------------------------------------------------------------------
// Restart policies and backoff
// ---------------------------------------------------------------------------

/// The base backoff with which the job's restart policy restarts it in its
/// current state, or `None` when the policy leaves it alone:
/// `OnCrash` restarts a crashed job; `OnFailure` also a clean exit that had
/// a readiness check but never became ready; `Always` any exit or crash, but
/// never a kill.
pub open spec fn restart_backoff(j: Job) -> Option<u64> {
    match j.restart {
        Some(RestartPolicy::OnCrash { backoff_ms }) => if j.state == JobState::Crashed {
            Some(backoff_ms)
        } else {
            None
        },
        Some(RestartPolicy::OnFailure { backoff_ms }) => if j.state == JobState::Crashed || (
        j.state == JobState::Exited && j.readiness is Some && j.ready_at is None) {
            Some(backoff_ms)
        } else {
            None
        },
        Some(RestartPolicy::Always { backoff_ms }) => if j.state == JobState::Exited || j.state
            == JobState::Crashed {
            Some(backoff_ms)
        } else {
            None
        },
        _ => None,
    }
}

/// What each restart policy restarts: a job that is still alive, or was
/// killed, is never due; `Always { b }` restarts every other ended job
/// (exited or crashed) after `b`; `OnCrash { b }` exactly the crashed ones;
/// `OnFailure { b }` the crashed ones and those that exited without becoming
/// ready although they had a readiness check; no policy (or `Never`) none.
/// Whenever a restart is due, its base backoff is the policy's.
pub proof fn law_restart_policies(j: Job)
    ensures
        state_alive(j.state) || j.state == JobState::Killed ==> restart_backoff(j) is None,
        j.restart matches Some(RestartPolicy::Always { backoff_ms }) ==> (
            (j.state == JobState::Exited || j.state == JobState::Crashed) ==> restart_backoff(j)
                == Some(backoff_ms)),
        j.restart matches Some(RestartPolicy::OnCrash { backoff_ms }) ==> (restart_backoff(j)
            == if j.state == JobState::Crashed {
            Some(backoff_ms)
        } else {
            None::<u64>
        }),
        j.restart matches Some(RestartPolicy::OnFailure { backoff_ms }) ==> (
            j.state == JobState::Crashed ==> restart_backoff(j) == Some(backoff_ms)) && (
            j.state == JobState::Exited ==> (restart_backoff(j) is Some <==> (j.readiness is Some
                && j.ready_at is None))),
        j.restart is None || j.restart == Some(RestartPolicy::Never) ==> restart_backoff(j) is None,
        restart_backoff(j) matches Some(b) ==> (j.restart matches Some(RestartPolicy::Always {
            backoff_ms,
        }) && b == backoff_ms) || (j.restart matches Some(RestartPolicy::OnCrash { backoff_ms })
            && b == backoff_ms) || (j.restart matches Some(RestartPolicy::OnFailure { backoff_ms })
            && b == backoff_ms),
{
}

/// The base backoff of the job's restart policy if it is due for a restart.
pub fn restart_due(job: &Job) -> (r: Option<u64>)
    ensures
        r == restart_backoff(*job),
{
    match job.restart {
        Some(RestartPolicy::OnCrash { backoff_ms }) => if job.state == JobState::Crashed {
            Some(backoff_ms)
        } else {
            None
        },
        Some(RestartPolicy::OnFailure { backoff_ms }) => if job.state == JobState::Crashed || (
        job.state == JobState::Exited && job.readiness.is_some() && job.ready_at.is_none()) {
            Some(backoff_ms)
        } else {
            None
        },
        Some(RestartPolicy::Always { backoff_ms }) => if job.state == JobState::Exited
            || job.state == JobState::Crashed {
            Some(backoff_ms)
        } else {
            None
        },
        _ => None,
    }
}

/// `2^n`.
pub open spec fn doubling(n: nat) -> nat
    decreases n,
{
    if n == 0 {
        1
    } else {
        2 * doubling((n - 1) as nat)
    }
}

/// The backoff base, floored at one second.
pub open spec fn backoff_floor(b: u64) -> int {
    if b < 1000 {
        1000
    } else {
        b as int
    }
}

/// The delay before the restart that follows `c` consecutive failures:
/// the floored base doubled per failure (at most 256 times), capped at five
/// minutes.
pub open spec fn backoff_delay(b: u64, c: u32) -> int {
    let d = backoff_floor(b) * doubling(if c < 8 { c as nat } else { 8 });
    if d > 300000 {
        300000
    } else {
        d
    }
}

/// The job ran for more than ten seconds before it ended (times in
/// nanoseconds).
pub open spec fn ran_long(started_at: i64, now: i64) -> bool {
    now - started_at > 10_000_000_000
}

/// When to restart a job and the failure streak to record.
#[derive(Debug, Clone, Copy, PartialEq, Eq, Structural)]
pub struct RestartPlan {
    pub delay_ms: u64,
    pub consecutive_failures: u32,
}

proof fn lemma_doubling_small(n: nat)
    requires
        n <= 8,
    ensures
        doubling(n) <= 256,
        n < 8 ==> doubling(n) <= 128,
{
    reveal_with_fuel(doubling, 9);
    if n == 0 {
    } else if n == 1 {
    } else if n == 2 {
    } else if n == 3 {
    } else if n == 4 {
    } else if n == 5 {
    } else if n == 6 {
    } else if n == 7 {
    } else {
    }
}

fn doubled(k: u32) -> (r: u64)
    requires
        k <= 8,
    ensures
        r == doubling(k as nat),
{
    let mut r: u64 = 1;
    let mut i: u32 = 0;
    while i < k
        invariant
            i <= k <= 8,
            r == doubling(i as nat),
        decreases k - i,
    {
        proof {
            lemma_doubling_small(i as nat);
        }
        r = r * 2;
        i = i + 1;
    }
    r
}

/// The restart plan for a job that just ended at time `now` (nanoseconds),
/// with `subsec_nanos` from the clock as jitter source. A job that ran more
/// than ten seconds restarts after the floored base backoff and its failure
/// streak starts over; otherwise the delay grows with the streak, plus up
/// to a second of jitter, and the streak grows by one.
pub fn plan_restart(job: &Job, now: i64, subsec_nanos: u32) -> (r: Option<RestartPlan>)
    requires
        job.consecutive_failures < u32::MAX,
    ensures
        r is Some <==> restart_backoff(*job) is Some,
        r matches Some(p) ==> (restart_backoff(*job) matches Some(b) && if ran_long(
            job.started_at,
            now,
        ) {
            p.delay_ms == backoff_floor(b) && p.consecutive_failures == 0
        } else {
            p.delay_ms == backoff_delay(b, job.consecutive_failures) + subsec_nanos % 1000
                && p.consecutive_failures == job.consecutive_failures + 1
        }),
{
    let b = match restart_due(job) {
        Some(b) => b,
        None => {
            return None;
        },
    };
    let base: u64 = if b < 1000 { 1000 } else { b };
    let elapsed: i128 = (now as i128) - (job.started_at as i128);
    if elapsed > 10_000_000_000i128 {
        return Some(RestartPlan { delay_ms: base, consecutive_failures: 0 });
    }
    let c = job.consecutive_failures;
    let e = doubled(if c < 8 { c } else { 8 });
    let scaled: u64 = match base.checked_mul(e) {
        Some(v) => v,
        None => u64::MAX,
    };
    let delay: u64 = if scaled > 300000 { 300000 } else { scaled };
    let jitter: u64 = (subsec_nanos % 1000) as u64;
    Some(RestartPlan { delay_ms: delay + jitter, consecutive_failures: c + 1 })
}

proof fn lemma_doubling_positive(n: nat)
    ensures
        doubling(n) >= 1,
    decreases n,
{
    if n > 0 {
        lemma_doubling_positive((n - 1) as nat);
    }
}

/// The restart delay stays between one second and five minutes, whatever
/// the base backoff and the failure streak.
pub proof fn law_backoff_bounded(b: u64, c: u32)
    ensures
        1000 <= backoff_delay(b, c) <= 300000,
{
    let k: nat = if c < 8 { c as nat } else { 8 };
    lemma_doubling_positive(k);
    assert(backoff_floor(b) * doubling(k) >= backoff_floor(b)) by (nonlinear_arith)
        requires
            doubling(k) >= 1,
            backoff_floor(b) >= 1000,
    ;
}

/// Each further consecutive failure doubles the restart delay until the
/// five-minute cap (or the 256-fold limit) is reached; past eight failures
/// it no longer grows.
pub proof fn law_backoff_doubles(b: u64, c: u32)
    requires
        c < u32::MAX,
    ensures
        c < 8 ==> backoff_delay(b, (c + 1) as u32) == (if 2 * backoff_delay(b, c) > 300000 {
            300000
        } else {
            2 * backoff_delay(b, c)
        }),
        c >= 8 ==> backoff_delay(b, (c + 1) as u32) == backoff_delay(b, c),
{
    if c < 8 {
        let k = c as nat;
        assert(doubling(k + 1) == 2 * doubling(k));
        let f = backoff_floor(b);
        assert(f * doubling(k + 1) == 2 * (f * doubling(k))) by (nonlinear_arith)
            requires
                doubling(k + 1) == 2 * doubling(k),
        ;
    }
}

} // verus!
