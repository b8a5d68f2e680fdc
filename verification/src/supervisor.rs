//! The daemon's decisions over the job registry: when a spawn returns an
//! existing job or waits for a dependency, which job a kill, a stats query or
//! a stdin write targets, which jobs a shutdown or a clean covers, memory
//! limits and the re-adoption of jobs after a daemon restart.

use vstd::prelude::*;
use crate::command::RunArgs;
use crate::job::{record_of, valid_transition, Job};
use crate::job_store::{named, select_workspace, opt_str_view, JobStore};
use crate::lifecycle::{carry_from, carry_of, restart_args, restart_args_for, restart_backoff, restart_due, Carry};
use crate::response::JobRecord;
use crate::text::{append_str, owned, str_eq};
use crate::types::{state_alive, state_terminal, JobState};

verus! {

broadcast use vstd::string::group_string_axioms;

/// `prefix`, then `x`, then `suffix`.
fn framed(prefix: &str, x: &str, suffix: &str) -> (r: String)
    ensures
        r@ == prefix@ + x@ + suffix@,
{
    let mut s = owned(prefix);
    append_str(&mut s, x);
    append_str(&mut s, suffix);
    s
}

/// A job with this name is registered and alive.
pub open spec fn name_alive(s: JobStore, name: Option<String>) -> bool {
    name matches Some(n) && (named(s, n@) matches Some(j) && state_alive(j.state))
}

/// How a spawn request starts.
#[derive(Debug)]
pub enum SpawnStart {
    /// A job of that name is alive: the spawn returns its record.
    Existing(JobRecord),
    /// Wait for the named dependency first.
    AwaitDependency(String),
    /// Launch the process now.
    Launch,
}

/// Decides how a spawn of `args` starts: named spawns are idempotent while
/// the named job lives; otherwise a dependency is waited for, if any.
pub fn spawn_start(store: &JobStore, args: &RunArgs) -> (r: SpawnStart)
    requires
        store.wf(),
    ensures
        name_alive(*store, args.name) ==> (r matches SpawnStart::Existing(rec) && (args.name matches Some(
            n,
        ) && (named(*store, n@) matches Some(j) && record_of(j, rec)))),
        !name_alive(*store, args.name) ==> (args.after matches Some(d) ==> (
        r matches SpawnStart::AwaitDependency(x) && x == d)),
        !name_alive(*store, args.name) && args.after is None ==> r is Launch,
{
    if let Some(name) = &args.name {
        if let Some(existing) = store.find_by_name(name.as_str()) {
            if existing.is_alive() {
                return SpawnStart::Existing(existing.to_record());
            }
        }
    }
    match &args.after {
        Some(d) => SpawnStart::AwaitDependency(d.clone()),
        None => SpawnStart::Launch,
    }
}

/// A spawn needs a command to run.
pub fn launch_check(cmd: &Vec<String>) -> (r: Result<(), String>)
    ensures
        r is Ok <==> cmd.len() > 0,
        r matches Err(m) ==> m@ == "command must not be empty"@,
{
    if cmd.len() == 0 {
        Err(owned("command must not be empty"))
    } else {
        Ok(())
    }
}

/// One step of waiting for a dependency.
#[derive(Debug)]
pub enum DependencyStep {
    /// The dependency is ready or finished: go on.
    Proceed,
    /// Look again shortly.
    Wait,
    /// Give up with this message.
    Fail(String),
}

/// How long a spawn waits for its dependency, in milliseconds.
pub open spec fn dependency_timeout_ms() -> u64 {
    120000
}

/// The next step of waiting `elapsed_ms` for the job named `dep`: time out
/// after two minutes, fail if no such job exists, go on once it is ready or
/// has finished (exited, crashed or killed), and wait otherwise.
pub fn dependency_step(store: &JobStore, dep: &str, elapsed_ms: u64) -> (r: DependencyStep)
    requires
        store.wf(),
    ensures
        elapsed_ms >= dependency_timeout_ms() ==> (r matches DependencyStep::Fail(m) && m@
            == "dependency '"@ + dep@ + "' did not become ready within 120s"@),
        elapsed_ms < dependency_timeout_ms() ==> match named(*store, dep@) {
            None => r matches DependencyStep::Fail(m) && m@ == "dependency '"@ + dep@
                + "' not found"@,
            Some(j) => if j.state == JobState::Ready || state_terminal(j.state) {
                r is Proceed
            } else {
                r is Wait
            },
        },
{
    if elapsed_ms >= 120000 {
        return DependencyStep::Fail(framed("dependency '", dep, "' did not become ready within 120s"));
    }
    match store.find_by_name(dep) {
        Some(job) => {
            if job.state == JobState::Ready || job.state.is_terminal() {
                DependencyStep::Proceed
            } else {
                DependencyStep::Wait
            }
        },
        None => DependencyStep::Fail(framed("dependency '", dep, "' not found")),
    }
}

/// The arguments to re-spawn the job `id` with when its scheduled restart
/// fires, with the counters the new job carries over: only while the job is
/// still in a state its policy restarts and no job of the same name is alive
/// (a kill in the meantime stands).
pub fn restart_candidate(store: &JobStore, id: &str) -> (r: Option<(RunArgs, Carry)>)
    requires
        store.wf(),
    ensures
        r is Some <==> (store.jobs().contains_key(id@) && restart_backoff(store.jobs()[id@]) is Some
            && !name_alive(*store, store.jobs()[id@].name)),
        r matches Some((a, c)) ==> restart_args_for(store.jobs()[id@], a) && c == carry_of(
            store.jobs()[id@],
        ),
{
    let job = match store.get(id) {
        Some(j) => j,
        None => {
            return None;
        },
    };
    if restart_due(job).is_none() {
        return None;
    }
    if let Some(name) = &job.name {
        if let Some(existing) = store.find_by_name(name.as_str()) {
            if existing.is_alive() {
                return None;
            }
        }
    }
    Some((restart_args(job), carry_from(job)))
}

/// The job a transition leaves: moved to `to` where the lifecycle allows
/// it, unchanged otherwise.
pub open spec fn after_transition(j: Job, to: JobState) -> Job {
    if valid_transition(j.state, to) {
        Job { state: to, ..j }
    } else {
        j
    }
}

/// The terminal size a job's PTY opens with: the requested columns and rows,
/// 80 columns and 24 rows by default.
pub fn pty_size(cols: Option<u16>, rows: Option<u16>) -> (r: (u16, u16))
    ensures
        r == (
            match cols {
                Some(c) => c,
                None => 80u16,
            },
            match rows {
                Some(n) => n,
                None => 24u16,
            },
        ),
{
    let c: u16 = match cols {
        Some(c) => c,
        None => 80,
    };
    let n: u16 = match rows {
        Some(n) => n,
        None => 24,
    };
    (c, n)
}

/// How long a killed job's process group has to exit after SIGTERM before
/// it gets SIGKILL, in milliseconds.
pub open spec fn kill_grace_ms() -> u64 {
    5000
}

/// One look at a process group that was sent SIGTERM.
#[derive(Debug, Clone, Copy, PartialEq, Eq, Structural)]
pub enum KillStep {
    /// The group has exited: nothing more to do.
    Done,
    /// Still running within the grace period: look again shortly.
    Wait,
    /// Still running after the grace period: send SIGKILL.
    Escalate,
}

/// The next step `elapsed_ms` after SIGTERM, given whether the job's process
/// group still runs: SIGKILL follows after five seconds if it has not exited.
pub fn kill_step(elapsed_ms: u64, group_running: bool) -> (r: KillStep)
    ensures
        r == (if !group_running {
            KillStep::Done
        } else if elapsed_ms >= kill_grace_ms() {
            KillStep::Escalate
        } else {
            KillStep::Wait
        }),
{
    if !group_running {
        KillStep::Done
    } else if elapsed_ms >= 5000 {
        KillStep::Escalate
    } else {
        KillStep::Wait
    }
}

/// The process a kill request for `q` signals: the resolved job and its pid.
/// Fails when the job is unknown, has no pid or is already terminal.
pub fn kill_target(store: &JobStore, q: &str) -> (r: Result<(String, u32), String>)
    requires
        store.wf(),
    ensures
        match store.resolution(q@) {
            None => r matches Err(m) && m@ == "job not found"@,
            Some(id) => {
                let j = store.jobs()[id];
                if j.pid is None {
                    r matches Err(m) && m@ == "job has no pid"@
                } else if !state_alive(j.state) {
                    r matches Err(m) && m@ == "cannot kill job: it is already in a terminal state"@
                } else {
                    r matches Ok((rid, pid)) && rid@ == id && j.pid == Some(pid)
                }
            },
        },
{
    let id = match store.resolve_id(q) {
        Some(id) => id,
        None => {
            return Err(owned("job not found"));
        },
    };
    let job = match store.get(id.as_str()) {
        Some(j) => j,
        None => {
            return Err(owned("job not found"));
        },
    };
    let pid = match job.pid {
        Some(p) => p,
        None => {
            return Err(owned("job has no pid"));
        },
    };
    if !job.is_alive() {
        return Err(owned("cannot kill job: it is already in a terminal state"));
    }
    Ok((id, pid))
}

/// Records that the job `id` was signalled: it moves to Killed where the
/// lifecycle allows it. Returns whether the job is registered.
pub fn mark_killed(store: &mut JobStore, id: &str) -> (r: bool)
    requires
        old(store).wf(),
    ensures
        final(store).wf(),
        final(store).names() == old(store).names(),
        r == old(store).jobs().contains_key(id@),
        r ==> final(store).jobs() == old(store).jobs().insert(
            id@,
            after_transition(old(store).jobs()[id@], JobState::Killed),
        ),
        !r ==> final(store).jobs() == old(store).jobs(),
{
    match store.get_mut(id) {
        Some(job) => {
            let _ = job.transition(JobState::Killed);
            true
        },
        None => false,
    }
}

/// The alive jobs among `s` that have a pid, as (id, pid), in order.
pub open spec fn alive_pids_of(s: Seq<Job>) -> Seq<(Seq<char>, u32)>
    decreases s.len(),
{
    if s.len() == 0 {
        seq![]
    } else {
        let j = s.last();
        let prev = alive_pids_of(s.drop_last());
        if state_alive(j.state) && j.pid is Some {
            prev.push((j.id@, j.pid->0))
        } else {
            prev
        }
    }
}

/// The processes a daemon shutdown signals: every alive job with a pid.
pub fn alive_pids(store: &JobStore) -> (r: Vec<(String, u32)>)
    requires
        store.wf(),
    ensures
        r@.map_values(|p: (String, u32)| (p.0@, p.1)) == alive_pids_of(
            select_workspace(store.job_seq(), None),
        ),
{
    let jobs = store.list_workspace(None);
    let ghost s = jobs@.map_values(|j: &Job| *j);
    let mut out: Vec<(String, u32)> = Vec::new();
    let mut i: usize = 0;
    while i < jobs.len()
        invariant
            i <= jobs.len(),
            s == jobs@.map_values(|j: &Job| *j),
            out@.map_values(|p: (String, u32)| (p.0@, p.1)) == alive_pids_of(s.take(i as int)),
        decreases jobs.len() - i,
    {
        let j = jobs[i];
        assert(s.take(i + 1).drop_last() =~= s.take(i as int));
        assert(s.take(i + 1).last() == *j);
        if j.is_alive() {
            if let Some(p) = j.pid {
                let ghost before = out@.map_values(|p: (String, u32)| (p.0@, p.1));
                out.push((j.id.clone(), p));
                assert(out@.map_values(|p: (String, u32)| (p.0@, p.1)) =~= before.push((j.id@, p)));
            }
        }
        i = i + 1;
    }
    assert(s.take(jobs.len() as int) =~= s);
    out
}

/// The ids of the jobs among `s` that are alive (or, with `alive` false,
/// that are finished), in order.
pub open spec fn ids_by_life(s: Seq<Job>, alive: bool) -> Seq<Seq<char>>
    decreases s.len(),
{
    if s.len() == 0 {
        seq![]
    } else {
        let prev = ids_by_life(s.drop_last(), alive);
        if state_alive(s.last().state) == alive {
            prev.push(s.last().id@)
        } else {
            prev
        }
    }
}

/// Job `i` of `s` has the id `id` and is alive exactly when `alive` is.
pub open spec fn job_with_id_at(s: Seq<Job>, i: int, id: Seq<char>, alive: bool) -> bool {
    0 <= i < s.len() && s[i].id@ == id && (alive <==> !(s[i].state == JobState::Exited
        || s[i].state == JobState::Crashed || s[i].state == JobState::Killed))
}

/// Some job of `s` has the id `id` and is alive exactly when `alive` is.
pub open spec fn has_job_with_id(s: Seq<Job>, id: Seq<char>, alive: bool) -> bool {
    exists|i: int| #[trigger] job_with_id_at(s, i, id, alive)
}

/// What a workspace kill signals and a clean removes: with `alive` true the
/// ids of every starting, running or ready job, with `alive` false those of
/// every exited, crashed or killed job, and no other id; never more ids than
/// jobs.
pub proof fn law_ids_by_life(s: Seq<Job>, alive: bool)
    ensures
        forall|i: int|
            0 <= i < s.len() && (if alive {
                s[i].state == JobState::Starting || s[i].state == JobState::Running || s[i].state
                    == JobState::Ready
            } else {
                s[i].state == JobState::Exited || s[i].state == JobState::Crashed || s[i].state
                    == JobState::Killed
            }) ==> #[trigger] ids_by_life(s, alive).contains(s[i].id@),
        forall|k: int|
            0 <= k < ids_by_life(s, alive).len() ==> has_job_with_id(s, #[trigger] ids_by_life(s, alive)[k], alive),
        ids_by_life(s, alive).len() <= s.len(),
    decreases s.len(),
{
    if s.len() > 0 {
        let p = s.drop_last();
        law_ids_by_life(p, alive);
        let r = ids_by_life(s, alive);
        let rp = ids_by_life(p, alive);
        assert forall|i: int|
            0 <= i < s.len() && (if alive {
                s[i].state == JobState::Starting || s[i].state == JobState::Running || s[i].state
                    == JobState::Ready
            } else {
                s[i].state == JobState::Exited || s[i].state == JobState::Crashed || s[i].state
                    == JobState::Killed
            }) implies #[trigger] r.contains(s[i].id@) by {
            if i < s.len() - 1 {
                assert(p[i] == s[i]);
                assert(rp.contains(p[i].id@));
                let w = choose|w: int| 0 <= w < rp.len() && rp[w] == p[i].id@;
                assert(r[w] == rp[w]);
            } else {
                assert(r[r.len() - 1] == s[i].id@);
            }
        }
        assert forall|k: int| 0 <= k < r.len() implies has_job_with_id(s, #[trigger] r[k], alive) by {
            if k < rp.len() {
                assert(r[k] == rp[k]);
                assert(has_job_with_id(p, rp[k], alive));
                let i = choose|i: int| job_with_id_at(p, i, rp[k], alive);
                assert(s[i] == p[i]);
                assert(job_with_id_at(s, i, r[k], alive));
            } else {
                assert(job_with_id_at(s, s.len() - 1, r[k], alive));
            }
        }
    }
}

/// The ids of the jobs of a workspace (all jobs without one) that are alive
/// or, with `alive` false, finished: what a workspace kill signals and what a
/// clean removes.
pub fn job_ids_where(store: &JobStore, workspace: Option<&str>, alive: bool) -> (r: Vec<String>)
    requires
        store.wf(),
    ensures
        r@.map_values(|s: String| s@) == ids_by_life(
            select_workspace(store.job_seq(), opt_str_view(workspace)),
            alive,
        ),
{
    let jobs = store.list_workspace(workspace);
    let ghost s = jobs@.map_values(|j: &Job| *j);
    let mut out: Vec<String> = Vec::new();
    let mut i: usize = 0;
    while i < jobs.len()
        invariant
            i <= jobs.len(),
            s == jobs@.map_values(|j: &Job| *j),
            out@.map_values(|s: String| s@) == ids_by_life(s.take(i as int), alive),
        decreases jobs.len() - i,
    {
        let j = jobs[i];
        assert(s.take(i + 1).drop_last() =~= s.take(i as int));
        assert(s.take(i + 1).last() == *j);
        if j.is_alive() == alive {
            let ghost before = out@.map_values(|s: String| s@);
            out.push(j.id.clone());
            assert(out@.map_values(|s: String| s@) =~= before.push(j.id@));
        }
        i = i + 1;
    }
    assert(s.take(jobs.len() as int) =~= s);
    out
}

/// The error entry for a job a workspace kill failed on: `<id>: <error>`.
pub fn kill_error_entry(id: &str, err: &str) -> (r: String)
    ensures
        r@ == id@ + ": "@ + err@,
{
    let mut s = owned(id);
    append_str(&mut s, ": ");
    append_str(&mut s, err);
    s
}

/// The answer to a request over several jobs (a workspace kill, a group
/// run): what was done when every part worked, otherwise the failures
/// joined with "; ".
pub fn batch_outcome<T>(done: Vec<T>, errors: &Vec<String>) -> (r: Result<Vec<T>, String>)
    ensures
        errors.len() == 0 ==> r == Ok::<Vec<T>, String>(done),
        errors.len() > 0 ==> (r matches Err(m) && m@ == crate::output::join_seq(
            errors@.map_values(|e: String| e@),
            "; "@,
        )),
{
    if errors.len() == 0 {
        Ok(done)
    } else {
        Err(crate::output::join(errors, "; "))
    }
}

/// The process whose resources a stats request for `q` reports.
pub fn stats_pid(store: &JobStore, q: &str) -> (r: Result<u32, String>)
    requires
        store.wf(),
    ensures
        match store.resolution(q@) {
            None => r matches Err(m) && m@ == "job not found"@,
            Some(id) => match store.jobs()[id].pid {
                Some(p) => r == Ok::<u32, String>(p),
                None => r matches Err(m) && m@ == "job has no pid"@,
            },
        },
{
    let id = match store.resolve_id(q) {
        Some(id) => id,
        None => {
            return Err(owned("job not found"));
        },
    };
    match store.get(id.as_str()) {
        Some(job) => match job.pid {
            Some(p) => Ok(p),
            None => Err(owned("job has no pid")),
        },
        None => Err(owned("job not found")),
    }
}

/// Whole mebibytes in a byte count.
pub fn mebibytes(bytes: u64) -> (r: u64)
    ensures
        r == bytes / 1048576u64,
{
    bytes / (1024 * 1024)
}

/// Whole kibibytes in a byte count.
pub fn kibibytes(bytes: u64) -> (r: u64)
    ensures
        r == bytes / 1024,
{
    bytes / 1024
}

/// What the memory watchdog of a job does after one look.
#[derive(Debug, Clone, Copy, PartialEq, Eq, Structural)]
pub enum MemoryAction {
    /// Stop watching: the job is gone, finished or has no pid.
    Stop,
    /// Kill the job (it is over its limit), then stop.
    Kill,
    /// Look again later.
    Continue,
}

/// The watchdog's decision for a job seen as `job` (its pid and liveness;
/// `None` when no longer registered) using `rss_kb` kibibytes (`None` when
/// the process could not be read), against a limit of `max_rss_mb`.
pub fn memory_action(job: Option<(Option<u32>, bool)>, rss_kb: Option<u64>, max_rss_mb: u64) -> (r:
    MemoryAction)
    ensures
        r == (match job {
            Some((Some(_), true)) => match rss_kb {
                Some(kb) => if kb / 1024 > max_rss_mb {
                    MemoryAction::Kill
                } else {
                    MemoryAction::Continue
                },
                None => MemoryAction::Continue,
            },
            _ => MemoryAction::Stop,
        }),
{
    match job {
        Some((Some(_), true)) => match rss_kb {
            Some(kb) => if kb / 1024 > max_rss_mb {
                MemoryAction::Kill
            } else {
                MemoryAction::Continue
            },
            None => MemoryAction::Continue,
        },
        _ => MemoryAction::Stop,
    }
}

/// Whether a list of strings holds `x`.
pub fn holds(v: &Vec<String>, x: &str) -> (r: bool)
    ensures
        r == v@.map_values(|s: String| s@).contains(x@),
{
    let ghost vs = v@.map_values(|s: String| s@);
    let mut i: usize = 0;
    while i < v.len()
        invariant
            i <= v.len(),
            vs == v@.map_values(|s: String| s@),
            forall|k: int| 0 <= k < i ==> vs[k] != x@,
        decreases v.len() - i,
    {
        if str_eq(v[i].as_str(), x) {
            assert(vs[i as int] == x@);
            return true;
        }
        i = i + 1;
    }
    false
}

/// The job a stdin write for `q` goes to, given the ids that currently have
/// a stdin handle: `q` itself when it has one, else the job it resolves to
/// when that job has one.
pub fn stdin_target(store: &JobStore, q: &str, handles: &Vec<String>) -> (r: Result<String, String>)
    requires
        store.wf(),
    ensures
        ({
            let hs = handles@.map_values(|s: String| s@);
            if hs.contains(q@) {
                r matches Ok(id) && id@ == q@
            } else {
                match store.resolution(q@) {
                    None => r matches Err(m) && m@ == "job '"@ + q@ + "' not found"@,
                    Some(id) => if hs.contains(id) {
                        r matches Ok(x) && x@ == id
                    } else {
                        r matches Err(m) && m@ == "stdin handle for job '"@ + q@
                            + "' is no longer available (process may have exited)"@
                    },
                }
            }
        }),
{
    if holds(handles, q) {
        return Ok(owned(q));
    }
    let id = match store.resolve_id(q) {
        Some(id) => id,
        None => {
            return Err(framed("job '", q, "' not found"));
        },
    };
    if holds(handles, id.as_str()) {
        Ok(id)
    } else {
        Err(framed("stdin handle for job '", q, "' is no longer available (process may have exited)"))
    }
}

/// The pid to check when re-adopting a persisted job after a daemon
/// restart: only running or ready jobs with a pid are candidates.
pub fn readopt_pid(job: &Job) -> (r: Option<u32>)
    ensures
        r == (if job.state == JobState::Running || job.state == JobState::Ready {
            job.pid
        } else {
            None
        }),
{
    if job.state == JobState::Running || job.state == JobState::Ready {
        job.pid
    } else {
        None
    }
}

impl Job {
    /// A persisted job whose process did not survive the daemon restart is
    /// recorded as crashed.
    pub fn mark_dead_on_restart(&mut self)
        ensures
            *final(self) == (Job { state: JobState::Crashed, ..*old(self) }),
    {
        self.state = JobState::Crashed;
    }
}

/// The id of the job holding the process `pid` (the first such in listing
/// order), or the empty string.
pub fn id_for_pid(store: &JobStore, pid: u32) -> (r: String)
    requires
        store.wf(),
    ensures
        ({
            let s = select_workspace(store.job_seq(), None);
            ||| exists|i: int|
                #![trigger s[i]]
                0 <= i < s.len() && s[i].pid == Some(pid) && (forall|k: int|
                    0 <= k < i ==> s[k].pid != Some(pid)) && r@ == s[i].id@
            ||| (forall|i: int| 0 <= i < s.len() ==> s[i].pid != Some(pid)) && r@ == Seq::<
                char,
            >::empty()
        }),
{
    let jobs = store.list_workspace(None);
    let ghost s = jobs@.map_values(|j: &Job| *j);
    let mut i: usize = 0;
    while i < jobs.len()
        invariant
            i <= jobs.len(),
            s == jobs@.map_values(|j: &Job| *j),
            s == select_workspace(store.job_seq(), None),
            forall|k: int| 0 <= k < i ==> s[k].pid != Some(pid),
        decreases jobs.len() - i,
    {
        let j = jobs[i];
        assert(s[i as int] == *j);
        if j.pid == Some(pid) {
            let r = j.id.clone();
            assert(s.len() == jobs@.len());
            assert(0 <= i < s.len() && s[i as int].pid == Some(pid) && (forall|k: int|
                0 <= k < i ==> s[k].pid != Some(pid)) && r@ == s[i as int].id@);
            assert(s == select_workspace(store.job_seq(), None));
            assert(exists|x: int|
                #![trigger s[x]]
                0 <= x < s.len() && s[x].pid == Some(pid) && (forall|k: int|
                    0 <= k < x ==> s[k].pid != Some(pid)) && r@ == s[x].id@);
            return r;
        }
        i = i + 1;
    }
    assert(s.len() == jobs@.len());
    proof {
        reveal_strlit("");
    }
    owned("")
}

/// The idle time after which a daemon without alive jobs shuts itself
/// down, in seconds: the configured value when it is a number, else 60.
pub fn idle_timeout_secs(configured: Option<&str>) -> (r: u64)
    ensures
        r == (match configured {
            Some(v) => match crate::text::parse_u64_seq(v@) {
                Some(n) => n,
                None => 60u64,
            },
            None => 60u64,
        }),
{
    match configured {
        Some(v) => match crate::text::parse_u64(v) {
            Some(n) => n,
            None => 60,
        },
        None => 60,
    }
}

/// The number of alive jobs among `s`.
pub open spec fn alive_count(s: Seq<Job>) -> nat
    decreases s.len(),
{
    if s.len() == 0 {
        0
    } else {
        alive_count(s.drop_last()) + if state_alive(s.last().state) { 1nat } else { 0nat }
    }
}

/// How many jobs are alive; the daemon shuts down only when none is.
pub fn active_job_count(store: &JobStore) -> (r: usize)
    requires
        store.wf(),
    ensures
        r == alive_count(select_workspace(store.job_seq(), None)),
{
    let jobs = store.list_workspace(None);
    let ghost s = jobs@.map_values(|j: &Job| *j);
    let mut n: usize = 0;
    let mut i: usize = 0;
    while i < jobs.len()
        invariant
            i <= jobs.len(),
            s == jobs@.map_values(|j: &Job| *j),
            n == alive_count(s.take(i as int)),
            n <= i,
        decreases jobs.len() - i,
    {
        assert(s.take(i + 1).drop_last() =~= s.take(i as int));
        assert(s.take(i + 1).last() == *jobs[i as int]);
        if jobs[i].is_alive() {
            n = n + 1;
        }
        i = i + 1;
    }
    assert(s.take(jobs.len() as int) =~= s);
    n
}


// ---------------------------------------------------------------------------
// Run-group order
// ---------------------------------------------------------------------------

/// Member `m` of the group is named `d`.
pub open spec fn names_member(jobs: Seq<RunArgs>, d: Seq<char>, m: int) -> bool {
    0 <= m < jobs.len() && (jobs[m].name matches Some(n) && n@ == d)
}

/// Member `i` may start once the members in `placed` have been started: it
/// waits for nothing, or for a name no member of the group has, or some
/// member of that name is among `placed`.
pub open spec fn dep_placed(jobs: Seq<RunArgs>, placed: Seq<usize>, i: int) -> bool {
    match jobs[i].after {
        None => true,
        Some(d) => (forall|m: int| !#[trigger] names_member(jobs, d@, m)) || exists|p: int|
            0 <= p < placed.len() && #[trigger] names_member(jobs, d@, placed[p] as int),
    }
}

/// The first `k` members of the order `r` each find their dependency among
/// those placed before them; each later member waits for a member that is
/// not among the first `k`.
pub open spec fn ordered_from(jobs: Seq<RunArgs>, r: Seq<usize>, k: int) -> bool {
    &&& forall|q: int| 0 <= q < k ==> dep_placed(jobs, r.take(q), #[trigger] r[q] as int)
    &&& forall|q: int| k <= q < r.len() ==> !dep_placed(jobs, r.take(k), #[trigger] r[q] as int)
}

/// `r` lists each member index of a group of `n` exactly once.
pub open spec fn is_order(r: Seq<usize>, n: nat) -> bool {
    &&& r.len() == n
    &&& forall|q: int| 0 <= q < r.len() ==> #[trigger] r[q] < n
    &&& forall|p: int, q: int| 0 <= p < q < r.len() ==> #[trigger] r[p] != #[trigger] r[q]
}

fn member_named(jobs: &Vec<RunArgs>, d: &str) -> (r: bool)
    ensures
        r == exists|m: int| #[trigger] names_member(jobs@, d@, m),
{
    let mut i: usize = 0;
    while i < jobs.len()
        invariant
            i <= jobs.len(),
            forall|m: int| 0 <= m < i ==> !#[trigger] names_member(jobs@, d@, m),
        decreases jobs.len() - i,
    {
        if let Some(n) = &jobs[i].name {
            if str_eq(n.as_str(), d) {
                assert(names_member(jobs@, d@, i as int));
                return true;
            }
        }
        i = i + 1;
    }
    false
}

fn placed_named(jobs: &Vec<RunArgs>, placed: &Vec<usize>, d: &str) -> (r: bool)
    requires
        forall|q: int| 0 <= q < placed.len() ==> #[trigger] placed@[q] < jobs.len(),
    ensures
        r == exists|p: int| 0 <= p < placed.len() && #[trigger] names_member(jobs@, d@, placed@[p] as int),
{
    let mut p: usize = 0;
    while p < placed.len()
        invariant
            p <= placed.len(),
            forall|q: int| 0 <= q < placed.len() ==> #[trigger] placed@[q] < jobs.len(),
            forall|k: int| 0 <= k < p ==> !#[trigger] names_member(jobs@, d@, placed@[k] as int),
        decreases placed.len() - p,
    {
        let m = placed[p];
        if let Some(n) = &jobs[m].name {
            if str_eq(n.as_str(), d) {
                assert(names_member(jobs@, d@, placed@[p as int] as int));
                return true;
            }
        }
        p = p + 1;
    }
    false
}

fn may_start(jobs: &Vec<RunArgs>, placed: &Vec<usize>, i: usize) -> (r: bool)
    requires
        i < jobs.len(),
        forall|q: int| 0 <= q < placed.len() ==> #[trigger] placed@[q] < jobs.len(),
    ensures
        r == dep_placed(jobs@, placed@, i as int),
{
    match &jobs[i].after {
        None => true,
        Some(d) => !member_named(jobs, d.as_str()) || placed_named(jobs, placed, d.as_str()),
    }
}

/// The order in which a run-group starts its members: a member waiting for
/// another member of the group comes after it. Members are taken in list
/// order, each as soon as the member it waits for is placed; when no
/// remaining member can be placed (their dependencies wait on each other),
/// the rest follow in list order. So the first `k` members of the order
/// each find their dependency already placed, and the others are exactly
/// those whose dependency is a member that is not among the first `k`.
pub fn group_order(jobs: &Vec<RunArgs>) -> (r: Vec<usize>)
    ensures
        is_order(r@, jobs.len() as nat),
        exists|k: int| 0 <= k <= r.len() && #[trigger] ordered_from(jobs@, r@, k),
{
    let n = jobs.len();
    let mut placed: Vec<bool> = Vec::new();
    let mut j: usize = 0;
    while j < n
        invariant
            j <= n,
            n == jobs.len(),
            placed.len() == j,
            forall|x: int| 0 <= x < j ==> !#[trigger] placed@[x],
        decreases n - j,
    {
        placed.push(false);
        j = j + 1;
    }
    let mut order: Vec<usize> = Vec::new();
    let mut progress = true;
    while progress
        invariant
            n == jobs.len(),
            placed.len() == n,
            order.len() <= n,
            forall|q: int| 0 <= q < order.len() ==> #[trigger] order@[q] < n,
            forall|p: int, q: int| 0 <= p < q < order.len() ==> #[trigger] order@[p] != #[trigger] order@[q],
            forall|x: int| 0 <= x < n ==> (#[trigger] placed@[x] <==> order@.contains(x as usize)),
            forall|q: int| 0 <= q < order.len() ==> dep_placed(jobs@, order@.take(q), #[trigger] order@[q] as int),
            !progress ==> forall|x: int| 0 <= x < n && !#[trigger] placed@[x] ==> !dep_placed(jobs@, order@, x),
        decreases n - order.len(), if progress { 1int } else { 0int },
    {
        progress = false;
        let ghost start_len = order.len();
        let mut i: usize = 0;
        while i < n
            invariant
                n == jobs.len(),
                placed.len() == n,
                i <= n,
                start_len <= order.len() <= n,
                forall|q: int| 0 <= q < order.len() ==> #[trigger] order@[q] < n,
                forall|p: int, q: int| 0 <= p < q < order.len() ==> #[trigger] order@[p] != #[trigger] order@[q],
                forall|x: int| 0 <= x < n ==> (#[trigger] placed@[x] <==> order@.contains(x as usize)),
                forall|q: int| 0 <= q < order.len() ==> dep_placed(jobs@, order@.take(q), #[trigger] order@[q] as int),
                progress <==> order.len() > start_len,
                !progress ==> forall|x: int| 0 <= x < i && !#[trigger] placed@[x] ==> !dep_placed(jobs@, order@, x),
            decreases n - i,
        {
            if !placed[i] && may_start(jobs, &order, i) {
                proof {
                    if order.len() == n {
                        // every index is already placed
                        lemma_full_order_covers(order@, n as nat, i);
                    }
                }
                let ghost before = order@;
                order.push(i);
                placed.set(i, true);
                assert(order@.take(before.len() as int) =~= before);
                assert forall|x: int| 0 <= x < n implies (#[trigger] placed@[x] <==> order@.contains(x as usize)) by {
                    if x == i as int {
                        assert(order@[before.len() as int] == i);
                    } else {
                        if before.contains(x as usize) {
                            let w = choose|w: int| 0 <= w < before.len() && before[w] == x as usize;
                            assert(order@[w] == x as usize);
                        }
                        if order@.contains(x as usize) {
                            let w = choose|w: int| 0 <= w < order@.len() && order@[w] == x as usize;
                            assert(w < before.len());
                            assert(before[w] == x as usize);
                        }
                    }
                }
                assert forall|q: int| 0 <= q < order.len() implies dep_placed(jobs@, order@.take(q), #[trigger] order@[q] as int) by {
                    if q < before.len() {
                        assert(order@.take(q) =~= before.take(q));
                    } else {
                        assert(order@.take(q) =~= before);
                    }
                }
                assert forall|p: int, q: int| 0 <= p < q < order.len() implies #[trigger] order@[p] != #[trigger] order@[q] by {
                    if q == before.len() {
                        assert(!placed@[order@[p] as int] || order@[p] != i) by {
                            assert(before.contains(order@[p]));
                        }
                    }
                }
                progress = true;
            }
            i = i + 1;
        }
    }
    assert forall|x: int| 0 <= x < n && !order@.contains(x as usize) implies !#[trigger] dep_placed(jobs@, order@, x) by {
        assert(!placed@[x]);
    }
    let ghost k = order.len() as int;
    let ghost head = order@;
    let mut i: usize = 0;
    while i < n
        invariant
            n == jobs.len(),
            placed.len() == n,
            i <= n,
            head.len() == k,
            order@.take(k) == head,
            k <= order.len() <= n,
            forall|q: int| 0 <= q < order.len() ==> #[trigger] order@[q] < n,
            forall|p: int, q: int| 0 <= p < q < order.len() ==> #[trigger] order@[p] != #[trigger] order@[q],
            forall|x: int| 0 <= x < n ==> (#[trigger] placed@[x] <==> order@.contains(x as usize)),
            forall|x: int| 0 <= x < n && !head.contains(x as usize) ==> !#[trigger] dep_placed(jobs@, head, x),
            forall|x: int| 0 <= x < i ==> #[trigger] placed@[x],
            forall|q: int| 0 <= q < k ==> dep_placed(jobs@, head.take(q), #[trigger] head[q] as int),
            forall|q: int| k <= q < order.len() ==> !head.contains(#[trigger] order@[q]),
        decreases n - i,
    {
        if !placed[i] {
            let ghost before = order@;
            proof {
                if order.len() == n {
                    lemma_full_order_covers(order@, n as nat, i);
                }
            }
            order.push(i);
            placed.set(i, true);
            assert(order@.take(k) =~= before.take(k));
            assert forall|x: int| 0 <= x < n implies (#[trigger] placed@[x] <==> order@.contains(x as usize)) by {
                if x == i as int {
                    assert(order@[before.len() as int] == i);
                } else {
                    if before.contains(x as usize) {
                        let w = choose|w: int| 0 <= w < before.len() && before[w] == x as usize;
                        assert(order@[w] == x as usize);
                    }
                    if order@.contains(x as usize) {
                        let w = choose|w: int| 0 <= w < order@.len() && order@[w] == x as usize;
                        assert(w < before.len());
                        assert(before[w] == x as usize);
                    }
                }
            }
            assert(!head.contains(i)) by {
                if head.contains(i) {
                    let w = choose|w: int| 0 <= w < head.len() && head[w] == i;
                    assert(before[w] == i);
                    assert(before.contains(i));
                }
            }
            assert forall|p: int, q: int| 0 <= p < q < order.len() implies #[trigger] order@[p] != #[trigger] order@[q] by {
                if q == before.len() {
                    assert(before.contains(order@[p]));
                }
            }
        }
        i = i + 1;
    }
    proof {
        lemma_all_placed(order@, placed@, n as nat);
        assert forall|q: int| k <= q < order.len() implies !dep_placed(jobs@, order@.take(k), #[trigger] order@[q] as int) by {
            assert(!head.contains(order@[q]));
        }
        assert forall|q: int| 0 <= q < k implies dep_placed(jobs@, order@.take(q), #[trigger] order@[q] as int) by {
            assert(order@.take(q) =~= head.take(q));
            assert(order@[q] == head[q]);
        }
        assert(ordered_from(jobs@, order@, k));
    }
    order
}

proof fn lemma_full_order_covers(r: Seq<usize>, n: nat, i: usize)
    requires
        n <= usize::MAX,
        r.len() == n,
        i < n,
        forall|q: int| 0 <= q < r.len() ==> #[trigger] r[q] < n,
        forall|p: int, q: int| 0 <= p < q < r.len() ==> #[trigger] r[p] != #[trigger] r[q],
    ensures
        r.contains(i),
{
    let s = r.to_set();
    r.unique_seq_to_set();
    assert(s.len() == n);
    assert(s.subset_of(Set::new(|x: usize| x < n)));
    lemma_range_set_len(n);
    if !r.contains(i) {
        assert(!s.contains(i));
        assert(s.subset_of(Set::new(|x: usize| x < n).remove(i)));
        vstd::set_lib::lemma_len_subset(s, Set::new(|x: usize| x < n).remove(i));
    }
}

proof fn lemma_range_set_len(n: nat)
    requires
        n <= usize::MAX,
    ensures
        Set::new(|x: usize| x < n).finite(),
        Set::new(|x: usize| x < n).len() == n,
    decreases n,
{
    if n == 0 {
        assert(Set::new(|x: usize| x < n) =~= Set::<usize>::empty());
    } else {
        lemma_range_set_len((n - 1) as nat);
        let small = Set::new(|x: usize| x < (n - 1) as nat);
        assert(Set::new(|x: usize| x < n) =~= small.insert((n - 1) as usize));
    }
}

proof fn lemma_all_placed(order: Seq<usize>, placed: Seq<bool>, n: nat)
    requires
        n <= usize::MAX,
        placed.len() == n,
        forall|x: int| 0 <= x < n ==> #[trigger] placed[x],
        forall|x: int| 0 <= x < n ==> (#[trigger] placed[x] <==> order.contains(x as usize)),
        order.len() <= n,
        forall|q: int| 0 <= q < order.len() ==> #[trigger] order[q] < n,
        forall|p: int, q: int| 0 <= p < q < order.len() ==> #[trigger] order[p] != #[trigger] order[q],
    ensures
        order.len() == n,
{
    let s = order.to_set();
    order.unique_seq_to_set();
    lemma_range_set_len(n);
    assert(s =~= Set::new(|x: usize| x < n)) by {
        assert forall|x: usize| s.contains(x) <==> x < n by {
            if x < n {
                assert(placed[x as int]);
            }
        }
    }
}

} // verus!
