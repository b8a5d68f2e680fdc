//! Reading jobs back from their persisted record and status.

use vstd::prelude::*;
use crate::clock::{parse_rfc3339_nanos, rfc3339_nanos};
use crate::job::{record_of, status_of, Job};
use crate::response::{JobRecord, JobStatus};
use crate::text::{append_str, owned};
use crate::types::{copy_opt_strategy, copy_opt_string, copy_strings};

verus! {

broadcast use vstd::string::group_string_axioms;

/// The instant a persisted ready time denotes, if any; `None` inside when it
/// does not parse.
pub open spec fn persisted_ready(st: Option<JobStatus>) -> Option<Option<i64>> {
    match st {
        Some(s) => match s.ready_at {
            Some(t) => Some(rfc3339_nanos(t@)),
            None => None,
        },
        None => None,
    }
}

/// `j` is the job read back from the record `rec` and the status `st`
/// (absent when no status file was found): identity and settings from the
/// record, state and counters from the status when present. The working
/// directory and allocated port are not persisted; the failure streak starts
/// over.
pub open spec fn is_restored(j: Job, rec: JobRecord, st: Option<JobStatus>) -> bool {
    &&& j.id == rec.id
    &&& j.cmd@ == rec.cmd@
    &&& j.name == rec.name
    &&& j.workspace == rec.workspace
    &&& j.pid == rec.pid
    &&& j.state == (match st {
        Some(s) => s.state,
        None => rec.state,
    })
    &&& rfc3339_nanos(rec.started_at@) == Some(j.started_at)
    &&& j.ready_at == (match persisted_ready(st) {
        Some(Some(t)) => Some(t),
        _ => None,
    })
    &&& j.exit_code == (match st {
        Some(s) => s.exit_code,
        None => None,
    })
    &&& j.restart_count == (match st {
        Some(s) => s.restart_count,
        None => 0,
    })
    &&& j.last_diff_cursor == (match st {
        Some(s) => s.last_diff_cursor,
        None => 0,
    })
    &&& j.consecutive_failures == 0
    &&& j.readiness == rec.readiness
    &&& j.restart == rec.restart
    &&& j.pty == rec.pty
    &&& j.max_runtime_ms == rec.max_runtime_ms
    &&& j.max_rss_mb == rec.max_rss_mb
    &&& j.env@ == rec.env@
    &&& j.cwd is None
    &&& j.allocated_port is None
}

/// Rebuilds a job from its persisted record and status. Fails when the
/// start time, or a ready time, is not RFC 3339 text chrono can read.
pub fn restore_job(rec: &JobRecord, st: &Option<JobStatus>) -> (r: Result<Job, String>)
    ensures
        rfc3339_nanos(rec.started_at@) is None ==> (r matches Err(m) && m@
            == "failed to parse started_at for job "@ + rec.id@),
        rfc3339_nanos(rec.started_at@) is Some && persisted_ready(*st) == Some(None::<i64>) ==> (
        r matches Err(m) && m@ == "failed to parse ready_at for job "@ + rec.id@),
        rfc3339_nanos(rec.started_at@) is Some && persisted_ready(*st) != Some(None::<i64>) ==> (
        r matches Ok(j) && is_restored(j, *rec, *st)),
{
    let started_at = match parse_rfc3339_nanos(rec.started_at.as_str()) {
        Some(t) => t,
        None => {
            let mut m = owned("failed to parse started_at for job ");
            append_str(&mut m, rec.id.as_str());
            return Err(m);
        },
    };
    let ready_at: Option<i64> = match st {
        Some(s) => match &s.ready_at {
            Some(t) => match parse_rfc3339_nanos(t.as_str()) {
                Some(v) => Some(v),
                None => {
                    let mut m = owned("failed to parse ready_at for job ");
                    append_str(&mut m, rec.id.as_str());
                    return Err(m);
                },
            },
            None => None,
        },
        None => None,
    };
    let mut job = Job::new_at(
        rec.id.clone(),
        copy_strings(&rec.cmd),
        copy_opt_string(&rec.name),
        copy_opt_string(&rec.workspace),
        started_at,
    );
    job.pid = rec.pid;
    job.state = match st {
        Some(s) => s.state,
        None => rec.state,
    };
    job.ready_at = ready_at;
    job.exit_code = match st {
        Some(s) => s.exit_code,
        None => None,
    };
    job.restart_count = match st {
        Some(s) => s.restart_count,
        None => 0,
    };
    job.last_diff_cursor = match st {
        Some(s) => s.last_diff_cursor,
        None => 0,
    };
    job.readiness = copy_opt_strategy(&rec.readiness);
    job.restart = rec.restart;
    job.pty = rec.pty;
    job.max_runtime_ms = rec.max_runtime_ms;
    job.max_rss_mb = rec.max_rss_mb;
    job.env = rec.env.clone();
    Ok(job)
}

/// What is persisted of a job reads back as that job: restoring the record
/// and status of `j` succeeds and gives back every persisted field of `j`
/// (all but the working directory, the allocated port and the failure
/// streak).
pub proof fn law_persistence_round_trip(j: Job, rec: JobRecord, st: JobStatus, back: Job)
    requires
        record_of(j, rec),
        status_of(j, st),
    ensures
        rfc3339_nanos(rec.started_at@) is Some,
        persisted_ready(Some(st)) != Some(None::<i64>),
        is_restored(back, rec, Some(st)) ==> {
            &&& back.id == j.id
            &&& back.cmd@ == j.cmd@
            &&& back.name == j.name
            &&& back.workspace == j.workspace
            &&& back.pid == j.pid
            &&& back.state == j.state
            &&& back.started_at == j.started_at
            &&& back.ready_at == j.ready_at
            &&& back.exit_code == j.exit_code
            &&& back.restart_count == j.restart_count
            &&& back.last_diff_cursor == j.last_diff_cursor
            &&& back.readiness == j.readiness
            &&& back.restart == j.restart
            &&& back.pty == j.pty
            &&& back.max_runtime_ms == j.max_runtime_ms
            &&& back.max_rss_mb == j.max_rss_mb
            &&& back.env@ == j.env@
        },
{
}

} // verus!
