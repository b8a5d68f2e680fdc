//! Where the daemon keeps its state: the state directory, per-job
//! directories and the socket.

use vstd::prelude::*;
use crate::text::{decimal, owned, path_join, path_join_seq, push_decimal};

verus! {

broadcast use vstd::string::group_string_axioms;

/// The per-user data directory for the application (`directories::ProjectDirs`
/// data dir of "bgrun"), if one can be determined. It depends on the
/// environment, so nothing is promised of it.
#[verifier::external_body]
pub(crate) fn project_data_dir() -> Option<String> {
    match directories::ProjectDirs::from("", "", "bgrun") {
        Some(p) => Some(p.data_dir().to_string_lossy().into_owned()),
        None => None,
    }
}

/// The real user id of the process (`nix::unistd::getuid`).
#[verifier::external_body]
pub(crate) fn current_uid() -> u32 {
    nix::unistd::getuid().as_raw()
}

/// `/tmp/bgrun-<uid>`, the fallback state directory.
pub open spec fn fallback_dir(uid: u32) -> Seq<char> {
    "/tmp/bgrun-"@ + decimal(uid as nat)
}

/// The state directory: the data directory when there is one, else the
/// per-user directory under /tmp.
pub open spec fn state_dir_choice(data_dir: Option<Seq<char>>, uid: u32) -> Seq<char> {
    match data_dir {
        Some(d) => d,
        None => fallback_dir(uid),
    }
}

fn fallback(uid: u32) -> (r: String)
    ensures
        r@ == fallback_dir(uid),
{
    let mut s = owned("/tmp/bgrun-");
    push_decimal(&mut s, uid as u64);
    s
}

/// The state directory for the given data directory and user id.
pub fn state_dir_from(data_dir: Option<&str>, uid: u32) -> (r: String)
    ensures
        r@ == state_dir_choice(
            match data_dir {
                Some(d) => Some(d@),
                None => None,
            },
            uid,
        ),
{
    match data_dir {
        Some(d) => owned(d),
        None => fallback(uid),
    }
}

/// The state directory of this process.
pub fn state_dir() -> (r: String)
    ensures
        exists|d: Option<Seq<char>>, u: u32| r@ == state_dir_choice(d, u),
{
    let d = project_data_dir();
    let uid = current_uid();
    let r = match &d {
        Some(s) => state_dir_from(Some(s.as_str()), uid),
        None => state_dir_from(None, uid),
    };
    proof {
        let dv = match d {
            Some(s) => Some(s@),
            None => None,
        };
        assert(r@ == state_dir_choice(dv, uid));
    }
    r
}

/// `<state dir>/jobs/<id>`.
pub open spec fn job_dir_in(state: Seq<char>, id: Seq<char>) -> Seq<char> {
    path_join_seq(path_join_seq(state, "jobs"@), id)
}

/// The directory of a job under a given state directory.
pub fn job_dir_under(state: &str, id: &str) -> (r: String)
    ensures
        r@ == job_dir_in(state@, id@),
{
    let jobs = path_join(state, "jobs");
    path_join(jobs.as_str(), id)
}

/// The directory of a job.
pub fn job_dir(id: &str) -> (r: String)
    ensures
        exists|d: Option<Seq<char>>, u: u32| r@ == job_dir_in(state_dir_choice(d, u), id@),
{
    let s = state_dir();
    job_dir_under(s.as_str(), id)
}

/// The log file inside a job directory.
pub fn log_path(dir: &str) -> (r: String)
    ensures
        r@ == path_join_seq(dir@, "stdout.log"@),
{
    path_join(dir, "stdout.log")
}

/// The daemon socket: `<runtime dir>/bgrun/daemon.sock` when a runtime
/// directory is set, else `/tmp/bgrun-<uid>/daemon.sock`.
pub open spec fn socket_path_choice(runtime_dir: Option<Seq<char>>, uid: u32) -> Seq<char> {
    match runtime_dir {
        Some(r) => path_join_seq(path_join_seq(r, "bgrun"@), "daemon.sock"@),
        None => path_join_seq(fallback_dir(uid), "daemon.sock"@),
    }
}

/// The daemon socket path for the given runtime directory and user id.
pub fn socket_path_from(runtime_dir: Option<&str>, uid: u32) -> (r: String)
    ensures
        r@ == socket_path_choice(
            match runtime_dir {
                Some(d) => Some(d@),
                None => None,
            },
            uid,
        ),
{
    match runtime_dir {
        Some(d) => {
            let b = path_join(d, "bgrun");
            path_join(b.as_str(), "daemon.sock")
        },
        None => {
            let f = fallback(uid);
            path_join(f.as_str(), "daemon.sock")
        },
    }
}

} // verus!
