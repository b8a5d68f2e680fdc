//! The project file `bgrun.toml`: named jobs and how a name resolves into
//! run arguments.

use vstd::prelude::*;
use crate::assoc::StrMap;
use crate::cli::{env_map, pairs_map};
use crate::command::RunArgs;
use crate::text::{owned, split_whitespace, split_ws, str_eq};
use crate::types::{copy_opt_string, views, ReadinessStrategy, RestartPolicy};

verus! {

broadcast use vstd::string::group_string_axioms;

/// Parsed representation of a `bgrun.toml` file.
#[derive(Debug)]
pub struct BgrunToml {
    pub jobs: StrMap<JobConfig>,
}

/// Configuration for a single named job (one `[jobs.<name>]` table).
#[derive(Debug, Clone)]
pub struct JobConfig {
    pub cmd: String,
    pub ready_when: Option<String>,
    pub ready_when_port: Option<u16>,
    pub ready_when_url: Option<String>,
    pub ready_when_file: Option<String>,
    pub ready_when_regex: Option<String>,
    pub restart: Option<String>,
    pub backoff_ms: Option<u64>,
    pub workspace: Option<String>,
    pub after: Option<String>,
    pub pty: Option<bool>,
    pub max_rss_mb: Option<u64>,
    pub max_runtime_ms: Option<u64>,
    pub cwd: Option<String>,
    /// The `env` table, as key/value pairs.
    pub env: Vec<(String, String)>,
    pub allocate_port: Option<String>,
    pub health_check_url: Option<String>,
    pub health_check_port: Option<u16>,
    pub health_interval_secs: Option<u64>,
    pub health_threshold: Option<u32>,
    pub cols: Option<u16>,
    pub rows: Option<u16>,
}

/// Errors during config parsing or resolution.
#[derive(Debug)]
pub enum ConfigError {
    /// The named job was not found in the config.
    JobNotFound(String),
    /// Failed to parse the TOML content.
    ParseError(String),
}

impl ConfigError {
    /// The message: `job '<name>' not found in config` or
    /// `config parse error: <detail>`.
    pub fn to_string(&self) -> (r: String)
        ensures
            match self {
                ConfigError::JobNotFound(n) => r@ == "job '"@ + n@ + "' not found in config"@,
                ConfigError::ParseError(m) => r@ == "config parse error: "@ + m@,
            },
    {
        match self {
            ConfigError::JobNotFound(n) => {
                let mut s = owned("job '");
                crate::text::append_str(&mut s, n.as_str());
                crate::text::append_str(&mut s, "' not found in config");
                s
            },
            ConfigError::ParseError(m) => {
                let mut s = owned("config parse error: ");
                crate::text::append_str(&mut s, m.as_str());
                s
            },
        }
    }
}

/// The readiness a job config asks for: the first of `ready-when`,
/// `ready-when-port`, `ready-when-url`, `ready-when-file` and
/// `ready-when-regex` that is set.
pub open spec fn config_readiness(c: JobConfig) -> Option<ReadinessStrategy> {
    if c.ready_when is Some {
        Some(ReadinessStrategy::LogPattern(c.ready_when.unwrap()))
    } else if c.ready_when_port is Some {
        Some(ReadinessStrategy::TcpPort(c.ready_when_port.unwrap()))
    } else if c.ready_when_url is Some {
        Some(ReadinessStrategy::HttpPoll(c.ready_when_url.unwrap()))
    } else if c.ready_when_file is Some {
        Some(ReadinessStrategy::FileExists(c.ready_when_file.unwrap()))
    } else if c.ready_when_regex is Some {
        Some(ReadinessStrategy::LogPatternRegex(c.ready_when_regex.unwrap()))
    } else {
        None
    }
}

/// A job config is gated on readiness exactly when one of its `ready-when*`
/// keys is set, and the check is the one that key names, carrying its value:
/// `ready-when` a log pattern, then `ready-when-port` a TCP port,
/// `ready-when-url` an HTTP poll, `ready-when-file` a file, `ready-when-regex`
/// a log regex, an earlier key winning over a later one.
pub proof fn law_config_readiness(c: JobConfig)
    ensures
        config_readiness(c) is Some <==> (c.ready_when is Some || c.ready_when_port is Some
            || c.ready_when_url is Some || c.ready_when_file is Some || c.ready_when_regex is Some),
        c.ready_when matches Some(p) ==> config_readiness(c) == Some(ReadinessStrategy::LogPattern(p)),
        c.ready_when is None ==> (c.ready_when_port matches Some(p) ==> config_readiness(c) == Some(
            ReadinessStrategy::TcpPort(p),
        )),
        c.ready_when is None && c.ready_when_port is None ==> (c.ready_when_url matches Some(u)
            ==> config_readiness(c) == Some(ReadinessStrategy::HttpPoll(u))),
        c.ready_when is None && c.ready_when_port is None && c.ready_when_url is None ==> (
        c.ready_when_file matches Some(f) ==> config_readiness(c) == Some(
            ReadinessStrategy::FileExists(f),
        )),
        c.ready_when is None && c.ready_when_port is None && c.ready_when_url is None
            && c.ready_when_file is None ==> (c.ready_when_regex matches Some(x) ==> config_readiness(
            c,
        ) == Some(ReadinessStrategy::LogPatternRegex(x))),
{
}

/// The base restart backoff of a job config: `backoff-ms`, 2000 when absent.
pub open spec fn config_backoff(c: JobConfig) -> u64 {
    match c.backoff_ms {
        Some(b) => b,
        None => 2000,
    }
}

/// The restart policy a job config asks for: "on-crash" restarts on crash
/// with the configured backoff; any other value, or none, means no policy.
pub open spec fn config_restart(c: JobConfig) -> Option<RestartPolicy> {
    match c.restart {
        Some(s) => if s@ == "on-crash"@ {
            Some(RestartPolicy::OnCrash { backoff_ms: config_backoff(c) })
        } else {
            None
        },
        None => None,
    }
}

/// The liveness check a job config asks for: `health-check-url`, else
/// `health-check-port`.
pub open spec fn config_health(c: JobConfig) -> Option<ReadinessStrategy> {
    if c.health_check_url is Some {
        Some(ReadinessStrategy::HttpPoll(c.health_check_url.unwrap()))
    } else if c.health_check_port is Some {
        Some(ReadinessStrategy::TcpPort(c.health_check_port.unwrap()))
    } else {
        None
    }
}

/// `a` are the run arguments that the config entry `c` named `name` resolves
/// to (the environment stated under vstd's key model for `String`).
pub open spec fn resolved_args(name: Seq<char>, c: JobConfig, a: RunArgs) -> bool {
    &&& views(a.cmd@) == split_ws(c.cmd@)
    &&& a.name matches Some(n) && n@ == name
    &&& a.workspace == c.workspace
    &&& a.readiness == config_readiness(c)
    &&& a.restart == config_restart(c)
    &&& a.pty == (c.pty == Some(true))
    &&& a.max_runtime_ms == c.max_runtime_ms
    &&& a.max_rss_mb == c.max_rss_mb
    &&& (vstd::std_specs::hash::obeys_key_model::<String>() ==> a.env@ == pairs_map(c.env@))
    &&& a.after == c.after
    &&& a.cwd == c.cwd
    &&& a.allocate_port == c.allocate_port
    &&& a.health_check == config_health(c)
    &&& a.health_interval_secs == c.health_interval_secs
    &&& a.health_threshold == c.health_threshold
    &&& a.pty_cols == c.cols
    &&& a.pty_rows == c.rows
}

fn readiness_from(c: &JobConfig) -> (r: Option<ReadinessStrategy>)
    ensures
        r == config_readiness(*c),
{
    match &c.ready_when {
        Some(p) => Some(ReadinessStrategy::LogPattern(p.clone())),
        None => match c.ready_when_port {
            Some(port) => Some(ReadinessStrategy::TcpPort(port)),
            None => match &c.ready_when_url {
                Some(u) => Some(ReadinessStrategy::HttpPoll(u.clone())),
                None => match &c.ready_when_file {
                    Some(f) => Some(ReadinessStrategy::FileExists(f.clone())),
                    None => match &c.ready_when_regex {
                        Some(x) => Some(ReadinessStrategy::LogPatternRegex(x.clone())),
                        None => None,
                    },
                },
            },
        },
    }
}

fn restart_from(c: &JobConfig) -> (r: Option<RestartPolicy>)
    ensures
        r == config_restart(*c),
{
    let backoff_ms: u64 = match c.backoff_ms {
        Some(b) => b,
        None => 2000,
    };
    match &c.restart {
        Some(s) => if str_eq(s.as_str(), "on-crash") {
            Some(RestartPolicy::OnCrash { backoff_ms })
        } else {
            None
        },
        None => None,
    }
}

fn health_from(c: &JobConfig) -> (r: Option<ReadinessStrategy>)
    ensures
        r == config_health(*c),
{
    match &c.health_check_url {
        Some(u) => Some(ReadinessStrategy::HttpPoll(u.clone())),
        None => match c.health_check_port {
            Some(p) => Some(ReadinessStrategy::TcpPort(p)),
            None => None,
        },
    }
}

/// Resolves a named job from the config into run arguments; the command is
/// split on whitespace into argv.
pub fn resolve_job_args(name: &str, config: &BgrunToml) -> (r: Result<RunArgs, ConfigError>)
    requires
        config.jobs.wf(),
    ensures
        match r {
            Ok(a) => config.jobs@.contains_key(name@) && resolved_args(
                name@,
                config.jobs@[name@],
                a,
            ),
            Err(e) => !config.jobs@.contains_key(name@) && (e matches ConfigError::JobNotFound(n)
                && n@ == name@),
        },
{
    let job = match config.jobs.get(name) {
        Some(j) => j,
        None => return Err(ConfigError::JobNotFound(owned(name))),
    };
    let words = split_whitespace(job.cmd.as_str());
    assert(views(words@) =~= split_ws(job.cmd@));
    Ok(RunArgs {
        cmd: words,
        name: Some(owned(name)),
        workspace: copy_opt_string(&job.workspace),
        readiness: readiness_from(job),
        restart: restart_from(job),
        pty: job.pty == Some(true),
        max_runtime_ms: job.max_runtime_ms,
        max_rss_mb: job.max_rss_mb,
        env: env_map(&job.env),
        after: copy_opt_string(&job.after),
        cwd: copy_opt_string(&job.cwd),
        allocate_port: copy_opt_string(&job.allocate_port),
        health_check: health_from(job),
        health_interval_secs: job.health_interval_secs,
        health_threshold: job.health_threshold,
        pty_cols: job.cols,
        pty_rows: job.rows,
    })
}

} // verus!
