//! What the command line decides before and after it talks to the daemon:
//! the run request built from flags and the project's config, environment
//! entries, restart policies, and the texts it shows.

use std::collections::HashMap;
use vstd::prelude::*;
use crate::command::RunArgs;
use crate::duration::{duration_ms, size_bytes, BgrunDuration, BgrunSize, UnitParseError};
use crate::response::{LogDigest, WaitResult};
use crate::text::{
    append_str, contains_seq, debug_quote, debug_str, decimal, decimal_i, first_index_of, lowercase, pad_left,
    push_padded,
    owned, push_decimal, push_decimal_i64, split_once_char, starts_with_seq, starts_with_str,
    str_eq, to_lowercase, trim_seq,
};
use crate::types::{ReadinessStrategy, RestartPolicy};

verus! {

broadcast use vstd::string::group_string_axioms;

/// Optional flags for the run command.
#[derive(Debug)]
pub struct RunFlags {
    pub ready_when: Option<String>,
    pub ready_when_regex: Option<String>,
    pub ready_when_port: Option<u16>,
    pub ready_when_url: Option<String>,
    pub ready_when_file: Option<String>,
    pub after: Option<String>,
    pub pty: bool,
    pub restart: Option<String>,
    pub backoff: Option<String>,
    pub max_retries: Option<u32>,
    pub log_max_size: Option<String>,
    pub log_keep: Option<u32>,
    pub pty_cols: Option<u16>,
    pub pty_rows: Option<u16>,
    pub max_rss_mb: Option<u64>,
    pub max_runtime_ms: Option<u64>,
    pub allocate_port: Option<String>,
    pub health_check_url: Option<String>,
    pub health_check_port: Option<u16>,
    pub health_interval: Option<u64>,
    pub health_threshold: Option<u32>,
    pub env: Vec<String>,
    pub cwd: Option<String>,
    pub replace: bool,
    pub wait: bool,
    pub wait_timeout: String,
}

// ---------------------------------------------------------------------------
// Environment
// ---------------------------------------------------------------------------

/// One `--env KEY=VAL` entry: split at the first `=`; the key must not be
/// empty.
pub open spec fn env_entry(e: Seq<char>) -> Result<(Seq<char>, Seq<char>), Seq<char>> {
    match first_index_of(e, '=') {
        None => Err("invalid --env "@ + debug_str(e) + ": expected KEY=VAL"@),
        Some(i) => if i == 0 {
            Err("invalid --env "@ + debug_str(e) + ": key must not be empty"@)
        } else {
            Ok((e.take(i), e.skip(i + 1)))
        },
    }
}

/// The `--env` entries as key/value pairs, in order; the first bad entry
/// fails them all.
pub open spec fn env_entries(es: Seq<Seq<char>>) -> Result<Seq<(Seq<char>, Seq<char>)>, Seq<char>>
    decreases es.len(),
{
    if es.len() == 0 {
        Ok(seq![])
    } else {
        match env_entries(es.drop_last()) {
            Err(m) => Err(m),
            Ok(ps) => match env_entry(es.last()) {
                Err(m) => Err(m),
                Ok(p) => Ok(ps.push(p)),
            },
        }
    }
}

/// The key/value texts of a list of pairs.
pub open spec fn pair_views(ps: Seq<(String, String)>) -> Seq<(Seq<char>, Seq<char>)> {
    ps.map_values(|p: (String, String)| (p.0@, p.1@))
}

/// Parses `KEY=VAL` entries. Errors on a missing `=` or an empty key.
pub fn parse_env_list(entries: &Vec<String>) -> (r: Result<Vec<(String, String)>, String>)
    ensures
        match env_entries(entries@.map_values(|s: String| s@)) {
            Ok(ps) => r matches Ok(v) && pair_views(v@) == ps,
            Err(m) => r matches Err(x) && x@ == m,
        },
{
    let ghost es = entries@.map_values(|s: String| s@);
    let mut out: Vec<(String, String)> = Vec::new();
    let mut i: usize = 0;
    assert(es.take(0) =~= Seq::<Seq<char>>::empty());
    assert(pair_views(out@) =~= Seq::<(Seq<char>, Seq<char>)>::empty());
    while i < entries.len()
        invariant
            i <= entries.len(),
            es == entries@.map_values(|s: String| s@),
            env_entries(es.take(i as int)) == Ok::<Seq<(Seq<char>, Seq<char>)>, Seq<char>>(
                pair_views(out@),
            ),
        decreases entries.len() - i,
    {
        let e = entries[i].as_str();
        let ghost t = es.take(i + 1);
        assert(t.drop_last() =~= es.take(i as int));
        assert(t.last() == e@);
        match split_once_char(e, '=') {
            None => {
                let mut m = owned("invalid --env ");
                append_str(&mut m, debug_quote(e).as_str());
                append_str(&mut m, ": expected KEY=VAL");
                proof {
                    lemma_env_error_stays(es, i as int + 1);
                }
                return Err(m);
            },
            Some((k, v)) => {
                if crate::text::chars_of(k.as_str()).len() == 0 {
                    let mut m = owned("invalid --env ");
                    append_str(&mut m, debug_quote(e).as_str());
                    append_str(&mut m, ": key must not be empty");
                    proof {
                        lemma_env_error_stays(es, i as int + 1);
                    }
                    return Err(m);
                }
                let ghost before = pair_views(out@);
                out.push((k, v));
                assert(pair_views(out@) =~= before.push((k@, v@)));
            },
        }
        i = i + 1;
    }
    assert(es.take(entries.len() as int) =~= es);
    Ok(out)
}

proof fn lemma_env_error_stays(es: Seq<Seq<char>>, n: int)
    requires
        0 <= n <= es.len(),
        env_entries(es.take(n)) is Err,
    ensures
        env_entries(es) == env_entries(es.take(n)),
    decreases es.len() - n,
{
    if n < es.len() {
        assert(es.take(n + 1).drop_last() =~= es.take(n));
        lemma_env_error_stays(es, n + 1);
    } else {
        assert(es.take(n) =~= es);
    }
}

/// Terminal and locale variables a job inherits from the command line's
/// environment, so that terminal programs render correctly.
pub open spec fn inherited_key(k: Seq<char>) -> bool {
    k == "TERM"@ || k == "COLORTERM"@ || k == "LANG"@ || starts_with_seq(k, "LC_"@)
}

/// The inherited variables among `vars`, in order.
pub open spec fn inherited_vars(vars: Seq<(Seq<char>, Seq<char>)>) -> Seq<(Seq<char>, Seq<char>)>
    decreases vars.len(),
{
    if vars.len() == 0 {
        seq![]
    } else if inherited_key(vars.last().0) {
        inherited_vars(vars.drop_last()).push(vars.last())
    } else {
        inherited_vars(vars.drop_last())
    }
}

/// Keeps the terminal and locale variables of the command line's
/// environment.
pub fn keep_inherited(vars: &Vec<(String, String)>) -> (r: Vec<(String, String)>)
    ensures
        pair_views(r@) == inherited_vars(pair_views(vars@)),
{
    let ghost vs = pair_views(vars@);
    let mut out: Vec<(String, String)> = Vec::new();
    let mut i: usize = 0;
    while i < vars.len()
        invariant
            i <= vars.len(),
            vs == pair_views(vars@),
            pair_views(out@) == inherited_vars(vs.take(i as int)),
        decreases vars.len() - i,
    {
        let (k, v) = (&vars[i].0, &vars[i].1);
        let ghost t = vs.take(i + 1);
        assert(t.drop_last() =~= vs.take(i as int));
        assert(t.last() == (k@, v@));
        let keep = str_eq(k.as_str(), "TERM") || str_eq(k.as_str(), "COLORTERM") || str_eq(
            k.as_str(),
            "LANG",
        ) || starts_with_str(k.as_str(), "LC_");
        if keep {
            let ghost before = pair_views(out@);
            out.push((k.clone(), v.clone()));
            assert(pair_views(out@) =~= before.push((k@, v@)));
        }
        i = i + 1;
    }
    assert(vs.take(vars.len() as int) =~= vs);
    out
}

/// The environment of a run, as the pairs to apply in order (later pairs
/// win): the inherited terminal and locale variables, then the explicit
/// `--env` entries.
pub fn run_env_pairs(vars: &Vec<(String, String)>, entries: &Vec<String>) -> (r: Result<
    Vec<(String, String)>,
    String,
>)
    ensures
        match env_entries(entries@.map_values(|s: String| s@)) {
            Ok(ps) => r matches Ok(v) && pair_views(v@) == inherited_vars(pair_views(vars@)) + ps,
            Err(m) => r matches Err(x) && x@ == m,
        },
{
    let mut out = keep_inherited(vars);
    let explicit = parse_env_list(entries)?;
    let ghost a = pair_views(out@);
    let mut i: usize = 0;
    while i < explicit.len()
        invariant
            i <= explicit.len(),
            pair_views(out@) == a + pair_views(explicit@).take(i as int),
        decreases explicit.len() - i,
    {
        let k = explicit[i].0.clone();
        let v = explicit[i].1.clone();
        let ghost before = pair_views(out@);
        out.push((k, v));
        assert(pair_views(out@) =~= before.push((explicit@[i as int].0@, explicit@[i as int].1@)));
        assert(pair_views(explicit@).take(i + 1) =~= pair_views(explicit@).take(i as int).push(
            (explicit@[i as int].0@, explicit@[i as int].1@),
        ));
        assert(pair_views(out@) =~= a + pair_views(explicit@).take(i + 1));
        i = i + 1;
    }
    assert(pair_views(explicit@).take(explicit.len() as int) =~= pair_views(explicit@));
    Ok(out)
}

/// The map that inserting `s` in order gives: later pairs override earlier
/// ones.
pub open spec fn pairs_map(s: Seq<(String, String)>) -> Map<String, String>
    decreases s.len(),
{
    if s.len() == 0 {
        Map::empty()
    } else {
        pairs_map(s.drop_last()).insert(s.last().0, s.last().1)
    }
}

/// Collects pairs into an environment map, later pairs overriding earlier
/// ones. The map's contents are stated under vstd's key model for `String`
/// (`obeys_key_model`), which vstd leaves open for that type.
pub fn env_map(pairs: &Vec<(String, String)>) -> (m: HashMap<String, String>)
    ensures
        vstd::std_specs::hash::obeys_key_model::<String>() ==> m@ == pairs_map(pairs@),
{
    broadcast use vstd::std_specs::hash::group_hash_axioms;

    let mut m: HashMap<String, String> = HashMap::new();
    let mut i: usize = 0;
    while i < pairs.len()
        invariant
            i <= pairs.len(),
            vstd::std_specs::hash::obeys_key_model::<String>() ==> m@ == pairs_map(pairs@.take(i as int)),
        decreases pairs.len() - i,
    {
        m.insert(pairs[i].0.clone(), pairs[i].1.clone());
        proof {
            assert(pairs@.take(i + 1).drop_last() =~= pairs@.take(i as int));
        }
        i = i + 1;
    }
    proof {
        assert(pairs@.take(pairs.len() as int) =~= pairs@);
    }
    m
}

// ---------------------------------------------------------------------------
// Restart policy and readiness flags
// ---------------------------------------------------------------------------

/// The restart policy a `--restart` name gives with the given backoff.
pub open spec fn policy_named(name: Option<Seq<char>>, backoff_ms: u64) -> Result<
    Option<RestartPolicy>,
    Seq<char>,
> {
    match name {
        None => Ok(None),
        Some(n) => if n == "never"@ {
            Ok(Some(RestartPolicy::Never))
        } else if n == "on-crash"@ {
            Ok(Some(RestartPolicy::OnCrash { backoff_ms }))
        } else if n == "on-failure"@ {
            Ok(Some(RestartPolicy::OnFailure { backoff_ms }))
        } else if n == "always"@ {
            Ok(Some(RestartPolicy::Always { backoff_ms }))
        } else {
            Err("invalid restart policy: "@ + debug_str(n)
                + " (expected 'never', 'on-crash', 'on-failure' or 'always')"@)
        },
    }
}

/// The message of a refused duration text.
pub open spec fn bad_duration(t: Seq<char>) -> Seq<char> {
    "invalid duration: "@ + debug_str(trim_seq(t))
}

/// The message of a refused size text.
pub open spec fn bad_size(t: Seq<char>) -> Seq<char> {
    "invalid size: "@ + debug_str(trim_seq(t))
}

/// The text of an optional string.
pub open spec fn opt_text(o: Option<String>) -> Option<Seq<char>> {
    match o {
        Some(s) => Some(s@),
        None => None,
    }
}

/// The restart policy of `--restart` and `--backoff`: the backoff (2s by
/// default) is shared by all policies that restart.
pub open spec fn restart_policy_of(restart: Option<String>, backoff: Option<String>) -> Result<
    Option<RestartPolicy>,
    Seq<char>,
> {
    match backoff {
        Some(b) => match duration_ms(b@) {
            Some(ms) => policy_named(opt_text(restart), ms),
            None => Err(bad_duration(b@)),
        },
        None => policy_named(opt_text(restart), 2000),
    }
}

fn duration_message(e: UnitParseError) -> (r: String)
    ensures
        match e {
            UnitParseError::InvalidDuration(t) => r@ == "invalid duration: "@ + debug_str(t@),
            UnitParseError::InvalidSize(t) => r@ == "invalid size: "@ + debug_str(t@),
        },
{
    e.to_string()
}

/// Resolves `--restart`/`--backoff` into a policy.
pub fn resolve_restart_policy(flags: &RunFlags) -> (r: Result<Option<RestartPolicy>, String>)
    ensures
        match restart_policy_of(flags.restart, flags.backoff) {
            Ok(p) => r == Ok::<Option<RestartPolicy>, String>(p),
            Err(m) => r matches Err(x) && x@ == m,
        },
{
    let backoff_ms: u64 = match &flags.backoff {
        Some(b) => match BgrunDuration::parse(b.as_str()) {
            Ok(d) => d.0,
            Err(e) => {
                return Err(duration_message(e));
            },
        },
        None => 2000,
    };
    match &flags.restart {
        None => Ok(None),
        Some(n) => {
            let n = n.as_str();
            if str_eq(n, "never") {
                Ok(Some(RestartPolicy::Never))
            } else if str_eq(n, "on-crash") {
                Ok(Some(RestartPolicy::OnCrash { backoff_ms }))
            } else if str_eq(n, "on-failure") {
                Ok(Some(RestartPolicy::OnFailure { backoff_ms }))
            } else if str_eq(n, "always") {
                Ok(Some(RestartPolicy::Always { backoff_ms }))
            } else {
                let mut m = owned("invalid restart policy: ");
                append_str(&mut m, debug_quote(n).as_str());
                append_str(&mut m, " (expected 'never', 'on-crash', 'on-failure' or 'always')");
                Err(m)
            }
        },
    }
}

/// The readiness strategy of the flags: the first given of regex, pattern,
/// port, URL and file.
pub open spec fn readiness_of_flags(f: RunFlags) -> Option<ReadinessStrategy> {
    match f.ready_when_regex {
        Some(p) => Some(ReadinessStrategy::LogPatternRegex(p)),
        None => match f.ready_when {
            Some(p) => Some(ReadinessStrategy::LogPattern(p)),
            None => match f.ready_when_port {
                Some(p) => Some(ReadinessStrategy::TcpPort(p)),
                None => match f.ready_when_url {
                    Some(u) => Some(ReadinessStrategy::HttpPoll(u)),
                    None => match f.ready_when_file {
                        Some(x) => Some(ReadinessStrategy::FileExists(x)),
                        None => None,
                    },
                },
            },
        },
    }
}

/// The health check of the flags: a URL wins over a port.
pub open spec fn health_of_flags(f: RunFlags) -> Option<ReadinessStrategy> {
    match f.health_check_url {
        Some(u) => Some(ReadinessStrategy::HttpPoll(u)),
        None => match f.health_check_port {
            Some(p) => Some(ReadinessStrategy::TcpPort(p)),
            None => None,
        },
    }
}

/// The health check of a run: an HTTP poll of `--health-check-url` when it is
/// given (a URL wins over a port), else a TCP check of `--health-check-port`,
/// and none only when neither flag is given.
pub proof fn law_health_of_flags(f: RunFlags)
    ensures
        health_of_flags(f) is Some <==> (f.health_check_url is Some || f.health_check_port is Some),
        f.health_check_url matches Some(u) ==> health_of_flags(f) == Some(ReadinessStrategy::HttpPoll(u)),
        f.health_check_url is None ==> (f.health_check_port matches Some(p) ==> health_of_flags(f)
            == Some(ReadinessStrategy::TcpPort(p))),
{
}

/// A run is gated on readiness exactly when a readiness flag is given, and
/// the check is the one that flag names, carrying its value: the regex flag
/// first, then the pattern, the port, the URL and the file.
pub proof fn law_readiness_of_flags(f: RunFlags)
    ensures
        readiness_of_flags(f) is Some <==> !no_readiness_flags(f),
        f.ready_when_regex matches Some(x) ==> readiness_of_flags(f) == Some(
            ReadinessStrategy::LogPatternRegex(x),
        ),
        f.ready_when_regex is None ==> (f.ready_when matches Some(p) ==> readiness_of_flags(f) == Some(
            ReadinessStrategy::LogPattern(p),
        )),
        f.ready_when_regex is None && f.ready_when is None ==> (f.ready_when_port matches Some(p)
            ==> readiness_of_flags(f) == Some(ReadinessStrategy::TcpPort(p))),
        f.ready_when_regex is None && f.ready_when is None && f.ready_when_port is None ==> (
        f.ready_when_url matches Some(u) ==> readiness_of_flags(f) == Some(
            ReadinessStrategy::HttpPoll(u),
        )),
        f.ready_when_regex is None && f.ready_when is None && f.ready_when_port is None
            && f.ready_when_url is None ==> (f.ready_when_file matches Some(x) ==> readiness_of_flags(
            f,
        ) == Some(ReadinessStrategy::FileExists(x))),
{
}

/// No readiness flag is given.
pub open spec fn no_readiness_flags(f: RunFlags) -> bool {
    f.ready_when is None && f.ready_when_regex is None && f.ready_when_port is None
        && f.ready_when_url is None && f.ready_when_file is None
}

// ---------------------------------------------------------------------------
// The run request
// ---------------------------------------------------------------------------

/// The config entry a run looks up: the `--name` when one is given, else
/// the command when it is a single word.
pub fn config_key(cmd: &Vec<String>, name: &Option<String>) -> (r: Option<String>)
    ensures
        r == (if name is Some {
            *name
        } else if cmd.len() == 1 {
            Some(cmd@[0])
        } else {
            None
        }),
{
    match name {
        Some(n) => Some(n.clone()),
        None => if cmd.len() == 1 {
            Some(cmd[0].clone())
        } else {
            None
        },
    }
}

/// The command of a run that found the config entry `c`: the entry's
/// command when the run's command is the single word naming that entry,
/// else the command given (a custom command keeps precedence).
pub open spec fn config_command(cmd: Seq<String>, c: RunArgs) -> Seq<String> {
    if cmd.len() == 1 && (c.name matches Some(n) && n@ == cmd[0]@) {
        c.cmd@
    } else {
        cmd
    }
}

/// A run that found an entry of the project's config takes from it the
/// command (when the run's command is the entry's name), and the name,
/// workspace, dependency and (when no readiness flag is given) readiness
/// where the command line gives none.
pub fn apply_config(
    cmd: Vec<String>,
    name: Option<String>,
    workspace: Option<String>,
    flags: RunFlags,
    resolved: Option<RunArgs>,
) -> (r: (Vec<String>, Option<String>, Option<String>, RunFlags))
    ensures
        match resolved {
            Some(c) => {
                &&& r.0@ == config_command(cmd@, c)
                &&& r.1 == (if name is Some { name } else { c.name })
                &&& r.2 == (if workspace is Some { workspace } else { c.workspace })
                &&& r.3.after == (if flags.after is Some { flags.after } else { c.after })
                &&& (no_readiness_flags(flags) ==> readiness_of_flags(r.3) == c.readiness)
                &&& (!no_readiness_flags(flags) ==> readiness_of_flags(r.3) == readiness_of_flags(
                    flags,
                ))
                &&& r.3 == (RunFlags {
                    after: r.3.after,
                    ready_when: r.3.ready_when,
                    ready_when_regex: r.3.ready_when_regex,
                    ready_when_port: r.3.ready_when_port,
                    ready_when_url: r.3.ready_when_url,
                    ready_when_file: r.3.ready_when_file,
                    ..flags
                })
            },
            _ => r.0 == cmd && r.1 == name && r.2 == workspace && r.3 == flags,
        },
{
    let c = match resolved {
        Some(c) => c,
        None => {
            return (cmd, name, workspace, flags);
        },
    };
    let takes_entry_command = cmd.len() == 1 && match &c.name {
        Some(n) => str_eq(n.as_str(), cmd[0].as_str()),
        None => false,
    };
    let mut flags = flags;
    let name = match name {
        Some(n) => Some(n),
        None => c.name,
    };
    let workspace = match workspace {
        Some(w) => Some(w),
        None => c.workspace,
    };
    if flags.ready_when.is_none() && flags.ready_when_regex.is_none() && flags.ready_when_port.is_none()
        && flags.ready_when_url.is_none() && flags.ready_when_file.is_none() {
        match c.readiness {
            Some(ReadinessStrategy::LogPattern(p)) => {
                flags.ready_when = Some(p);
            },
            Some(ReadinessStrategy::LogPatternRegex(p)) => {
                flags.ready_when_regex = Some(p);
            },
            Some(ReadinessStrategy::TcpPort(p)) => {
                flags.ready_when_port = Some(p);
            },
            Some(ReadinessStrategy::HttpPoll(u)) => {
                flags.ready_when_url = Some(u);
            },
            Some(ReadinessStrategy::FileExists(f)) => {
                flags.ready_when_file = Some(f);
            },
            None => {},
        }
    }
    if flags.after.is_none() {
        flags.after = c.after;
    }
    let command = if takes_entry_command {
        c.cmd
    } else {
        cmd
    };
    (command, name, workspace, flags)
}

/// A command given as one word runs through the shell: `sh -c <word>`.
pub fn shell_wrap(cmd: Vec<String>) -> (r: Vec<String>)
    ensures
        cmd.len() == 1 ==> r@.len() == 3 && r@[0]@ == "sh"@ && r@[1]@ == "-c"@ && r@[2] == cmd@[0],
        cmd.len() != 1 ==> r == cmd,
{
    if cmd.len() == 1 {
        let mut cmd = cmd;
        let word = cmd.pop().unwrap();
        let mut r: Vec<String> = Vec::new();
        r.push(owned("sh"));
        r.push(owned("-c"));
        r.push(word);
        r
    } else {
        cmd
    }
}

/// The first reason a run request is refused, checked in this order:
/// `--replace` without a name, a bad `--wait` timeout, a bad `--env` entry,
/// a bad restart policy or backoff, a bad `--log-max-size`, a `--log-keep`
/// of 0.
pub open spec fn run_refusal(name: Option<String>, f: RunFlags) -> Option<Seq<char>> {
    if f.replace && name is None {
        Some("run: --replace requires --name"@)
    } else if f.wait && duration_ms(f.wait_timeout@) is None {
        Some(bad_duration(f.wait_timeout@))
    } else if env_entries(f.env@.map_values(|s: String| s@)) is Err {
        Some(env_entries(f.env@.map_values(|s: String| s@))->Err_0)
    } else if restart_policy_of(f.restart, f.backoff) is Err {
        Some(restart_policy_of(f.restart, f.backoff)->Err_0)
    } else if (f.log_max_size matches Some(s) && size_bytes(s@) is None) {
        Some(bad_size(f.log_max_size->0@))
    } else if f.log_keep == Some(0u32) {
        Some("invalid --log-keep 0: must retain at least one rotated file"@)
    } else {
        None
    }
}

/// Builds the run request from the (config-resolved, shell-wrapped)
/// command, the flags, the command line's environment `vars` and its
/// working directory. The environment map holds the pairs of
/// `run_env_pairs`, later ones winning (stated under vstd's key model for
/// `String`).
pub fn assemble_run_args(
    cmd: Vec<String>,
    name: Option<String>,
    workspace: Option<String>,
    flags: RunFlags,
    vars: &Vec<(String, String)>,
    current_dir: Option<String>,
) -> (r: Result<RunArgs, String>)
    ensures
        match run_refusal(name, flags) {
            Some(m) => r matches Err(x) && x@ == m,
            None => r matches Ok(a) && {
                &&& a.cmd == cmd
                &&& a.name == name
                &&& a.workspace == workspace
                &&& a.readiness == readiness_of_flags(flags)
                &&& restart_policy_of(flags.restart, flags.backoff) == Ok::<
                    Option<RestartPolicy>,
                    Seq<char>,
                >(a.restart)
                &&& a.pty == flags.pty
                &&& a.max_runtime_ms == flags.max_runtime_ms
                &&& a.max_rss_mb == flags.max_rss_mb
                &&& a.after == flags.after
                &&& a.cwd == (if flags.cwd is Some { flags.cwd } else { current_dir })
                &&& a.allocate_port == flags.allocate_port
                &&& a.health_check == health_of_flags(flags)
                &&& a.health_interval_secs == flags.health_interval
                &&& a.health_threshold == flags.health_threshold
                &&& a.pty_cols == flags.pty_cols
                &&& a.pty_rows == flags.pty_rows
                &&& (vstd::std_specs::hash::obeys_key_model::<String>() ==> exists|
                    p: Seq<(String, String)>,
                | {
                    &&& pair_views(p) == inherited_vars(pair_views(vars@)) + env_entries(
                        flags.env@.map_values(|s: String| s@),
                    )->Ok_0
                    &&& a.env@ == #[trigger] pairs_map(p)
                })
            },
        },
{
    if flags.replace && name.is_none() {
        return Err(owned("run: --replace requires --name"));
    }
    if flags.wait {
        if let Err(e) = BgrunDuration::parse(flags.wait_timeout.as_str()) {
            return Err(duration_message(e));
        }
    }
    let pairs = run_env_pairs(vars, &flags.env)?;
    let restart = resolve_restart_policy(&flags)?;
    if let Some(s) = &flags.log_max_size {
        if let Err(e) = BgrunSize::parse(s.as_str()) {
            return Err(duration_message(e));
        }
    }
    if flags.log_keep == Some(0u32) {
        return Err(owned("invalid --log-keep 0: must retain at least one rotated file"));
    }
    let readiness = match flags.ready_when_regex {
        Some(p) => Some(ReadinessStrategy::LogPatternRegex(p)),
        None => match flags.ready_when {
            Some(p) => Some(ReadinessStrategy::LogPattern(p)),
            None => match flags.ready_when_port {
                Some(p) => Some(ReadinessStrategy::TcpPort(p)),
                None => match flags.ready_when_url {
                    Some(u) => Some(ReadinessStrategy::HttpPoll(u)),
                    None => match flags.ready_when_file {
                        Some(x) => Some(ReadinessStrategy::FileExists(x)),
                        None => None,
                    },
                },
            },
        },
    };
    let health_check = match flags.health_check_url {
        Some(u) => Some(ReadinessStrategy::HttpPoll(u)),
        None => match flags.health_check_port {
            Some(p) => Some(ReadinessStrategy::TcpPort(p)),
            None => None,
        },
    };
    let cwd = match flags.cwd {
        Some(c) => Some(c),
        None => current_dir,
    };
    let env = env_map(&pairs);
    proof {
        if vstd::std_specs::hash::obeys_key_model::<String>() {
            assert(env@ == pairs_map(pairs@));
        }
    }
    Ok(RunArgs {
        cmd,
        name,
        workspace,
        readiness,
        restart,
        pty: flags.pty,
        max_runtime_ms: flags.max_runtime_ms,
        max_rss_mb: flags.max_rss_mb,
        env,
        after: flags.after,
        cwd,
        allocate_port: flags.allocate_port,
        health_check,
        health_interval_secs: flags.health_interval,
        health_threshold: flags.health_threshold,
        pty_cols: flags.pty_cols,
        pty_rows: flags.pty_rows,
    })
}

// ---------------------------------------------------------------------------
// Texts shown to the user
// ---------------------------------------------------------------------------

/// A log line as `tail` prints it: the number right-aligned in six columns,
/// ` | `, the content; error lines in red, warning lines in yellow.
pub open spec fn log_line_display(num: u64, content: Seq<char>) -> Seq<char> {
    let body = pad_left(decimal(num as nat), 6) + " | "@ + content;
    if contains_seq(lowercase(content), "error"@) {
        "\x1b[31m"@ + body + "\x1b[0m"@
    } else if contains_seq(lowercase(content), "warn"@) {
        "\x1b[33m"@ + body + "\x1b[0m"@
    } else {
        body
    }
}

/// Formats a log line for the terminal.
pub fn log_line_text(num: u64, content: &str) -> (r: String)
    ensures
        r@ == log_line_display(num, content@),
{
    let lower = to_lowercase(content);
    let mut digits = String::new();
    push_decimal(&mut digits, num);
    let mut body = String::new();
    push_padded(&mut body, digits.as_str(), 6);
    append_str(&mut body, " | ");
    append_str(&mut body, content);
    if crate::text::contains_str(lower.as_str(), "error") {
        let mut s = owned("\x1b[31m");
        append_str(&mut s, body.as_str());
        append_str(&mut s, "\x1b[0m");
        s
    } else if crate::text::contains_str(lower.as_str(), "warn") {
        let mut s = owned("\x1b[33m");
        append_str(&mut s, body.as_str());
        append_str(&mut s, "\x1b[0m");
        s
    } else {
        body
    }
}

/// The outcome of a wait as the command line reports it.
pub open spec fn wait_report_text(id: Seq<char>, r: WaitResult) -> Seq<char> {
    let ms = decimal(r.elapsed_ms as nat);
    if r.ready {
        "Job "@ + id + " is ready ("@ + ms + "ms)"@
    } else {
        match r.state {
            Some(s) => "Job "@ + id + " reached terminal state "@ + s@ + (match r.exit_code {
                Some(c) => ", exit_code="@ + decimal_i(c as int),
                None => seq![],
            }) + " ("@ + ms + "ms)"@,
            None => "Job "@ + id + " did not become ready within "@ + ms + "ms"@,
        }
    }
}

/// Formats the outcome of a wait.
pub fn wait_report(id: &str, r: &WaitResult) -> (s: String)
    ensures
        s@ == wait_report_text(id@, *r),
{
    let mut s = owned("Job ");
    append_str(&mut s, id);
    if r.ready {
        append_str(&mut s, " is ready (");
        push_decimal(&mut s, r.elapsed_ms);
        append_str(&mut s, "ms)");
    } else {
        match &r.state {
            Some(st) => {
                append_str(&mut s, " reached terminal state ");
                append_str(&mut s, st.as_str());
                if let Some(c) = r.exit_code {
                    append_str(&mut s, ", exit_code=");
                    push_decimal_i64(&mut s, c as i64);
                }
                append_str(&mut s, " (");
                push_decimal(&mut s, r.elapsed_ms);
                append_str(&mut s, "ms)");
            },
            None => {
                append_str(&mut s, " did not become ready within ");
                push_decimal(&mut s, r.elapsed_ms);
                append_str(&mut s, "ms");
            },
        }
    }
    s
}

/// The lines a digest is shown as: the counts, then the last error with its
/// line number (0 when unknown), if there is one.
pub fn digest_report(d: &LogDigest) -> (r: Vec<String>)
    ensures
        r@.len() == (if d.last_error is Some { 2int } else { 1int }),
        r@[0]@ == "Lines: "@ + decimal(d.total_lines as nat) + "  Errors: "@ + decimal(
            d.errors as nat,
        ) + "  Warnings: "@ + decimal(d.warnings as nat),
        d.last_error matches Some(e) ==> r@[1]@ == "Last error (line "@ + decimal(
            (match d.last_error_line {
                Some(n) => n,
                None => 0u64,
            }) as nat,
        ) + "): "@ + e@,
{
    let mut first = owned("Lines: ");
    push_decimal(&mut first, d.total_lines);
    append_str(&mut first, "  Errors: ");
    push_decimal(&mut first, d.errors);
    append_str(&mut first, "  Warnings: ");
    push_decimal(&mut first, d.warnings);
    let mut out: Vec<String> = Vec::new();
    out.push(first);
    if let Some(e) = &d.last_error {
        let mut second = owned("Last error (line ");
        let n: u64 = match d.last_error_line {
            Some(n) => n,
            None => 0,
        };
        push_decimal(&mut second, n);
        append_str(&mut second, "): ");
        append_str(&mut second, e.as_str());
        out.push(second);
    }
    out
}

/// The outcome of an expect as the command line reports it.
pub fn expect_report(matched: Option<(u64, &str)>) -> (r: String)
    ensures
        match matched {
            Some((n, c)) => r@ == "Pattern matched at line "@ + decimal(n as nat) + ": "@ + c@,
            None => r@ == "Pattern did not match before timeout"@,
        },
{
    match matched {
        Some((n, c)) => {
            let mut s = owned("Pattern matched at line ");
            push_decimal(&mut s, n);
            append_str(&mut s, ": ");
            append_str(&mut s, c);
            s
        },
        None => owned("Pattern did not match before timeout"),
    }
}

/// The default file of a log export: `bgrun-<first 8 characters of the id>.log`.
pub fn export_default_name(id: &str) -> (r: String)
    ensures
        r@ == "bgrun-"@ + (if id@.len() <= 8 { id@ } else { id@.take(8) }) + ".log"@,
{
    let v = crate::text::chars_of(id);
    let k: usize = if v.len() <= 8 { v.len() } else { 8 };
    let short = crate::text::string_from_range(&v, 0, k);
    let mut s = owned("bgrun-");
    append_str(&mut s, short.as_str());
    append_str(&mut s, ".log");
    proof {
        if v.len() <= 8 {
            assert(v@.subrange(0, k as int) =~= id@);
        } else {
            assert(v@.subrange(0, k as int) =~= id@.take(8));
        }
    }
    s
}

// ---------------------------------------------------------------------------
// Skill installation targets
// ---------------------------------------------------------------------------

/// A path as the skill installer resolves it: `~/…` under the home
/// directory, a relative path starting with `.` under the working
/// directory, anything else as given.
pub open spec fn resolved_path(path: Seq<char>, home: Option<Seq<char>>, cwd: Option<Seq<char>>) -> Result<
    Seq<char>,
    Seq<char>,
> {
    if starts_with_seq(path, "~/"@) {
        match home {
            Some(h) => Ok(crate::text::path_join_seq(h, path.skip(2))),
            None => Err("HOME environment variable not set"@),
        }
    } else if starts_with_seq(path, "."@) {
        match cwd {
            Some(c) => Ok(crate::text::path_join_seq(c, path)),
            None => Err("failed to get current working directory"@),
        }
    } else {
        Ok(path)
    }
}

fn resolve_path(path: &str, home: Option<&str>, cwd: Option<&str>) -> (r: Result<String, String>)
    ensures
        match resolved_path(
            path@,
            match home {
                Some(h) => Some(h@),
                None => None,
            },
            match cwd {
                Some(c) => Some(c@),
                None => None,
            },
        ) {
            Ok(p) => r matches Ok(x) && x@ == p,
            Err(m) => r matches Err(x) && x@ == m,
        },
{
    if starts_with_str(path, "~/") {
        match home {
            Some(h) => {
                let v = crate::text::chars_of(path);
                proof {
                    reveal_strlit("~/");
                }
                let rest = crate::text::string_from_range(&v, 2, v.len());
                assert(v@.subrange(2, v.len() as int) =~= path@.skip(2));
                Ok(crate::text::path_join(h, rest.as_str()))
            },
            None => Err(owned("HOME environment variable not set")),
        }
    } else if starts_with_str(path, ".") {
        match cwd {
            Some(c) => Ok(crate::text::path_join(c, path)),
            None => Err(owned("failed to get current working directory")),
        }
    } else {
        Ok(owned(path))
    }
}

/// The base directory of a preset agent's skills, globally or per project.
pub open spec fn preset_base(name: Seq<char>, project: bool) -> Option<Seq<char>> {
    if name == "opencode"@ {
        Some(if project { ".opencode/skills"@ } else { "~/.config/opencode/skills"@ })
    } else if name == "codex"@ {
        Some(if project { ".codex/skills"@ } else { "~/.codex/skills"@ })
    } else {
        None
    }
}

/// The `bgrun` skill directory under a preset's resolved base.
pub open spec fn preset_dir(name: Seq<char>, project: bool, home: Option<Seq<char>>, cwd: Option<Seq<char>>) -> Result<
    Seq<char>,
    Seq<char>,
> {
    match resolved_path(preset_base(name, project)->0, home, cwd) {
        Ok(p) => Ok(crate::text::path_join_seq(p, "bgrun"@)),
        Err(m) => Err(m),
    }
}

fn preset_target(name: &str, project: bool, home: Option<&str>, cwd: Option<&str>) -> (r: Result<String, String>)
    requires
        preset_base(name@, project) is Some,
    ensures
        match preset_dir(
            name@,
            project,
            match home {
                Some(h) => Some(h@),
                None => None,
            },
            match cwd {
                Some(c) => Some(c@),
                None => None,
            },
        ) {
            Ok(p) => r matches Ok(x) && x@ == p,
            Err(m) => r matches Err(x) && x@ == m,
        },
{
    let base = if str_eq(name, "opencode") {
        if project { ".opencode/skills" } else { "~/.config/opencode/skills" }
    } else {
        if project { ".codex/skills" } else { "~/.codex/skills" }
    };
    let dir = resolve_path(base, home, cwd)?;
    Ok(crate::text::path_join(dir.as_str(), "bgrun"))
}

/// The directories a skill install writes to: `all` presets, one preset by
/// name, or the target taken as a directory.
pub open spec fn skill_target_dirs(target: Seq<char>, project: bool, home: Option<Seq<char>>, cwd: Option<
    Seq<char>,
>) -> Result<Seq<Seq<char>>, Seq<char>> {
    if target == "all"@ {
        match preset_dir("opencode"@, project, home, cwd) {
            Err(m) => Err(m),
            Ok(a) => match preset_dir("codex"@, project, home, cwd) {
                Err(m) => Err(m),
                Ok(b) => Ok(seq![a, b]),
            },
        }
    } else if preset_base(target, project) is Some {
        match preset_dir(target, project, home, cwd) {
            Err(m) => Err(m),
            Ok(a) => Ok(seq![a]),
        }
    } else {
        Ok(seq![target])
    }
}

/// Resolves the directories a skill install writes to.
pub fn skill_targets(target: &str, project: bool, home: Option<&str>, cwd: Option<&str>) -> (r: Result<
    Vec<String>,
    String,
>)
    ensures
        match skill_target_dirs(
            target@,
            project,
            match home {
                Some(h) => Some(h@),
                None => None,
            },
            match cwd {
                Some(c) => Some(c@),
                None => None,
            },
        ) {
            Ok(ds) => r matches Ok(v) && v@.map_values(|s: String| s@) == ds,
            Err(m) => r matches Err(x) && x@ == m,
        },
{
    let mut out: Vec<String> = Vec::new();
    if str_eq(target, "all") {
        let a = preset_target("opencode", project, home, cwd)?;
        let b = preset_target("codex", project, home, cwd)?;
        let ghost (av, bv) = (a@, b@);
        out.push(a);
        out.push(b);
        assert(out@.map_values(|s: String| s@) =~= seq![av, bv]);
        return Ok(out);
    }
    if str_eq(target, "opencode") || str_eq(target, "codex") {
        let a = preset_target(target, project, home, cwd)?;
        let ghost av = a@;
        out.push(a);
        assert(out@.map_values(|s: String| s@) =~= seq![av]);
        return Ok(out);
    }
    out.push(owned(target));
    assert(out@.map_values(|s: String| s@) =~= seq![target@]);
    Ok(out)
}

// ---------------------------------------------------------------------------
// The interactive start form
// ---------------------------------------------------------------------------

/// The pieces of `s` between occurrences of `c` (`str::split` with a
/// character): one more than the occurrences.
pub open spec fn pieces(s: Seq<char>, c: char) -> Seq<Seq<char>>
    decreases s.len(),
{
    if s.len() == 0 {
        seq![seq![]]
    } else if s.last() == c {
        pieces(s.drop_last(), c).push(seq![])
    } else {
        let p = pieces(s.drop_last(), c);
        p.update(p.len() - 1, p.last().push(s.last()))
    }
}

proof fn lemma_pieces_len(s: Seq<char>, c: char)
    ensures
        pieces(s, c).len() >= 1,
    decreases s.len(),
{
    if s.len() > 0 {
        lemma_pieces_len(s.drop_last(), c);
    }
}

/// The trimmed pieces that are not empty, in order.
pub open spec fn nonblank_trimmed(ps: Seq<Seq<char>>) -> Seq<Seq<char>>
    decreases ps.len(),
{
    if ps.len() == 0 {
        seq![]
    } else if trim_seq(ps.last()).len() > 0 {
        nonblank_trimmed(ps.drop_last()).push(trim_seq(ps.last()))
    } else {
        nonblank_trimmed(ps.drop_last())
    }
}

fn push_trimmed(out: &mut Vec<String>, cur: &Vec<char>)
    ensures
        final(out)@.map_values(|x: String| x@) == (if trim_seq(cur@).len() > 0 {
            old(out)@.map_values(|x: String| x@).push(trim_seq(cur@))
        } else {
            old(out)@.map_values(|x: String| x@)
        }),
{
    let t = crate::text::trim_chars(cur);
    if t.len() > 0 {
        let ghost before = out@.map_values(|x: String| x@);
        let st = crate::text::string_from_chars(&t);
        out.push(st);
        assert(out@.map_values(|x: String| x@) =~= before.push(trim_seq(cur@)));
    }
}

/// Splits a comma-separated list, trims each entry and drops empty ones
/// (the environment field of the interactive start form).
pub fn split_env_csv(s: &str) -> (r: Vec<String>)
    ensures
        r@.map_values(|x: String| x@) == nonblank_trimmed(pieces(s@, ',')),
{
    let v = crate::text::chars_of(s);
    let mut out: Vec<String> = Vec::new();
    let mut cur: Vec<char> = Vec::new();
    let mut i: usize = 0;
    assert(v@.take(0) =~= Seq::<char>::empty());
    assert(pieces(Seq::<char>::empty(), ',').drop_last() =~= Seq::<Seq<char>>::empty());
    assert(out@.map_values(|x: String| x@) =~= Seq::<Seq<char>>::empty());
    while i < v.len()
        invariant
            i <= v.len(),
            v@ == s@,
            pieces(v@.take(i as int), ',').len() >= 1,
            out@.map_values(|x: String| x@) == nonblank_trimmed(
                pieces(v@.take(i as int), ',').drop_last(),
            ),
            cur@ == pieces(v@.take(i as int), ',').last(),
        decreases v.len() - i,
    {
        let ch = v[i];
        let ghost t0 = v@.take(i as int);
        let ghost t1 = v@.take(i + 1);
        assert(t1.drop_last() =~= t0);
        assert(t1.last() == ch);
        proof {
            lemma_pieces_len(t0, ',');
        }
        let ghost p0 = pieces(t0, ',');
        if ch == ',' {
            push_trimmed(&mut out, &cur);
            cur = Vec::new();
            proof {
                assert(pieces(t1, ',') == p0.push(seq![]));
                assert(pieces(t1, ',').drop_last() =~= p0);
                assert(p0.drop_last().push(p0.last()) =~= p0);
                assert(nonblank_trimmed(p0) == nonblank_trimmed(p0.drop_last().push(p0.last())));
                assert(p0.drop_last().push(p0.last()).drop_last() =~= p0.drop_last());
            }
        } else {
            cur.push(ch);
            proof {
                let p1 = pieces(t1, ',');
                assert(p1 == p0.update(p0.len() - 1, p0.last().push(ch)));
                assert(p1.drop_last() =~= p0.drop_last());
            }
        }
        i = i + 1;
    }
    assert(v@.take(v.len() as int) =~= v@);
    proof {
        lemma_pieces_len(v@, ',');
        let p = pieces(v@, ',');
        assert(p.drop_last().push(p.last()) =~= p);
        assert(p.drop_last().push(p.last()).drop_last() =~= p.drop_last());
    }
    push_trimmed(&mut out, &cur);
    out
}

/// A prompt answer that is not blank, trimmed; otherwise the default.
pub fn answer_or(answer: Option<String>, default: &str) -> (r: String)
    ensures
        r@ == (match answer {
            Some(t) if trim_seq(t@).len() > 0 => trim_seq(t@),
            _ => default@,
        }),
{
    match answer {
        Some(t) => {
            let v = crate::text::chars_of(t.as_str());
            let tr = crate::text::trim_chars(&v);
            if tr.len() > 0 {
                crate::text::string_from_chars(&tr)
            } else {
                owned(default)
            }
        },
        None => owned(default),
    }
}

/// The flags of a run started from the interactive form: a ready pattern,
/// environment entries, and whether (and how long) to wait; everything else
/// at its default.
pub fn form_run_flags(ready: Option<String>, env: Vec<String>, wait: bool, wait_timeout: String) -> (f:
    RunFlags)
    ensures
        f.ready_when == ready,
        f.env == env,
        f.wait == wait,
        f.wait_timeout == wait_timeout,
        f.ready_when_regex is None && f.ready_when_port is None && f.ready_when_url is None
            && f.ready_when_file is None,
        f.after is None && !f.pty && f.restart is None && f.backoff is None && f.max_retries is None,
        f.log_max_size is None && f.log_keep is None && f.pty_cols is None && f.pty_rows is None,
        f.max_rss_mb is None && f.max_runtime_ms is None && f.allocate_port is None,
        f.health_check_url is None && f.health_check_port is None && f.health_interval is None
            && f.health_threshold is None,
        f.cwd is None && !f.replace,
{
    RunFlags {
        ready_when: ready,
        ready_when_regex: None,
        ready_when_port: None,
        ready_when_url: None,
        ready_when_file: None,
        after: None,
        pty: false,
        restart: None,
        backoff: None,
        max_retries: None,
        log_max_size: None,
        log_keep: None,
        pty_cols: None,
        pty_rows: None,
        max_rss_mb: None,
        max_runtime_ms: None,
        allocate_port: None,
        health_check_url: None,
        health_check_port: None,
        health_interval: None,
        health_threshold: None,
        env,
        cwd: None,
        replace: false,
        wait,
        wait_timeout,
    }
}

/// The run request for a group member that names no job of the config: the
/// name run as the command, under that name, in the given directory, with
/// every other setting at its default.
pub fn group_fallback_args(name: &str, cwd: Option<String>) -> (a: RunArgs)
    ensures
        a.cmd@.len() == 1 && a.cmd@[0]@ == name@,
        a.name matches Some(n) && n@ == name@,
        a.cwd == cwd,
        a.workspace is None && a.readiness is None && a.restart is None && !a.pty,
        a.max_runtime_ms is None && a.max_rss_mb is None && a.after is None,
        a.allocate_port is None && a.health_check is None && a.health_interval_secs is None,
        a.health_threshold is None && a.pty_cols is None && a.pty_rows is None,
        a.env@ == Map::<String, String>::empty(),
{
    let mut cmd: Vec<String> = Vec::new();
    cmd.push(owned(name));
    RunArgs {
        cmd,
        name: Some(owned(name)),
        workspace: None,
        readiness: None,
        restart: None,
        pty: false,
        max_runtime_ms: None,
        max_rss_mb: None,
        env: HashMap::new(),
        after: None,
        cwd,
        allocate_port: None,
        health_check: None,
        health_interval_secs: None,
        health_threshold: None,
        pty_cols: None,
        pty_rows: None,
    }
}

/// The kill request of the command line: a job, or every job of a
/// workspace; at least one of them must be given.
pub fn kill_request(id: Option<String>, workspace: Option<String>) -> (r: Result<crate::command::KillArgs, String>)
    ensures
        (id is None && workspace is None) ==> (r matches Err(m) && m@
            == "either --id or --workspace must be specified"@),
        !(id is None && workspace is None) ==> (r matches Ok(a) && a.id == id && a.workspace
            == workspace),
{
    if id.is_none() && workspace.is_none() {
        return Err(owned("either --id or --workspace must be specified"));
    }
    Ok(crate::command::KillArgs { id, workspace })
}

} // verus!
