use bgrun::audit::AuditEntry;
use bgrun::command::{Command, KillArgs, RunArgs, TailArgs};
use bgrun::job::Job;
use bgrun::lifecycle::respawned_job;
use bgrun::logs::{line_fields, DiskLogEntry, LineFields};
use bgrun::job_store::JobStore;
use bgrun::readiness::{build_checker, poll_step, CheckerPlan, LogPatternChecker, PollStep, ReadinessChecker, TcpPortChecker, FileExistsChecker, HttpPollChecker};
use bgrun::server::{
    args_summary, attach_target, diff_origin, expect_prefix_len, expect_scan, expect_target, group_label,
    kill_route, list_records, lookup_job, screen_tail, set_diff_cursor, status_reply, stream_backlog, stream_open,
    tail_mode, wait_step, KillRoute, TailMode, WaitStep,
};
use bgrun::supervisor::{
    active_job_count, alive_pids, batch_outcome, dependency_step, id_for_pid, idle_timeout_secs, job_ids_where,
    kibibytes, kill_error_entry, kill_target, launch_check, mark_killed, mebibytes, memory_action, readopt_pid,
    restart_candidate, spawn_start, stats_pid, stdin_target, DependencyStep, MemoryAction, SpawnStart,
    group_order, kill_step, pty_size, KillStep,
};
use bgrun::types::{JobState, ReadinessStrategy, RestartPolicy};

fn job(id: &str, name: Option<&str>, ws: Option<&str>, state: JobState, pid: Option<u32>) -> Job {
    let mut j = Job::new_at(id.into(), vec!["sleep".into(), "9".into()], name.map(Into::into), ws.map(Into::into), 0);
    j.state = state;
    j.pid = pid;
    j
}

fn run_args(name: Option<&str>, after: Option<&str>) -> RunArgs {
    RunArgs {
        cmd: vec!["true".into()],
        name: name.map(Into::into),
        workspace: None,
        readiness: None,
        restart: None,
        pty: false,
        max_runtime_ms: None,
        max_rss_mb: None,
        env: Default::default(),
        after: after.map(Into::into),
        cwd: None,
        allocate_port: None,
        health_check: None,
        health_interval_secs: None,
        health_threshold: None,
        pty_cols: None,
        pty_rows: None,
    }
}

fn store() -> JobStore {
    let mut s = JobStore::new();
    s.insert(job("aaaa-1111", Some("web"), Some("ws1"), JobState::Running, Some(10)));
    s.insert(job("bbbb-2222", Some("db"), Some("ws1"), JobState::Exited, Some(11)));
    s.insert(job("cccc-3333", None, Some("ws2"), JobState::Ready, Some(12)));
    s.insert(job("dddd-4444", None, None, JobState::Starting, None));
    s
}

#[test]
fn status_for_missing_job_returns_error() {
    let s = JobStore::new();
    assert_eq!(status_reply(&s, "missing").unwrap_err(), "job not found");
    let full = store();
    let st = status_reply(&full, "web").unwrap();
    assert_eq!(st.state, JobState::Running);
}

#[test]
fn lookups_resolve_names_and_prefixes() {
    let s = store();
    assert_eq!(lookup_job(&s, "web").as_deref(), Some("aaaa-1111"));
    assert_eq!(lookup_job(&s, "cccc").as_deref(), Some("cccc-3333"));
    assert_eq!(lookup_job(&s, "zzz"), None);
    let recs = list_records(&s, Some("ws1"));
    assert_eq!(recs.len(), 2);
    assert_eq!(recs[1].id, "bbbb-2222");
    assert_eq!(list_records(&s, None).len(), 4);
}

#[test]
fn spawn_is_idempotent_for_alive_named_jobs() {
    let s = store();
    match spawn_start(&s, &run_args(Some("web"), None)) {
        SpawnStart::Existing(r) => assert_eq!(r.id, "aaaa-1111"),
        other => panic!("unexpected {other:?}"),
    }
    match spawn_start(&s, &run_args(Some("db"), Some("web"))) {
        SpawnStart::AwaitDependency(d) => assert_eq!(d, "web"),
        other => panic!("unexpected {other:?}"),
    }
    assert!(matches!(spawn_start(&s, &run_args(None, None)), SpawnStart::Launch));
    assert_eq!(launch_check(&vec![]).unwrap_err(), "command must not be empty");
    assert!(launch_check(&vec!["x".into()]).is_ok());
}

#[test]
fn dependencies_wait_for_ready_or_finished() {
    let mut s = store();
    assert!(matches!(dependency_step(&s, "web", 0), DependencyStep::Wait));
    assert!(matches!(dependency_step(&s, "db", 0), DependencyStep::Proceed));
    match dependency_step(&s, "nope", 0) {
        DependencyStep::Fail(m) => assert_eq!(m, "dependency 'nope' not found"),
        other => panic!("unexpected {other:?}"),
    }
    match dependency_step(&s, "web", 120_000) {
        DependencyStep::Fail(m) => assert_eq!(m, "dependency 'web' did not become ready within 120s"),
        other => panic!("unexpected {other:?}"),
    }
    s.get_mut("aaaa-1111").unwrap().state = JobState::Ready;
    assert!(matches!(dependency_step(&s, "web", 5), DependencyStep::Proceed));
}

#[test]
fn restart_candidates_respect_kills_and_live_names() {
    let mut s = JobStore::new();
    let mut crashed = job("old", Some("svc"), None, JobState::Crashed, Some(1));
    crashed.restart = Some(RestartPolicy::OnCrash { backoff_ms: 100 });
    crashed.restart_count = 2;
    crashed.consecutive_failures = 3;
    s.insert(crashed);
    let (a, carry) = restart_candidate(&s, "old").unwrap();
    assert_eq!(a.name.as_deref(), Some("svc"));
    assert_eq!(a.after, None);
    assert_eq!((carry.restart_count, carry.consecutive_failures), (3, 3));
    let again = respawned_job("next".into(), &a, 77, carry);
    assert_eq!((again.restart_count, again.consecutive_failures), (3, 3));
    assert_eq!(again.state, JobState::Running);
    assert_eq!(again.pid, Some(77));
    s.get_mut("old").unwrap().state = JobState::Killed;
    assert!(restart_candidate(&s, "old").is_none());
    s.get_mut("old").unwrap().state = JobState::Crashed;
    s.insert(job("new", Some("svc"), None, JobState::Running, Some(2)));
    assert!(restart_candidate(&s, "old").is_none());
    assert!(restart_candidate(&s, "missing").is_none());
}

#[test]
fn kill_targets_and_outcomes() {
    let mut s = store();
    assert_eq!(kill_target(&s, "web").unwrap(), ("aaaa-1111".to_string(), 10));
    assert_eq!(kill_target(&s, "db").unwrap_err(), "cannot kill job: it is already in a terminal state");
    assert_eq!(kill_target(&s, "dddd-4444").unwrap_err(), "job has no pid");
    assert_eq!(kill_target(&s, "nobody").unwrap_err(), "job not found");
    assert!(mark_killed(&mut s, "aaaa-1111"));
    assert_eq!(s.get("aaaa-1111").unwrap().state, JobState::Killed);
    assert!(!mark_killed(&mut s, "nobody"));
    // a finished job stays as it was
    assert!(mark_killed(&mut s, "bbbb-2222"));
    assert_eq!(s.get("bbbb-2222").unwrap().state, JobState::Exited);

    let ok: Result<Vec<String>, String> = batch_outcome(vec!["a".into()], &vec![]);
    assert_eq!(ok.unwrap(), vec!["a".to_string()]);
    let errs = vec![kill_error_entry("a", "boom"), kill_error_entry("b", "bust")];
    let bad: Result<Vec<String>, String> = batch_outcome(vec![], &errs);
    assert_eq!(bad.unwrap_err(), "a: boom; b: bust");
    assert_eq!(kill_route(KillArgs { id: None, workspace: None }).unwrap_err(), "id or workspace is required");
    assert!(matches!(kill_route(KillArgs { id: Some("x".into()), workspace: Some("w".into()) }), Ok(KillRoute::One(x)) if x == "x"));
    assert!(matches!(kill_route(KillArgs { id: None, workspace: Some("w".into()) }), Ok(KillRoute::Workspace(w)) if w == "w"));
}

#[test]
fn shutdown_and_clean_pick_the_right_jobs() {
    let s = store();
    assert_eq!(
        alive_pids(&s),
        vec![("aaaa-1111".to_string(), 10), ("cccc-3333".to_string(), 12)]
    );
    assert_eq!(job_ids_where(&s, Some("ws1"), true), vec!["aaaa-1111".to_string()]);
    assert_eq!(job_ids_where(&s, None, false), vec!["bbbb-2222".to_string()]);
    assert_eq!(active_job_count(&s), 3);
    assert_eq!(idle_timeout_secs(Some("15")), 15);
    assert_eq!(idle_timeout_secs(Some("soon")), 60);
    assert_eq!(idle_timeout_secs(None), 60);
}

#[test]
fn stats_and_memory_limits() {
    let s = store();
    assert_eq!(stats_pid(&s, "web").unwrap(), 10);
    assert_eq!(stats_pid(&s, "dddd").unwrap_err(), "job has no pid");
    assert_eq!(stats_pid(&s, "zz").unwrap_err(), "job not found");
    assert_eq!(mebibytes(5 * 1024 * 1024 + 7), 5);
    assert_eq!(kibibytes(3000), 2);
    assert_eq!(memory_action(Some((Some(1), true)), Some(300 * 1024), 256), MemoryAction::Kill);
    assert_eq!(memory_action(Some((Some(1), true)), Some(256 * 1024), 256), MemoryAction::Continue);
    assert_eq!(memory_action(Some((Some(1), true)), None, 256), MemoryAction::Continue);
    assert_eq!(memory_action(Some((None, true)), Some(1), 0), MemoryAction::Stop);
    assert_eq!(memory_action(Some((Some(1), false)), Some(1 << 40), 0), MemoryAction::Stop);
    assert_eq!(memory_action(None, None, 0), MemoryAction::Stop);
}

#[test]
fn stdin_goes_to_jobs_with_handles() {
    let s = store();
    let handles = vec!["aaaa-1111".to_string()];
    assert_eq!(stdin_target(&s, "aaaa-1111", &handles).unwrap(), "aaaa-1111");
    assert_eq!(stdin_target(&s, "web", &handles).unwrap(), "aaaa-1111");
    assert_eq!(
        stdin_target(&s, "db", &handles).unwrap_err(),
        "stdin handle for job 'db' is no longer available (process may have exited)"
    );
    assert_eq!(stdin_target(&s, "ghost", &handles).unwrap_err(), "job 'ghost' not found");
}

#[test]
fn readoption_after_daemon_restart() {
    assert_eq!(readopt_pid(&job("a", None, None, JobState::Running, Some(5))), Some(5));
    assert_eq!(readopt_pid(&job("a", None, None, JobState::Ready, Some(6))), Some(6));
    assert_eq!(readopt_pid(&job("a", None, None, JobState::Exited, Some(5))), None);
    assert_eq!(readopt_pid(&job("a", None, None, JobState::Running, None)), None);
    let mut dead = job("a", None, None, JobState::Ready, Some(5));
    dead.mark_dead_on_restart();
    assert_eq!(dead.state, JobState::Crashed);
    let s = store();
    assert_eq!(id_for_pid(&s, 12), "cccc-3333");
    assert_eq!(id_for_pid(&s, 99), "");
}

#[test]
fn attach_and_expect_targets() {
    let mut s = store();
    assert_eq!(attach_target(&s, "web").unwrap_err(), "job not found, not alive, or not a PTY job");
    s.get_mut("aaaa-1111").unwrap().pty = true;
    assert_eq!(attach_target(&s, "web").unwrap(), "aaaa-1111");
    assert_eq!(expect_target(&s, "web").unwrap(), "aaaa-1111");
    assert_eq!(expect_target(&s, "db").unwrap_err(), "job is not alive");
    assert_eq!(expect_target(&s, "nope").unwrap_err(), "job not found");
}

#[test]
fn diff_cursor_round_trip() {
    let mut s = store();
    assert_eq!(diff_origin(&s, "web"), Some(("aaaa-1111".to_string(), 0)));
    set_diff_cursor(&mut s, "aaaa-1111", 512);
    assert_eq!(diff_origin(&s, "web"), Some(("aaaa-1111".to_string(), 512)));
    assert_eq!(diff_origin(&s, "nobody"), None);
}

#[test]
fn wait_answers() {
    let mut s = store();
    assert!(matches!(wait_step(&s, "web", 0, 1000), WaitStep::Pending));
    assert!(matches!(wait_step(&s, "ghost", 0, 1000), WaitStep::NotFound));
    match wait_step(&s, "web", 1000, 1000) {
        WaitStep::Done { ready, exit_code, state } => assert_eq!((ready, exit_code, state), (false, None, None)),
        other => panic!("unexpected {other:?}"),
    }
    match wait_step(&s, "cccc", 10, 1000) {
        WaitStep::Done { ready, exit_code, state } => assert_eq!((ready, exit_code, state), (true, None, None)),
        other => panic!("unexpected {other:?}"),
    }
    s.get_mut("bbbb-2222").unwrap().exit_code = Some(0);
    match wait_step(&s, "db", 10, 1000) {
        WaitStep::Done { ready, exit_code, state } => {
            assert_eq!((ready, exit_code, state.as_deref()), (false, Some(0), Some("exited")))
        }
        other => panic!("unexpected {other:?}"),
    }
}

#[test]
fn expect_scans_new_lines() {
    let raw = [
        r#"{"t":"2026-01-01T00:00:00.000Z","s":"stdout","c":"booting"}"#,
        r#"{"t":"2026-01-01T00:00:01.000Z","s":"stdout","c":"listening on 8080"}"#,
        "listening again",
    ];
    let lines: Vec<LineFields> = raw
        .iter()
        .enumerate()
        .map(|(i, r)| match i {
            0 => line_fields(r, Some(DiskLogEntry { t: "2026-01-01T00:00:00.000Z".into(), s: "stdout".into(), c: "booting".into() })),
            1 => line_fields(
                r,
                Some(DiskLogEntry { t: "2026-01-01T00:00:01.000Z".into(), s: "stdout".into(), c: "listening on 8080".into() }),
            ),
            _ => line_fields(r, None),
        })
        .collect();
    let (m, n) = expect_scan(&lines, "listening", false, 10);
    let m = m.unwrap();
    assert_eq!((m.line_number, m.content.as_str(), n), (12, "listening on 8080", 13));
    let (m, _) = expect_scan(&lines, "on \\d+", true, 0);
    assert_eq!(m.unwrap().line_number, 2);
    let (m, n) = expect_scan(&lines, "(", true, 0);
    assert!(m.is_none());
    assert_eq!(n, 3);
    // the pattern is matched against the content only, not the timestamp or stream
    let (m, _) = expect_scan(&lines, "stdout", false, 0);
    assert!(m.is_none());
    let (m, _) = expect_scan(&lines, "2026", false, 0);
    assert!(m.is_none());
    assert_eq!(expect_prefix_len(5), 5);
    assert_eq!(expect_prefix_len(20 * 1024 * 1024), 10 * 1024 * 1024);
}

#[test]
fn screen_shows_last_lines() {
    let buf = b"one\ntwo\r\nthree\nfour";
    assert_eq!(screen_tail(buf, 2), vec!["three".to_string(), "four".into()]);
    assert_eq!(screen_tail(buf, 10).len(), 4);
    assert_eq!(screen_tail(buf, 10)[1], "two");
    assert!(screen_tail(b"", 3).is_empty());
}

#[test]
fn audit_summaries() {
    let mut a = run_args(Some("web"), None);
    a.cmd = vec!["npm".into(), "start".into()];
    assert_eq!(args_summary(&Command::Run(a)), "name=web cmd=\"npm start\"");
    assert_eq!(args_summary(&Command::Run(run_args(None, None))), "cmd=\"true\"");
    assert_eq!(args_summary(&Command::Kill(KillArgs { id: None, workspace: Some("w".into()) })), "workspace=w");
    assert_eq!(args_summary(&Command::Kill(KillArgs { id: None, workspace: None })), "");
    let t = TailArgs {
        id: "x".into(),
        lines: 20,
        digest: false,
        level: None,
        strip_ansi: false,
        stream: None,
        cursor: None,
        follow: false,
        filter_regex: Some("a".into()),
    };
    assert_eq!(args_summary(&Command::Tail(t)), "id=x lines=20 filter=regex");
    assert_eq!(args_summary(&Command::List { workspace: None }), "*");
    assert_eq!(args_summary(&Command::ResizePty { id: "p".into(), cols: 80, rows: 24 }), "id=p 80x24");
    assert_eq!(args_summary(&Command::RunGroup { jobs: vec![run_args(None, None); 3] }), "3 jobs");
    assert_eq!(
        args_summary(&Command::Expect { id: "e".into(), pattern: "ok".into(), is_regex: false, timeout_ms: 1 }),
        "id=e pattern=\"ok\""
    );
    let e = AuditEntry::new("t".into(), "Status", "id=x", false, Some("job not found"));
    assert_eq!(e.result, "err:job not found");
    assert_eq!(AuditEntry::new("t".into(), "List", "*", false, None).result, "err:unknown");
    assert_eq!(AuditEntry::new("t".into(), "List", "*", true, None).result, "ok");
    assert_eq!(group_label(&run_args(None, None)), "unnamed");
    assert_eq!(group_label(&run_args(Some("api"), None)), "api");
}

#[test]
fn tail_modes() {
    let mut t = TailArgs {
        id: "x".into(),
        lines: 0,
        digest: true,
        level: None,
        strip_ansi: false,
        stream: None,
        cursor: Some(5),
        follow: true,
        filter_regex: None,
    };
    assert_eq!(tail_mode(&t), TailMode::Digest { with_lines: false });
    t.digest = false;
    assert_eq!(tail_mode(&t), TailMode::Since(5));
    t.cursor = None;
    assert_eq!(tail_mode(&t), TailMode::Last { with_cursor: true });
}

#[test]
fn test_build_checker_pattern() {
    let strategy = ReadinessStrategy::LogPattern("ready".into());
    let checker = build_checker(&strategy, "/tmp/test-job");
    match checker {
        CheckerPlan::LogPattern(c) => {
            assert_eq!(c.path(), "/tmp/test-job/stdout.log");
            assert_eq!(c.pattern(), "ready");
            assert_eq!(c.description(), "log pattern 'ready'");
        }
        other => panic!("unexpected {other:?}"),
    }
}

#[test]
fn test_build_checker_port() {
    let strategy = ReadinessStrategy::TcpPort(3000);
    let checker = build_checker(&strategy, "/tmp/test-job");
    assert_eq!(checker.description(), "TCP port 3000");
    match checker {
        CheckerPlan::Tcp(c) => assert_eq!(c.address(), "127.0.0.1:3000"),
        other => panic!("unexpected {other:?}"),
    }
}

#[test]
fn test_build_checker_http() {
    let strategy = ReadinessStrategy::HttpPoll("http://localhost:3000/health".into());
    let checker = build_checker(&strategy, "/tmp/test-job");
    assert_eq!(checker.description(), "HTTP poll 'http://localhost:3000/health'");
}

#[test]
fn test_build_checker_file() {
    let strategy = ReadinessStrategy::FileExists("/tmp/ready".into());
    let checker = build_checker(&strategy, "/tmp/test-job");
    assert_eq!(checker.description(), "file '/tmp/ready'");
}

#[test]
fn regex_readiness_falls_back_to_substring() {
    let bad = build_checker(&ReadinessStrategy::LogPatternRegex("(".into()), "/j");
    assert!(matches!(bad, CheckerPlan::LogPattern(_)));
    let good = build_checker(&ReadinessStrategy::LogPatternRegex("^Hello \\d+$".into()), "/j");
    match good {
        CheckerPlan::LogRegex(mut c) => {
            assert_eq!(c.description(), "log regex '^Hello \\d+$'");
            assert!(!c.observe(b"Hello x\n"));
            assert!(c.observe(b"Hello 42"));
            assert_eq!(c.offset(), 16);
        }
        other => panic!("unexpected {other:?}"),
    }
}

#[test]
fn log_pattern_checker_tracks_offsets() {
    let mut c = LogPatternChecker::new("/j/stdout.log".into(), "target".into());
    assert!(!c.observe(b"line1\nline2\n"));
    assert_eq!(c.offset(), 12);
    assert!(c.observe(b"target found\n"));
    assert_eq!(c.offset(), 25);
    assert!(!c.observe(b""));
    let mut m = LogPatternChecker::new("p".into(), "listening on".into());
    assert!(m.observe(b"line 1\nlistening on :8080\nline 3\n"));
}

#[test]
fn checker_descriptions() {
    assert_eq!(TcpPortChecker::new(8080).description(), "TCP port 8080");
    assert_eq!(FileExistsChecker::new("/tmp/x".into()).description(), "file '/tmp/x'");
    assert_eq!(HttpPollChecker::new("http://h".into()).description(), "HTTP poll 'http://h'");
    assert_eq!(poll_step(60_000, 60_000, true), PollStep::TimedOut);
    assert_eq!(poll_step(5, 60_000, false), PollStep::JobGone);
    assert_eq!(poll_step(5, 60_000, true), PollStep::Check);
}

#[test]
fn run_groups_start_dependencies_first() {
    let jobs = vec![run_args(Some("server"), Some("db")), run_args(Some("db"), None)];
    assert_eq!(group_order(&jobs), vec![1, 0]);
    let chain = vec![
        run_args(Some("a"), Some("b")),
        run_args(Some("b"), Some("c")),
        run_args(Some("c"), None),
        run_args(None, Some("elsewhere")),
    ];
    assert_eq!(group_order(&chain), vec![2, 3, 1, 0]);
    let cycle = vec![run_args(Some("x"), Some("y")), run_args(Some("y"), Some("x")), run_args(Some("z"), None)];
    assert_eq!(group_order(&cycle), vec![2, 0, 1]);
    assert!(group_order(&vec![]).is_empty());
}

#[test]
fn kills_escalate_only_for_groups_still_running() {
    assert_eq!(kill_step(100, true), KillStep::Wait);
    assert_eq!(kill_step(5000, true), KillStep::Escalate);
    assert_eq!(kill_step(9000, false), KillStep::Done);
    assert_eq!(kill_step(0, false), KillStep::Done);
}

#[test]
fn pty_sizes_default_to_eighty_by_twenty_four() {
    assert_eq!(pty_size(None, None), (80, 24));
    assert_eq!(pty_size(Some(120), None), (120, 24));
    assert_eq!(pty_size(None, Some(50)), (80, 50));
}

#[test]
fn log_streams_open_on_known_jobs() {
    let s = store();
    assert_eq!(stream_open(&s, "web").unwrap(), "aaaa-1111");
    let refusal = stream_open(&s, "nobody").unwrap_err();
    assert_eq!(refusal.id, "stream");
    assert!(!refusal.ok);
    assert_eq!(refusal.error.as_deref(), Some("job not found"));
    let entries = vec![
        line_fields("x", Some(DiskLogEntry { t: "T".into(), s: "stdout".into(), c: "hello".into() })),
        line_fields("plain", None),
    ];
    let back = stream_backlog(&entries);
    assert_eq!(back.len(), 2);
    assert_eq!((back[0].line_number, back[0].content.as_str(), back[0].timestamp.as_deref()), (0, "hello", Some("T")));
    assert_eq!((back[1].content.as_str(), back[1].timestamp.as_deref()), ("plain", None));
}

#[test]
fn log_checks_read_only_what_the_log_gained() {
    let mut c = LogPatternChecker::new("/j/stdout.log".into(), "target".into());
    assert!(!c.check_log(None));
    assert_eq!(c.offset(), 0);
    let first = b"line1\nline2\n".to_vec();
    assert!(!c.check_log(Some(&first)));
    assert_eq!(c.offset(), 12);
    let mut grown = first.clone();
    grown.extend_from_slice(b"target found\n");
    assert!(c.check_log(Some(&grown)));
    assert_eq!(c.offset(), 25);
    assert!(!c.check_log(Some(&grown)));
    assert_eq!(c.offset(), 25);
    assert!(!c.check_log(Some(b"target")));
    assert_eq!(c.offset(), 25);
    let mut r = match build_checker(&ReadinessStrategy::LogPatternRegex("^Hello \\d+$".into()), "/j") {
        CheckerPlan::LogRegex(r) => r,
        other => panic!("unexpected {other:?}"),
    };
    assert!(!r.check_log(Some(b"Hello x\n")));
    assert_eq!(r.offset(), 8);
    assert!(r.check_log(Some(b"Hello x\nHello 42")));
    assert_eq!(r.offset(), 16);
    assert!(!r.check_log(None));
    assert_eq!(r.offset(), 16);
}
