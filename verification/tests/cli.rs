use bgrun::attach::DetachFilter;
use bgrun::cli::{
    answer_or, apply_config, assemble_run_args, config_key, digest_report, env_map, expect_report, export_default_name,
    form_run_flags, keep_inherited, log_line_text, parse_env_list, resolve_restart_policy, run_env_pairs,
    shell_wrap, skill_targets, split_env_csv, wait_report, RunFlags,
};
use bgrun::command::RunArgs;
use bgrun::response::{LogDigest, WaitResult};
use bgrun::types::{ReadinessStrategy, RestartPolicy};

fn flags() -> RunFlags {
    form_run_flags(None, vec![], false, "60s".into())
}

fn config_args() -> RunArgs {
    RunArgs {
        cmd: vec!["cargo".into(), "run".into()],
        name: Some("server".into()),
        workspace: Some("proj".into()),
        readiness: Some(ReadinessStrategy::TcpPort(8080)),
        restart: None,
        pty: false,
        max_runtime_ms: None,
        max_rss_mb: None,
        env: Default::default(),
        after: Some("db".into()),
        cwd: None,
        allocate_port: None,
        health_check: None,
        health_interval_secs: None,
        health_threshold: None,
        pty_cols: None,
        pty_rows: None,
    }
}

#[test]
fn env_entries_parse_or_fail() {
    let ok = parse_env_list(&vec!["A=1".into(), "B=x=y".into(), "C=".into()]).unwrap();
    assert_eq!(
        ok,
        vec![("A".to_string(), "1".to_string()), ("B".into(), "x=y".into()), ("C".into(), "".into())]
    );
    assert_eq!(
        parse_env_list(&vec!["A=1".into(), "NOPE".into()]).unwrap_err(),
        "invalid --env \"NOPE\": expected KEY=VAL"
    );
    assert_eq!(parse_env_list(&vec!["=v".into()]).unwrap_err(), "invalid --env \"=v\": key must not be empty");
}

#[test]
fn inherited_terminal_variables_come_first() {
    let vars = vec![
        ("TERM".to_string(), "xterm".to_string()),
        ("HOME".into(), "/root".into()),
        ("LC_ALL".into(), "C".into()),
        ("LANG".into(), "en".into()),
    ];
    let kept = keep_inherited(&vars);
    assert_eq!(kept.len(), 3);
    let pairs = run_env_pairs(&vars, &vec!["TERM=dumb".into()]).unwrap();
    assert_eq!(pairs.last().unwrap(), &("TERM".to_string(), "dumb".to_string()));
    assert_eq!(pairs.len(), 4);
}

#[test]
fn restart_policy_names() {
    let mut f = flags();
    assert_eq!(resolve_restart_policy(&f).unwrap(), None);
    f.restart = Some("on-crash".into());
    assert_eq!(resolve_restart_policy(&f).unwrap(), Some(RestartPolicy::OnCrash { backoff_ms: 2000 }));
    f.backoff = Some("5s".into());
    f.restart = Some("always".into());
    assert_eq!(resolve_restart_policy(&f).unwrap(), Some(RestartPolicy::Always { backoff_ms: 5000 }));
    f.restart = Some("on-failure".into());
    assert_eq!(resolve_restart_policy(&f).unwrap(), Some(RestartPolicy::OnFailure { backoff_ms: 5000 }));
    f.restart = Some("never".into());
    assert_eq!(resolve_restart_policy(&f).unwrap(), Some(RestartPolicy::Never));
    f.restart = Some("sometimes".into());
    assert_eq!(
        resolve_restart_policy(&f).unwrap_err(),
        "invalid restart policy: \"sometimes\" (expected 'never', 'on-crash', 'on-failure' or 'always')"
    );
    f.backoff = Some(" soon ".into());
    assert_eq!(resolve_restart_policy(&f).unwrap_err(), "invalid duration: \"soon\"");
}

#[test]
fn config_fills_a_single_word_run() {
    let (cmd, name, ws, f) = apply_config(vec!["server".into()], None, None, flags(), Some(config_args()));
    assert_eq!(cmd, vec!["cargo".to_string(), "run".into()]);
    assert_eq!(name.as_deref(), Some("server"));
    assert_eq!(ws.as_deref(), Some("proj"));
    assert_eq!(f.ready_when_port, Some(8080));
    assert_eq!(f.after.as_deref(), Some("db"));

    let mut mine = flags();
    mine.ready_when = Some("up".into());
    let (_, name, _, f) = apply_config(vec!["server".into()], Some("own".into()), None, mine, Some(config_args()));
    assert_eq!(name.as_deref(), Some("own"));
    assert_eq!(f.ready_when_port, None);
    assert_eq!(f.ready_when.as_deref(), Some("up"));

    let (cmd, _, _, _) = apply_config(vec!["a".into(), "b".into()], None, None, flags(), Some(config_args()));
    assert_eq!(cmd.len(), 2);
}

#[test]
fn a_custom_command_keeps_precedence_over_the_named_entry() {
    assert_eq!(config_key(&vec!["cargo run --release".into()], &Some("server".into())).as_deref(), Some("server"));
    assert_eq!(config_key(&vec!["server".into()], &None).as_deref(), Some("server"));
    assert_eq!(config_key(&vec!["a".into(), "b".into()], &None), None);
    let mut no_ready = flags();
    no_ready.ready_when = Some("up".into());
    let (cmd, name, ws, f) = apply_config(
        vec!["cargo run --release".into()],
        Some("server".into()),
        None,
        no_ready,
        Some(config_args()),
    );
    assert_eq!(cmd, vec!["cargo run --release".to_string()]);
    assert_eq!(name.as_deref(), Some("server"));
    assert_eq!(ws.as_deref(), Some("proj"));
    assert_eq!(f.after.as_deref(), Some("db"));
}

#[test]
fn single_words_run_through_the_shell() {
    assert_eq!(shell_wrap(vec!["npm run dev".into()]), vec!["sh".to_string(), "-c".into(), "npm run dev".into()]);
    assert_eq!(shell_wrap(vec!["ls".into(), "-l".into()]).len(), 2);
}

#[test]
fn run_requests_are_checked_in_order() {
    let mut f = flags();
    f.replace = true;
    assert_eq!(
        assemble_run_args(vec!["x".into()], None, None, f, &vec![], None).unwrap_err(),
        "run: --replace requires --name"
    );
    let mut f = flags();
    f.wait = true;
    f.wait_timeout = "later".into();
    assert_eq!(
        assemble_run_args(vec!["x".into()], None, None, f, &vec![], None).unwrap_err(),
        "invalid duration: \"later\""
    );
    let mut f = flags();
    f.log_max_size = Some("10x".into());
    assert_eq!(
        assemble_run_args(vec!["x".into()], None, None, f, &vec![], None).unwrap_err(),
        "invalid size: \"10x\""
    );
    let mut f = flags();
    f.log_keep = Some(0);
    assert_eq!(
        assemble_run_args(vec!["x".into()], None, None, f, &vec![], None).unwrap_err(),
        "invalid --log-keep 0: must retain at least one rotated file"
    );
    let mut f = flags();
    f.env = vec!["BAD".into()];
    f.restart = Some("bogus".into());
    assert_eq!(
        assemble_run_args(vec!["x".into()], None, None, f, &vec![], None).unwrap_err(),
        "invalid --env \"BAD\": expected KEY=VAL"
    );
}

#[test]
fn run_requests_carry_the_flags() {
    let mut f = flags();
    f.ready_when = Some("up".into());
    f.ready_when_regex = Some("^up$".into());
    f.health_check_port = Some(9000);
    f.env = vec!["A=1".into()];
    f.pty = true;
    f.pty_cols = Some(120);
    let vars = vec![("LANG".to_string(), "C".to_string())];
    let a = assemble_run_args(vec!["x".into()], Some("n".into()), None, f, &vars, Some("/here".into())).unwrap();
    assert_eq!(a.readiness, Some(ReadinessStrategy::LogPatternRegex("^up$".into())));
    assert_eq!(a.health_check, Some(ReadinessStrategy::TcpPort(9000)));
    assert_eq!(a.cwd.as_deref(), Some("/here"));
    assert_eq!(a.env.get("A").map(String::as_str), Some("1"));
    assert_eq!(a.env.get("LANG").map(String::as_str), Some("C"));
    assert!(a.pty);
    assert_eq!(a.pty_cols, Some(120));
    assert_eq!(a.name.as_deref(), Some("n"));
}

#[test]
fn texts_for_the_terminal() {
    assert_eq!(log_line_text(7, "all good"), "     7 | all good");
    assert_eq!(log_line_text(1234567, "ok"), "1234567 | ok");
    assert_eq!(log_line_text(3, "An Error"), "\x1b[31m     3 | An Error\x1b[0m");
    assert_eq!(log_line_text(3, "warning"), "\x1b[33m     3 | warning\x1b[0m");
    let ready = WaitResult { ready: true, elapsed_ms: 42, exit_code: None, state: Some("ready".into()) };
    assert_eq!(wait_report("j", &ready), "Job j is ready (42ms)");
    let ended = WaitResult { ready: false, elapsed_ms: 5, exit_code: Some(-1), state: Some("crashed".into()) };
    assert_eq!(wait_report("j", &ended), "Job j reached terminal state crashed, exit_code=-1 (5ms)");
    let late = WaitResult { ready: false, elapsed_ms: 60000, exit_code: None, state: None };
    assert_eq!(wait_report("j", &late), "Job j did not become ready within 60000ms");
    let d = LogDigest { total_lines: 10, errors: 2, warnings: 1, last_error: Some("boom".into()), last_error_line: Some(9) };
    assert_eq!(
        digest_report(&d),
        vec!["Lines: 10  Errors: 2  Warnings: 1".to_string(), "Last error (line 9): boom".into()]
    );
    assert_eq!(expect_report(Some((4, "hit"))), "Pattern matched at line 4: hit");
    assert_eq!(expect_report(None), "Pattern did not match before timeout");
    assert_eq!(export_default_name("0123456789abcdef"), "bgrun-01234567.log");
    assert_eq!(export_default_name("äb"), "bgrun-äb.log");
}

#[test]
fn skill_install_targets() {
    assert_eq!(
        skill_targets("opencode", false, Some("/home/u"), Some("/w")).unwrap(),
        vec!["/home/u/.config/opencode/skills/bgrun".to_string()]
    );
    assert_eq!(
        skill_targets("codex", true, None, Some("/w")).unwrap(),
        vec!["/w/.codex/skills/bgrun".to_string()]
    );
    assert_eq!(skill_targets("all", false, Some("/h"), None).unwrap().len(), 2);
    assert_eq!(
        skill_targets("all", false, None, None).unwrap_err(),
        "HOME environment variable not set"
    );
    assert_eq!(
        skill_targets("opencode", true, None, None).unwrap_err(),
        "failed to get current working directory"
    );
    assert_eq!(skill_targets("/opt/skills", false, None, None).unwrap(), vec!["/opt/skills".to_string()]);
}

#[test]
fn interactive_form_helpers() {
    assert_eq!(
        split_env_csv(" PORT=3000 , ,RUST_LOG=debug,"),
        vec!["PORT=3000".to_string(), "RUST_LOG=debug".into()]
    );
    assert!(split_env_csv("").is_empty());
    assert_eq!(answer_or(Some("  5s ".into()), "60s"), "5s");
    assert_eq!(answer_or(Some("   ".into()), "60s"), "60s");
    assert_eq!(answer_or(None, "60s"), "60s");
    let f = form_run_flags(Some("ready".into()), vec!["A=1".into()], true, "30s".into());
    assert_eq!(f.ready_when.as_deref(), Some("ready"));
    assert!(f.wait && !f.replace && !f.pty);
}

#[test]
fn detach_sequence() {
    let mut f = DetachFilter::new();
    let (out, detach) = f.feed(b"ls\n");
    assert_eq!((out.as_slice(), detach), (&b"ls\n"[..], false));
    let (out, detach) = f.feed(&[0x10]);
    assert_eq!((out.len(), detach, f.ctrl_p_pressed), (0, false, true));
    let (out, detach) = f.feed(&[b'x', 0x03]);
    assert_eq!((out, detach), (vec![0x10, b'x', 0x03], false));
    let (out, detach) = f.feed(&[b'a', 0x10, 0x11, b'z']);
    assert_eq!((out, detach), (vec![b'a'], true));
    let mut g = DetachFilter::new();
    g.feed(&[0x10]);
    assert_eq!(g.finish(), vec![0x10]);
    assert!(DetachFilter::new().finish().is_empty());
}

#[test]
fn later_env_pairs_override_earlier_ones() {
    let pairs = vec![
        ("A".to_string(), "1".to_string()),
        ("B".to_string(), "2".to_string()),
        ("A".to_string(), "3".to_string()),
    ];
    let m = env_map(&pairs);
    assert_eq!(m.len(), 2);
    assert_eq!(m.get("A").map(String::as_str), Some("3"));
    assert_eq!(m.get("B").map(String::as_str), Some("2"));
    assert!(env_map(&vec![]).is_empty());
}
