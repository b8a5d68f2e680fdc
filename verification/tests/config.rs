use bgrun::assoc::StrMap;
use bgrun::config::{resolve_job_args, BgrunToml, ConfigError, JobConfig};
use bgrun::types::{ReadinessStrategy, RestartPolicy};

fn job(cmd: &str) -> JobConfig {
    JobConfig {
        cmd: cmd.into(),
        ready_when: None,
        ready_when_port: None,
        ready_when_url: None,
        ready_when_file: None,
        ready_when_regex: None,
        restart: None,
        backoff_ms: None,
        workspace: None,
        after: None,
        pty: None,
        max_rss_mb: None,
        max_runtime_ms: None,
        cwd: None,
        env: vec![],
        allocate_port: None,
        health_check_url: None,
        health_check_port: None,
        health_interval_secs: None,
        health_threshold: None,
        cols: None,
        rows: None,
    }
}

/// The sample configuration: the same jobs a `bgrun.toml` would declare.
fn sample() -> BgrunToml {
    let mut jobs = StrMap::new();
    let mut server = job("cargo run --release");
    server.ready_when = Some("listening on".into());
    server.workspace = Some("myproject".into());
    jobs.insert("server".to_string(), server);
    let mut db = job("docker run --rm -p 5432:5432 postgres:16");
    db.ready_when_port = Some(5432);
    db.workspace = Some("myproject".into());
    jobs.insert("db".to_string(), db);
    let mut worker = job("cargo run --bin worker");
    worker.after = Some("db".into());
    worker.workspace = Some("myproject".into());
    jobs.insert("worker".to_string(), worker);
    let mut reliable = job("python worker.py");
    reliable.restart = Some("on-crash".into());
    reliable.workspace = Some("myproject".into());
    jobs.insert("reliable".to_string(), reliable);
    BgrunToml { jobs }
}

#[test]
fn test_resolve_server() {
    let config = sample();
    let args = resolve_job_args("server", &config).unwrap();
    assert_eq!(args.cmd, vec!["cargo", "run", "--release"]);
    assert_eq!(args.name, Some("server".into()));
    assert_eq!(args.readiness, Some(ReadinessStrategy::LogPattern("listening on".into())));
    assert_eq!(args.workspace, Some("myproject".into()));
}

#[test]
fn test_resolve_db_with_port() {
    let config = sample();
    let args = resolve_job_args("db", &config).unwrap();
    assert_eq!(args.cmd, vec!["docker", "run", "--rm", "-p", "5432:5432", "postgres:16"]);
    assert_eq!(args.readiness, Some(ReadinessStrategy::TcpPort(5432)));
}

#[test]
fn test_resolve_missing_job() {
    let config = sample();
    let err = resolve_job_args("nonexistent", &config).unwrap_err();
    assert!(matches!(err, ConfigError::JobNotFound(_)));
}

#[test]
fn test_resolve_worker_no_readiness() {
    let config = sample();
    let args = resolve_job_args("worker", &config).unwrap();
    assert_eq!(args.cmd, vec!["cargo", "run", "--bin", "worker"]);
    assert!(args.readiness.is_none());
}

#[test]
fn test_resolve_restart_policy() {
    let config = sample();
    let args = resolve_job_args("reliable", &config).unwrap();
    assert_eq!(args.restart, Some(RestartPolicy::OnCrash { backoff_ms: 2000 }));
}

#[test]
fn test_config_parsing_and_resolution() {
    let mut jobs = StrMap::new();
    let mut server = job("cargo run --release");
    server.ready_when = Some("listening on".into());
    server.workspace = Some("myproject".into());
    server.restart = Some("on-crash".into());
    jobs.insert("server".to_string(), server);
    let mut db = job("docker run --rm -p 5432:5432 postgres:16");
    db.ready_when_port = Some(5432);
    jobs.insert("db".to_string(), db);
    let mut worker = job("cargo run --bin worker");
    worker.after = Some("db".into());
    jobs.insert("worker".to_string(), worker);
    let config = BgrunToml { jobs };
    assert_eq!(config.jobs.len(), 3);

    let args = resolve_job_args("server", &config).unwrap();
    assert_eq!(args.cmd, vec!["cargo", "run", "--release"]);
    assert_eq!(args.readiness, Some(ReadinessStrategy::LogPattern("listening on".into())));
    assert_eq!(args.workspace, Some("myproject".into()));

    let args = resolve_job_args("db", &config).unwrap();
    assert_eq!(args.readiness, Some(ReadinessStrategy::TcpPort(5432)));

    let args = resolve_job_args("worker", &config).unwrap();
    assert_eq!(args.after, Some("db".into()));
    assert!(args.readiness.is_none());

    let err = resolve_job_args("nonexistent", &config).unwrap_err();
    assert!(matches!(err, ConfigError::JobNotFound(_)));
}

#[test]
fn readiness_priority_and_whitespace() {
    let mut jobs = StrMap::new();
    let mut c = job("  a\tb \u{3000}c  ");
    c.ready_when_port = Some(1);
    c.ready_when_url = Some("http://x".into());
    c.ready_when_file = Some("/f".into());
    c.restart = Some("always".into());
    jobs.insert("x".to_string(), c);
    let config = BgrunToml { jobs };
    let args = resolve_job_args("x", &config).unwrap();
    assert_eq!(args.cmd, vec!["a", "b", "c"]);
    assert_eq!(args.readiness, Some(ReadinessStrategy::TcpPort(1)));
    // only "on-crash" is understood in the project file
    assert_eq!(args.restart, None);
    assert!(!args.pty);
    assert!(args.env.is_empty());
}

#[test]
fn backoff_and_other_documented_fields_are_used() {
    let mut w = job("python worker.py");
    w.restart = Some("on-crash".into());
    w.backoff_ms = Some(5000);
    w.pty = Some(true);
    w.cwd = Some("/srv".into());
    w.env = vec![("FOO".into(), "bar".into())];
    w.max_rss_mb = Some(512);
    w.max_runtime_ms = Some(60000);
    w.allocate_port = Some("PORT".into());
    w.health_check_port = Some(9000);
    w.health_interval_secs = Some(5);
    w.health_threshold = Some(2);
    w.cols = Some(120);
    w.rows = Some(40);
    let mut jobs = StrMap::new();
    jobs.insert("w".to_string(), w);
    let mut plain = job("sleep 1");
    plain.restart = Some("on-crash".into());
    plain.ready_when_regex = Some("up.*".into());
    jobs.insert("p".to_string(), plain);
    let cfg = BgrunToml { jobs };
    let a = resolve_job_args("w", &cfg).unwrap();
    assert_eq!(a.restart, Some(RestartPolicy::OnCrash { backoff_ms: 5000 }));
    assert!(a.pty);
    assert_eq!(a.cwd.as_deref(), Some("/srv"));
    assert_eq!(a.env.get("FOO").map(String::as_str), Some("bar"));
    assert_eq!((a.max_rss_mb, a.max_runtime_ms), (Some(512), Some(60000)));
    assert_eq!(a.allocate_port.as_deref(), Some("PORT"));
    assert_eq!(a.health_check, Some(ReadinessStrategy::TcpPort(9000)));
    assert_eq!((a.health_interval_secs, a.health_threshold), (Some(5), Some(2)));
    assert_eq!((a.pty_cols, a.pty_rows), (Some(120), Some(40)));
    let p = resolve_job_args("p", &cfg).unwrap();
    assert_eq!(p.restart, Some(RestartPolicy::OnCrash { backoff_ms: 2000 }));
    assert_eq!(p.readiness, Some(ReadinessStrategy::LogPatternRegex("up.*".into())));
    assert!(!p.pty);
}
