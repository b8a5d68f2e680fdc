use bgrun::command::RunArgs;
use bgrun::job::Job;
use bgrun::lifecycle::{plan_restart, restart_args, restart_due, spawned_job};
use bgrun::persist::restore_job;
use bgrun::types::{JobState, ReadinessStrategy, RestartPolicy};

fn args() -> RunArgs {
    RunArgs {
        cmd: vec!["cargo".into(), "run".into()],
        name: Some("dev".into()),
        workspace: Some("proj".into()),
        readiness: Some(ReadinessStrategy::LogPattern("listening".into())),
        restart: Some(RestartPolicy::OnCrash { backoff_ms: 1000 }),
        pty: false,
        max_runtime_ms: Some(600_000),
        max_rss_mb: Some(512),
        env: [("RUST_LOG".to_string(), "debug".to_string())].into(),
        after: Some("db".into()),
        cwd: Some("/work".into()),
        allocate_port: Some("PORT".into()),
        health_check: None,
        health_interval_secs: Some(5),
        health_threshold: Some(2),
        pty_cols: Some(100),
        pty_rows: Some(40),
    }
}

fn job_in(state: JobState) -> Job {
    let mut j = Job::new_at("j1".into(), vec!["x".into()], None, None, 0);
    j.state = state;
    j
}

#[test]
fn spawned_job_carries_the_run_settings() {
    let a = args();
    let j = spawned_job("id-1".into(), &a, 4242);
    assert_eq!(j.id, "id-1");
    assert_eq!(j.pid, Some(4242));
    assert_eq!(j.state, JobState::Running);
    assert_eq!(j.cmd, a.cmd);
    assert_eq!(j.name, a.name);
    assert_eq!(j.readiness, a.readiness);
    assert_eq!(j.restart, a.restart);
    assert_eq!(j.max_rss_mb, Some(512));
    assert_eq!(j.env, a.env);
    assert_eq!(j.cwd.as_deref(), Some("/work"));
    assert_eq!(j.allocated_port, None);
    assert_eq!(j.consecutive_failures, 0);
}

#[test]
fn restart_reuses_the_spawn_settings() {
    let a = args();
    let j = spawned_job("id-1".into(), &a, 1);
    let again = restart_args(&j);
    assert_eq!(again.cmd, a.cmd);
    assert_eq!(again.name, a.name);
    assert_eq!(again.workspace, a.workspace);
    assert_eq!(again.readiness, a.readiness);
    assert_eq!(again.restart, a.restart);
    assert_eq!(again.env, a.env);
    assert_eq!(again.cwd, a.cwd);
    assert_eq!(again.max_runtime_ms, a.max_runtime_ms);
    assert_eq!(again.after, None);
    assert_eq!(again.pty_cols, None);
    assert_eq!(again.allocate_port, None);
}

#[test]
fn exit_codes_pick_the_terminal_state() {
    let mut j = job_in(JobState::Running);
    j.consecutive_failures = 3;
    j.record_exit(Some(0));
    assert_eq!(j.state, JobState::Exited);
    assert_eq!(j.consecutive_failures, 0);
    assert_eq!(j.exit_code, Some(0));

    let mut j = job_in(JobState::Ready);
    j.consecutive_failures = 3;
    j.record_exit(Some(2));
    assert_eq!(j.state, JobState::Crashed);
    assert_eq!(j.consecutive_failures, 3);

    let mut j = job_in(JobState::Running);
    j.record_exit(None);
    assert_eq!(j.state, JobState::Crashed);

    let mut j = job_in(JobState::Killed);
    j.record_exit(Some(0));
    assert_eq!(j.state, JobState::Killed);
    assert_eq!(j.exit_code, Some(0));
}

#[test]
fn post_exit_readiness_check_only_for_clean_log_pattern_runs() {
    let mut j = job_in(JobState::Running);
    j.readiness = Some(ReadinessStrategy::LogPattern("ready".into()));
    assert_eq!(j.post_exit_pattern(Some(0)).as_deref(), Some("ready"));
    assert_eq!(j.post_exit_pattern(Some(1)), None);
    j.readiness = Some(ReadinessStrategy::TcpPort(80));
    assert_eq!(j.post_exit_pattern(Some(0)), None);
    let mut r = job_in(JobState::Running);
    r.ready_after_exit(77);
    assert_eq!((r.state, r.ready_at), (JobState::Ready, Some(77)));
    let mut k = job_in(JobState::Killed);
    k.ready_after_exit(77);
    assert_eq!((k.state, k.ready_at), (JobState::Killed, None));
}

#[test]
fn ready_signal_resets_the_failure_streak() {
    let mut j = job_in(JobState::Running);
    j.consecutive_failures = 4;
    assert!(j.on_ready_signal(9));
    assert_eq!((j.state, j.ready_at, j.consecutive_failures), (JobState::Ready, Some(9), 0));
    let mut e = job_in(JobState::Exited);
    assert!(!e.on_ready_signal(9));
    assert_eq!(e.state, JobState::Exited);
}

#[test]
fn restart_policies_follow_their_documentation() {
    let mut j = job_in(JobState::Crashed);
    j.restart = Some(RestartPolicy::OnCrash { backoff_ms: 700 });
    assert_eq!(restart_due(&j), Some(700));
    j.state = JobState::Exited;
    assert_eq!(restart_due(&j), None);

    j.restart = Some(RestartPolicy::OnFailure { backoff_ms: 5 });
    assert_eq!(restart_due(&j), None);
    j.readiness = Some(ReadinessStrategy::TcpPort(1));
    assert_eq!(restart_due(&j), Some(5));
    j.ready_at = Some(1);
    assert_eq!(restart_due(&j), None);

    j.restart = Some(RestartPolicy::Always { backoff_ms: 9 });
    assert_eq!(restart_due(&j), Some(9));
    j.state = JobState::Killed;
    assert_eq!(restart_due(&j), None);

    j.restart = Some(RestartPolicy::Never);
    j.state = JobState::Crashed;
    assert_eq!(restart_due(&j), None);
    j.restart = None;
    assert_eq!(restart_due(&j), None);
}

#[test]
fn backoff_doubles_and_caps() {
    let mut j = job_in(JobState::Crashed);
    j.started_at = 0;
    j.restart = Some(RestartPolicy::OnCrash { backoff_ms: 2000 });
    let now = 1_000_000_000; // ran one second
    let p = plan_restart(&j, now, 123_456_789).unwrap();
    assert_eq!(p.delay_ms, 2000 + 789);
    assert_eq!(p.consecutive_failures, 1);
    j.consecutive_failures = 3;
    let p = plan_restart(&j, now, 0).unwrap();
    assert_eq!(p.delay_ms, 16_000);
    j.consecutive_failures = 20;
    let p = plan_restart(&j, now, 0).unwrap();
    assert_eq!(p.delay_ms, 300_000);
    assert_eq!(p.consecutive_failures, 21);
    // floor at one second
    j.restart = Some(RestartPolicy::OnCrash { backoff_ms: 10 });
    j.consecutive_failures = 0;
    assert_eq!(plan_restart(&j, now, 0).unwrap().delay_ms, 1000);
    // a long run restarts after the base backoff and resets the streak
    j.consecutive_failures = 5;
    let p = plan_restart(&j, 11_000_000_000, 999).unwrap();
    assert_eq!((p.delay_ms, p.consecutive_failures), (1000, 0));
    // huge base backoff saturates before the cap
    j.restart = Some(RestartPolicy::OnCrash { backoff_ms: u64::MAX });
    assert_eq!(plan_restart(&j, now, 0).unwrap().delay_ms, 300_000);
    j.restart = None;
    assert!(plan_restart(&j, now, 0).is_none());
}

#[test]
fn adopted_process_death_crashes_alive_jobs() {
    let mut j = job_in(JobState::Running);
    j.adopted_process_died();
    assert_eq!((j.state, j.exit_code), (JobState::Crashed, Some(-1)));
    let mut e = job_in(JobState::Exited);
    e.adopted_process_died();
    assert_eq!((e.state, e.exit_code), (JobState::Exited, None));
}

#[test]
fn persisted_jobs_read_back() {
    let mut j = spawned_job("id-9".into(), &args(), 77);
    j.started_at = 1_700_000_000_123_456_789;
    j.ready_at = Some(1_700_000_001_000_000_000);
    j.exit_code = Some(3);
    j.restart_count = 2;
    j.last_diff_cursor = 99;
    j.consecutive_failures = 4;
    let back = restore_job(&j.to_record(), &Some(j.status())).unwrap();
    assert_eq!(back.id, j.id);
    assert_eq!(back.cmd, j.cmd);
    assert_eq!(back.state, j.state);
    assert_eq!(back.started_at, j.started_at);
    assert_eq!(back.ready_at, j.ready_at);
    assert_eq!(back.exit_code, Some(3));
    assert_eq!(back.restart_count, 2);
    assert_eq!(back.last_diff_cursor, 99);
    assert_eq!(back.env, j.env);
    assert_eq!(back.consecutive_failures, 0);
    assert_eq!(back.cwd, None);

    let only_record = restore_job(&j.to_record(), &None).unwrap();
    assert_eq!((only_record.exit_code, only_record.restart_count), (None, 0));

    let mut bad = j.to_record();
    bad.started_at = "yesterday".into();
    assert_eq!(
        restore_job(&bad, &None).unwrap_err(),
        "failed to parse started_at for job id-9"
    );
    let mut st = j.status();
    st.ready_at = Some("soon".into());
    assert_eq!(
        restore_job(&j.to_record(), &Some(st)).unwrap_err(),
        "failed to parse ready_at for job id-9"
    );
}
