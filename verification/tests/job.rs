use bgrun::job::{Job, JobError};
use bgrun::types::{JobState, ReadinessStrategy, RestartPolicy};

fn make_job() -> Job {
    Job::new("test-id".into(), vec!["sleep".into(), "60".into()], None, None)
}

#[test]
fn test_job_new_starts_in_starting() {
    let job = make_job();
    assert_eq!(job.state, JobState::Starting);
    assert!(job.is_alive());
}

#[test]
fn test_transition_starting_to_running() {
    let mut job = make_job();
    job.transition(JobState::Running).unwrap();
    assert_eq!(job.state, JobState::Running);
    assert!(job.is_alive());
}

#[test]
fn test_transition_starting_to_ready() {
    let mut job = make_job();
    job.transition(JobState::Ready).unwrap();
    assert_eq!(job.state, JobState::Ready);
    assert!(job.is_alive());
}

#[test]
fn test_transition_running_to_ready() {
    let mut job = make_job();
    job.transition(JobState::Running).unwrap();
    job.transition(JobState::Ready).unwrap();
    assert_eq!(job.state, JobState::Ready);
    assert!(job.is_alive());
}

#[test]
fn test_transition_running_to_exited() {
    let mut job = make_job();
    job.transition(JobState::Running).unwrap();
    job.transition(JobState::Exited).unwrap();
    assert_eq!(job.state, JobState::Exited);
    assert!(!job.is_alive());
}

#[test]
fn test_transition_running_to_crashed() {
    let mut job = make_job();
    job.transition(JobState::Running).unwrap();
    job.transition(JobState::Crashed).unwrap();
    assert_eq!(job.state, JobState::Crashed);
    assert!(!job.is_alive());
}

#[test]
fn test_transition_running_to_killed() {
    let mut job = make_job();
    job.transition(JobState::Running).unwrap();
    job.transition(JobState::Killed).unwrap();
    assert_eq!(job.state, JobState::Killed);
    assert!(!job.is_alive());
}

#[test]
fn test_transition_ready_to_exited() {
    let mut job = make_job();
    job.transition(JobState::Ready).unwrap();
    job.transition(JobState::Exited).unwrap();
    assert_eq!(job.state, JobState::Exited);
}

#[test]
fn test_transition_killed_to_ready_invalid() {
    let mut job = make_job();
    job.transition(JobState::Running).unwrap();
    job.transition(JobState::Killed).unwrap();
    let err = job.transition(JobState::Ready).unwrap_err();
    assert!(matches!(err, JobError::InvalidTransition { .. }));
}

#[test]
fn test_transition_exited_to_running_invalid() {
    let mut job = make_job();
    job.transition(JobState::Running).unwrap();
    job.transition(JobState::Exited).unwrap();
    let err = job.transition(JobState::Running).unwrap_err();
    assert!(matches!(err, JobError::InvalidTransition { .. }));
}

#[test]
fn test_is_alive_various_states() {
    let mut job = make_job();
    assert!(job.is_alive()); // Starting

    job.transition(JobState::Running).unwrap();
    assert!(job.is_alive()); // Running

    job.transition(JobState::Ready).unwrap();
    assert!(job.is_alive()); // Ready

    job.transition(JobState::Exited).unwrap();
    assert!(!job.is_alive()); // Exited
}

#[test]
fn test_to_record() {
    let job = make_job();
    let record = job.to_record();
    assert_eq!(record.id, "test-id");
    assert_eq!(record.state, JobState::Starting);
    assert!(record.cmd.contains(&"sleep".to_string()));
}

#[test]
fn test_error_display() {
    let err = JobError::InvalidTransition {
        from: JobState::Killed,
        to: JobState::Ready,
    };
    let msg = err.to_string();
    assert!(msg.contains("killed"));
    assert!(msg.contains("ready"));
}

#[test]
fn error_message_is_exact() {
    let err = JobError::InvalidTransition { from: JobState::Exited, to: JobState::Running };
    assert_eq!(err.to_string(), "invalid transition from exited to running");
}

#[test]
fn refused_transition_leaves_job_unchanged() {
    let mut job = make_job();
    let err = job.transition(JobState::Exited).unwrap_err();
    let JobError::InvalidTransition { from, to } = err;
    assert_eq!(from, JobState::Starting);
    assert_eq!(to, JobState::Exited);
    assert_eq!(job.state, JobState::Starting);
    // Starting cannot go straight to Killed or back to Starting either
    assert!(job.transition(JobState::Killed).is_err());
    assert!(job.transition(JobState::Starting).is_err());
}

#[test]
fn terminal_states_refuse_every_transition() {
    for end in [JobState::Exited, JobState::Crashed, JobState::Killed] {
        for next in [
            JobState::Starting,
            JobState::Running,
            JobState::Ready,
            JobState::Exited,
            JobState::Crashed,
            JobState::Killed,
        ] {
            let mut job = make_job();
            job.transition(JobState::Running).unwrap();
            job.transition(end).unwrap();
            assert!(job.transition(next).is_err());
            assert_eq!(job.state, end);
        }
    }
}

#[test]
fn record_and_status_carry_settings() {
    let mut job = Job::new_at("j".into(), vec!["a".into()], Some("n".into()), Some("w".into()), 0);
    job.readiness = Some(ReadinessStrategy::TcpPort(3000));
    job.restart = Some(RestartPolicy::OnCrash { backoff_ms: 10 });
    job.pty = true;
    job.max_rss_mb = Some(5);
    job.env.insert("K".into(), "V".into());
    let r = job.to_record();
    assert_eq!(r.started_at, "1970-01-01T00:00:00+00:00");
    assert_eq!(r.readiness, Some(ReadinessStrategy::TcpPort(3000)));
    assert_eq!(r.restart, Some(RestartPolicy::OnCrash { backoff_ms: 10 }));
    assert!(r.pty);
    assert_eq!(r.max_rss_mb, Some(5));
    assert_eq!(r.env.get("K").map(String::as_str), Some("V"));
    assert_eq!(r.name.as_deref(), Some("n"));
    assert_eq!(r.workspace.as_deref(), Some("w"));
    job.ready_at = Some(1_500_000_000);
    let st = job.status();
    assert_eq!(st.ready_at.as_deref(), Some("1970-01-01T00:00:01.500+00:00"));
    assert_eq!(st.state, JobState::Starting);
}

#[test]
fn test_job_lifecycle() {
    let mut job = Job::new(
        "test-1".into(),
        vec!["sleep".into(), "60".into()],
        Some("my-job".into()),
        Some("my-workspace".into()),
    );
    assert_eq!(job.state, JobState::Starting);
    assert!(job.is_alive());
    job.transition(JobState::Running).unwrap();
    assert_eq!(job.state, JobState::Running);
    job.readiness = Some(ReadinessStrategy::LogPattern("listening on".into()));
    job.restart = Some(RestartPolicy::OnCrash { backoff_ms: 2000 });
    job.pty = true;
    job.max_runtime_ms = Some(300_000);
    job.env.insert("RUST_LOG".into(), "debug".into());

    let mut store = bgrun::job_store::JobStore::new();
    store.insert(job);
    {
        let job = store.get("test-1").unwrap();
        assert_eq!(job.name, Some("my-job".into()));
        assert_eq!(job.workspace, Some("my-workspace".into()));
        assert!(job.pty);
        assert_eq!(job.max_runtime_ms, Some(300_000));
        assert_eq!(job.env.get("RUST_LOG").unwrap(), "debug");
        let record = job.to_record();
        assert_eq!(record.restart, job.restart);
        assert!(record.pty);
        assert_eq!(record.max_runtime_ms, Some(300_000));
        assert_eq!(record.env.get("RUST_LOG").unwrap(), "debug");
    }
    {
        let job = store.get_mut("test-1").unwrap();
        job.transition(JobState::Ready).unwrap();
        job.ready_at = Some(1);
    }
    {
        let job = store.get("test-1").unwrap();
        assert_eq!(job.state, JobState::Ready);
        assert!(job.ready_at.is_some());
    }
    store.get_mut("test-1").unwrap().transition(JobState::Killed).unwrap();
    let job = store.get("test-1").unwrap();
    assert_eq!(job.state, JobState::Killed);
    assert!(!job.is_alive());
}
