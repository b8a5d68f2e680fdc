use bgrun::paths::{job_dir, job_dir_under, socket_path_from, state_dir_from};

#[test]
fn job_dir_includes_job_id() {
    assert!(job_dir("abc123").ends_with("jobs/abc123"));
}

#[test]
fn paths_are_joined() {
    assert_eq!(job_dir_under("/data/bgrun", "j1"), "/data/bgrun/jobs/j1");
    assert_eq!(job_dir_under("/data/bgrun/", "j1"), "/data/bgrun/jobs/j1");
    assert_eq!(state_dir_from(None, 1000), "/tmp/bgrun-1000");
    assert_eq!(state_dir_from(Some("/x/y"), 1000), "/x/y");
    assert_eq!(socket_path_from(Some("/run/user/1000"), 7), "/run/user/1000/bgrun/daemon.sock");
    assert_eq!(socket_path_from(None, 0), "/tmp/bgrun-0/daemon.sock");
}

#[test]
fn socket_path_ends_with_daemon_socket() {
    assert!(socket_path_from(None, 42).ends_with("daemon.sock"));
}
