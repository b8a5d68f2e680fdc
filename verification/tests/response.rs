use bgrun::response::Response;
use bgrun::types::JobState;

#[test]
fn test_response_ok_constructor() {
    let r = Response::ok("req-1".into(), "hello".to_string());
    assert!(r.ok);
    assert_eq!(r.data, Some("hello".to_string()));
    assert_eq!(r.error, None);
}

#[test]
fn test_response_err_constructor() {
    let r = Response::<String>::err("req-1".into(), "something went wrong");
    assert!(!r.ok);
    assert_eq!(r.data, None);
    assert_eq!(r.error, Some("something went wrong".into()));
}

#[test]
fn test_job_state_display() {
    assert_eq!(JobState::Starting.to_string(), "starting");
    assert_eq!(JobState::Running.to_string(), "running");
    assert_eq!(JobState::Ready.to_string(), "ready");
    assert_eq!(JobState::Exited.to_string(), "exited");
    assert_eq!(JobState::Crashed.to_string(), "crashed");
    assert_eq!(JobState::Killed.to_string(), "killed");
}

#[test]
fn response_ids_are_kept() {
    let r = Response::ok("abc".into(), 3u32);
    assert_eq!(r.id, "abc");
    assert_eq!(r.data, Some(3));
    let e = Response::<u32>::err("def".into(), "boom");
    assert_eq!(e.id, "def");
    assert_eq!(e.error.as_deref(), Some("boom"));
}
