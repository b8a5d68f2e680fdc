use bgrun::job::Job;
use bgrun::job_store::JobStore;
use bgrun::types::JobState;

fn make_job(id: &str, name: Option<&str>, workspace: Option<&str>) -> Job {
    Job::new(
        id.into(),
        vec!["cmd".into()],
        name.map(|s| s.into()),
        workspace.map(|s| s.into()),
    )
}

#[test]
fn test_insert_and_get() {
    let mut store = JobStore::new();
    let job = make_job("id1", None, None);
    store.insert(job);
    let retrieved = store.get("id1").unwrap();
    assert_eq!(retrieved.id, "id1");
}

#[test]
fn test_get_mut_allows_modification() {
    let mut store = JobStore::new();
    let mut job = make_job("id1", None, None);
    job.state = JobState::Running;
    store.insert(job);
    let stored = store.get_mut("id1").unwrap();
    stored.transition(JobState::Exited).unwrap();
    assert_eq!(store.get("id1").unwrap().state, JobState::Exited);
}

#[test]
fn test_get_nonexistent() {
    let store = JobStore::new();
    assert!(store.get("missing").is_none());
}

#[test]
fn test_find_by_name() {
    let mut store = JobStore::new();
    store.insert(make_job("id1", Some("server"), None));
    let found = store.find_by_name("server").unwrap();
    assert_eq!(found.id, "id1");
}

#[test]
fn test_find_by_name_case_sensitive() {
    let mut store = JobStore::new();
    store.insert(make_job("id1", Some("Server"), None));
    assert!(store.find_by_name("server").is_none());
    assert!(store.find_by_name("Server").is_some());
}

#[test]
fn test_find_by_name_missing() {
    let store = JobStore::new();
    assert!(store.find_by_name("nothing").is_none());
}

#[test]
fn test_list_workspace_all() {
    let mut store = JobStore::new();
    store.insert(make_job("id1", None, Some("ws1")));
    store.insert(make_job("id2", None, Some("ws2")));
    store.insert(make_job("id3", None, None));
    let all = store.list_workspace(None);
    assert_eq!(all.len(), 3);
}

#[test]
fn test_list_workspace_filtered() {
    let mut store = JobStore::new();
    store.insert(make_job("id1", None, Some("ws1")));
    store.insert(make_job("id2", None, Some("ws2")));
    store.insert(make_job("id3", None, Some("ws1")));
    let ws1 = store.list_workspace(Some("ws1"));
    assert_eq!(ws1.len(), 2);
    assert!(ws1.iter().all(|j| j.workspace.as_deref() == Some("ws1")));
}

#[test]
fn test_remove() {
    let mut store = JobStore::new();
    store.insert(make_job("id1", Some("srv"), None));
    let removed = store.remove("id1").unwrap();
    assert_eq!(removed.id, "id1");
    assert!(store.get("id1").is_none());
    assert!(store.find_by_name("srv").is_none());
}

#[test]
fn test_remove_nonexistent() {
    let mut store = JobStore::new();
    assert!(store.remove("missing").is_none());
}

#[test]
fn test_default_is_empty() {
    let store = JobStore::default();
    assert_eq!(store.list_workspace(None).len(), 0);
}

#[test]
fn test_idempotent_named_jobs() {
    let mut store = JobStore::new();
    let mut job1 = Job::new("j1".into(), vec!["cmd1".into()], Some("server".into()), None);
    job1.state = JobState::Running;
    let mut job2 = Job::new("j2".into(), vec!["cmd2".into()], Some("server".into()), None);
    job2.state = JobState::Starting;
    store.insert(job1);
    store.insert(job2);
    // find_by_name returns the most recently inserted job
    let job = store.find_by_name("server").unwrap();
    assert_eq!(job.id, "j2");
    assert_eq!(job.cmd, vec!["cmd2".to_string()]);
}

#[test]
fn resolve_id_order() {
    let mut store = JobStore::new();
    store.insert(make_job("abcd1234", Some("web"), None));
    store.insert(make_job("abcd5678", Some("db"), None));
    store.insert(make_job("ffff0000", None, None));
    // exact id
    assert_eq!(store.resolve_id("abcd1234").as_deref(), Some("abcd1234"));
    // name
    assert_eq!(store.resolve_id("db").as_deref(), Some("abcd5678"));
    // unique prefix of at least four bytes
    assert_eq!(store.resolve_id("ffff").as_deref(), Some("ffff0000"));
    assert_eq!(store.resolve_id("abcd5").as_deref(), Some("abcd5678"));
    // ambiguous prefix
    assert_eq!(store.resolve_id("abcd"), None);
    // too short a prefix
    assert_eq!(store.resolve_id("fff"), None);
    assert_eq!(store.resolve_id("nope"), None);
}

#[test]
fn reinsert_replaces_and_keeps_order() {
    let mut store = JobStore::new();
    store.insert(make_job("a", None, None));
    store.insert(make_job("b", None, None));
    let mut again = make_job("a", None, None);
    again.state = JobState::Running;
    store.insert(again);
    let all = store.list_workspace(None);
    assert_eq!(all.len(), 2);
    assert_eq!(all[0].id, "a");
    assert_eq!(all[0].state, JobState::Running);
    assert_eq!(all[1].id, "b");
}

#[test]
fn removing_a_job_keeps_a_name_that_moved_on() {
    let mut store = JobStore::new();
    store.insert(Job::new("j1".into(), vec!["cmd1".into()], Some("server".into()), None));
    store.insert(Job::new("j2".into(), vec!["cmd2".into()], Some("server".into()), None));
    let removed = store.remove("j1").unwrap();
    assert_eq!(removed.id, "j1");
    assert!(store.get("j1").is_none());
    assert_eq!(store.find_by_name("server").unwrap().id, "j2");
}
