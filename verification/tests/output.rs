use bgrun::output::{
    active_id_lines, active_workspaces, color_state, dashboard_counts, job_detail_lines, job_label, job_table_lines, output_mode, short_id, status_lines,
    OutputMode,
};
use bgrun::job::Job;

#[test]
fn output_mode_values_are_distinct() {
    assert_ne!(OutputMode::Human, OutputMode::Json);
}

#[test]
fn output_mode_follows_flag() {
    assert_eq!(output_mode(true, true), OutputMode::Json);
    assert_eq!(output_mode(false, true), OutputMode::Human);
    // piped output is JSON
    assert_eq!(output_mode(false, false), OutputMode::Json);
    assert_eq!(output_mode(true, false), OutputMode::Json);
}

#[test]
fn color_state_colors_capitalized_labels_only() {
    assert_eq!(color_state("running"), "running");
    assert_eq!(color_state("other"), "other");
    assert_ne!(color_state("Running"), "Running");
    assert!(color_state("Ready").contains("Ready"));
    assert!(color_state("Killed").contains("Killed"));
}

#[test]
fn short_ids_and_labels() {
    assert_eq!(short_id("0123456789abcdef"), "01234567");
    assert_eq!(short_id("abc"), "abc");
    assert_eq!(short_id("ééééé"), "éééé");
    assert_eq!(short_id("ab€cdefgh"), "ab€cde");
    let job = Job::new(
        "0123456789abcdef".into(),
        vec!["cargo".into(), "run".into()],
        Some("srv".into()),
        None,
    );
    assert_eq!(job_label(&job.to_record()), "01234567 | srv [starting] | cargo run");
    let anon = Job::new("xyz".into(), vec!["sleep".into()], None, None);
    assert_eq!(job_label(&anon.to_record()), "xyz | unnamed [starting] | sleep");
}

#[test]
fn dashboard_counts_every_record_alive() {
    let mut a = Job::new("a".into(), vec!["x".into()], None, None);
    a.transition(bgrun::types::JobState::Running).unwrap();
    a.transition(bgrun::types::JobState::Exited).unwrap();
    let b = Job::new("b".into(), vec!["y".into()], None, None);
    // state labels are lowercase, so none reads "Exited"/"Crashed"/"Killed"
    assert_eq!(dashboard_counts(&vec![a.to_record(), b.to_record()]), (2, 0));
}

#[test]
fn state_colors_are_ansi_sequences() {
    let green = color_state("Ready");
    assert!(green == "\x1b[38;5;10mReady\x1b[39m" || green == "\x1b[mReady\x1b[m", "{green:?}");
    let yellow = color_state("Running");
    assert!(yellow == "\x1b[38;5;11mRunning\x1b[39m" || yellow == "\x1b[mRunning\x1b[m", "{yellow:?}");
    let red = color_state("Crashed");
    assert!(red == "\x1b[38;5;9mCrashed\x1b[39m" || red == "\x1b[mCrashed\x1b[m", "{red:?}");
}

#[test]
fn colored_details_use_bold_labels_and_plain_states() {
    let job = Job::new("abc".into(), vec!["sleep".into(), "1".into()], None, None);
    let lines = job_detail_lines(&job.to_record(), true);
    assert_eq!(lines[0], "\x1b[1mID\x1b[0m:       abc");
    assert_eq!(lines[4], "\x1b[1mState\x1b[0m:    starting");
    let plain = job_detail_lines(&job.to_record(), false);
    assert_eq!(plain[4], "State:    starting");
    let status = status_lines(&job.status(), true);
    assert_eq!(status[0], "\x1b[1mState\x1b[0m:      starting");
    let table = job_table_lines(&vec![job.to_record()], true);
    assert!(table[0].starts_with("\x1b[1mID\x1b[0m "));
    assert_eq!(table[1], format!("\x1b[2m{}\x1b[0m", "\u{2500}".repeat(90)));
    assert!(table[2].contains(" starting "));
}

#[test]
fn completions_offer_alive_jobs_only() {
    let mut a = Job::new("0123456789".into(), vec!["x".into()], Some("web".into()), Some("ws1".into()));
    a.transition(bgrun::types::JobState::Running).unwrap();
    let mut b = Job::new("bbbb".into(), vec!["y".into()], None, Some("ws2".into()));
    b.transition(bgrun::types::JobState::Running).unwrap();
    b.transition(bgrun::types::JobState::Exited).unwrap();
    let c = Job::new("cccc".into(), vec!["z".into()], None, Some("ws1".into()));
    let records = vec![a.to_record(), b.to_record(), c.to_record()];
    assert_eq!(active_id_lines(&records), vec!["01234567\tweb (running)".to_string(), "cccc\tunnamed (starting)".into()]);
    assert_eq!(active_workspaces(&records), vec!["ws1".to_string()]);
}
