use bgrun::lines::{diff_window, log_line_texts, split_lines, tail_window, TailScan};
use bgrun::logs::{
    cascade_plan, diff_select, diff_start, diff_truncate, digest_contents, disk_entry, disk_entry_now, export_cutoff,
    export_generations, export_line, export_matches, line_fields, needs_rotation, parse_ts_ms,
    process_line, rotated_log_path, select_lines, strip_ansi_lines, tail_select, DigestCounter,
    DiskLogEntry, ExportOpts, ExportRing, LineFields, LineFilter, RotationConfig,
};
use bgrun::pattern::CompiledRegex;
use bgrun::response::LogLine;

fn plain(lines: &[&str]) -> Vec<LineFields> {
    lines.iter().map(|l| line_fields(l, None)).collect()
}

fn entry(t: &str, s: &str, c: &str) -> LineFields {
    line_fields(
        "ignored",
        Some(DiskLogEntry { t: t.into(), s: s.into(), c: c.into() }),
    )
}

fn no_filter() -> LineFilter {
    LineFilter::new(None, None, None)
}

fn opts() -> ExportOpts {
    ExportOpts {
        out_path: "/tmp/out.log".into(),
        lines: None,
        level: None,
        stream: None,
        strip_ansi: false,
        filter_regex: None,
        since_ms: None,
    }
}

#[test]
fn test_rotation_config_from_job() {
    let d = RotationConfig::default();
    assert_eq!(d.max_bytes, 50 * 1024 * 1024);
    assert_eq!(d.keep, 1);
    let c = RotationConfig::from_job(Some(1024), Some(3));
    assert_eq!((c.max_bytes, c.keep), (1024, 3));
    assert_eq!(RotationConfig::from_job(None, Some(0)).keep, 1);
    assert_eq!(RotationConfig::from_job(None, None), d);
}

#[test]
fn rotation_only_past_the_limit() {
    let cfg = RotationConfig { max_bytes: 10, keep: 2 };
    assert!(needs_rotation(Some(100), &cfg));
    assert!(!needs_rotation(Some(10), &cfg));
    assert!(!needs_rotation(None, &cfg));
    let small = RotationConfig { max_bytes: 10 * 1024, keep: 2 };
    assert!(!needs_rotation(Some(5), &small));
}

#[test]
fn cascade_plan_shifts_generations_oldest_first() {
    let (drop, renames) = cascade_plan(2);
    assert_eq!(drop, 2);
    assert_eq!(renames, vec![(1, 2)]);
    let (drop, renames) = cascade_plan(4);
    assert_eq!(drop, 4);
    assert_eq!(renames, vec![(3, 4), (2, 3), (1, 2)]);
    let (drop, renames) = cascade_plan(0);
    assert_eq!(drop, 1);
    assert!(renames.is_empty());
}

#[test]
fn rotation_model_matches_the_cascade_example() {
    // live holds 100 bytes, .1 "old-one", .2 "old-two"; keep 2.
    let mut dir: std::collections::BTreeMap<u32, String> = std::collections::BTreeMap::new();
    dir.insert(0, "x".repeat(100));
    dir.insert(1, "old-one\n".into());
    dir.insert(2, "old-two\n".into());
    let (drop, renames) = cascade_plan(2);
    dir.remove(&drop);
    for (from, to) in renames {
        if let Some(v) = dir.remove(&from) {
            dir.insert(to, v);
        }
    }
    let live = dir.remove(&0).unwrap();
    dir.insert(1, live);
    assert_eq!(dir.get(&2).unwrap(), "old-one\n");
    assert_eq!(dir.get(&1).unwrap().len(), 100);
    assert!(dir.get(&0).is_none());
}

#[test]
fn export_generations_oldest_first() {
    assert_eq!(export_generations(3), vec![3, 2, 1]);
    assert_eq!(export_generations(0), vec![1]);
    assert_eq!(rotated_log_path("/d", 2), "/d/stdout.log.2");
}

#[test]
fn export_ring_keeps_last_matches_across_generations() {
    let ts = "2026-09-04T00:00:00.000Z";
    let stored = vec![
        entry(ts, "stdout", "gen1-a"),
        entry(ts, "stdout", "gen1-b"),
        entry(ts, "stderr", "live-err"),
        entry(ts, "stdout", "live-ok"),
    ];
    let mut o = opts();
    o.lines = Some(3);
    let mut ring = ExportRing::new(o.lines);
    for (t, s, c) in stored {
        if let Some(text) = export_line(c, &s, &t, &o, None) {
            ring.push(text);
        }
    }
    let out = ring.into_lines();
    assert_eq!(out, vec!["gen1-b".to_string(), "live-err".into(), "live-ok".into()]);
    let mut zero = ExportRing::new(Some(0));
    zero.push("a".into());
    zero.push("b".into());
    assert_eq!(zero.into_lines(), vec!["b".to_string()]);
}

#[test]
fn export_filters_and_since() {
    let now_ms: u64 = 1_800_000_000_000;
    let mut o = opts();
    o.level = Some("error".into());
    o.stream = Some("stdout".into());
    o.since_ms = Some(3_600_000);
    let cutoff = export_cutoff(now_ms, o.since_ms);
    assert_eq!(cutoff, Some(now_ms - 3_600_000));
    let old = Some("2020-01-01T00:00:00.000Z".to_string());
    let fresh = Some("2027-01-15T08:00:00.000Z".to_string());
    let stdout = Some("stdout".to_string());
    assert!(!export_matches("ancient error", &stdout, &old, &o, cutoff));
    assert!(export_matches("fresh error", &stdout, &fresh, &o, cutoff));
    assert!(!export_matches("fresh info", &stdout, &fresh, &o, cutoff));
    assert!(!export_matches("fresh error", &Some("stderr".into()), &fresh, &o, cutoff));
    // no parseable timestamp: kept
    assert!(export_matches("odd error", &stdout, &Some("yesterday".into()), &o, cutoff));
    assert!(export_matches("bare error", &stdout, &None, &o, cutoff));
    assert_eq!(export_cutoff(5, Some(10)), Some(0));
    assert_eq!(export_cutoff(5, None), None);
}

#[test]
fn export_strips_ansi_byte_by_byte() {
    let mut o = opts();
    o.strip_ansi = true;
    let t = export_line("\x1b[31mred\x1b[0m".into(), &None, &None, &o, None).unwrap();
    assert_eq!(t, "red");
}

#[test]
fn timestamps_parse_to_millis() {
    assert_eq!(parse_ts_ms("1970-01-01T00:00:01.500Z"), Some(1500));
    assert_eq!(parse_ts_ms("1969-12-31T23:59:59.000Z"), Some(0));
    assert_eq!(parse_ts_ms("not a time"), None);
}

#[test]
fn test_tail_lines_reads_last_n() {
    let data = b"line1\nline2\nline3\nline4\nline5\n";
    let mut scan = TailScan::new(3);
    scan.feed(data);
    let start = scan.start_offset() as usize;
    let text = String::from_utf8(data[start..].to_vec()).unwrap();
    let lines = split_lines(&text);
    let stored: Vec<LineFields> = lines.iter().map(|l| line_fields(l, None)).collect();
    let result = tail_select(scan.line_count(), &stored, &no_filter());
    assert_eq!(result.len(), 3);
    assert_eq!(result[0].line_number, 3);
    assert_eq!(result[0].content, "line3");
    assert_eq!(result[2].content, "line5");
    assert_eq!(result[2].line_number, 5);
}

#[test]
fn tail_of_log_without_final_newline() {
    let data = b"a\nb\nc\nd\ne";
    let mut scan = TailScan::new(3);
    scan.feed(data);
    assert_eq!(scan.line_count(), 5);
    let start = scan.start_offset() as usize;
    let text = String::from_utf8(data[start..].to_vec()).unwrap();
    let lines = split_lines(&text);
    assert_eq!(lines, vec!["c", "d", "e"]);
    let stored: Vec<LineFields> = lines.iter().map(|l| line_fields(l, None)).collect();
    let result = tail_select(scan.line_count(), &stored, &no_filter());
    let numbers: Vec<u64> = result.iter().map(|l| l.line_number).collect();
    assert_eq!(numbers, vec![3, 4, 5]);
    let mut all = TailScan::new(10);
    all.feed(data);
    assert_eq!(all.start_offset(), 0);
    let mut none = TailScan::new(0);
    none.feed(data);
    assert_eq!(none.start_offset() as usize, data.len());
}

#[test]
fn tail_of_short_log_numbers_from_one() {
    let stored = plain(&["a", "b"]);
    let result = tail_select(2, &stored, &no_filter());
    assert_eq!(result.len(), 2);
    assert_eq!(result[0].line_number, 1);
    assert_eq!(result[1].line_number, 2);
}

#[test]
fn test_diff_since() {
    let data = b"line1\nline2\nline3\n";
    let cursor = 6u64;
    assert_eq!(diff_start(cursor, data.len() as u64), Some(6));
    assert_eq!(diff_start(18, 18), None);
    assert_eq!(diff_start(40, 18), None);
    let text = String::from_utf8_lossy(&data[cursor as usize..]).into_owned();
    let lines = split_lines(&text);
    assert_eq!(lines.len(), 2);
    assert_eq!(lines[0], "line2");
    let before = bgrun::lines::count_newlines(&data[..cursor as usize]);
    let stored: Vec<LineFields> = lines.iter().map(|l| line_fields(l, None)).collect();
    let out = diff_select(before, &stored, &no_filter());
    assert_eq!(out[0].line_number, 2);
    assert_eq!(out[1].line_number, 3);
}

#[test]
fn test_tail_lines_with_level_filter() {
    let stored = plain(&["info: starting", "warn: low disk", "error: oops", "info: done"]);
    let f = LineFilter::new(None, Some("error".into()), None);
    let out = select_lines(&stored, 1, &f);
    assert_eq!(out.len(), 1);
    assert!(out[0].content.contains("error"));
    assert_eq!(out[0].line_number, 3);
    let upper = LineFilter::new(None, Some("ERROR".into()), None);
    assert_eq!(select_lines(&stored, 1, &upper).len(), 1);
}

#[test]
fn test_tail_lines_with_regex_filter() {
    let stored = plain(&["line1", "port=8080", "line3", "port=9090"]);
    let f = LineFilter::new(None, None, Some("port=\\d+"));
    assert!(f.regex.is_some());
    let out = select_lines(&stored, 1, &f);
    assert_eq!(out.len(), 2);
    assert!(out[0].content.contains("8080"));
    assert!(out[1].content.contains("9090"));
    assert_eq!(out[1].line_number, 4);
    // an invalid regex filters nothing
    let bad = LineFilter::new(None, None, Some("("));
    assert!(bad.regex.is_none());
    assert_eq!(select_lines(&stored, 1, &bad).len(), 4);
}

#[test]
fn stream_filter_needs_a_stream() {
    let stored = vec![
        entry("t", "stdout", "a"),
        entry("t", "stderr", "b"),
        line_fields("legacy", None),
    ];
    let f = LineFilter::new(Some("stderr".into()), None, None);
    let out = select_lines(&stored, 10, &f);
    assert_eq!(
        out,
        vec![LogLine { line_number: 11, content: "b".into(), timestamp: Some("t".into()) }]
    );
}

#[test]
fn line_fields_fall_back_to_raw() {
    let (t, s, c) = line_fields("plain text", None);
    assert_eq!((t, s, c.as_str()), (None, None, "plain text"));
    let (t, s, c) = entry("ts", "pty", "hi");
    assert_eq!((t.as_deref(), s.as_deref(), c.as_str()), (Some("ts"), Some("pty"), "hi"));
}

#[test]
fn diff_truncation_moves_cursor_by_count() {
    let lines: Vec<LogLine> = (1..=5)
        .map(|i| LogLine { line_number: i, content: format!("l{i}"), timestamp: None })
        .collect();
    let (kept, cur) = diff_truncate(lines.clone(), Some(2), 100, 500);
    assert_eq!(kept.len(), 2);
    assert_eq!(kept[0].content, "l4");
    assert_eq!(cur, 102);
    let (all, cur) = diff_truncate(lines.clone(), Some(9), 100, 500);
    assert_eq!((all.len(), cur), (5, 500));
    let (all, cur) = diff_truncate(lines, None, 100, 500);
    assert_eq!((all.len(), cur), (5, 500));
}

#[test]
fn strip_ansi_lines_keeps_numbers() {
    let lines = vec![LogLine { line_number: 7, content: "\x1b[1mbold\x1b[0m".into(), timestamp: None }];
    let out = strip_ansi_lines(lines);
    assert_eq!(out[0].content, "bold");
    assert_eq!(out[0].line_number, 7);
}

#[test]
fn digest_counts_errors_and_warnings() {
    let contents: Vec<String> = vec![
        "info: starting".into(),
        "WARN: low disk".into(),
        "Error: first".into(),
        "warning and error".into(),
        "done".into(),
    ];
    let d = digest_contents(&contents);
    assert_eq!(d.total_lines, 5);
    assert_eq!(d.errors, 2);
    assert_eq!(d.warnings, 1);
    assert_eq!(d.last_error.as_deref(), Some("warning and error"));
    assert_eq!(d.last_error_line, Some(4));
    let empty = digest_contents(&Vec::new());
    assert_eq!((empty.total_lines, empty.errors, empty.last_error), (0, 0, None));
}

#[test]
fn digest_counter_streams() {
    let mut c = DigestCounter::new();
    c.record("ok");
    c.record("an ERROR here");
    assert_eq!(c.lines(), 2);
    let d = c.finish();
    assert_eq!(d.last_error_line, Some(2));
}

#[test]
fn process_line_updates_totals() {
    let (mut e, mut w, mut le, mut ll) = (0u64, 0u64, None, None);
    process_line("warn: x", 1, &mut e, &mut w, &mut le, &mut ll);
    assert_eq!((e, w), (0, 1));
    process_line("fatal error", 2, &mut e, &mut w, &mut le, &mut ll);
    assert_eq!((e, w, le.as_deref(), ll), (1, 1, Some("fatal error"), Some(2)));
}

#[test]
fn disk_entries_drop_the_newline() {
    let e = disk_entry(b"hello\n", "stdout", "2026-01-01T00:00:00.000Z".into());
    assert_eq!(e.c, "hello");
    assert_eq!(e.s, "stdout");
    assert_eq!(e.t, "2026-01-01T00:00:00.000Z");
    let bad = disk_entry(&[0xff, b'a'], "pty", String::new());
    assert_eq!(bad.c, "\u{fffd}a");
}

#[test]
fn captured_lines_are_stamped_with_the_current_time() {
    let e = disk_entry_now(b"ready\n", "stderr");
    assert_eq!((e.c.as_str(), e.s.as_str()), ("ready", "stderr"));
    assert_eq!(e.t.len(), "2026-01-01T00:00:00.000Z".len());
    assert!(e.t.ends_with('Z'));
    assert!(e.t.as_str() > "2020-01-01T00:00:00.000Z");
}

#[test]
fn compiled_regex_keeps_its_pattern() {
    let re = CompiledRegex::new("a+b").unwrap();
    assert_eq!(re.as_str(), "a+b");
    assert!(re.is_match("xaab"));
    assert!(!re.is_match("b"));
}

#[test]
fn log_line_texts_split_like_str_lines() {
    assert_eq!(log_line_texts(b"a\r\nb\nc"), vec!["a", "b", "c"]);
    assert_eq!(log_line_texts(b"a\nb\n"), vec!["a", "b"]);
    assert_eq!(log_line_texts(b""), Vec::<String>::new());
    assert_eq!(log_line_texts(b"\n\n"), vec!["", ""]);
    assert_eq!(log_line_texts(b"x\xffy\n"), vec!["x\u{fffd}y"]);
}

#[test]
fn tail_window_gives_last_lines_and_count() {
    let data = b"a\nb\nc\nd\ne";
    let (start, total, texts) = tail_window(data, 3);
    assert_eq!(start, 4);
    assert_eq!(total, 5);
    assert_eq!(texts, vec!["c", "d", "e"]);
    let stored: Vec<LineFields> = texts.iter().map(|l| line_fields(l, None)).collect();
    let numbers: Vec<u64> = tail_select(total, &stored, &no_filter()).iter().map(|l| l.line_number).collect();
    assert_eq!(numbers, vec![3, 4, 5]);
    let (start, total, texts) = tail_window(b"a\nb\n", 10);
    assert_eq!((start, total), (0, 2));
    assert_eq!(texts, vec!["a", "b"]);
    let (start, total, texts) = tail_window(b"a\nb\n", 0);
    assert_eq!((start, total), (4, 2));
    assert!(texts.is_empty());
}

#[test]
fn diff_window_second_call_reports_nothing() {
    let data = b"line1\nline2\nline3\n";
    let (before, texts, cursor) = diff_window(data, 6);
    assert_eq!(before, 1);
    assert_eq!(texts, vec!["line2", "line3"]);
    assert_eq!(cursor, 18);
    let (_, again, cursor2) = diff_window(data, cursor);
    assert!(again.is_empty());
    assert_eq!(cursor2, 18);
    let (_, past, cursor3) = diff_window(data, 400);
    assert!(past.is_empty());
    assert_eq!(cursor3, 18);
    let grown = b"line1\nline2\nline3\nline4\n";
    let (before, texts, cursor4) = diff_window(grown, cursor);
    assert_eq!(before, 3);
    assert_eq!(texts, vec!["line4"]);
    assert_eq!(cursor4, 24);
}
