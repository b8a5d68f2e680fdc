//! Job log processing: stored line fields, filters, line numbering for
//! `tail` and `diff`, the error/warning digest, rotation and export.

use vstd::prelude::*;
use crate::pattern::{CompiledRegex, lossy_text, regex_matches, regex_valid, utf8_lossy};
use crate::response::{LogDigest, LogLine};
use crate::text::{contains_ci, contains_ignore_case, contains_seq, lowercase, owned};
use crate::types::copy_opt_string;

verus! {

broadcast use vstd::string::group_string_axioms;

/// A single log entry as stored on disk, one JSON object per line:
/// `t` is the RFC 3339 timestamp, `s` the stream ("stdout", "stderr" or
/// "pty") and `c` the line content without its newline.
#[derive(Debug, Clone)]
pub struct DiskLogEntry {
    pub t: String,
    pub s: String,
    pub c: String,
}

/// `s` without its trailing newlines (`trim_end_matches('\n')`).
pub open spec fn trim_newlines_end(s: Seq<char>) -> Seq<char>
    decreases s.len(),
{
    if s.len() > 0 && s.last() == '\n' {
        trim_newlines_end(s.drop_last())
    } else {
        s
    }
}

/// The entry stored for a captured line of output: the line's bytes decoded
/// leniently without trailing newlines, the stream it came from, and the
/// timestamp text `stamp`.
pub fn disk_entry(line: &[u8], stream: &str, stamp: String) -> (e: DiskLogEntry)
    ensures
        e.t == stamp,
        e.s@ == stream@,
        e.c@ == trim_newlines_end(lossy_text(line@)),
{
    let text = utf8_lossy(line);
    let v = crate::text::chars_of(text.as_str());
    let mut n: usize = v.len();
    assert(v@.take(v.len() as int) =~= v@);
    while n > 0 && v[n - 1] == '\n'
        invariant
            n <= v.len(),
            v@ == lossy_text(line@),
            trim_newlines_end(v@.take(n as int)) == trim_newlines_end(v@),
        decreases n,
    {
        assert(v@.take(n as int).drop_last() =~= v@.take(n - 1));
        n = n - 1;
    }
    assert(v@.take(v.len() as int) =~= v@);
    let c = crate::text::string_from_range(&v, 0, n);
    proof {
        assert(v@.subrange(0, n as int) =~= v@.take(n as int));
        assert(trim_newlines_end(v@.take(n as int)) == v@.take(n as int));
    }
    DiskLogEntry { t: stamp, s: owned(stream), c }
}

/// The entry stored for a captured line, stamped with the current time.
pub fn disk_entry_now(line: &[u8], stream: &str) -> (e: DiskLogEntry)
    ensures
        exists|ns: i64| e.t@ == #[trigger] crate::clock::log_stamp_of(ns),
        e.s@ == stream@,
        e.c@ == trim_newlines_end(lossy_text(line@)),
{
    let ns = match crate::clock::now_nanos() {
        Some(t) => t,
        None => i64::MAX,
    };
    let e = disk_entry(line, stream, crate::clock::format_log_stamp(ns));
    assert(e.t@ == crate::clock::log_stamp_of(ns));
    e
}

/// The fields of a stored line, as `(timestamp, stream, content)`.
pub type LineFields = (Option<String>, Option<String>, String);

/// The fields of a raw stored line given what the JSON decoder made of it:
/// a decoded entry gives its three fields, anything else (a legacy or
/// malformed line) is taken whole as content.
pub fn line_fields(raw: &str, decoded: Option<DiskLogEntry>) -> (r: LineFields)
    ensures
        decoded matches Some(e) ==> r == (Some(e.t), Some(e.s), e.c),
        decoded is None ==> r.0 is None && r.1 is None && r.2@ == raw@,
{
    match decoded {
        Some(e) => (Some(e.t), Some(e.s), e.c),
        None => (None, None, owned(raw)),
    }
}

/// The filters `tail` and `diff` apply to stored lines.
#[derive(Debug)]
pub struct LineFilter {
    /// Keep only lines of this stream.
    pub stream: Option<String>,
    /// Keep only lines containing this text, ignoring case.
    pub level: Option<String>,
    /// Keep only lines this regular expression matches.
    pub regex: Option<CompiledRegex>,
}

/// Whether a line with the given stream and content passes the filter.
pub open spec fn line_passes(f: LineFilter, stream: Option<String>, content: Seq<char>) -> bool {
    &&& (f.stream matches Some(want) ==> (stream matches Some(s) && s@ == want@))
    &&& (f.level matches Some(lvl) ==> contains_ci(content, lvl@))
    &&& (f.regex matches Some(re) ==> regex_matches(re.pattern(), content))
}

impl LineFilter {
    /// Builds the filter from request options. A regular expression that
    /// does not compile is dropped, so it filters nothing.
    pub fn new(stream: Option<String>, level: Option<String>, regex: Option<&str>) -> (r: Self)
        ensures
            r.stream == stream,
            r.level == level,
            regex is None ==> r.regex is None,
            regex matches Some(p) ==> (r.regex is Some <==> regex_valid(p@)),
            regex matches Some(p) ==> (r.regex matches Some(c) ==> c.pattern() == p@),
    {
        let compiled = match regex {
            Some(p) => CompiledRegex::new(p),
            None => None,
        };
        LineFilter { stream, level, regex: compiled }
    }

    /// Whether a line with this stream and content passes every filter.
    pub fn passes(&self, stream: &Option<String>, content: &str) -> (r: bool)
        ensures
            r == line_passes(*self, *stream, content@),
    {
        match &self.stream {
            Some(want) => match stream {
                Some(s) => {
                    if !crate::text::str_eq(s.as_str(), want.as_str()) {
                        return false;
                    }
                },
                None => {
                    return false;
                },
            },
            None => {},
        }
        match &self.level {
            Some(lvl) => {
                if !contains_ignore_case(content, lvl.as_str()) {
                    return false;
                }
            },
            None => {},
        }
        match &self.regex {
            Some(re) => re.is_match(content),
            None => true,
        }
    }
}

/// The log lines `tail`/`diff` report for the stored lines `entries`, the
/// first of which has line number `first`: each line that passes the filter,
/// numbered by its position, in order.
pub open spec fn selected(entries: Seq<LineFields>, first: int, f: LineFilter) -> Seq<LogLine>
    decreases entries.len(),
{
    if entries.len() == 0 {
        seq![]
    } else {
        let prev = selected(entries.drop_last(), first, f);
        let e = entries.last();
        if line_passes(f, e.1, e.2@) {
            prev.push(
                LogLine {
                    line_number: (first + entries.len() - 1) as u64,
                    content: e.2,
                    timestamp: e.0,
                },
            )
        } else {
            prev
        }
    }
}

/// Numbers the stored lines from `first` and keeps those that pass `f`.
pub fn select_lines(entries: &Vec<LineFields>, first: u64, f: &LineFilter) -> (r: Vec<LogLine>)
    requires
        first + entries.len() <= u64::MAX,
    ensures
        r@ == selected(entries@, first as int, *f),
{
    let mut out: Vec<LogLine> = Vec::new();
    let mut i: usize = 0;
    while i < entries.len()
        invariant
            i <= entries.len(),
            first + entries.len() <= u64::MAX,
            out@ == selected(entries@.take(i as int), first as int, *f),
        decreases entries.len() - i,
    {
        let e = &entries[i];
        assert(entries@.take(i + 1).drop_last() =~= entries@.take(i as int));
        if f.passes(&e.1, e.2.as_str()) {
            let n: u64 = first + i as u64;
            out.push(LogLine { line_number: n, content: e.2.clone(), timestamp: copy_opt_string(&e.0) });
        }
        i = i + 1;
    }
    assert(entries@.take(entries@.len() as int) =~= entries@);
    out
}

/// The lines `tail` reports: `entries` are the last lines of a log of
/// `total` lines, so the last of them is numbered `total` and the first
/// `total - entries.len() + 1`; the filter is applied after numbering.
pub fn tail_select(total: u64, entries: &Vec<LineFields>, f: &LineFilter) -> (r: Vec<LogLine>)
    requires
        entries.len() <= total,
        total < u64::MAX,
    ensures
        r@ == selected(entries@, total - entries.len() + 1, *f),
{
    let first: u64 = total - entries.len() as u64 + 1;
    select_lines(entries, first, f)
}

/// Where `diff` starts reading for a cursor on a log of `size` bytes:
/// `None` when there is nothing past the cursor. Either way the new
/// cursor is `size`.
pub fn diff_start(cursor: u64, size: u64) -> (r: Option<u64>)
    ensures
        r == (if cursor < size { Some(cursor) } else { None::<u64> }),
{
    let offset = if cursor < size { cursor } else { size };
    if offset >= size {
        None
    } else {
        Some(offset)
    }
}

/// The lines `diff` reports: the stored lines after the cursor, numbered
/// after the `before` newlines that precede the cursor, filtered.
pub fn diff_select(before: u64, entries: &Vec<LineFields>, f: &LineFilter) -> (r: Vec<LogLine>)
    requires
        before + 1 + entries.len() <= u64::MAX,
    ensures
        r@ == selected(entries@, before + 1, *f),
{
    select_lines(entries, before + 1, f)
}

/// The lines `diff` returns and the cursor it stores when at most `max`
/// lines are wanted: with more new lines than that, only the last `max` are
/// kept and the cursor moves on by their count; otherwise every line is
/// returned and the cursor moves to `new_cursor`.
pub fn diff_truncate(lines: Vec<LogLine>, max: Option<usize>, cursor: u64, new_cursor: u64) -> (r: (
    Vec<LogLine>,
    u64,
))
    requires
        max matches Some(m) ==> cursor + m <= u64::MAX,
    ensures
        match max {
            Some(m) if lines.len() > m => r.0@ == lines@.skip(lines.len() - m) && r.1 == cursor + m,
            _ => r.0@ == lines@ && r.1 == new_cursor,
        },
{
    match max {
        Some(m) => {
            if lines.len() > m {
                let mut lines = lines;
                let keep = lines.split_off(lines.len() - m);
                let count: u64 = keep.len() as u64;
                (keep, cursor + count)
            } else {
                (lines, new_cursor)
            }
        },
        None => (lines, new_cursor),
    }
}

/// Replaces the content of each line by its ANSI-stripped text.
pub fn strip_ansi_lines(lines: Vec<LogLine>) -> (r: Vec<LogLine>)
    ensures
        r.len() == lines.len(),
        forall|i: int|
            #![trigger r@[i]]
            0 <= i < r.len() ==> r@[i].line_number == lines@[i].line_number && r@[i].timestamp
                == lines@[i].timestamp && r@[i].content@ == crate::pattern::cleaned(lines@[i].content@),
{
    let mut out: Vec<LogLine> = Vec::new();
    let mut i: usize = 0;
    while i < lines.len()
        invariant
            i <= lines.len(),
            out.len() == i,
            forall|k: int|
                #![trigger out@[k]]
                0 <= k < i ==> out@[k].line_number == lines@[k].line_number && out@[k].timestamp
                    == lines@[k].timestamp && out@[k].content@ == crate::pattern::cleaned(
                    lines@[k].content@,
                ),
        decreases lines.len() - i,
    {
        let l = &lines[i];
        let clean = crate::pattern::strip_ansi_text(l.content.as_str());
        out.push(LogLine { line_number: l.line_number, content: clean, timestamp: copy_opt_string(&l.timestamp) });
        i = i + 1;
    }
    out
}

// ---------------------------------------------------------------------------
// Digest
// ---------------------------------------------------------------------------

/// The text of an optional string.
pub open spec fn opt_str(o: Option<String>) -> Option<Seq<char>> {
    match o {
        Some(s) => Some(s@),
        None => None,
    }
}

/// A line counts as an error when its lowercase form contains "error".
pub open spec fn is_error_text(c: Seq<char>) -> bool {
    contains_seq(lowercase(c), "error"@)
}

/// A line counts as a warning when it is no error and its lowercase form
/// contains "warn".
pub open spec fn is_warning_text(c: Seq<char>) -> bool {
    !is_error_text(c) && contains_seq(lowercase(c), "warn"@)
}

/// The number of error lines.
pub open spec fn error_count(cs: Seq<Seq<char>>) -> nat
    decreases cs.len(),
{
    if cs.len() == 0 {
        0
    } else {
        error_count(cs.drop_last()) + if is_error_text(cs.last()) { 1nat } else { 0nat }
    }
}

/// The number of warning lines.
pub open spec fn warning_count(cs: Seq<Seq<char>>) -> nat
    decreases cs.len(),
{
    if cs.len() == 0 {
        0
    } else {
        warning_count(cs.drop_last()) + if is_warning_text(cs.last()) { 1nat } else { 0nat }
    }
}

/// The index of the last error line, if any.
pub open spec fn last_error_at(cs: Seq<Seq<char>>) -> Option<int>
    decreases cs.len(),
{
    if cs.len() == 0 {
        None
    } else if is_error_text(cs.last()) {
        Some(cs.len() - 1)
    } else {
        last_error_at(cs.drop_last())
    }
}

/// The digest of the line contents `cs`: the line count, the error and
/// warning counts, and the text and (1-based) number of the last error line.
pub open spec fn is_digest_of(d: LogDigest, cs: Seq<Seq<char>>) -> bool {
    &&& d.total_lines == cs.len()
    &&& d.errors == error_count(cs)
    &&& d.warnings == warning_count(cs)
    &&& opt_str(d.last_error) == (match last_error_at(cs) {
        Some(i) => Some(cs[i]),
        None => None,
    })
    &&& d.last_error_line == (match last_error_at(cs) {
        Some(i) => Some((i + 1) as u64),
        None => None,
    })
}

proof fn lemma_counts_bounded(cs: Seq<Seq<char>>)
    ensures
        error_count(cs) <= cs.len(),
        warning_count(cs) <= cs.len(),
        last_error_at(cs) matches Some(i) ==> 0 <= i < cs.len(),
    decreases cs.len(),
{
    if cs.len() > 0 {
        lemma_counts_bounded(cs.drop_last());
    }
}

/// Counts one line of content into the digest totals: an error line bumps
/// `errors` and becomes the last error, a warning line bumps `warnings`.
pub fn process_line(
    line: &str,
    line_number: u64,
    errors: &mut u64,
    warnings: &mut u64,
    last_error: &mut Option<String>,
    last_error_line: &mut Option<u64>,
)
    requires
        *old(errors) < u64::MAX,
        *old(warnings) < u64::MAX,
    ensures
        is_error_text(line@) ==> *final(errors) == *old(errors) + 1 && *final(warnings) == *old(
            warnings,
        ) && opt_str(*final(last_error)) == Some(line@) && *final(last_error_line) == Some(
            line_number,
        ),
        !is_error_text(line@) ==> *final(errors) == *old(errors) && *final(last_error) == *old(
            last_error,
        ) && *final(last_error_line) == *old(last_error_line) && *final(warnings) == *old(warnings)
            + if is_warning_text(line@) { 1int } else { 0int },
{
    let lower = crate::text::to_lowercase(line);
    if crate::text::contains_str(lower.as_str(), "error") {
        *errors = *errors + 1;
        *last_error = Some(owned(line));
        *last_error_line = Some(line_number);
    } else if crate::text::contains_str(lower.as_str(), "warn") {
        *warnings = *warnings + 1;
    }
}

/// Running digest over the lines of a log, fed one line content at a time.
pub struct DigestCounter {
    total_lines: u64,
    errors: u64,
    warnings: u64,
    last_error: Option<String>,
    last_error_line: Option<u64>,
    seen: Ghost<Seq<Seq<char>>>,
}

impl DigestCounter {
    /// The line contents counted so far.
    pub closed spec fn contents(&self) -> Seq<Seq<char>> {
        self.seen@
    }

    /// The totals agree with the contents counted.
    pub closed spec fn inv(&self) -> bool {
        is_digest_of(
            LogDigest {
                total_lines: self.total_lines,
                errors: self.errors,
                warnings: self.warnings,
                last_error: self.last_error,
                last_error_line: self.last_error_line,
            },
            self.seen@,
        )
    }

    /// A counter that has seen no line.
    pub fn new() -> (c: Self)
        ensures
            c.inv(),
            c.contents() == Seq::<Seq<char>>::empty(),
    {
        DigestCounter {
            total_lines: 0,
            errors: 0,
            warnings: 0,
            last_error: None,
            last_error_line: None,
            seen: Ghost(Seq::empty()),
        }
    }

    /// The number of lines counted so far.
    pub fn lines(&self) -> (r: u64)
        requires
            self.inv(),
        ensures
            r == self.contents().len(),
    {
        self.total_lines
    }

    /// Counts the next line, whose content is `content`.
    pub fn record(&mut self, content: &str)
        requires
            old(self).inv(),
            old(self).contents().len() < u64::MAX,
        ensures
            final(self).inv(),
            final(self).contents() == old(self).contents().push(content@),
    {
        let ghost cs0 = self.seen@;
        let ghost cs1 = cs0.push(content@);
        proof {
            lemma_counts_bounded(cs0);
            assert(cs1.drop_last() =~= cs0);
        }
        self.total_lines = self.total_lines + 1;
        process_line(
            content,
            self.total_lines,
            &mut self.errors,
            &mut self.warnings,
            &mut self.last_error,
            &mut self.last_error_line,
        );
        self.seen = Ghost(cs1);
        proof {
            assert(cs1.last() == content@);
        }
    }

    /// The digest of every line counted.
    pub fn finish(&self) -> (d: LogDigest)
        requires
            self.inv(),
        ensures
            is_digest_of(d, self.contents()),
    {
        LogDigest {
            total_lines: self.total_lines,
            errors: self.errors,
            warnings: self.warnings,
            last_error: copy_opt_string(&self.last_error),
            last_error_line: self.last_error_line,
        }
    }
}

/// The digest of a log whose lines have the contents `contents`, in order.
pub fn digest_contents(contents: &Vec<String>) -> (d: LogDigest)
    requires
        contents.len() < u64::MAX,
    ensures
        is_digest_of(d, contents@.map_values(|s: String| s@)),
{
    let mut c = DigestCounter::new();
    let mut i: usize = 0;
    while i < contents.len()
        invariant
            i <= contents.len() < u64::MAX,
            c.inv(),
            c.contents() == contents@.take(i as int).map_values(|s: String| s@),
        decreases contents.len() - i,
    {
        c.record(contents[i].as_str());
        assert(contents@.take(i + 1).map_values(|s: String| s@) =~= contents@.take(i as int).map_values(
            |s: String| s@,
        ).push(contents@[i as int]@));
        i = i + 1;
    }
    assert(contents@.take(contents@.len() as int) =~= contents@);
    c.finish()
}

// ---------------------------------------------------------------------------
// Rotation
// ---------------------------------------------------------------------------

/// Rotation settings for a job's log files.
#[derive(Debug, Clone, Copy, PartialEq, Eq, Structural)]
pub struct RotationConfig {
    /// Rotate the live log once it exceeds this size in bytes.
    pub max_bytes: u64,
    /// Number of rotated files (`stdout.log.1` …) to retain.
    pub keep: u32,
}

impl Default for RotationConfig {
    /// 50 MiB, one rotated generation.
    fn default() -> (r: Self)
        ensures
            r.max_bytes == 52428800,
            r.keep == 1,
    {
        RotationConfig { max_bytes: 52428800, keep: 1 }
    }
}

impl RotationConfig {
    /// Resolves per-job overrides over the defaults. A `keep` of 0 is
    /// clamped to 1 (rotation always retains at least one generation).
    pub fn from_job(max_bytes: Option<u64>, keep: Option<u32>) -> (r: Self)
        ensures
            r.max_bytes == (match max_bytes {
                Some(m) => m,
                None => 52428800u64,
            }),
            r.keep == (match keep {
                Some(0) => 1u32,
                Some(k) => k,
                None => 1u32,
            }),
    {
        let defaults = RotationConfig::default();
        let m = match max_bytes {
            Some(m) => m,
            None => defaults.max_bytes,
        };
        let k = match keep {
            Some(k) => k,
            None => defaults.keep,
        };
        RotationConfig { max_bytes: m, keep: if k < 1 { 1 } else { k } }
    }
}

/// Whether a live log of the given size (`None` when there is no file) is
/// due for rotation: only a file larger than `max_bytes` is.
pub fn needs_rotation(size: Option<u64>, cfg: &RotationConfig) -> (r: bool)
    ensures
        r == (size matches Some(n) && n > cfg.max_bytes),
{
    match size {
        Some(n) => n > cfg.max_bytes,
        None => false,
    }
}

/// The number of rotated generations kept: `keep`, at least one.
pub open spec fn generations(keep: u32) -> int {
    if keep == 0 {
        1
    } else {
        keep as int
    }
}

/// The renames that shift rotated logs up by one generation, newest last:
/// `k-1 -> k`, …, `1 -> 2` for `k` generations.
pub open spec fn cascade_renames(k: int) -> Seq<(u32, u32)> {
    Seq::new((k - 1) as nat, |i: int| ((k - 1 - i) as u32, (k - i) as u32))
}

/// The rotation plan for `keep` generations: the generation to delete
/// first, then the renames to apply in order (each only where its source
/// exists); the live log then becomes generation 1.
pub fn cascade_plan(keep: u32) -> (r: (u32, Vec<(u32, u32)>))
    ensures
        r.0 == generations(keep),
        r.1@ == cascade_renames(generations(keep)),
{
    let k: u32 = if keep < 1 { 1 } else { keep };
    let mut renames: Vec<(u32, u32)> = Vec::new();
    let mut n: u32 = k - 1;
    while n >= 1
        invariant
            1 <= k,
            k == generations(keep),
            n < k,
            renames@ == cascade_renames(k as int).take((k - 1 - n) as int),
        decreases n,
    {
        renames.push((n, n + 1));
        assert(renames@ =~= cascade_renames(k as int).take((k - 1 - (n - 1)) as int));
        n = n - 1;
    }
    assert(renames@ =~= cascade_renames(k as int));
    (k, renames)
}

/// The rotated generations to read for an export, oldest first: `k`, …, `1`
/// for `k` generations (the live log follows them).
pub fn export_generations(keep: u32) -> (r: Vec<u32>)
    ensures
        r@ == Seq::new(generations(keep) as nat, |i: int| (generations(keep) - i) as u32),
{
    let k: u32 = if keep < 1 { 1 } else { keep };
    let mut out: Vec<u32> = Vec::new();
    let mut n: u32 = k;
    while n >= 1
        invariant
            k == generations(keep),
            n <= k,
            out@ == Seq::new((k - n) as nat, |i: int| (k - i) as u32),
        decreases n,
    {
        out.push(n);
        assert(out@ =~= Seq::new((k - (n - 1)) as nat, |i: int| (k - i) as u32));
        n = n - 1;
    }
    out
}

/// The path of rotated generation `n` in a job directory: `stdout.log.<n>`.
pub fn rotated_log_path(dir: &str, n: u32) -> (r: String)
    ensures
        r@ == crate::text::path_join_seq(dir@, "stdout.log."@ + crate::text::decimal(n as nat)),
{
    let mut name = owned("stdout.log.");
    crate::text::push_decimal(&mut name, n as u64);
    crate::text::path_join(dir, name.as_str())
}

/// A directory of log files modelled by generation: 0 is the live log,
/// `g >= 1` is `stdout.log.<g>`. Renaming moves a file only when it exists.
pub open spec fn rename_gen<V>(d: Map<int, V>, from: int, to: int) -> Map<int, V> {
    if d.dom().contains(from) {
        d.remove(from).insert(to, d[from])
    } else {
        d
    }
}

/// The renames applied one after the other.
pub open spec fn apply_renames<V>(d: Map<int, V>, rs: Seq<(u32, u32)>) -> Map<int, V>
    decreases rs.len(),
{
    if rs.len() == 0 {
        d
    } else {
        let last = rs.last();
        rename_gen(apply_renames(d, rs.drop_last()), last.0 as int, last.1 as int)
    }
}

/// The directory after a rotation with `keep`: the oldest generation is
/// deleted, the cascade renames run, and the live log becomes generation 1.
pub open spec fn rotated_dir<V>(d: Map<int, V>, keep: u32) -> Map<int, V> {
    let k = generations(keep);
    rename_gen(apply_renames(d.remove(k), cascade_renames(k)), 0, 1)
}

proof fn lemma_cascade_step<V>(d1: Map<int, V>, k: int, j: int)
    requires
        1 <= k <= u32::MAX,
        0 <= j <= k - 1,
        !d1.dom().contains(k),
    ensures
        ({
            let s = apply_renames(d1, cascade_renames(k).take(j));
            &&& forall|g: int|
                #![trigger s.dom().contains(g)]
                k - j < g <= k ==> (s.dom().contains(g) <==> d1.dom().contains(g - 1))
            &&& forall|g: int|
                #![trigger s[g]]
                k - j < g <= k && d1.dom().contains(g - 1) ==> s[g] == d1[g - 1]
            &&& !s.dom().contains(k - j)
            &&& forall|g: int|
                #![trigger s.dom().contains(g)]
                (g < k - j || g > k) ==> (s.dom().contains(g) <==> d1.dom().contains(g))
            &&& forall|g: int|
                #![trigger s[g]]
                (g < k - j || g > k) && d1.dom().contains(g) ==> s[g] == d1[g]
        }),
    decreases j,
{
    let rs = cascade_renames(k);
    if j == 0 {
        assert(rs.take(0) =~= Seq::<(u32, u32)>::empty());
    } else {
        lemma_cascade_step(d1, k, j - 1);
        let prev = apply_renames(d1, rs.take(j - 1));
        assert(rs.take(j).drop_last() =~= rs.take(j - 1));
        let r = rs.take(j).last();
        assert(r == rs[j - 1]);
        assert(r.0 as int == k - j);
        assert(r.1 as int == k - j + 1);
        let s = apply_renames(d1, rs.take(j));
        assert(s == rename_gen(prev, k - j, k - j + 1));
        assert forall|g: int| k - j < g <= k implies (s.dom().contains(g) <==> d1.dom().contains(g - 1)) by {
            if g == k - j + 1 {
                assert(prev.dom().contains(k - j) <==> d1.dom().contains(k - j));
            }
        }
        assert forall|g: int| k - j < g <= k && d1.dom().contains(g - 1) implies s[g] == d1[g - 1] by {
            if g == k - j + 1 {
                assert(prev.dom().contains(k - j));
            }
        }
    }
}

/// Rotating with `keep` shifts every generation up by one: the live log
/// becomes generation 1, generation `g` becomes `g + 1` up to the kept
/// count, the oldest generation is dropped, and nothing else changes.
pub proof fn law_rotation_shifts_generations<V>(d: Map<int, V>, keep: u32)
    ensures
        ({
            let r = rotated_dir(d, keep);
            let k = generations(keep);
            &&& !r.dom().contains(0)
            &&& forall|g: int|
                #![trigger r.dom().contains(g)]
                1 <= g <= k ==> (r.dom().contains(g) <==> d.dom().contains(g - 1))
            &&& forall|g: int|
                #![trigger r[g]]
                1 <= g <= k && d.dom().contains(g - 1) ==> r[g] == d[g - 1]
            &&& forall|g: int|
                #![trigger r.dom().contains(g)]
                (g < 0 || g > k) ==> (r.dom().contains(g) <==> d.dom().contains(g))
            &&& forall|g: int|
                #![trigger r[g]]
                (g < 0 || g > k) && d.dom().contains(g) ==> r[g] == d[g]
        }),
{
    let k = generations(keep);
    let d1 = d.remove(k);
    let rs = cascade_renames(k);
    lemma_cascade_step(d1, k, k - 1);
    assert(rs.take(k - 1) =~= rs);
    let s = apply_renames(d1, rs);
    let r = rotated_dir(d, keep);
    assert(r == rename_gen(s, 0, 1));
    assert(s.dom().contains(0) <==> d.dom().contains(0));
    assert forall|g: int| 1 <= g <= k implies (r.dom().contains(g) <==> d.dom().contains(g - 1)) by {
        if g == 1 {
        } else {
            assert(s.dom().contains(g) <==> d1.dom().contains(g - 1));
        }
    }
    assert forall|g: int| 1 <= g <= k && d.dom().contains(g - 1) implies r[g] == d[g - 1] by {
        if g == 1 {
            assert(s.dom().contains(0));
        } else {
            assert(d1.dom().contains(g - 1));
        }
    }
    assert forall|g: int| (g < 0 || g > k) implies (r.dom().contains(g) <==> d.dom().contains(g)) by {
        assert(s.dom().contains(g) <==> d1.dom().contains(g));
    }
    assert forall|g: int| (g < 0 || g > k) && d.dom().contains(g) implies r[g] == d[g] by {
        assert(s.dom().contains(g) <==> d1.dom().contains(g));
        assert(d1.dom().contains(g));
    }
}

// ---------------------------------------------------------------------------
// Export
// ---------------------------------------------------------------------------

/// Options for a log export.
#[derive(Debug)]
pub struct ExportOpts {
    pub out_path: String,
    /// Keep only the last this many matching lines (at least one).
    pub lines: Option<usize>,
    pub level: Option<String>,
    pub stream: Option<String>,
    pub strip_ansi: bool,
    pub filter_regex: Option<CompiledRegex>,
    /// Only entries newer than now minus this many milliseconds. Entries
    /// without a parseable timestamp are kept (they cannot be proven old).
    pub since_ms: Option<u64>,
}

/// The oldest timestamp an export keeps, in milliseconds: `now - since`,
/// floored at zero.
pub fn export_cutoff(now_ms: u64, since_ms: Option<u64>) -> (r: Option<u64>)
    ensures
        r == (match since_ms {
            Some(ago) => Some(if ago > now_ms { 0u64 } else { (now_ms - ago) as u64 }),
            None => None,
        }),
{
    match since_ms {
        Some(ago) => Some(now_ms.saturating_sub(ago)),
        None => None,
    }
}

/// The milliseconds since the epoch of a stored timestamp, floored at zero;
/// `None` when chrono does not read it as RFC 3339.
pub open spec fn ts_millis(t: Seq<char>) -> Option<u64> {
    match crate::clock::rfc3339_millis(t) {
        Some(m) => Some(if m < 0 { 0u64 } else { m as u64 }),
        None => None,
    }
}

/// Parses a stored timestamp into milliseconds since the epoch, floored at
/// zero.
pub fn parse_ts_ms(ts: &str) -> (r: Option<u64>)
    ensures
        r == ts_millis(ts@),
{
    match crate::clock::parse_rfc3339_millis(ts) {
        Some(m) => Some(if m < 0 { 0u64 } else { m as u64 }),
        None => None,
    }
}

/// Whether an export keeps a line: the stream, level and regex filters as
/// for `tail`, and no provably older timestamp than the cutoff.
pub open spec fn export_passes(
    content: Seq<char>,
    stream: Option<String>,
    timestamp: Option<String>,
    o: ExportOpts,
    cutoff: Option<u64>,
) -> bool {
    &&& (o.stream matches Some(want) ==> (stream matches Some(s) && s@ == want@))
    &&& (o.level matches Some(lvl) ==> contains_ci(content, lvl@))
    &&& (o.filter_regex matches Some(re) ==> regex_matches(re.pattern(), content))
    &&& !(cutoff matches Some(c) && (timestamp matches Some(t) && (ts_millis(t@) matches Some(
        m,
    ) && m < c)))
}

/// The match predicate of an export.
pub fn export_matches(
    content: &str,
    stream: &Option<String>,
    timestamp: &Option<String>,
    opts: &ExportOpts,
    cutoff_ms: Option<u64>,
) -> (r: bool)
    ensures
        r == export_passes(content@, *stream, *timestamp, *opts, cutoff_ms),
{
    match &opts.stream {
        Some(want) => match stream {
            Some(s) => {
                if !crate::text::str_eq(s.as_str(), want.as_str()) {
                    return false;
                }
            },
            None => {
                return false;
            },
        },
        None => {},
    }
    match &opts.level {
        Some(lvl) => {
            if !contains_ignore_case(content, lvl.as_str()) {
                return false;
            }
        },
        None => {},
    }
    match &opts.filter_regex {
        Some(re) => {
            if !re.is_match(content) {
                return false;
            }
        },
        None => {},
    }
    match cutoff_ms {
        Some(cutoff) => match timestamp {
            Some(ts) => match parse_ts_ms(ts.as_str()) {
                Some(ts_ms) => ts_ms >= cutoff,
                None => true,
            },
            None => true,
        },
        None => true,
    }
}

/// The text an export writes for a stored line: `None` when the line does
/// not match; otherwise its content, ANSI-stripped byte by byte if asked.
pub fn export_line(
    content: String,
    stream: &Option<String>,
    timestamp: &Option<String>,
    opts: &ExportOpts,
    cutoff_ms: Option<u64>,
) -> (r: Option<String>)
    ensures
        r is Some <==> export_passes(content@, *stream, *timestamp, *opts, cutoff_ms),
        r matches Some(t) ==> t@ == (if opts.strip_ansi {
            crate::pattern::cleaned_bytewise(content@)
        } else {
            content@
        }),
{
    if !export_matches(content.as_str(), stream, timestamp, opts, cutoff_ms) {
        return None;
    }
    if opts.strip_ansi {
        Some(crate::pattern::strip_ansi_bytewise(content.as_str()))
    } else {
        Some(content)
    }
}

/// The last `n` items of `s` (all of them when there are fewer).
pub open spec fn last_n<T>(s: Seq<T>, n: nat) -> Seq<T> {
    if s.len() <= n {
        s
    } else {
        s.skip(s.len() - n)
    }
}

/// The line cap of an export: `lines`, at least one; no cap without it.
pub open spec fn export_cap(lines: Option<usize>) -> nat {
    match lines {
        Some(n) => if n == 0 { 1nat } else { n as nat },
        None => usize::MAX as nat,
    }
}

/// Buffer of the last matching lines of a capped export.
pub struct ExportRing {
    cap: usize,
    ring: Vec<String>,
    seen: Ghost<Seq<Seq<char>>>,
}

impl ExportRing {
    /// The lines pushed so far.
    pub closed spec fn pushed(&self) -> Seq<Seq<char>> {
        self.seen@
    }

    /// How many lines the buffer keeps.
    pub closed spec fn capacity(&self) -> nat {
        self.cap as nat
    }

    /// The buffer holds the last `capacity()` lines pushed.
    pub closed spec fn inv(&self) -> bool {
        &&& self.cap >= 1
        &&& self.ring@.map_values(|t: String| t@) == last_n(self.seen@, self.cap as nat)
    }

    /// An empty buffer for an export capped by `lines`.
    pub fn new(lines: Option<usize>) -> (r: Self)
        ensures
            r.inv(),
            r.pushed() == Seq::<Seq<char>>::empty(),
            r.capacity() == export_cap(lines),
    {
        let cap: usize = match lines {
            Some(n) => if n < 1 { 1 } else { n },
            None => usize::MAX,
        };
        let r = ExportRing { cap, ring: Vec::new(), seen: Ghost(Seq::empty()) };
        assert(r.ring@.map_values(|t: String| t@) =~= Seq::<Seq<char>>::empty());
        r
    }

    /// Adds a matching line, dropping the oldest when over the cap.
    pub fn push(&mut self, text: String)
        requires
            old(self).inv(),
        ensures
            final(self).inv(),
            final(self).pushed() == old(self).pushed().push(text@),
            final(self).capacity() == old(self).capacity(),
    {
        let ghost s0 = self.seen@;
        let ghost s1 = s0.push(text@);
        let ghost r0 = self.ring@.map_values(|t: String| t@);
        self.ring.push(text);
        assert(self.ring@.map_values(|t: String| t@) =~= r0.push(text@));
        if self.ring.len() > self.cap {
            self.ring.remove(0);
            assert(s0.len() >= self.cap);
            assert(last_n(s1, self.cap as nat) =~= r0.push(text@).skip(1));
            assert(self.ring@.map_values(|t: String| t@) =~= r0.push(text@).skip(1));
        } else {
            assert(last_n(s1, self.cap as nat) =~= r0.push(text@));
        }
        self.seen = Ghost(s1);
    }

    /// The buffered lines, oldest first.
    pub fn into_lines(self) -> (r: Vec<String>)
        requires
            self.inv(),
        ensures
            r@.map_values(|t: String| t@) == last_n(self.pushed(), self.capacity()),
    {
        self.ring
    }
}

} // verus!
