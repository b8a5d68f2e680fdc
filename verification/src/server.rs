//! The daemon's answers to requests, apart from the I/O around them: job
//! lookups and their errors, status and listings, wait and expect polling,
//! the screen buffer, the audit summary of a request.

use vstd::prelude::*;
use crate::command::{Command, KillArgs, RunArgs, TailArgs};
use crate::job::{record_of, status_of, Job};
use crate::job_store::{select_workspace, opt_str_view, JobStore};
use crate::lines::{split_lines, text_lines};
use crate::logs::LineFields;
use crate::output::{join, join_seq};
use crate::pattern::{lossy_text, regex_matches, regex_valid, utf8_lossy, CompiledRegex};
use crate::response::{JobRecord, JobStatus, LogLine, Response};
use crate::text::{append_str, contains_seq, contains_str, decimal, owned, push_decimal};
use crate::types::{copy_opt_string, state_alive, state_name, state_terminal, views, JobState};

verus! {

broadcast use vstd::string::group_string_axioms;

/// The id a request names, when it resolves to a registered job.
pub open spec fn resolved_job(store: JobStore, q: Seq<char>) -> Option<Seq<char>> {
    match store.resolution(q) {
        Some(id) => if store.jobs().contains_key(id) {
            Some(id)
        } else {
            None
        },
        None => None,
    }
}

/// Resolves a request's job reference (id, name or unique id prefix) to a
/// registered job's id.
pub fn lookup_job(store: &JobStore, q: &str) -> (r: Option<String>)
    requires
        store.wf(),
    ensures
        opt_str(r) == resolved_job(*store, q@),
{
    match store.resolve_id(q) {
        Some(id) => {
            if store.get(id.as_str()).is_some() {
                Some(id)
            } else {
                None
            }
        },
        None => None,
    }
}

/// The text of an optional string.
pub open spec fn opt_str(o: Option<String>) -> Option<Seq<char>> {
    match o {
        Some(s) => Some(s@),
        None => None,
    }
}

/// The answer to a status request: the job's status, or "job not found".
pub fn status_reply(store: &JobStore, q: &str) -> (r: Result<JobStatus, String>)
    requires
        store.wf(),
    ensures
        match resolved_job(*store, q@) {
            Some(id) => r matches Ok(st) && status_of(store.jobs()[id], st),
            None => r matches Err(m) && m@ == "job not found"@,
        },
{
    match lookup_job(store, q) {
        Some(id) => match store.get(id.as_str()) {
            Some(job) => Ok(job.status()),
            None => Err(owned("job not found")),
        },
        None => Err(owned("job not found")),
    }
}

/// The answer to a list request: the records of the jobs of a workspace (of
/// all jobs without one), in order.
pub fn list_records(store: &JobStore, workspace: Option<&str>) -> (r: Vec<JobRecord>)
    requires
        store.wf(),
    ensures
        ({
            let s = select_workspace(store.job_seq(), opt_str_view(workspace));
            &&& r.len() == s.len()
            &&& forall|i: int| 0 <= i < s.len() ==> #[trigger] record_of(s[i], r@[i])
        }),
{
    let jobs = store.list_workspace(workspace);
    let ghost s = jobs@.map_values(|j: &Job| *j);
    let mut out: Vec<JobRecord> = Vec::new();
    let mut i: usize = 0;
    while i < jobs.len()
        invariant
            i <= jobs.len(),
            s == jobs@.map_values(|j: &Job| *j),
            out.len() == i,
            forall|k: int| 0 <= k < i ==> #[trigger] record_of(s[k], out@[k]),
        decreases jobs.len() - i,
    {
        let rec = jobs[i].to_record();
        assert(s[i as int] == *jobs[i as int]);
        out.push(rec);
        assert(record_of(s[i as int], out@[i as int]));
        i = i + 1;
    }
    out
}

/// The job an attach request connects to: a registered job that is alive
/// and runs in a terminal.
pub fn attach_target(store: &JobStore, q: &str) -> (r: Result<String, String>)
    requires
        store.wf(),
    ensures
        match resolved_job(*store, q@) {
            Some(id) => if state_alive(store.jobs()[id].state) && store.jobs()[id].pty {
                r matches Ok(x) && x@ == id
            } else {
                r matches Err(m) && m@ == "job not found, not alive, or not a PTY job"@
            },
            None => r matches Err(m) && m@ == "job not found, not alive, or not a PTY job"@,
        },
{
    match lookup_job(store, q) {
        Some(id) => match store.get(id.as_str()) {
            Some(job) => {
                if job.is_alive() && job.pty {
                    Ok(id)
                } else {
                    Err(owned("job not found, not alive, or not a PTY job"))
                }
            },
            None => Err(owned("job not found, not alive, or not a PTY job")),
        },
        None => Err(owned("job not found, not alive, or not a PTY job")),
    }
}

/// The job a diff reads and the cursor it resumes from.
pub fn diff_origin(store: &JobStore, q: &str) -> (r: Option<(String, u64)>)
    requires
        store.wf(),
    ensures
        match store.resolution(q@) {
            Some(id) => r matches Some((x, c)) && x@ == id && c == (if store.jobs().contains_key(id) {
                store.jobs()[id].last_diff_cursor
            } else {
                0
            }),
            None => r is None,
        },
{
    match store.resolve_id(q) {
        Some(id) => {
            let c = match store.get(id.as_str()) {
                Some(job) => job.last_diff_cursor,
                None => 0,
            };
            Some((id, c))
        },
        None => None,
    }
}

/// Stores the cursor a diff left the job `id` at.
pub fn set_diff_cursor(store: &mut JobStore, id: &str, cursor: u64)
    requires
        old(store).wf(),
    ensures
        final(store).wf(),
        final(store).names() == old(store).names(),
        old(store).jobs().contains_key(id@) ==> final(store).jobs() == old(store).jobs().insert(
            id@,
            Job { last_diff_cursor: cursor, ..old(store).jobs()[id@] },
        ),
        !old(store).jobs().contains_key(id@) ==> final(store).jobs() == old(store).jobs(),
{
    match store.get_mut(id) {
        Some(job) => {
            job.last_diff_cursor = cursor;
        },
        None => {},
    }
}

/// Where a kill request goes.
#[derive(Debug)]
pub enum KillRoute {
    /// One job, by reference.
    One(String),
    /// Every alive job of a workspace.
    Workspace(String),
}

/// Routes a kill request: a job reference wins over a workspace; with
/// neither the request fails.
pub fn kill_route(args: KillArgs) -> (r: Result<KillRoute, String>)
    ensures
        match args.id {
            Some(id) => r matches Ok(KillRoute::One(x)) && x == id,
            None => match args.workspace {
                Some(ws) => r matches Ok(KillRoute::Workspace(x)) && x == ws,
                None => r matches Err(m) && m@ == "id or workspace is required"@,
            },
        },
{
    match args.id {
        Some(id) => Ok(KillRoute::One(id)),
        None => match args.workspace {
            Some(ws) => Ok(KillRoute::Workspace(ws)),
            None => Err(owned("id or workspace is required")),
        },
    }
}

/// The label of a job of a group run in error messages: its name, or
/// "unnamed".
pub fn group_label(args: &RunArgs) -> (r: String)
    ensures
        r@ == (match args.name {
            Some(n) => n@,
            None => "unnamed"@,
        }),
{
    match &args.name {
        Some(n) => n.clone(),
        None => owned("unnamed"),
    }
}

/// How a tail request reads the log.
#[derive(Debug, Clone, Copy, PartialEq, Eq, Structural)]
pub enum TailMode {
    /// The digest, with the last lines too when some are asked for.
    Digest { with_lines: bool },
    /// Everything after the byte cursor.
    Since(u64),
    /// The last lines, with the log size as cursor when following.
    Last { with_cursor: bool },
}

/// The way a tail request is answered: a digest first, then a cursor read,
/// else the last lines.
pub fn tail_mode(args: &TailArgs) -> (r: TailMode)
    ensures
        r == (if args.digest {
            TailMode::Digest { with_lines: args.lines > 0 }
        } else {
            match args.cursor {
                Some(c) => TailMode::Since(c),
                None => TailMode::Last { with_cursor: args.follow },
            }
        }),
{
    if args.digest {
        TailMode::Digest { with_lines: args.lines > 0 }
    } else {
        match args.cursor {
            Some(c) => TailMode::Since(c),
            None => TailMode::Last { with_cursor: args.follow },
        }
    }
}

// ---------------------------------------------------------------------------
// Log streaming
// ---------------------------------------------------------------------------

/// Where a log stream for `q` starts: the resolved job's id, or the reply
/// that refuses the stream (request id "stream", error "job not found").
pub fn stream_open(store: &JobStore, q: &str) -> (r: Result<String, Response<()>>)
    requires
        store.wf(),
    ensures
        match resolved_job(*store, q@) {
            Some(id) => r matches Ok(x) && x@ == id,
            None => r matches Err(e) && e.id@ == "stream"@ && !e.ok && e.data is None && (
            e.error matches Some(m) && m@ == "job not found"@),
        },
{
    match lookup_job(store, q) {
        Some(id) => Ok(id),
        None => {
            let e = Response::err(owned("stream"), "job not found");
            Err(e)
        },
    }
}

/// The stored lines a stream sends first, as log lines: each line's content
/// and timestamp, unnumbered (line number 0), in order.
pub fn stream_backlog(entries: &Vec<LineFields>) -> (r: Vec<LogLine>)
    ensures
        r.len() == entries.len(),
        forall|i: int|
            0 <= i < entries.len() ==> (#[trigger] r@[i]).line_number == 0 && r@[i].content
                == entries@[i].2 && r@[i].timestamp == entries@[i].0,
{
    let mut out: Vec<LogLine> = Vec::new();
    let mut i: usize = 0;
    while i < entries.len()
        invariant
            i <= entries.len(),
            out.len() == i,
            forall|k: int|
                0 <= k < i ==> (#[trigger] out@[k]).line_number == 0 && out@[k].content == entries@[k].2
                    && out@[k].timestamp == entries@[k].0,
        decreases entries.len() - i,
    {
        let e = &entries[i];
        out.push(LogLine { line_number: 0, content: e.2.clone(), timestamp: copy_opt_string(&e.0) });
        i = i + 1;
    }
    out
}

// ---------------------------------------------------------------------------
// Wait
// ---------------------------------------------------------------------------

/// One turn of a wait request.
#[derive(Debug)]
pub enum WaitStep {
    /// Answer now.
    Done { ready: bool, exit_code: Option<i32>, state: Option<String> },
    /// The job is not (or no longer) registered.
    NotFound,
    /// Look again shortly.
    Pending,
}

/// The next turn of a wait for `q` after `elapsed_ms` of `timeout_ms`: on
/// time-out the answer is "not ready"; a job that is or was ready answers
/// ready, with no exit code and no state; a finished job answers with its exit; otherwise keep waiting. The
/// name is resolved afresh each turn, so a restarted job is followed.
pub fn wait_step(store: &JobStore, q: &str, elapsed_ms: u64, timeout_ms: u64) -> (r: WaitStep)
    requires
        store.wf(),
    ensures
        elapsed_ms >= timeout_ms ==> (r matches WaitStep::Done { ready, exit_code, state } && !ready
            && exit_code is None && state is None),
        elapsed_ms < timeout_ms ==> match resolved_job(*store, q@) {
            None => r is NotFound,
            Some(id) => {
                let j = store.jobs()[id];
                if j.state == JobState::Ready || j.ready_at is Some {
                    r matches WaitStep::Done { ready, exit_code, state } && ready && exit_code is None
                        && state is None
                } else if state_terminal(j.state) {
                    r matches WaitStep::Done { ready, exit_code, state } && !ready && exit_code
                        == j.exit_code && (state matches Some(s) && s@ == state_name(j.state))
                } else {
                    r is Pending
                }
            },
        },
{
    if elapsed_ms >= timeout_ms {
        return WaitStep::Done { ready: false, exit_code: None, state: None };
    }
    let id = match lookup_job(store, q) {
        Some(id) => id,
        None => {
            return WaitStep::NotFound;
        },
    };
    match store.get(id.as_str()) {
        Some(job) => {
            if job.state == JobState::Ready || job.ready_at.is_some() {
                WaitStep::Done { ready: true, exit_code: None, state: None }
            } else if job.state.is_terminal() {
                WaitStep::Done { ready: false, exit_code: job.exit_code, state: Some(job.state.to_string()) }
            } else {
                WaitStep::Pending
            }
        },
        None => WaitStep::NotFound,
    }
}

// ---------------------------------------------------------------------------
// Expect
// ---------------------------------------------------------------------------

/// The job an expect request watches: a registered job that is alive.
pub fn expect_target(store: &JobStore, q: &str) -> (r: Result<String, String>)
    requires
        store.wf(),
    ensures
        match resolved_job(*store, q@) {
            Some(id) => if state_alive(store.jobs()[id].state) {
                r matches Ok(x) && x@ == id
            } else {
                r matches Err(m) && m@ == "job is not alive"@
            },
            None => r matches Err(m) && m@ == "job not found"@,
        },
{
    match lookup_job(store, q) {
        Some(id) => match store.get(id.as_str()) {
            Some(job) => {
                if job.is_alive() {
                    Ok(id)
                } else {
                    Err(owned("job is not alive"))
                }
            },
            None => Err(owned("job not found")),
        },
        None => Err(owned("job not found")),
    }
}

/// How many leading bytes of the log an expect request counts lines in
/// before it starts watching: the log size, at most 10 MiB.
pub fn expect_prefix_len(size: u64) -> (r: u64)
    ensures
        r == (if size < 10485760 { size } else { 10485760u64 }),
{
    if size < 10485760 {
        size
    } else {
        10485760
    }
}

/// Whether an expect request's pattern is found in a line: a regular
/// expression that compiles and matches, or a plain substring.
pub open spec fn expect_found(line: Seq<char>, pattern: Seq<char>, is_regex: bool) -> bool {
    if is_regex {
        regex_valid(pattern) && regex_matches(pattern, line)
    } else {
        contains_seq(line, pattern)
    }
}

/// A line an expect request matched.
#[derive(Debug)]
pub struct ExpectMatch {
    pub line_number: u64,
    pub content: String,
}

/// Scans new stored log lines for the pattern, matching each line's content
/// (not its timestamp or stream); the first to match is reported with its
/// number (counting from the `line_offset` lines before them) and its
/// content. Also returns the line count once these lines are taken into
/// account.
pub fn expect_scan(entries: &Vec<LineFields>, pattern: &str, is_regex: bool, line_offset: u64) -> (r: (
    Option<ExpectMatch>,
    u64,
))
    requires
        line_offset + entries.len() < u64::MAX,
    ensures
        r.1 == line_offset + entries.len(),
        match r.0 {
            Some(m) => exists|i: int|
                0 <= i < entries.len() && expect_found(#[trigger] entries@[i].2@, pattern@, is_regex)
                    && (forall|k: int| 0 <= k < i ==> !expect_found(entries@[k].2@, pattern@, is_regex))
                    && m.line_number == line_offset + i + 1 && m.content@ == entries@[i].2@,
            None => forall|i: int|
                0 <= i < entries.len() ==> !expect_found(#[trigger] entries@[i].2@, pattern@, is_regex),
        },
{
    let re = if is_regex {
        CompiledRegex::new(pattern)
    } else {
        None
    };
    let total: u64 = line_offset + entries.len() as u64;
    let mut i: usize = 0;
    while i < entries.len()
        invariant
            i <= entries.len(),
            line_offset + entries.len() < u64::MAX,
            total == line_offset + entries.len(),
            is_regex ==> (re is Some <==> regex_valid(pattern@)),
            is_regex ==> (re matches Some(c) ==> c.pattern() == pattern@),
            !is_regex ==> re is None,
            forall|k: int| 0 <= k < i ==> !expect_found(#[trigger] entries@[k].2@, pattern@, is_regex),
        decreases entries.len() - i,
    {
        let line = entries[i].2.as_str();
        let found = if is_regex {
            match &re {
                Some(c) => c.is_match(line),
                None => false,
            }
        } else {
            contains_str(line, pattern)
        };
        if found {
            let n: u64 = line_offset + i as u64 + 1;
            let m = ExpectMatch { line_number: n, content: entries[i].2.clone() };
            assert(expect_found(entries@[i as int].2@, pattern@, is_regex));
            return (Some(m), total);
        }
        i = i + 1;
    }
    (None, total)
}

// ---------------------------------------------------------------------------
// Screen
// ---------------------------------------------------------------------------

/// The last `n` items of `s` (all of them when there are fewer).
pub open spec fn last_items<T>(s: Seq<T>, n: nat) -> Seq<T> {
    if s.len() <= n {
        s
    } else {
        s.skip(s.len() - n)
    }
}

/// The last `lines` lines of a terminal's screen buffer, decoded leniently.
pub fn screen_tail(buf: &[u8], lines: usize) -> (r: Vec<String>)
    ensures
        views(r@) == last_items(text_lines(lossy_text(buf@)), lines as nat),
{
    let text = utf8_lossy(buf);
    let all = split_lines(text.as_str());
    assert(views(all@) == all@.map_values(|l: String| l@));
    let count: usize = if lines < all.len() { lines } else { all.len() };
    let start: usize = all.len() - count;
    let mut out: Vec<String> = Vec::new();
    let mut i: usize = start;
    while i < all.len()
        invariant
            start <= i <= all.len(),
            start == all.len() - count,
            views(out@) == views(all@).subrange(start as int, i as int),
        decreases all.len() - i,
    {
        let ghost before = views(out@);
        let x = all[i].clone();
        out.push(x);
        assert(views(out@) =~= before.push(all@[i as int]@));
        assert(views(out@) =~= views(all@).subrange(start as int, i + 1));
        i = i + 1;
    }
    assert(views(all@).subrange(start as int, all.len() as int) =~= last_items(
        views(all@),
        lines as nat,
    ));
    out
}

// ---------------------------------------------------------------------------
// Audit
// ---------------------------------------------------------------------------

/// The concise summary of a request's arguments recorded in the audit log.
pub open spec fn summary_of(cmd: Command) -> Seq<char> {
    match cmd {
        Command::Run(a) => match a.name {
            Some(n) => "name="@ + n@ + " cmd=\""@ + join_seq(views(a.cmd@), " "@) + "\""@,
            None => "cmd=\""@ + join_seq(views(a.cmd@), " "@) + "\""@,
        },
        Command::Kill(k) => match (k.id, k.workspace) {
            (Some(id), _) => "id="@ + id@,
            (_, Some(ws)) => "workspace="@ + ws@,
            _ => seq![],
        },
        Command::Tail(t) => "id="@ + t.id@ + " lines="@ + decimal(t.lines as nat) + if t.filter_regex
            is Some {
            " filter=regex"@
        } else {
            seq![]
        },
        Command::Status { id } => "id="@ + id@,
        Command::List { workspace } => match workspace {
            Some(w) => w@,
            None => "*"@,
        },
        Command::Wait { id, .. } => "id="@ + id@,
        Command::Diff { id, filter_regex, .. } => "id="@ + id@ + if filter_regex is Some {
            " filter=regex"@
        } else {
            seq![]
        },
        Command::Send { id, .. } => "id="@ + id@,
        Command::Stats { id } => "id="@ + id@,
        Command::Expect { id, pattern, .. } => "id="@ + id@ + " pattern=\""@ + pattern@ + "\""@,
        Command::Attach { id } => "id="@ + id@,
        Command::ResizePty { id, cols, rows } => "id="@ + id@ + " "@ + decimal(cols as nat) + "x"@
            + decimal(rows as nat),
        Command::Clean { workspace } => match workspace {
            Some(w) => w@,
            None => "*"@,
        },
        Command::RunGroup { jobs } => decimal(jobs.len() as nat) + " jobs"@,
        Command::StreamLogs { id } => "id="@ + id@,
        Command::Screen { id, lines } => "id="@ + id@ + " lines="@ + decimal(lines as nat),
    }
}

fn keyed(key: &str, v: &str) -> (r: String)
    ensures
        r@ == key@ + v@,
{
    let mut s = owned(key);
    append_str(&mut s, v);
    s
}

/// Builds the audit summary of a request's arguments.
pub fn args_summary(cmd: &Command) -> (r: String)
    ensures
        r@ == summary_of(*cmd),
{
    match cmd {
        Command::Run(a) => {
            let joined = join(&a.cmd, " ");
            let mut s = match &a.name {
                Some(n) => {
                    let mut s = keyed("name=", n.as_str());
                    append_str(&mut s, " cmd=\"");
                    s
                },
                None => owned("cmd=\""),
            };
            append_str(&mut s, joined.as_str());
            append_str(&mut s, "\"");
            s
        },
        Command::Kill(k) => match (&k.id, &k.workspace) {
            (Some(id), _) => keyed("id=", id.as_str()),
            (_, Some(ws)) => keyed("workspace=", ws.as_str()),
            _ => String::new(),
        },
        Command::Tail(t) => {
            let mut s = keyed("id=", t.id.as_str());
            append_str(&mut s, " lines=");
            push_decimal(&mut s, t.lines as u64);
            if t.filter_regex.is_some() {
                append_str(&mut s, " filter=regex");
            }
            s
        },
        Command::Status { id } => keyed("id=", id.as_str()),
        Command::List { workspace } => match workspace {
            Some(w) => w.clone(),
            None => owned("*"),
        },
        Command::Wait { id, .. } => keyed("id=", id.as_str()),
        Command::Diff { id, filter_regex, .. } => {
            let mut s = keyed("id=", id.as_str());
            if filter_regex.is_some() {
                append_str(&mut s, " filter=regex");
            }
            s
        },
        Command::Send { id, .. } => keyed("id=", id.as_str()),
        Command::Stats { id } => keyed("id=", id.as_str()),
        Command::Expect { id, pattern, .. } => {
            let mut s = keyed("id=", id.as_str());
            append_str(&mut s, " pattern=\"");
            append_str(&mut s, pattern.as_str());
            append_str(&mut s, "\"");
            s
        },
        Command::Attach { id } => keyed("id=", id.as_str()),
        Command::ResizePty { id, cols, rows } => {
            let mut s = keyed("id=", id.as_str());
            append_str(&mut s, " ");
            push_decimal(&mut s, *cols as u64);
            append_str(&mut s, "x");
            push_decimal(&mut s, *rows as u64);
            s
        },
        Command::Clean { workspace } => match workspace {
            Some(w) => w.clone(),
            None => owned("*"),
        },
        Command::RunGroup { jobs } => {
            let mut s = String::new();
            push_decimal(&mut s, jobs.len() as u64);
            append_str(&mut s, " jobs");
            s
        },
        Command::StreamLogs { id } => keyed("id=", id.as_str()),
        Command::Screen { id, lines } => {
            let mut s = keyed("id=", id.as_str());
            append_str(&mut s, " lines=");
            push_decimal(&mut s, *lines as u64);
            s
        },
    }
}

} // verus!
