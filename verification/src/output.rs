//! Rendering choices for command results: output mode, state colors, job
//! labels and dashboard counts.

use vstd::prelude::*;
use crossterm::style::Stylize;
use std::io::IsTerminal;
use crate::response::{JobRecord, JobStatus};
use crate::text::{append_str, decimal, decimal_i, owned, pad_right, push_char, push_decimal, push_decimal_i64, push_padded_right, spaces, str_eq};
use crate::types::{state_name, views, JobState};

verus! {

broadcast use vstd::string::group_string_axioms;

/// Output mode for rendering command results.
#[derive(Debug, Clone, Copy, PartialEq, Eq, Structural)]
pub enum OutputMode {
    Human,
    Json,
}

/// The output mode: Json when forced by `--json` or when standard output is
/// not a terminal (piped), Human on a terminal.
pub fn output_mode(force_json: bool, stdout_is_terminal: bool) -> (m: OutputMode)
    ensures
        m == (if force_json || !stdout_is_terminal {
            OutputMode::Json
        } else {
            OutputMode::Human
        }),
{
    if force_json || !stdout_is_terminal {
        OutputMode::Json
    } else {
        OutputMode::Human
    }
}

/// Whether standard output is a terminal. Nothing is promised of the answer.
#[verifier::external_body]
pub fn use_color() -> bool {
    std::io::stdout().is_terminal()
}

/// The text crossterm writes for `s` in a foreground color given by its
/// 256-color code: `ESC[38;5;<code>m`, `s`, `ESC[39m`. When crossterm has
/// colors turned off (the `NO_COLOR` environment variable, read once per
/// process) the color parameters are left out: `ESC[m`, `s`, `ESC[m`.
pub open spec fn fg_text(code: Seq<char>, s: Seq<char>, colors_on: bool) -> Seq<char> {
    if colors_on {
        "\x1b[38;5;"@ + code + "m"@ + s + "\x1b[39m"@
    } else {
        "\x1b[m"@ + s + "\x1b[m"@
    }
}

/// `s` in green (color 10).
pub open spec fn green_text(s: Seq<char>, colors_on: bool) -> Seq<char> {
    fg_text("10"@, s, colors_on)
}

/// `s` in yellow (color 11).
pub open spec fn yellow_text(s: Seq<char>, colors_on: bool) -> Seq<char> {
    fg_text("11"@, s, colors_on)
}

/// `s` in red (color 9).
pub open spec fn red_text(s: Seq<char>, colors_on: bool) -> Seq<char> {
    fg_text("9"@, s, colors_on)
}

/// The text crossterm writes for `s` with one attribute: `ESC[<sgr>m`, `s`,
/// and the full reset `ESC[0m` (attributes do not depend on `NO_COLOR`).
pub open spec fn attr_text(sgr: Seq<char>, s: Seq<char>) -> Seq<char> {
    "\x1b["@ + sgr + "m"@ + s + "\x1b[0m"@
}

/// `s` in bold (SGR 1).
pub open spec fn bold_text(s: Seq<char>) -> Seq<char> {
    attr_text("1"@, s)
}

/// `s` dimmed (SGR 2).
pub open spec fn dim_text(s: Seq<char>) -> Seq<char> {
    attr_text("2"@, s)
}

/// `s` dimmed: crossterm `Stylize::dim`, rendered to a string.
#[verifier::external_body]
fn dim(s: &str) -> (r: String)
    ensures
        r@ == dim_text(s@),
{
    s.dim().to_string()
}

/// `s` in green: crossterm `Stylize::green`, rendered to a string. Whether
/// crossterm has colors on depends on the environment, so either form may
/// come back.
#[verifier::external_body]
fn green(s: &str) -> (r: String)
    ensures
        r@ == green_text(s@, true) || r@ == green_text(s@, false),
{
    s.green().to_string()
}

/// `s` in yellow: crossterm `Stylize::yellow`, rendered to a string; either
/// form, as for `green`.
#[verifier::external_body]
fn yellow(s: &str) -> (r: String)
    ensures
        r@ == yellow_text(s@, true) || r@ == yellow_text(s@, false),
{
    s.yellow().to_string()
}

/// `s` in red: crossterm `Stylize::red`, rendered to a string; either form,
/// as for `green`.
#[verifier::external_body]
fn red(s: &str) -> (r: String)
    ensures
        r@ == red_text(s@, true) || r@ == red_text(s@, false),
{
    s.red().to_string()
}

/// `s` in bold: crossterm `Stylize::bold`, rendered to a string.
#[verifier::external_body]
fn bold(s: &str) -> (r: String)
    ensures
        r@ == bold_text(s@),
{
    s.bold().to_string()
}

/// The labels `color_state` colors.
pub open spec fn is_state_label(s: Seq<char>) -> bool {
    s == "Ready"@ || s == "Exited"@ || s == "Running"@ || s == "Crashed"@ || s == "Killed"@
}

/// The colored form of a state label: "Ready" and "Exited" green, "Running"
/// yellow, "Crashed" and "Killed" red, anything else unchanged.
pub open spec fn colored_state(s: Seq<char>, colors_on: bool) -> Seq<char> {
    if s == "Ready"@ || s == "Exited"@ {
        green_text(s, colors_on)
    } else if s == "Running"@ {
        yellow_text(s, colors_on)
    } else if s == "Crashed"@ || s == "Killed"@ {
        red_text(s, colors_on)
    } else {
        s
    }
}

/// Colors a state label (see `colored_state`); anything but the five
/// capitalized labels comes back unchanged.
pub fn color_state(s: &str) -> (r: String)
    ensures
        r@ == colored_state(s@, true) || r@ == colored_state(s@, false),
        !is_state_label(s@) ==> r@ == s@,
{
    if str_eq(s, "Ready") || str_eq(s, "Exited") {
        green(s)
    } else if str_eq(s, "Running") {
        yellow(s)
    } else if str_eq(s, "Crashed") || str_eq(s, "Killed") {
        red(s)
    } else {
        owned(s)
    }
}

/// A label in bold when standard output is a terminal.
pub fn maybe_bold(label: &str) -> (r: String)
    ensures
        r@ == label@ || r@ == bold_text(label@),
{
    if use_color() {
        bold(label)
    } else {
        owned(label)
    }
}

/// A state label colored when standard output is a terminal; anything but
/// the five capitalized labels comes back unchanged.
pub fn maybe_color_state(s: &str) -> (r: String)
    ensures
        r@ == s@ || r@ == colored_state(s@, true) || r@ == colored_state(s@, false),
        !is_state_label(s@) ==> r@ == s@,
{
    if use_color() {
        color_state(s)
    } else {
        owned(s)
    }
}

/// The first eight bytes of an id's UTF-8 text, or all of it when shorter.
pub open spec fn short_id_bytes(b: Seq<u8>) -> Seq<u8> {
    if b.len() > 8 {
        b.take(8)
    } else {
        b
    }
}

/// An id can be cut after its eighth byte: it is at most eight bytes long,
/// or its eighth byte ends a character.
pub open spec fn id_cuttable(id: Seq<char>) -> bool {
    vstd::utf8::encode_utf8(id).len() > 8 ==> vstd::utf8::is_char_boundary(vstd::utf8::encode_utf8(id), 8)
}

/// The short form of an id: the text of its first eight bytes.
pub open spec fn short_id_of(id: Seq<char>) -> Seq<char> {
    vstd::utf8::decode_utf8(short_id_bytes(vstd::utf8::encode_utf8(id)))
}

/// The short form of a job id shown in listings (its first eight bytes).
pub fn short_id(id: &str) -> (r: String)
    requires
        id_cuttable(id@),
    ensures
        r@ == short_id_of(id@),
{
    proof {
        vstd::utf8::encode_utf8_decode_utf8(id@);
    }
    if id.as_bytes().len() > 8 {
        let (head, _) = id.split_at(8);
        proof {
            vstd::utf8::encode_utf8_decode_utf8(head@);
            assert(vstd::utf8::encode_utf8(id@).subrange(0, 8) =~= vstd::utf8::encode_utf8(id@).take(8));
        }
        head.to_owned()
    } else {
        id.to_owned()
    }
}

/// Words joined by `sep`.
pub open spec fn join_seq(ws: Seq<Seq<char>>, sep: Seq<char>) -> Seq<char>
    decreases ws.len(),
{
    if ws.len() == 0 {
        seq![]
    } else if ws.len() == 1 {
        ws[0]
    } else {
        join_seq(ws.drop_last(), sep) + sep + ws.last()
    }
}

/// Joins strings with a separator (`[String]::join`).
pub fn join(ws: &Vec<String>, sep: &str) -> (r: String)
    ensures
        r@ == join_seq(views(ws@), sep@),
{
    let mut r = String::new();
    let mut i: usize = 0;
    while i < ws.len()
        invariant
            i <= ws.len(),
            r@ == join_seq(views(ws@.take(i as int)), sep@),
        decreases ws.len() - i,
    {
        let ghost pre = views(ws@.take(i as int));
        let ghost post = views(ws@.take(i + 1));
        assert(post.drop_last() =~= pre);
        assert(post.last() == ws@[i as int]@);
        if i > 0 {
            append_str(&mut r, sep);
        }
        append_str(&mut r, ws[i].as_str());
        proof {
            if i == 0 {
                assert(post =~= seq![ws@[0]@]);
            }
        }
        i = i + 1;
    }
    assert(ws@.take(ws@.len() as int) =~= ws@);
    r
}

/// The label of a job in pickers: `<short id> | <name or "unnamed"> [<state>] | <command>`.
pub open spec fn job_label_of(r: JobRecord) -> Seq<char> {
    short_id_of(r.id@) + " | "@ + (match r.name {
        Some(n) => n@,
        None => "unnamed"@,
    }) + " ["@ + state_name(r.state) + "] | "@ + join_seq(views(r.cmd@), " "@)
}

/// The label of a job in pickers.
pub fn job_label(r: &JobRecord) -> (s: String)
    requires
        id_cuttable(r.id@),
    ensures
        s@ == job_label_of(*r),
{
    let mut s = short_id(r.id.as_str());
    append_str(&mut s, " | ");
    match &r.name {
        Some(n) => append_str(&mut s, n.as_str()),
        None => append_str(&mut s, "unnamed"),
    }
    append_str(&mut s, " [");
    append_str(&mut s, r.state.to_string().as_str());
    append_str(&mut s, "] | ");
    append_str(&mut s, join(&r.cmd, " ").as_str());
    s
}

/// A record counts as alive on the dashboard unless its state label reads
/// "Exited", "Crashed" or "Killed".
pub open spec fn dashboard_alive(r: JobRecord) -> bool {
    let s = state_name(r.state);
    s != "Exited"@ && s != "Crashed"@ && s != "Killed"@
}

/// Number of records counted alive on the dashboard.
pub open spec fn count_alive(rs: Seq<JobRecord>) -> nat
    decreases rs.len(),
{
    if rs.len() == 0 {
        0
    } else {
        count_alive(rs.drop_last()) + if dashboard_alive(rs.last()) {
            1nat
        } else {
            0nat
        }
    }
}

/// Dashboard counts: (alive, terminated).
pub fn dashboard_counts(rs: &Vec<JobRecord>) -> (r: (usize, usize))
    ensures
        r.0 == count_alive(rs@),
        r.1 == rs@.len() - count_alive(rs@),
{
    let mut alive: usize = 0;
    let mut i: usize = 0;
    while i < rs.len()
        invariant
            i <= rs.len(),
            alive == count_alive(rs@.take(i as int)),
            alive <= i,
        decreases rs.len() - i,
    {
        assert(rs@.take(i + 1).drop_last() =~= rs@.take(i as int));
        let s = rs[i].state.to_string();
        if !str_eq(s.as_str(), "Exited") && !str_eq(s.as_str(), "Crashed") && !str_eq(
            s.as_str(),
            "Killed",
        ) {
            alive = alive + 1;
        }
        i = i + 1;
    }
    assert(rs@.take(rs@.len() as int) =~= rs@);
    (alive, rs.len() - alive)
}

// ---------------------------------------------------------------------------
// Job details, status and listings
// ---------------------------------------------------------------------------

/// A field label, bold when colors are on.
pub open spec fn styled_label(s: Seq<char>, color: bool) -> Seq<char> {
    if color {
        bold_text(s)
    } else {
        s
    }
}

/// The lowercase state names jobs report are none of the capitalized labels
/// that `color_state` colors.
proof fn lemma_state_name_uncolored(st: JobState)
    ensures
        !is_state_label(state_name(st)),
{
    reveal_strlit("Ready");
    reveal_strlit("Exited");
    reveal_strlit("Running");
    reveal_strlit("Crashed");
    reveal_strlit("Killed");
    reveal_strlit("starting");
    reveal_strlit("running");
    reveal_strlit("ready");
    reveal_strlit("exited");
    reveal_strlit("crashed");
    reveal_strlit("killed");
    let n = state_name(st);
    assert(n[0] != 'R' && n[0] != 'E' && n[0] != 'C' && n[0] != 'K');
    assert(n != "Ready"@ && n != "Exited"@ && n != "Running"@ && n != "Crashed"@ && n != "Killed"@) by {
        assert("Ready"@[0] == 'R');
        assert("Exited"@[0] == 'E');
        assert("Running"@[0] == 'R');
        assert("Crashed"@[0] == 'C');
        assert("Killed"@[0] == 'K');
    }
}

/// The text of an optional string, or `-`.
pub open spec fn or_dash(o: Option<String>) -> Seq<char> {
    match o {
        Some(s) => s@,
        None => "-"@,
    }
}

fn label(s: &str, color: bool) -> (r: String)
    ensures
        r@ == styled_label(s@, color),
{
    if color {
        bold(s)
    } else {
        owned(s)
    }
}

fn state_text(s: &str, color: bool) -> (r: String)
    ensures
        !is_state_label(s@) ==> r@ == s@,
{
    if color {
        color_state(s)
    } else {
        owned(s)
    }
}

fn text_or_dash(o: &Option<String>) -> (r: String)
    ensures
        r@ == or_dash(*o),
{
    match o {
        Some(s) => s.clone(),
        None => owned("-"),
    }
}

fn field(lbl: &str, gap: &str, value: &str, color: bool) -> (r: String)
    ensures
        r@ == styled_label(lbl@, color) + gap@ + value@,
{
    let mut s = label(lbl, color);
    append_str(&mut s, gap);
    append_str(&mut s, value);
    s
}

fn number_or_dash(n: Option<u64>) -> (r: String)
    ensures
        r@ == (match n {
            Some(v) => decimal(v as nat),
            None => "-"@,
        }),
{
    match n {
        Some(v) => {
            let mut s = String::new();
            push_decimal(&mut s, v);
            s
        },
        None => owned("-"),
    }
}

/// The lines a job record is shown as, in human mode. The state is shown
/// by its lowercase name, which state coloring leaves unchanged.
pub open spec fn job_detail_text(r: JobRecord, color: bool) -> Seq<Seq<char>> {
    let pid = match r.pid {
        Some(p) => decimal(p as nat),
        None => "-"@,
    };
    let base = seq![
        styled_label("ID"@, color) + ":       "@ + r.id@,
        styled_label("Name"@, color) + ":     "@ + or_dash(r.name),
        styled_label("Command"@, color) + ":  "@ + join_seq(views(r.cmd@), " "@),
        styled_label("Pid"@, color) + ":      "@ + pid,
        styled_label("State"@, color) + ":    "@ + state_name(r.state),
        styled_label("Started"@, color) + ":  "@ + r.started_at@,
        styled_label("Workspace"@, color) + ": "@ + or_dash(r.workspace),
    ];
    match r.allocated_port {
        Some(p) => base.push(styled_label("Port"@, color) + ":      "@ + decimal(p as nat)),
        None => base,
    }
}

/// Formats a job record for people.
pub fn job_detail_lines(r: &JobRecord, color: bool) -> (out: Vec<String>)
    ensures
        views(out@) == job_detail_text(*r, color),
{
    let mut out: Vec<String> = Vec::new();
    out.push(field("ID", ":       ", r.id.as_str(), color));
    out.push(field("Name", ":     ", text_or_dash(&r.name).as_str(), color));
    out.push(field("Command", ":  ", join(&r.cmd, " ").as_str(), color));
    let pid = number_or_dash(
        match r.pid {
            Some(p) => Some(p as u64),
            None => None,
        },
    );
    out.push(field("Pid", ":      ", pid.as_str(), color));
    proof {
        lemma_state_name_uncolored(r.state);
    }
    let st = state_text(r.state.to_string().as_str(), color);
    out.push(field("State", ":    ", st.as_str(), color));
    out.push(field("Started", ":  ", r.started_at.as_str(), color));
    out.push(field("Workspace", ": ", text_or_dash(&r.workspace).as_str(), color));
    if let Some(p) = r.allocated_port {
        let port = number_or_dash(Some(p as u64));
        out.push(field("Port", ":      ", port.as_str(), color));
    }
    assert(views(out@) =~= job_detail_text(*r, color));
    out
}

/// The lines a job status is shown as, in human mode (the state by its
/// lowercase name, as in `job_detail_text`).
pub open spec fn status_text(st: JobStatus, color: bool) -> Seq<Seq<char>> {
    seq![
        styled_label("State"@, color) + ":      "@ + state_name(st.state),
        styled_label("Exit Code"@, color) + ":  "@ + match st.exit_code {
            Some(c) => decimal_i(c as int),
            None => "-"@,
        },
        styled_label("Ready At"@, color) + ":   "@ + or_dash(st.ready_at),
        styled_label("Restarts"@, color) + ":   "@ + decimal(st.restart_count as nat),
    ]
}

/// Formats a job status for people.
pub fn status_lines(st: &JobStatus, color: bool) -> (out: Vec<String>)
    ensures
        views(out@) == status_text(*st, color),
{
    let mut out: Vec<String> = Vec::new();
    proof {
        lemma_state_name_uncolored(st.state);
    }
    let state = state_text(st.state.to_string().as_str(), color);
    out.push(field("State", ":      ", state.as_str(), color));
    let code = match st.exit_code {
        Some(c) => {
            let mut s = String::new();
            push_decimal_i64(&mut s, c as i64);
            s
        },
        None => owned("-"),
    };
    out.push(field("Exit Code", ":  ", code.as_str(), color));
    out.push(field("Ready At", ":   ", text_or_dash(&st.ready_at).as_str(), color));
    let mut restarts = String::new();
    push_decimal(&mut restarts, st.restart_count as u64);
    out.push(field("Restarts", ":   ", restarts.as_str(), color));
    assert(views(out@) =~= status_text(*st, color));
    out
}

/// `c` repeated `n` times.
pub open spec fn repeated(c: char, n: nat) -> Seq<char> {
    Seq::new(n, |i: int| c)
}

fn repeat_char(c: char, n: usize) -> (r: String)
    ensures
        r@ == repeated(c, n as nat),
{
    let mut s = String::new();
    let mut k: usize = 0;
    while k < n
        invariant
            k <= n,
            s@ == repeated(c, k as nat),
        decreases n - k,
    {
        push_char(&mut s, c);
        assert(repeated(c, (k + 1) as nat) =~= repeated(c, k as nat).push(c));
        k = k + 1;
    }
    s
}

/// The header lines of the job table: bold labels and a dimmed rule with
/// colors, plain labels and a dashed rule without.
pub open spec fn table_header_text(color: bool) -> Seq<Seq<char>> {
    if color {
        seq![
            bold_text("ID"@) + " "@ + spaces(22) + " "@ + bold_text("NAME"@) + " "@ + spaces(12) + " "@
                + bold_text("STATE"@) + " "@ + spaces(8) + " "@ + bold_text("PID"@) + " "@ + spaces(5)
                + " "@ + bold_text("PORT"@) + " "@ + spaces(8) + " "@ + bold_text("COMMAND"@),
            dim_text(repeated('\u{2500}', 90)),
        ]
    } else {
        seq![
            "  "@ + pad_right("ID"@, 22) + " "@ + pad_right("NAME"@, 12) + " "@ + pad_right("STATE"@, 8)
                + " "@ + pad_right("PID"@, 5) + " "@ + pad_right("PORT"@, 8) + " COMMAND"@,
            "  "@ + repeated('-', 85),
        ]
    }
}

/// One row of the job table (the state by its lowercase name, as in
/// `job_detail_text`).
pub open spec fn table_row_text(r: JobRecord, color: bool) -> Seq<char> {
    "  "@ + pad_right(short_id_of(r.id@), 22) + " "@ + pad_right(or_dash(r.name), 12) + " "@
        + pad_right(state_name(r.state), 8) + " "@ + pad_right(
        match r.pid {
            Some(p) => decimal(p as nat),
            None => "-"@,
        },
        5,
    ) + " "@ + pad_right(
        match r.allocated_port {
            Some(p) => decimal(p as nat),
            None => "-"@,
        },
        8,
    ) + " "@ + join_seq(views(r.cmd@), " "@)
}

/// The text a table shows for an optional pid: its decimal, or "-".
pub open spec fn pid_text(n: Option<u32>) -> Seq<char> {
    match n {
        Some(p) => decimal(p as nat),
        None => "-"@,
    }
}

/// The text a table shows for an optional port: its decimal, or "-".
pub open spec fn port_text(n: Option<u16>) -> Seq<char> {
    match n {
        Some(p) => decimal(p as nat),
        None => "-"@,
    }
}

/// A field of width `w` starts with its text, and a space follows the text
/// when it is shorter than the field.
proof fn lemma_pad_right_holds(t: Seq<char>, w: nat)
    ensures
        pad_right(t, w).len() == if t.len() < w { w } else { t.len() },
        pad_right(t, w).subrange(0, t.len() as int) == t,
        t.len() < w ==> pad_right(t, w)[t.len() as int] == ' ',
{
    if t.len() < w {
        assert(pad_right(t, w).subrange(0, t.len() as int) =~= t);
    } else {
        assert(pad_right(t, w).subrange(0, t.len() as int) =~= t);
    }
}

/// In a table row whose id and name fit their columns, the PID column (where
/// the header has "PID", from the 48th character on) holds the record's pid
/// (or "-") followed by a space, and the PORT column (where the header has
/// "PORT") holds its allocated port (or "-") followed by a space, as long as
/// the pid fits its column.
pub proof fn law_table_columns(r: JobRecord, color: bool)
    requires
        short_id_of(r.id@).len() <= 22,
        or_dash(r.name).len() <= 12,
    ensures
        ({
            let row = table_row_text(r, color);
            let pid = pid_text(r.pid);
            let port = port_text(r.allocated_port);
            let head = table_header_text(false)[0];
            &&& head.subrange(47, 50) == "PID"@
            &&& head.subrange(53, 57) == "PORT"@
            &&& row.subrange(47, 47int + pid.len()) == pid
            &&& row[47int + pid.len()] == ' '
            &&& pid.len() <= 5 ==> row.subrange(53, 53int + port.len()) == port && row[53int + port.len()] == ' '
        }),
{
    reveal_strlit("  ");
    reveal_strlit(" ");
    reveal_strlit("-");
    reveal_strlit("PID");
    reveal_strlit("PORT");
    reveal_strlit("ID");
    reveal_strlit("NAME");
    reveal_strlit("STATE");
    reveal_strlit("starting");
    reveal_strlit("running");
    reveal_strlit("ready");
    reveal_strlit("exited");
    reveal_strlit("crashed");
    reveal_strlit("killed");
    let pid = pid_text(r.pid);
    let port = port_text(r.allocated_port);
    let st = state_name(r.state);
    assert(st.len() <= 8);
    assert(pid.len() >= 1) by {
        if let Some(p) = r.pid {
            reveal_with_fuel(decimal, 2);
        }
    }
    assert(port.len() >= 1) by {
        if let Some(p) = r.allocated_port {
            reveal_with_fuel(decimal, 2);
        }
    }
    lemma_pad_right_holds(short_id_of(r.id@), 22);
    lemma_pad_right_holds(or_dash(r.name), 12);
    lemma_pad_right_holds(st, 8);
    lemma_pad_right_holds(pid, 5);
    lemma_pad_right_holds(port, 8);
    let a = "  "@ + pad_right(short_id_of(r.id@), 22) + " "@ + pad_right(or_dash(r.name), 12) + " "@
        + pad_right(st, 8) + " "@;
    assert(a.len() == 47);
    let pp = pad_right(pid, 5);
    let b = pp + " "@;
    let rest = pad_right(port, 8) + " "@ + join_seq(views(r.cmd@), " "@);
    let row = table_row_text(r, color);
    assert(row =~= a + b + rest);
    assert(row.subrange(47, 47int + pid.len()) =~= pp.subrange(0, pid.len() as int));
    if pid.len() < 5 {
        assert(row[47int + pid.len()] == pp[pid.len() as int]);
    } else {
        assert(row[47int + pid.len()] == b[pid.len() as int]);
    }
    if pid.len() <= 5 {
        assert(pp.len() == 5);
        assert((a + b).len() == 53);
        assert(row.subrange(53, 53int + port.len()) =~= rest.subrange(0, port.len() as int));
        let pq = pad_right(port, 8);
        assert(rest.subrange(0, port.len() as int) =~= pq.subrange(0, port.len() as int));
        if port.len() < 8 {
            assert(row[53int + port.len()] == pq[port.len() as int]);
        } else {
            assert(row[53int + port.len()] == rest[port.len() as int]);
        }
    }
    let head = table_header_text(false)[0];
    lemma_pad_right_holds("ID"@, 22);
    lemma_pad_right_holds("NAME"@, 12);
    lemma_pad_right_holds("STATE"@, 8);
    lemma_pad_right_holds("PID"@, 5);
    lemma_pad_right_holds("PORT"@, 8);
    let ha = "  "@ + pad_right("ID"@, 22) + " "@ + pad_right("NAME"@, 12) + " "@ + pad_right("STATE"@, 8)
        + " "@;
    let hb = pad_right("PID"@, 5) + " "@;
    assert(head =~= ha + hb + pad_right("PORT"@, 8) + " COMMAND"@);
    assert(ha.len() == 47);
    assert(head.subrange(47, 50) =~= pad_right("PID"@, 5).subrange(0, 3));
    assert(head.subrange(53, 57) =~= pad_right("PORT"@, 8).subrange(0, 4));
}

fn push_bold(s: &mut String, t: &str)
    ensures
        final(s)@ == old(s)@ + bold_text(t@),
{
    append_str(s, bold(t).as_str());
}

fn table_header(color: bool) -> (out: Vec<String>)
    ensures
        views(out@) == table_header_text(color),
{
    let mut out: Vec<String> = Vec::new();
    if color {
        let mut h = String::new();
        push_bold(&mut h, "ID");
        append_str(&mut h, " ");
        push_padded_right(&mut h, "", 22);
        append_str(&mut h, " ");
        push_bold(&mut h, "NAME");
        append_str(&mut h, " ");
        push_padded_right(&mut h, "", 12);
        append_str(&mut h, " ");
        push_bold(&mut h, "STATE");
        append_str(&mut h, " ");
        push_padded_right(&mut h, "", 8);
        append_str(&mut h, " ");
        push_bold(&mut h, "PID");
        append_str(&mut h, " ");
        push_padded_right(&mut h, "", 5);
        append_str(&mut h, " ");
        push_bold(&mut h, "PORT");
        append_str(&mut h, " ");
        push_padded_right(&mut h, "", 8);
        append_str(&mut h, " ");
        push_bold(&mut h, "COMMAND");
        proof {
            reveal_strlit("");
            assert(pad_right(""@, 22) =~= spaces(22));
            assert(pad_right(""@, 12) =~= spaces(12));
            assert(pad_right(""@, 8) =~= spaces(8));
            assert(pad_right(""@, 5) =~= spaces(5));
        }
        out.push(h);
        let rule = repeat_char('\u{2500}', 90);
        out.push(dim(rule.as_str()));
    } else {
        let mut h = owned("  ");
        push_padded_right(&mut h, "ID", 22);
        append_str(&mut h, " ");
        push_padded_right(&mut h, "NAME", 12);
        append_str(&mut h, " ");
        push_padded_right(&mut h, "STATE", 8);
        append_str(&mut h, " ");
        push_padded_right(&mut h, "PID", 5);
        append_str(&mut h, " ");
        push_padded_right(&mut h, "PORT", 8);
        append_str(&mut h, " COMMAND");
        out.push(h);
        let mut rule = owned("  ");
        append_str(&mut rule, repeat_char('-', 85).as_str());
        out.push(rule);
    }
    assert(views(out@) =~= table_header_text(color));
    out
}

fn table_row(r: &JobRecord, color: bool) -> (s: String)
    requires
        id_cuttable(r.id@),
    ensures
        s@ == table_row_text(*r, color),
{
    let mut s = owned("  ");
    push_padded_right(&mut s, short_id(r.id.as_str()).as_str(), 22);
    append_str(&mut s, " ");
    push_padded_right(&mut s, text_or_dash(&r.name).as_str(), 12);
    append_str(&mut s, " ");
    proof {
        lemma_state_name_uncolored(r.state);
    }
    push_padded_right(&mut s, state_text(r.state.to_string().as_str(), color).as_str(), 8);
    append_str(&mut s, " ");
    let pid = number_or_dash(
        match r.pid {
            Some(p) => Some(p as u64),
            None => None,
        },
    );
    push_padded_right(&mut s, pid.as_str(), 5);
    append_str(&mut s, " ");
    let port = number_or_dash(
        match r.allocated_port {
            Some(p) => Some(p as u64),
            None => None,
        },
    );
    push_padded_right(&mut s, port.as_str(), 8);
    append_str(&mut s, " ");
    append_str(&mut s, join(&r.cmd, " ").as_str());
    s
}

/// The lines a list of jobs is shown as, in human mode: "No jobs." for
/// none, else the header and one row per job.
pub fn job_table_lines(rs: &Vec<JobRecord>, color: bool) -> (out: Vec<String>)
    requires
        forall|i: int| 0 <= i < rs.len() ==> id_cuttable(#[trigger] rs@[i].id@),
    ensures
        rs.len() == 0 ==> views(out@) == seq!["No jobs."@],
        rs.len() > 0 ==> views(out@) == table_header_text(color) + rs@.map_values(
            |r: JobRecord| table_row_text(r, color),
        ),
{
    let mut out: Vec<String> = Vec::new();
    if rs.len() == 0 {
        out.push(owned("No jobs."));
        assert(views(out@) =~= seq!["No jobs."@]);
        return out;
    }
    out = table_header(color);
    let ghost h = views(out@);
    let mut i: usize = 0;
    while i < rs.len()
        invariant
            i <= rs.len(),
            forall|k: int| 0 <= k < rs.len() ==> id_cuttable(#[trigger] rs@[k].id@),
            h == table_header_text(color),
            views(out@) == h + rs@.take(i as int).map_values(|r: JobRecord| table_row_text(r, color)),
        decreases rs.len() - i,
    {
        let row = table_row(&rs[i], color);
        let ghost before = views(out@);
        out.push(row);
        assert(views(out@) =~= before.push(table_row_text(rs@[i as int], color)));
        assert(rs@.take(i + 1).map_values(|r: JobRecord| table_row_text(r, color)) =~= rs@.take(
            i as int,
        ).map_values(|r: JobRecord| table_row_text(r, color)).push(table_row_text(rs@[i as int], color)));
        i = i + 1;
    }
    assert(rs@.take(rs.len() as int) =~= rs@);
    out
}

// ---------------------------------------------------------------------------
// Shell completion data
// ---------------------------------------------------------------------------

/// The completion line of a job: short id, a tab, then its name (or
/// "unnamed") and its state in parentheses.
pub open spec fn completion_line(r: JobRecord) -> Seq<char> {
    short_id_of(r.id@) + "\t"@ + (match r.name {
        Some(n) => n@,
        None => "unnamed"@,
    }) + " ("@ + state_name(r.state) + ")"@
}

/// The completion lines of the alive jobs of `rs`, in order.
pub open spec fn active_id_lines_of(rs: Seq<JobRecord>) -> Seq<Seq<char>>
    decreases rs.len(),
{
    if rs.len() == 0 {
        seq![]
    } else if crate::types::state_alive(rs.last().state) {
        active_id_lines_of(rs.drop_last()).push(completion_line(rs.last()))
    } else {
        active_id_lines_of(rs.drop_last())
    }
}

/// The workspaces of the alive jobs of `rs`, each once, in order of first
/// appearance.
pub open spec fn active_workspaces_of(rs: Seq<JobRecord>) -> Seq<Seq<char>>
    decreases rs.len(),
{
    if rs.len() == 0 {
        seq![]
    } else {
        let before = active_workspaces_of(rs.drop_last());
        let r = rs.last();
        if crate::types::state_alive(r.state) && (r.workspace matches Some(w) && !before.contains(w@)) {
            before.push(r.workspace.unwrap()@)
        } else {
            before
        }
    }
}

/// The job ids shell completion offers: one line per alive job.
pub fn active_id_lines(rs: &Vec<JobRecord>) -> (out: Vec<String>)
    requires
        forall|i: int| 0 <= i < rs.len() ==> id_cuttable(#[trigger] rs@[i].id@),
    ensures
        views(out@) == active_id_lines_of(rs@),
{
    let mut out: Vec<String> = Vec::new();
    let mut i: usize = 0;
    while i < rs.len()
        invariant
            i <= rs.len(),
            forall|k: int| 0 <= k < rs.len() ==> id_cuttable(#[trigger] rs@[k].id@),
            views(out@) == active_id_lines_of(rs@.take(i as int)),
        decreases rs.len() - i,
    {
        let r = &rs[i];
        assert(rs@.take(i + 1).drop_last() =~= rs@.take(i as int));
        if !r.state.is_terminal() {
            let mut line = short_id(r.id.as_str());
            append_str(&mut line, "\t");
            match &r.name {
                Some(n) => append_str(&mut line, n.as_str()),
                None => append_str(&mut line, "unnamed"),
            }
            append_str(&mut line, " (");
            append_str(&mut line, r.state.to_string().as_str());
            append_str(&mut line, ")");
            let ghost before = views(out@);
            out.push(line);
            assert(views(out@) =~= before.push(completion_line(rs@[i as int])));
        }
        i = i + 1;
    }
    assert(rs@.take(rs.len() as int) =~= rs@);
    out
}

/// The workspaces shell completion offers: those of alive jobs, each once.
pub fn active_workspaces(rs: &Vec<JobRecord>) -> (out: Vec<String>)
    ensures
        views(out@) == active_workspaces_of(rs@),
{
    let mut out: Vec<String> = Vec::new();
    let mut i: usize = 0;
    while i < rs.len()
        invariant
            i <= rs.len(),
            views(out@) == active_workspaces_of(rs@.take(i as int)),
        decreases rs.len() - i,
    {
        let r = &rs[i];
        assert(rs@.take(i + 1).drop_last() =~= rs@.take(i as int));
        if !r.state.is_terminal() {
            if let Some(w) = &r.workspace {
                if !crate::supervisor::holds(&out, w.as_str()) {
                    let ghost before = views(out@);
                    out.push(w.clone());
                    assert(views(out@) =~= before.push(w@));
                }
            }
        }
        i = i + 1;
    }
    assert(rs@.take(rs.len() as int) =~= rs@);
    out
}

} // verus!

