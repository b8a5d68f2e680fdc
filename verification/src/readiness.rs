//! Readiness checks: which check a strategy builds, what each check looks
//! at, how log-scanning checks advance through the log, and the polling
//! decisions around them.

use vstd::prelude::*;
use crate::pattern::{lossy_text, regex_matches, regex_valid, utf8_lossy, CompiledRegex};
use crate::paths::log_path;
use crate::text::{append_str, contains_seq, contains_str, decimal, occurs_at, owned, path_join_seq, push_decimal};
use crate::types::ReadinessStrategy;

verus! {

broadcast use vstd::string::group_string_axioms;

/// A readiness check, described for people.
pub trait ReadinessChecker {
    /// Human-readable description of this readiness check.
    fn description(&self) -> String;
}

/// Looks for a substring in the bytes a job's log gained since the last
/// look.
#[derive(Debug)]
pub struct LogPatternChecker {
    path: String,
    pattern: String,
    offset: u64,
}

impl LogPatternChecker {
    /// How far into the log the checker has read.
    pub closed spec fn read_to(&self) -> u64 {
        self.offset
    }

    /// The log file it reads.
    pub closed spec fn log_file(&self) -> Seq<char> {
        self.path@
    }

    /// The text it looks for.
    pub closed spec fn needle(&self) -> Seq<char> {
        self.pattern@
    }

    /// The log file it reads.
    pub fn path(&self) -> (r: &str)
        ensures
            r@ == self.log_file(),
    {
        self.path.as_str()
    }

    /// The text it looks for.
    pub fn pattern(&self) -> (r: &str)
        ensures
            r@ == self.needle(),
    {
        self.pattern.as_str()
    }

    /// A checker for `pattern` in the log at `log_path`, reading from the
    /// start.
    pub fn new(log_path: String, pattern: String) -> (c: Self)
        ensures
            c.log_file() == log_path@,
            c.needle() == pattern@,
            c.read_to() == 0,
    {
        LogPatternChecker { path: log_path, pattern, offset: 0 }
    }

    /// The byte offset the next look starts from.
    pub fn offset(&self) -> (r: u64)
        ensures
            r == self.read_to(),
    {
        self.offset
    }

    /// Looks at the bytes the log gained since the last look: whether their
    /// text (decoded leniently) contains the pattern. The next look starts
    /// after them.
    pub fn observe(&mut self, fresh: &[u8]) -> (found: bool)
        requires
            old(self).read_to() + fresh@.len() <= u64::MAX,
        ensures
            looked(*old(self), *final(self), fresh@, found),
            fresh@.len() == 0 ==> found == (old(self).needle().len() == 0),
    {
        let text = utf8_lossy(fresh);
        let found = contains_str(text.as_str(), self.pattern.as_str());
        proof {
            if fresh@.len() == 0 {
                assert(vstd::utf8::valid_utf8(fresh@));
                assert(text@ =~= Seq::<char>::empty());
                if self.pattern@.len() == 0 {
                    assert(text@.subrange(0, 0) =~= self.pattern@);
                    assert(occurs_at(text@, self.pattern@, 0));
                }
            }
        }
        self.offset = self.offset + fresh.len() as u64;
        found
    }

    /// One check of the log, whose content is `file` (`None` when it cannot
    /// be opened or read): a look at the bytes past the offset, if any.
    pub fn check_log(&mut self, file: Option<&[u8]>) -> (found: bool)
        requires
            file matches Some(f) ==> f@.len() <= u64::MAX,
        ensures
            checked(*old(self), *final(self), bytes_of(file), found),
    {
        match file {
            None => false,
            Some(f) => {
                let len = f.len() as u64;
                let from: usize = if self.offset < len {
                    self.offset as usize
                } else {
                    f.len()
                };
                let (_, fresh) = f.split_at(from);
                assert(fresh@ =~= f@.skip(from as int));
                self.observe(fresh)
            }
        }
    }
}

/// The bytes of a log that could be read, or `None`.
pub open spec fn bytes_of(file: Option<&[u8]>) -> Option<Seq<u8>> {
    match file {
        Some(f) => Some(f@),
        None => None,
    }
}

/// Where a check of a log of `len` bytes starts reading: at the offset, or
/// at the end when the log is no longer than that.
pub open spec fn check_from(offset: u64, len: nat) -> int {
    if offset < len {
        offset as int
    } else {
        len as int
    }
}

/// `after` is `before` after one check of the log, whose content was `file`
/// (`None`: it could not be read), which answered `found`.
pub open spec fn checked(
    before: LogPatternChecker,
    after: LogPatternChecker,
    file: Option<Seq<u8>>,
    found: bool,
) -> bool {
    match file {
        None => !found && after == before,
        Some(f) => {
            &&& looked(before, after, f.skip(check_from(before.read_to(), f.len())), found)
            &&& f.len() <= before.read_to() ==> found == (before.needle().len() == 0)
        },
    }
}

/// `after` is `before` after one look at the bytes `fresh` that the log
/// gained, which answered `found`: whether their text (decoded leniently)
/// contains the pattern; the next look starts after them.
pub open spec fn looked(before: LogPatternChecker, after: LogPatternChecker, fresh: Seq<u8>, found: bool) -> bool {
    &&& found == contains_seq(lossy_text(fresh), before.needle())
    &&& after.read_to() == before.read_to() + fresh.len()
    &&& after.log_file() == before.log_file()
    &&& after.needle() == before.needle()
}

/// Successive looks read the log without overlap or gap: when a checker
/// that has read `o` bytes looks at the next `a.len()` bytes of `log` and
/// then at the `b.len()` bytes after them, it has read exactly up to
/// `o + a.len() + b.len()`, and the second answer concerns only the bytes
/// `b` that the first look had not seen.
pub proof fn law_looks_advance_the_offset(
    c0: LogPatternChecker,
    c1: LogPatternChecker,
    c2: LogPatternChecker,
    log: Seq<u8>,
    a: Seq<u8>,
    b: Seq<u8>,
    f1: bool,
    f2: bool,
)
    requires
        looked(c0, c1, a, f1),
        looked(c1, c2, b, f2),
        c0.read_to() + a.len() + b.len() <= log.len(),
        a == log.subrange(c0.read_to() as int, c0.read_to() + a.len()),
        b == log.subrange(c1.read_to() as int, c1.read_to() + b.len()),
    ensures
        c2.read_to() == c0.read_to() + a.len() + b.len(),
        b == log.subrange(c0.read_to() + a.len(), c2.read_to() as int),
        log.subrange(c0.read_to() as int, c2.read_to() as int) == a + b,
        f2 == contains_seq(lossy_text(b), c0.needle()),
        c2.log_file() == c0.log_file(),
{
    assert(log.subrange(c0.read_to() as int, c2.read_to() as int) =~= a + b);
}

/// A check reads the log from where the last one stopped to its end, so no
/// byte is scanned twice: afterwards the checker has read up to the larger
/// of its offset and the log's size, the answer concerns the text of those
/// bytes alone, and a second check of a log that has not grown reads nothing
/// and, for a non-empty pattern, answers false.
pub proof fn law_check_never_rescans(
    c0: LogPatternChecker,
    c1: LogPatternChecker,
    c2: LogPatternChecker,
    f: Seq<u8>,
    found1: bool,
    found2: bool,
)
    requires
        checked(c0, c1, Some(f), found1),
        checked(c1, c2, Some(f), found2),
    ensures
        c1.read_to() == (if c0.read_to() < f.len() { f.len() } else { c0.read_to() as nat }),
        found1 == contains_seq(lossy_text(f.skip(check_from(c0.read_to(), f.len()))), c0.needle()),
        c2.read_to() == c1.read_to(),
        c0.needle().len() > 0 ==> !found2,
{
}

impl ReadinessChecker for LogPatternChecker {
    fn description(&self) -> (r: String)
        ensures
            r@ == "log pattern '"@ + self.needle() + "'"@,
    {
        let mut s = owned("log pattern '");
        append_str(&mut s, self.pattern.as_str());
        append_str(&mut s, "'");
        s
    }
}

/// Looks for a regular expression in the bytes a job's log gained since the
/// last look.
#[derive(Debug)]
pub struct RegexPatternChecker {
    path: String,
    pattern: CompiledRegex,
    offset: u64,
}

impl RegexPatternChecker {
    /// How far into the log the checker has read.
    pub closed spec fn read_to(&self) -> u64 {
        self.offset
    }

    /// The log file it reads.
    pub closed spec fn log_file(&self) -> Seq<char> {
        self.path@
    }

    /// The regular expression it looks for.
    pub closed spec fn regex(&self) -> Seq<char> {
        self.pattern.pattern()
    }

    /// The log file it reads.
    pub fn path(&self) -> (r: &str)
        ensures
            r@ == self.log_file(),
    {
        self.path.as_str()
    }

    /// A checker for `pattern` in the log at `log_path`, reading from the
    /// start.
    pub fn new(log_path: String, pattern: CompiledRegex) -> (c: Self)
        ensures
            c.log_file() == log_path@,
            c.regex() == pattern.pattern(),
            c.read_to() == 0,
    {
        RegexPatternChecker { path: log_path, pattern, offset: 0 }
    }

    /// The byte offset the next look starts from.
    pub fn offset(&self) -> (r: u64)
        ensures
            r == self.read_to(),
    {
        self.offset
    }

    /// Looks at the bytes the log gained since the last look: whether the
    /// regex matches their text (decoded leniently).
    pub fn observe(&mut self, fresh: &[u8]) -> (found: bool)
        requires
            old(self).read_to() + fresh@.len() <= u64::MAX,
        ensures
            found == regex_matches(old(self).regex(), lossy_text(fresh@)),
            final(self).read_to() == old(self).read_to() + fresh@.len(),
            final(self).log_file() == old(self).log_file(),
            final(self).regex() == old(self).regex(),
    {
        let text = utf8_lossy(fresh);
        let found = self.pattern.is_match(text.as_str());
        self.offset = self.offset + fresh.len() as u64;
        found
    }

    /// One check of the log, whose content is `file` (`None` when it cannot
    /// be opened or read): a look at the bytes past the offset, if any.
    pub fn check_log(&mut self, file: Option<&[u8]>) -> (found: bool)
        requires
            file matches Some(f) ==> f@.len() <= u64::MAX,
        ensures
            file is None ==> !found && *final(self) == *old(self),
            file matches Some(f) ==> {
                let from = check_from(old(self).read_to(), f@.len());
                &&& found == regex_matches(old(self).regex(), lossy_text(f@.skip(from)))
                &&& final(self).read_to() == old(self).read_to() + (f@.len() - from)
                &&& final(self).log_file() == old(self).log_file()
                &&& final(self).regex() == old(self).regex()
            },
    {
        match file {
            None => false,
            Some(f) => {
                let len = f.len() as u64;
                let from: usize = if self.offset < len {
                    self.offset as usize
                } else {
                    f.len()
                };
                let (_, fresh) = f.split_at(from);
                assert(fresh@ =~= f@.skip(from as int));
                self.observe(fresh)
            }
        }
    }
}

impl ReadinessChecker for RegexPatternChecker {
    fn description(&self) -> (r: String)
        ensures
            r@ == "log regex '"@ + self.regex() + "'"@,
    {
        let mut s = owned("log regex '");
        let p = self.pattern.as_str();
        append_str(&mut s, p.as_str());
        append_str(&mut s, "'");
        s
    }
}

/// Checks whether a TCP port on the local host accepts connections.
#[derive(Debug, Clone, Copy, PartialEq, Eq, Structural)]
pub struct TcpPortChecker {
    pub port: u16,
}

impl TcpPortChecker {
    /// Creates a checker for the given TCP port.
    pub fn new(port: u16) -> (c: Self)
        ensures
            c.port == port,
    {
        TcpPortChecker { port }
    }

    /// The address connected to: `127.0.0.1:<port>`.
    pub fn address(&self) -> (r: String)
        ensures
            r@ == "127.0.0.1:"@ + decimal(self.port as nat),
    {
        let mut s = owned("127.0.0.1:");
        push_decimal(&mut s, self.port as u64);
        s
    }
}

impl ReadinessChecker for TcpPortChecker {
    fn description(&self) -> (r: String)
        ensures
            r@ == "TCP port "@ + decimal(self.port as nat),
    {
        let mut s = owned("TCP port ");
        push_decimal(&mut s, self.port as u64);
        s
    }
}

/// Checks whether an HTTP endpoint answers with a 2xx status.
#[derive(Debug)]
pub struct HttpPollChecker {
    pub url: String,
}

impl HttpPollChecker {
    /// Creates a checker that polls the given URL.
    pub fn new(url: String) -> (c: Self)
        ensures
            c.url == url,
    {
        HttpPollChecker { url }
    }
}

impl ReadinessChecker for HttpPollChecker {
    fn description(&self) -> (r: String)
        ensures
            r@ == "HTTP poll '"@ + self.url@ + "'"@,
    {
        let mut s = owned("HTTP poll '");
        append_str(&mut s, self.url.as_str());
        append_str(&mut s, "'");
        s
    }
}

/// Checks whether a file exists.
#[derive(Debug)]
pub struct FileExistsChecker {
    pub path: String,
}

impl FileExistsChecker {
    /// Creates a checker for file existence.
    pub fn new(path: String) -> (c: Self)
        ensures
            c.path == path,
    {
        FileExistsChecker { path }
    }
}

impl ReadinessChecker for FileExistsChecker {
    fn description(&self) -> (r: String)
        ensures
            r@ == "file '"@ + self.path@ + "'"@,
    {
        let mut s = owned("file '");
        append_str(&mut s, self.path.as_str());
        append_str(&mut s, "'");
        s
    }
}

/// The check a readiness strategy runs.
#[derive(Debug)]
pub enum CheckerPlan {
    LogPattern(LogPatternChecker),
    LogRegex(RegexPatternChecker),
    Tcp(TcpPortChecker),
    Http(HttpPollChecker),
    File(FileExistsChecker),
}

/// What a check reports it waits for.
pub open spec fn plan_description(p: CheckerPlan) -> Seq<char> {
    match p {
        CheckerPlan::LogPattern(c) => "log pattern '"@ + c.needle() + "'"@,
        CheckerPlan::LogRegex(c) => "log regex '"@ + c.regex() + "'"@,
        CheckerPlan::Tcp(c) => "TCP port "@ + decimal(c.port as nat),
        CheckerPlan::Http(c) => "HTTP poll '"@ + c.url@ + "'"@,
        CheckerPlan::File(c) => "file '"@ + c.path@ + "'"@,
    }
}

impl CheckerPlan {
    /// The description of the check.
    pub fn description(&self) -> (r: String)
        ensures
            r@ == plan_description(*self),
    {
        match self {
            CheckerPlan::LogPattern(c) => c.description(),
            CheckerPlan::LogRegex(c) => c.description(),
            CheckerPlan::Tcp(c) => c.description(),
            CheckerPlan::Http(c) => c.description(),
            CheckerPlan::File(c) => c.description(),
        }
    }
}

/// Builds the check for a strategy, with the job's log inside `job_dir`.
/// A log regex that does not compile falls back to a substring search for
/// the same text.
pub fn build_checker(strategy: &ReadinessStrategy, job_dir: &str) -> (r: CheckerPlan)
    ensures
        match *strategy {
            ReadinessStrategy::LogPattern(p) => r matches CheckerPlan::LogPattern(c) && c.log_file()
                == path_join_seq(job_dir@, "stdout.log"@) && c.needle() == p@ && c.read_to() == 0,
            ReadinessStrategy::LogPatternRegex(p) => if regex_valid(p@) {
                r matches CheckerPlan::LogRegex(c) && c.log_file() == path_join_seq(
                    job_dir@,
                    "stdout.log"@,
                ) && c.regex() == p@ && c.read_to() == 0
            } else {
                r matches CheckerPlan::LogPattern(c) && c.log_file() == path_join_seq(
                    job_dir@,
                    "stdout.log"@,
                ) && c.needle() == p@ && c.read_to() == 0
            },
            ReadinessStrategy::TcpPort(port) => r matches CheckerPlan::Tcp(c) && c.port == port,
            ReadinessStrategy::HttpPoll(u) => r matches CheckerPlan::Http(c) && c.url == u,
            ReadinessStrategy::FileExists(f) => r matches CheckerPlan::File(c) && c.path == f,
        },
{
    match strategy {
        ReadinessStrategy::LogPattern(p) => CheckerPlan::LogPattern(
            LogPatternChecker::new(log_path(job_dir), p.clone()),
        ),
        ReadinessStrategy::LogPatternRegex(p) => match CompiledRegex::new(p.as_str()) {
            Some(re) => CheckerPlan::LogRegex(RegexPatternChecker::new(log_path(job_dir), re)),
            None => CheckerPlan::LogPattern(LogPatternChecker::new(log_path(job_dir), p.clone())),
        },
        ReadinessStrategy::TcpPort(port) => CheckerPlan::Tcp(TcpPortChecker::new(*port)),
        ReadinessStrategy::HttpPoll(u) => CheckerPlan::Http(HttpPollChecker::new(u.clone())),
        ReadinessStrategy::FileExists(f) => CheckerPlan::File(FileExistsChecker::new(f.clone())),
    }
}

/// How long the readiness loop keeps checking, in milliseconds.
pub open spec fn readiness_timeout() -> u64 {
    60000
}

/// The readiness loop's timeout in milliseconds: one minute.
pub fn readiness_timeout_ms() -> (r: u64)
    ensures
        r == readiness_timeout(),
{
    60000
}

/// One turn of a polling loop that watches a job.
#[derive(Debug, Clone, Copy, PartialEq, Eq, Structural)]
pub enum PollStep {
    /// The time is up.
    TimedOut,
    /// The job is gone or finished: stop.
    JobGone,
    /// Look now.
    Check,
}

/// The next turn of the readiness loop after `elapsed_ms` of `timeout_ms`,
/// for a job that is (or is not) still alive.
pub fn poll_step(elapsed_ms: u64, timeout_ms: u64, alive: bool) -> (r: PollStep)
    ensures
        r == (if elapsed_ms >= timeout_ms {
            PollStep::TimedOut
        } else if !alive {
            PollStep::JobGone
        } else {
            PollStep::Check
        }),
{
    if elapsed_ms >= timeout_ms {
        PollStep::TimedOut
    } else if !alive {
        PollStep::JobGone
    } else {
        PollStep::Check
    }
}

} // verus!
