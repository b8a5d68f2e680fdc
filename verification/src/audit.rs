//! Entries of the daemon's audit log.

use vstd::prelude::*;
use crate::text::{append_str, owned};

verus! {

broadcast use vstd::string::group_string_axioms;

/// A single audit log entry.
#[derive(Debug, Clone)]
pub struct AuditEntry {
    pub timestamp: String,
    pub command: String,
    pub args_summary: String,
    pub result: String,
}

/// The result column of an audit entry: `ok`, or `err:` and the error
/// message (`unknown` when there is none).
pub open spec fn audit_result_text(ok: bool, error_msg: Option<Seq<char>>) -> Seq<char> {
    if ok {
        "ok"@
    } else {
        "err:"@ + match error_msg {
            Some(m) => m,
            None => "unknown"@,
        }
    }
}

impl AuditEntry {
    /// The entry recording a command invocation at `timestamp`.
    pub fn new(timestamp: String, command: &str, args_summary: &str, ok: bool, error_msg: Option<&str>) -> (e:
        Self)
        ensures
            e.timestamp == timestamp,
            e.command@ == command@,
            e.args_summary@ == args_summary@,
            e.result@ == audit_result_text(
                ok,
                match error_msg {
                    Some(m) => Some(m@),
                    None => None,
                },
            ),
    {
        let result = if ok {
            owned("ok")
        } else {
            let mut r = owned("err:");
            match error_msg {
                Some(m) => append_str(&mut r, m),
                None => append_str(&mut r, "unknown"),
            }
            r
        };
        AuditEntry { timestamp, command: owned(command), args_summary: owned(args_summary), result }
    }
}

} // verus!
