//! Display of record-log entries.
use vstd::prelude::*;

use crate::text::{decimal, str_eq, zero_pad, zero_padded_decimal};

verus! {

/// One entry of the recorded action log.
#[derive(Debug)]
pub struct RecordLogEntry {
    pub seq: u64,
    pub op: String,
    pub path: String,
    pub dst: Option<String>,
    pub ts: String,
    pub is_head: bool,
}

/// What an entry acts on: `path -> dst` for a rename with a destination,
/// else the path.
pub open spec fn log_target(e: RecordLogEntry) -> Seq<char> {
    match e.dst {
        Some(d) => if e.op@ == "rename"@ {
            e.path@ + " -> "@ + d@
        } else {
            e.path@
        },
        None => e.path@,
    }
}

/// The display line of an entry: `* <seq, six digits>[ (HEAD)] <op> <target> [<ts>]`.
pub open spec fn log_line(e: RecordLogEntry) -> Seq<char> {
    "* "@ + zero_pad(decimal(e.seq as nat), 6) + (if e.is_head {
        " (HEAD)"@
    } else {
        ""@
    }) + " "@ + e.op@ + " "@ + log_target(e) + " ["@ + e.ts@ + "]"@
}

/// Formats a record-log entry for `recovery --list`.
pub fn format_log_entry(entry: &RecordLogEntry) -> (r: String)
    ensures
        r@ == log_line(*entry),
{
    let mut out = "* ".to_owned();
    let n = zero_padded_decimal(entry.seq, 6);
    out.append(n.as_str());
    if entry.is_head {
        out.append(" (HEAD)");
    } else {
        out.append("");
    }
    out.append(" ");
    out.append(entry.op.as_str());
    out.append(" ");
    match &entry.dst {
        Some(d) => {
            if str_eq(entry.op.as_str(), "rename") {
                out.append(entry.path.as_str());
                out.append(" -> ");
                out.append(d.as_str());
            } else {
                out.append(entry.path.as_str());
            }
        },
        None => {
            out.append(entry.path.as_str());
        },
    }
    out.append(" [");
    out.append(entry.ts.as_str());
    out.append("]");
    out
}

} // verus!
