//! The textual layout of one log record.
//!
//! A record is rendered as
//! `[<timestamp> <thread-id> <level-tag> <file:line-or-empty> <target>] <message>`
//! with a newline appended when the message does not already end in
//! one. The timestamp, thread id, call site and target arrive here
//! already rendered as bytes; this module only assembles them.

use vstd::prelude::*;
use crate::level::{Level, spec_level_tag, level_tag};

verus! {

/// The byte `[`.
pub const LBRACKET: u8 = 91;

/// The byte `]`.
pub const RBRACKET: u8 = 93;

/// The byte ` `.
pub const SPACE: u8 = 32;

/// The byte `\n`.
pub const NEWLINE: u8 = 10;

/// The rendered record for the given parts: the bracketed metadata,
/// then the message, then a newline unless the message brings one.
pub open spec fn spec_record(
    ts: Seq<u8>,
    tid: Seq<u8>,
    tag: u8,
    file_line: Seq<u8>,
    target: Seq<u8>,
    msg: Seq<u8>,
) -> Seq<u8> {
    let body = seq![LBRACKET] + ts + seq![SPACE] + tid + seq![SPACE, tag, SPACE] + file_line
        + seq![SPACE] + target + seq![RBRACKET, SPACE] + msg;
    if msg.len() > 0 && msg[msg.len() - 1] == NEWLINE {
        body
    } else {
        body + seq![NEWLINE]
    }
}

/// Assemble the byte sequence of one record.
pub fn format_record(
    level: Level,
    ts: &[u8],
    tid: &[u8],
    file_line: &[u8],
    target: &[u8],
    msg: &[u8],
) -> (r: Vec<u8>)
    ensures
        r@ == spec_record(ts@, tid@, spec_level_tag(level), file_line@, target@, msg@),
    {
    let mut out: Vec<u8> = Vec::new();
    out.push(LBRACKET);
    out.extend_from_slice(ts);
    out.push(SPACE);
    out.extend_from_slice(tid);
    out.push(SPACE);
    out.push(level_tag(level));
    out.push(SPACE);
    out.extend_from_slice(file_line);
    out.push(SPACE);
    out.extend_from_slice(target);
    out.push(RBRACKET);
    out.push(SPACE);
    out.extend_from_slice(msg);
    let needs_newline = if msg.len() == 0 {
        true
    } else {
        msg[msg.len() - 1] != NEWLINE
    };
    if needs_newline {
        out.push(NEWLINE);
    }
    proof {
        assert(out@ =~= spec_record(ts@, tid@, spec_level_tag(level), file_line@, target@, msg@));
    }
    out
}

} // verus!
