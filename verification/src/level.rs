//! Record severities and the threshold comparison used to filter them.

use vstd::prelude::*;

verus! {

/// Severity of a log record, from most severe (`Error`) to least
/// severe (`Trace`).
#[derive(Clone, Copy, PartialEq, Eq, Structural, Debug)]
pub enum Level {
    Error,
    Warn,
    Info,
    Debug,
    Trace,
}

/// Rank of a severity: lower means more severe.
pub open spec fn level_rank(l: Level) -> int {
    match l {
        Level::Error => 1,
        Level::Warn => 2,
        Level::Info => 3,
        Level::Debug => 4,
        Level::Trace => 5,
    }
}

/// Whether a record of severity `l` passes a threshold of `threshold`:
/// it does exactly when `l` is at least as severe.
pub open spec fn level_passes(l: Level, threshold: Level) -> bool {
    level_rank(l) <= level_rank(threshold)
}

/// The single-character tag that marks a severity inside a record,
/// as a byte.
pub open spec fn spec_level_tag(l: Level) -> u8 {
    match l {
        Level::Error => 69,
        Level::Warn => 87,
        Level::Info => 73,
        Level::Debug => 68,
        Level::Trace => 84,
    }
}

/// The same tag as a character.
pub open spec fn spec_level_char(l: Level) -> char {
    match l {
        Level::Error => 'E',
        Level::Warn => 'W',
        Level::Info => 'I',
        Level::Debug => 'D',
        Level::Trace => 'T',
    }
}

/// The tag of a severity as a one-character string: `E`, `W`, `I`,
/// `D` or `T`.
pub fn level_info(l: Level) -> (r: &'static str)
    ensures
        r@ == seq![spec_level_char(l)],
        spec_level_char(l) as u8 == spec_level_tag(l),
{
    proof {
        reveal_strlit("E");
        reveal_strlit("W");
        reveal_strlit("I");
        reveal_strlit("D");
        reveal_strlit("T");
    }
    let r: &'static str = match l {
        Level::Error => "E",
        Level::Warn => "W",
        Level::Info => "I",
        Level::Debug => "D",
        Level::Trace => "T",
    };
    proof {
        assert(r@ =~= seq![spec_level_char(l)]);
    }
    r
}

/// The severity tag as the byte that is written into a record.
pub fn level_tag(l: Level) -> (r: u8)
    ensures
        r == spec_level_tag(l),
{
    match l {
        Level::Error => 69,
        Level::Warn => 87,
        Level::Info => 73,
        Level::Debug => 68,
        Level::Trace => 84,
    }
}

/// Compare two severities by rank; used by the enabled-check.
pub fn level_le(a: Level, b: Level) -> (r: bool)
    ensures
        r == level_passes(a, b),
{
    let ra: u8 = match a {
        Level::Error => 1,
        Level::Warn => 2,
        Level::Info => 3,
        Level::Debug => 4,
        Level::Trace => 5,
    };
    let rb: u8 = match b {
        Level::Error => 1,
        Level::Warn => 2,
        Level::Info => 3,
        Level::Debug => 4,
        Level::Trace => 5,
    };
    ra <= rb
}

} // verus!
