//! A fixed-size circular log sink.
//!
//! Log records are appended to a bounded byte ring preceded by a small
//! header that stores the position of the next write. Old records are
//! silently overwritten as the ring wraps, which bounds disk usage.

use vstd::prelude::*;

pub mod builder;
pub mod errors;
pub mod level;
pub mod logger;
pub mod record;
pub mod ring;
pub mod spin;

pub use builder::Builder;
pub use builder::MIN_SIZE;
pub use errors::Error;
pub use level::Level;
pub use level::level_info;
pub use logger::Logger;
pub use logger::HEADER_SIZE;
pub use spin::SpinLock;

verus! {

/// One kibibyte, as a byte count.
pub const KB: usize = 1024;

/// One mebibyte, as a byte count.
pub const MB: usize = KB * 1024;

} // verus!
