//! The error surfaced by construction.
//!
//! Only construction can fail recoverably; once a handle exists, the
//! write path has no error return. Failures of the platform calls
//! around this crate (path encoding, open, resize, map) are reported
//! by the unverified edge that makes those calls; this crate itself
//! rejects only a region whose bytes cannot back a handle.

use vstd::prelude::*;

verus! {

/// An error returned while a log region is being set up.
#[derive(Debug)]
pub enum Error {
    /// The region's bytes cannot back a handle, described in text.
    Any(String),
}

impl Error {
    /// A textual rendering of the error.
    pub fn describe(&self) -> (r: String)
        ensures
            self matches Error::Any(s) && r@ == s@,
    {
        match self {
            Error::Any(s) => s.clone(),
        }
    }
}

} // verus!
