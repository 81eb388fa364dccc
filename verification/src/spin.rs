//! The mutual-exclusion flag that guards a handle's critical section.
//!
//! The flag serializes the read-modify-write of the offset header and
//! the accompanying payload write. Here the flag's protocol is what is
//! stated and checked: a section is entered only when the flag is
//! clear, and released only when it is set, so a double release is
//! ruled out by contract rather than detected at run time. The
//! busy-wait that arbitrates between racing threads is an unverified
//! concern of the embedding around this crate.

use vstd::prelude::*;

verus! {

/// A binary flag with lock/unlock transitions.
#[derive(Debug)]
pub struct SpinLock {
    flag: bool,
}

impl SpinLock {
    /// Whether the critical section is currently held.
    pub closed spec fn held(&self) -> bool {
        self.flag
    }

    /// A fresh flag, in the released state.
    pub fn new() -> (r: SpinLock)
        ensures
            !r.held(),
    {
        SpinLock { flag: false }
    }

    /// Enter the critical section.
    pub fn lock(&mut self)
        requires
            !old(self).held(),
        ensures
            final(self).held(),
    {
        self.flag = true;
    }

    /// Leave the critical section. Releasing a flag that is not held
    /// is a broken invariant, excluded by contract.
    pub fn unlock(&mut self)
        requires
            old(self).held(),
        ensures
            !final(self).held(),
    {
        self.flag = false;
    }
}

} // verus!
