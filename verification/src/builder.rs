//! Configuration collection and normalization ahead of construction.
//!
//! The builder gathers the payload capacity, the severity threshold
//! and the durability mode, clamps a too-small capacity up to the
//! floor, and then constructs a handle either in create mode (a fresh
//! zeroed region) or in reopen mode (adopting region bytes that the
//! embedding read back from an existing file, resized to the
//! configured capacity as reopening resizes the backing file).

use vstd::prelude::*;
use crate::KB;
use crate::errors::Error;
use crate::level::Level;
use crate::logger::{Logger, HEADER_SIZE};
use vstd::bytes::spec_u64_from_le_bytes;

verus! {

/// The smallest payload capacity a handle is built with; a smaller
/// request is silently raised to it.
pub const MIN_SIZE: usize = 512 * KB;

/// Collects the configuration of a handle before it is built.
#[derive(Debug)]
pub struct Builder {
    size: usize,
    level: Level,
    sync: bool,
}

/// Region bytes cut or zero-extended to `total` bytes, the way
/// resizing the backing file cuts or zero-extends it.
pub open spec fn normalize_region(b: Seq<u8>, total: int) -> Seq<u8>
    recommends
        0 <= total,
{
    if b.len() >= total {
        b.subrange(0, total)
    } else {
        b + Seq::new((total - b.len()) as nat, |i: int| 0u8)
    }
}

impl Builder {
    /// The requested payload capacity.
    pub closed spec fn cfg_size(&self) -> int {
        self.size as int
    }

    /// The configured severity threshold.
    pub closed spec fn cfg_level(&self) -> Level {
        self.level
    }

    /// The configured durability mode.
    pub closed spec fn cfg_sync(&self) -> bool {
        self.sync
    }

    /// The capacity a handle will actually be built with: the
    /// request, raised to the floor if it is below it.
    pub open spec fn clamped_size(&self) -> int {
        if self.cfg_size() < MIN_SIZE { MIN_SIZE as int } else { self.cfg_size() }
    }

    /// A builder with the defaults: the floor capacity, an `Info`
    /// threshold, best-effort durability.
    pub fn new() -> (r: Builder)
        ensures
            r.cfg_size() == MIN_SIZE,
            r.cfg_level() == Level::Info,
            !r.cfg_sync(),
    {
        Builder { size: MIN_SIZE, level: Level::Info, sync: false }
    }

    /// Request a payload capacity.
    pub fn size(self, s: usize) -> (r: Builder)
        ensures
            r.cfg_size() == s,
            r.cfg_level() == self.cfg_level(),
            r.cfg_sync() == self.cfg_sync(),
    {
        Builder { size: s, ..self }
    }

    /// Set the severity threshold.
    pub fn level(self, l: Level) -> (r: Builder)
        ensures
            r.cfg_size() == self.cfg_size(),
            r.cfg_level() == l,
            r.cfg_sync() == self.cfg_sync(),
    {
        Builder { level: l, ..self }
    }

    /// Choose whether a flush blocks until the bytes are durable.
    pub fn sync(self, enable: bool) -> (r: Builder)
        ensures
            r.cfg_size() == self.cfg_size(),
            r.cfg_level() == self.cfg_level(),
            r.cfg_sync() == enable,
    {
        Builder { sync: enable, ..self }
    }

    /// The payload capacity a handle built from this configuration
    /// will actually have: the request, raised to the floor if it is
    /// below it. The embedding sizes the backing file by it.
    pub fn capacity(&self) -> (r: usize)
        ensures
            r == self.clamped_size(),
    {
        if self.size < MIN_SIZE {
            MIN_SIZE
        } else {
            self.size
        }
    }

    /// Raise a capacity below the floor up to it.
    pub fn make_sense(&mut self)
        ensures
            final(self).cfg_size() == old(self).clamped_size(),
            final(self).cfg_level() == old(self).cfg_level(),
            final(self).cfg_sync() == old(self).cfg_sync(),
    {
        if self.size < MIN_SIZE {
            self.size = MIN_SIZE;
        }
    }

    /// Create mode: a fresh handle over a zeroed region, its offset
    /// at the start of the ring. Whatever a backing file held before
    /// is discarded by the truncation the embedding performs.
    pub fn build(self) -> (r: Logger)
        requires
            self.cfg_size() <= usize::MAX - HEADER_SIZE,
        ensures
            r.wf(),
            r.cap() == self.clamped_size(),
            r.off() == 0,
            r.payload() == Seq::new(self.clamped_size() as nat, |i: int| 0u8),
            r.threshold() == self.cfg_level(),
            r.sync_mode() == self.cfg_sync(),
    {
        let mut b = self;
        b.make_sense();
        Logger::new(b.size, b.level, b.sync)
    }

    /// Reopen mode: adopt the bytes read back from an existing
    /// region, resized to the configured capacity, keeping the stored
    /// offset and payload. Fails exactly when the stored offset lies
    /// beyond the capacity.
    pub fn open(self, bytes: Vec<u8>) -> (r: Result<Logger, Error>)
        requires
            self.cfg_size() <= usize::MAX - HEADER_SIZE,
        ensures
            ({
                let reg = normalize_region(bytes@, HEADER_SIZE + self.clamped_size());
                let stored = spec_u64_from_le_bytes(reg.subrange(0, HEADER_SIZE as int)) as int;
                &&& (r is Ok) == (stored <= self.clamped_size())
                &&& (r matches Ok(l) ==> {
                    &&& l.wf()
                    &&& l.region_view() == reg
                    &&& l.cap() == self.clamped_size()
                    &&& l.off() == stored
                    &&& l.payload() == reg.subrange(HEADER_SIZE as int, reg.len() as int)
                    &&& l.threshold() == self.cfg_level()
                    &&& l.sync_mode() == self.cfg_sync()
                })
            }),
    {
        let mut b = self;
        b.make_sense();
        let total = b.size + HEADER_SIZE;
        let ghost orig = bytes@;
        let mut region = bytes;
        if region.len() >= total {
            region.truncate(total);
        } else {
            while region.len() < total
                invariant
                    orig.len() < total,
                    orig.len() <= region@.len() <= total,
                    forall|j: int| 0 <= j < orig.len() ==> region@[j] == orig[j],
                    forall|j: int| orig.len() <= j < region@.len() ==> region@[j] == 0u8,
                decreases total - region@.len(),
            {
                region.push(0u8);
            }
        }
        proof {
            assert(region@ =~= normalize_region(orig, total as int));
        }
        Logger::open_region(region, b.level, b.sync)
    }
}

/// Reopening the very region a well-formed handle tears down gives
/// back the same region: nothing is cut, nothing is appended, and the
/// stored offset still lies within the capacity, so a reopen on it is
/// owed success with the offset and the payload preserved exactly.
pub proof fn lemma_reopen_round_trip(l: Logger, b: Builder)
    requires
        l.ring_wf(),
        b.clamped_size() == l.cap(),
    ensures
        ({
            let reg = normalize_region(l.region_view(), HEADER_SIZE + b.clamped_size());
            let stored = spec_u64_from_le_bytes(reg.subrange(0, HEADER_SIZE as int)) as int;
            &&& reg == l.region_view()
            &&& stored == l.off()
            &&& stored <= b.clamped_size()
            &&& reg.subrange(HEADER_SIZE as int, reg.len() as int) == l.payload()
        }),
{
    let reg = normalize_region(l.region_view(), HEADER_SIZE + b.clamped_size());
    assert(reg =~= l.region_view());
}

} // verus!
