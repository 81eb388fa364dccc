//! The circular buffer core: a header-plus-ring region and the
//! wraparound write algorithm over it.
//!
//! The region is one contiguous block of bytes: the first
//! `HEADER_SIZE` bytes hold the offset of the next write, encoded
//! little-endian; the rest is the payload ring. The embedding around
//! this crate maps such a region from a file and copies it in and out;
//! every byte of layout, arithmetic and filtering is decided here.

use vstd::prelude::*;
use vstd::bytes::{spec_u64_from_le_bytes, spec_u64_to_le_bytes, lemma_auto_spec_u64_to_from_le_bytes, u64_from_le_bytes, u64_to_le_bytes};
use vstd::slice::slice_subrange;
use crate::level::{Level, level_passes, level_le, spec_level_tag};
use crate::ring::{ring_write, ring_offset, splice};
use crate::record::{spec_record, format_record};
use crate::spin::SpinLock;
use crate::errors::Error;

verus! {

/// Width of the offset header at the start of the region, in bytes.
pub const HEADER_SIZE: usize = 8;

/// A handle on one log region: the region bytes, the severity
/// threshold, the durability mode, and the flag that guards the
/// critical section.
#[derive(Debug)]
pub struct Logger {
    region: Vec<u8>,
    level: Level,
    sync: bool,
    spin: SpinLock,
}

impl Logger {
    /// The whole region, header included.
    pub closed spec fn region_view(&self) -> Seq<u8> {
        self.region@
    }

    /// Payload capacity: the ring size, excluding the header.
    pub open spec fn cap(&self) -> int {
        self.region_view().len() - HEADER_SIZE
    }

    /// The offset stored in the header: where the next write begins.
    pub open spec fn off(&self) -> int {
        spec_u64_from_le_bytes(self.region_view().subrange(0, HEADER_SIZE as int)) as int
    }

    /// The bytes of the payload ring.
    pub open spec fn payload(&self) -> Seq<u8> {
        self.region_view().subrange(HEADER_SIZE as int, self.region_view().len() as int)
    }

    /// The configured severity threshold.
    pub closed spec fn threshold(&self) -> Level {
        self.level
    }

    /// Whether a flush is meant to block until the bytes are durable.
    pub closed spec fn sync_mode(&self) -> bool {
        self.sync
    }

    /// The region's structural invariant: at least one payload byte
    /// behind the header, and the stored offset inside the ring.
    pub open spec fn ring_wf(&self) -> bool {
        &&& self.region_view().len() >= HEADER_SIZE + 1
        &&& self.off() <= self.cap()
    }

    /// Whether this handle's critical-section flag is held.
    pub closed spec fn lock_held(&self) -> bool {
        self.spin.held()
    }

    /// Well-formed between calls: the region invariant holds and the
    /// critical section is not held.
    pub open spec fn wf(&self) -> bool {
        &&& self.ring_wf()
        &&& !self.lock_held()
    }

    /// Read the offset header.
    pub fn offset(&self) -> (r: usize)
        requires
            self.ring_wf(),
        ensures
            r == self.off(),
    {
        let n = self.region.len();
        let s = slice_subrange(self.region.as_slice(), 0, HEADER_SIZE);
        let x = u64_from_le_bytes(s);
        proof {
            assert(x as int == self.off());
            assert(x as int <= self.cap());
            assert(self.cap() < n as int);
        }
        x as usize
    }

    /// Payload capacity of this handle.
    pub fn size(&self) -> (r: usize)
        requires
            self.ring_wf(),
        ensures
            r == self.cap(),
    {
        self.region.len() - HEADER_SIZE
    }

    /// Store a new offset in the header. An offset beyond the
    /// capacity would mean the ring arithmetic itself is broken, so
    /// it is excluded by contract rather than handled.
    pub fn set_offset(&mut self, new: usize)
        requires
            old(self).region_view().len() >= HEADER_SIZE + 1,
            new <= old(self).cap(),
        ensures
            final(self).ring_wf(),
            final(self).off() == new,
            final(self).cap() == old(self).cap(),
            final(self).payload() == old(self).payload(),
            final(self).threshold() == old(self).threshold(),
            final(self).sync_mode() == old(self).sync_mode(),
            final(self).lock_held() == old(self).lock_held(),
    {
        let bytes = u64_to_le_bytes(new as u64);
        proof {
            lemma_auto_spec_u64_to_from_le_bytes();
        }
        let mut i: usize = 0;
        while i < HEADER_SIZE
            invariant
                i <= HEADER_SIZE,
                bytes@.len() == 8,
                bytes@ == spec_u64_to_le_bytes(new as u64),
                self.region@.len() == old(self).region@.len(),
                old(self).region@.len() >= HEADER_SIZE + 1,
                forall|j: int| 0 <= j < i ==> self.region@[j] == bytes@[j],
                forall|j: int| i <= j < self.region@.len() ==> self.region@[j] == old(self).region@[j],
                self.level == old(self).level,
                self.sync == old(self).sync,
                self.spin == old(self).spin,
            decreases HEADER_SIZE - i,
        {
            self.region[i] = bytes[i];
            i = i + 1;
        }
        proof {
            assert(self.region@.subrange(0, HEADER_SIZE as int) =~= spec_u64_to_le_bytes(new as u64));
            assert(self.payload() =~= old(self).payload());
        }
    }

    /// Copy `count` bytes of `src`, starting at `start`, into the
    /// region at position `dst`.
    fn copy_region(&mut self, dst: usize, src: &[u8], start: usize, count: usize)
        requires
            dst + count <= old(self).region_view().len(),
            start + count <= src@.len(),
        ensures
            final(self).region_view().len() == old(self).region_view().len(),
            forall|j: int| 0 <= j < dst ==> final(self).region_view()[j] == old(self).region_view()[j],
            forall|j: int| dst <= j < dst + count ==> final(self).region_view()[j] == src@[start + (j - dst)],
            forall|j: int| dst + count <= j < old(self).region_view().len() ==> final(self).region_view()[j] == old(self).region_view()[j],
            final(self).threshold() == old(self).threshold(),
            final(self).sync_mode() == old(self).sync_mode(),
            final(self).lock_held() == old(self).lock_held(),
    {
        // Reading the lengths as usize bounds both views by the
        // machine word, which the index arithmetic below needs.
        let _n = self.region.len();
        let _m = src.len();
        proof {
            assert(old(self).region@.len() <= usize::MAX);
            assert(src@.len() <= usize::MAX);
        }
        let mut i: usize = 0;
        while i < count
            invariant
                i <= count,
                dst + count <= old(self).region@.len(),
                start + count <= src@.len(),
                old(self).region@.len() <= usize::MAX,
                src@.len() <= usize::MAX,
                self.region@.len() == old(self).region@.len(),
                forall|j: int| 0 <= j < dst ==> self.region@[j] == old(self).region@[j],
                forall|j: int| dst <= j < dst + i ==> self.region@[j] == src@[start + (j - dst)],
                forall|j: int| dst + i <= j < self.region@.len() ==> self.region@[j] == old(self).region@[j],
                self.level == old(self).level,
                self.sync == old(self).sync,
                self.spin == old(self).spin,
            decreases count - i,
        {
            self.region[dst + i] = src[start + i];
            i = i + 1;
        }
    }

    /// A fresh handle in create mode: a zeroed region of `size`
    /// payload bytes behind the header, with the offset reset to the
    /// start of the ring.
    pub fn new(size: usize, level: Level, sync: bool) -> (r: Logger)
        requires
            1 <= size <= usize::MAX - HEADER_SIZE,
        ensures
            r.wf(),
            r.cap() == size,
            r.off() == 0,
            r.payload() == Seq::new(size as nat, |i: int| 0u8),
            r.threshold() == level,
            r.sync_mode() == sync,
    {
        let total = size + HEADER_SIZE;
        let mut region: Vec<u8> = Vec::new();
        while region.len() < total
            invariant
                region@.len() <= total,
                forall|j: int| 0 <= j < region@.len() ==> region@[j] == 0u8,
            decreases total - region@.len(),
        {
            region.push(0u8);
        }
        let mut l = Logger { region, level, sync, spin: SpinLock::new() };
        l.set_offset(0);
        proof {
            assert(l.payload() =~= Seq::new(size as nat, |i: int| 0u8));
        }
        l
    }

    /// A handle in reopen mode: adopt an existing region, bytes and
    /// stored offset included. Fails exactly when the region is too
    /// short to hold the header and one payload byte, or when the
    /// stored offset lies beyond the capacity.
    pub fn open_region(region: Vec<u8>, level: Level, sync: bool) -> (r: Result<Logger, Error>)
        ensures
            (r is Ok) == {
                &&& region@.len() >= HEADER_SIZE + 1
                &&& spec_u64_from_le_bytes(region@.subrange(0, HEADER_SIZE as int)) as int
                    <= region@.len() - HEADER_SIZE
            },
            r matches Ok(l) ==> {
                &&& l.wf()
                &&& l.region_view() == region@
                &&& l.cap() == region@.len() - HEADER_SIZE
                &&& l.off() == spec_u64_from_le_bytes(region@.subrange(0, HEADER_SIZE as int)) as int
                &&& l.payload() == region@.subrange(HEADER_SIZE as int, region@.len() as int)
                &&& l.threshold() == level
                &&& l.sync_mode() == sync
            },
    {
        let n = region.len();
        if n < HEADER_SIZE + 1 {
            return Err(Error::Any("region too small for a log header".to_owned()));
        }
        let s = slice_subrange(region.as_slice(), 0, HEADER_SIZE);
        let x = u64_from_le_bytes(s);
        if x <= (n - HEADER_SIZE) as u64 {
            Ok(Logger { region, level, sync, spin: SpinLock::new() })
        } else {
            Err(Error::Any("stored offset exceeds the payload capacity".to_owned()))
        }
    }

    /// Append `msg` to the ring at the stored offset, wrapping as
    /// needed, and store the offset of the write's end. The whole
    /// read-modify-write runs inside the critical section.
    pub fn write_bytes(&mut self, msg: &[u8])
        requires
            old(self).wf(),
        ensures
            final(self).wf(),
            final(self).cap() == old(self).cap(),
            final(self).threshold() == old(self).threshold(),
            final(self).sync_mode() == old(self).sync_mode(),
            final(self).payload() == ring_write(old(self).payload(), old(self).off(), msg@),
            final(self).off() == ring_offset(old(self).off(), msg@.len() as int, old(self).cap()),
    {
        self.spin.lock();
        let o = self.offset();
        let cap = self.size();
        let len = msg.len();
        // The region length bounds the ring arithmetic by the machine
        // word.
        let rl = self.region.len();
        proof {
            assert(o <= cap);
            assert(HEADER_SIZE + cap == rl as int);
        }
        if len <= cap - o {
            self.copy_region(HEADER_SIZE + o, msg, 0, len);
            proof {
                assert(msg@.subrange(0, len as int) =~= msg@);
                assert(self.payload() =~= splice(old(self).payload(), o as int, msg@));
            }
            self.set_offset(o + len);
        } else {
            let tail = cap - o;
            self.copy_region(HEADER_SIZE + o, msg, 0, tail);
            let ghost mid = *self;
            let left = (len - tail) % cap;
            proof {
                vstd::arithmetic::div_mod::lemma_mod_decreases((len - tail) as nat, cap as nat);
            }
            self.copy_region(HEADER_SIZE, msg, len - left, left);
            proof {
                assert(mid.payload() =~= splice(old(self).payload(), o as int, msg@.subrange(0, tail as int)));
                assert(self.payload() =~= splice(mid.payload(), 0, msg@.subrange(len - left, len as int)));
                assert(self.payload() =~= ring_write(old(self).payload(), old(self).off(), msg@));
            }
            self.set_offset(left);
        }
        self.spin.unlock();
    }

    /// Whether a record of severity `level` would be written by this
    /// handle.
    pub fn enabled(&self, level: Level) -> (r: bool)
        ensures
            r == level_passes(level, self.threshold()),
    {
        level_le(level, self.level)
    }

    /// Submit one record: drop it when its severity does not pass the
    /// threshold, otherwise render it and append it to the ring. The
    /// timestamp, thread id, call site and target arrive already
    /// rendered as bytes.
    pub fn log(&mut self, level: Level, ts: &[u8], tid: &[u8], file_line: &[u8], target: &[u8], msg: &[u8])
        requires
            old(self).wf(),
        ensures
            final(self).wf(),
            final(self).cap() == old(self).cap(),
            final(self).threshold() == old(self).threshold(),
            final(self).sync_mode() == old(self).sync_mode(),
            level_passes(level, old(self).threshold()) ==> {
                let rec = spec_record(ts@, tid@, spec_level_tag(level), file_line@, target@, msg@);
                &&& final(self).payload() == ring_write(old(self).payload(), old(self).off(), rec)
                &&& final(self).off() == ring_offset(old(self).off(), rec.len() as int, old(self).cap())
            },
            !level_passes(level, old(self).threshold()) ==> *final(self) == *old(self),
    {
        if !self.enabled(level) {
            return;
        }
        let rec = format_record(level, ts, tid, file_line, target, msg);
        self.write_bytes(rec.as_slice());
    }

    /// The whole region, header included, for the embedding to copy
    /// back to its backing file.
    pub fn region_ref(&self) -> (r: &Vec<u8>)
        ensures
            r@ == self.region_view(),
    {
        &self.region
    }

    /// Tear the handle down, yielding the region for a final copy to
    /// the backing file.
    pub fn into_region(self) -> (r: Vec<u8>)
        ensures
            r@ == self.region_view(),
    {
        self.region
    }

    /// A copy of the payload ring.
    pub fn payload_vec(&self) -> (r: Vec<u8>)
        requires
            self.ring_wf(),
        ensures
            r@ == self.payload(),
    {
        let s = slice_subrange(self.region.as_slice(), HEADER_SIZE, self.region.len());
        vstd::slice::slice_to_vec(s)
    }
}

} // verus!
