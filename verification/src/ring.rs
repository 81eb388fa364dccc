//! The wraparound write arithmetic of the payload ring.
//!
//! A write of `m` at offset `o` into a ring of capacity `cap` either
//! fits before the end of the ring (`o + m.len() <= cap`) or is split:
//! the first `cap - o` bytes of `m` fill the ring to its end, and of
//! the rest only the final `(m.len() - (cap - o)) % cap` bytes are
//! kept, placed at the start of the ring. The modulo keeps only the
//! last lap of a message longer than the whole ring.

use vstd::prelude::*;

verus! {

/// `p` with `m` written in place starting at position `at`.
pub open spec fn splice(p: Seq<u8>, at: int, m: Seq<u8>) -> Seq<u8>
    recommends
        0 <= at,
        at + m.len() <= p.len(),
{
    p.subrange(0, at) + m + p.subrange(at + m.len(), p.len() as int)
}

/// The offset after writing `len` bytes at offset `o` into a ring of
/// capacity `cap`.
pub open spec fn ring_offset(o: int, len: int, cap: int) -> int
    recommends
        0 <= o <= cap,
        0 <= len,
        1 <= cap,
{
    if o + len <= cap {
        o + len
    } else {
        (o + len - cap) % cap
    }
}

/// The payload ring `p` after writing `m` at offset `o`.
pub open spec fn ring_write(p: Seq<u8>, o: int, m: Seq<u8>) -> Seq<u8>
    recommends
        0 <= o <= p.len(),
        1 <= p.len(),
{
    let cap = p.len() as int;
    if o + m.len() <= cap {
        splice(p, o, m)
    } else {
        let tail = cap - o;
        let left = (m.len() - tail) % cap;
        splice(splice(p, o, m.subrange(0, tail)), 0, m.subrange(m.len() - left, m.len() as int))
    }
}

/// Writing never changes the ring's size.
pub proof fn lemma_ring_write_len(p: Seq<u8>, o: int, m: Seq<u8>)
    requires
        1 <= p.len(),
        0 <= o <= p.len(),
    ensures
        ring_write(p, o, m).len() == p.len(),
{
    let cap = p.len() as int;
    if o + m.len() <= cap {
    } else {
        let tail = cap - o;
        let left = (m.len() - tail) % cap;
        vstd::arithmetic::div_mod::lemma_mod_decreases((m.len() - tail) as nat, cap as nat);
        assert(0 <= left < cap);
        assert(left <= m.len() - tail);
        let inner = splice(p, o, m.subrange(0, tail));
        assert(inner.len() == cap);
        assert(splice(inner, 0, m.subrange(m.len() - left, m.len() as int)).len() == cap);
    }
}

/// The concatenation of a sequence of messages.
pub open spec fn concat_all(msgs: Seq<Seq<u8>>) -> Seq<u8>
    decreases msgs.len(),
{
    if msgs.len() == 0 {
        Seq::empty()
    } else {
        msgs[0] + concat_all(msgs.drop_first())
    }
}

/// The ring after the messages of `msgs` are written one after the
/// other, starting at offset `o`.
pub open spec fn ring_payload_after(p: Seq<u8>, o: int, msgs: Seq<Seq<u8>>) -> Seq<u8>
    decreases msgs.len(),
{
    if msgs.len() == 0 {
        p
    } else {
        ring_payload_after(
            ring_write(p, o, msgs[0]),
            ring_offset(o, msgs[0].len() as int, p.len() as int),
            msgs.drop_first(),
        )
    }
}

/// The offset after the messages of `msgs` are written one after the
/// other, starting at offset `o`, into a ring of capacity `cap`.
pub open spec fn ring_offset_after(o: int, cap: int, msgs: Seq<Seq<u8>>) -> int
    decreases msgs.len(),
{
    if msgs.len() == 0 {
        o
    } else {
        ring_offset_after(ring_offset(o, msgs[0].len() as int, cap), cap, msgs.drop_first())
    }
}

/// Writes that fit before the end of the ring land as one contiguous
/// concatenation: after any sequence of writes whose total length
/// stays within the ring, the bytes from the starting offset onward
/// are the messages in submission order, and the offset has advanced
/// by exactly the total length.
pub proof fn lemma_sequential_writes(p: Seq<u8>, o: int, msgs: Seq<Seq<u8>>)
    requires
        1 <= p.len(),
        0 <= o <= p.len(),
        o + concat_all(msgs).len() <= p.len(),
    ensures
        ring_payload_after(p, o, msgs) == splice(p, o, concat_all(msgs)),
        ring_offset_after(o, p.len() as int, msgs) == o + concat_all(msgs).len(),
    decreases msgs.len(),
{
    if msgs.len() == 0 {
        assert(splice(p, o, concat_all(msgs)) =~= p);
    } else {
        let m0 = msgs[0];
        let rest = msgs.drop_first();
        assert(concat_all(msgs) == m0 + concat_all(rest));
        let q = ring_write(p, o, m0);
        assert(q == splice(p, o, m0));
        lemma_ring_write_len(p, o, m0);
        let o2 = ring_offset(o, m0.len() as int, p.len() as int);
        assert(o2 == o + m0.len());
        lemma_sequential_writes(q, o2, rest);
        assert(splice(splice(p, o, m0), o + m0.len(), concat_all(rest)) =~= splice(
            p,
            o,
            m0 + concat_all(rest),
        ));
    }
}

/// Writes into a fresh ring: starting at offset zero, the first bytes
/// of the ring are the messages in order, the rest of the ring is
/// untouched, and the offset equals the total length written.
pub proof fn lemma_writes_from_start(p: Seq<u8>, msgs: Seq<Seq<u8>>)
    requires
        1 <= p.len(),
        concat_all(msgs).len() <= p.len(),
    ensures
        ring_payload_after(p, 0, msgs).subrange(0, concat_all(msgs).len() as int) == concat_all(
            msgs,
        ),
        ring_payload_after(p, 0, msgs).subrange(concat_all(msgs).len() as int, p.len() as int)
            == p.subrange(concat_all(msgs).len() as int, p.len() as int),
        ring_offset_after(0, p.len() as int, msgs) == concat_all(msgs).len(),
{
    lemma_sequential_writes(p, 0, msgs);
    let w = ring_payload_after(p, 0, msgs);
    let c = concat_all(msgs);
    assert(w.subrange(0, c.len() as int) =~= c);
    assert(w.subrange(c.len() as int, p.len() as int) =~= p.subrange(
        c.len() as int,
        p.len() as int,
    ));
}

/// A write that crosses the end of the ring, but is no longer than
/// the ring itself: its first bytes fill the ring to the end, its
/// last bytes land at the start of the ring, the stretch in between
/// is untouched, and the offset ends just past the head segment.
/// (From an offset equal to the capacity the tail segment is empty
/// and the unreduced form `len - (cap - o)` of the final offset can
/// reach `cap`, where only its mod-`cap` reduction holds; that corner
/// is outside this statement and covered by the exact `ring_write` /
/// `ring_offset` contracts of the write path.)
pub proof fn lemma_wraparound(p: Seq<u8>, o: int, m: Seq<u8>)
    requires
        1 <= p.len(),
        0 <= o < p.len(),
        o + m.len() > p.len(),
        m.len() <= p.len(),
    ensures
        ({
            let cap = p.len() as int;
            let tail = cap - o;
            let left = m.len() - tail;
            let w = ring_write(p, o, m);
            &&& ring_offset(o, m.len() as int, cap) == left
            &&& w.subrange(o, cap) == m.subrange(0, tail)
            &&& w.subrange(0, left) == m.subrange(tail, m.len() as int)
            &&& left <= o
            &&& w.subrange(left, o) == p.subrange(left, o)
        }),
{
    let cap = p.len() as int;
    let tail = cap - o;
    let left = m.len() - tail;
    vstd::arithmetic::div_mod::lemma_small_mod(left as nat, cap as nat);
    let w = ring_write(p, o, m);
    assert(w.subrange(o, cap) =~= m.subrange(0, tail));
    assert(w.subrange(0, left) =~= m.subrange(tail, m.len() as int));
    assert(w.subrange(left, o) =~= p.subrange(left, o));
}

/// A single message longer than the whole ring, wrapping once past
/// the end: read in ring order from the final offset, the ring then
/// holds exactly the message's last `cap` bytes, and the offset ends
/// at `(o + len - cap) % cap` -- for a write from offset zero, at
/// `len % cap`. (A message long enough to lap the ring more than
/// once keeps bytes of an earlier lap between the head segment and
/// the old offset, so this shape of statement holds only up to one
/// extra lap.)
pub proof fn lemma_oversized(p: Seq<u8>, o: int, m: Seq<u8>)
    requires
        1 <= p.len(),
        0 <= o,
        m.len() > p.len(),
        o + m.len() < 2 * p.len(),
    ensures
        ({
            let cap = p.len() as int;
            let no = o + m.len() - cap;
            let w = ring_write(p, o, m);
            &&& ring_offset(o, m.len() as int, cap) == no
            &&& w.subrange(no, cap) + w.subrange(0, no) == m.subrange(
                m.len() - cap,
                m.len() as int,
            )
            &&& (o == 0 ==> no == (m.len() as int) % cap)
        }),
{
    let cap = p.len() as int;
    let tail = cap - o;
    let no = o + m.len() - cap;
    vstd::arithmetic::div_mod::lemma_small_mod(no as nat, cap as nat);
    let w = ring_write(p, o, m);
    assert(w.subrange(no, cap) + w.subrange(0, no) =~= m.subrange(m.len() - cap, m.len() as int));
    if o == 0 {
        vstd::arithmetic::div_mod::lemma_mod_multiples_vanish(1, no, cap);
    }
}

/// Whether `ws` is an interleaving of the two write sequences `a`
/// and `b` at message granularity: every message of both appears in
/// `ws`, in its own sequence's order, and nothing else does.
pub open spec fn is_interleaving(ws: Seq<Seq<u8>>, a: Seq<Seq<u8>>, b: Seq<Seq<u8>>) -> bool
    decreases ws.len(),
{
    if ws.len() == 0 {
        a.len() == 0 && b.len() == 0
    } else {
        ||| (a.len() > 0 && ws[0] == a[0] && is_interleaving(ws.drop_first(), a.drop_first(), b))
        ||| (b.len() > 0 && ws[0] == b[0] && is_interleaving(ws.drop_first(), a, b.drop_first()))
    }
}

/// An interleaving writes exactly the bytes of both sequences.
pub proof fn lemma_interleaving_total(ws: Seq<Seq<u8>>, a: Seq<Seq<u8>>, b: Seq<Seq<u8>>)
    requires
        is_interleaving(ws, a, b),
    ensures
        concat_all(ws).len() == concat_all(a).len() + concat_all(b).len(),
    decreases ws.len(),
{
    if ws.len() == 0 {
    } else if a.len() > 0 && ws[0] == a[0] && is_interleaving(ws.drop_first(), a.drop_first(), b) {
        lemma_interleaving_total(ws.drop_first(), a.drop_first(), b);
        assert(concat_all(a) == a[0] + concat_all(a.drop_first()));
        assert(concat_all(ws) == ws[0] + concat_all(ws.drop_first()));
    } else {
        lemma_interleaving_total(ws.drop_first(), a, b.drop_first());
        assert(concat_all(b) == b[0] + concat_all(b.drop_first()));
        assert(concat_all(ws) == ws[0] + concat_all(ws.drop_first()));
    }
}

/// Two writers whose messages are serialized one at a time, in any
/// interleaved order: as long as their combined length stays within
/// the ring, the ring holds the interleaving's messages whole and in
/// the serialized order -- no writer's bytes split another's message
/// -- and the final offset is the sum of both writers' lengths.
pub proof fn lemma_interleaved_writes(p: Seq<u8>, ws: Seq<Seq<u8>>, a: Seq<Seq<u8>>, b: Seq<Seq<u8>>)
    requires
        1 <= p.len(),
        is_interleaving(ws, a, b),
        concat_all(a).len() + concat_all(b).len() <= p.len(),
    ensures
        ring_payload_after(p, 0, ws).subrange(0, concat_all(ws).len() as int) == concat_all(ws),
        ring_offset_after(0, p.len() as int, ws) == concat_all(a).len() + concat_all(b).len(),
{
    lemma_interleaving_total(ws, a, b);
    lemma_writes_from_start(p, ws);
}

} // verus!
