//! The wire format, as mathematics: what a frame's bytes look like, what the
//! first buffered frame's payload is, and when a buffer holds a whole frame.

use vstd::prelude::*;

verus! {

/// Low-order byte of a payload length, as it stands on the wire.
pub open spec fn lo_byte(n: nat) -> u8 {
    (n % 256) as u8
}

/// High-order byte of a payload length, as it stands on the wire.
pub open spec fn hi_byte(n: nat) -> u8 {
    ((n / 256) % 256) as u8
}

/// The 2-byte little-endian length prefix announcing a payload of `n` bytes.
pub open spec fn prefix_bytes(n: nat) -> Seq<u8> {
    seq![lo_byte(n), hi_byte(n)]
}

/// A complete frame on the wire: the length prefix, then the payload.
pub open spec fn frame_bytes(p: Seq<u8>) -> Seq<u8> {
    prefix_bytes(p.len()) + p
}

/// The payload length announced by the first two buffered bytes.
pub open spec fn prefix_value(s: Seq<u8>) -> nat
    recommends
        s.len() >= 2,
{
    (s[0] + 256 * s[1]) as nat
}

/// Whether the buffer starts with a whole frame: a full prefix and at least
/// as many further bytes as the prefix announces.
pub open spec fn frame_complete(s: Seq<u8>) -> bool {
    s.len() >= 2 && s.len() >= prefix_value(s) + 2
}

/// The payload of the first buffered frame.
pub open spec fn frame_payload(s: Seq<u8>) -> Seq<u8>
    recommends
        frame_complete(s),
{
    s.subrange(2, 2 + prefix_value(s) as int)
}

/// What stays in the buffer once the first frame is consumed.
pub open spec fn frame_rest(s: Seq<u8>) -> Seq<u8>
    recommends
        frame_complete(s),
{
    s.skip(2 + prefix_value(s) as int)
}

/// The concatenation of the frames of a sequence of payloads, in order.
pub open spec fn frames_concat(ps: Seq<Seq<u8>>) -> Seq<u8>
    decreases ps.len(),
{
    if ps.len() == 0 {
        Seq::empty()
    } else {
        frame_bytes(ps[0]) + frames_concat(ps.skip(1))
    }
}

/// The prefix of a frame announces exactly the payload's length, as long as
/// that length is representable in two bytes.
pub proof fn lemma_prefix_round_trip(n: nat)
    requires
        n <= 0xFFFF,
    ensures
        lo_byte(n) + 256 * hi_byte(n) == n,
{
    assert(n % 256 + 256 * ((n / 256) % 256) == n) by (nonlinear_arith)
        requires
            n <= 0xFFFF,
    ;
}

/// A frame at the front of a buffer decodes to its own payload and leaves
/// exactly the bytes behind it: whatever else has accumulated after one
/// encoded frame, the first decode yields that frame's payload and keeps the
/// rest untouched for later calls.
pub proof fn lemma_frame_then_rest(p: Seq<u8>, t: Seq<u8>)
    requires
        p.len() <= 0xFFFF,
    ensures
        ({
            let s = frame_bytes(p) + t;
            &&& s.len() == p.len() + 2 + t.len()
            &&& prefix_value(s) == p.len()
            &&& frame_complete(s)
            &&& frame_payload(s) == p
            &&& frame_rest(s) == t
        }),
{
    let s = frame_bytes(p) + t;
    lemma_prefix_round_trip(p.len());
    assert(s[0] == lo_byte(p.len()));
    assert(s[1] == hi_byte(p.len()));
    assert(frame_payload(s) =~= p);
    assert(frame_rest(s) =~= t);
}

/// Round trip: a whole encoded frame, alone in the buffer, decodes back to
/// the payload it was made from, with nothing left over — for every payload
/// the 2-byte prefix can describe.
pub proof fn lemma_round_trip(p: Seq<u8>)
    requires
        p.len() <= 0xFFFF,
    ensures
        frame_complete(frame_bytes(p)),
        prefix_value(frame_bytes(p)) == p.len(),
        frame_payload(frame_bytes(p)) == p,
        frame_rest(frame_bytes(p)) == Seq::<u8>::empty(),
{
    lemma_frame_then_rest(p, Seq::empty());
    assert(frame_bytes(p) + Seq::<u8>::empty() =~= frame_bytes(p));
}

/// Partial delivery: however an encoded frame is cut into chunks, no strict
/// prefix of its bytes forms a complete frame, and any prefix long enough to
/// hold the length field already announces the true payload length. So a
/// decoder fed the chunks one at a time reports "no frame yet" — consuming
/// nothing and raising no error while the payload length is within bounds —
/// until the last chunk arrives, and only then yields the payload.
pub proof fn lemma_partial_delivery(p: Seq<u8>, k: int)
    requires
        p.len() <= 0xFFFF,
        0 <= k < frame_bytes(p).len(),
    ensures
        !frame_complete(frame_bytes(p).take(k)),
        k >= 2 ==> prefix_value(frame_bytes(p).take(k)) == p.len(),
{
    let s = frame_bytes(p).take(k);
    if k >= 2 {
        lemma_prefix_round_trip(p.len());
        assert(s[0] == lo_byte(p.len()));
        assert(s[1] == hi_byte(p.len()));
    }
}

/// Multi-frame batching: when the buffer holds the concatenation of several
/// encoded frames, it starts with a complete frame, decoding yields the
/// first payload, and what stays behind is exactly the concatenation of the
/// remaining frames — so repeated decode calls, with no further input, hand
/// back all the payloads in their original order and then find an empty
/// buffer.
pub proof fn lemma_multi_frame(ps: Seq<Seq<u8>>)
    requires
        ps.len() > 0,
        ps[0].len() <= 0xFFFF,
    ensures
        frame_complete(frames_concat(ps)),
        prefix_value(frames_concat(ps)) == ps[0].len(),
        frame_payload(frames_concat(ps)) == ps[0],
        frame_rest(frames_concat(ps)) == frames_concat(ps.skip(1)),
{
    lemma_frame_then_rest(ps[0], frames_concat(ps.skip(1)));
}

} // verus!
