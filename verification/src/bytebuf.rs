//! Trusted view of `bytes::BytesMut`, the accumulation buffer the codec
//! reads from and writes into. Each wrapper makes one call into the `bytes`
//! crate; its contract states, over [`bytes_view`], what that crate's source
//! shows of the call.

use vstd::prelude::*;

verus! {

#[verifier::external_type_specification]
#[verifier::external_body]
pub struct ExBytesMut(bytes::BytesMut);

/// The bytes a buffer currently holds, front to back.
pub uninterp spec fn bytes_view(b: bytes::BytesMut) -> Seq<u8>;

/// Relies on `BytesMut::len`: the number of bytes the buffer holds.
#[verifier::external_body]
pub(crate) fn buf_len(b: &bytes::BytesMut) -> (n: usize)
    ensures
        n == bytes_view(*b).len(),
{
    b.len()
}

/// Relies on `BytesMut`'s `Deref` to `[u8]`: a read-only view of every
/// buffered byte, front to back.
#[verifier::external_body]
pub(crate) fn buf_as_slice(b: &bytes::BytesMut) -> (s: &[u8])
    ensures
        s@ == bytes_view(*b),
{
    b
}

/// Relies on `bytes::Buf::advance` for `BytesMut`: discards the first `cnt`
/// buffered bytes and keeps the rest. Panics past the end, so `cnt` is
/// bounded here.
#[verifier::external_body]
pub(crate) fn buf_advance(b: &mut bytes::BytesMut, cnt: usize)
    requires
        cnt <= bytes_view(*old(b)).len(),
    ensures
        bytes_view(*final(b)) == bytes_view(*old(b)).skip(cnt as int),
{
    bytes::Buf::advance(b, cnt);
}

/// Relies on `BytesMut::split_to`: detaches the first `at` buffered bytes as
/// an independently owned buffer, leaving the rest behind, without copying.
/// Panics past the end, so `at` is bounded here.
#[verifier::external_body]
pub(crate) fn buf_split_to(b: &mut bytes::BytesMut, at: usize) -> (r: bytes::BytesMut)
    requires
        at <= bytes_view(*old(b)).len(),
    ensures
        bytes_view(r) == bytes_view(*old(b)).take(at as int),
        bytes_view(*final(b)) == bytes_view(*old(b)).skip(at as int),
{
    b.split_to(at)
}

/// Relies on `BytesMut::reserve`: grows the capacity only; the contents
/// stay as they were. Panics when the new capacity overflows `usize`, so the
/// sum is bounded here.
#[verifier::external_body]
pub(crate) fn buf_reserve(b: &mut bytes::BytesMut, additional: usize)
    requires
        bytes_view(*old(b)).len() + additional <= usize::MAX,
    ensures
        bytes_view(*final(b)) == bytes_view(*old(b)),
{
    b.reserve(additional);
}

/// Relies on `bytes::BufMut::put_u16_le` for `BytesMut`: appends the two
/// bytes of `n`, least significant first. Growth can overflow the capacity,
/// so the sum is bounded here.
#[verifier::external_body]
pub(crate) fn buf_put_u16_le(b: &mut bytes::BytesMut, n: u16)
    requires
        bytes_view(*old(b)).len() + 2 <= usize::MAX,
    ensures
        bytes_view(*final(b)) == bytes_view(*old(b)) + seq![(n % 256) as u8, (n / 256) as u8],
{
    bytes::BufMut::put_u16_le(b, n);
}

/// Relies on `BytesMut::extend_from_slice`: appends the slice's bytes at the
/// back. Growth can overflow the capacity, so the sum is bounded here.
#[verifier::external_body]
pub(crate) fn buf_extend(b: &mut bytes::BytesMut, s: &[u8])
    requires
        bytes_view(*old(b)).len() + s@.len() <= usize::MAX,
    ensures
        bytes_view(*final(b)) == bytes_view(*old(b)) + s@,
{
    b.extend_from_slice(s);
}

} // verus!
