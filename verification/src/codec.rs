//! The frame codec: a stateless encoder/decoder pair over one length-prefix
//! convention. The decoder consumes an accumulation buffer frame by frame;
//! the encoder appends a prefix and a payload to an outbound buffer.

use vstd::prelude::*;

use crate::bytebuf::{
    buf_advance, buf_as_slice, buf_extend, buf_len, buf_put_u16_le, buf_reserve, buf_split_to,
    bytes_view,
};
use crate::frames::{frame_bytes, frame_complete, frame_payload, frame_rest, prefix_value};

verus! {

/// Decoding failed: the buffered length prefix announces a payload larger
/// than the codec's configured maximum frame size. The stream cannot be
/// resynchronised after this.
#[derive(Clone, Copy, Debug, PartialEq, Eq, Structural)]
pub enum DecodeError {
    MalformedLength,
}

/// Encoding failed: the payload is longer than the 2-byte length prefix can
/// represent.
#[derive(Clone, Copy, Debug, PartialEq, Eq, Structural)]
pub enum EncodeError {
    PayloadTooLarge,
}

/// The framing codec. It keeps no buffered state of its own — the caller
/// owns the accumulation buffer — only the largest payload length its
/// decoder accepts from a peer.
#[derive(Clone, Copy, Debug, PartialEq, Eq, Structural)]
pub struct LengthCodec {
    pub max_payload: u16,
}

impl LengthCodec {
    /// A codec that accepts every payload length the prefix can represent.
    pub fn new() -> (c: Self)
        ensures
            c.max_payload == 0xFFFFu16,
    {
        LengthCodec { max_payload: 0xFFFF }
    }

    /// A codec that rejects, with [`DecodeError::MalformedLength`], any
    /// frame whose prefix announces more than `max_payload` bytes — a guard
    /// against a corrupt or adversarial peer forcing unbounded buffering.
    pub fn with_max_payload(max_payload: u16) -> (c: Self)
        ensures
            c.max_payload == max_payload,
    {
        LengthCodec { max_payload }
    }

    /// Decode one frame from the front of `buf`, if a whole one has arrived.
    ///
    /// Returns `Ok(None)` and leaves every byte in place while the buffer
    /// holds less than a full prefix, or less than the payload the prefix
    /// announces; returns `Err(MalformedLength)`, again consuming nothing,
    /// when the announced length exceeds the configured maximum; and
    /// otherwise detaches the prefix and the payload, returning the payload
    /// and leaving exactly the bytes behind it in the buffer.
    pub fn decode(&self, buf: &mut bytes::BytesMut) -> (r: Result<
        Option<bytes::BytesMut>,
        DecodeError,
    >)
        ensures
            ({
                let s = bytes_view(*old(buf));
                &&& s.len() < 2 ==> (r matches Ok(None) && bytes_view(*final(buf)) == s)
                &&& s.len() >= 2 && prefix_value(s) > self.max_payload ==> (r matches Err(e)
                    && e == DecodeError::MalformedLength && bytes_view(*final(buf)) == s)
                &&& s.len() >= 2 && prefix_value(s) <= self.max_payload && !frame_complete(s)
                    ==> (r matches Ok(None) && bytes_view(*final(buf)) == s)
                &&& s.len() >= 2 && prefix_value(s) <= self.max_payload && frame_complete(s)
                    ==> (r matches Ok(Some(p)) && bytes_view(p) == frame_payload(s) && bytes_view(
                    *final(buf),
                ) == frame_rest(s))
            }),
            r matches Ok(None) ==> bytes_view(*final(buf)) == bytes_view(*old(buf)),
    {
        let total: usize = buf_len(buf);
        if total < 2 {
            return Ok(None);
        }
        let s: &[u8] = buf_as_slice(buf);
        let lo: u8 = s[0];
        let hi: u8 = s[1];
        let payload_len: usize = lo as usize + 256 * hi as usize;
        if payload_len > self.max_payload as usize {
            return Err(DecodeError::MalformedLength);
        }
        if total < payload_len + 2 {
            return Ok(None);
        }
        let ghost s0: Seq<u8> = bytes_view(*buf);
        buf_advance(buf, 2);
        let payload = buf_split_to(buf, payload_len);
        proof {
            assert(bytes_view(payload) =~= frame_payload(s0));
            assert(bytes_view(*buf) =~= frame_rest(s0));
        }
        Ok(Some(payload))
    }

    /// Encode `payload` as one frame appended to `out`: first the 2-byte
    /// little-endian length, then the payload's bytes, never touching what
    /// `out` already held. Fails with [`EncodeError::PayloadTooLarge`],
    /// appending nothing, when the length does not fit the prefix.
    ///
    /// The bound in `requires` only keeps the grown buffer's length
    /// representable in `usize`.
    pub fn encode(&self, payload: &[u8], out: &mut bytes::BytesMut) -> (r: Result<
        (),
        EncodeError,
    >)
        requires
            bytes_view(*old(out)).len() + payload@.len() + 2 <= usize::MAX,
        ensures
            payload@.len() > 0xFFFF ==> (r matches Err(e) && e == EncodeError::PayloadTooLarge
                && bytes_view(*final(out)) == bytes_view(*old(out))),
            payload@.len() <= 0xFFFF ==> (r is Ok && bytes_view(*final(out)) == bytes_view(
                *old(out),
            ) + frame_bytes(payload@)),
    {
        let len: usize = payload.len();
        if len > 0xFFFF {
            return Err(EncodeError::PayloadTooLarge);
        }
        let ghost s0: Seq<u8> = bytes_view(*out);
        buf_reserve(out, len + 2);
        buf_put_u16_le(out, len as u16);
        buf_extend(out, payload);
        proof {
            assert(bytes_view(*out) =~= s0 + frame_bytes(payload@));
        }
        Ok(())
    }
}

} // verus!
