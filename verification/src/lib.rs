//! A length-prefixed message framing codec.
//!
//! Inbound bytes accumulate in a [`bytes::BytesMut`] buffer; the decoder
//! inspects the buffer for a complete frame (a 2-byte little-endian length
//! prefix followed by that many payload bytes), detaches the payload when one
//! is present, and otherwise leaves the buffer untouched. The encoder appends
//! the prefix and the payload to an outbound buffer.

pub mod bytebuf;
pub mod codec;
pub mod frames;
