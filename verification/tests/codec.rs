use bytes::BytesMut;

use length_codec::codec::{DecodeError, EncodeError, LengthCodec};

fn encode_to_vec(payload: &[u8]) -> Vec<u8> {
    let codec = LengthCodec::new();
    let mut out = BytesMut::new();
    codec.encode(payload, &mut out).unwrap();
    out.to_vec()
}

#[test]
fn concrete_scenario_encode() {
    assert_eq!(encode_to_vec(&[0x41, 0x42, 0x43]), vec![0x03, 0x00, 0x41, 0x42, 0x43]);
}

#[test]
fn concrete_scenario_chunked_decode() {
    let codec = LengthCodec::new();
    let mut buf = BytesMut::new();
    buf.extend_from_slice(&[0x03, 0x00]);
    assert_eq!(codec.decode(&mut buf).unwrap(), None);
    buf.extend_from_slice(&[0x41, 0x42]);
    assert_eq!(codec.decode(&mut buf).unwrap(), None);
    buf.extend_from_slice(&[0x43]);
    let payload = codec.decode(&mut buf).unwrap().unwrap();
    assert_eq!(&payload[..], &[0x41, 0x42, 0x43]);
    assert_eq!(buf.len(), 0);
}

#[test]
fn round_trip_various_lengths() {
    let codec = LengthCodec::new();
    for len in [0usize, 1, 2, 3, 127, 255, 256, 300, 1024, 65535] {
        let payload: Vec<u8> = (0..len).map(|i| (i % 251) as u8).collect();
        let mut buf = BytesMut::new();
        codec.encode(&payload, &mut buf).unwrap();
        assert_eq!(buf.len(), len + 2);
        let decoded = codec.decode(&mut buf).unwrap().unwrap();
        assert_eq!(&decoded[..], &payload[..]);
        assert_eq!(buf.len(), 0);
    }
}

#[test]
fn zero_length_payload() {
    let codec = LengthCodec::new();
    let mut buf = BytesMut::new();
    codec.encode(&[], &mut buf).unwrap();
    assert_eq!(&buf[..], &[0x00, 0x00]);
    let decoded = codec.decode(&mut buf).unwrap();
    assert_eq!(decoded.as_deref(), Some(&[][..]));
    assert_eq!(buf.len(), 0);
}

#[test]
fn partial_delivery_byte_by_byte() {
    let codec = LengthCodec::new();
    let frame = encode_to_vec(&[0x10, 0x20, 0x30, 0x40]);
    let mut buf = BytesMut::new();
    let mut results = Vec::new();
    for (i, byte) in frame.iter().enumerate() {
        buf.extend_from_slice(&[*byte]);
        match codec.decode(&mut buf).unwrap() {
            Some(payload) => results.push((i, payload)),
            None => assert_eq!(buf.len(), i + 1),
        }
    }
    assert_eq!(results.len(), 1);
    let (when, payload) = &results[0];
    assert_eq!(*when, frame.len() - 1);
    assert_eq!(&payload[..], &[0x10, 0x20, 0x30, 0x40]);
    assert_eq!(buf.len(), 0);
}

#[test]
fn multi_frame_batching() {
    let codec = LengthCodec::new();
    let payloads: [&[u8]; 3] = [b"first", b"", b"third message"];
    let mut buf = BytesMut::new();
    for p in payloads {
        codec.encode(p, &mut buf).unwrap();
    }
    for p in payloads {
        let decoded = codec.decode(&mut buf).unwrap().unwrap();
        assert_eq!(&decoded[..], p);
    }
    assert_eq!(codec.decode(&mut buf).unwrap(), None);
    assert_eq!(buf.len(), 0);
}

#[test]
fn no_over_consumption() {
    let codec = LengthCodec::new();
    for partial in [&[][..], &[0x05][..], &[0x05, 0x00][..], &[0x05, 0x00, 0x01, 0x02][..]] {
        let mut buf = BytesMut::new();
        buf.extend_from_slice(partial);
        assert_eq!(codec.decode(&mut buf).unwrap(), None);
        assert_eq!(&buf[..], partial);
    }
}

#[test]
fn decode_leaves_trailing_bytes() {
    let codec = LengthCodec::new();
    let mut buf = BytesMut::new();
    buf.extend_from_slice(&[0x01, 0x00, 0xAA, 0x05, 0x00, 0xBB]);
    let decoded = codec.decode(&mut buf).unwrap().unwrap();
    assert_eq!(&decoded[..], &[0xAA]);
    assert_eq!(&buf[..], &[0x05, 0x00, 0xBB]);
}

#[test]
fn prefix_is_little_endian() {
    let payload = vec![0x7Fu8; 300];
    let encoded = encode_to_vec(&payload);
    assert_eq!(encoded[0], 0x2C);
    assert_eq!(encoded[1], 0x01);
    assert_eq!(encoded.len(), 302);
}

#[test]
fn malformed_length_rejected() {
    let codec = LengthCodec::with_max_payload(4);
    let mut buf = BytesMut::new();
    buf.extend_from_slice(&[0x05, 0x00, 0x01]);
    assert_eq!(codec.decode(&mut buf), Err(DecodeError::MalformedLength));
    assert_eq!(&buf[..], &[0x05, 0x00, 0x01]);
}

#[test]
fn max_payload_boundary_accepted() {
    let codec = LengthCodec::with_max_payload(4);
    let mut buf = BytesMut::new();
    codec.encode(&[1, 2, 3, 4], &mut buf).unwrap();
    let decoded = codec.decode(&mut buf).unwrap().unwrap();
    assert_eq!(&decoded[..], &[1, 2, 3, 4]);
}

#[test]
fn payload_too_large_rejected() {
    let codec = LengthCodec::new();
    let payload = vec![0u8; 65536];
    let mut out = BytesMut::new();
    out.extend_from_slice(&[0xEE]);
    assert_eq!(codec.encode(&payload, &mut out), Err(EncodeError::PayloadTooLarge));
    assert_eq!(&out[..], &[0xEE]);
}

#[test]
fn encode_appends_without_overwriting() {
    let codec = LengthCodec::new();
    let mut out = BytesMut::new();
    out.extend_from_slice(&[0xDE, 0xAD]);
    codec.encode(&[0x01], &mut out).unwrap();
    assert_eq!(&out[..], &[0xDE, 0xAD, 0x01, 0x00, 0x01]);
}

#[test]
fn largest_representable_payload_round_trips() {
    let codec = LengthCodec::new();
    let payload = vec![0xABu8; 65535];
    let mut buf = BytesMut::new();
    codec.encode(&payload, &mut buf).unwrap();
    assert_eq!(buf[0], 0xFF);
    assert_eq!(buf[1], 0xFF);
    let decoded = codec.decode(&mut buf).unwrap().unwrap();
    assert_eq!(decoded.len(), 65535);
    assert_eq!(&decoded[..], &payload[..]);
    assert_eq!(buf.len(), 0);
}
