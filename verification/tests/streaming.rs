//! Streaming parser behaviour: resynchronization, partial delivery,
//! draining, capacity, and end-to-end decoding.

use crsf::crc8::Crc8;
use crsf::{CrsfError, Packet, PacketReader, Payload, RcChannelsPacked};

fn rc_frame(values: [u16; 16]) -> Vec<u8> {
    let raw = RcChannelsPacked(values).to_raw_packet().unwrap();
    raw.as_slice().to_vec()
}

#[test]
fn end_to_end_rc_channels() {
    let values = [
        983, 992, 174, 992, 191, 191, 191, 191, 997, 997, 997, 997, 0, 0, 1811, 1811,
    ];
    let frame = rc_frame(values);
    let mut reader = PacketReader::new();
    reader.push(frame.as_slice()).unwrap();
    match reader.next() {
        Some(Ok(Packet::RcChannelsPacked(p))) => assert_eq!(p.0, values),
        _ => panic!("expected the decoded channels"),
    }
    assert!(reader.next().is_none());
}

#[test]
fn partial_delivery_any_split() {
    let values = [
        100, 200, 300, 400, 500, 600, 700, 800, 900, 1000, 1100, 1200, 1300, 1400, 1500, 1600,
    ];
    let frame = rc_frame(values);
    for split in 1..frame.len() {
        let mut reader = PacketReader::new();
        reader.push(&frame[..split]).unwrap();
        assert!(reader.next().is_none());
        reader.push(&frame[split..]).unwrap();
        match reader.next() {
            Some(Ok(Packet::RcChannelsPacked(p))) => assert_eq!(p.0, values),
            _ => panic!("expected the decoded channels"),
        }
        assert!(reader.next().is_none());
    }
}

#[test]
fn partial_delivery_three_chunks() {
    let values = [0u16; 16];
    let frame = rc_frame(values);
    let mut reader = PacketReader::new();
    reader.push(&frame[..2]).unwrap();
    assert!(reader.next().is_none());
    reader.push(&frame[2..10]).unwrap();
    assert!(reader.next().is_none());
    reader.push(&frame[10..]).unwrap();
    assert!(matches!(
        reader.next(),
        Some(Ok(Packet::RcChannelsPacked(_)))
    ));
    assert!(reader.next().is_none());
}

#[test]
fn resynchronization_after_bad_length() {
    let values = [5u16; 16];
    let frame = rc_frame(values);
    // One garbage byte, a sync byte, an impossible length, then the frame.
    let mut stream = vec![0x00u8, 0xC8, 0xFF];
    stream.extend_from_slice(frame.as_slice());
    let mut reader = PacketReader::new();
    reader.push(stream.as_slice()).unwrap();
    assert!(matches!(reader.next(), Some(Err(CrsfError::InvalidLength))));
    match reader.next() {
        Some(Ok(Packet::RcChannelsPacked(p))) => assert_eq!(p.0, values),
        _ => panic!("expected the one valid frame"),
    }
    assert!(reader.next().is_none());
}

#[test]
fn corrupting_any_covered_byte_fails_checksum() {
    let values = [
        1000, 1, 2047, 0, 512, 256, 128, 64, 32, 16, 8, 4, 2, 1, 1024, 2000,
    ];
    let frame = rc_frame(values);
    for i in 2..frame.len() - 1 {
        let mut corrupted = frame.clone();
        corrupted[i] ^= 0x5A;
        let mut reader = PacketReader::new();
        reader.push(corrupted.as_slice()).unwrap();
        match reader.next() {
            Some(Err(CrsfError::ChecksumMismatch)) => {}
            _ => panic!("expected a checksum mismatch at byte {}", i),
        }
    }
}

#[test]
fn idempotent_draining() {
    let mut reader = PacketReader::new();
    for _ in 0..5 {
        assert!(reader.next().is_none());
    }
    let frame = rc_frame([7u16; 16]);
    reader.push(frame.as_slice()).unwrap();
    assert!(matches!(
        reader.next(),
        Some(Ok(Packet::RcChannelsPacked(_)))
    ));
    for _ in 0..5 {
        assert!(reader.next().is_none());
    }
}

#[test]
fn capacity_overflow_is_signalled() {
    let mut reader = PacketReader::new();
    // A torn frame start followed by more bytes than the buffer holds.
    let mut stream = vec![0xC8u8, 62];
    stream.extend_from_slice(&[1u8; 100]);
    assert_eq!(reader.push(stream.as_slice()), Err(CrsfError::BufferOverflow));

    let mut small = PacketReader::new();
    assert_eq!(small.push(&[0u8; 64]), Ok(()));
    assert_eq!(small.push(&[0u8; 1]), Err(CrsfError::BufferOverflow));
}

#[test]
fn unknown_packet_type_is_distinct() {
    // A checksum-valid frame whose type byte no payload claims.
    let frame = [0xC8u8, 3, 0x7F, 0xAA, 0xCE];
    let mut crc = Crc8::new();
    crc.compute(&frame[2..4]);
    assert_eq!(crc.get_checksum(), 0xCE);
    let mut reader = PacketReader::new();
    reader.push(&frame).unwrap();
    match reader.next() {
        Some(Err(CrsfError::UnknownPacketType)) => {}
        _ => panic!("expected an unknown packet type error"),
    }
    assert!(reader.next().is_none());
}

#[test]
fn malformed_payload_length_is_distinct() {
    // A checksum-valid frame of a known type whose declared length does
    // not fit that type's payload.
    let frame = [0xC8u8, 3, 0x2C, 0x55, 0x25];
    let mut reader = PacketReader::new();
    reader.push(&frame).unwrap();
    match reader.next() {
        Some(Err(CrsfError::MalformedPayload)) => {}
        _ => panic!("expected a malformed payload error"),
    }
    assert!(reader.next().is_none());
}

#[test]
fn frames_come_out_in_order() {
    let first = rc_frame([10u16; 16]);
    let second = rc_frame([20u16; 16]);
    let mut reader = PacketReader::new();
    let mut stream = first.clone();
    stream.extend_from_slice(second.as_slice());
    reader.push(stream.as_slice()).unwrap();
    match reader.next() {
        Some(Ok(Packet::RcChannelsPacked(p))) => assert_eq!(p.0, [10u16; 16]),
        _ => panic!("expected the first frame"),
    }
    match reader.next() {
        Some(Ok(Packet::RcChannelsPacked(p))) => assert_eq!(p.0, [20u16; 16]),
        _ => panic!("expected the second frame"),
    }
    assert!(reader.next().is_none());
}

#[test]
fn recovery_after_corruption() {
    // These channel values put no spurious sync byte inside the frame.
    let good = rc_frame([42u16; 16]);
    let mut corrupted = good.clone();
    corrupted[5] ^= 0xFF;
    let mut stream = corrupted;
    stream.extend_from_slice(good.as_slice());
    let mut reader = PacketReader::new();
    reader.push(stream.as_slice()).unwrap();
    assert!(matches!(reader.next(), Some(Err(CrsfError::ChecksumMismatch))));
    // The rest of the corrupted candidate drains away as noise, and the
    // following frame parses.
    match reader.next() {
        Some(Ok(Packet::RcChannelsPacked(p))) => assert_eq!(p.0, [42u16; 16]),
        _ => panic!("expected the good frame after recovery"),
    }
    assert!(reader.next().is_none());
}
