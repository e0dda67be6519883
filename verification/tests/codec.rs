//! Payload, checksum, and frame construction behaviour.

use crsf::crc8::Crc8;
use crsf::payload::device_info;
use crsf::payload::parameter_read;
use crsf::payload::rc_channels_packed::{raw_decode, raw_encode};
use crsf::{
    AnyPayload, CrsfError, DeviceInfo, ExtendedPayload, LinkStatistics, PacketAddress,
    ParameterRead, Payload, RcChannelsPacked,
};

#[test]
fn rc_channels_packed_encode_decode() {
    let original = RcChannelsPacked([
        983, 992, 174, 992, 191, 191, 191, 191, 997, 997, 997, 997, 0, 0, 1811, 1811,
    ]);

    let raw = original.to_raw_packet().unwrap();

    let data = raw.payload().unwrap();

    let parsed = RcChannelsPacked::decode(&data).unwrap();

    assert_eq!(parsed, original);
}

#[test]
fn crc8_golden_reference() {
    // The classic check input pins the polynomial and bit order.
    let mut crc = Crc8::new();
    crc.compute(b"123456789");
    assert_eq!(crc.get_checksum(), 0xBC);

    // A type byte followed by an all-zero channel payload.
    let mut frame_crc = Crc8::new();
    let mut covered = vec![0x16u8];
    covered.extend_from_slice(&[0u8; 22]);
    frame_crc.compute(covered.as_slice());
    assert_eq!(frame_crc.get_checksum(), 0xEF);
}

#[test]
fn crc8_accumulates_across_calls() {
    let mut crc = Crc8::new();
    crc.compute(b"1234");
    crc.compute(b"56789");
    assert_eq!(crc.get_checksum(), 0xBC);

    crc.reset();
    crc.compute(b"123456789");
    assert_eq!(crc.get_checksum(), 0xBC);
}

#[test]
fn rc_channels_boundary_values() {
    let original = RcChannelsPacked([
        0, 2047, 0, 2047, 0, 2047, 0, 2047, 2047, 0, 2047, 0, 2047, 0, 2047, 0,
    ]);
    let mut data = [0u8; 22];
    raw_encode(&original, &mut data);
    let parsed = raw_decode(&data);
    assert_eq!(parsed, original);
}

#[test]
fn rc_channels_exact_packing() {
    // All zeros pack to all zero bytes.
    let mut data = [0u8; 22];
    raw_encode(&RcChannelsPacked([0u16; 16]), &mut data);
    assert_eq!(data, [0u8; 22]);

    // A lone maximal first channel fills exactly its eleven bits.
    let mut one = [0u8; 22];
    raw_encode(
        &RcChannelsPacked([2047, 0, 0, 0, 0, 0, 0, 0, 0, 0, 0, 0, 0, 0, 0, 0]),
        &mut one,
    );
    assert_eq!(one[0], 0xFF);
    assert_eq!(one[1], 0x07);
    for i in 2..22 {
        assert_eq!(one[i], 0);
    }
}

#[test]
fn rc_channels_decode_masks_to_eleven_bits() {
    let data = [0xFFu8; 22];
    let parsed = raw_decode(&data);
    for i in 0..16 {
        assert_eq!(parsed.0[i], 2047);
    }
}

#[test]
fn link_statistics_round_trip() {
    let original = LinkStatistics {
        uplink_rssi_1: 120,
        uplink_rssi_2: 105,
        uplink_link_quality: 98,
        uplink_snr: 0xF8,
        active_antenna: 1,
        rf_mode: 2,
        uplink_tx_power: 3,
        downlink_rssi: 88,
        downlink_link_quality: 100,
        downlink_snr: 4,
    };
    let mut buf = vec![0u8; 10];
    original.encode(&mut buf).unwrap();
    let parsed = LinkStatistics::decode(buf.as_slice()).unwrap();
    assert_eq!(parsed, original);
}

#[test]
fn parameter_read_round_trip() {
    let original = ParameterRead { field: 7, chunk: 1 };
    let mut data = [0u8; 2];
    parameter_read::raw_encode(&original, &mut data);
    assert_eq!(data, [7, 1]);
    let parsed = parameter_read::raw_decode(&data);
    assert_eq!(parsed, original);
}

#[test]
fn device_info_round_trip() {
    let original = DeviceInfo {
        display_name: vec![b'R', b'X', b'-', b'1'],
        serial_number: 0x01020304,
        hardware_version: 0xAABBCCDD,
        software_version: 0x00010203,
        parameter_count: 9,
        parameter_protocol_version: 1,
    };
    let mut buf = vec![0u8; 58];
    original.encode(&mut buf).unwrap();
    let parsed = DeviceInfo::decode(buf.as_slice()).unwrap();
    assert_eq!(parsed, original);
}

#[test]
fn device_info_decode_reads_all_fields() {
    let mut data = [0u8; 58];
    data[0] = b'A';
    data[1] = b'B';
    // data[2] stays zero: the name ends there.
    data[44] = 0x12;
    data[45] = 0x34;
    data[46] = 0x56;
    data[47] = 0x78;
    data[48] = 0x00;
    data[49] = 0x00;
    data[50] = 0x01;
    data[51] = 0x00;
    data[52] = 0x00;
    data[53] = 0x02;
    data[54] = 0x00;
    data[55] = 0x03;
    data[56] = 5;
    data[57] = 2;
    let parsed = device_info::raw_decode(&data);
    assert_eq!(parsed.display_name, vec![b'A', b'B']);
    assert_eq!(parsed.serial_number, 0x12345678);
    assert_eq!(parsed.hardware_version, 0x00000100);
    assert_eq!(parsed.software_version, 0x00020003);
    assert_eq!(parsed.parameter_count, 5);
    assert_eq!(parsed.parameter_protocol_version, 2);
}

#[test]
fn decode_short_buffer_is_rejected() {
    assert_eq!(
        RcChannelsPacked::decode(&[0u8; 5]),
        Err(CrsfError::BufferTooSmall)
    );
    assert_eq!(
        LinkStatistics::decode(&[0u8; 9]),
        Err(CrsfError::BufferTooSmall)
    );
    assert_eq!(
        ParameterRead::decode(&[0u8; 1]),
        Err(CrsfError::BufferTooSmall)
    );
    assert_eq!(
        DeviceInfo::decode(&[0u8; 57]),
        Err(CrsfError::BufferTooSmall)
    );
}

#[test]
fn extended_frame_layout_golden() {
    let p = ParameterRead { field: 1, chunk: 0 };
    let raw = p
        .to_raw_packet(PacketAddress::FlightController, PacketAddress::Handset)
        .unwrap();
    assert_eq!(
        raw.as_slice(),
        &[0xC8, 0x06, 0x2C, 0xC8, 0xEA, 0x01, 0x00, 0x44]
    );
}

#[test]
fn substituted_sync_byte_leaves_checksum_unchanged() {
    let p = ParameterRead { field: 1, chunk: 0 };
    let raw = p
        .to_raw_packet_with_sync(0xEE, PacketAddress::FlightController, PacketAddress::Handset)
        .unwrap();
    assert_eq!(
        raw.as_slice(),
        &[0xEE, 0x06, 0x2C, 0xC8, 0xEA, 0x01, 0x00, 0x44]
    );
}

#[test]
fn simple_frame_layout_golden() {
    let p = RcChannelsPacked([0u16; 16]);
    let raw = p.to_raw_packet().unwrap();
    let mut expected = vec![0xC8u8, 24, 0x16];
    expected.extend_from_slice(&[0u8; 22]);
    expected.push(0xEF);
    assert_eq!(raw.as_slice(), expected.as_slice());
    assert_eq!(raw.len(), 26);
}

#[test]
fn raw_packet_payload_extraction() {
    let p = ParameterRead { field: 3, chunk: 4 };
    let raw = p
        .to_raw_packet(PacketAddress::Broadcast, PacketAddress::Usb)
        .unwrap();
    assert_eq!(raw.payload().unwrap(), &[3, 4]);
}

#[test]
fn rc_channels_out_of_range_spills_into_neighbour() {
    // Only 11 bits per channel exist on the wire: bit 11 of the first
    // channel lands in the bit positions of the second.
    let mut data = [0u8; 22];
    raw_encode(
        &RcChannelsPacked([2053, 0, 0, 0, 0, 0, 0, 0, 0, 0, 0, 0, 0, 0, 0, 0]),
        &mut data,
    );
    let parsed = raw_decode(&data);
    assert_eq!(parsed.0[0], 5);
    assert_eq!(parsed.0[1], 1);
}
