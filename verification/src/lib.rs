//! Codec for a compact binary telemetry/control protocol spoken between
//! radio-control receivers, flight controllers, and peripheral devices.
//!
//! The crate provides the wire frame model ([`RawPacket`]), the CRC-8
//! checksum ([`crc8::Crc8`]), the payload capability traits
//! ([`payload::AnyPayload`], [`payload::Payload`], [`payload::ExtendedPayload`])
//! with the payload kinds that implement them, and a bounded streaming
//! parser ([`PacketReader`]) that turns an arbitrary, possibly torn,
//! possibly corrupted byte stream into a sequence of validated frames.

use vstd::prelude::*;

pub mod address;
pub mod crc8;
pub mod error;
pub mod parser;
pub mod payload;
pub mod raw_packet;
pub mod typ;

pub use address::PacketAddress;
pub use error::CrsfError;
pub use parser::{Packet, PacketReader};
pub use payload::{AnyPayload, ExtendedPayload, Payload};
pub use payload::{DeviceInfo, DevicePing, LinkStatistics, ParameterRead, RcChannelsPacked};
pub use raw_packet::RawPacket;
pub use typ::PacketType;

verus! {

/// The marker byte that opens every frame on the wire.
pub const CRSF_SYNC_BYTE: u8 = 0xC8;

/// The largest whole frame the protocol allows, in bytes
/// (sync + length + length-byte's own count).
pub const CRSF_MAX_LEN: usize = 64;

} // verus!
