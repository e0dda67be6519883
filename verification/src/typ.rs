//! The closed enumeration of one-byte type tags, one per payload kind.

use vstd::prelude::*;

verus! {

/// The type tag carried in the third byte of every frame.
#[derive(Clone, Copy, Debug, PartialEq, Eq, Structural)]
pub enum PacketType {
    /// Link-quality telemetry (simple framing).
    LinkStatistics,
    /// Sixteen densely packed RC channel values (simple framing).
    RcChannelsPacked,
    /// Device discovery ping (extended framing).
    DevicePing,
    /// Device metadata reply (extended framing).
    DeviceInfo,
    /// Parameter read request (extended framing).
    ParameterRead,
}

impl PacketType {
    /// The wire value of each tag.
    pub open spec fn spec_to_u8(self) -> u8 {
        match self {
            PacketType::LinkStatistics => 0x14,
            PacketType::RcChannelsPacked => 0x16,
            PacketType::DevicePing => 0x28,
            PacketType::DeviceInfo => 0x29,
            PacketType::ParameterRead => 0x2C,
        }
    }

    /// The tag a wire value names, if any.
    pub open spec fn spec_from_u8(b: u8) -> Option<PacketType> {
        if b == 0x14 {
            Some(PacketType::LinkStatistics)
        } else if b == 0x16 {
            Some(PacketType::RcChannelsPacked)
        } else if b == 0x28 {
            Some(PacketType::DevicePing)
        } else if b == 0x29 {
            Some(PacketType::DeviceInfo)
        } else if b == 0x2C {
            Some(PacketType::ParameterRead)
        } else {
            None
        }
    }

    /// Whether frames of this type carry the two extended address bytes.
    pub open spec fn spec_is_extended(self) -> bool {
        match self {
            PacketType::LinkStatistics => false,
            PacketType::RcChannelsPacked => false,
            PacketType::DevicePing => true,
            PacketType::DeviceInfo => true,
            PacketType::ParameterRead => true,
        }
    }

    /// The wire value of this tag.
    pub fn to_u8(self) -> (b: u8)
        ensures
            b == self.spec_to_u8(),
    {
        match self {
            PacketType::LinkStatistics => 0x14,
            PacketType::RcChannelsPacked => 0x16,
            PacketType::DevicePing => 0x28,
            PacketType::DeviceInfo => 0x29,
            PacketType::ParameterRead => 0x2C,
        }
    }

    /// The tag a wire value names, if any.
    pub fn from_u8(b: u8) -> (t: Option<PacketType>)
        ensures
            t == PacketType::spec_from_u8(b),
    {
        if b == 0x14 {
            Some(PacketType::LinkStatistics)
        } else if b == 0x16 {
            Some(PacketType::RcChannelsPacked)
        } else if b == 0x28 {
            Some(PacketType::DevicePing)
        } else if b == 0x29 {
            Some(PacketType::DeviceInfo)
        } else if b == 0x2C {
            Some(PacketType::ParameterRead)
        } else {
            None
        }
    }

    /// Whether frames of this type carry the two extended address bytes.
    pub fn is_extended(self) -> (r: bool)
        ensures
            r == self.spec_is_extended(),
    {
        match self {
            PacketType::DevicePing | PacketType::DeviceInfo | PacketType::ParameterRead => true,
            _ => false,
        }
    }
}

/// Round trip between tags and their wire values: decoding an encoded tag
/// gives the tag back.
pub proof fn lemma_packet_type_round_trip(t: PacketType)
    ensures
        PacketType::spec_from_u8(t.spec_to_u8()) == Some(t),
{
}

} // verus!
