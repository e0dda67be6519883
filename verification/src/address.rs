//! The closed enumeration of one-byte device addresses used by the
//! destination and source fields of extended frames.

use vstd::prelude::*;

verus! {

/// A device address, as carried in extended frames.
#[derive(Clone, Copy, Debug, PartialEq, Eq, Structural)]
pub enum PacketAddress {
    Broadcast,
    Usb,
    Bluetooth,
    TbsCorePnpPro,
    CurrentSensor,
    Gps,
    TbsBlackbox,
    FlightController,
    RaceTag,
    Handset,
    Receiver,
    Transmitter,
}

impl PacketAddress {
    /// The wire value of each address.
    pub open spec fn spec_to_u8(self) -> u8 {
        match self {
            PacketAddress::Broadcast => 0x00,
            PacketAddress::Usb => 0x10,
            PacketAddress::Bluetooth => 0x12,
            PacketAddress::TbsCorePnpPro => 0x80,
            PacketAddress::CurrentSensor => 0xC0,
            PacketAddress::Gps => 0xC2,
            PacketAddress::TbsBlackbox => 0xC4,
            PacketAddress::FlightController => 0xC8,
            PacketAddress::RaceTag => 0xCC,
            PacketAddress::Handset => 0xEA,
            PacketAddress::Receiver => 0xEC,
            PacketAddress::Transmitter => 0xEE,
        }
    }

    /// The wire value of this address.
    pub fn to_u8(self) -> (b: u8)
        ensures
            b == self.spec_to_u8(),
    {
        match self {
            PacketAddress::Broadcast => 0x00,
            PacketAddress::Usb => 0x10,
            PacketAddress::Bluetooth => 0x12,
            PacketAddress::TbsCorePnpPro => 0x80,
            PacketAddress::CurrentSensor => 0xC0,
            PacketAddress::Gps => 0xC2,
            PacketAddress::TbsBlackbox => 0xC4,
            PacketAddress::FlightController => 0xC8,
            PacketAddress::RaceTag => 0xCC,
            PacketAddress::Handset => 0xEA,
            PacketAddress::Receiver => 0xEC,
            PacketAddress::Transmitter => 0xEE,
        }
    }
}

} // verus!
