//! The device info payload: a device's display name and version metadata,
//! sent in answer to a discovery ping. The name occupies a fixed window,
//! terminated and padded by zero bytes; the numeric fields follow it
//! big-endian.

use vstd::prelude::*;
use crate::error::CrsfError;
use crate::payload::{read_front, write_front, AnyPayload, ExtendedPayload};
use crate::typ::PacketType;

verus! {

/// DeviceInfo payload length.
pub const LEN: usize = 58;

/// The widest display name the payload's name window can carry.
pub const DEVICE_NAME_MAX_LEN: usize = 44;

/// Metadata a device reports about itself.
#[derive(Clone, Debug, PartialEq)]
pub struct DeviceInfo {
    /// The device's display name, as raw bytes without a terminator. A
    /// representable name is at most `DEVICE_NAME_MAX_LEN` bytes and holds
    /// no zero byte.
    pub display_name: Vec<u8>,
    pub serial_number: u32,
    pub hardware_version: u32,
    pub software_version: u32,
    pub parameter_count: u8,
    pub parameter_protocol_version: u8,
}

/// The mathematical value of a [`DeviceInfo`].
#[verifier::ext_equal]
pub ghost struct DeviceInfoView {
    pub display_name: Seq<u8>,
    pub serial_number: u32,
    pub hardware_version: u32,
    pub software_version: u32,
    pub parameter_count: u8,
    pub parameter_protocol_version: u8,
}

impl View for DeviceInfo {
    type V = DeviceInfoView;

    open spec fn view(&self) -> DeviceInfoView {
        DeviceInfoView {
            display_name: self.display_name@,
            serial_number: self.serial_number,
            hardware_version: self.hardware_version,
            software_version: self.software_version,
            parameter_count: self.parameter_count,
            parameter_protocol_version: self.parameter_protocol_version,
        }
    }
}

/// A representable device info value: the name fits its window and holds
/// no zero byte (zero terminates the window on the wire).
pub open spec fn spec_valid(v: DeviceInfoView) -> bool {
    &&& v.display_name.len() <= DEVICE_NAME_MAX_LEN
    &&& forall|j: int| 0 <= j < v.display_name.len() ==> v.display_name[j] != 0
}

/// Where the name in a window's name field ends: the first zero byte at or
/// after `i`, or the end of the field.
pub open spec fn spec_name_end(s: Seq<u8>, i: int) -> int
    decreases DEVICE_NAME_MAX_LEN - i,
{
    if i < 0 || i >= DEVICE_NAME_MAX_LEN {
        DEVICE_NAME_MAX_LEN as int
    } else if s[i] == 0 {
        i
    } else {
        spec_name_end(s, i + 1)
    }
}

/// A 32-bit value assembled big-endian from four bytes.
pub open spec fn spec_u32_be(b0: u8, b1: u8, b2: u8, b3: u8) -> u32 {
    ((b0 as u32) << 24) | ((b1 as u32) << 16) | ((b2 as u32) << 8) | (b3 as u32)
}

/// The four big-endian bytes of a 32-bit value.
pub open spec fn spec_u32_be_bytes(x: u32) -> Seq<u8> {
    seq![(x >> 24) as u8, (x >> 16) as u8, (x >> 8) as u8, x as u8]
}

/// The value held by a window of `LEN` bytes.
pub open spec fn spec_raw_decode(s: Seq<u8>) -> DeviceInfoView {
    DeviceInfoView {
        display_name: s.take(spec_name_end(s, 0)),
        serial_number: spec_u32_be(s[44], s[45], s[46], s[47]),
        hardware_version: spec_u32_be(s[48], s[49], s[50], s[51]),
        software_version: spec_u32_be(s[52], s[53], s[54], s[55]),
        parameter_count: s[56],
        parameter_protocol_version: s[57],
    }
}

/// The wire bytes of a value: the name zero-padded to its window, then the
/// three version words big-endian, then the two parameter bytes.
pub open spec fn spec_raw_encode(v: DeviceInfoView) -> Seq<u8> {
    v.display_name + Seq::new((DEVICE_NAME_MAX_LEN - v.display_name.len()) as nat, |i: int| 0u8)
        + spec_u32_be_bytes(v.serial_number) + spec_u32_be_bytes(v.hardware_version)
        + spec_u32_be_bytes(v.software_version) + seq![v.parameter_count, v.parameter_protocol_version]
}

/// The name a decode recovers is representable: it ends before the window
/// does and holds no zero byte.
proof fn lemma_name_end_props(s: Seq<u8>)
    requires
        s.len() >= DEVICE_NAME_MAX_LEN,
    ensures
        0 <= spec_name_end(s, 0) <= DEVICE_NAME_MAX_LEN,
        forall|j: int| 0 <= j < spec_name_end(s, 0) ==> s[j] != 0,
{
    lemma_name_end_props_from(s, 0);
}

proof fn lemma_name_end_props_from(s: Seq<u8>, i: int)
    requires
        s.len() >= DEVICE_NAME_MAX_LEN,
        0 <= i <= DEVICE_NAME_MAX_LEN,
    ensures
        i <= spec_name_end(s, i) <= DEVICE_NAME_MAX_LEN,
        forall|j: int| i <= j < spec_name_end(s, i) ==> s[j] != 0,
    decreases DEVICE_NAME_MAX_LEN - i,
{
    if i < DEVICE_NAME_MAX_LEN && s[i] != 0 {
        lemma_name_end_props_from(s, i + 1);
    }
}

/// A name written into the window and zero-padded is read back whole.
proof fn lemma_name_end_of_encoded(s: Seq<u8>, n: int, i: int)
    requires
        s.len() >= DEVICE_NAME_MAX_LEN,
        0 <= n <= DEVICE_NAME_MAX_LEN,
        0 <= i <= n,
        forall|j: int| i <= j < n ==> s[j] != 0,
        n < DEVICE_NAME_MAX_LEN ==> s[n] == 0,
    ensures
        spec_name_end(s, i) == n,
    decreases n - i,
{
    if i < n {
        lemma_name_end_of_encoded(s, n, i + 1);
    }
}

/// A 32-bit value survives the trip through its big-endian bytes.
proof fn lemma_u32_be_round_trip(x: u32)
    ensures
        spec_u32_be((x >> 24) as u8, (x >> 16) as u8, (x >> 8) as u8, x as u8) == x,
{
    assert((((x >> 24) as u8 as u32) << 24) | (((x >> 16) as u8 as u32) << 16) | (((x >> 8) as u8
        as u32) << 8) | (x as u8 as u32) == x) by (bit_vector);
}

/// A 32-bit value read big-endian from four bytes.
fn u32_from_be(b0: u8, b1: u8, b2: u8, b3: u8) -> (x: u32)
    ensures
        x == spec_u32_be(b0, b1, b2, b3),
{
    ((b0 as u32) << 24) | ((b1 as u32) << 16) | ((b2 as u32) << 8) | (b3 as u32)
}

/// The raw decoder (parser) for the DeviceInfo packet.
pub fn raw_decode(data: &[u8; LEN]) -> (r: DeviceInfo)
    ensures
        r@ == spec_raw_decode(data@),
        spec_valid(r@),
{
    let mut name: Vec<u8> = Vec::new();
    let mut i: usize = 0;
    while i < DEVICE_NAME_MAX_LEN && data[i] != 0
        invariant
            0 <= i <= DEVICE_NAME_MAX_LEN,
            name@ == data@.take(i as int),
            spec_name_end(data@, 0) == spec_name_end(data@, i as int),
        decreases DEVICE_NAME_MAX_LEN - i,
    {
        let b = data[i];
        name.push(b);
        proof {
            assert(data@.take(i + 1) =~= data@.take(i as int).push(data@[i as int]));
        }
        i = i + 1;
    }
    proof {
        assert(spec_name_end(data@, 0) == i);
        lemma_name_end_props(data@);
    }
    let serial_number = u32_from_be(data[44], data[45], data[46], data[47]);
    let hardware_version = u32_from_be(data[48], data[49], data[50], data[51]);
    let software_version = u32_from_be(data[52], data[53], data[54], data[55]);
    DeviceInfo {
        display_name: name,
        serial_number,
        hardware_version,
        software_version,
        parameter_count: data[56],
        parameter_protocol_version: data[57],
    }
}

/// The raw encoder (serializer) for the DeviceInfo packet.
pub fn raw_encode(v: &DeviceInfo, data: &mut [u8; LEN])
    requires
        spec_valid(v@),
    ensures
        final(data)@ == spec_raw_encode(v@),
{
    let n = v.display_name.len();
    let mut i: usize = 0;
    while i < n
        invariant
            i <= n,
            n == v.display_name@.len() <= DEVICE_NAME_MAX_LEN,
            data@.len() == LEN,
            forall|j: int| 0 <= j < i ==> data@[j] == v.display_name@[j],
        decreases n - i,
    {
        data[i] = v.display_name[i];
        i = i + 1;
    }
    while i < DEVICE_NAME_MAX_LEN
        invariant
            n <= i <= DEVICE_NAME_MAX_LEN,
            n == v.display_name@.len(),
            data@.len() == LEN,
            forall|j: int| 0 <= j < n ==> data@[j] == v.display_name@[j],
            forall|j: int| n <= j < i ==> data@[j] == 0,
        decreases DEVICE_NAME_MAX_LEN - i,
    {
        data[i] = 0;
        i = i + 1;
    }
    data[44] = (v.serial_number >> 24) as u8;
    data[45] = (v.serial_number >> 16) as u8;
    data[46] = (v.serial_number >> 8) as u8;
    data[47] = v.serial_number as u8;
    data[48] = (v.hardware_version >> 24) as u8;
    data[49] = (v.hardware_version >> 16) as u8;
    data[50] = (v.hardware_version >> 8) as u8;
    data[51] = v.hardware_version as u8;
    data[52] = (v.software_version >> 24) as u8;
    data[53] = (v.software_version >> 16) as u8;
    data[54] = (v.software_version >> 8) as u8;
    data[55] = v.software_version as u8;
    data[56] = v.parameter_count;
    data[57] = v.parameter_protocol_version;
    proof {
        assert(data@ =~= spec_raw_encode(v@));
    }
}

impl AnyPayload for DeviceInfo {
    open spec fn spec_len() -> usize {
        LEN
    }

    open spec fn spec_packet_type() -> PacketType {
        PacketType::DeviceInfo
    }

    open spec fn spec_wf(v: DeviceInfoView) -> bool {
        spec_valid(v)
    }

    open spec fn spec_decoded(s: Seq<u8>) -> DeviceInfoView {
        spec_raw_decode(s)
    }

    open spec fn spec_wire(v: DeviceInfoView) -> Seq<u8> {
        spec_raw_encode(v)
    }

    proof fn lemma_len_bound() {
    }

    proof fn lemma_wire_len(v: DeviceInfoView) {
    }

    proof fn lemma_round_trip(v: DeviceInfoView) {
        let w = spec_raw_encode(v);
        let n = v.display_name.len() as int;
        lemma_name_end_of_encoded(w, n, 0);
        assert(w.take(n) =~= v.display_name);
        lemma_u32_be_round_trip(v.serial_number);
        lemma_u32_be_round_trip(v.hardware_version);
        lemma_u32_be_round_trip(v.software_version);
        assert(spec_raw_decode(w) =~~= v);
    }

    fn len(&self) -> usize {
        LEN
    }

    fn packet_type(&self) -> PacketType {
        PacketType::DeviceInfo
    }

    fn decode(buf: &[u8]) -> (r: Result<Self, CrsfError>) {
        if buf.len() < LEN {
            return Err(CrsfError::BufferTooSmall);
        }
        let data: [u8; LEN] = read_front(buf);
        Ok(raw_decode(&data))
    }

    fn encode(&self, buf: &mut Vec<u8>) -> (r: Result<(), CrsfError>) {
        if buf.len() < LEN {
            return Err(CrsfError::BufferTooSmall);
        }
        let mut data: [u8; LEN] = [0u8, 0u8, 0u8, 0u8, 0u8, 0u8, 0u8, 0u8, 0u8, 0u8, 0u8, 0u8,
            0u8, 0u8, 0u8, 0u8, 0u8, 0u8, 0u8, 0u8, 0u8, 0u8, 0u8, 0u8, 0u8, 0u8, 0u8, 0u8, 0u8,
            0u8, 0u8, 0u8, 0u8, 0u8, 0u8, 0u8, 0u8, 0u8, 0u8, 0u8, 0u8, 0u8, 0u8, 0u8, 0u8, 0u8,
            0u8, 0u8, 0u8, 0u8, 0u8, 0u8, 0u8, 0u8, 0u8, 0u8, 0u8, 0u8];
        raw_encode(self, &mut data);
        write_front(buf, &data);
        Ok(())
    }
}

impl ExtendedPayload for DeviceInfo {

}

} // verus!
