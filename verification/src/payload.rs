//! The payload capability: every payload kind exposes its fixed encoded
//! length, its type tag, a decoder and an encoder, and one of the two
//! framing protocols built on that base — simple frames for high-frequency
//! payloads and extended frames for addressed payloads.

pub mod device_info;
pub mod device_ping;
pub mod link_statistics;
pub mod parameter_read;
pub mod rc_channels_packed;

pub use device_info::DeviceInfo;
pub use device_ping::DevicePing;
pub use link_statistics::LinkStatistics;
pub use parameter_read::ParameterRead;
pub use rc_channels_packed::RcChannelsPacked;

use vstd::prelude::*;
use vstd::array::array_fill_for_copy_types;
use vstd::slice::slice_subrange;
use crate::address::PacketAddress;
use crate::crc8::Crc8;
use crate::error::CrsfError;
use crate::raw_packet::{extended_frame, simple_frame, RawPacket};
use crate::typ::PacketType;
use crate::{CRSF_MAX_LEN, CRSF_SYNC_BYTE};

verus! {

/// The largest payload a frame can carry: the maximum frame size less the
/// sync, length, type, two address, and checksum bytes.
pub const CRSF_MAX_PAYLOAD_LEN: usize = 58;

/// Copy the first `N` bytes of a slice into a fresh array.
pub(crate) fn read_front<const N: usize>(buf: &[u8]) -> (r: [u8; N])
    requires
        buf@.len() >= N,
    ensures
        r@ == buf@.take(N as int),
{
    let mut a: [u8; N] = array_fill_for_copy_types(0u8);
    let mut i: usize = 0;
    while i < N
        invariant
            i <= N,
            buf@.len() >= N,
            a@.len() == N,
            forall|j: int| 0 <= j < i ==> a@[j] == buf@[j],
        decreases N - i,
    {
        a[i] = buf[i];
        i = i + 1;
    }
    proof {
        assert(a@ =~= buf@.take(N as int));
    }
    a
}

/// Overwrite the first `N` bytes of a vector with an array's contents,
/// leaving the rest unchanged.
pub(crate) fn write_front<const N: usize>(buf: &mut Vec<u8>, data: &[u8; N])
    requires
        old(buf)@.len() >= N,
    ensures
        final(buf)@ == data@ + old(buf)@.skip(N as int),
{
    let mut i: usize = 0;
    while i < N
        invariant
            i <= N,
            buf@.len() == old(buf)@.len(),
            old(buf)@.len() >= N,
            forall|j: int| 0 <= j < i ==> buf@[j] == data@[j],
            forall|j: int| i <= j < buf@.len() ==> buf@[j] == old(buf)@[j],
        decreases N - i,
    {
        buf[i] = data[i];
        i = i + 1;
    }
    proof {
        assert(buf@ =~= data@ + old(buf)@.skip(N as int));
    }
}

/// A payload kind: a fixed encoded length, a type tag, and an exact
/// decoder and encoder between values and byte windows.
pub trait AnyPayload: View + Sized {
    /// The length in bytes of this payload kind when serialized.
    spec fn spec_len() -> usize;

    /// The type tag of this payload kind.
    spec fn spec_packet_type() -> PacketType;

    /// The values of this kind the protocol represents exactly on the wire.
    spec fn spec_wf(v: Self::V) -> bool;

    /// The value encoded by a window of `spec_len()` bytes.
    spec fn spec_decoded(s: Seq<u8>) -> Self::V;

    /// The wire bytes of a value.
    spec fn spec_wire(v: Self::V) -> Seq<u8>;

    /// Every payload kind fits inside one frame.
    proof fn lemma_len_bound()
        ensures
            Self::spec_len() <= CRSF_MAX_PAYLOAD_LEN,
    ;

    /// A representable value's wire form is exactly `spec_len()` bytes.
    proof fn lemma_wire_len(v: Self::V)
        requires
            Self::spec_wf(v),
        ensures
            Self::spec_wire(v).len() == Self::spec_len(),
    ;

    /// Round trip: decoding the wire form of a representable value gives
    /// the value back.
    proof fn lemma_round_trip(v: Self::V)
        requires
            Self::spec_wf(v),
        ensures
            Self::spec_decoded(Self::spec_wire(v)) == v,
    ;

    /// The length in bytes of this payload when serialized.
    fn len(&self) -> (n: usize)
        ensures
            n == Self::spec_len(),
    ;

    /// The packet type of this payload.
    fn packet_type(&self) -> (t: PacketType)
        ensures
            t == Self::spec_packet_type(),
    ;

    /// Decode a payload from a slice holding its first `spec_len()` bytes.
    /// The slice must not include the sync, length, type, address, or
    /// checksum bytes. A window shorter than the fixed length is rejected.
    fn decode(buf: &[u8]) -> (r: Result<Self, CrsfError>)
        ensures
            buf@.len() >= Self::spec_len() ==> (r matches Ok(p) && p@ == Self::spec_decoded(
                buf@.take(Self::spec_len() as int),
            ) && Self::spec_wf(p@)),
            buf@.len() < Self::spec_len() ==> (r matches Err(e) && e == CrsfError::BufferTooSmall),
    ;

    /// Encode a payload into the front of a buffer of at least its fixed
    /// length, leaving the rest of the buffer unchanged. A shorter buffer
    /// is rejected and left untouched.
    fn encode(&self, buf: &mut Vec<u8>) -> (r: Result<(), CrsfError>)
        requires
            Self::spec_wf(self@),
        ensures
            old(buf)@.len() >= Self::spec_len() ==> (r is Ok && final(buf)@ == Self::spec_wire(self@)
                + old(buf)@.skip(Self::spec_len() as int)),
            old(buf)@.len() < Self::spec_len() ==> (r matches Err(e) && e
                == CrsfError::BufferTooSmall && final(buf)@ == old(buf)@),
    ;
}

/// The wire bytes of a payload value, collected into a fresh vector.
fn encode_to_vec<P: AnyPayload>(p: &P) -> (r: Vec<u8>)
    requires
        P::spec_wf(p@),
    ensures
        r@ == P::spec_wire(p@),
{
    proof {
        P::lemma_wire_len(p@);
    }
    let n = p.len();
    let mut body: Vec<u8> = Vec::new();
    let mut i: usize = 0;
    while i < n
        invariant
            body@.len() == i,
            i <= n,
        decreases n - i,
    {
        body.push(0u8);
        i = i + 1;
    }
    let res = p.encode(&mut body);
    proof {
        assert(res is Ok);
        assert(body@ =~= P::spec_wire(p@));
    }
    body
}

/// Assemble a frame around already-encoded payload bytes: header, payload,
/// checksum, zero padding out to the buffer capacity.
fn assemble_raw(sync_byte: u8, t: u8, dst_src: Option<(u8, u8)>, body: &Vec<u8>) -> (r: RawPacket)
    requires
        body@.len() <= CRSF_MAX_PAYLOAD_LEN,
    ensures
        r.wf(),
        dst_src matches Some(a) ==> r@ == extended_frame(sync_byte, t, a.0, a.1, body@),
        dst_src is None ==> r@ == simple_frame(sync_byte, t, body@),
    {
    let n = body.len();
    let mut out: Vec<u8> = Vec::new();
    out.push(sync_byte);
    match dst_src {
        Some((d, s)) => {
            out.push((n + 4) as u8);
            out.push(t);
            out.push(d);
            out.push(s);
        },
        None => {
            out.push((n + 2) as u8);
            out.push(t);
        },
    }
    let ghost head = out@;
    let mut j: usize = 0;
    while j < n
        invariant
            j <= n,
            n == body@.len(),
            out@ == head + body@.take(j as int),
        decreases n - j,
    {
        let b = body[j];
        out.push(b);
        proof {
            assert(head + body@.take(j + 1) =~= (head + body@.take(j as int)).push(body@[j as int]));
        }
        j = j + 1;
    }
    proof {
        assert(body@.take(n as int) =~= body@);
    }
    let mut crc = Crc8::new();
    let covered = slice_subrange(out.as_slice(), 2, out.len());
    crc.compute(covered);
    proof {
        assert(covered@ =~= head.skip(2) + body@);
    }
    out.push(crc.get_checksum());
    let flen = out.len();
    let ghost frame = out@;
    while out.len() < CRSF_MAX_LEN
        invariant
            out@.len() >= flen,
            out@.len() <= CRSF_MAX_LEN,
            out@.take(flen as int) == frame,
        decreases CRSF_MAX_LEN - out@.len(),
    {
        out.push(0u8);
        proof {
            assert(out@.take(flen as int) =~= frame);
        }
    }
    let r = RawPacket::assemble(out, flen);
    proof {
        match dst_src {
            Some((d, s)) => {
                assert(head.skip(2) =~= seq![t, d, s]);
                assert(r@ =~= extended_frame(sync_byte, t, d, s, body@));
            },
            None => {
                assert(head.skip(2) =~= seq![t]);
                assert(r@ =~= simple_frame(sync_byte, t, body@));
            },
        }
    }
    r
}

/// A payload kind carried by simple frames: sync, length, type, payload,
/// checksum.
pub trait Payload: AnyPayload {
    /// Construct a frame around this payload with the protocol's sync byte.
    fn to_raw_packet(&self) -> (r: Result<RawPacket, CrsfError>)
        requires
            Self::spec_wf(self@),
        ensures
            r matches Ok(raw) && raw.wf() && raw@ == simple_frame(
                CRSF_SYNC_BYTE,
                Self::spec_packet_type().spec_to_u8(),
                Self::spec_wire(self@),
            ),
    {
        self.to_raw_packet_with_sync(CRSF_SYNC_BYTE)
    }

    /// Construct a frame around this payload under a substituted sync byte.
    /// Some deployments repurpose the sync byte as a coarse address; the
    /// checksum never covers it, so the substitution leaves the checksum
    /// unchanged.
    fn to_raw_packet_with_sync(&self, sync_byte: u8) -> (r: Result<RawPacket, CrsfError>)
        requires
            Self::spec_wf(self@),
        ensures
            r matches Ok(raw) && raw.wf() && raw@ == simple_frame(
                sync_byte,
                Self::spec_packet_type().spec_to_u8(),
                Self::spec_wire(self@),
            ),
    {
        proof {
            Self::lemma_len_bound();
            Self::lemma_wire_len(self@);
        }
        let body = encode_to_vec(self);
        let t = self.packet_type().to_u8();
        Ok(assemble_raw(sync_byte, t, None, &body))
    }
}

/// A payload kind carried by extended frames: sync, length, type,
/// destination address, source address, payload, checksum.
pub trait ExtendedPayload: AnyPayload {
    /// Construct an addressed frame around this payload with the
    /// protocol's sync byte.
    fn to_raw_packet(&self, dst: PacketAddress, src: PacketAddress) -> (r: Result<
        RawPacket,
        CrsfError,
    >)
        requires
            Self::spec_wf(self@),
        ensures
            r matches Ok(raw) && raw.wf() && raw@ == extended_frame(
                CRSF_SYNC_BYTE,
                Self::spec_packet_type().spec_to_u8(),
                dst.spec_to_u8(),
                src.spec_to_u8(),
                Self::spec_wire(self@),
            ),
    {
        self.to_raw_packet_with_sync(CRSF_SYNC_BYTE, dst, src)
    }

    /// Construct an addressed frame around this payload under a
    /// substituted sync byte.
    fn to_raw_packet_with_sync(&self, sync_byte: u8, dst: PacketAddress, src: PacketAddress) -> (r:
        Result<RawPacket, CrsfError>)
        requires
            Self::spec_wf(self@),
        ensures
            r matches Ok(raw) && raw.wf() && raw@ == extended_frame(
                sync_byte,
                Self::spec_packet_type().spec_to_u8(),
                dst.spec_to_u8(),
                src.spec_to_u8(),
                Self::spec_wire(self@),
            ),
    {
        proof {
            Self::lemma_len_bound();
            Self::lemma_wire_len(self@);
        }
        let body = encode_to_vec(self);
        let t = self.packet_type().to_u8();
        let d = dst.to_u8();
        let s = src.to_u8();
        Ok(assemble_raw(sync_byte, t, Some((d, s)), &body))
    }
}

} // verus!
