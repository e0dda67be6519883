//! The fixed-capacity byte buffer that represents one on-wire frame, and
//! the spec-level shape of simple and extended frames.

use vstd::prelude::*;
use vstd::slice::slice_subrange;
use crate::crc8::crc8;
use crate::error::CrsfError;
use crate::typ::PacketType;
use crate::CRSF_MAX_LEN;

verus! {

/// The bytes of a simple frame: sync, length, type, payload, checksum.
/// The checksum covers the type byte through the end of the payload; it
/// never covers the sync byte, so substituting a non-default sync byte
/// does not affect it.
pub open spec fn simple_frame(sync: u8, t: u8, p: Seq<u8>) -> Seq<u8> {
    seq![sync, (p.len() + 2) as u8, t] + p + seq![crc8(seq![t] + p)]
}

/// The bytes of an extended frame: sync, length, type, destination address,
/// source address, payload, checksum. The checksum covers the type byte
/// through the end of the payload, the two address bytes included.
pub open spec fn extended_frame(sync: u8, t: u8, dst: u8, src: u8, p: Seq<u8>) -> Seq<u8> {
    seq![sync, (p.len() + 4) as u8, t, dst, src] + p + seq![crc8(seq![t, dst, src] + p)]
}

/// One complete on-wire frame: a buffer of the protocol's maximum frame
/// size, of which the first `len` bytes are occupied.
pub struct RawPacket {
    buf: Vec<u8>,
    len: usize,
}

impl View for RawPacket {
    type V = Seq<u8>;

    /// The occupied bytes of the frame.
    closed spec fn view(&self) -> Seq<u8> {
        self.buf@.take(self.len as int)
    }
}

impl RawPacket {
    /// The buffer spans the protocol maximum and holds at least the four
    /// bytes of the smallest frame.
    pub closed spec fn wf(&self) -> bool {
        self.buf@.len() == CRSF_MAX_LEN && 4 <= self.len <= CRSF_MAX_LEN
    }

    /// Wrap an assembled buffer. The frame occupies the first `len` bytes.
    pub(crate) fn assemble(buf: Vec<u8>, len: usize) -> (r: RawPacket)
        requires
            buf@.len() == CRSF_MAX_LEN,
            4 <= len <= CRSF_MAX_LEN,
        ensures
            r.wf(),
            r@ == buf@.take(len as int),
    {
        RawPacket { buf, len }
    }

    /// How many bytes of the buffer the frame occupies.
    pub fn len(&self) -> (n: usize)
        requires
            self.wf(),
        ensures
            n == self@.len(),
    {
        self.len
    }

    /// The occupied bytes of the frame, ready for a transport to send.
    pub fn as_slice(&self) -> (r: &[u8])
        requires
            self.wf(),
        ensures
            r@ == self@,
    {
        slice_subrange(self.buf.as_slice(), 0, self.len)
    }

    /// The payload bytes of the frame, located by its type byte: after the
    /// three header bytes of a simple frame, or the five of an extended
    /// frame, and before the trailing checksum byte.
    pub fn payload(&self) -> (r: Result<&[u8], CrsfError>)
        requires
            self.wf(),
        ensures
            PacketType::spec_from_u8(self@[2]) is None ==> (r matches Err(e) && e
                == CrsfError::UnknownPacketType),
            PacketType::spec_from_u8(self@[2]) matches Some(t) ==> {
                let off: int = if t.spec_is_extended() {
                    5
                } else {
                    3
                };
                if off + 1 <= self@.len() {
                    r matches Ok(p) && p@ == self@.subrange(off, self@.len() - 1)
                } else {
                    r matches Err(e) && e == CrsfError::InvalidLength
                }
            },
    {
        let tb: u8 = self.buf[2];
        match PacketType::from_u8(tb) {
            None => Err(CrsfError::UnknownPacketType),
            Some(t) => {
                let off: usize = if t.is_extended() {
                    5
                } else {
                    3
                };
                if off + 1 <= self.len {
                    let r = slice_subrange(self.buf.as_slice(), off, self.len - 1);
                    proof {
                        assert(r@ =~= self@.subrange(off as int, self@.len() - 1));
                    }
                    Ok(r)
                } else {
                    Err(CrsfError::InvalidLength)
                }
            },
        }
    }
}

} // verus!
