//! The parameter read request payload: which parameter field to read, and
//! which chunk of it.

use vstd::prelude::*;
use crate::error::CrsfError;
use crate::payload::{read_front, write_front, AnyPayload, ExtendedPayload};
use crate::typ::PacketType;

verus! {

/// ParameterRead payload length.
pub const LEN: usize = 2;

/// A request to read one chunk of one device parameter.
#[derive(Clone, Copy, Debug, PartialEq, Eq, Structural)]
#[verifier::ext_equal]
pub struct ParameterRead {
    pub field: u8,
    pub chunk: u8,
}

impl View for ParameterRead {
    type V = ParameterRead;

    open spec fn view(&self) -> ParameterRead {
        *self
    }
}

/// The value held by a window of `LEN` bytes.
pub open spec fn spec_raw_decode(s: Seq<u8>) -> ParameterRead {
    ParameterRead { field: s[0], chunk: s[1] }
}

/// The wire bytes of a value.
pub open spec fn spec_raw_encode(p: ParameterRead) -> Seq<u8> {
    seq![p.field, p.chunk]
}

/// The raw decoder (parser) for the ParameterRead packet.
pub fn raw_decode(data: &[u8; LEN]) -> (r: ParameterRead)
    ensures
        r == spec_raw_decode(data@),
{
    ParameterRead { field: data[0], chunk: data[1] }
}

/// The raw encoder (serializer) for the ParameterRead packet.
pub fn raw_encode(p: &ParameterRead, data: &mut [u8; LEN])
    ensures
        final(data)@ == spec_raw_encode(*p),
{
    data[0] = p.field;
    data[1] = p.chunk;
    proof {
        assert(data@ =~= spec_raw_encode(*p));
    }
}

impl AnyPayload for ParameterRead {
    open spec fn spec_len() -> usize {
        LEN
    }

    open spec fn spec_packet_type() -> PacketType {
        PacketType::ParameterRead
    }

    open spec fn spec_wf(v: ParameterRead) -> bool {
        true
    }

    open spec fn spec_decoded(s: Seq<u8>) -> ParameterRead {
        spec_raw_decode(s)
    }

    open spec fn spec_wire(v: ParameterRead) -> Seq<u8> {
        spec_raw_encode(v)
    }

    proof fn lemma_len_bound() {
    }

    proof fn lemma_wire_len(v: ParameterRead) {
    }

    proof fn lemma_round_trip(v: ParameterRead) {
        assert(spec_raw_decode(spec_raw_encode(v)) =~= v);
    }

    fn len(&self) -> usize {
        LEN
    }

    fn packet_type(&self) -> PacketType {
        PacketType::ParameterRead
    }

    fn decode(buf: &[u8]) -> (r: Result<Self, CrsfError>) {
        if buf.len() < LEN {
            return Err(CrsfError::BufferTooSmall);
        }
        let data: [u8; LEN] = read_front(buf);
        Ok(raw_decode(&data))
    }

    fn encode(&self, buf: &mut Vec<u8>) -> (r: Result<(), CrsfError>) {
        if buf.len() < LEN {
            return Err(CrsfError::BufferTooSmall);
        }
        let mut data: [u8; LEN] = [0u8, 0u8];
        raw_encode(self, &mut data);
        write_front(buf, &data);
        Ok(())
    }
}

impl ExtendedPayload for ParameterRead {

}

} // verus!
