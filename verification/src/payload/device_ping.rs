//! The device discovery ping payload: an empty, addressed probe that asks
//! every listening device to answer with its device information.

use vstd::prelude::*;
use crate::error::CrsfError;
use crate::payload::{AnyPayload, ExtendedPayload};
use crate::typ::PacketType;

verus! {

/// DevicePing payload length: a ping carries no data of its own.
pub const LEN: usize = 0;

/// A device discovery probe.
#[derive(Clone, Copy, Debug, PartialEq, Eq, Structural)]
#[verifier::ext_equal]
pub struct DevicePing;

impl View for DevicePing {
    type V = DevicePing;

    open spec fn view(&self) -> DevicePing {
        *self
    }
}

impl AnyPayload for DevicePing {
    open spec fn spec_len() -> usize {
        LEN
    }

    open spec fn spec_packet_type() -> PacketType {
        PacketType::DevicePing
    }

    open spec fn spec_wf(v: DevicePing) -> bool {
        true
    }

    open spec fn spec_decoded(s: Seq<u8>) -> DevicePing {
        DevicePing
    }

    open spec fn spec_wire(v: DevicePing) -> Seq<u8> {
        Seq::empty()
    }

    proof fn lemma_len_bound() {
    }

    proof fn lemma_wire_len(v: DevicePing) {
    }

    proof fn lemma_round_trip(v: DevicePing) {
    }

    fn len(&self) -> usize {
        LEN
    }

    fn packet_type(&self) -> PacketType {
        PacketType::DevicePing
    }

    fn decode(buf: &[u8]) -> (r: Result<Self, CrsfError>) {
        Ok(DevicePing)
    }

    fn encode(&self, buf: &mut Vec<u8>) -> (r: Result<(), CrsfError>) {
        proof {
            assert(Seq::<u8>::empty() + old(buf)@.skip(0) =~= old(buf)@);
        }
        Ok(())
    }
}

impl ExtendedPayload for DevicePing {

}

} // verus!
