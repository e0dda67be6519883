//! The link statistics payload: per-direction signal quality telemetry.
//! Every field is the raw wire byte; the two SNR fields carry
//! two's-complement decibel values.

use vstd::prelude::*;
use crate::error::CrsfError;
use crate::payload::{read_front, write_front, AnyPayload, Payload};
use crate::typ::PacketType;

verus! {

/// LinkStatistics payload length.
pub const LEN: usize = 10;

/// Link quality telemetry for both directions of one radio link.
#[derive(Clone, Copy, Debug, PartialEq, Eq, Structural)]
#[verifier::ext_equal]
pub struct LinkStatistics {
    pub uplink_rssi_1: u8,
    pub uplink_rssi_2: u8,
    pub uplink_link_quality: u8,
    pub uplink_snr: u8,
    pub active_antenna: u8,
    pub rf_mode: u8,
    pub uplink_tx_power: u8,
    pub downlink_rssi: u8,
    pub downlink_link_quality: u8,
    pub downlink_snr: u8,
}

impl View for LinkStatistics {
    type V = LinkStatistics;

    open spec fn view(&self) -> LinkStatistics {
        *self
    }
}

/// The value held by a window of `LEN` bytes.
pub open spec fn spec_raw_decode(s: Seq<u8>) -> LinkStatistics {
    LinkStatistics {
        uplink_rssi_1: s[0],
        uplink_rssi_2: s[1],
        uplink_link_quality: s[2],
        uplink_snr: s[3],
        active_antenna: s[4],
        rf_mode: s[5],
        uplink_tx_power: s[6],
        downlink_rssi: s[7],
        downlink_link_quality: s[8],
        downlink_snr: s[9],
    }
}

/// The wire bytes of a value.
pub open spec fn spec_raw_encode(v: LinkStatistics) -> Seq<u8> {
    seq![
        v.uplink_rssi_1,
        v.uplink_rssi_2,
        v.uplink_link_quality,
        v.uplink_snr,
        v.active_antenna,
        v.rf_mode,
        v.uplink_tx_power,
        v.downlink_rssi,
        v.downlink_link_quality,
        v.downlink_snr,
    ]
}

/// The raw decoder (parser) for the LinkStatistics packet.
pub fn raw_decode(data: &[u8; LEN]) -> (r: LinkStatistics)
    ensures
        r == spec_raw_decode(data@),
{
    LinkStatistics {
        uplink_rssi_1: data[0],
        uplink_rssi_2: data[1],
        uplink_link_quality: data[2],
        uplink_snr: data[3],
        active_antenna: data[4],
        rf_mode: data[5],
        uplink_tx_power: data[6],
        downlink_rssi: data[7],
        downlink_link_quality: data[8],
        downlink_snr: data[9],
    }
}

/// The raw encoder (serializer) for the LinkStatistics packet.
pub fn raw_encode(v: &LinkStatistics, data: &mut [u8; LEN])
    ensures
        final(data)@ == spec_raw_encode(*v),
{
    data[0] = v.uplink_rssi_1;
    data[1] = v.uplink_rssi_2;
    data[2] = v.uplink_link_quality;
    data[3] = v.uplink_snr;
    data[4] = v.active_antenna;
    data[5] = v.rf_mode;
    data[6] = v.uplink_tx_power;
    data[7] = v.downlink_rssi;
    data[8] = v.downlink_link_quality;
    data[9] = v.downlink_snr;
    proof {
        assert(data@ =~= spec_raw_encode(*v));
    }
}

impl AnyPayload for LinkStatistics {
    open spec fn spec_len() -> usize {
        LEN
    }

    open spec fn spec_packet_type() -> PacketType {
        PacketType::LinkStatistics
    }

    open spec fn spec_wf(v: LinkStatistics) -> bool {
        true
    }

    open spec fn spec_decoded(s: Seq<u8>) -> LinkStatistics {
        spec_raw_decode(s)
    }

    open spec fn spec_wire(v: LinkStatistics) -> Seq<u8> {
        spec_raw_encode(v)
    }

    proof fn lemma_len_bound() {
    }

    proof fn lemma_wire_len(v: LinkStatistics) {
    }

    proof fn lemma_round_trip(v: LinkStatistics) {
        assert(spec_raw_decode(spec_raw_encode(v)) =~= v);
    }

    fn len(&self) -> usize {
        LEN
    }

    fn packet_type(&self) -> PacketType {
        PacketType::LinkStatistics
    }

    fn decode(buf: &[u8]) -> (r: Result<Self, CrsfError>) {
        if buf.len() < LEN {
            return Err(CrsfError::BufferTooSmall);
        }
        let data: [u8; LEN] = read_front(buf);
        Ok(raw_decode(&data))
    }

    fn encode(&self, buf: &mut Vec<u8>) -> (r: Result<(), CrsfError>) {
        if buf.len() < LEN {
            return Err(CrsfError::BufferTooSmall);
        }
        let mut data: [u8; LEN] = [0u8, 0u8, 0u8, 0u8, 0u8, 0u8, 0u8, 0u8, 0u8, 0u8];
        raw_encode(self, &mut data);
        write_front(buf, &data);
        Ok(())
    }
}

impl Payload for LinkStatistics {

}

} // verus!
