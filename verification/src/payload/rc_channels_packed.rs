//! The packed RC channels payload: sixteen 11-bit channel values packed
//! with no padding across 22 bytes, in the protocol's fixed bit order.

use vstd::prelude::*;
use crate::error::CrsfError;
use crate::payload::{read_front, write_front, AnyPayload, Payload};
use crate::typ::PacketType;

verus! {

/// RcChannelsPacked payload length: 16 channels of 11 bits each.
pub const LEN: usize = 22;

/// Sixteen RC channel values. On the wire each occupies 11 bits, so only
/// values up to 2047 are representable and round-trip; the encoder applies
/// the protocol's shift table to the raw 16-bit values as they are, so the
/// high bits of an out-of-range value fall into the bit positions of the
/// neighbouring channel. [`spec_pack`] pins the exact bytes either way.
#[derive(Clone, Copy, Debug, PartialEq)]
pub struct RcChannelsPacked(pub [u16; 16]);

impl View for RcChannelsPacked {
    type V = Seq<u16>;

    open spec fn view(&self) -> Seq<u16> {
        self.0@
    }
}

/// A packed byte read as a 16-bit value, to make room for shifting.
pub open spec fn wide(s: Seq<u8>, i: int) -> u16 {
    s[i] as u16
}

/// Channel `k` of a 22-byte window, assembled from its 2 or 3 source bytes
/// by the protocol's fixed bit-order table and masked to 11 bits.
pub open spec fn spec_channel(s: Seq<u8>, k: int) -> u16 {
    if k == 0 {
        (wide(s, 0) | wide(s, 1) << 8) & 0x07FF
    } else if k == 1 {
        (wide(s, 1) >> 3 | wide(s, 2) << 5) & 0x07FF
    } else if k == 2 {
        (wide(s, 2) >> 6 | wide(s, 3) << 2 | wide(s, 4) << 10) & 0x07FF
    } else if k == 3 {
        (wide(s, 4) >> 1 | wide(s, 5) << 7) & 0x07FF
    } else if k == 4 {
        (wide(s, 5) >> 4 | wide(s, 6) << 4) & 0x07FF
    } else if k == 5 {
        (wide(s, 6) >> 7 | wide(s, 7) << 1 | wide(s, 8) << 9) & 0x07FF
    } else if k == 6 {
        (wide(s, 8) >> 2 | wide(s, 9) << 6) & 0x07FF
    } else if k == 7 {
        (wide(s, 9) >> 5 | wide(s, 10) << 3) & 0x07FF
    } else if k == 8 {
        (wide(s, 11) | wide(s, 12) << 8) & 0x07FF
    } else if k == 9 {
        (wide(s, 12) >> 3 | wide(s, 13) << 5) & 0x07FF
    } else if k == 10 {
        (wide(s, 13) >> 6 | wide(s, 14) << 2 | wide(s, 15) << 10) & 0x07FF
    } else if k == 11 {
        (wide(s, 15) >> 1 | wide(s, 16) << 7) & 0x07FF
    } else if k == 12 {
        (wide(s, 16) >> 4 | wide(s, 17) << 4) & 0x07FF
    } else if k == 13 {
        (wide(s, 17) >> 7 | wide(s, 18) << 1 | wide(s, 19) << 9) & 0x07FF
    } else if k == 14 {
        (wide(s, 19) >> 2 | wide(s, 20) << 6) & 0x07FF
    } else {
        (wide(s, 20) >> 5 | wide(s, 21) << 3) & 0x07FF
    }
}

/// All sixteen channels of a 22-byte window.
pub open spec fn spec_unpack(s: Seq<u8>) -> Seq<u16> {
    Seq::new(16, |k: int| spec_channel(s, k))
}

/// Byte `j` of the packed form: the union of the channel bit ranges that
/// fall into it, low bits first, truncated to the byte.
pub open spec fn spec_packed_byte(ch: Seq<u16>, j: int) -> u8 {
    if j == 0 {
        ch[0] as u8
    } else if j == 1 {
        (ch[0] >> 8 | ch[1] << 3) as u8
    } else if j == 2 {
        (ch[1] >> 5 | ch[2] << 6) as u8
    } else if j == 3 {
        (ch[2] >> 2) as u8
    } else if j == 4 {
        (ch[2] >> 10 | ch[3] << 1) as u8
    } else if j == 5 {
        (ch[3] >> 7 | ch[4] << 4) as u8
    } else if j == 6 {
        (ch[4] >> 4 | ch[5] << 7) as u8
    } else if j == 7 {
        (ch[5] >> 1) as u8
    } else if j == 8 {
        (ch[5] >> 9 | ch[6] << 2) as u8
    } else if j == 9 {
        (ch[6] >> 6 | ch[7] << 5) as u8
    } else if j == 10 {
        (ch[7] >> 3) as u8
    } else if j == 11 {
        ch[8] as u8
    } else if j == 12 {
        (ch[8] >> 8 | ch[9] << 3) as u8
    } else if j == 13 {
        (ch[9] >> 5 | ch[10] << 6) as u8
    } else if j == 14 {
        (ch[10] >> 2) as u8
    } else if j == 15 {
        (ch[10] >> 10 | ch[11] << 1) as u8
    } else if j == 16 {
        (ch[11] >> 7 | ch[12] << 4) as u8
    } else if j == 17 {
        (ch[12] >> 4 | ch[13] << 7) as u8
    } else if j == 18 {
        (ch[13] >> 1) as u8
    } else if j == 19 {
        (ch[13] >> 9 | ch[14] << 2) as u8
    } else if j == 20 {
        (ch[14] >> 6 | ch[15] << 5) as u8
    } else {
        (ch[15] >> 3) as u8
    }
}

/// The 22 packed bytes of sixteen channels.
pub open spec fn spec_pack(ch: Seq<u16>) -> Seq<u8> {
    Seq::new(22, |j: int| spec_packed_byte(ch, j))
}

/// The raw decoder (parser) for the RcChannelsPacked packet.
pub fn raw_decode(data: &[u8; LEN]) -> (r: RcChannelsPacked)
    ensures
        r@ == spec_unpack(data@),
{
    let d0: u16 = data[0] as u16;
    let d1: u16 = data[1] as u16;
    let d2: u16 = data[2] as u16;
    let d3: u16 = data[3] as u16;
    let d4: u16 = data[4] as u16;
    let d5: u16 = data[5] as u16;
    let d6: u16 = data[6] as u16;
    let d7: u16 = data[7] as u16;
    let d8: u16 = data[8] as u16;
    let d9: u16 = data[9] as u16;
    let d10: u16 = data[10] as u16;
    let d11: u16 = data[11] as u16;
    let d12: u16 = data[12] as u16;
    let d13: u16 = data[13] as u16;
    let d14: u16 = data[14] as u16;
    let d15: u16 = data[15] as u16;
    let d16: u16 = data[16] as u16;
    let d17: u16 = data[17] as u16;
    let d18: u16 = data[18] as u16;
    let d19: u16 = data[19] as u16;
    let d20: u16 = data[20] as u16;
    let d21: u16 = data[21] as u16;

    let mut ch: [u16; 16] = [0u16, 0u16, 0u16, 0u16, 0u16, 0u16, 0u16, 0u16, 0u16, 0u16, 0u16, 0u16, 0u16, 0u16, 0u16, 0u16];
    ch[0] = (d0 | d1 << 8) & 0x07FF;
    ch[1] = (d1 >> 3 | d2 << 5) & 0x07FF;
    ch[2] = (d2 >> 6 | d3 << 2 | d4 << 10) & 0x07FF;
    ch[3] = (d4 >> 1 | d5 << 7) & 0x07FF;
    ch[4] = (d5 >> 4 | d6 << 4) & 0x07FF;
    ch[5] = (d6 >> 7 | d7 << 1 | d8 << 9) & 0x07FF;
    ch[6] = (d8 >> 2 | d9 << 6) & 0x07FF;
    ch[7] = (d9 >> 5 | d10 << 3) & 0x07FF;
    ch[8] = (d11 | d12 << 8) & 0x07FF;
    ch[9] = (d12 >> 3 | d13 << 5) & 0x07FF;
    ch[10] = (d13 >> 6 | d14 << 2 | d15 << 10) & 0x07FF;
    ch[11] = (d15 >> 1 | d16 << 7) & 0x07FF;
    ch[12] = (d16 >> 4 | d17 << 4) & 0x07FF;
    ch[13] = (d17 >> 7 | d18 << 1 | d19 << 9) & 0x07FF;
    ch[14] = (d19 >> 2 | d20 << 6) & 0x07FF;
    ch[15] = (d20 >> 5 | d21 << 3) & 0x07FF;

    let r = RcChannelsPacked(ch);
    proof {
        assert(r@ =~= spec_unpack(data@));
    }
    r
}

/// The raw encoder (serializer) for the RcChannelsPacked packet.
pub fn raw_encode(ch: &RcChannelsPacked, data: &mut [u8; LEN])
    ensures
        final(data)@ == spec_pack(ch@),
{
    let c0: u16 = ch.0[0];
    let c1: u16 = ch.0[1];
    let c2: u16 = ch.0[2];
    let c3: u16 = ch.0[3];
    let c4: u16 = ch.0[4];
    let c5: u16 = ch.0[5];
    let c6: u16 = ch.0[6];
    let c7: u16 = ch.0[7];
    let c8: u16 = ch.0[8];
    let c9: u16 = ch.0[9];
    let c10: u16 = ch.0[10];
    let c11: u16 = ch.0[11];
    let c12: u16 = ch.0[12];
    let c13: u16 = ch.0[13];
    let c14: u16 = ch.0[14];
    let c15: u16 = ch.0[15];

    data[0] = c0 as u8;
    data[1] = (c0 >> 8 | c1 << 3) as u8;
    data[2] = (c1 >> 5 | c2 << 6) as u8;
    data[3] = (c2 >> 2) as u8;
    data[4] = (c2 >> 10 | c3 << 1) as u8;
    data[5] = (c3 >> 7 | c4 << 4) as u8;
    data[6] = (c4 >> 4 | c5 << 7) as u8;
    data[7] = (c5 >> 1) as u8;
    data[8] = (c5 >> 9 | c6 << 2) as u8;
    data[9] = (c6 >> 6 | c7 << 5) as u8;
    data[10] = (c7 >> 3) as u8;
    data[11] = c8 as u8;
    data[12] = (c8 >> 8 | c9 << 3) as u8;
    data[13] = (c9 >> 5 | c10 << 6) as u8;
    data[14] = (c10 >> 2) as u8;
    data[15] = (c10 >> 10 | c11 << 1) as u8;
    data[16] = (c11 >> 7 | c12 << 4) as u8;
    data[17] = (c12 >> 4 | c13 << 7) as u8;
    data[18] = (c13 >> 1) as u8;
    data[19] = (c13 >> 9 | c14 << 2) as u8;
    data[20] = (c14 >> 6 | c15 << 5) as u8;
    data[21] = (c15 >> 3) as u8;
    proof {
        assert(data@ =~= spec_pack(ch@));
    }
}

impl AnyPayload for RcChannelsPacked {
    open spec fn spec_len() -> usize {
        LEN
    }

    open spec fn spec_packet_type() -> PacketType {
        PacketType::RcChannelsPacked
    }

    /// Representable exactly: every channel value fits in 11 bits.
    open spec fn spec_wf(v: Seq<u16>) -> bool {
        v.len() == 16 && forall|k: int| 0 <= k < 16 ==> v[k] <= 0x07FF
    }

    open spec fn spec_decoded(s: Seq<u8>) -> Seq<u16> {
        spec_unpack(s)
    }

    open spec fn spec_wire(v: Seq<u16>) -> Seq<u8> {
        spec_pack(v)
    }

    proof fn lemma_len_bound() {
    }

    proof fn lemma_wire_len(v: Seq<u16>) {
    }

    proof fn lemma_round_trip(v: Seq<u16>) {
        lemma_pack_round_trip(v);
        assert(spec_unpack(spec_pack(v)) =~= v);
    }

    fn len(&self) -> usize {
        LEN
    }

    fn packet_type(&self) -> PacketType {
        PacketType::RcChannelsPacked
    }

    fn decode(buf: &[u8]) -> (r: Result<Self, CrsfError>) {
        if buf.len() < LEN {
            return Err(CrsfError::BufferTooSmall);
        }
        let data: [u8; LEN] = read_front(buf);
        let r = raw_decode(&data);
        proof {
            lemma_mask11_bound();
        }
        Ok(r)
    }

    fn encode(&self, buf: &mut Vec<u8>) -> (r: Result<(), CrsfError>) {
        if buf.len() < LEN {
            return Err(CrsfError::BufferTooSmall);
        }
        let mut data: [u8; LEN] = [0u8, 0u8, 0u8, 0u8, 0u8, 0u8, 0u8, 0u8, 0u8, 0u8, 0u8, 0u8, 0u8, 0u8, 0u8, 0u8, 0u8, 0u8, 0u8, 0u8, 0u8, 0u8];
        raw_encode(self, &mut data);
        write_front(buf, &data);
        Ok(())
    }
}

impl Payload for RcChannelsPacked {

}

/// Masking to 11 bits bounds a value by the mask.
proof fn lemma_mask11_bound()
    by (bit_vector)
    ensures
        forall|x: u16| #[trigger] (x & 0x07FF) <= 0x07FF,
{
}

/// Channel packing round trip: unpacking the packed form of sixteen 11-bit
/// channel values gives every channel back unchanged.
pub proof fn lemma_pack_round_trip(v: Seq<u16>)
    requires
        v.len() == 16,
        forall|k: int| 0 <= k < 16 ==> v[k] <= 0x07FF,
    ensures
        forall|k: int| 0 <= k < 16 ==> spec_channel(spec_pack(v), k) == v[k],
{
    let p = spec_pack(v);
    let c0 = v[0];
    let c1 = v[1];
    let c2 = v[2];
    let c3 = v[3];
    let c4 = v[4];
    let c5 = v[5];
    let c6 = v[6];
    let c7 = v[7];
    let c8 = v[8];
    let c9 = v[9];
    let c10 = v[10];
    let c11 = v[11];
    let c12 = v[12];
    let c13 = v[13];
    let c14 = v[14];
    let c15 = v[15];
    let d0: u8 = p[0];
    let d1: u8 = p[1];
    let d2: u8 = p[2];
    let d3: u8 = p[3];
    let d4: u8 = p[4];
    let d5: u8 = p[5];
    let d6: u8 = p[6];
    let d7: u8 = p[7];
    let d8: u8 = p[8];
    let d9: u8 = p[9];
    let d10: u8 = p[10];
    let d11: u8 = p[11];
    let d12: u8 = p[12];
    let d13: u8 = p[13];
    let d14: u8 = p[14];
    let d15: u8 = p[15];
    let d16: u8 = p[16];
    let d17: u8 = p[17];
    let d18: u8 = p[18];
    let d19: u8 = p[19];
    let d20: u8 = p[20];
    let d21: u8 = p[21];
    assert(((d0 as u16) | (d1 as u16) << 8) & 0x07FF == c0) by (bit_vector)
        requires
            d0 == c0 as u8,
            d1 == (c0 >> 8 | c1 << 3) as u8,
            c0 <= 0x07FF,
    ;
    assert(((d1 as u16) >> 3 | (d2 as u16) << 5) & 0x07FF == c1) by (bit_vector)
        requires
            d1 == (c0 >> 8 | c1 << 3) as u8,
            d2 == (c1 >> 5 | c2 << 6) as u8,
            c0 <= 0x07FF,
            c1 <= 0x07FF,
            c2 <= 0x07FF,
    ;
    assert(((d2 as u16) >> 6 | (d3 as u16) << 2 | (d4 as u16) << 10) & 0x07FF == c2) by (bit_vector)
        requires
            d2 == (c1 >> 5 | c2 << 6) as u8,
            d3 == (c2 >> 2) as u8,
            d4 == (c2 >> 10 | c3 << 1) as u8,
            c1 <= 0x07FF,
            c2 <= 0x07FF,
            c3 <= 0x07FF,
    ;
    assert(((d4 as u16) >> 1 | (d5 as u16) << 7) & 0x07FF == c3) by (bit_vector)
        requires
            d4 == (c2 >> 10 | c3 << 1) as u8,
            d5 == (c3 >> 7 | c4 << 4) as u8,
            c2 <= 0x07FF,
            c3 <= 0x07FF,
            c4 <= 0x07FF,
    ;
    assert(((d5 as u16) >> 4 | (d6 as u16) << 4) & 0x07FF == c4) by (bit_vector)
        requires
            d5 == (c3 >> 7 | c4 << 4) as u8,
            d6 == (c4 >> 4 | c5 << 7) as u8,
            c3 <= 0x07FF,
            c4 <= 0x07FF,
            c5 <= 0x07FF,
    ;
    assert(((d6 as u16) >> 7 | (d7 as u16) << 1 | (d8 as u16) << 9) & 0x07FF == c5) by (bit_vector)
        requires
            d6 == (c4 >> 4 | c5 << 7) as u8,
            d7 == (c5 >> 1) as u8,
            d8 == (c5 >> 9 | c6 << 2) as u8,
            c4 <= 0x07FF,
            c5 <= 0x07FF,
            c6 <= 0x07FF,
    ;
    assert(((d8 as u16) >> 2 | (d9 as u16) << 6) & 0x07FF == c6) by (bit_vector)
        requires
            d8 == (c5 >> 9 | c6 << 2) as u8,
            d9 == (c6 >> 6 | c7 << 5) as u8,
            c5 <= 0x07FF,
            c6 <= 0x07FF,
            c7 <= 0x07FF,
    ;
    assert(((d9 as u16) >> 5 | (d10 as u16) << 3) & 0x07FF == c7) by (bit_vector)
        requires
            d9 == (c6 >> 6 | c7 << 5) as u8,
            d10 == (c7 >> 3) as u8,
            c6 <= 0x07FF,
            c7 <= 0x07FF,
    ;
    assert(((d11 as u16) | (d12 as u16) << 8) & 0x07FF == c8) by (bit_vector)
        requires
            d11 == c8 as u8,
            d12 == (c8 >> 8 | c9 << 3) as u8,
            c8 <= 0x07FF,
    ;
    assert(((d12 as u16) >> 3 | (d13 as u16) << 5) & 0x07FF == c9) by (bit_vector)
        requires
            d12 == (c8 >> 8 | c9 << 3) as u8,
            d13 == (c9 >> 5 | c10 << 6) as u8,
            c8 <= 0x07FF,
            c9 <= 0x07FF,
            c10 <= 0x07FF,
    ;
    assert(((d13 as u16) >> 6 | (d14 as u16) << 2 | (d15 as u16) << 10) & 0x07FF == c10) by (bit_vector)
        requires
            d13 == (c9 >> 5 | c10 << 6) as u8,
            d14 == (c10 >> 2) as u8,
            d15 == (c10 >> 10 | c11 << 1) as u8,
            c9 <= 0x07FF,
            c10 <= 0x07FF,
            c11 <= 0x07FF,
    ;
    assert(((d15 as u16) >> 1 | (d16 as u16) << 7) & 0x07FF == c11) by (bit_vector)
        requires
            d15 == (c10 >> 10 | c11 << 1) as u8,
            d16 == (c11 >> 7 | c12 << 4) as u8,
            c10 <= 0x07FF,
            c11 <= 0x07FF,
            c12 <= 0x07FF,
    ;
    assert(((d16 as u16) >> 4 | (d17 as u16) << 4) & 0x07FF == c12) by (bit_vector)
        requires
            d16 == (c11 >> 7 | c12 << 4) as u8,
            d17 == (c12 >> 4 | c13 << 7) as u8,
            c11 <= 0x07FF,
            c12 <= 0x07FF,
            c13 <= 0x07FF,
    ;
    assert(((d17 as u16) >> 7 | (d18 as u16) << 1 | (d19 as u16) << 9) & 0x07FF == c13) by (bit_vector)
        requires
            d17 == (c12 >> 4 | c13 << 7) as u8,
            d18 == (c13 >> 1) as u8,
            d19 == (c13 >> 9 | c14 << 2) as u8,
            c12 <= 0x07FF,
            c13 <= 0x07FF,
            c14 <= 0x07FF,
    ;
    assert(((d19 as u16) >> 2 | (d20 as u16) << 6) & 0x07FF == c14) by (bit_vector)
        requires
            d19 == (c13 >> 9 | c14 << 2) as u8,
            d20 == (c14 >> 6 | c15 << 5) as u8,
            c13 <= 0x07FF,
            c14 <= 0x07FF,
            c15 <= 0x07FF,
    ;
    assert(((d20 as u16) >> 5 | (d21 as u16) << 3) & 0x07FF == c15) by (bit_vector)
        requires
            d20 == (c14 >> 6 | c15 << 5) as u8,
            d21 == (c15 >> 3) as u8,
            c14 <= 0x07FF,
            c15 <= 0x07FF,
    ;
}

} // verus!
