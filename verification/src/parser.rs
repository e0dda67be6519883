//! The streaming parser: a bounded buffer that accepts arbitrary byte
//! chunks, locates and validates frames, and yields decoded payloads or
//! per-frame errors, resynchronizing after corruption.
//!
//! Its whole behaviour is the spec function [`parse_step`]: one call to
//! [`PacketReader::next`] performs exactly one step of it on the buffered
//! bytes.

use vstd::prelude::*;
use vstd::slice::slice_subrange;
use crate::crc8::{crc8, Crc8};
use crate::error::CrsfError;
use crate::payload::{device_info, device_ping, link_statistics, parameter_read, rc_channels_packed};
use crate::payload::device_info::{DeviceInfo, DeviceInfoView};
use crate::payload::device_ping::DevicePing;
use crate::payload::link_statistics::LinkStatistics;
use crate::payload::parameter_read::ParameterRead;
use crate::payload::rc_channels_packed::RcChannelsPacked;
use crate::payload::AnyPayload;
use crate::typ::PacketType;
use crate::{CRSF_MAX_LEN, CRSF_SYNC_BYTE};

verus! {

/// One decoded frame, as the parser yields it: a sum over the known
/// payload kinds, so dispatch on the type tag stays exhaustive.
pub enum Packet {
    LinkStatistics(LinkStatistics),
    RcChannelsPacked(RcChannelsPacked),
    DevicePing(DevicePing),
    DeviceInfo(DeviceInfo),
    ParameterRead(ParameterRead),
}

/// The mathematical value of a [`Packet`].
pub ghost enum PacketView {
    LinkStatistics(LinkStatistics),
    RcChannelsPacked(Seq<u16>),
    DevicePing(DevicePing),
    DeviceInfo(DeviceInfoView),
    ParameterRead(ParameterRead),
}

impl View for Packet {
    type V = PacketView;

    open spec fn view(&self) -> PacketView {
        match self {
            Packet::LinkStatistics(p) => PacketView::LinkStatistics(p@),
            Packet::RcChannelsPacked(p) => PacketView::RcChannelsPacked(p@),
            Packet::DevicePing(p) => PacketView::DevicePing(p@),
            Packet::DeviceInfo(p) => PacketView::DeviceInfo(p@),
            Packet::ParameterRead(p) => PacketView::ParameterRead(p@),
        }
    }
}

/// A declared frame length the protocol allows: at least the type and
/// checksum bytes, at most the maximum frame size less sync and length.
pub open spec fn valid_frame_length(l: u8) -> bool {
    2 <= l && l as int <= CRSF_MAX_LEN - 2
}

/// The fixed payload length of a type tag.
pub open spec fn spec_payload_len(t: PacketType) -> int {
    match t {
        PacketType::LinkStatistics => <LinkStatistics as AnyPayload>::spec_len() as int,
        PacketType::RcChannelsPacked => <RcChannelsPacked as AnyPayload>::spec_len() as int,
        PacketType::DevicePing => <DevicePing as AnyPayload>::spec_len() as int,
        PacketType::DeviceInfo => <DeviceInfo as AnyPayload>::spec_len() as int,
        PacketType::ParameterRead => <ParameterRead as AnyPayload>::spec_len() as int,
    }
}

/// The payload value a type tag's decoder reads out of a window.
pub open spec fn spec_decode_payload(t: PacketType, s: Seq<u8>) -> PacketView {
    match t {
        PacketType::LinkStatistics => PacketView::LinkStatistics(
            <LinkStatistics as AnyPayload>::spec_decoded(s),
        ),
        PacketType::RcChannelsPacked => PacketView::RcChannelsPacked(
            <RcChannelsPacked as AnyPayload>::spec_decoded(s),
        ),
        PacketType::DevicePing => PacketView::DevicePing(
            <DevicePing as AnyPayload>::spec_decoded(s),
        ),
        PacketType::DeviceInfo => PacketView::DeviceInfo(
            <DeviceInfo as AnyPayload>::spec_decoded(s),
        ),
        PacketType::ParameterRead => PacketView::ParameterRead(
            <ParameterRead as AnyPayload>::spec_decoded(s),
        ),
    }
}

/// Whether a whole candidate frame's trailing byte matches the checksum of
/// its covered range, the type byte through the end of the payload.
pub open spec fn spec_checksum_ok(f: Seq<u8>) -> bool {
    crc8(f.subrange(2, f.len() - 1)) == f[f.len() - 1]
}

/// What a checksum-valid frame decodes to: the payload of its type tag, or
/// the error naming why it cannot be decoded. The tag must be known and
/// the declared length must fit the tag's header and payload sizes.
pub open spec fn spec_decode_frame(f: Seq<u8>) -> Result<PacketView, CrsfError> {
    match PacketType::spec_from_u8(f[2]) {
        None => Err(CrsfError::UnknownPacketType),
        Some(t) => {
            let off: int = if t.spec_is_extended() {
                5
            } else {
                3
            };
            if f[1] as int == off - 2 + spec_payload_len(t) + 1 {
                Ok(spec_decode_payload(t, f.subrange(off, off + spec_payload_len(t))))
            } else {
                Err(CrsfError::MalformedPayload)
            }
        },
    }
}

/// One parsing step over buffered bytes: what remains buffered afterwards,
/// and the outcome — a decoded payload, a recoverable per-frame error, or
/// nothing when no complete frame is buffered yet. Bytes before the first
/// sync byte are noise and are discarded; a sync byte followed by an
/// impossible length, or heading a frame whose checksum fails, is spurious
/// and is discarded alone, so parsing resumes at the very next byte.
pub open spec fn parse_step(s: Seq<u8>) -> (Seq<u8>, Option<Result<PacketView, CrsfError>>)
    decreases s.len(),
{
    if s.len() == 0 {
        (s, None)
    } else if s[0] != CRSF_SYNC_BYTE {
        parse_step(s.skip(1))
    } else if s.len() < 2 {
        (s, None)
    } else if !valid_frame_length(s[1]) {
        (s.skip(1), Some(Err(CrsfError::InvalidLength)))
    } else if s.len() < 2 + s[1] as int {
        (s, None)
    } else {
        let f = s.take(2 + s[1] as int);
        if !spec_checksum_ok(f) {
            (s.skip(1), Some(Err(CrsfError::ChecksumMismatch)))
        } else {
            (s.skip(2 + s[1] as int), Some(spec_decode_frame(f)))
        }
    }
}

/// The abstraction of one [`PacketReader::next`] outcome.
pub open spec fn spec_outcome(r: Option<Result<Packet, CrsfError>>) -> Option<
    Result<PacketView, CrsfError>,
> {
    match r {
        None => None,
        Some(Ok(p)) => Some(Ok(p@)),
        Some(Err(e)) => Some(Err(e)),
    }
}

/// Drop the first `n` bytes of a vector.
fn drop_front(v: &mut Vec<u8>, n: usize)
    requires
        n <= old(v)@.len(),
    ensures
        final(v)@ == old(v)@.skip(n as int),
{
    let mut i: usize = 0;
    while i < n
        invariant
            i <= n,
            n <= old(v)@.len(),
            v@ == old(v)@.skip(i as int),
        decreases n - i,
    {
        let ghost prev = v@;
        v.remove(0);
        proof {
            assert(prev.remove(0) =~= old(v)@.skip(i + 1));
        }
        i = i + 1;
    }
}

/// How many of the oldest buffered bytes an over-full buffer sheds.
pub open spec fn spec_spill(n: int) -> int {
    if n > CRSF_MAX_LEN {
        n - CRSF_MAX_LEN
    } else {
        0
    }
}

/// The streaming parser: a bounded buffer of pending bytes. `push` feeds
/// it newly received chunks; `next` drains one decoded frame, one
/// recoverable error, or reports that no complete frame is buffered.
pub struct PacketReader {
    buf: Vec<u8>,
}

impl View for PacketReader {
    type V = Seq<u8>;

    /// The pending buffered bytes, oldest first.
    closed spec fn view(&self) -> Seq<u8> {
        self.buf@
    }
}

impl PacketReader {
    /// The buffer never outgrows the parser's fixed capacity.
    pub closed spec fn wf(&self) -> bool {
        self.buf@.len() <= CRSF_MAX_LEN
    }

    /// A parser with an empty buffer.
    pub fn new() -> (r: Self)
        ensures
            r.wf(),
            r@ == Seq::<u8>::empty(),
    {
        PacketReader { buf: Vec::new() }
    }

    /// Feed newly received bytes. The chunk is appended to the buffer; if
    /// that would exceed the fixed capacity, the oldest unconsumed bytes
    /// are discarded to make room and the overflow is signalled.
    pub fn push(&mut self, data: &[u8]) -> (r: Result<(), CrsfError>)
        requires
            old(self).wf(),
        ensures
            final(self).wf(),
            final(self)@ == (old(self)@ + data@).skip(
                spec_spill(old(self)@.len() + data@.len() as int),
            ),
            r is Ok <==> old(self)@.len() + data@.len() <= CRSF_MAX_LEN,
            r matches Err(e) ==> e == CrsfError::BufferOverflow,
    {
        let mut i: usize = 0;
        let mut overflowed: bool = false;
        while i < data.len()
            invariant
                i <= data@.len(),
                self.buf@.len() <= CRSF_MAX_LEN,
                self.buf@ == (old(self)@ + data@.take(i as int)).skip(
                    spec_spill(old(self)@.len() + i as int),
                ),
                overflowed <==> old(self)@.len() + i > CRSF_MAX_LEN,
            decreases data@.len() - i,
        {
            let ghost cat = old(self)@ + data@.take(i as int);
            let ghost cut = spec_spill(old(self)@.len() + i as int);
            if self.buf.len() == CRSF_MAX_LEN {
                self.buf.remove(0);
                overflowed = true;
                proof {
                    assert(cat.skip(cut).remove(0) =~= cat.skip(cut + 1));
                }
            }
            let b = data[i];
            self.buf.push(b);
            proof {
                let cat2 = old(self)@ + data@.take(i + 1);
                let cut2 = spec_spill(old(self)@.len() + i + 1);
                assert(data@.take(i + 1) =~= data@.take(i as int).push(data@[i as int]));
                if old(self)@.len() + i >= CRSF_MAX_LEN {
                    assert(cat.skip(cut + 1).push(data@[i as int]) =~= cat2.skip(cut2));
                } else {
                    assert(cat.skip(cut).push(data@[i as int]) =~= cat2.skip(cut2));
                }
            }
            i = i + 1;
        }
        proof {
            assert(data@.take(data@.len() as int) =~= data@);
        }
        if overflowed {
            Err(CrsfError::BufferOverflow)
        } else {
            Ok(())
        }
    }

    /// Drain one outcome from the buffered bytes: one step of
    /// [`parse_step`]. Returns the decoded payload of the next valid
    /// frame, the error of the next corrupted or undecodable candidate,
    /// or nothing when no complete frame is buffered yet. Frames come out
    /// in the exact order their sync bytes occur in the input, and no
    /// frame is yielded twice.
    pub fn next(&mut self) -> (r: Option<Result<Packet, CrsfError>>)
        requires
            old(self).wf(),
        ensures
            final(self).wf(),
            final(self)@ == parse_step(old(self)@).0,
            spec_outcome(r) == parse_step(old(self)@).1,
    {
        while self.buf.len() > 0 && self.buf[0] != CRSF_SYNC_BYTE
            invariant
                self.buf@.len() <= CRSF_MAX_LEN,
                parse_step(self.buf@) == parse_step(old(self)@),
            decreases self.buf@.len(),
        {
            let ghost prev = self.buf@;
            self.buf.remove(0);
            proof {
                assert(prev.remove(0) =~= prev.skip(1));
            }
        }
        let ghost s = self.buf@;
        if self.buf.len() == 0 {
            return None;
        }
        if self.buf.len() < 2 {
            return None;
        }
        let l: u8 = self.buf[1];
        if l < 2 || (l as usize) > CRSF_MAX_LEN - 2 {
            self.buf.remove(0);
            proof {
                assert(s.remove(0) =~= s.skip(1));
            }
            return Some(Err(CrsfError::InvalidLength));
        }
        let flen: usize = 2 + (l as usize);
        if self.buf.len() < flen {
            return None;
        }
        let ghost f = s.take(flen as int);
        let mut crc = Crc8::new();
        let covered = slice_subrange(self.buf.as_slice(), 2, flen - 1);
        crc.compute(covered);
        proof {
            assert(covered@ =~= f.subrange(2, f.len() - 1));
        }
        let cs = crc.get_checksum();
        let trailing: u8 = self.buf[flen - 1];
        if cs != trailing {
            self.buf.remove(0);
            proof {
                assert(s.remove(0) =~= s.skip(1));
            }
            return Some(Err(CrsfError::ChecksumMismatch));
        }
        let tb: u8 = self.buf[2];
        let res: Result<Packet, CrsfError> = match PacketType::from_u8(tb) {
            None => Err(CrsfError::UnknownPacketType),
            Some(PacketType::LinkStatistics) => {
                if (l as usize) == 2 + link_statistics::LEN {
                    let ps = slice_subrange(self.buf.as_slice(), 3, flen - 1);
                    proof {
                        assert(ps@ =~= f.subrange(3, f.len() - 1));
                        assert(ps@.take(link_statistics::LEN as int) =~= ps@);
                    }
                    match LinkStatistics::decode(ps) {
                        Ok(p) => Ok(Packet::LinkStatistics(p)),
                        Err(_) => unreached(),
                    }
                } else {
                    Err(CrsfError::MalformedPayload)
                }
            },
            Some(PacketType::RcChannelsPacked) => {
                if (l as usize) == 2 + rc_channels_packed::LEN {
                    let ps = slice_subrange(self.buf.as_slice(), 3, flen - 1);
                    proof {
                        assert(ps@ =~= f.subrange(3, f.len() - 1));
                        assert(ps@.take(rc_channels_packed::LEN as int) =~= ps@);
                    }
                    match RcChannelsPacked::decode(ps) {
                        Ok(p) => Ok(Packet::RcChannelsPacked(p)),
                        Err(_) => unreached(),
                    }
                } else {
                    Err(CrsfError::MalformedPayload)
                }
            },
            Some(PacketType::DevicePing) => {
                if (l as usize) == 4 + device_ping::LEN {
                    let ps = slice_subrange(self.buf.as_slice(), 5, flen - 1);
                    proof {
                        assert(ps@ =~= f.subrange(5, f.len() - 1));
                        assert(ps@.take(device_ping::LEN as int) =~= ps@);
                    }
                    match DevicePing::decode(ps) {
                        Ok(p) => Ok(Packet::DevicePing(p)),
                        Err(_) => unreached(),
                    }
                } else {
                    Err(CrsfError::MalformedPayload)
                }
            },
            Some(PacketType::DeviceInfo) => {
                if (l as usize) == 4 + device_info::LEN {
                    let ps = slice_subrange(self.buf.as_slice(), 5, flen - 1);
                    proof {
                        assert(ps@ =~= f.subrange(5, f.len() - 1));
                        assert(ps@.take(device_info::LEN as int) =~= ps@);
                    }
                    match DeviceInfo::decode(ps) {
                        Ok(p) => Ok(Packet::DeviceInfo(p)),
                        Err(_) => unreached(),
                    }
                } else {
                    Err(CrsfError::MalformedPayload)
                }
            },
            Some(PacketType::ParameterRead) => {
                if (l as usize) == 4 + parameter_read::LEN {
                    let ps = slice_subrange(self.buf.as_slice(), 5, flen - 1);
                    proof {
                        assert(ps@ =~= f.subrange(5, f.len() - 1));
                        assert(ps@.take(parameter_read::LEN as int) =~= ps@);
                    }
                    match ParameterRead::decode(ps) {
                        Ok(p) => Ok(Packet::ParameterRead(p)),
                        Err(_) => unreached(),
                    }
                } else {
                    Err(CrsfError::MalformedPayload)
                }
            },
        };
        proof {
            assert(spec_outcome(Some(res)) == Some(spec_decode_frame(f)));
        }
        drop_front(&mut self.buf, flen);
        Some(res)
    }
}

/// Resynchronization: a stream of one garbage byte, then a sync byte with
/// an impossible declared length, then one valid frame, yields exactly the
/// spurious candidate's recoverable error, then the one valid frame, then
/// nothing — the corrupted candidate never stalls the parser.
pub proof fn lemma_resynchronization(g: u8, bl: u8, fr: Seq<u8>)
    requires
        g != CRSF_SYNC_BYTE,
        bl != CRSF_SYNC_BYTE,
        !valid_frame_length(bl),
        fr.len() >= 2,
        fr[0] == CRSF_SYNC_BYTE,
        valid_frame_length(fr[1]),
        fr.len() == 2 + fr[1] as int,
        spec_checksum_ok(fr),
    ensures
        ({
            let s = seq![g, CRSF_SYNC_BYTE, bl] + fr;
            let step1 = parse_step(s);
            let step2 = parse_step(step1.0);
            let step3 = parse_step(step2.0);
            step1.1 == Some(Err::<PacketView, CrsfError>(CrsfError::InvalidLength))
                && step2.1 == Some(spec_decode_frame(fr)) && step3.1 == None::<
                Result<PacketView, CrsfError>,
            >
        }),
{
    let s = seq![g, CRSF_SYNC_BYTE, bl] + fr;
    let s1 = seq![CRSF_SYNC_BYTE, bl] + fr;
    assert(s.skip(1) =~= s1);
    assert(s[0] == g);
    assert(parse_step(s) == parse_step(s1));
    let s2 = seq![bl] + fr;
    assert(s1.skip(1) =~= s2);
    assert(s1[0] == CRSF_SYNC_BYTE && s1[1] == bl && s1.len() >= 2);
    assert(parse_step(s1) == (s2, Some(Err::<PacketView, CrsfError>(CrsfError::InvalidLength))));
    assert(s2.skip(1) =~= fr);
    assert(s2[0] == bl);
    assert(parse_step(s2) == parse_step(fr));
    assert(fr.take(2 + fr[1] as int) =~= fr);
    assert(spec_checksum_ok(fr.take(2 + fr[1] as int)));
    assert(fr.skip(2 + fr[1] as int) =~= Seq::<u8>::empty());
    assert(parse_step(fr) == (Seq::<u8>::empty(), Some(spec_decode_frame(fr.take(2 + fr[1] as int)))));
    assert(spec_decode_frame(fr.take(2 + fr[1] as int)) == spec_decode_frame(fr));
    assert(parse_step(Seq::<u8>::empty()).1 == None::<Result<PacketView, CrsfError>>);
}

/// Idempotent draining: when a step yields nothing, stepping again on what
/// it left buffered still yields nothing and leaves the buffer as it is —
/// `next` can be called indefinitely once the buffer is drained.
pub proof fn lemma_drain_idempotent(s: Seq<u8>)
    ensures
        parse_step(s).1 is None ==> parse_step(parse_step(s).0) == parse_step(s),
    decreases s.len(),
{
    if s.len() > 0 && s[0] != CRSF_SYNC_BYTE {
        lemma_drain_idempotent(s.skip(1));
    }
}

/// Partial delivery: buffered bytes do not remember chunk boundaries.
/// `push` appends each chunk to what is buffered, so feeding a byte
/// sequence split at any point leaves the same buffer — and therefore the
/// same parsed frames — as feeding it whole.
pub proof fn lemma_push_chunking(s: Seq<u8>, a: Seq<u8>, b: Seq<u8>)
    ensures
        (s + a) + b == s + (a + b),
{
    assert((s + a) + b =~= s + (a + b));
}

/// End to end: the simple frame constructed around any sixteen 11-bit
/// channel values parses back, in one step, to exactly those channel
/// values, consuming the whole frame.
pub proof fn lemma_rc_frame_parses_back(v: Seq<u16>)
    requires
        v.len() == 16,
        forall|k: int| 0 <= k < 16 ==> v[k] <= 0x07FF,
    ensures
        ({
            let f = crate::raw_packet::simple_frame(
                CRSF_SYNC_BYTE,
                PacketType::RcChannelsPacked.spec_to_u8(),
                rc_channels_packed::spec_pack(v),
            );
            parse_step(f) == (Seq::<u8>::empty(), Some(Ok::<PacketView, CrsfError>(
                PacketView::RcChannelsPacked(v),
            )))
        }),
{
    let p = rc_channels_packed::spec_pack(v);
    let t = PacketType::RcChannelsPacked.spec_to_u8();
    let f = crate::raw_packet::simple_frame(CRSF_SYNC_BYTE, t, p);
    assert(f.len() == 26);
    assert(f[0] == CRSF_SYNC_BYTE);
    assert(f[1] == 24);
    assert(f[2] == t);
    assert(f.take(2 + f[1] as int) =~= f);
    assert(f.subrange(2, f.len() - 1) =~= seq![t] + p);
    assert(f[f.len() - 1] == crc8(seq![t] + p));
    assert(spec_checksum_ok(f));
    assert(f.subrange(3, 25) =~= p);
    <RcChannelsPacked as AnyPayload>::lemma_round_trip(v);
    assert(f.skip(26) =~= Seq::<u8>::empty());
    assert(parse_step(Seq::<u8>::empty()).1 == None::<Result<PacketView, CrsfError>>);
}

/// Frame validity: corrupting any single byte of a valid buffered frame in
/// the checksum's covered range — the type byte, any address byte, or any
/// payload byte — makes the parser reject the frame with a checksum
/// mismatch and discard only its sync byte. (A corrupted sync byte makes
/// the bytes noise instead, and a corrupted length byte moves the covered
/// range itself, so neither is covered here.)
pub proof fn lemma_corruption_detected(fr: Seq<u8>, i: int, b: u8)
    requires
        fr.len() >= 2,
        fr[0] == CRSF_SYNC_BYTE,
        valid_frame_length(fr[1]),
        fr.len() == 2 + fr[1] as int,
        spec_checksum_ok(fr),
        2 <= i < fr.len() - 1,
        b != fr[i],
    ensures
        ({
            let s = fr.update(i, b);
            parse_step(s) == (s.skip(1), Some(Err::<PacketView, CrsfError>(
                CrsfError::ChecksumMismatch,
            )))
        }),
{
    let s = fr.update(i, b);
    assert(s.take(2 + s[1] as int) =~= s);
    let covered = fr.subrange(2, fr.len() - 1);
    let corrupted = s.subrange(2, s.len() - 1);
    crate::crc8::lemma_crc8_single_byte_change(covered, corrupted, i - 2);
    assert(s[s.len() - 1] == fr[fr.len() - 1]);
    assert(!spec_checksum_ok(s));
}

} // verus!
