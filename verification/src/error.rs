//! The error taxonomy of the codec. Every variant is recoverable at the
//! call site; the codec never panics on malformed input.

use vstd::prelude::*;

verus! {

/// What can go wrong while encoding, decoding, or parsing frames.
#[derive(Clone, Copy, Debug, PartialEq, Eq, Structural)]
pub enum CrsfError {
    /// A decode or encode window shorter than the payload's fixed length was
    /// supplied: a local programming error, surfaced immediately.
    BufferTooSmall,
    /// A declared frame length fell outside the protocol's bounds; the
    /// parser discards the spurious sync byte and rescans.
    InvalidLength,
    /// A candidate frame's trailing byte did not match the computed
    /// checksum; the parser discards the sync byte and rescans.
    ChecksumMismatch,
    /// A checksum-valid frame carries a type byte no known payload claims;
    /// callers may ignore such traffic rather than treat it as corruption.
    UnknownPacketType,
    /// A checksum-valid frame of a known type carries a payload its decoder
    /// rejects (here: a declared length that does not fit that type).
    MalformedPayload,
    /// The streaming buffer's fixed capacity was exceeded before a frame
    /// completed; the oldest unconsumed bytes were discarded.
    BufferOverflow,
}

} // verus!
