//! Error types for the protocol layers.

use vstd::prelude::*;

verus! {

/// Errors from the AMF0 decoder.
#[derive(Debug, Clone, Copy, PartialEq, Eq, Structural)]
pub enum AmfError {
    /// The buffer ended before the value was complete.
    UnexpectedEof,
    /// A string field did not hold valid UTF-8.
    InvalidUtf8,
    /// A non-empty key was followed by a byte other than the object-end marker.
    InvalidObjectEnd,
    /// Values nested deeper than the depth cap.
    NestingTooDeep,
    /// Unknown type marker (surfaced in strict mode only).
    UnknownMarker(u8),
    /// Reference index beyond the reference table.
    InvalidReference(u16),
}

/// Errors from the media recognizers.
#[derive(Debug, Clone, Copy, PartialEq, Eq, Structural)]
pub enum MediaError {
    /// Malformed AVC packet or AVCDecoderConfigurationRecord.
    InvalidAvcPacket,
    /// Malformed AAC packet or AudioSpecificConfig.
    InvalidAacPacket,
}

/// Errors from the handshake state machine.
#[derive(Debug, Clone, Copy, PartialEq, Eq, Structural)]
pub enum HandshakeError {
    /// Peer sent a version byte below 3.
    InvalidVersion(u8),
}

/// Errors from the chunk stream codec.
#[derive(Debug, Clone, Copy, PartialEq, Eq, Structural)]
pub enum ChunkError {
    /// A basic header encoded CSID 0 or 1 incorrectly.
    InvalidBasicHeader,
    /// Declared message length exceeds the 2^24 - 1 cap.
    LengthExceedsMax,
    /// A chunk would extend a message past its declared length.
    ChunkPayloadOverrun,
    /// A format 1/2/3 chunk arrived on a CSID with no prior context.
    MissingContext,
}

} // verus!
