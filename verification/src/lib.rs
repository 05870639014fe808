//! RTMP endpoint library: live media pub/sub plane.
//!
//! The crate covers the AMF0 command value language, FLV/codec tag
//! recognizers, the GOP catch-up buffer, the RTMP handshake state machine,
//! the chunk stream codec, encoder-quirk handling, per-session state, and
//! the stream registry that routes frames from one publisher to many
//! subscribers.

pub mod aac;
pub mod amf;
pub mod amf0;
pub mod bytebuf;
pub mod chunk;
pub mod clock;
pub mod config;
pub mod dispatch;
pub mod enhanced;
pub mod error;
pub mod flv;
pub mod gop;
pub mod handshake;
pub mod h264;
pub mod message;
pub mod quirks;
pub mod registry;
pub mod session;
pub mod stats;

use vstd::prelude::*;

verus! {

/// RTMP protocol version byte carried in C0/S0.
pub const RTMP_VERSION: u8 = 3;

/// Size in bytes of the C1/S1/C2/S2 handshake packets.
pub const HANDSHAKE_SIZE: usize = 1536;

/// Largest RTMP message and chunk size: 2^24 - 1.
pub const MAX_CHUNK_SIZE: u32 = 0xFFFFFF;

/// Default outgoing chunk size suggested to peers.
pub const RECOMMENDED_CHUNK_SIZE: u32 = 4096;

/// Default window acknowledgement size.
pub const DEFAULT_WINDOW_ACK_SIZE: u32 = 2_500_000;

/// Default peer bandwidth.
pub const DEFAULT_PEER_BANDWIDTH: u32 = 2_500_000;

} // verus!
