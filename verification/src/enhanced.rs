//! Enhanced RTMP (E-RTMP) capability types.
//!
//! Capability flags and structures used for E-RTMP capability negotiation
//! during the connect handshake: the capsEx bitmask, per-codec FOURCC
//! capability maps, and the negotiated intersection of peer and local
//! capabilities.

use vstd::prelude::*;

verus! {

/// Video codec FOURCC identifiers used in E-RTMP info maps.
#[derive(Debug, Clone, Copy, PartialEq, Eq, Structural)]
pub enum VideoFourCc {
    Avc,
    Hevc,
    Av1,
    Vp8,
    Vp9,
}

/// Audio codec FOURCC identifiers used in E-RTMP info maps.
#[derive(Debug, Clone, Copy, PartialEq, Eq, Structural)]
pub enum AudioFourCc {
    Aac,
    Opus,
    Mp3,
    Flac,
}

/// Extended capabilities bitmask (capsEx field in the connect command).
#[derive(Debug, Clone, Copy, PartialEq, Eq, Structural)]
pub struct CapsEx(pub u32);

impl CapsEx {
    /// Support for NetConnection.Connect.ReconnectRequest
    pub const RECONNECT: u32 = 0x01;

    /// Support for multitrack audio/video
    pub const MULTITRACK: u32 = 0x02;

    /// Support for ModEx signal parsing
    pub const MODEX: u32 = 0x04;

    /// Support for nanosecond timestamp offsets
    pub const TIMESTAMP_NANO_OFFSET: u32 = 0x08;

    /// Create empty capabilities.
    pub fn empty() -> (r: Self)
        ensures
            r.0 == 0,
    {
        CapsEx(0)
    }

    /// Create from a raw u32 value.
    pub fn from_bits(bits: u32) -> (r: Self)
        ensures
            r.0 == bits,
    {
        CapsEx(bits)
    }

    /// Get the raw bits.
    pub fn bits(&self) -> (r: u32)
        ensures
            r == self.0,
    {
        self.0
    }

    /// Check if a capability is set.
    pub fn contains(&self, flag: u32) -> (r: bool)
        ensures
            r == ((self.0 & flag) != 0),
    {
        (self.0 & flag) != 0
    }

    /// Set a capability flag.
    pub fn insert(&mut self, flag: u32)
        ensures
            final(self).0 == (old(self).0 | flag),
    {
        self.0 = self.0 | flag;
    }

    /// Remove a capability flag.
    pub fn remove(&mut self, flag: u32)
        ensures
            final(self).0 == (old(self).0 & !flag),
    {
        self.0 = self.0 & !flag;
    }

    /// Compute the intersection of two capability sets.
    pub fn intersection(&self, other: &Self) -> (r: Self)
        ensures
            r.0 == (self.0 & other.0),
    {
        CapsEx(self.0 & other.0)
    }

    /// Check if reconnect is supported.
    pub fn supports_reconnect(&self) -> (r: bool)
        ensures
            r == ((self.0 & 0x01u32) != 0),
    {
        self.contains(Self::RECONNECT)
    }

    /// Check if multitrack is supported.
    pub fn supports_multitrack(&self) -> (r: bool)
        ensures
            r == ((self.0 & 0x02u32) != 0),
    {
        self.contains(Self::MULTITRACK)
    }

    /// Check if ModEx signal parsing is supported.
    pub fn supports_modex(&self) -> (r: bool)
        ensures
            r == ((self.0 & 0x04u32) != 0),
    {
        self.contains(Self::MODEX)
    }

    /// Check if nanosecond timestamp offsets are supported.
    pub fn supports_timestamp_nano_offset(&self) -> (r: bool)
        ensures
            r == ((self.0 & 0x08u32) != 0),
    {
        self.contains(Self::TIMESTAMP_NANO_OFFSET)
    }
}

impl Default for CapsEx {
    /// Empty capabilities.
    fn default() -> (r: Self)
        ensures
            r.0 == 0,
    {
        CapsEx(0)
    }
}

/// Codec capability flags for FOURCC info maps.
#[derive(Debug, Clone, Copy, PartialEq, Eq, Structural)]
pub struct FourCcCapability(pub u32);

impl FourCcCapability {
    /// Can decode this codec
    pub const CAN_DECODE: u32 = 0x01;

    /// Can encode this codec
    pub const CAN_ENCODE: u32 = 0x02;

    /// Can forward/relay this codec without transcoding
    pub const CAN_FORWARD: u32 = 0x04;

    /// Create an empty capability.
    pub fn empty() -> (r: Self)
        ensures
            r.0 == 0,
    {
        FourCcCapability(0)
    }

    /// Create from a raw u32 value.
    pub fn from_bits(bits: u32) -> (r: Self)
        ensures
            r.0 == bits,
    {
        FourCcCapability(bits)
    }

    /// Get the raw bits.
    pub fn bits(&self) -> (r: u32)
        ensures
            r == self.0,
    {
        self.0
    }

    /// Capability indicating decode support.
    pub fn decode() -> (r: Self)
        ensures
            r.0 == 0x01,
    {
        FourCcCapability(0x01)
    }

    /// Capability indicating encode support.
    pub fn encode() -> (r: Self)
        ensures
            r.0 == 0x02,
    {
        FourCcCapability(0x02)
    }

    /// Capability indicating forward/relay support.
    pub fn forward() -> (r: Self)
        ensures
            r.0 == 0x04,
    {
        FourCcCapability(0x04)
    }

    /// Capability indicating full support (decode + encode + forward).
    pub fn full() -> (r: Self)
        ensures
            r.0 == 0x07,
    {
        FourCcCapability(0x07)
    }

    /// Check if decode is supported.
    pub fn can_decode(&self) -> (r: bool)
        ensures
            r == ((self.0 & 0x01u32) != 0),
    {
        (self.0 & Self::CAN_DECODE) != 0
    }

    /// Check if encode is supported.
    pub fn can_encode(&self) -> (r: bool)
        ensures
            r == ((self.0 & 0x02u32) != 0),
    {
        (self.0 & Self::CAN_ENCODE) != 0
    }

    /// Check if forward is supported.
    pub fn can_forward(&self) -> (r: bool)
        ensures
            r == ((self.0 & 0x04u32) != 0),
    {
        (self.0 & Self::CAN_FORWARD) != 0
    }
}

impl Default for FourCcCapability {
    /// An empty capability.
    fn default() -> (r: Self)
        ensures
            r.0 == 0,
    {
        FourCcCapability(0)
    }
}

/// Video function flags (videoFunction field in the connect command).
#[derive(Debug, Clone, Copy, PartialEq, Eq, Structural)]
pub struct VideoFunctionFlags(pub u32);

impl VideoFunctionFlags {
    /// Client can perform frame-accurate seeks
    pub const CLIENT_SEEK: u32 = 1;

    /// Create empty flags.
    pub fn empty() -> (r: Self)
        ensures
            r.0 == 0,
    {
        VideoFunctionFlags(0)
    }

    /// Create from a raw u32 value.
    pub fn from_bits(bits: u32) -> (r: Self)
        ensures
            r.0 == bits,
    {
        VideoFunctionFlags(bits)
    }

    /// Get the raw bits.
    pub fn bits(&self) -> (r: u32)
        ensures
            r == self.0,
    {
        self.0
    }

    /// Check if client seek is supported.
    pub fn supports_client_seek(&self) -> (r: bool)
        ensures
            r == ((self.0 & 1u32) != 0),
    {
        (self.0 & Self::CLIENT_SEEK) != 0
    }
}

impl Default for VideoFunctionFlags {
    /// Empty flags.
    fn default() -> (r: Self)
        ensures
            r.0 == 0,
    {
        VideoFunctionFlags(0)
    }
}

/// The capability for key `k` in the association list `m`: the first
/// entry that names it, if any.
pub open spec fn assoc_cap<K>(m: Seq<(K, FourCcCapability)>, k: K) -> Option<FourCcCapability>
    decreases m.len(),
{
    if m.len() == 0 {
        None
    } else if m[0].0 == k {
        Some(m[0].1)
    } else {
        assoc_cap(m.skip(1), k)
    }
}

/// Whether the association list names each key at most once.
pub open spec fn caps_unique<K>(m: Seq<(K, FourCcCapability)>) -> bool {
    forall|i: int, j: int| 0 <= i < j < m.len() ==> (#[trigger] m[i]).0 != (#[trigger] m[j]).0
}

/// A key is absent exactly when its lookup fails.
proof fn lemma_assoc_absent<K>(m: Seq<(K, FourCcCapability)>, k: K)
    ensures
        assoc_cap(m, k) is None <==> forall|i: int| 0 <= i < m.len() ==> (#[trigger] m[i]).0 != k,
    decreases m.len(),
{
    if m.len() > 0 {
        lemma_assoc_absent(m.skip(1), k);
        assert forall|i: int| 1 <= i < m.len() implies m.skip(1)[i - 1] == m[i] by {}
    }
}

/// Appending an entry changes only the lookup of its own key, and only
/// when that key was absent.
proof fn lemma_assoc_push<K>(m: Seq<(K, FourCcCapability)>, p: (K, FourCcCapability), k: K)
    ensures
        assoc_cap(m.push(p), k) == if assoc_cap(m, k) is Some {
            assoc_cap(m, k)
        } else if p.0 == k {
            Some(p.1)
        } else {
            None::<FourCcCapability>
        },
    decreases m.len(),
{
    if m.len() == 0 {
        assert(m.push(p)[0] == p);
        assert(m.push(p).skip(1) =~= Seq::<(K, FourCcCapability)>::empty());
        assert(assoc_cap(Seq::<(K, FourCcCapability)>::empty(), k) is None);
        assert(assoc_cap(m, k) is None);
    } else {
        assert(m.push(p)[0] == m[0]);
        assert(m.push(p).skip(1) =~= m.skip(1).push(p));
        lemma_assoc_push(m.skip(1), p, k);
    }
}

/// The first `i + 1` entries look up like the first `i`, falling back to
/// entry `i` itself.
proof fn lemma_assoc_take_step<K>(m: Seq<(K, FourCcCapability)>, i: int, k: K)
    requires
        0 <= i < m.len(),
    ensures
        assoc_cap(m.take(i + 1), k) == if assoc_cap(m.take(i), k) is Some {
            assoc_cap(m.take(i), k)
        } else if m[i].0 == k {
            Some(m[i].1)
        } else {
            None::<FourCcCapability>
        },
{
    assert(m.take(i + 1) =~= m.take(i).push(m[i]));
    lemma_assoc_push(m.take(i), m[i], k);
}

fn video_cap_lookup(m: &Vec<(VideoFourCc, FourCcCapability)>, codec: VideoFourCc) -> (r: Option<
    FourCcCapability,
>)
    ensures
        r == assoc_cap(m@, codec),
{
    proof {
        assert(m@.skip(0int) =~= m@);
    }
    let mut i: usize = 0;
    while i < m.len()
        invariant
            i <= m.len(),
            assoc_cap(m@, codec) == assoc_cap(m@.skip(i as int), codec),
        decreases m.len() - i,
    {
        proof {
            assert(m@.skip(i as int)[0] == m@[i as int]);
            assert(m@.skip(i as int).skip(1) =~= m@.skip(i + 1));
        }
        if m[i].0 == codec {
            return Some(m[i].1);
        }
        i = i + 1;
    }
    None
}

fn audio_cap_lookup(m: &Vec<(AudioFourCc, FourCcCapability)>, codec: AudioFourCc) -> (r: Option<
    FourCcCapability,
>)
    ensures
        r == assoc_cap(m@, codec),
{
    proof {
        assert(m@.skip(0int) =~= m@);
    }
    let mut i: usize = 0;
    while i < m.len()
        invariant
            i <= m.len(),
            assoc_cap(m@, codec) == assoc_cap(m@.skip(i as int), codec),
        decreases m.len() - i,
    {
        proof {
            assert(m@.skip(i as int)[0] == m@[i as int]);
            assert(m@.skip(i as int).skip(1) =~= m@.skip(i + 1));
        }
        if m[i].0 == codec {
            return Some(m[i].1);
        }
        i = i + 1;
    }
    None
}

/// The intersection of two capability entries: keeps the common bits if
/// both sides carry the codec and any bit survives.
pub open spec fn cap_meet(a: Option<FourCcCapability>, b: Option<FourCcCapability>) -> Option<
    FourCcCapability,
> {
    match (a, b) {
        (Some(x), Some(y)) => if (x.0 & y.0) != 0 {
            Some(FourCcCapability((x.0 & y.0) as u32))
        } else {
            None
        },
        _ => None,
    }
}

/// Negotiated E-RTMP capabilities for a session.
#[derive(Debug, Clone)]
pub struct EnhancedCapabilities {
    /// Whether E-RTMP mode is enabled for this session.
    pub enabled: bool,
    /// Extended capabilities flags (intersection of client and server).
    pub caps_ex: CapsEx,
    /// Supported video codecs with their capabilities.
    pub video_codecs: Vec<(VideoFourCc, FourCcCapability)>,
    /// Supported audio codecs with their capabilities.
    pub audio_codecs: Vec<(AudioFourCc, FourCcCapability)>,
    /// Video function flags.
    pub video_function: VideoFunctionFlags,
}

impl EnhancedCapabilities {
    /// Each codec appears at most once in the two info maps.
    pub open spec fn wf(&self) -> bool {
        caps_unique(self.video_codecs@) && caps_unique(self.audio_codecs@)
    }

    /// New empty capabilities (E-RTMP disabled).
    pub fn new() -> (r: Self)
        ensures
            !r.enabled,
            r.caps_ex.0 == 0,
            r.video_codecs@.len() == 0,
            r.audio_codecs@.len() == 0,
            r.video_function.0 == 0,
            r.wf(),
    {
        EnhancedCapabilities {
            enabled: false,
            caps_ex: CapsEx(0),
            video_codecs: Vec::new(),
            audio_codecs: Vec::new(),
            video_function: VideoFunctionFlags(0),
        }
    }

    /// Capabilities with E-RTMP enabled and default codec support:
    /// forward-only relay support for AVC, HEVC, AV1 and VP9 video and
    /// AAC and Opus audio, with the ModEx flag set.
    pub fn with_defaults() -> (r: Self)
        ensures
            r.enabled,
            r.caps_ex.0 == 0x04,
            r.video_codecs@ =~= seq![
                (VideoFourCc::Avc, FourCcCapability(0x04)),
                (VideoFourCc::Hevc, FourCcCapability(0x04)),
                (VideoFourCc::Av1, FourCcCapability(0x04)),
                (VideoFourCc::Vp9, FourCcCapability(0x04)),
            ],
            r.audio_codecs@ =~= seq![
                (AudioFourCc::Aac, FourCcCapability(0x04)),
                (AudioFourCc::Opus, FourCcCapability(0x04)),
            ],
            r.video_function.0 == 0,
            r.wf(),
    {
        let mut video_codecs: Vec<(VideoFourCc, FourCcCapability)> = Vec::new();
        video_codecs.push((VideoFourCc::Avc, FourCcCapability::forward()));
        video_codecs.push((VideoFourCc::Hevc, FourCcCapability::forward()));
        video_codecs.push((VideoFourCc::Av1, FourCcCapability::forward()));
        video_codecs.push((VideoFourCc::Vp9, FourCcCapability::forward()));

        let mut audio_codecs: Vec<(AudioFourCc, FourCcCapability)> = Vec::new();
        audio_codecs.push((AudioFourCc::Aac, FourCcCapability::forward()));
        audio_codecs.push((AudioFourCc::Opus, FourCcCapability::forward()));

        EnhancedCapabilities {
            enabled: true,
            caps_ex: CapsEx::from_bits(CapsEx::MODEX),
            video_codecs,
            audio_codecs,
            video_function: VideoFunctionFlags::empty(),
        }
    }

    /// Check if a video codec is supported.
    pub fn supports_video_codec(&self, codec: VideoFourCc) -> (r: bool)
        ensures
            r == (assoc_cap(self.video_codecs@, codec) is Some),
    {
        video_cap_lookup(&self.video_codecs, codec).is_some()
    }

    /// Check if an audio codec is supported.
    pub fn supports_audio_codec(&self, codec: AudioFourCc) -> (r: bool)
        ensures
            r == (assoc_cap(self.audio_codecs@, codec) is Some),
    {
        audio_cap_lookup(&self.audio_codecs, codec).is_some()
    }

    /// The capability for a video codec.
    pub fn video_codec_capability(&self, codec: VideoFourCc) -> (r: Option<FourCcCapability>)
        ensures
            r == assoc_cap(self.video_codecs@, codec),
    {
        video_cap_lookup(&self.video_codecs, codec)
    }

    /// The capability for an audio codec.
    pub fn audio_codec_capability(&self, codec: AudioFourCc) -> (r: Option<FourCcCapability>)
        ensures
            r == assoc_cap(self.audio_codecs@, codec),
    {
        audio_cap_lookup(&self.audio_codecs, codec)
    }

    /// Check if multitrack is supported.
    pub fn supports_multitrack(&self) -> (r: bool)
        ensures
            r == (self.enabled && (self.caps_ex.0 & 0x02u32) != 0),
    {
        self.enabled && self.caps_ex.supports_multitrack()
    }

    /// Check if reconnect is supported.
    pub fn supports_reconnect(&self) -> (r: bool)
        ensures
            r == (self.enabled && (self.caps_ex.0 & 0x01u32) != 0),
    {
        self.enabled && self.caps_ex.supports_reconnect()
    }

    /// The common capabilities of two peers: disabled unless both sides
    /// are enabled; flag masks intersect bitwise; a codec stays only if
    /// both sides carry it and the intersected capability bits are
    /// non-zero.
    pub fn intersect(&self, other: &Self) -> (r: Self)
        requires
            self.wf(),
        ensures
            r.enabled == (self.enabled && other.enabled),
            r.wf(),
            !(self.enabled && other.enabled) ==> r.video_codecs@.len() == 0
                && r.audio_codecs@.len() == 0 && r.caps_ex.0 == 0 && r.video_function.0 == 0,
            self.enabled && other.enabled ==> {
                &&& r.caps_ex.0 == (self.caps_ex.0 & other.caps_ex.0)
                &&& r.video_function.0 == (self.video_function.0 & other.video_function.0)
                &&& forall|c: VideoFourCc| #![auto]
                    assoc_cap(r.video_codecs@, c) == cap_meet(
                        assoc_cap(self.video_codecs@, c),
                        assoc_cap(other.video_codecs@, c),
                    )
                &&& forall|c: AudioFourCc| #![auto]
                    assoc_cap(r.audio_codecs@, c) == cap_meet(
                        assoc_cap(self.audio_codecs@, c),
                        assoc_cap(other.audio_codecs@, c),
                    )
            },
    {
        if !self.enabled || !other.enabled {
            return Self::new();
        }

        let mut video_codecs: Vec<(VideoFourCc, FourCcCapability)> = Vec::new();
        let mut i: usize = 0;
        while i < self.video_codecs.len()
            invariant
                i <= self.video_codecs@.len(),
                caps_unique(self.video_codecs@),
                caps_unique(video_codecs@),
                forall|c: VideoFourCc| #![auto]
                    assoc_cap(video_codecs@, c) == cap_meet(
                        assoc_cap(self.video_codecs@.take(i as int), c),
                        assoc_cap(other.video_codecs@, c),
                    ),
            decreases self.video_codecs@.len() - i,
        {
            let (codec, cap) = self.video_codecs[i];
            let ghost pre = video_codecs@;
            match video_cap_lookup(&other.video_codecs, codec) {
                Some(ocap) => {
                    let common = cap.0 & ocap.0;
                    if common != 0 {
                        proof {
                            assert(assoc_cap(self.video_codecs@.take(i as int), codec)
                                is None) by {
                                lemma_assoc_absent(self.video_codecs@.take(i as int), codec);
                            }
                            lemma_assoc_absent(pre, codec);
                        }
                        video_codecs.push((codec, FourCcCapability(common)));
                    }
                },
                None => {
                },
            }
            proof {
                assert forall|c: VideoFourCc| #![auto]
                    assoc_cap(video_codecs@, c) == cap_meet(
                        assoc_cap(self.video_codecs@.take(i + 1), c),
                        assoc_cap(other.video_codecs@, c),
                    ) by {
                    lemma_assoc_take_step(self.video_codecs@, i as int, c);
                    if video_codecs@ != pre {
                        lemma_assoc_push(pre, video_codecs@.last(), c);
                    }
                }
                assert forall|a: int, b: int|
                    0 <= a < b < video_codecs@.len() implies (#[trigger] video_codecs@[a]).0 != (
                #[trigger] video_codecs@[b]).0 by {
                    if b == video_codecs@.len() - 1 && video_codecs@ != pre {
                        lemma_assoc_absent(pre, video_codecs@[b].0);
                        if video_codecs@[a].0 == video_codecs@[b].0 {
                            assert(pre[a] == video_codecs@[a]);
                        }
                    }
                }
            }
            i = i + 1;
        }
        proof {
            assert(self.video_codecs@.take(self.video_codecs@.len() as int)
                =~= self.video_codecs@);
        }

        let mut audio_codecs: Vec<(AudioFourCc, FourCcCapability)> = Vec::new();
        let mut i: usize = 0;
        while i < self.audio_codecs.len()
            invariant
                i <= self.audio_codecs@.len(),
                caps_unique(self.audio_codecs@),
                caps_unique(audio_codecs@),
                forall|c: AudioFourCc| #![auto]
                    assoc_cap(audio_codecs@, c) == cap_meet(
                        assoc_cap(self.audio_codecs@.take(i as int), c),
                        assoc_cap(other.audio_codecs@, c),
                    ),
            decreases self.audio_codecs@.len() - i,
        {
            let (codec, cap) = self.audio_codecs[i];
            let ghost pre = audio_codecs@;
            match audio_cap_lookup(&other.audio_codecs, codec) {
                Some(ocap) => {
                    let common = cap.0 & ocap.0;
                    if common != 0 {
                        proof {
                            assert(assoc_cap(self.audio_codecs@.take(i as int), codec)
                                is None) by {
                                lemma_assoc_absent(self.audio_codecs@.take(i as int), codec);
                            }
                            lemma_assoc_absent(pre, codec);
                        }
                        audio_codecs.push((codec, FourCcCapability(common)));
                    }
                },
                None => {
                },
            }
            proof {
                assert forall|c: AudioFourCc| #![auto]
                    assoc_cap(audio_codecs@, c) == cap_meet(
                        assoc_cap(self.audio_codecs@.take(i + 1), c),
                        assoc_cap(other.audio_codecs@, c),
                    ) by {
                    lemma_assoc_take_step(self.audio_codecs@, i as int, c);
                    if audio_codecs@ != pre {
                        lemma_assoc_push(pre, audio_codecs@.last(), c);
                    }
                }
                assert forall|a: int, b: int|
                    0 <= a < b < audio_codecs@.len() implies (#[trigger] audio_codecs@[a]).0 != (
                #[trigger] audio_codecs@[b]).0 by {
                    if b == audio_codecs@.len() - 1 && audio_codecs@ != pre {
                        lemma_assoc_absent(pre, audio_codecs@[b].0);
                        if audio_codecs@[a].0 == audio_codecs@[b].0 {
                            assert(pre[a] == audio_codecs@[a]);
                        }
                    }
                }
            }
            i = i + 1;
        }
        proof {
            assert(self.audio_codecs@.take(self.audio_codecs@.len() as int)
                =~= self.audio_codecs@);
        }

        EnhancedCapabilities {
            enabled: true,
            caps_ex: self.caps_ex.intersection(&other.caps_ex),
            video_codecs,
            audio_codecs,
            video_function: VideoFunctionFlags::from_bits(
                self.video_function.bits() & other.video_function.bits(),
            ),
        }
    }
}

/// E-RTMP mode configuration.
#[derive(Debug, Clone, Copy, PartialEq, Eq, Structural)]
pub enum EnhancedRtmpMode {
    /// Automatically negotiate E-RTMP if the peer supports it.
    Auto,
    /// Use legacy RTMP only, even if the peer supports E-RTMP.
    LegacyOnly,
    /// Require E-RTMP; reject connections from legacy peers.
    EnhancedOnly,
}

impl Default for EnhancedRtmpMode {
    /// Automatic negotiation.
    fn default() -> (r: Self)
        ensures
            r == EnhancedRtmpMode::Auto,
    {
        EnhancedRtmpMode::Auto
    }
}

} // verus!
