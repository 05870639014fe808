//! AAC audio parsing.
//!
//! RTMP transports AAC audio in raw format (without ADTS headers). The
//! first payload byte after the FLV audio header selects between a
//! sequence header (AudioSpecificConfig) and a raw frame.

use vstd::prelude::*;

use bytes::Bytes;

use crate::bytebuf::{bytes_advance, bytes_get, bytes_len, bytes_view};
use crate::error::MediaError;

verus! {

/// AAC packet type.
#[derive(Debug, Clone, Copy, PartialEq, Eq, Structural)]
pub enum AacPacketType {
    /// Sequence header (AudioSpecificConfig)
    SequenceHeader,
    /// Raw AAC frame data
    Raw,
}

impl AacPacketType {
    /// Decode the packet type byte.
    pub fn from_byte(b: u8) -> (r: Option<Self>)
        ensures
            b == 0 ==> r == Some(AacPacketType::SequenceHeader),
            b == 1 ==> r == Some(AacPacketType::Raw),
            b > 1 ==> r is None,
    {
        match b {
            0 => Some(AacPacketType::SequenceHeader),
            1 => Some(AacPacketType::Raw),
            _ => None,
        }
    }
}

/// AAC profile (audio object type).
#[derive(Debug, Clone, Copy, PartialEq, Eq, Structural)]
pub enum AacProfile {
    /// AAC Main
    Main,
    /// AAC LC (Low Complexity), the most common
    Lc,
    /// AAC SSR (Scalable Sample Rate)
    Ssr,
    /// AAC LTP (Long Term Prediction)
    Ltp,
    /// SBR (Spectral Band Replication), HE-AAC
    Sbr,
    /// AAC Scalable
    Scalable,
}

/// The profile for an audio object type byte, if it names one.
pub open spec fn spec_aac_profile(ot: u8) -> Option<AacProfile> {
    if ot == 1 {
        Some(AacProfile::Main)
    } else if ot == 2 {
        Some(AacProfile::Lc)
    } else if ot == 3 {
        Some(AacProfile::Ssr)
    } else if ot == 4 {
        Some(AacProfile::Ltp)
    } else if ot == 5 {
        Some(AacProfile::Sbr)
    } else if ot == 6 {
        Some(AacProfile::Scalable)
    } else {
        None
    }
}

impl AacProfile {
    /// Decode the audio object type.
    pub fn from_object_type(ot: u8) -> (r: Option<Self>)
        ensures
            r == spec_aac_profile(ot),
    {
        match ot {
            1 => Some(AacProfile::Main),
            2 => Some(AacProfile::Lc),
            3 => Some(AacProfile::Ssr),
            4 => Some(AacProfile::Ltp),
            5 => Some(AacProfile::Sbr),
            6 => Some(AacProfile::Scalable),
            _ => None,
        }
    }

    /// A display name for the profile.
    pub fn name(&self) -> (r: &'static str)
        ensures
            *self == AacProfile::Main ==> r@ == "AAC Main"@,
            *self == AacProfile::Lc ==> r@ == "AAC LC"@,
            *self == AacProfile::Ssr ==> r@ == "AAC SSR"@,
            *self == AacProfile::Ltp ==> r@ == "AAC LTP"@,
            *self == AacProfile::Sbr ==> r@ == "HE-AAC"@,
            *self == AacProfile::Scalable ==> r@ == "AAC Scalable"@,
    {
        match self {
            AacProfile::Main => "AAC Main",
            AacProfile::Lc => "AAC LC",
            AacProfile::Ssr => "AAC SSR",
            AacProfile::Ltp => "AAC LTP",
            AacProfile::Sbr => "HE-AAC",
            AacProfile::Scalable => "AAC Scalable",
        }
    }
}

/// The standard sampling frequency for index `i` (0 for the reserved
/// indices 13 and 14).
pub open spec fn spec_sampling_frequency(i: u8) -> u32 {
    if i == 0 {
        96000
    } else if i == 1 {
        88200
    } else if i == 2 {
        64000
    } else if i == 3 {
        48000
    } else if i == 4 {
        44100
    } else if i == 5 {
        32000
    } else if i == 6 {
        24000
    } else if i == 7 {
        22050
    } else if i == 8 {
        16000
    } else if i == 9 {
        12000
    } else if i == 10 {
        11025
    } else if i == 11 {
        8000
    } else if i == 12 {
        7350
    } else {
        0
    }
}

/// The standard sampling frequency for an index.
pub fn sampling_frequency_from_index(i: u8) -> (r: u32)
    ensures
        r == spec_sampling_frequency(i),
{
    match i {
        0 => 96000,
        1 => 88200,
        2 => 64000,
        3 => 48000,
        4 => 44100,
        5 => 32000,
        6 => 24000,
        7 => 22050,
        8 => 16000,
        9 => 12000,
        10 => 11025,
        11 => 8000,
        12 => 7350,
        _ => 0,
    }
}

/// The audio object type packed into the first AudioSpecificConfig byte.
pub open spec fn spec_asc_aot(s: Seq<u8>) -> u8 {
    (s[0] >> 3) & 0x1F
}

/// The sampling frequency index straddling the first two bytes.
pub open spec fn spec_asc_sfi(s: Seq<u8>) -> u8 {
    ((s[0] & 0x07) << 1) | ((s[1] >> 7) & 0x01)
}

/// The explicit 24-bit sampling frequency used when the index is 15.
pub open spec fn spec_asc_explicit_freq(s: Seq<u8>) -> u32 {
    (((s[1] & 0x7F) as u32) << 17) | ((s[2] as u32) << 9) | ((s[3] as u32) << 1) | ((s[4]
        >> 1) as u32)
}

/// The sampling frequency the config declares: explicit when the index is
/// 15, else from the standard table.
pub open spec fn spec_asc_frequency(s: Seq<u8>) -> u32 {
    if spec_asc_sfi(s) == 0x0F {
        spec_asc_explicit_freq(s)
    } else {
        spec_sampling_frequency(spec_asc_sfi(s))
    }
}

/// Whether the config bytes are long enough to parse: two bytes, or five
/// when the frequency is explicit.
pub open spec fn spec_asc_ok(s: Seq<u8>) -> bool {
    s.len() >= 2 && (spec_asc_sfi(s) == 0x0F ==> s.len() >= 5)
}

/// AudioSpecificConfig, the AAC decoder initialization record.
#[derive(Debug, Clone)]
pub struct AudioSpecificConfig {
    /// Audio object type (profile)
    pub audio_object_type: u8,
    /// Sampling frequency index
    pub sampling_frequency_index: u8,
    /// Sampling frequency in Hz
    pub sampling_frequency: u32,
    /// Channel configuration (1 = mono, 2 = stereo, ...)
    pub channel_configuration: u8,
    /// Frame length flag (960 or 1024 samples)
    pub frame_length_flag: bool,
    /// Depends-on-core-coder flag
    pub depends_on_core_coder: bool,
    /// Extension flag
    pub extension_flag: bool,
    /// Raw config bytes
    pub raw: Bytes,
}

impl AudioSpecificConfig {
    /// Whether this config is the faithful reading of the bytes `s`.
    pub open spec fn matches(&self, s: Seq<u8>) -> bool {
        &&& self.audio_object_type == spec_asc_aot(s)
        &&& self.sampling_frequency_index == spec_asc_sfi(s)
        &&& self.sampling_frequency == spec_asc_frequency(s)
        &&& self.channel_configuration == (s[1] >> 3) & 0x0F
        &&& self.frame_length_flag == ((s[1] & 0x04) != 0)
        &&& self.depends_on_core_coder == ((s[1] & 0x02) != 0)
        &&& self.extension_flag == ((s[1] & 0x01) != 0)
        &&& bytes_view(self.raw) == s
    }

    /// Parse from AAC sequence header bytes (bit-packed).
    pub fn parse(data: Bytes) -> (r: Result<Self, MediaError>)
        ensures
            match r {
                Ok(c) => spec_asc_ok(bytes_view(data)) && c.matches(bytes_view(data)),
                Err(e) => !spec_asc_ok(bytes_view(data)) && e == MediaError::InvalidAacPacket,
            },
    {
        if bytes_len(&data) < 2 {
            return Err(MediaError::InvalidAacPacket);
        }
        let b0 = bytes_get(&data, 0);
        let b1 = bytes_get(&data, 1);

        let audio_object_type = (b0 >> 3) & 0x1F;
        let sampling_frequency_index = ((b0 & 0x07) << 1) | ((b1 >> 7) & 0x01);

        let sampling_frequency: u32 = if sampling_frequency_index == 0x0F {
            if bytes_len(&data) < 5 {
                return Err(MediaError::InvalidAacPacket);
            }
            let f0 = (bytes_get(&data, 1) & 0x7F) as u32;
            let f1 = bytes_get(&data, 2) as u32;
            let f2 = bytes_get(&data, 3) as u32;
            let f3 = (bytes_get(&data, 4) >> 1) as u32;
            (f0 << 17) | (f1 << 9) | (f2 << 1) | f3
        } else {
            sampling_frequency_from_index(sampling_frequency_index)
        };

        let channel_configuration = (b1 >> 3) & 0x0F;
        let frame_length_flag = (b1 & 0x04) != 0;
        let depends_on_core_coder = (b1 & 0x02) != 0;
        let extension_flag = (b1 & 0x01) != 0;

        Ok(AudioSpecificConfig {
            audio_object_type,
            sampling_frequency_index,
            sampling_frequency,
            channel_configuration,
            frame_length_flag,
            depends_on_core_coder,
            extension_flag,
            raw: data,
        })
    }

    /// The profile named by the audio object type, if any.
    pub fn profile(&self) -> (r: Option<AacProfile>)
        ensures
            r == spec_aac_profile(self.audio_object_type),
    {
        AacProfile::from_object_type(self.audio_object_type)
    }

    /// The channel count for the channel configuration (7.1 counts eight).
    pub fn channels(&self) -> (r: u8)
        ensures
            1 <= self.channel_configuration <= 6 ==> r == self.channel_configuration,
            self.channel_configuration == 7 ==> r == 8,
            self.channel_configuration == 0 || self.channel_configuration > 7 ==> r == 0,
    {
        match self.channel_configuration {
            1 => 1,
            2 => 2,
            3 => 3,
            4 => 4,
            5 => 5,
            6 => 6,
            7 => 8,
            _ => 0,
        }
    }

    /// Samples per AAC frame: 960 when the frame length flag is set, else
    /// 1024.
    pub fn samples_per_frame(&self) -> (r: u32)
        ensures
            r == if self.frame_length_flag {
                960u32
            } else {
                1024u32
            },
    {
        if self.frame_length_flag {
            960
        } else {
            1024
        }
    }
}

/// Parsed AAC payload.
#[derive(Debug, Clone)]
pub enum AacData {
    /// Sequence header (AudioSpecificConfig)
    SequenceHeader(AudioSpecificConfig),
    /// Raw AAC frame
    Frame {
        /// Raw AAC data (without ADTS header)
        data: Bytes,
    },
}

impl AacData {
    /// Parse RTMP audio payload bytes (after the FLV audio-format byte).
    pub fn parse(data: Bytes) -> (r: Result<Self, MediaError>)
        ensures
            ({
                let s = bytes_view(data);
                match r {
                    Ok(AacData::SequenceHeader(c)) => s.len() >= 1 && s[0] == 0 && spec_asc_ok(
                        s.skip(1),
                    ) && c.matches(s.skip(1)),
                    Ok(AacData::Frame { data: d }) => s.len() >= 1 && s[0] == 1 && bytes_view(d)
                        == s.skip(1),
                    Err(e) => e == MediaError::InvalidAacPacket && (s.len() == 0 || (s[0] == 0
                        && !spec_asc_ok(s.skip(1))) || s[0] > 1),
                }
            }),
    {
        let mut data = data;
        if bytes_len(&data) == 0 {
            return Err(MediaError::InvalidAacPacket);
        }
        let packet_type = bytes_get(&data, 0);
        bytes_advance(&mut data, 1);

        match AacPacketType::from_byte(packet_type) {
            Some(AacPacketType::SequenceHeader) => {
                let config = AudioSpecificConfig::parse(data)?;
                Ok(AacData::SequenceHeader(config))
            },
            Some(AacPacketType::Raw) => Ok(AacData::Frame { data }),
            None => Err(MediaError::InvalidAacPacket),
        }
    }

    /// Check if this is a sequence header.
    pub fn is_sequence_header(&self) -> (r: bool)
        ensures
            r == (*self matches AacData::SequenceHeader(_)),
    {
        match self {
            AacData::SequenceHeader(_) => true,
            _ => false,
        }
    }
}

/// Generate the 7-byte ADTS header for a raw AAC frame, as written in
/// front of each frame in an ADTS file.
pub fn generate_adts_header(config: &AudioSpecificConfig, frame_length: usize) -> (r: Vec<u8>)
    requires
        frame_length + 7 <= usize::MAX,
    ensures
        ({
            let p: u8 = if config.audio_object_type >= 1 {
                (config.audio_object_type - 1) as u8
            } else {
                0u8
            };
            let f = config.sampling_frequency_index;
            let c = config.channel_configuration;
            let fl = (frame_length + 7) as usize;
            &&& r@.len() == 7
            &&& r@[0] == 0xFFu8
            &&& r@[1] == 0xF1u8
            &&& r@[2] == (((p & 0x03) << 6) | ((f & 0x0F) << 2) | ((c >> 2) & 0x01))
            &&& r@[3] == (((c & 0x03) << 6) | (((fl >> 11) & 0x03) as u8))
            &&& r@[4] == (((fl >> 3) & 0xFF) as u8)
            &&& r@[5] == ((((fl & 0x07) << 5) | 0x1F) as u8)
            &&& r@[6] == 0xFCu8
        }),
{
    let profile = if config.audio_object_type >= 1 {
        config.audio_object_type - 1
    } else {
        0
    };
    let freq_idx = config.sampling_frequency_index;
    let channels = config.channel_configuration;

    let frame_len = frame_length + 7;

    let mut header: Vec<u8> = Vec::new();
    header.push(0xFF);
    header.push(0xF1);
    header.push(((profile & 0x03) << 6) | ((freq_idx & 0x0F) << 2) | ((channels >> 2) & 0x01));
    header.push(((channels & 0x03) << 6) | (((frame_len >> 11) & 0x03) as u8));
    header.push(((frame_len >> 3) & 0xFF) as u8);
    header.push((((frame_len & 0x07) << 5) | 0x1F) as u8);
    header.push(0xFC);
    header
}

} // verus!
