//! FLV tag recognizers.
//!
//! Each RTMP audio/video message is an FLV tag body without the FLV file
//! header. The recognizers here classify tag bytes: video frame type and
//! codec from the first byte's nibbles, audio format from the upper nibble,
//! and the AVC/AAC sequence-header checks on the second byte. They read at
//! most two bytes, so header detection is constant time.

use vstd::prelude::*;

use bytes::Bytes;

use crate::bytebuf::{bytes_get, bytes_len, bytes_view};

verus! {

/// FLV tag type.
#[derive(Debug, Clone, Copy, PartialEq, Eq, Structural)]
pub enum FlvTagType {
    Audio,
    Video,
    Script,
}

/// Video frame type (upper 4 bits of the first payload byte).
#[derive(Debug, Clone, Copy, PartialEq, Eq, Structural)]
pub enum VideoFrameType {
    /// Keyframe (for AVC, a seekable frame)
    Keyframe,
    /// Inter frame
    InterFrame,
    /// Disposable inter frame (H.263 only)
    DisposableInterFrame,
    /// Generated keyframe (reserved for server use)
    GeneratedKeyframe,
    /// Video info/command frame
    VideoInfoFrame,
}

/// Video codec id (lower 4 bits of the first payload byte).
#[derive(Debug, Clone, Copy, PartialEq, Eq, Structural)]
pub enum VideoCodec {
    SorensonH263,
    ScreenVideo,
    Vp6,
    Vp6Alpha,
    ScreenVideoV2,
    Avc,
    Hevc,
    Av1,
}

/// Audio format (upper 4 bits of the first payload byte).
#[derive(Debug, Clone, Copy, PartialEq, Eq, Structural)]
pub enum AudioFormat {
    LinearPcmPlatform,
    Adpcm,
    Mp3,
    LinearPcmLe,
    Nellymoser16kMono,
    Nellymoser8kMono,
    Nellymoser,
    G711ALaw,
    G711MuLaw,
    Aac,
    Speex,
    Mp38k,
    DeviceSpecific,
}

/// Audio sample rate (bits 2..4 of the first payload byte).
#[derive(Debug, Clone, Copy, PartialEq, Eq, Structural)]
pub enum AudioSampleRate {
    Rate5512,
    Rate11025,
    Rate22050,
    Rate44100,
}

/// The frame type encoded in byte `b`'s upper nibble.
pub open spec fn spec_video_frame_type(b: u8) -> Option<VideoFrameType> {
    let t = (b >> 4) & 0x0F;
    if t == 1 {
        Some(VideoFrameType::Keyframe)
    } else if t == 2 {
        Some(VideoFrameType::InterFrame)
    } else if t == 3 {
        Some(VideoFrameType::DisposableInterFrame)
    } else if t == 4 {
        Some(VideoFrameType::GeneratedKeyframe)
    } else if t == 5 {
        Some(VideoFrameType::VideoInfoFrame)
    } else {
        None
    }
}

/// The codec encoded in byte `b`'s lower nibble.
pub open spec fn spec_video_codec(b: u8) -> Option<VideoCodec> {
    let t = b & 0x0F;
    if t == 2 {
        Some(VideoCodec::SorensonH263)
    } else if t == 3 {
        Some(VideoCodec::ScreenVideo)
    } else if t == 4 {
        Some(VideoCodec::Vp6)
    } else if t == 5 {
        Some(VideoCodec::Vp6Alpha)
    } else if t == 6 {
        Some(VideoCodec::ScreenVideoV2)
    } else if t == 7 {
        Some(VideoCodec::Avc)
    } else if t == 12 {
        Some(VideoCodec::Hevc)
    } else if t == 13 {
        Some(VideoCodec::Av1)
    } else {
        None
    }
}

/// The audio format encoded in byte `b`'s upper nibble.
pub open spec fn spec_audio_format(b: u8) -> Option<AudioFormat> {
    let t = (b >> 4) & 0x0F;
    if t == 0 {
        Some(AudioFormat::LinearPcmPlatform)
    } else if t == 1 {
        Some(AudioFormat::Adpcm)
    } else if t == 2 {
        Some(AudioFormat::Mp3)
    } else if t == 3 {
        Some(AudioFormat::LinearPcmLe)
    } else if t == 4 {
        Some(AudioFormat::Nellymoser16kMono)
    } else if t == 5 {
        Some(AudioFormat::Nellymoser8kMono)
    } else if t == 6 {
        Some(AudioFormat::Nellymoser)
    } else if t == 7 {
        Some(AudioFormat::G711ALaw)
    } else if t == 8 {
        Some(AudioFormat::G711MuLaw)
    } else if t == 10 {
        Some(AudioFormat::Aac)
    } else if t == 11 {
        Some(AudioFormat::Speex)
    } else if t == 14 {
        Some(AudioFormat::Mp38k)
    } else if t == 15 {
        Some(AudioFormat::DeviceSpecific)
    } else {
        None
    }
}

/// Whether the payload bytes `data` of a video tag are a keyframe.
pub open spec fn spec_is_keyframe(data: Seq<u8>) -> bool {
    data.len() > 0 && (spec_video_frame_type(data[0]) == Some(VideoFrameType::Keyframe)
        || spec_video_frame_type(data[0]) == Some(VideoFrameType::GeneratedKeyframe))
}

/// Whether the payload bytes `data` of a video tag are an AVC sequence
/// header: codec AVC and AVC-packet-type 0.
pub open spec fn spec_is_avc_seq_header(data: Seq<u8>) -> bool {
    data.len() >= 2 && spec_video_codec(data[0]) == Some(VideoCodec::Avc) && data[1] == 0
}

/// Whether the payload bytes `data` of an audio tag are an AAC sequence
/// header: format AAC and AAC-packet-type 0.
pub open spec fn spec_is_aac_seq_header(data: Seq<u8>) -> bool {
    data.len() >= 2 && spec_audio_format(data[0]) == Some(AudioFormat::Aac) && data[1] == 0
}

impl VideoFrameType {
    /// Decode the frame type from a video tag's first byte.
    pub fn from_byte(b: u8) -> (r: Option<Self>)
        ensures
            r == spec_video_frame_type(b),
    {
        match (b >> 4) & 0x0F {
            1 => Some(VideoFrameType::Keyframe),
            2 => Some(VideoFrameType::InterFrame),
            3 => Some(VideoFrameType::DisposableInterFrame),
            4 => Some(VideoFrameType::GeneratedKeyframe),
            5 => Some(VideoFrameType::VideoInfoFrame),
            _ => None,
        }
    }

    /// Whether this frame type starts a decodable GOP.
    pub fn is_keyframe(&self) -> (r: bool)
        ensures
            r == (*self == VideoFrameType::Keyframe || *self == VideoFrameType::GeneratedKeyframe),
    {
        match self {
            VideoFrameType::Keyframe => true,
            VideoFrameType::GeneratedKeyframe => true,
            _ => false,
        }
    }
}

impl VideoCodec {
    /// Decode the codec id from a video tag's first byte.
    pub fn from_byte(b: u8) -> (r: Option<Self>)
        ensures
            r == spec_video_codec(b),
    {
        match b & 0x0F {
            2 => Some(VideoCodec::SorensonH263),
            3 => Some(VideoCodec::ScreenVideo),
            4 => Some(VideoCodec::Vp6),
            5 => Some(VideoCodec::Vp6Alpha),
            6 => Some(VideoCodec::ScreenVideoV2),
            7 => Some(VideoCodec::Avc),
            12 => Some(VideoCodec::Hevc),
            13 => Some(VideoCodec::Av1),
            _ => None,
        }
    }
}

impl AudioFormat {
    /// Decode the sound format from an audio tag's first byte.
    pub fn from_byte(b: u8) -> (r: Option<Self>)
        ensures
            r == spec_audio_format(b),
    {
        match (b >> 4) & 0x0F {
            0 => Some(AudioFormat::LinearPcmPlatform),
            1 => Some(AudioFormat::Adpcm),
            2 => Some(AudioFormat::Mp3),
            3 => Some(AudioFormat::LinearPcmLe),
            4 => Some(AudioFormat::Nellymoser16kMono),
            5 => Some(AudioFormat::Nellymoser8kMono),
            6 => Some(AudioFormat::Nellymoser),
            7 => Some(AudioFormat::G711ALaw),
            8 => Some(AudioFormat::G711MuLaw),
            10 => Some(AudioFormat::Aac),
            11 => Some(AudioFormat::Speex),
            14 => Some(AudioFormat::Mp38k),
            15 => Some(AudioFormat::DeviceSpecific),
            _ => None,
        }
    }
}

impl AudioSampleRate {
    /// Decode the sample rate from an audio tag's first byte.
    pub fn from_byte(b: u8) -> (r: Self)
        ensures
            ((b >> 2) & 0x03) == 0 ==> r == AudioSampleRate::Rate5512,
            ((b >> 2) & 0x03) == 1 ==> r == AudioSampleRate::Rate11025,
            ((b >> 2) & 0x03) == 2 ==> r == AudioSampleRate::Rate22050,
            ((b >> 2) & 0x03) == 3 ==> r == AudioSampleRate::Rate44100,
    {
        match (b >> 2) & 0x03 {
            0 => AudioSampleRate::Rate5512,
            1 => AudioSampleRate::Rate11025,
            2 => AudioSampleRate::Rate22050,
            _ => AudioSampleRate::Rate44100,
        }
    }

    /// The rate in Hertz.
    pub fn to_hz(&self) -> (r: u32)
        ensures
            *self == AudioSampleRate::Rate5512 ==> r == 5512,
            *self == AudioSampleRate::Rate11025 ==> r == 11025,
            *self == AudioSampleRate::Rate22050 ==> r == 22050,
            *self == AudioSampleRate::Rate44100 ==> r == 44100,
    {
        match self {
            AudioSampleRate::Rate5512 => 5512,
            AudioSampleRate::Rate11025 => 11025,
            AudioSampleRate::Rate22050 => 22050,
            AudioSampleRate::Rate44100 => 44100,
        }
    }
}

/// A parsed FLV tag: type, timestamp, and the raw tag body.
#[derive(Debug)]
pub struct FlvTag {
    /// Tag type
    pub tag_type: FlvTagType,
    /// Timestamp in milliseconds
    pub timestamp: u32,
    /// Raw tag data (including codec headers), shared without copying
    pub data: Bytes,
}

impl FlvTag {
    /// The tag's payload bytes.
    pub open spec fn bytes(&self) -> Seq<u8> {
        bytes_view(self.data)
    }

    /// Create a new video tag.
    pub fn video(timestamp: u32, data: Bytes) -> (r: Self)
        ensures
            r.tag_type == FlvTagType::Video,
            r.timestamp == timestamp,
            r.bytes() == bytes_view(data),
    {
        FlvTag { tag_type: FlvTagType::Video, timestamp, data }
    }

    /// Create a new audio tag.
    pub fn audio(timestamp: u32, data: Bytes) -> (r: Self)
        ensures
            r.tag_type == FlvTagType::Audio,
            r.timestamp == timestamp,
            r.bytes() == bytes_view(data),
    {
        FlvTag { tag_type: FlvTagType::Audio, timestamp, data }
    }

    /// Check if this is a video tag.
    pub fn is_video(&self) -> (r: bool)
        ensures
            r == (self.tag_type == FlvTagType::Video),
    {
        self.tag_type == FlvTagType::Video
    }

    /// Check if this is an audio tag.
    pub fn is_audio(&self) -> (r: bool)
        ensures
            r == (self.tag_type == FlvTagType::Audio),
    {
        self.tag_type == FlvTagType::Audio
    }

    /// For non-empty video tags, the frame type from the first byte.
    pub fn video_frame_type(&self) -> (r: Option<VideoFrameType>)
        ensures
            r == if self.tag_type == FlvTagType::Video && self.bytes().len() > 0 {
                spec_video_frame_type(self.bytes()[0])
            } else {
                None::<VideoFrameType>
            },
    {
        if self.is_video() && bytes_len(&self.data) > 0 {
            VideoFrameType::from_byte(bytes_get(&self.data, 0))
        } else {
            None
        }
    }

    /// For non-empty video tags, the codec from the first byte.
    pub fn video_codec(&self) -> (r: Option<VideoCodec>)
        ensures
            r == if self.tag_type == FlvTagType::Video && self.bytes().len() > 0 {
                spec_video_codec(self.bytes()[0])
            } else {
                None::<VideoCodec>
            },
    {
        if self.is_video() && bytes_len(&self.data) > 0 {
            VideoCodec::from_byte(bytes_get(&self.data, 0))
        } else {
            None
        }
    }

    /// For non-empty audio tags, the sound format from the first byte.
    pub fn audio_format(&self) -> (r: Option<AudioFormat>)
        ensures
            r == if self.tag_type == FlvTagType::Audio && self.bytes().len() > 0 {
                spec_audio_format(self.bytes()[0])
            } else {
                None::<AudioFormat>
            },
    {
        if self.is_audio() && bytes_len(&self.data) > 0 {
            AudioFormat::from_byte(bytes_get(&self.data, 0))
        } else {
            None
        }
    }

    /// Check if this is a keyframe: a video tag whose first byte carries
    /// frame type 1 or 4.
    pub fn is_keyframe(&self) -> (r: bool)
        ensures
            r == (self.tag_type == FlvTagType::Video && spec_is_keyframe(self.bytes())),
    {
        match self.video_frame_type() {
            Some(ft) => ft.is_keyframe(),
            None => false,
        }
    }

    /// Check if this is an AVC sequence header.
    pub fn is_avc_sequence_header(&self) -> (r: bool)
        ensures
            r == (self.tag_type == FlvTagType::Video && spec_is_avc_seq_header(self.bytes())),
    {
        if self.is_video() && bytes_len(&self.data) >= 2 {
            let codec = VideoCodec::from_byte(bytes_get(&self.data, 0));
            let is_avc = match codec {
                Some(VideoCodec::Avc) => true,
                _ => false,
            };
            is_avc && bytes_get(&self.data, 1) == 0
        } else {
            false
        }
    }

    /// Check if this is an AAC sequence header.
    pub fn is_aac_sequence_header(&self) -> (r: bool)
        ensures
            r == (self.tag_type == FlvTagType::Audio && spec_is_aac_seq_header(self.bytes())),
    {
        if self.is_audio() && bytes_len(&self.data) >= 2 {
            let format = AudioFormat::from_byte(bytes_get(&self.data, 0));
            let is_aac = match format {
                Some(AudioFormat::Aac) => true,
                _ => false,
            };
            is_aac && bytes_get(&self.data, 1) == 0
        } else {
            false
        }
    }

    /// The size of the tag data in bytes.
    pub fn size(&self) -> (r: usize)
        ensures
            r == self.bytes().len(),
    {
        bytes_len(&self.data)
    }
}

impl Clone for FlvTag {
    /// Another handle to the same tag; the payload is shared, not copied.
    fn clone(&self) -> (r: Self)
        ensures
            r.tag_type == self.tag_type,
            r.timestamp == self.timestamp,
            r.bytes() == self.bytes(),
    {
        FlvTag {
            tag_type: self.tag_type,
            timestamp: self.timestamp,
            data: self.data.clone(),
        }
    }
}

} // verus!
