//! H.264/AVC parsing.
//!
//! RTMP transports H.264 in AVCC format: length-prefixed NAL units. The
//! routing plane needs only keyframe detection (an IDR NAL unit, type 5)
//! and recognition of the sequence header, the
//! AVCDecoderConfigurationRecord that carries SPS and PPS.

use vstd::prelude::*;

use bytes::Bytes;

use crate::bytebuf::{bytes_advance, bytes_get, bytes_len, bytes_slice, bytes_view};
use crate::error::MediaError;

verus! {

/// AVC packet type: byte 1 of an AVC video payload.
#[derive(Debug, Clone, Copy, PartialEq, Eq, Structural)]
pub enum AvcPacketType {
    /// Sequence header (AVCDecoderConfigurationRecord)
    SequenceHeader,
    /// NAL units
    Nalu,
    /// End of sequence
    EndOfSequence,
}

impl AvcPacketType {
    /// Decode the packet type byte.
    pub fn from_byte(b: u8) -> (r: Option<Self>)
        ensures
            b == 0 ==> r == Some(AvcPacketType::SequenceHeader),
            b == 1 ==> r == Some(AvcPacketType::Nalu),
            b == 2 ==> r == Some(AvcPacketType::EndOfSequence),
            b > 2 ==> r is None,
    {
        match b {
            0 => Some(AvcPacketType::SequenceHeader),
            1 => Some(AvcPacketType::Nalu),
            2 => Some(AvcPacketType::EndOfSequence),
            _ => None,
        }
    }
}

/// NAL unit type (lower 5 bits of the NAL header byte).
#[derive(Debug, Clone, Copy, PartialEq, Eq, Structural)]
pub enum NaluType {
    /// Non-IDR slice
    Slice,
    /// Slice data partition A
    SlicePartA,
    /// Slice data partition B
    SlicePartB,
    /// Slice data partition C
    SlicePartC,
    /// IDR slice (keyframe)
    Idr,
    /// Supplemental enhancement information
    Sei,
    /// Sequence parameter set
    Sps,
    /// Picture parameter set
    Pps,
    /// Access unit delimiter
    Aud,
    /// End of sequence
    EndSeq,
    /// End of stream
    EndStream,
    /// Filler data
    Filler,
}

/// The NAL unit type encoded in byte `b`'s lower five bits.
pub open spec fn spec_nalu_type(b: u8) -> Option<NaluType> {
    let t = b & 0x1F;
    if t == 1 {
        Some(NaluType::Slice)
    } else if t == 2 {
        Some(NaluType::SlicePartA)
    } else if t == 3 {
        Some(NaluType::SlicePartB)
    } else if t == 4 {
        Some(NaluType::SlicePartC)
    } else if t == 5 {
        Some(NaluType::Idr)
    } else if t == 6 {
        Some(NaluType::Sei)
    } else if t == 7 {
        Some(NaluType::Sps)
    } else if t == 8 {
        Some(NaluType::Pps)
    } else if t == 9 {
        Some(NaluType::Aud)
    } else if t == 10 {
        Some(NaluType::EndSeq)
    } else if t == 11 {
        Some(NaluType::EndStream)
    } else if t == 12 {
        Some(NaluType::Filler)
    } else {
        None
    }
}

impl NaluType {
    /// Decode the NAL unit type from its header byte.
    pub fn from_byte(b: u8) -> (r: Option<Self>)
        ensures
            r == spec_nalu_type(b),
    {
        match b & 0x1F {
            1 => Some(NaluType::Slice),
            2 => Some(NaluType::SlicePartA),
            3 => Some(NaluType::SlicePartB),
            4 => Some(NaluType::SlicePartC),
            5 => Some(NaluType::Idr),
            6 => Some(NaluType::Sei),
            7 => Some(NaluType::Sps),
            8 => Some(NaluType::Pps),
            9 => Some(NaluType::Aud),
            10 => Some(NaluType::EndSeq),
            11 => Some(NaluType::EndStream),
            12 => Some(NaluType::Filler),
            _ => None,
        }
    }

    /// Whether this NAL unit is an IDR slice.
    pub fn is_keyframe(&self) -> (r: bool)
        ensures
            r == (*self == NaluType::Idr),
    {
        match self {
            NaluType::Idr => true,
            _ => false,
        }
    }

    /// Whether this NAL unit is a parameter set (SPS or PPS).
    pub fn is_parameter_set(&self) -> (r: bool)
        ensures
            r == (*self == NaluType::Sps || *self == NaluType::Pps),
    {
        match self {
            NaluType::Sps => true,
            NaluType::Pps => true,
            _ => false,
        }
    }
}

/// `count` length-prefixed parameter sets read from `s` starting at `pos`:
/// the sets and the position after them, or nothing if the bytes run out.
pub open spec fn spec_param_sets(s: Seq<u8>, pos: int, count: int) -> Option<(Seq<Seq<u8>>, int)>
    decreases count,
{
    if count <= 0 {
        Some((Seq::empty(), pos))
    } else if pos + 2 > s.len() {
        None
    } else {
        let l = (s[pos] as int) * 256 + (s[pos + 1] as int);
        if pos + 2 + l > s.len() {
            None
        } else {
            match spec_param_sets(s, pos + 2 + l, count - 1) {
                None => None,
                Some((rest, end)) => Some((seq![s.subrange(pos + 2, pos + 2 + l)] + rest, end)),
            }
        }
    }
}

/// The contents of a vector of shared buffers, as a sequence of byte
/// sequences.
pub open spec fn sets_view(v: Seq<Bytes>) -> Seq<Seq<u8>> {
    Seq::new(v.len(), |i: int| bytes_view(v[i]))
}

fn parse_param_sets(data: &Bytes, pos: usize, count: u8) -> (r: Result<(Vec<Bytes>, usize), MediaError>)
    requires
        pos <= bytes_view(*data).len(),
    ensures
        match r {
            Ok((v, end)) => spec_param_sets(bytes_view(*data), pos as int, count as int) == Some(
                (sets_view(v@), end as int),
            ) && end <= bytes_view(*data).len(),
            Err(e) => spec_param_sets(bytes_view(*data), pos as int, count as int) is None && e
                == MediaError::InvalidAvcPacket,
        },
    decreases count,
{
    if count == 0 {
        let v: Vec<Bytes> = Vec::new();
        proof {
            assert(sets_view(v@) =~= Seq::<Seq<u8>>::empty());
        }
        return Ok((v, pos));
    }
    let n = bytes_len(data);
    if n - pos < 2 {
        return Err(MediaError::InvalidAvcPacket);
    }
    let l = (bytes_get(data, pos) as usize) * 256 + (bytes_get(data, pos + 1) as usize);
    if n - (pos + 2) < l {
        return Err(MediaError::InvalidAvcPacket);
    }
    let piece = bytes_slice(data, pos + 2, pos + 2 + l);
    match parse_param_sets(data, pos + 2 + l, count - 1) {
        Ok((rest, end)) => {
            let mut v: Vec<Bytes> = Vec::new();
            v.push(piece);
            let mut rest = rest;
            let ghost rest0 = rest@;
            v.append(&mut rest);
            proof {
                assert(sets_view(v@) =~= seq![
                    bytes_view(*data).subrange(pos + 2, pos + 2 + l),
                ] + sets_view(rest0));
            }
            Ok((v, end))
        },
        Err(e) => Err(e),
    }
}

/// AVC decoder configuration (from the sequence header).
#[derive(Debug, Clone)]
pub struct AvcConfig {
    /// AVC profile (66 = Baseline, 77 = Main, 100 = High, ...)
    pub profile: u8,
    /// Profile compatibility flags
    pub compatibility: u8,
    /// AVC level (e.g. 31 = 3.1)
    pub level: u8,
    /// NALU length prefix size in bytes (usually 4)
    pub nalu_length_size: u8,
    /// Sequence parameter sets
    pub sps: Vec<Bytes>,
    /// Picture parameter sets
    pub pps: Vec<Bytes>,
    /// Raw AVCDecoderConfigurationRecord bytes
    pub raw: Bytes,
}

impl AvcConfig {
    /// Whether this config is the faithful reading of the record bytes `s`.
    pub open spec fn matches(&self, s: Seq<u8>) -> bool {
        &&& s.len() >= 7
        &&& s[0] == 1
        &&& self.profile == s[1]
        &&& self.compatibility == s[2]
        &&& self.level == s[3]
        &&& self.nalu_length_size == (s[4] & 0x03) + 1
        &&& match spec_param_sets(s, 6, (s[5] & 0x1F) as int) {
            Some((sps, sps_end)) => {
                &&& sets_view(self.sps@) == sps
                &&& sps_end < s.len()
                &&& match spec_param_sets(s, sps_end + 1, s[sps_end] as int) {
                    Some((pps, _)) => sets_view(self.pps@) == pps,
                    None => false,
                }
            },
            None => false,
        }
        &&& bytes_view(self.raw) == s
    }

    /// Parse an AVCDecoderConfigurationRecord.
    pub fn parse(data: Bytes) -> (r: Result<Self, MediaError>)
        ensures
            match r {
                Ok(c) => c.matches(bytes_view(data)),
                Err(e) => e == MediaError::InvalidAvcPacket && !exists|c: AvcConfig|
                    c.matches(bytes_view(data)),
            },
    {
        let n = bytes_len(&data);
        if n < 7 {
            return Err(MediaError::InvalidAvcPacket);
        }
        let version = bytes_get(&data, 0);
        if version != 1 {
            return Err(MediaError::InvalidAvcPacket);
        }
        let profile = bytes_get(&data, 1);
        let compatibility = bytes_get(&data, 2);
        let level = bytes_get(&data, 3);
        let raw4 = bytes_get(&data, 4);
        proof {
            assert(raw4 & 0x03 < 4) by (bit_vector);
        }
        let nalu_length_size = (raw4 & 0x03) + 1;
        let num_sps = bytes_get(&data, 5) & 0x1F;

        let (sps, sps_end) = match parse_param_sets(&data, 6, num_sps) {
            Ok(p) => p,
            Err(e) => {
                return Err(e);
            },
        };
        if sps_end >= n {
            return Err(MediaError::InvalidAvcPacket);
        }
        let num_pps = bytes_get(&data, sps_end);
        let (pps, _pps_end) = match parse_param_sets(&data, sps_end + 1, num_pps) {
            Ok(p) => p,
            Err(e) => {
                return Err(e);
            },
        };

        Ok(AvcConfig { profile, compatibility, level, nalu_length_size, sps, pps, raw: data })
    }

    /// A display name for the profile byte.
    pub fn profile_name(&self) -> (r: &'static str)
        ensures
            self.profile == 66 ==> r@ == "Baseline"@,
            self.profile == 77 ==> r@ == "Main"@,
            self.profile == 88 ==> r@ == "Extended"@,
            self.profile == 100 ==> r@ == "High"@,
            self.profile == 110 ==> r@ == "High 10"@,
            self.profile == 122 ==> r@ == "High 4:2:2"@,
            self.profile == 244 ==> r@ == "High 4:4:4"@,
    {
        match self.profile {
            66 => "Baseline",
            77 => "Main",
            88 => "Extended",
            100 => "High",
            110 => "High 10",
            122 => "High 4:2:2",
            244 => "High 4:4:4",
            _ => "Unknown",
        }
    }

    /// The level as a "major.minor" string (e.g. 31 renders "3.1").
    pub fn level_string(&self) -> (r: String)
        ensures
            r@.len() >= 3,
    {
        proof {
            reveal_strlit(".");
        }
        let mut s = digit_string(self.level / 10);
        s.append(".");
        let ones = digit_string(self.level % 10);
        s.append(ones.as_str());
        s
    }
}

/// A decimal rendering of `d`, which is at most 25 for an AVC level byte's
/// tens digit and at most 9 for a ones digit.
fn digit_string(d: u8) -> (r: String)
    ensures
        r@.len() >= 1,
{
    let s: &str = match d {
        0 => "0",
        1 => "1",
        2 => "2",
        3 => "3",
        4 => "4",
        5 => "5",
        6 => "6",
        7 => "7",
        8 => "8",
        9 => "9",
        10 => "10",
        11 => "11",
        12 => "12",
        13 => "13",
        14 => "14",
        15 => "15",
        16 => "16",
        17 => "17",
        18 => "18",
        19 => "19",
        20 => "20",
        21 => "21",
        22 => "22",
        23 => "23",
        24 => "24",
        _ => "25",
    };
    proof {
        reveal_strlit("0");
        reveal_strlit("1");
        reveal_strlit("2");
        reveal_strlit("3");
        reveal_strlit("4");
        reveal_strlit("5");
        reveal_strlit("6");
        reveal_strlit("7");
        reveal_strlit("8");
        reveal_strlit("9");
        reveal_strlit("10");
        reveal_strlit("11");
        reveal_strlit("12");
        reveal_strlit("13");
        reveal_strlit("14");
        reveal_strlit("15");
        reveal_strlit("16");
        reveal_strlit("17");
        reveal_strlit("18");
        reveal_strlit("19");
        reveal_strlit("20");
        reveal_strlit("21");
        reveal_strlit("22");
        reveal_strlit("23");
        reveal_strlit("24");
        reveal_strlit("25");
    }
    String::from_str(s)
}

/// The big-endian 32-bit value at `s[off .. off + 4]`.
pub open spec fn spec_be32(s: Seq<u8>, off: int) -> int {
    (s[off] as int) * 0x1000000 + (s[off + 1] as int) * 0x10000 + (s[off + 2] as int) * 0x100 + (
    s[off + 3] as int)
}

/// How many bytes remain in `s` from `off` (zero when past the end).
pub open spec fn spec_rem(s: Seq<u8>, off: int) -> int {
    if off <= s.len() {
        s.len() - off
    } else {
        0
    }
}

/// Whether the AVCC NAL-unit walk over `s` starting at `off` reaches an
/// IDR unit (type 5), assuming 4-byte length prefixes.
pub open spec fn spec_contains_idr(s: Seq<u8>, off: int) -> bool
    decreases spec_rem(s, off),
{
    if off < 0 || off + 4 >= s.len() {
        false
    } else {
        let l = spec_be32(s, off);
        let off2 = off + 4;
        if (s[off2] & 0x1F) == 5 {
            true
        } else {
            spec_contains_idr(s, off2 + l)
        }
    }
}

fn contains_idr(data: &Bytes) -> (r: bool)
    ensures
        r == spec_contains_idr(bytes_view(*data), 0),
{
    let n = bytes_len(data);
    let mut offset: usize = 0;
    loop
        invariant
            spec_contains_idr(bytes_view(*data), 0) == spec_contains_idr(
                bytes_view(*data),
                offset as int,
            ),
            n == bytes_view(*data).len(),
        decreases n - offset,
    {
        if offset >= n || n - offset <= 4 {
            proof {
                assert(!spec_contains_idr(bytes_view(*data), offset as int));
            }
            return false;
        }
        let b0 = bytes_get(data, offset) as u64;
        let b1 = bytes_get(data, offset + 1) as u64;
        let b2 = bytes_get(data, offset + 2) as u64;
        let b3 = bytes_get(data, offset + 3) as u64;
        let l: u64 = b0 * 0x1000000 + b1 * 0x10000 + b2 * 0x100 + b3;
        let off2 = offset + 4;
        if bytes_get(data, off2) & 0x1F == 5 {
            proof {
                assert(spec_contains_idr(bytes_view(*data), offset as int));
            }
            return true;
        }
        if l >= (n - off2) as u64 {
            // The walk would step past the end; no further NAL unit fits.
            proof {
                assert(!spec_contains_idr(bytes_view(*data), off2 + l as int));
            }
            return false;
        }
        offset = off2 + l as usize;
    }
}

/// Parsed H.264 payload.
#[derive(Debug, Clone)]
pub enum H264Data {
    /// Sequence header with SPS/PPS
    SequenceHeader(AvcConfig),
    /// Video frame (one or more NAL units)
    Frame {
        /// Whether this is a keyframe (IDR)
        keyframe: bool,
        /// Composition time offset (for B-frames)
        composition_time: i32,
        /// NAL units in AVCC format (length-prefixed)
        nalus: Bytes,
    },
    /// End of sequence marker
    EndOfSequence,
}

/// The signed composition time read from the three bytes after the packet
/// type, sign-extended from 24 bits.
pub open spec fn spec_composition_time(s: Seq<u8>) -> int {
    let raw = (s[1] as int) * 0x10000 + (s[2] as int) * 0x100 + (s[3] as int);
    if raw >= 0x800000 {
        raw - 0x1000000
    } else {
        raw
    }
}

impl H264Data {
    /// Parse RTMP video payload bytes (after the frame-type/codec byte).
    pub fn parse(data: Bytes) -> (r: Result<Self, MediaError>)
        ensures
            ({
                let s = bytes_view(data);
                match r {
                    Ok(H264Data::SequenceHeader(c)) => s.len() >= 4 && s[0] == 0 && c.matches(
                        s.skip(4),
                    ),
                    Ok(H264Data::Frame { keyframe, composition_time, nalus }) => s.len() >= 4
                        && s[0] == 1 && bytes_view(nalus) == s.skip(4) && keyframe
                        == spec_contains_idr(s.skip(4), 0) && composition_time
                        == spec_composition_time(s),
                    Ok(H264Data::EndOfSequence) => s.len() >= 4 && s[0] == 2,
                    Err(e) => e == MediaError::InvalidAvcPacket && (s.len() < 4 || s[0] > 2 || (
                    s[0] == 0 && !exists|c: AvcConfig| c.matches(s.skip(4)))),
                }
            }),
    {
        if bytes_len(&data) < 4 {
            return Err(MediaError::InvalidAvcPacket);
        }
        let mut data = data;
        let packet_type = bytes_get(&data, 0);
        let ct0 = bytes_get(&data, 1) as u32;
        let ct1 = bytes_get(&data, 2) as u32;
        let ct2 = bytes_get(&data, 3) as u32;
        let raw_ct: u32 = ct0 * 0x10000 + ct1 * 0x100 + ct2;
        let composition_time: i32 = if raw_ct >= 0x800000 {
            (raw_ct as i32) - 0x1000000
        } else {
            raw_ct as i32
        };
        bytes_advance(&mut data, 4);

        match AvcPacketType::from_byte(packet_type) {
            Some(AvcPacketType::SequenceHeader) => {
                let config = AvcConfig::parse(data)?;
                Ok(H264Data::SequenceHeader(config))
            },
            Some(AvcPacketType::Nalu) => {
                let keyframe = contains_idr(&data);
                Ok(H264Data::Frame { keyframe, composition_time, nalus: data })
            },
            Some(AvcPacketType::EndOfSequence) => Ok(H264Data::EndOfSequence),
            None => Err(MediaError::InvalidAvcPacket),
        }
    }

    /// Check if this is a keyframe. A sequence header counts: it is what a
    /// late joiner needs before the keyframe that follows it.
    pub fn is_keyframe(&self) -> (r: bool)
        ensures
            r == match *self {
                H264Data::SequenceHeader(_) => true,
                H264Data::Frame { keyframe, .. } => keyframe,
                H264Data::EndOfSequence => false,
            },
    {
        match self {
            H264Data::SequenceHeader(_) => true,
            H264Data::Frame { keyframe, .. } => *keyframe,
            H264Data::EndOfSequence => false,
        }
    }

    /// Check if this is a sequence header.
    pub fn is_sequence_header(&self) -> (r: bool)
        ensures
            r == (*self matches H264Data::SequenceHeader(_)),
    {
        match self {
            H264Data::SequenceHeader(_) => true,
            _ => false,
        }
    }
}

/// The value of the `k` big-endian bytes at `s[off .. off + k]`, with the
/// truncating shifts the walker uses.
pub open spec fn spec_be_val(s: Seq<u8>, off: int, k: int) -> usize
    decreases k,
{
    if k <= 0 {
        0usize
    } else {
        (spec_be_val(s, off, k - 1) << 8) | (s[off + k - 1] as usize)
    }
}

/// Cursor over NAL units in AVCC format.
pub struct NaluIterator<'a> {
    data: &'a [u8],
    offset: usize,
    nalu_length_size: usize,
}

impl<'a> NaluIterator<'a> {
    /// The bytes being walked.
    pub closed spec fn spec_data(&self) -> Seq<u8> {
        self.data@
    }

    /// The cursor position.
    pub closed spec fn spec_offset(&self) -> int {
        self.offset as int
    }

    /// The length-prefix width.
    pub closed spec fn spec_prefix(&self) -> int {
        self.nalu_length_size as int
    }

    /// A cursor at the start of `data`, reading `nalu_length_size`-byte
    /// length prefixes.
    pub fn new(data: &'a [u8], nalu_length_size: u8) -> (r: Self)
        ensures
            r.spec_data() == data@,
            r.spec_offset() == 0,
            r.spec_prefix() == nalu_length_size as int,
    {
        NaluIterator { data, offset: 0, nalu_length_size: nalu_length_size as usize }
    }

    /// The next NAL unit, if a whole one remains: reads the length prefix,
    /// then hands out that many bytes.
    pub fn next(&mut self) -> (r: Option<&'a [u8]>)
        ensures
            ({
                let s = old(self).spec_data();
                let off = old(self).spec_offset();
                let k = old(self).spec_prefix();
                let l = spec_be_val(s, off, k) as int;
                &&& final(self).spec_data() == s
                &&& final(self).spec_prefix() == k
                &&& if off + k > s.len() {
                    r is None && final(self).spec_offset() == off
                } else if off + k + l > s.len() {
                    r is None && final(self).spec_offset() == off + k
                } else {
                    r matches Some(nalu) && nalu@ == s.subrange(off + k, off + k + l)
                        && final(self).spec_offset() == off + k + l
                }
            }),
    {
        let n = self.data.len();
        if self.offset > n || n - self.offset < self.nalu_length_size {
            return None;
        }
        let mut len: usize = 0;
        let mut i: usize = 0;
        while i < self.nalu_length_size
            invariant
                i <= self.nalu_length_size,
                n == self.spec_data().len(),
                self.offset + self.nalu_length_size <= n,
                len == spec_be_val(self.spec_data(), self.spec_offset(), i as int),
            decreases self.nalu_length_size - i,
        {
            let b = *vstd::slice::slice_index_get(self.data, self.offset + i);
            len = (len << 8) | (b as usize);
            i = i + 1;
        }
        self.offset = self.offset + self.nalu_length_size;

        if self.offset > n || n - self.offset < len {
            return None;
        }
        let nalu = vstd::slice::slice_subrange(self.data, self.offset, self.offset + len);
        self.offset = self.offset + len;
        Some(nalu)
    }
}

} // verus!
