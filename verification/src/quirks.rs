//! Encoder compatibility quirks.
//!
//! Different RTMP encoders (OBS, FFmpeg, Wirecast, ...) have various
//! non-standard behaviours: commands before the handshake settles, missing
//! AMF end markers, timestamp discontinuities. This module holds the
//! configuration switches for tolerating them, encoder detection from the
//! `flashVer` string, the command-sequence guard, and the timestamp
//! normalizer.

use vstd::prelude::*;

use crate::message::Command;

verus! {

/// Configuration for handling encoder quirks.
#[derive(Debug, Clone, Copy, PartialEq, Eq, Structural)]
pub struct QuirksConfig {
    /// Accept commands before handshake completes
    pub allow_early_commands: bool,
    /// Accept FCPublish/releaseStream before connect
    pub allow_fc_before_connect: bool,
    /// Accept malformed AMF (missing end markers)
    pub lenient_amf: bool,
    /// Accept timestamp regression
    pub allow_timestamp_regression: bool,
    /// Accept duplicate metadata
    pub allow_duplicate_metadata: bool,
    /// Accept empty app names
    pub allow_empty_app: bool,
    /// Accept oversized chunks (larger than negotiated)
    pub allow_oversized_chunks: bool,
}

impl Default for QuirksConfig {
    /// Lenient defaults, for maximum compatibility.
    fn default() -> (r: Self)
        ensures
            r.allow_early_commands && r.allow_fc_before_connect && r.lenient_amf
                && r.allow_timestamp_regression && r.allow_duplicate_metadata
                && r.allow_empty_app && r.allow_oversized_chunks,
    {
        QuirksConfig {
            allow_early_commands: true,
            allow_fc_before_connect: true,
            lenient_amf: true,
            allow_timestamp_regression: true,
            allow_duplicate_metadata: true,
            allow_empty_app: true,
            allow_oversized_chunks: true,
        }
    }
}

impl QuirksConfig {
    /// Strict mode: reject non-conformant streams.
    pub fn strict() -> (r: Self)
        ensures
            !r.allow_early_commands && !r.allow_fc_before_connect && !r.lenient_amf
                && !r.allow_timestamp_regression && !r.allow_duplicate_metadata
                && !r.allow_empty_app && !r.allow_oversized_chunks,
    {
        QuirksConfig {
            allow_early_commands: false,
            allow_fc_before_connect: false,
            lenient_amf: false,
            allow_timestamp_regression: false,
            allow_duplicate_metadata: false,
            allow_empty_app: false,
            allow_oversized_chunks: false,
        }
    }
}

/// Detected encoder type.
#[derive(Debug, Clone, Copy, PartialEq, Eq, Structural)]
pub enum EncoderType {
    Unknown,
    Obs,
    Ffmpeg,
    Wirecast,
    FlashMediaEncoder,
    Xsplit,
    Larix,
    Other,
}

/// The UTF-8 encoding of a character sequence, as `str::as_bytes` returns it.
pub uninterp spec fn utf8_of(s: Seq<char>) -> Seq<u8>;

/// Relies on str::as_bytes: yields the UTF-8 encoding of the string, a
/// function of its characters alone.
#[verifier::external_body]
fn str_to_bytes(s: &str) -> (r: Vec<u8>)
    ensures
        r@ == utf8_of(s@),
{
    s.as_bytes().to_vec()
}

/// An ASCII upper-case byte mapped to lower case; all other bytes unchanged.
pub open spec fn ascii_lower_byte(b: u8) -> u8 {
    if 65 <= b && b <= 90 {
        (b + 32) as u8
    } else {
        b
    }
}

/// The byte sequence with every ASCII letter lowered.
pub open spec fn lower_bytes(s: Seq<u8>) -> Seq<u8> {
    Seq::new(s.len(), |i: int| ascii_lower_byte(s[i]))
}

/// Whether `n` occurs as a contiguous subsequence of `h`.
pub open spec fn contains_sub(h: Seq<u8>, n: Seq<u8>) -> bool {
    exists|i: int|
        #![trigger h.subrange(i, i + n.len() as int)]
        0 <= i && i + n.len() <= h.len() && h.subrange(i, i + n.len() as int) == n
}

fn to_lower(v: &Vec<u8>) -> (r: Vec<u8>)
    ensures
        r@ == lower_bytes(v@),
{
    let mut r: Vec<u8> = Vec::new();
    let mut i: usize = 0;
    while i < v.len()
        invariant
            i <= v.len(),
            r@.len() == i,
            forall|k: int| 0 <= k < i ==> r@[k] == ascii_lower_byte(v@[k]),
        decreases v.len() - i,
    {
        let b = v[i];
        if 65 <= b && b <= 90 {
            r.push(b + 32);
        } else {
            r.push(b);
        }
        i = i + 1;
    }
    proof {
        assert(r@ =~= lower_bytes(v@));
    }
    r
}

fn contains_bytes(h: &Vec<u8>, n: &Vec<u8>) -> (r: bool)
    ensures
        r == contains_sub(h@, n@),
{
    if n.len() > h.len() {
        proof {
            assert(!contains_sub(h@, n@));
        }
        return false;
    }
    if n.len() == 0 {
        proof {
            assert(h@.subrange(0int, 0int + n@.len() as int) =~= n@);
        }
        return true;
    }
    let mut i: usize = 0;
    while i < h.len() - n.len() + 1
        invariant
            0 < n.len() <= h.len(),
            i <= h.len() - n.len() + 1,
            forall|k: int| 0 <= k < i ==> #[trigger] h@.subrange(k, k + n@.len() as int) != n@,
        decreases h.len() - n.len() + 1 - i,
    {
        let mut j: usize = 0;
        let mut matched: bool = true;
        while j < n.len()
            invariant
                n.len() <= h.len(),
                i <= h.len() - n.len(),
                j <= n.len(),
                matched ==> forall|k: int| 0 <= k < j ==> h@[i + k] == n@[k],
                !matched ==> h@.subrange(i as int, i + n@.len() as int) != n@,
            decreases n.len() - j,
        {
            if h[i + j] != n[j] {
                proof {
                    assert(h@.subrange(i as int, i + n@.len() as int)[j as int] == h@[i + j]);
                }
                matched = false;
                j = n.len();
            } else {
                j = j + 1;
            }
        }
        if matched {
            proof {
                assert(h@.subrange(i as int, i + n@.len() as int) =~= n@);
            }
            return true;
        }
        i = i + 1;
    }
    proof {
        assert forall|k: int| 0 <= k && k + n@.len() <= h@.len() implies #[trigger] h@.subrange(
            k,
            k + n@.len() as int,
        ) != n@ by {
            assert(k < i);
        }
    }
    false
}

/// What `from_flash_ver` detects, over the lowered UTF-8 bytes of the string.
pub open spec fn spec_detect_encoder(l: Seq<u8>) -> EncoderType {
    if contains_sub(l, seq![111u8, 98u8, 115u8]) {  // "obs"
        EncoderType::Obs
    } else if contains_sub(l, seq![102u8, 109u8, 108u8, 101u8]) || contains_sub(
        l,
        seq![102u8, 108u8, 97u8, 115u8, 104u8, 32u8, 109u8, 101u8, 100u8, 105u8, 97u8],
    ) {  // "fmle" / "flash media"
        EncoderType::FlashMediaEncoder
    } else if contains_sub(l, seq![119u8, 105u8, 114u8, 101u8, 99u8, 97u8, 115u8, 116u8]) {  // "wirecast"
        EncoderType::Wirecast
    } else if contains_sub(l, seq![120u8, 115u8, 112u8, 108u8, 105u8, 116u8]) {  // "xsplit"
        EncoderType::Xsplit
    } else if contains_sub(l, seq![108u8, 97u8, 114u8, 105u8, 120u8]) {  // "larix"
        EncoderType::Larix
    } else if contains_sub(l, seq![108u8, 97u8, 118u8, 102u8]) || contains_sub(
        l,
        seq![108u8, 105u8, 98u8, 114u8, 116u8, 109u8, 112u8],
    ) {  // "lavf" / "librtmp"
        EncoderType::Ffmpeg
    } else {
        EncoderType::Other
    }
}

impl EncoderType {
    /// Detect the encoder from the connect command's flashVer string.
    pub fn from_flash_ver(flash_ver: &str) -> (r: Self)
        ensures
            r == spec_detect_encoder(lower_bytes(utf8_of(flash_ver@))),
    {
        let bytes = str_to_bytes(flash_ver);
        let l = to_lower(&bytes);

        let obs = vec![111u8, 98u8, 115u8];
        let fmle = vec![102u8, 109u8, 108u8, 101u8];
        let flash_media = vec![
            102u8, 108u8, 97u8, 115u8, 104u8, 32u8, 109u8, 101u8, 100u8, 105u8, 97u8,
        ];
        let wirecast = vec![119u8, 105u8, 114u8, 101u8, 99u8, 97u8, 115u8, 116u8];
        let xsplit = vec![120u8, 115u8, 112u8, 108u8, 105u8, 116u8];
        let larix = vec![108u8, 97u8, 114u8, 105u8, 120u8];
        let lavf = vec![108u8, 97u8, 118u8, 102u8];
        let librtmp = vec![108u8, 105u8, 98u8, 114u8, 116u8, 109u8, 112u8];

        if contains_bytes(&l, &obs) {
            EncoderType::Obs
        } else if contains_bytes(&l, &fmle) || contains_bytes(&l, &flash_media) {
            EncoderType::FlashMediaEncoder
        } else if contains_bytes(&l, &wirecast) {
            EncoderType::Wirecast
        } else if contains_bytes(&l, &xsplit) {
            EncoderType::Xsplit
        } else if contains_bytes(&l, &larix) {
            EncoderType::Larix
        } else if contains_bytes(&l, &lavf) || contains_bytes(&l, &librtmp) {
            EncoderType::Ffmpeg
        } else {
            EncoderType::Other
        }
    }
}

/// States of the command-sequence guard.
#[derive(Debug, Clone, Copy, PartialEq, Eq, Structural)]
pub enum CommandSequenceState {
    Initial,
    Connected,
    StreamCreated,
    Publishing,
    Playing,
}

/// Command sequence guard.
///
/// Many streaming platforms expect connect, then optionally releaseStream
/// and FCPublish, then createStream, then publish; this guard admits those
/// orderings and the pipelined variants seen in the wild.
pub struct CommandSequence {
    state: CommandSequenceState,
}

/// Whether a command named `name` is admitted in state `st`.
pub open spec fn spec_command_valid(st: CommandSequenceState, name: Seq<char>) -> bool {
    if name == "connect"@ {
        st == CommandSequenceState::Initial
    } else if name == "releaseStream"@ || name == "FCPublish"@ {
        true
    } else if name == "createStream"@ {
        st == CommandSequenceState::Connected || st == CommandSequenceState::Initial
    } else if name == "publish"@ || name == "play"@ {
        st == CommandSequenceState::StreamCreated
    } else if name == "FCUnpublish"@ || name == "deleteStream"@ || name == "closeStream"@ {
        st == CommandSequenceState::Publishing || st == CommandSequenceState::Playing
    } else {
        true
    }
}

/// The state after a command named `name` completed in state `st`.
pub open spec fn spec_command_step(st: CommandSequenceState, name: Seq<char>) -> CommandSequenceState {
    if name == "connect"@ {
        CommandSequenceState::Connected
    } else if name == "createStream"@ {
        CommandSequenceState::StreamCreated
    } else if name == "publish"@ {
        CommandSequenceState::Publishing
    } else if name == "play"@ {
        CommandSequenceState::Playing
    } else if name == "FCUnpublish"@ || name == "deleteStream"@ || name == "closeStream"@ {
        CommandSequenceState::Connected
    } else {
        st
    }
}

fn str_is(s: &str, lit: &str) -> (r: bool)
    ensures
        r == (s@ == lit@),
{
    let a = String::from_str(s);
    let b = String::from_str(lit);
    a == b
}

impl CommandSequence {
    /// A guard in the initial state.
    pub fn new() -> (r: Self)
        ensures
            r.current() == CommandSequenceState::Initial,
    {
        CommandSequence { state: CommandSequenceState::Initial }
    }

    /// The guard's current state.
    pub closed spec fn current(&self) -> CommandSequenceState {
        self.state
    }

    /// Check if a command is valid in the current state.
    pub fn is_valid_command(&self, cmd: &Command) -> (r: bool)
        ensures
            r == spec_command_valid(self.current(), cmd.name@),
    {
        if str_is(cmd.name.as_str(), "connect") {
            self.state == CommandSequenceState::Initial
        } else if str_is(cmd.name.as_str(), "releaseStream") || str_is(
            cmd.name.as_str(),
            "FCPublish",
        ) {
            true
        } else if str_is(cmd.name.as_str(), "createStream") {
            self.state == CommandSequenceState::Connected || self.state
                == CommandSequenceState::Initial
        } else if str_is(cmd.name.as_str(), "publish") || str_is(cmd.name.as_str(), "play") {
            self.state == CommandSequenceState::StreamCreated
        } else if str_is(cmd.name.as_str(), "FCUnpublish") || str_is(
            cmd.name.as_str(),
            "deleteStream",
        ) || str_is(cmd.name.as_str(), "closeStream") {
            self.state == CommandSequenceState::Publishing || self.state
                == CommandSequenceState::Playing
        } else {
            true
        }
    }

    /// Transition state after a command completed.
    pub fn on_command(&mut self, cmd_name: &str)
        ensures
            final(self).current() == spec_command_step(old(self).current(), cmd_name@),
    {
        if str_is(cmd_name, "connect") {
            self.state = CommandSequenceState::Connected;
        } else if str_is(cmd_name, "createStream") {
            self.state = CommandSequenceState::StreamCreated;
        } else if str_is(cmd_name, "publish") {
            self.state = CommandSequenceState::Publishing;
        } else if str_is(cmd_name, "play") {
            self.state = CommandSequenceState::Playing;
        } else if str_is(cmd_name, "FCUnpublish") || str_is(cmd_name, "deleteStream") || str_is(
            cmd_name,
            "closeStream",
        ) {
            self.state = CommandSequenceState::Connected;
        }
    }

    /// The current state as a display string.
    pub fn state(&self) -> (r: &'static str)
        ensures
            self.current() == CommandSequenceState::Initial ==> r@ == "initial"@,
            self.current() == CommandSequenceState::Connected ==> r@ == "connected"@,
            self.current() == CommandSequenceState::StreamCreated ==> r@ == "stream_created"@,
            self.current() == CommandSequenceState::Publishing ==> r@ == "publishing"@,
            self.current() == CommandSequenceState::Playing ==> r@ == "playing"@,
    {
        match self.state {
            CommandSequenceState::Initial => "initial",
            CommandSequenceState::Connected => "connected",
            CommandSequenceState::StreamCreated => "stream_created",
            CommandSequenceState::Publishing => "publishing",
            CommandSequenceState::Playing => "playing",
        }
    }
}

impl Default for CommandSequence {
    /// A guard in the initial state.
    fn default() -> (r: Self)
        ensures
            r.current() == CommandSequenceState::Initial,
    {
        CommandSequence::new()
    }
}

/// Timestamp normalizer.
///
/// Some encoders have timestamp discontinuities or regressions. Regressions
/// of more than one second fold the last normalized timestamp plus one into
/// an additive offset applied to all subsequent timestamps; smaller
/// regressions pass through unchanged.
pub struct TimestampNormalizer {
    /// The last normalized timestamp handed out.
    pub last_timestamp: u32,
    /// Additive offset applied to raw timestamps.
    pub offset: u32,
}

/// The offset after feeding raw `timestamp` to a normalizer in state
/// `(last, offset)`: bumped to `last + 1` on a regression of more than
/// 1000 ms, otherwise unchanged.
pub open spec fn spec_norm_offset(last: u32, offset: u32, timestamp: u32) -> u32 {
    if timestamp < last && last - timestamp > 1000 {
        ((last + 1) % 0x1_0000_0000) as u32
    } else {
        offset
    }
}

/// The normalized timestamp: the raw timestamp plus the (possibly bumped)
/// offset, wrapping modulo 2^32.
pub open spec fn spec_norm_result(last: u32, offset: u32, timestamp: u32) -> u32 {
    ((timestamp + spec_norm_offset(last, offset, timestamp)) % 0x1_0000_0000) as u32
}

impl TimestampNormalizer {
    /// A fresh normalizer: no history, no offset.
    pub fn new() -> (r: Self)
        ensures
            r.last_timestamp == 0,
            r.offset == 0,
    {
        TimestampNormalizer { last_timestamp: 0, offset: 0 }
    }

    /// Normalize a timestamp, handling regression.
    pub fn normalize(&mut self, timestamp: u32) -> (r: u32)
        ensures
            r == spec_norm_result(old(self).last_timestamp, old(self).offset, timestamp),
            final(self).offset == spec_norm_offset(
                old(self).last_timestamp,
                old(self).offset,
                timestamp,
            ),
            final(self).last_timestamp == r,
    {
        if timestamp < self.last_timestamp && self.last_timestamp - timestamp > 1000 {
            self.offset = self.last_timestamp.wrapping_add(1);
        }
        let normalized = timestamp.wrapping_add(self.offset);
        self.last_timestamp = normalized;
        normalized
    }

    /// Reset normalizer state.
    pub fn reset(&mut self)
        ensures
            final(self).last_timestamp == 0,
            final(self).offset == 0,
    {
        self.last_timestamp = 0;
        self.offset = 0;
    }
}

impl Default for TimestampNormalizer {
    /// A fresh normalizer.
    fn default() -> (r: Self)
        ensures
            r.last_timestamp == 0,
            r.offset == 0,
    {
        TimestampNormalizer::new()
    }
}

/// Within one stream the normalized timestamps never decrease, except on a
/// raw regression of at most 1000 ms (which passes through by design) or on
/// arithmetic wrap-around of the 32-bit timestamp space.
pub proof fn lemma_normalize_monotonic(last: u32, offset: u32, timestamp: u32)
    requires
        timestamp >= last || last - timestamp > 1000,
        timestamp + spec_norm_offset(last, offset, timestamp) <= u32::MAX,
        last < u32::MAX,
    ensures
        spec_norm_result(last, offset, timestamp) >= last,
{
    if timestamp < last && last - timestamp > 1000 {
        assert(spec_norm_offset(last, offset, timestamp) == last + 1);
    } else {
        assert(timestamp >= last);
    }
}

} // verus!
