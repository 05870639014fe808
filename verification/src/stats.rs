//! Statistics for RTMP sessions and streams.
//!
//! Durations are carried as millisecond counts; rate arithmetic wraps on
//! overflow, as release-mode integer arithmetic does.

use vstd::prelude::*;

use crate::clock::now_millis;

verus! {

/// Session-level statistics.
#[derive(Debug, Clone, PartialEq, Eq, Structural)]
pub struct SessionStats {
    /// Total bytes received
    pub bytes_received: u64,
    /// Total bytes sent
    pub bytes_sent: u64,
    /// Connection duration in milliseconds
    pub duration_ms: u64,
    /// Number of video frames received
    pub video_frames: u64,
    /// Number of audio frames received
    pub audio_frames: u64,
    /// Number of keyframes received
    pub keyframes: u64,
    /// Dropped frames count
    pub dropped_frames: u64,
    /// Current bitrate estimate (bits/sec)
    pub bitrate: u64,
}

impl SessionStats {
    /// A zeroed stats tracker.
    pub fn new() -> (r: Self)
        ensures
            r.bytes_received == 0,
            r.bytes_sent == 0,
            r.duration_ms == 0,
            r.video_frames == 0,
            r.audio_frames == 0,
            r.keyframes == 0,
            r.dropped_frames == 0,
            r.bitrate == 0,
    {
        SessionStats {
            bytes_received: 0,
            bytes_sent: 0,
            duration_ms: 0,
            video_frames: 0,
            audio_frames: 0,
            keyframes: 0,
            dropped_frames: 0,
            bitrate: 0,
        }
    }

    /// Recompute the bitrate from bytes received and the whole seconds of
    /// the recorded duration; zero duration leaves it untouched.
    pub fn calculate_bitrate(&mut self)
        ensures
            ({
                let secs = old(self).duration_ms / 1000;
                if secs > 0 {
                    final(self).bitrate == (((old(self).bytes_received * 8) % 0x1_0000_0000_0000_0000) as u64) / secs
                } else {
                    final(self).bitrate == old(self).bitrate
                }
            }),
            final(self).bytes_received == old(self).bytes_received,
            final(self).bytes_sent == old(self).bytes_sent,
            final(self).duration_ms == old(self).duration_ms,
            final(self).video_frames == old(self).video_frames,
            final(self).audio_frames == old(self).audio_frames,
            final(self).keyframes == old(self).keyframes,
            final(self).dropped_frames == old(self).dropped_frames,
    {
        let secs = self.duration_ms / 1000;
        if secs > 0 {
            self.bitrate = self.bytes_received.wrapping_mul(8) / secs;
        }
    }
}

impl Default for SessionStats {
    /// A zeroed stats tracker.
    fn default() -> (r: Self)
        ensures
            r.bytes_received == 0,
            r.bytes_sent == 0,
            r.duration_ms == 0,
            r.video_frames == 0,
            r.audio_frames == 0,
            r.keyframes == 0,
            r.dropped_frames == 0,
            r.bitrate == 0,
    {
        SessionStats::new()
    }
}

/// Stream-level statistics.
#[derive(Debug, Clone)]
pub struct StreamStats {
    /// Stream key
    pub stream_key: String,
    /// Start time, milliseconds since the Unix epoch
    pub started_at_ms: u64,
    /// Total bytes received
    pub bytes_received: u64,
    /// Video frames received
    pub video_frames: u64,
    /// Audio frames received
    pub audio_frames: u64,
    /// Keyframes received
    pub keyframes: u64,
    /// Last video timestamp
    pub last_video_ts: u32,
    /// Last audio timestamp
    pub last_audio_ts: u32,
    /// Video codec info
    pub video_codec: Option<String>,
    /// Audio codec info
    pub audio_codec: Option<String>,
    /// Video width
    pub width: Option<u32>,
    /// Video height
    pub height: Option<u32>,
    /// Audio sample rate
    pub audio_sample_rate: Option<u32>,
    /// Audio channels
    pub audio_channels: Option<u8>,
}

impl StreamStats {
    /// Fresh statistics for a stream, started now.
    pub fn new(stream_key: String) -> (r: Self)
        ensures
            r.stream_key == stream_key,
            r.bytes_received == 0,
            r.video_frames == 0,
            r.audio_frames == 0,
            r.keyframes == 0,
            r.last_video_ts == 0,
            r.last_audio_ts == 0,
            r.video_codec is None,
            r.audio_codec is None,
            r.width is None,
            r.height is None,
            r.audio_sample_rate is None,
            r.audio_channels is None,
    {
        StreamStats {
            stream_key,
            started_at_ms: now_millis(),
            bytes_received: 0,
            video_frames: 0,
            audio_frames: 0,
            keyframes: 0,
            last_video_ts: 0,
            last_audio_ts: 0,
            video_codec: None,
            audio_codec: None,
            width: None,
            height: None,
            audio_sample_rate: None,
            audio_channels: None,
        }
    }

    /// Milliseconds elapsed since the stream started, given the current
    /// time (zero if the clock moved backwards).
    pub fn duration_ms_at(&self, now_ms: u64) -> (r: u64)
        ensures
            r == if now_ms >= self.started_at_ms {
                (now_ms - self.started_at_ms) as u64
            } else {
                0u64
            },
    {
        if now_ms >= self.started_at_ms {
            now_ms - self.started_at_ms
        } else {
            0
        }
    }

    /// Milliseconds elapsed since the stream started, by the clock.
    pub fn duration_ms(&self) -> u64 {
        self.duration_ms_at(now_millis())
    }

    /// Bitrate in bits per second over the given elapsed time; zero while
    /// less than a second has passed.
    pub fn bitrate_at(&self, now_ms: u64) -> (r: u64)
        ensures
            ({
                let secs = (if now_ms >= self.started_at_ms {
                    (now_ms - self.started_at_ms) as u64
                } else {
                    0u64
                }) / 1000;
                if secs > 0 {
                    r == (((self.bytes_received * 8) % 0x1_0000_0000_0000_0000) as u64) / secs
                } else {
                    r == 0
                }
            }),
    {
        let secs = self.duration_ms_at(now_ms) / 1000;
        if secs > 0 {
            self.bytes_received.wrapping_mul(8) / secs
        } else {
            0
        }
    }

    /// Bitrate in bits per second, by the clock.
    pub fn bitrate(&self) -> u64 {
        self.bitrate_at(now_millis())
    }
}

/// Server-wide statistics.
#[derive(Debug, Clone, PartialEq, Eq, Structural)]
pub struct ServerStats {
    /// Total connections ever
    pub total_connections: u64,
    /// Current active connections
    pub active_connections: u64,
    /// Total bytes received
    pub total_bytes_received: u64,
    /// Total bytes sent
    pub total_bytes_sent: u64,
    /// Active streams
    pub active_streams: u64,
    /// Uptime in milliseconds
    pub uptime_ms: u64,
}

impl ServerStats {
    /// A zeroed stats record.
    pub fn new() -> (r: Self)
        ensures
            r.total_connections == 0,
            r.active_connections == 0,
            r.total_bytes_received == 0,
            r.total_bytes_sent == 0,
            r.active_streams == 0,
            r.uptime_ms == 0,
    {
        ServerStats {
            total_connections: 0,
            active_connections: 0,
            total_bytes_received: 0,
            total_bytes_sent: 0,
            active_streams: 0,
            uptime_ms: 0,
        }
    }
}

impl Default for ServerStats {
    /// A zeroed stats record.
    fn default() -> (r: Self)
        ensures
            r.total_connections == 0,
            r.active_connections == 0,
            r.total_bytes_received == 0,
            r.total_bytes_sent == 0,
            r.active_streams == 0,
            r.uptime_ms == 0,
    {
        ServerStats::new()
    }
}

} // verus!
