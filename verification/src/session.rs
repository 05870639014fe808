//! Per-connection session state.
//!
//! Tracks the session phase from TCP accept to close, the negotiated
//! chunk sizes and window-acknowledgement size, byte accounting for ack
//! emission, and the per-message-stream states keyed by stream id.
//! Stream id 0 is reserved for NetConnection commands; allocation always
//! hands out fresh positive ids.

use vstd::prelude::*;

use crate::clock::now_millis;
use crate::gop::GopBuffer;
use crate::message::ConnectParams;
use crate::quirks::EncoderType;
use crate::stats::SessionStats;

verus! {

/// Session lifecycle phase.
#[derive(Debug, Clone, Copy, PartialEq, Eq, Structural)]
pub enum SessionPhase {
    /// TCP connected, handshake not started
    Connected,
    /// Handshake in progress
    Handshaking,
    /// Handshake complete, waiting for the connect command
    WaitingConnect,
    /// Connect received and accepted
    Active,
    /// Session is closing
    Closing,
    /// Session closed
    Closed,
}

/// Stream mode: publishing or playing.
#[derive(Debug, Clone, Copy, PartialEq, Eq, Structural)]
pub enum StreamMode {
    /// Created but not publishing or playing
    Idle,
    /// Receiving media
    Publishing,
    /// Sending media
    Playing,
}

/// Per-message-stream state.
#[derive(Debug)]
pub struct StreamState {
    /// Message stream id
    pub id: u32,
    /// Current mode
    pub mode: StreamMode,
    /// Stream key/name (for publish/play)
    pub stream_key: Option<String>,
    /// Publish type ("live", "record", "append")
    pub publish_type: Option<String>,
    /// When the stream became active, in ms (None while idle)
    pub started_at_ms: Option<u64>,
    /// Whether a video sequence header arrived
    pub has_video_header: bool,
    /// Whether an audio sequence header arrived
    pub has_audio_header: bool,
    /// Whether metadata arrived
    pub has_metadata: bool,
    /// Last video timestamp
    pub last_video_ts: u32,
    /// Last audio timestamp
    pub last_audio_ts: u32,
    /// Video frames received
    pub video_frames: u64,
    /// Audio frames received
    pub audio_frames: u64,
    /// Keyframes received
    pub keyframes: u64,
    /// Total bytes received on this stream
    pub bytes_received: u64,
    /// GOP buffer for late-joiner support
    pub gop_buffer: GopBuffer,
}

impl StreamState {
    /// A fresh idle stream with the given id.
    pub fn new(id: u32) -> (r: Self)
        ensures
            r.id == id,
            r.mode == StreamMode::Idle,
            r.stream_key is None,
            r.publish_type is None,
            r.started_at_ms is None,
            !r.has_video_header,
            !r.has_audio_header,
            !r.has_metadata,
            r.last_video_ts == 0,
            r.last_audio_ts == 0,
            r.video_frames == 0,
            r.audio_frames == 0,
            r.keyframes == 0,
            r.bytes_received == 0,
            r.gop_buffer.wf(),
    {
        StreamState {
            id,
            mode: StreamMode::Idle,
            stream_key: None,
            publish_type: None,
            started_at_ms: None,
            has_video_header: false,
            has_audio_header: false,
            has_metadata: false,
            last_video_ts: 0,
            last_audio_ts: 0,
            video_frames: 0,
            audio_frames: 0,
            keyframes: 0,
            bytes_received: 0,
            gop_buffer: GopBuffer::new(),
        }
    }

    /// Start publishing on this stream.
    pub fn start_publish(&mut self, stream_key: String, publish_type: String)
        ensures
            final(self).mode == StreamMode::Publishing,
            final(self).stream_key == Some(stream_key),
            final(self).publish_type == Some(publish_type),
            final(self).started_at_ms is Some,
            final(self).id == old(self).id,
            final(self).bytes_received == old(self).bytes_received,
    {
        self.mode = StreamMode::Publishing;
        self.stream_key = Some(stream_key);
        self.publish_type = Some(publish_type);
        self.started_at_ms = Some(now_millis());
    }

    /// Start playing on this stream.
    pub fn start_play(&mut self, stream_name: String)
        ensures
            final(self).mode == StreamMode::Playing,
            final(self).stream_key == Some(stream_name),
            final(self).started_at_ms is Some,
            final(self).id == old(self).id,
    {
        self.mode = StreamMode::Playing;
        self.stream_key = Some(stream_name);
        self.started_at_ms = Some(now_millis());
    }

    /// Stop the stream.
    pub fn stop(&mut self)
        ensures
            final(self).mode == StreamMode::Idle,
            final(self).id == old(self).id,
            final(self).stream_key == old(self).stream_key,
    {
        self.mode = StreamMode::Idle;
    }

    /// Whether the stream is publishing.
    pub fn is_publishing(&self) -> (r: bool)
        ensures
            r == (self.mode == StreamMode::Publishing),
    {
        self.mode == StreamMode::Publishing
    }

    /// Whether the stream is playing.
    pub fn is_playing(&self) -> (r: bool)
        ensures
            r == (self.mode == StreamMode::Playing),
    {
        self.mode == StreamMode::Playing
    }

    /// Whether at least one sequence header arrived.
    pub fn is_ready(&self) -> (r: bool)
        ensures
            r == (self.has_video_header || self.has_audio_header),
    {
        self.has_video_header || self.has_audio_header
    }

    /// Account a video message: timestamps, counters, header flags.
    /// Counters wrap on overflow, as release-mode arithmetic does.
    pub fn on_video(&mut self, timestamp: u32, is_keyframe: bool, is_header: bool, size: usize)
        ensures
            final(self).last_video_ts == timestamp,
            final(self).video_frames == ((old(self).video_frames + 1) % 0x1_0000_0000_0000_0000)
                as u64,
            final(self).bytes_received == ((old(self).bytes_received + size)
                % 0x1_0000_0000_0000_0000) as u64,
            final(self).has_video_header == (old(self).has_video_header || is_header),
            final(self).keyframes == (if is_keyframe {
                ((old(self).keyframes + 1) % 0x1_0000_0000_0000_0000) as u64
            } else {
                old(self).keyframes
            }),
            final(self).mode == old(self).mode,
            final(self).audio_frames == old(self).audio_frames,
    {
        self.last_video_ts = timestamp;
        self.video_frames = self.video_frames.wrapping_add(1);
        self.bytes_received = self.bytes_received.wrapping_add(size as u64);
        if is_header {
            self.has_video_header = true;
        }
        if is_keyframe {
            self.keyframes = self.keyframes.wrapping_add(1);
        }
    }

    /// Account an audio message.
    pub fn on_audio(&mut self, timestamp: u32, is_header: bool, size: usize)
        ensures
            final(self).last_audio_ts == timestamp,
            final(self).audio_frames == ((old(self).audio_frames + 1) % 0x1_0000_0000_0000_0000)
                as u64,
            final(self).bytes_received == ((old(self).bytes_received + size)
                % 0x1_0000_0000_0000_0000) as u64,
            final(self).has_audio_header == (old(self).has_audio_header || is_header),
            final(self).mode == old(self).mode,
            final(self).video_frames == old(self).video_frames,
    {
        self.last_audio_ts = timestamp;
        self.audio_frames = self.audio_frames.wrapping_add(1);
        self.bytes_received = self.bytes_received.wrapping_add(size as u64);
        if is_header {
            self.has_audio_header = true;
        }
    }

    /// Mark metadata received.
    pub fn on_metadata(&mut self)
        ensures
            final(self).has_metadata,
            final(self).mode == old(self).mode,
            final(self).bytes_received == old(self).bytes_received,
    {
        self.has_metadata = true;
    }

    /// Bitrate estimate in bits per second over the elapsed time; None
    /// while idle or under a second.
    pub fn bitrate_at(&self, now_ms: u64) -> (r: Option<u64>)
        ensures
            self.started_at_ms is None ==> r is None,
            match self.started_at_ms {
                Some(t) => {
                    let secs = (if now_ms >= t {
                        (now_ms - t) as u64
                    } else {
                        0u64
                    }) / 1000;
                    if secs > 0 {
                        r == Some(
                            (((self.bytes_received * 8) % 0x1_0000_0000_0000_0000) as u64) / secs,
                        )
                    } else {
                        r is None
                    }
                },
                None => r is None,
            },
    {
        match &self.started_at_ms {
            Some(t) => {
                let dur = if now_ms >= *t {
                    now_ms - *t
                } else {
                    0
                };
                let secs = dur / 1000;
                if secs > 0 {
                    Some(self.bytes_received.wrapping_mul(8) / secs)
                } else {
                    None
                }
            },
            None => None,
        }
    }

    /// Bitrate estimate, by the clock.
    pub fn bitrate(&self) -> Option<u64> {
        self.bitrate_at(now_millis())
    }
}

/// Complete session state.
#[derive(Debug)]
pub struct SessionState {
    /// Unique session id
    pub id: u64,
    /// Remote peer address, as text
    pub peer_addr: String,
    /// Current phase
    pub phase: SessionPhase,
    /// Connection start time, ms since the Unix epoch
    pub connected_at_ms: u64,
    /// When the handshake completed, if it has
    pub handshake_completed_at_ms: Option<u64>,
    /// Connect parameters (after the connect command)
    pub connect_params: Option<ConnectParams>,
    /// Detected encoder type
    pub encoder_type: EncoderType,
    /// Per-stream states, keyed by message stream id
    pub streams: Vec<(u32, StreamState)>,
    /// Next message stream id to allocate
    pub next_stream_id: u32,
    /// Negotiated chunk size (incoming)
    pub in_chunk_size: u32,
    /// Negotiated chunk size (outgoing)
    pub out_chunk_size: u32,
    /// Window acknowledgement size
    pub window_ack_size: u32,
    /// Bytes received
    pub bytes_received: u64,
    /// Bytes sent
    pub bytes_sent: u64,
    /// Last acknowledged sequence
    pub last_ack_sequence: u32,
}

impl SessionState {
    /// The next stream id to be allocated.
    pub closed spec fn spec_next_stream_id(&self) -> u32 {
        self.next_stream_id
    }

    /// Whether a stream with this id exists.
    pub open spec fn has_stream(&self, id: u32) -> bool {
        exists|i: int| 0 <= i < self.streams@.len() && (#[trigger] self.streams@[i]).0 == id
    }

    /// A fresh session: connected, chunk sizes at the initial 128, the
    /// default window, stream id allocation starting at 1 (id 0 is the
    /// NetConnection stream).
    pub fn new(id: u64, peer_addr: String) -> (r: Self)
        ensures
            r.id == id,
            r.peer_addr == peer_addr,
            r.phase == SessionPhase::Connected,
            r.handshake_completed_at_ms is None,
            r.connect_params is None,
            r.encoder_type == EncoderType::Unknown,
            r.streams@.len() == 0,
            r.spec_next_stream_id() == 1,
            r.in_chunk_size == 128,
            r.out_chunk_size == 128,
            r.window_ack_size == 2_500_000,
            r.bytes_received == 0,
            r.bytes_sent == 0,
            r.last_ack_sequence == 0,
    {
        SessionState {
            id,
            peer_addr,
            phase: SessionPhase::Connected,
            connected_at_ms: now_millis(),
            handshake_completed_at_ms: None,
            connect_params: None,
            encoder_type: EncoderType::Unknown,
            streams: Vec::new(),
            next_stream_id: 1,
            in_chunk_size: 128,
            out_chunk_size: 128,
            window_ack_size: 2_500_000,
            bytes_received: 0,
            bytes_sent: 0,
            last_ack_sequence: 0,
        }
    }

    /// Enter the handshaking phase (from Connected only).
    pub fn start_handshake(&mut self)
        ensures
            final(self).phase == (if old(self).phase == SessionPhase::Connected {
                SessionPhase::Handshaking
            } else {
                old(self).phase
            }),
            final(self).streams == old(self).streams,
            final(self).spec_next_stream_id() == old(self).spec_next_stream_id(),
    {
        if self.phase == SessionPhase::Connected {
            self.phase = SessionPhase::Handshaking;
        }
    }

    /// Record handshake completion (from Handshaking only).
    pub fn complete_handshake(&mut self)
        ensures
            final(self).phase == (if old(self).phase == SessionPhase::Handshaking {
                SessionPhase::WaitingConnect
            } else {
                old(self).phase
            }),
            old(self).phase == SessionPhase::Handshaking ==> final(self).handshake_completed_at_ms is Some,
            final(self).streams == old(self).streams,
    {
        if self.phase == SessionPhase::Handshaking {
            self.phase = SessionPhase::WaitingConnect;
            self.handshake_completed_at_ms = Some(now_millis());
        }
    }

    /// Accept a connect command: record its parameters and the detected
    /// encoder, and become Active.
    pub fn on_connect(&mut self, params: ConnectParams, encoder_type: EncoderType)
        ensures
            final(self).connect_params is Some,
            final(self).encoder_type == encoder_type,
            final(self).phase == SessionPhase::Active,
            final(self).streams == old(self).streams,
    {
        self.connect_params = Some(params);
        self.encoder_type = encoder_type;
        self.phase = SessionPhase::Active;
    }

    /// Allocate a fresh message stream id and its state.
    pub fn allocate_stream_id(&mut self) -> (r: u32)
        requires
            old(self).spec_next_stream_id() < u32::MAX,
        ensures
            r == old(self).spec_next_stream_id(),
            final(self).spec_next_stream_id() == old(self).spec_next_stream_id() + 1,
            final(self).streams@.len() == old(self).streams@.len() + 1,
            final(self).streams@.take(old(self).streams@.len() as int) == old(self).streams@,
            final(self).streams@.last().0 == r,
            final(self).streams@.last().1.mode == StreamMode::Idle,
            final(self).streams@.last().1.id == r,
    {
        let id = self.next_stream_id;
        self.next_stream_id = self.next_stream_id + 1;
        let st = StreamState::new(id);
        self.streams.push((id, st));
        proof {
            assert(self.streams@.take(old(self).streams@.len() as int) =~= old(self).streams@);
        }
        id
    }

    /// The stream with this id, if any.
    pub fn get_stream(&self, stream_id: u32) -> (r: Option<&StreamState>)
        ensures
            r is Some <==> self.has_stream(stream_id),
            r matches Some(st) ==> exists|i: int|
                0 <= i < self.streams@.len() && (#[trigger] self.streams@[i]).0 == stream_id && (
                self.streams@[i]).1 == *st,
    {
        let mut i: usize = 0;
        while i < self.streams.len()
            invariant
                i <= self.streams@.len(),
                forall|k: int| 0 <= k < i ==> (#[trigger] self.streams@[k]).0 != stream_id,
            decreases self.streams@.len() - i,
        {
            if self.streams[i].0 == stream_id {
                return Some(&self.streams[i].1);
            }
            i = i + 1;
        }
        None
    }

    /// Remove and return the stream with this id.
    pub fn remove_stream(&mut self, stream_id: u32) -> (r: Option<StreamState>)
        ensures
            r is Some <==> old(self).has_stream(stream_id),
            r is None ==> final(self).streams == old(self).streams,
            final(self).spec_next_stream_id() == old(self).spec_next_stream_id(),
    {
        let mut i: usize = 0;
        while i < self.streams.len()
            invariant
                *self == *old(self),
                i <= self.streams@.len(),
                forall|k: int| 0 <= k < i ==> (#[trigger] self.streams@[k]).0 != stream_id,
            decreases self.streams@.len() - i,
        {
            if self.streams[i].0 == stream_id {
                proof {
                    assert(0 <= i < old(self).streams@.len() && old(self).streams@[i as int].0
                        == stream_id);
                }
                let (_, st) = self.streams.remove(i);
                return Some(st);
            }
            i = i + 1;
        }
        None
    }

    /// Put a stream state back under its id (the companion of
    /// `remove_stream` for callers that must mutate a stream).
    pub fn put_stream(&mut self, st: StreamState)
        ensures
            final(self).streams@.len() == old(self).streams@.len() + 1,
            final(self).streams@.last().0 == st.id,
            final(self).spec_next_stream_id() == old(self).spec_next_stream_id(),
    {
        let id = st.id;
        self.streams.push((id, st));
    }

    /// Count received bytes; true when a window of bytes has passed since
    /// the last acknowledgement and one must be emitted. Arithmetic wraps
    /// as the running 32-bit sequence does on the wire.
    pub fn add_bytes_received(&mut self, bytes: u64) -> (r: bool)
        ensures
            final(self).bytes_received == ((old(self).bytes_received + bytes)
                % 0x1_0000_0000_0000_0000) as u64,
            r == ((final(self).bytes_received as u32 as int - old(self).last_ack_sequence as int)
                % 0x1_0000_0000 >= old(self).window_ack_size as int),
            final(self).last_ack_sequence == old(self).last_ack_sequence,
            final(self).window_ack_size == old(self).window_ack_size,
            final(self).streams == old(self).streams,
    {
        self.bytes_received = self.bytes_received.wrapping_add(bytes);
        let delta = (self.bytes_received as u32).wrapping_sub(self.last_ack_sequence);
        delta >= self.window_ack_size
    }

    /// Record that an acknowledgement was sent at the current count.
    pub fn mark_ack_sent(&mut self)
        ensures
            final(self).last_ack_sequence == final(self).bytes_received as u32,
            final(self).bytes_received == old(self).bytes_received,
            final(self).streams == old(self).streams,
    {
        self.last_ack_sequence = self.bytes_received as u32;
    }

    /// Milliseconds this session has been connected, given the time.
    pub fn duration_ms_at(&self, now_ms: u64) -> (r: u64)
        ensures
            r == if now_ms >= self.connected_at_ms {
                (now_ms - self.connected_at_ms) as u64
            } else {
                0u64
            },
    {
        if now_ms >= self.connected_at_ms {
            now_ms - self.connected_at_ms
        } else {
            0
        }
    }

    /// Whether the session is active.
    pub fn is_active(&self) -> (r: bool)
        ensures
            r == (self.phase == SessionPhase::Active),
    {
        self.phase == SessionPhase::Active
    }

    /// Start closing the session.
    pub fn close(&mut self)
        ensures
            final(self).phase == SessionPhase::Closing,
            final(self).streams == old(self).streams,
    {
        self.phase = SessionPhase::Closing;
    }

    /// The application name from the connect parameters, if any.
    pub fn app(&self) -> (r: Option<&String>)
        ensures
            r is Some <==> self.connect_params is Some,
            r matches Some(a) ==> self.connect_params matches Some(p) && p.app == *a,
    {
        match &self.connect_params {
            Some(p) => Some(&p.app),
            None => None,
        }
    }
}

/// Read-only context handed to host callbacks for a session.
#[derive(Debug, Clone)]
pub struct SessionContext {
    /// Unique session id
    pub session_id: u64,
    /// Remote peer address, as text
    pub peer_addr: String,
    /// Application name (from connect)
    pub app: String,
    /// Detected encoder type
    pub encoder_type: EncoderType,
    /// Connect parameters, once seen
    pub connect_params: Option<ConnectParams>,
    /// Current session statistics
    pub stats: SessionStats,
}

impl SessionContext {
    /// A fresh context before the connect command.
    pub fn new(session_id: u64, peer_addr: String) -> (r: Self)
        ensures
            r.session_id == session_id,
            r.peer_addr == peer_addr,
            r.app@ == Seq::<char>::empty(),
            r.encoder_type == EncoderType::Unknown,
            r.connect_params is None,
    {
        SessionContext {
            session_id,
            peer_addr,
            app: String::new(),
            encoder_type: EncoderType::Unknown,
            connect_params: None,
            stats: SessionStats::new(),
        }
    }

    /// Fill in the connect parameters and detected encoder.
    pub fn with_connect(&mut self, params: ConnectParams, encoder_type: EncoderType)
        ensures
            final(self).app == params.app,
            final(self).encoder_type == encoder_type,
            final(self).connect_params is Some,
            final(self).session_id == old(self).session_id,
            final(self).peer_addr == old(self).peer_addr,
    {
        self.app = params.app.clone();
        self.encoder_type = encoder_type;
        self.connect_params = Some(params);
    }

    /// The tcUrl from the connect parameters, if any.
    pub fn tc_url(&self) -> (r: Option<&String>)
        ensures
            match r {
                Some(u) => self.connect_params matches Some(p) && p.tc_url == Some(*u),
                None => !(self.connect_params matches Some(p) && p.tc_url is Some),
            },
    {
        match &self.connect_params {
            Some(p) => p.tc_url.as_ref(),
            None => None,
        }
    }

    /// The pageUrl from the connect parameters, if any.
    pub fn page_url(&self) -> (r: Option<&String>)
        ensures
            match r {
                Some(u) => self.connect_params matches Some(p) && p.page_url == Some(*u),
                None => !(self.connect_params matches Some(p) && p.page_url is Some),
            },
    {
        match &self.connect_params {
            Some(p) => p.page_url.as_ref(),
            None => None,
        }
    }

    /// The flashVer from the connect parameters, if any.
    pub fn flash_ver(&self) -> (r: Option<&String>)
        ensures
            match r {
                Some(u) => self.connect_params matches Some(p) && p.flash_ver == Some(*u),
                None => !(self.connect_params matches Some(p) && p.flash_ver is Some),
            },
    {
        match &self.connect_params {
            Some(p) => p.flash_ver.as_ref(),
            None => None,
        }
    }
}

/// Context handed to host media callbacks for one stream.
#[derive(Debug, Clone)]
pub struct StreamContext {
    /// Parent session context
    pub session: SessionContext,
    /// Message stream id
    pub stream_id: u32,
    /// Stream key
    pub stream_key: String,
    /// Whether this stream publishes (else it plays)
    pub is_publishing: bool,
}

impl StreamContext {
    /// A new stream context.
    pub fn new(session: SessionContext, stream_id: u32, stream_key: String, is_publishing: bool) -> (r: Self)
        ensures
            r.session == session,
            r.stream_id == stream_id,
            r.stream_key == stream_key,
            r.is_publishing == is_publishing,
    {
        StreamContext { session, stream_id, stream_key, is_publishing }
    }
}

} // verus!
