//! Stream registry: the pub/sub routing plane.
//!
//! A concurrent host wraps this registry in its lock of choice and owns
//! the broadcast channels; the registry itself is the sequential state
//! machine underneath: who publishes which key, which cached headers and
//! GOP frames a late joiner receives, when a stream enters its grace
//! period, and which entries a cleanup sweep removes. Operations that
//! depend on the clock exist in an `_at` form taking the time in
//! milliseconds, verified for every clock value.

use vstd::prelude::*;

use bytes::Bytes;

use crate::bytebuf::bytes_view;
use crate::clock::now_millis;
use crate::flv::{spec_is_aac_seq_header, spec_is_avc_seq_header, spec_is_keyframe, FlvTag,
    FlvTagType};
use crate::gop::{gop_drops, tag_view, tags_view, GopBuffer};

verus! {

/// Unique identifier for a stream: application plus stream name.
#[derive(Debug, PartialEq, Eq, Hash)]
pub struct StreamKey {
    /// Application name (e.g. "live")
    pub app: String,
    /// Stream name/key
    pub name: String,
}

impl StreamKey {
    /// Create a new stream key.
    pub fn new(app: String, name: String) -> (r: Self)
        ensures
            r.app == app,
            r.name == name,
    {
        StreamKey { app, name }
    }

    /// Whether this key names the stream `(app, name)`.
    pub open spec fn is_key(&self, app: Seq<char>, name: Seq<char>) -> bool {
        self.app@ == app && self.name@ == name
    }
}

impl Clone for StreamKey {
    /// An equal key.
    fn clone(&self) -> (r: Self)
        ensures
            r == *self,
    {
        StreamKey { app: self.app.clone(), name: self.name.clone() }
    }
}

/// Type of broadcast frame.
#[derive(Debug, Clone, Copy, PartialEq, Eq, Structural)]
pub enum FrameType {
    /// Video frame
    Video,
    /// Audio frame
    Audio,
    /// Metadata (onMetaData)
    Metadata,
}

/// State of a stream entry.
#[derive(Debug, Clone, Copy, PartialEq, Eq, Structural)]
pub enum StreamState {
    /// Stream has an active publisher
    Active,
    /// Publisher disconnected, within the grace period
    GracePeriod,
    /// No publisher, waiting for cleanup
    Idle,
}

/// A frame routed from a publisher to subscribers. Cloning shares the
/// payload bytes; nothing is copied.
#[derive(Debug)]
pub struct BroadcastFrame {
    /// Type of frame
    pub frame_type: FrameType,
    /// Timestamp in milliseconds
    pub timestamp: u32,
    /// Frame payload (shared by reference counting)
    pub data: Bytes,
    /// Whether this is a keyframe (video only)
    pub is_keyframe: bool,
    /// Whether this is a sequence header
    pub is_header: bool,
}

/// The observable content of a broadcast frame.
pub open spec fn frame_view(f: BroadcastFrame) -> (FrameType, u32, Seq<u8>, bool, bool) {
    (f.frame_type, f.timestamp, bytes_view(f.data), f.is_keyframe, f.is_header)
}

/// The observable contents of a sequence of broadcast frames.
pub open spec fn frames_view(s: Seq<BroadcastFrame>) -> Seq<(FrameType, u32, Seq<u8>, bool, bool)> {
    Seq::new(s.len(), |i: int| frame_view(s[i]))
}

/// The broadcast frame a raw FLV tag converts to: video tags carry their
/// keyframe and AVC-header recognition, audio tags their AAC-header
/// recognition, script tags become metadata at timestamp zero.
pub open spec fn conv_tag(t: (FlvTagType, u32, Seq<u8>)) -> (FrameType, u32, Seq<u8>, bool, bool) {
    match t.0 {
        FlvTagType::Video => (
            FrameType::Video,
            t.1,
            t.2,
            spec_is_keyframe(t.2),
            spec_is_avc_seq_header(t.2),
        ),
        FlvTagType::Audio => (FrameType::Audio, t.1, t.2, false, spec_is_aac_seq_header(t.2)),
        FlvTagType::Script => (FrameType::Metadata, 0u32, t.2, false, false),
    }
}

impl BroadcastFrame {
    /// Create a video frame.
    pub fn video(timestamp: u32, data: Bytes, is_keyframe: bool, is_header: bool) -> (r: Self)
        ensures
            frame_view(r) == (FrameType::Video, timestamp, bytes_view(data), is_keyframe,
            is_header),
    {
        BroadcastFrame { frame_type: FrameType::Video, timestamp, data, is_keyframe, is_header }
    }

    /// Create an audio frame.
    pub fn audio(timestamp: u32, data: Bytes, is_header: bool) -> (r: Self)
        ensures
            frame_view(r) == (FrameType::Audio, timestamp, bytes_view(data), false, is_header),
    {
        BroadcastFrame { frame_type: FrameType::Audio, timestamp, data, is_keyframe: false, is_header }
    }

    /// Create a metadata frame.
    pub fn metadata(data: Bytes) -> (r: Self)
        ensures
            frame_view(r) == (FrameType::Metadata, 0u32, bytes_view(data), false, false),
    {
        BroadcastFrame {
            frame_type: FrameType::Metadata,
            timestamp: 0,
            data,
            is_keyframe: false,
            is_header: false,
        }
    }

    /// Convert from an FLV tag, recognizing keyframes and sequence
    /// headers on the way.
    pub fn from_flv_tag(tag: &FlvTag) -> (r: Self)
        ensures
            frame_view(r) == conv_tag((tag.tag_type, tag.timestamp, bytes_view(tag.data))),
    {
        match tag.tag_type {
            FlvTagType::Video => {
                let is_keyframe = tag.is_keyframe();
                let is_header = tag.is_avc_sequence_header();
                Self::video(tag.timestamp, tag.data.clone(), is_keyframe, is_header)
            },
            FlvTagType::Audio => {
                let is_header = tag.is_aac_sequence_header();
                Self::audio(tag.timestamp, tag.data.clone(), is_header)
            },
            FlvTagType::Script => Self::metadata(tag.data.clone()),
        }
    }
}

impl Clone for BroadcastFrame {
    /// A frame with the same content, sharing the payload bytes.
    fn clone(&self) -> (r: Self)
        ensures
            frame_view(r) == frame_view(*self),
    {
        BroadcastFrame {
            frame_type: self.frame_type,
            timestamp: self.timestamp,
            data: self.data.clone(),
            is_keyframe: self.is_keyframe,
            is_header: self.is_header,
        }
    }
}

/// Registry configuration.
#[derive(Debug, Clone, PartialEq, Eq, Structural)]
pub struct RegistryConfig {
    /// Capacity of each stream's broadcast ring, in frames
    pub broadcast_capacity: usize,
    /// How long a disconnected publisher may reclaim its stream, in ms
    pub publisher_grace_period_ms: u64,
    /// How long an idle stream survives before cleanup, in ms
    pub idle_stream_timeout_ms: u64,
    /// How often the cleanup sweep runs, in ms
    pub cleanup_interval_ms: u64,
    /// Byte budget of each stream's GOP buffer
    pub max_gop_size: usize,
}

impl Default for RegistryConfig {
    /// Defaults: a 256-frame ring, 10 s grace, 60 s idle timeout, 10 s
    /// sweep interval, 4 MiB GOP budget.
    fn default() -> (r: Self)
        ensures
            r.broadcast_capacity == 256,
            r.publisher_grace_period_ms == 10_000,
            r.idle_stream_timeout_ms == 60_000,
            r.cleanup_interval_ms == 10_000,
            r.max_gop_size == 4 * 1024 * 1024,
    {
        RegistryConfig {
            broadcast_capacity: 256,
            publisher_grace_period_ms: 10_000,
            idle_stream_timeout_ms: 60_000,
            cleanup_interval_ms: 10_000,
            max_gop_size: 4 * 1024 * 1024,
        }
    }
}

impl RegistryConfig {
    /// Set the publisher grace period.
    pub fn publisher_grace_period(self, ms: u64) -> (r: Self)
        ensures
            r == (RegistryConfig { publisher_grace_period_ms: ms, ..self }),
    {
        RegistryConfig { publisher_grace_period_ms: ms, ..self }
    }

    /// Set the idle stream timeout.
    pub fn idle_stream_timeout(self, ms: u64) -> (r: Self)
        ensures
            r == (RegistryConfig { idle_stream_timeout_ms: ms, ..self }),
    {
        RegistryConfig { idle_stream_timeout_ms: ms, ..self }
    }

    /// Set the GOP buffer byte budget.
    pub fn max_gop_size(self, bytes: usize) -> (r: Self)
        ensures
            r == (RegistryConfig { max_gop_size: bytes, ..self }),
    {
        RegistryConfig { max_gop_size: bytes, ..self }
    }
}

/// Error type for registry operations.
#[derive(Debug, Clone)]
pub enum RegistryError {
    /// Stream not found
    StreamNotFound(StreamKey),
    /// Stream already has a publisher
    StreamAlreadyPublishing(StreamKey),
    /// Publisher id mismatch
    PublisherMismatch,
    /// Stream is not active (idle without a publisher)
    StreamNotActive(StreamKey),
}

/// Entry for a single stream in the registry.
#[derive(Debug)]
pub struct StreamEntry {
    /// GOP buffer for late-joiner support
    pub gop_buffer: GopBuffer,
    /// Cached video sequence header
    pub video_header: Option<BroadcastFrame>,
    /// Cached audio sequence header
    pub audio_header: Option<BroadcastFrame>,
    /// Cached metadata
    pub metadata: Option<BroadcastFrame>,
    /// Current publisher's session id (None when no publisher)
    pub publisher_id: Option<u64>,
    /// Number of active subscribers
    pub subscriber_count: u32,
    /// When the publisher disconnected, in ms (for grace tracking)
    pub publisher_disconnected_at: Option<u64>,
    /// When the entry was created, in ms
    pub created_at: u64,
    /// Current stream state
    pub state: StreamState,
}

impl StreamEntry {
    /// The entry invariants: an entry is Active exactly when a publisher
    /// owns it; a grace period always records when the publisher left;
    /// and the GOP buffer accounting is sound.
    pub open spec fn wf(&self) -> bool {
        &&& (self.publisher_id is Some <==> self.state == StreamState::Active)
        &&& (self.state == StreamState::GracePeriod ==> self.publisher_disconnected_at is Some)
        &&& self.gop_buffer.wf()
    }

    /// A fresh idle entry created now.
    pub fn new_at(config: &RegistryConfig, now_ms: u64) -> (r: Self)
        ensures
            r.gop_buffer.spec_max_size() == config.max_gop_size,
            r.gop_buffer.spec_frames().len() == 0,
            !r.gop_buffer.spec_complete(),
            r.video_header is None,
            r.audio_header is None,
            r.metadata is None,
            r.publisher_id is None,
            r.subscriber_count == 0,
            r.publisher_disconnected_at is None,
            r.created_at == now_ms,
            r.state == StreamState::Idle,
            r.wf(),
    {
        StreamEntry {
            gop_buffer: GopBuffer::with_max_size(config.max_gop_size),
            video_header: None,
            audio_header: None,
            metadata: None,
            publisher_id: None,
            subscriber_count: 0,
            publisher_disconnected_at: None,
            created_at: now_ms,
            state: StreamState::Idle,
        }
    }

    /// The number of subscribers.
    pub fn subscriber_count(&self) -> (r: u32)
        ensures
            r == self.subscriber_count,
    {
        self.subscriber_count
    }

    /// Whether the stream has an active publisher.
    pub fn has_publisher(&self) -> (r: bool)
        ensures
            r == (self.publisher_id is Some),
    {
        match self.publisher_id {
            Some(_) => true,
            None => false,
        }
    }

    /// What a late joiner receives from this entry, in order: cached
    /// metadata, video header, audio header, then the GOP buffer's
    /// catch-up tags converted to broadcast frames.
    pub open spec fn spec_catchup(&self) -> Seq<(FrameType, u32, Seq<u8>, bool, bool)> {
        let md = match self.metadata {
            Some(f) => seq![frame_view(f)],
            None => Seq::empty(),
        };
        let vh = match self.video_header {
            Some(f) => seq![frame_view(f)],
            None => Seq::empty(),
        };
        let ah = match self.audio_header {
            Some(f) => seq![frame_view(f)],
            None => Seq::empty(),
        };
        let gvh = match self.gop_buffer.spec_video_header() {
            Some(h) => seq![h],
            None => Seq::<FlvTag>::empty(),
        };
        let gah = match self.gop_buffer.spec_audio_header() {
            Some(h) => seq![h],
            None => Seq::<FlvTag>::empty(),
        };
        let gop = tags_view(gvh + gah + self.gop_buffer.spec_frames());
        md + vh + ah + Seq::new(gop.len(), |i: int| conv_tag(gop[i]))
    }

    /// Catch-up frames for a new subscriber.
    pub fn get_catchup_frames(&self) -> (r: Vec<BroadcastFrame>)
        ensures
            frames_view(r@) =~= self.spec_catchup(),
    {
        let mut frames: Vec<BroadcastFrame> = Vec::new();

        if let Some(meta) = &self.metadata {
            let c = meta.clone();
            frames.push(c);
        }
        if let Some(video) = &self.video_header {
            let c = video.clone();
            frames.push(c);
        }
        if let Some(audio) = &self.audio_header {
            let c = audio.clone();
            frames.push(c);
        }
        let ghost pre = frames@;
        let ghost gop = ({
            let gvh = match self.gop_buffer.spec_video_header() {
                Some(h) => seq![h],
                None => Seq::<FlvTag>::empty(),
            };
            let gah = match self.gop_buffer.spec_audio_header() {
                Some(h) => seq![h],
                None => Seq::<FlvTag>::empty(),
            };
            tags_view(gvh + gah + self.gop_buffer.spec_frames())
        });

        let tags = self.gop_buffer.get_catchup_data();
        let mut i: usize = 0;
        while i < tags.len()
            invariant
                i <= tags@.len(),
                tags_view(tags@) =~= gop,
                frames@.len() == pre.len() + i,
                frames@.subrange(0, pre.len() as int) == pre,
                forall|k: int| 0 <= k < i ==> frame_view(frames@[pre.len() + k]) == conv_tag(
                    gop[k],
                ),
            decreases tags@.len() - i,
        {
            let f = BroadcastFrame::from_flv_tag(&tags[i]);
            proof {
                assert(tags_view(tags@)[i as int] == tag_view(tags@[i as int]));
                assert(frames@.push(f).subrange(0, pre.len() as int) =~= frames@.subrange(
                    0,
                    pre.len() as int,
                ));
            }
            frames.push(f);
            i = i + 1;
        }
        proof {
            assert forall|k: int| 0 <= k < frames@.len() implies frame_view(frames@[k])
                == self.spec_catchup()[k] by {
                if k < pre.len() {
                    assert(frames@.subrange(0, pre.len() as int)[k] == frames@[k]);
                }
            }
        }
        frames
    }

    /// Update cached headers and the GOP buffer for a frame about to be
    /// broadcast: video and audio sequence headers and metadata replace
    /// the caches; a non-header video frame feeds the GOP buffer.
    pub fn update_caches(&mut self, frame: &BroadcastFrame)
        requires
            old(self).gop_buffer.wf(),
        ensures
            final(self).gop_buffer.wf(),
            final(self).publisher_id == old(self).publisher_id,
            final(self).subscriber_count == old(self).subscriber_count,
            final(self).publisher_disconnected_at == old(self).publisher_disconnected_at,
            final(self).created_at == old(self).created_at,
            final(self).state == old(self).state,
            // header caches
            if frame.frame_type == FrameType::Video && frame.is_header {
                final(self).video_header matches Some(h) && frame_view(h) == frame_view(*frame)
            } else {
                final(self).video_header == old(self).video_header
            },
            if frame.frame_type == FrameType::Audio && frame.is_header {
                final(self).audio_header matches Some(h) && frame_view(h) == frame_view(*frame)
            } else {
                final(self).audio_header == old(self).audio_header
            },
            if frame.frame_type == FrameType::Metadata {
                final(self).metadata matches Some(h) && frame_view(h) == frame_view(*frame)
            } else {
                final(self).metadata == old(self).metadata
            },
            // GOP buffer
            final(self).gop_buffer.spec_max_size() == old(self).gop_buffer.spec_max_size(),
            final(self).gop_buffer.spec_video_header() == old(self).gop_buffer.spec_video_header(),
            final(self).gop_buffer.spec_audio_header() == old(self).gop_buffer.spec_audio_header(),
            final(self).gop_buffer.spec_metadata() == old(self).gop_buffer.spec_metadata(),
            ({
                let pl = bytes_view(frame.data);
                let max = old(self).gop_buffer.spec_max_size();
                let frames0 = old(self).gop_buffer.spec_frames();
                if frame.frame_type == FrameType::Video && !frame.is_header {
                    if pl.len() > max {
                        final(self).gop_buffer.spec_frames() == frames0 && final(self).gop_buffer.spec_complete() == old(self).gop_buffer.spec_complete()
                    } else if spec_is_keyframe(pl) {
                        tags_view(final(self).gop_buffer.spec_frames()) =~= seq![
                            (FlvTagType::Video, frame.timestamp, pl),
                        ] && final(self).gop_buffer.spec_complete()
                    } else {
                        tags_view(final(self).gop_buffer.spec_frames()) =~= tags_view(
                            frames0.skip(gop_drops(frames0, pl.len() as int, max)),
                        ).push((FlvTagType::Video, frame.timestamp, pl)) && final(self).gop_buffer.spec_complete() == (old(self).gop_buffer.spec_complete()
                            && gop_drops(frames0, pl.len() as int, max) == 0)
                    }
                } else {
                    final(self).gop_buffer.spec_frames() == frames0 && final(self).gop_buffer.spec_complete() == old(self).gop_buffer.spec_complete()
                }
            }),
    {
        let is_video = self.frame_is(frame, FrameType::Video);
        let is_audio = self.frame_is(frame, FrameType::Audio);
        let is_meta = self.frame_is(frame, FrameType::Metadata);

        if is_video && frame.is_header {
            self.video_header = Some(frame.clone());
        } else if is_audio && frame.is_header {
            self.audio_header = Some(frame.clone());
        } else if is_meta {
            self.metadata = Some(frame.clone());
        }

        if is_video && !frame.is_header {
            let tag = FlvTag::video(frame.timestamp, frame.data.clone());
            let ghost frames0 = self.gop_buffer.spec_frames();
            let _accepted = self.gop_buffer.push(tag);
            proof {
                let pl = bytes_view(frame.data);
                let max = self.gop_buffer.spec_max_size();
                if pl.len() <= max {
                    if spec_is_keyframe(pl) {
                        assert(tags_view(self.gop_buffer.spec_frames()) =~= seq![
                            (FlvTagType::Video, frame.timestamp, pl),
                        ]);
                    } else {
                        let d = gop_drops(frames0, pl.len() as int, max);
                        assert(tags_view(self.gop_buffer.spec_frames()) =~= tags_view(
                            frames0.skip(d),
                        ).push((FlvTagType::Video, frame.timestamp, pl)));
                    }
                }
            }
        }
    }

    /// Whether the frame has the given type.
    fn frame_is(&self, frame: &BroadcastFrame, t: FrameType) -> (r: bool)
        ensures
            r == (frame.frame_type == t),
    {
        frame.frame_type == t
    }
}

/// Statistics for a stream.
#[derive(Debug, Clone, PartialEq, Eq, Structural)]
pub struct StreamStats {
    /// Number of active subscribers
    pub subscriber_count: u32,
    /// Whether the stream has an active publisher
    pub has_publisher: bool,
    /// Current stream state
    pub state: StreamState,
    /// Number of frames in the GOP buffer
    pub gop_frame_count: usize,
    /// Size of the GOP buffer in bytes
    pub gop_size_bytes: usize,
}


/// The backpressure-by-demotion policy for one subscriber's delivery
/// task. When the broadcast ring reports lag, the subscriber must not
/// stall the publisher: it resynchronizes by dropping every frame until
/// the next keyframe and resumes there.
#[derive(Debug, Clone, Copy, PartialEq, Eq, Structural)]
pub struct DeliveryGate {
    /// Whether the subscriber is waiting for a keyframe to resume
    pub awaiting_keyframe: bool,
}

impl DeliveryGate {
    /// A gate that delivers everything until the first lag.
    pub fn new() -> (r: Self)
        ensures
            !r.awaiting_keyframe,
    {
        DeliveryGate { awaiting_keyframe: false }
    }

    /// The broadcast receive reported lag: demote until a keyframe.
    pub fn on_lag(&mut self)
        ensures
            final(self).awaiting_keyframe,
    {
        self.awaiting_keyframe = true;
    }

    /// Whether to deliver this frame. While demoted, only a keyframe
    /// passes, and passing it resumes normal delivery; otherwise
    /// everything passes.
    pub fn deliver(&mut self, frame: &BroadcastFrame) -> (r: bool)
        ensures
            r == (!old(self).awaiting_keyframe || frame.is_keyframe),
            final(self).awaiting_keyframe == (old(self).awaiting_keyframe && !frame.is_keyframe),
    {
        if self.awaiting_keyframe {
            if frame.is_keyframe {
                self.awaiting_keyframe = false;
                true
            } else {
                false
            }
        } else {
            true
        }
    }
}

impl Default for DeliveryGate {
    /// A gate that delivers everything.
    fn default() -> (r: Self)
        ensures
            !r.awaiting_keyframe,
    {
        DeliveryGate::new()
    }
}

/// Whether `e` has outlived its welcome at time `now`: a grace period
/// older than `grace_ms`, or an idle entry older than `idle_ms` (counted
/// from the disconnect when one was recorded, else from creation).
pub open spec fn spec_expired(e: StreamEntry, now: u64, grace_ms: u64, idle_ms: u64) -> bool {
    match e.state {
        StreamState::GracePeriod => match e.publisher_disconnected_at {
            Some(d) => now >= d && now - d > grace_ms,
            None => false,
        },
        StreamState::Idle => match e.publisher_disconnected_at {
            Some(d) => now >= d && now - d > idle_ms,
            None => now >= e.created_at && now - e.created_at > idle_ms,
        },
        StreamState::Active => false,
    }
}

/// Central registry for all active streams. Entries are keyed by stream
/// key; keys are unique.
pub struct StreamRegistry {
    streams: Vec<(StreamKey, StreamEntry)>,
    config: RegistryConfig,
}

impl StreamRegistry {
    /// The entries, in creation order.
    pub closed spec fn entries(&self) -> Seq<(StreamKey, StreamEntry)> {
        self.streams@
    }

    /// The registry configuration.
    pub closed spec fn spec_config(&self) -> RegistryConfig {
        self.config
    }

    /// Key uniqueness and per-entry invariants.
    pub open spec fn wf(&self) -> bool {
        &&& forall|i: int, j: int|
            0 <= i < j < self.entries().len() ==> !((#[trigger] self.entries()[i]).0.is_key(
                (#[trigger] self.entries()[j]).0.app@,
                self.entries()[j].0.name@,
            ))
        &&& forall|i: int| 0 <= i < self.entries().len() ==> (#[trigger] self.entries()[i]).1.wf()
    }

    /// Whether some entry is keyed by `(app, name)`.
    pub open spec fn has_stream(&self, app: Seq<char>, name: Seq<char>) -> bool {
        exists|i: int|
            0 <= i < self.entries().len() && (#[trigger] self.entries()[i]).0.is_key(app, name)
    }

    /// Entries other than `(app, name)` are exactly as they were.
    pub open spec fn others_unchanged(
        pre: Seq<(StreamKey, StreamEntry)>,
        post: Seq<(StreamKey, StreamEntry)>,
        app: Seq<char>,
        name: Seq<char>,
    ) -> bool {
        &&& post.len() == pre.len()
        &&& forall|i: int|
            0 <= i < pre.len() && !((#[trigger] pre[i]).0.is_key(app, name)) ==> post[i] == pre[i]
        &&& forall|i: int|
            0 <= i < pre.len() && ((#[trigger] pre[i]).0.is_key(app, name)) ==> post[i].0
                == pre[i].0
    }

    /// A registry with the default configuration.
    pub fn new() -> (r: Self)
        ensures
            r.entries().len() == 0,
            r.wf(),
            r.spec_config().broadcast_capacity == 256,
            r.spec_config().publisher_grace_period_ms == 10_000,
            r.spec_config().idle_stream_timeout_ms == 60_000,
            r.spec_config().max_gop_size == 4 * 1024 * 1024,
    {
        StreamRegistry { streams: Vec::new(), config: RegistryConfig::default() }
    }

    /// A registry with a custom configuration.
    pub fn with_config(config: RegistryConfig) -> (r: Self)
        ensures
            r.entries().len() == 0,
            r.wf(),
            r.spec_config() == config,
    {
        StreamRegistry { streams: Vec::new(), config }
    }

    /// The registry configuration.
    pub fn config(&self) -> (r: &RegistryConfig)
        ensures
            *r == self.spec_config(),
    {
        &self.config
    }

    /// The total number of streams.
    pub fn stream_count(&self) -> (r: usize)
        ensures
            r == self.entries().len(),
    {
        self.streams.len()
    }

    /// In a well-formed registry at most one entry carries a given key.
    pub proof fn lemma_unique_match(&self, app: Seq<char>, name: Seq<char>, a: int, b: int)
        requires
            self.wf(),
            0 <= a < self.entries().len(),
            0 <= b < self.entries().len(),
            self.entries()[a].0.is_key(app, name),
            self.entries()[b].0.is_key(app, name),
        ensures
            a == b,
    {
        if a < b {
            assert(self.entries()[a].0.is_key(self.entries()[b].0.app@, self.entries()[b].0.name@));
        } else if b < a {
            assert(self.entries()[b].0.is_key(self.entries()[a].0.app@, self.entries()[a].0.name@));
        }
    }

    fn find_index(&self, key: &StreamKey) -> (r: Option<usize>)
        ensures
            match r {
                Some(i) => i < self.entries().len() && self.entries()[i as int].0.is_key(
                    key.app@,
                    key.name@,
                ),
                None => !self.has_stream(key.app@, key.name@),
            },
    {
        let mut i: usize = 0;
        while i < self.streams.len()
            invariant
                i <= self.entries().len(),
                forall|k: int|
                    0 <= k < i ==> !((#[trigger] self.entries()[k]).0.is_key(
                        key.app@,
                        key.name@,
                    )),
            decreases self.streams@.len() - i,
        {
            if self.streams[i].0.app == key.app && self.streams[i].0.name == key.name {
                return Some(i);
            }
            i = i + 1;
        }
        None
    }

    /// What registering `session_id` on `key` does, apart from the
    /// recorded creation time: an Active entry with an owner always
    /// rejects with `StreamAlreadyPublishing` and leaves the registry
    /// untouched; an existing grace-period, idle or unowned entry is
    /// always taken over (publisher set, disconnect time cleared, state
    /// Active, subscribers and caches kept); an absent key appends a
    /// fresh Active entry owned by the caller.
    pub open spec fn register_outcome(
        pre: Seq<(StreamKey, StreamEntry)>,
        post: Seq<(StreamKey, StreamEntry)>,
        key: StreamKey,
        session_id: u64,
        r: Result<(), RegistryError>,
    ) -> bool {
        let app = key.app@;
        let name = key.name@;
        let occupied = exists|i: int|
            0 <= i < pre.len() && (#[trigger] pre[i]).0.is_key(app, name) && pre[i].1.state
                == StreamState::Active && pre[i].1.publisher_id is Some;
        if occupied {
            &&& r == Err::<(), RegistryError>(RegistryError::StreamAlreadyPublishing(key))
            &&& post == pre
        } else if exists|i: int|
            0 <= i < pre.len() && (#[trigger] pre[i]).0.is_key(app, name) {
            &&& r is Ok
            &&& Self::others_unchanged(pre, post, app, name)
            &&& forall|i: int|
                0 <= i < pre.len() && (#[trigger] pre[i]).0.is_key(app, name) ==> {
                    let e0 = pre[i].1;
                    let e1 = post[i].1;
                    &&& e1.publisher_id == Some(session_id)
                    &&& e1.state == StreamState::Active
                    &&& e1.publisher_disconnected_at is None
                    &&& e1.subscriber_count == e0.subscriber_count
                    &&& e1.video_header == e0.video_header
                    &&& e1.audio_header == e0.audio_header
                    &&& e1.metadata == e0.metadata
                    &&& e1.gop_buffer == e0.gop_buffer
                    &&& e1.created_at == e0.created_at
                }
        } else {
            &&& r is Ok
            &&& post.len() == pre.len() + 1
            &&& post.take(pre.len() as int) == pre
            &&& post.last().0.is_key(app, name)
            &&& post.last().1.publisher_id == Some(session_id)
            &&& post.last().1.state == StreamState::Active
            &&& post.last().1.publisher_disconnected_at is None
            &&& post.last().1.subscriber_count == 0
            &&& post.last().1.video_header is None
            &&& post.last().1.audio_header is None
            &&& post.last().1.metadata is None
            &&& post.last().1.gop_buffer.spec_frames().len() == 0
            &&& !post.last().1.gop_buffer.spec_complete()
        }
    }

    /// What unregistering does, apart from the recorded disconnect time:
    /// only the owning session releases the stream; its entry loses the
    /// publisher, records a disconnect time, and enters GracePeriod when
    /// subscribers remain, else Idle. Everything else is untouched.
    pub open spec fn unregister_outcome(
        pre: Seq<(StreamKey, StreamEntry)>,
        post: Seq<(StreamKey, StreamEntry)>,
        key: StreamKey,
        session_id: u64,
    ) -> bool {
        let app = key.app@;
        let name = key.name@;
        &&& Self::others_unchanged(pre, post, app, name)
        &&& forall|i: int|
            0 <= i < pre.len() && (#[trigger] pre[i]).0.is_key(app, name) ==> {
                let e0 = pre[i].1;
                let e1 = post[i].1;
                if e0.publisher_id == Some(session_id) {
                    &&& e1.publisher_id is None
                    &&& e1.publisher_disconnected_at is Some
                    &&& e1.state == (if e0.subscriber_count > 0 {
                        StreamState::GracePeriod
                    } else {
                        StreamState::Idle
                    })
                    &&& e0.state == StreamState::Active
                    &&& e1.subscriber_count == e0.subscriber_count
                    &&& e1.video_header == e0.video_header
                    &&& e1.audio_header == e0.audio_header
                    &&& e1.metadata == e0.metadata
                    &&& e1.gop_buffer == e0.gop_buffer
                    &&& e1.created_at == e0.created_at
                } else {
                    e1 == e0
                }
            }
    }

    /// What one cleanup sweep at time `now` leaves: exactly the entries
    /// whose grace or idle deadline has not passed, in order.
    pub open spec fn swept(
        pre: Seq<(StreamKey, StreamEntry)>,
        post: Seq<(StreamKey, StreamEntry)>,
        now: u64,
        grace_ms: u64,
        idle_ms: u64,
    ) -> bool {
        post == pre.filter(
            (|p: (StreamKey, StreamEntry)| !spec_expired(p.1, now, grace_ms, idle_ms)),
        )
    }

    /// Register a publisher for a stream, at the given time.
    ///
    /// An absent key creates a fresh Active entry. A key whose entry is
    /// Active with a current owner is always rejected. A key in grace
    /// period, idle, or active without an owner is always taken over: the
    /// publisher id is set, the disconnect time cleared, the state made
    /// Active, and everything else (subscribers, caches, GOP) kept.
    pub fn register_publisher_at(&mut self, key: &StreamKey, session_id: u64, now_ms: u64) -> (r:
        Result<(), RegistryError>)
        requires
            old(self).wf(),
        ensures
            final(self).wf(),
            final(self).spec_config() == old(self).spec_config(),
            Self::register_outcome(
                old(self).entries(),
                final(self).entries(),
                *key,
                session_id,
                r,
            ),
            final(self).entries().len() > old(self).entries().len() ==> final(
                self).entries().last().1.created_at == now_ms,
    {
        match self.find_index(key) {
            Some(i) => {
                let ghost pre = self.streams@;
                let pair = self.streams.remove(i);
                let (k0, mut entry) = pair;
                let occupied = match (entry.state, &entry.publisher_id) {
                    (StreamState::Active, Some(_)) => true,
                    _ => false,
                };
                if occupied {
                    self.streams.insert(i, (k0, entry));
                    let kc = key.clone();
                    proof {
                        assert(self.streams@ =~= pre);
                        assert(kc == *key);
                    }
                    return Err(RegistryError::StreamAlreadyPublishing(kc));
                }
                entry.publisher_id = Some(session_id);
                entry.publisher_disconnected_at = None;
                entry.state = StreamState::Active;
                self.streams.insert(i, (k0, entry));
                proof {
                    assert(self.streams@.len() == pre.len());
                    assert forall|k: int| 0 <= k < pre.len() && k != i implies self.streams@[k]
                        == pre[k] by {
                        if k < i {
                            assert(pre.remove(i as int)[k] == pre[k]);
                        } else {
                            assert(pre.remove(i as int)[k - 1] == pre[k]);
                        }
                    }
                    assert forall|a: int, b: int|
                        0 <= a < b < self.streams@.len() implies !((
                    #[trigger] self.streams@[a]).0.is_key(
                        (#[trigger] self.streams@[b]).0.app@,
                        self.streams@[b].0.name@,
                    )) by {
                        assert(self.streams@[a].0 == pre[a].0);
                        assert(self.streams@[b].0 == pre[b].0);
                    }
                    assert forall|ii: int|
                        0 <= ii < pre.len() && (#[trigger] pre[ii]).0.is_key(
                            key.app@,
                            key.name@,
                        ) implies ii == i as int by {
                        old(self).lemma_unique_match(key.app@, key.name@, ii, i as int);
                    }
                    assert(!(pre[i as int].1.state == StreamState::Active && pre[
                        i as int].1.publisher_id is Some));
                    assert(Self::register_outcome(
                        pre,
                        self.streams@,
                        *key,
                        session_id,
                        Ok::<(), RegistryError>(()),
                    ));
                }
                Ok(())
            },
            None => {
                let ghost pre = self.streams@;
                let mut entry = StreamEntry::new_at(&self.config, now_ms);
                entry.publisher_id = Some(session_id);
                entry.state = StreamState::Active;
                self.streams.push((key.clone(), entry));
                proof {
                    assert(self.streams@.take(pre.len() as int) =~= pre);
                    assert forall|a: int, b: int|
                        0 <= a < b < self.streams@.len() implies !((
                    #[trigger] self.streams@[a]).0.is_key(
                        (#[trigger] self.streams@[b]).0.app@,
                        self.streams@[b].0.name@,
                    )) by {
                        if b < pre.len() {
                            assert(self.streams@[a] == pre[a]);
                            assert(self.streams@[b] == pre[b]);
                        } else {
                            assert(self.streams@[a] == pre[a]);
                        }
                    }
                    assert(Self::register_outcome(
                        pre,
                        self.streams@,
                        *key,
                        session_id,
                        Ok::<(), RegistryError>(()),
                    ));
                }
                Ok(())
            },
        }
    }

    /// Register a publisher for a stream, timed by the clock.
    #[verifier::rlimit(100)]
    #[verifier::spinoff_prover]
    pub fn register_publisher(&mut self, key: &StreamKey, session_id: u64) -> (r: Result<
        (),
        RegistryError,
    >)
        requires
            old(self).wf(),
        ensures
            final(self).wf(),
            final(self).spec_config() == old(self).spec_config(),
            Self::register_outcome(
                old(self).entries(),
                final(self).entries(),
                *key,
                session_id,
                r,
            ),
    {
        let now = now_millis();
        let r = self.register_publisher_at(key, session_id, now);
        proof {
            assert(Self::register_outcome(
                old(self).entries(),
                self.entries(),
                *key,
                session_id,
                r,
            ));
        }
        r
    }

    /// Unregister a publisher, at the given time. Only the session that
    /// owns the stream may release it; the entry then enters its grace
    /// period if subscribers remain, else goes idle, recording the
    /// disconnect time either way.
    pub fn unregister_publisher_at(&mut self, key: &StreamKey, session_id: u64, now_ms: u64)
        requires
            old(self).wf(),
        ensures
            final(self).wf(),
            final(self).spec_config() == old(self).spec_config(),
            Self::unregister_outcome(old(self).entries(), final(self).entries(), *key, session_id),
            forall|i: int|
                0 <= i < old(self).entries().len() && (#[trigger] old(self).entries()[i]).0.is_key(
                    key.app@,
                    key.name@,
                ) && old(self).entries()[i].1.publisher_id == Some(session_id) ==> final(self).entries()[i].1.publisher_disconnected_at == Some(now_ms),
    {
        match self.find_index(key) {
            Some(i) => {
                let ghost pre = self.streams@;
                let pair = self.streams.remove(i);
                let (k0, mut entry) = pair;
                let owned = match &entry.publisher_id {
                    Some(id) => *id == session_id,
                    None => false,
                };
                if !owned {
                    self.streams.insert(i, (k0, entry));
                    proof {
                        assert(self.streams@ =~= pre);
                    }
                    return ;
                }
                entry.publisher_id = None;
                entry.publisher_disconnected_at = Some(now_ms);
                if entry.subscriber_count > 0 {
                    entry.state = StreamState::GracePeriod;
                } else {
                    entry.state = StreamState::Idle;
                }
                self.streams.insert(i, (k0, entry));
                proof {
                    assert(self.streams@.len() == pre.len());
                    assert forall|k: int| 0 <= k < pre.len() && k != i implies self.streams@[k]
                        == pre[k] by {
                        if k < i {
                            assert(pre.remove(i as int)[k] == pre[k]);
                        } else {
                            assert(pre.remove(i as int)[k - 1] == pre[k]);
                        }
                    }
                    assert forall|a: int, b: int|
                        0 <= a < b < self.streams@.len() implies !((
                    #[trigger] self.streams@[a]).0.is_key(
                        (#[trigger] self.streams@[b]).0.app@,
                        self.streams@[b].0.name@,
                    )) by {
                        assert(self.streams@[a].0 == pre[a].0);
                        assert(self.streams@[b].0 == pre[b].0);
                    }
                }
            },
            None => {
            },
        }
    }

    /// Unregister a publisher, timed by the clock.
    pub fn unregister_publisher(&mut self, key: &StreamKey, session_id: u64)
        requires
            old(self).wf(),
        ensures
            final(self).wf(),
            final(self).spec_config() == old(self).spec_config(),
            Self::unregister_outcome(old(self).entries(), final(self).entries(), *key, session_id),
    {
        let now = now_millis();
        self.unregister_publisher_at(key, session_id, now)
    }

    /// Subscribe to a stream: returns the catch-up frames (cached
    /// metadata, headers, and the GOP) and counts the subscriber in.
    /// Subscription succeeds during the grace period; an idle entry
    /// without a publisher is not playable.
    pub fn subscribe(&mut self, key: &StreamKey) -> (r: Result<Vec<BroadcastFrame>, RegistryError>)
        requires
            old(self).wf(),
        ensures
            final(self).wf(),
            final(self).spec_config() == old(self).spec_config(),
            ({
                let app = key.app@;
                let name = key.name@;
                let pre = old(self).entries();
                let post = final(self).entries();
                if !old(self).has_stream(app, name) {
                    r matches Err(RegistryError::StreamNotFound(_)) && post == pre
                } else {
                    &&& Self::others_unchanged(pre, post, app, name)
                    &&& forall|i: int|
                        0 <= i < pre.len() && (#[trigger] pre[i]).0.is_key(app, name) ==> {
                            let e0 = pre[i].1;
                            let e1 = post[i].1;
                            if e0.state == StreamState::Idle && e0.publisher_id is None {
                                r matches Err(RegistryError::StreamNotActive(_)) && e1 == e0
                            } else {
                                &&& r matches Ok(frames) && frames_view(frames@)
                                    =~= e0.spec_catchup()
                                &&& e1.subscriber_count == ((e0.subscriber_count + 1)
                                    % 0x1_0000_0000) as u32
                                &&& e1.publisher_id == e0.publisher_id
                                &&& e1.state == e0.state
                                &&& e1.publisher_disconnected_at == e0.publisher_disconnected_at
                                &&& e1.video_header == e0.video_header
                                &&& e1.audio_header == e0.audio_header
                                &&& e1.metadata == e0.metadata
                                &&& e1.gop_buffer == e0.gop_buffer
                                &&& e1.created_at == e0.created_at
                            }
                        }
                }
            }),
    {
        match self.find_index(key) {
            Some(i) => {
                let ghost pre = self.streams@;
                let pair = self.streams.remove(i);
                let (k0, mut entry) = pair;
                if match (entry.state, &entry.publisher_id) {
                    (StreamState::Idle, None) => true,
                    _ => false,
                } {
                    self.streams.insert(i, (k0, entry));
                    proof {
                        assert(self.streams@ =~= pre);
                    }
                    return Err(RegistryError::StreamNotActive(key.clone()));
                }
                let catchup = entry.get_catchup_frames();
                entry.subscriber_count = entry.subscriber_count.wrapping_add(1);
                self.streams.insert(i, (k0, entry));
                proof {
                    assert(self.streams@.len() == pre.len());
                    assert forall|k: int| 0 <= k < pre.len() && k != i implies self.streams@[k]
                        == pre[k] by {
                        if k < i {
                            assert(pre.remove(i as int)[k] == pre[k]);
                        } else {
                            assert(pre.remove(i as int)[k - 1] == pre[k]);
                        }
                    }
                    assert forall|a: int, b: int|
                        0 <= a < b < self.streams@.len() implies !((
                    #[trigger] self.streams@[a]).0.is_key(
                        (#[trigger] self.streams@[b]).0.app@,
                        self.streams@[b].0.name@,
                    )) by {
                        assert(self.streams@[a].0 == pre[a].0);
                        assert(self.streams@[b].0 == pre[b].0);
                    }
                }
                Ok(catchup)
            },
            None => Err(RegistryError::StreamNotFound(key.clone())),
        }
    }

    /// Drop a subscriber from a stream's count. Entries are never removed
    /// here; the cleanup sweep does that.
    pub fn unsubscribe(&mut self, key: &StreamKey)
        requires
            old(self).wf(),
        ensures
            final(self).wf(),
            final(self).spec_config() == old(self).spec_config(),
            ({
                let app = key.app@;
                let name = key.name@;
                let pre = old(self).entries();
                let post = final(self).entries();
                &&& Self::others_unchanged(pre, post, app, name)
                &&& forall|i: int|
                    0 <= i < pre.len() && (#[trigger] pre[i]).0.is_key(app, name) ==> {
                        let e0 = pre[i].1;
                        let e1 = post[i].1;
                        &&& e1.subscriber_count == ((e0.subscriber_count as int - 1)
                            % 0x1_0000_0000) as u32
                        &&& e1.publisher_id == e0.publisher_id
                        &&& e1.state == e0.state
                        &&& e1.publisher_disconnected_at == e0.publisher_disconnected_at
                        &&& e1.video_header == e0.video_header
                        &&& e1.audio_header == e0.audio_header
                        &&& e1.metadata == e0.metadata
                        &&& e1.gop_buffer == e0.gop_buffer
                        &&& e1.created_at == e0.created_at
                    }
            }),
    {
        match self.find_index(key) {
            Some(i) => {
                let ghost pre = self.streams@;
                let pair = self.streams.remove(i);
                let (k0, mut entry) = pair;
                entry.subscriber_count = entry.subscriber_count.wrapping_sub(1);
                self.streams.insert(i, (k0, entry));
                proof {
                    assert(self.streams@.len() == pre.len());
                    assert forall|k: int| 0 <= k < pre.len() && k != i implies self.streams@[k]
                        == pre[k] by {
                        if k < i {
                            assert(pre.remove(i as int)[k] == pre[k]);
                        } else {
                            assert(pre.remove(i as int)[k - 1] == pre[k]);
                        }
                    }
                    assert forall|a: int, b: int|
                        0 <= a < b < self.streams@.len() implies !((
                    #[trigger] self.streams@[a]).0.is_key(
                        (#[trigger] self.streams@[b]).0.app@,
                        self.streams@[b].0.name@,
                    )) by {
                        assert(self.streams@[a].0 == pre[a].0);
                        assert(self.streams@[b].0 == pre[b].0);
                    }
                }
            },
            None => {
            },
        }
    }

    /// Route a frame: update the entry's header and GOP caches. The host
    /// then hands the frame to the entry's broadcast channel; dropped
    /// frames (no receivers) are tolerated there. Returns whether the
    /// stream exists.
    pub fn broadcast(&mut self, key: &StreamKey, frame: &BroadcastFrame) -> (r: bool)
        requires
            old(self).wf(),
        ensures
            final(self).wf(),
            final(self).spec_config() == old(self).spec_config(),
            r == old(self).has_stream(key.app@, key.name@),
            ({
                let app = key.app@;
                let name = key.name@;
                let pre = old(self).entries();
                let post = final(self).entries();
                &&& Self::others_unchanged(pre, post, app, name)
                &&& forall|i: int|
                    0 <= i < pre.len() && (#[trigger] pre[i]).0.is_key(app, name) ==> {
                        let e0 = pre[i].1;
                        let e1 = post[i].1;
                        &&& e1.publisher_id == e0.publisher_id
                        &&& e1.subscriber_count == e0.subscriber_count
                        &&& e1.state == e0.state
                        &&& e1.publisher_disconnected_at == e0.publisher_disconnected_at
                        &&& e1.created_at == e0.created_at
                        &&& if frame.frame_type == FrameType::Video && frame.is_header {
                            e1.video_header matches Some(h) && frame_view(h) == frame_view(
                                *frame,
                            )
                        } else {
                            e1.video_header == e0.video_header
                        }
                        &&& if frame.frame_type == FrameType::Audio && frame.is_header {
                            e1.audio_header matches Some(h) && frame_view(h) == frame_view(
                                *frame,
                            )
                        } else {
                            e1.audio_header == e0.audio_header
                        }
                        &&& if frame.frame_type == FrameType::Metadata {
                            e1.metadata matches Some(h) && frame_view(h) == frame_view(*frame)
                        } else {
                            e1.metadata == e0.metadata
                        }
                        &&& ({
                            let pl = bytes_view(frame.data);
                            let max = e0.gop_buffer.spec_max_size();
                            let frames0 = e0.gop_buffer.spec_frames();
                            &&& e1.gop_buffer.spec_max_size() == max
                            &&& if frame.frame_type == FrameType::Video && !frame.is_header {
                                if pl.len() > max {
                                    e1.gop_buffer.spec_frames() == frames0
                                        && e1.gop_buffer.spec_complete()
                                        == e0.gop_buffer.spec_complete()
                                } else if spec_is_keyframe(pl) {
                                    tags_view(e1.gop_buffer.spec_frames()) =~= seq![
                                        (FlvTagType::Video, frame.timestamp, pl),
                                    ] && e1.gop_buffer.spec_complete()
                                } else {
                                    tags_view(e1.gop_buffer.spec_frames()) =~= tags_view(
                                        frames0.skip(
                                            gop_drops(frames0, pl.len() as int, max),
                                        ),
                                    ).push((FlvTagType::Video, frame.timestamp, pl))
                                        && e1.gop_buffer.spec_complete() == (
                                    e0.gop_buffer.spec_complete() && gop_drops(
                                        frames0,
                                        pl.len() as int,
                                        max,
                                    ) == 0)
                                }
                            } else {
                                e1.gop_buffer.spec_frames() == frames0
                                    && e1.gop_buffer.spec_complete()
                                    == e0.gop_buffer.spec_complete()
                            }
                        })
                    }
            }),
    {
        match self.find_index(key) {
            Some(i) => {
                let ghost pre = self.streams@;
                let pair = self.streams.remove(i);
                let (k0, mut entry) = pair;
                entry.update_caches(frame);
                self.streams.insert(i, (k0, entry));
                proof {
                    assert(self.streams@.len() == pre.len());
                    assert forall|k: int| 0 <= k < pre.len() && k != i implies self.streams@[k]
                        == pre[k] by {
                        if k < i {
                            assert(pre.remove(i as int)[k] == pre[k]);
                        } else {
                            assert(pre.remove(i as int)[k - 1] == pre[k]);
                        }
                    }
                    assert forall|a: int, b: int|
                        0 <= a < b < self.streams@.len() implies !((
                    #[trigger] self.streams@[a]).0.is_key(
                        (#[trigger] self.streams@[b]).0.app@,
                        self.streams@[b].0.name@,
                    )) by {
                        assert(self.streams@[a].0 == pre[a].0);
                        assert(self.streams@[b].0 == pre[b].0);
                    }
                }
                true
            },
            None => false,
        }
    }

    /// The cached video and audio sequence headers for a stream, used to
    /// reinitialize a decoder on resume.
    pub fn get_sequence_headers(&self, key: &StreamKey) -> (r: Vec<BroadcastFrame>)
        requires
            self.wf(),
        ensures
            ({
                let app = key.app@;
                let name = key.name@;
                if !self.has_stream(app, name) {
                    r@.len() == 0
                } else {
                    forall|i: int|
                        0 <= i < self.entries().len() && (#[trigger] self.entries()[i]).0.is_key(
                            app,
                            name,
                        ) ==> {
                            let e = self.entries()[i].1;
                            let vh = match e.video_header {
                                Some(f) => seq![frame_view(f)],
                                None => Seq::empty(),
                            };
                            let ah = match e.audio_header {
                                Some(f) => seq![frame_view(f)],
                                None => Seq::empty(),
                            };
                            frames_view(r@) =~= vh + ah
                        }
                }
            }),
    {
        match self.find_index(key) {
            Some(i) => {
                let entry = &self.streams[i].1;
                let mut frames: Vec<BroadcastFrame> = Vec::new();
                if let Some(video) = &entry.video_header {
                    let c = video.clone();
                    frames.push(c);
                }
                if let Some(audio) = &entry.audio_header {
                    let c = audio.clone();
                    frames.push(c);
                }
                proof {
                    assert forall|j: int|
                        0 <= j < self.entries().len() && (#[trigger] self.entries()[j]).0.is_key(
                            key.app@,
                            key.name@,
                        ) implies j == i as int by {
                        self.lemma_unique_match(key.app@, key.name@, j, i as int);
                    }
                }
                frames
            },
            None => Vec::new(),
        }
    }

    /// Whether a stream exists and has an active publisher.
    pub fn has_active_stream(&self, key: &StreamKey) -> (r: bool)
        requires
            self.wf(),
        ensures
            r == exists|i: int|
                0 <= i < self.entries().len() && (#[trigger] self.entries()[i]).0.is_key(
                    key.app@,
                    key.name@,
                ) && self.entries()[i].1.state == StreamState::Active && self.entries()[i].1.publisher_id is Some,
    {
        match self.find_index(key) {
            Some(i) => {
                let entry = &self.streams[i].1;
                let active = match (entry.state, &entry.publisher_id) {
                    (StreamState::Active, Some(_)) => true,
                    _ => false,
                };
                proof {
                    if active {
                        assert(0 <= i < self.entries().len() && self.entries()[i as int].0.is_key(
                            key.app@,
                            key.name@,
                        ) && self.entries()[i as int].1.state == StreamState::Active
                            && self.entries()[i as int].1.publisher_id is Some);
                    } else {
                        assert forall|j: int|
                            0 <= j < self.entries().len() && (#[trigger] self.entries()[
                            j]).0.is_key(key.app@, key.name@) implies j == i as int by {
                            self.lemma_unique_match(key.app@, key.name@, j, i as int);
                        }
                    }
                }
                active
            },
            None => false,
        }
    }

    /// Whether a stream exists, active or in its grace period.
    pub fn stream_exists(&self, key: &StreamKey) -> (r: bool)
        requires
            self.wf(),
        ensures
            r == exists|i: int|
                0 <= i < self.entries().len() && (#[trigger] self.entries()[i]).0.is_key(
                    key.app@,
                    key.name@,
                ) && (self.entries()[i].1.state == StreamState::Active || self.entries()[i].1.state == StreamState::GracePeriod),
    {
        match self.find_index(key) {
            Some(i) => {
                let entry = &self.streams[i].1;
                let live = match entry.state {
                    StreamState::Active => true,
                    StreamState::GracePeriod => true,
                    StreamState::Idle => false,
                };
                proof {
                    if live {
                        assert(0 <= i < self.entries().len() && self.entries()[i as int].0.is_key(
                            key.app@,
                            key.name@,
                        ) && (self.entries()[i as int].1.state == StreamState::Active
                            || self.entries()[i as int].1.state == StreamState::GracePeriod));
                    } else {
                        assert forall|j: int|
                            0 <= j < self.entries().len() && (#[trigger] self.entries()[
                            j]).0.is_key(key.app@, key.name@) implies j == i as int by {
                            self.lemma_unique_match(key.app@, key.name@, j, i as int);
                        }
                    }
                }
                live
            },
            None => false,
        }
    }

    /// A statistics snapshot for a stream.
    pub fn get_stream_stats(&self, key: &StreamKey) -> (r: Option<StreamStats>)
        requires
            self.wf(),
        ensures
            r is Some <==> self.has_stream(key.app@, key.name@),
            forall|i: int|
                0 <= i < self.entries().len() && (#[trigger] self.entries()[i]).0.is_key(
                    key.app@,
                    key.name@,
                ) ==> {
                    let e = self.entries()[i].1;
                    r matches Some(st) && st.subscriber_count == e.subscriber_count
                        && st.has_publisher == (e.publisher_id is Some) && st.state == e.state
                        && st.gop_frame_count == e.gop_buffer.spec_frames().len()
                        && st.gop_size_bytes == e.gop_buffer.spec_size()
                },
    {
        match self.find_index(key) {
            Some(i) => {
                let entry = &self.streams[i].1;
                proof {
                    assert forall|j: int|
                        0 <= j < self.entries().len() && (#[trigger] self.entries()[j]).0.is_key(
                            key.app@,
                            key.name@,
                        ) implies j == i as int by {
                        self.lemma_unique_match(key.app@, key.name@, j, i as int);
                    }
                }
                Some(
                    StreamStats {
                        subscriber_count: entry.subscriber_count(),
                        has_publisher: entry.has_publisher(),
                        state: entry.state,
                        gop_frame_count: entry.gop_buffer.frame_count(),
                        gop_size_bytes: entry.gop_buffer.size(),
                    },
                )
            },
            None => None,
        }
    }

    /// Run one cleanup sweep at the given time: remove entries whose
    /// grace period or idle timeout has elapsed, keeping everything else
    /// in order.
    pub fn cleanup_at(&mut self, now_ms: u64)
        requires
            old(self).wf(),
        ensures
            final(self).wf(),
            final(self).spec_config() == old(self).spec_config(),
            Self::swept(
                old(self).entries(),
                final(self).entries(),
                now_ms,
                old(self).spec_config().publisher_grace_period_ms,
                old(self).spec_config().idle_stream_timeout_ms,
            ),
    {
        let ghost pred = (|p: (StreamKey, StreamEntry)|
            !spec_expired(
                p.1,
                now_ms,
                self.config.publisher_grace_period_ms,
                self.config.idle_stream_timeout_ms,
            ));
        let ghost pre = self.streams@;
        let ghost mut j: int = 0;
        proof {
            reveal(Seq::filter);
            assert(pre.take(0int) =~= Seq::<(StreamKey, StreamEntry)>::empty());
            assert(pre.take(0int).filter(pred) =~= Seq::<(StreamKey, StreamEntry)>::empty());
            assert(pre.skip(0int) =~= pre);
        }
        let mut i: usize = 0;
        while i < self.streams.len()
            invariant
                0 <= j <= pre.len(),
                i as int == pre.take(j).filter(pred).len(),
                self.streams@ =~= pre.take(j).filter(pred) + pre.skip(j),
                self.config == old(self).config,
                pred == (|p: (StreamKey, StreamEntry)|
                    !spec_expired(
                        p.1,
                        now_ms,
                        old(self).spec_config().publisher_grace_period_ms,
                        old(self).spec_config().idle_stream_timeout_ms,
                    )),
            decreases self.streams@.len() - i,
        {
            proof {
                assert(pre.skip(j).len() > 0);
                assert(self.streams@[i as int] == pre.skip(j)[0]);
                assert(pre.skip(j)[0] == pre[j]);
                reveal(Seq::filter);
                assert(pre.take(j + 1).drop_last() =~= pre.take(j));
                assert(pre.take(j + 1).last() == pre[j]);
                assert(pre.take(j + 1).filter(pred) == if pred(pre[j]) {
                    pre.take(j).filter(pred).push(pre[j])
                } else {
                    pre.take(j).filter(pred)
                });
            }
            let expired = self.entry_expired(i, now_ms);
            if expired {
                let ghost before = self.streams@;
                let _gone = self.streams.remove(i);
                proof {
                    j = j + 1;
                    assert(self.streams@ =~= pre.take(j).filter(pred) + pre.skip(j)) by {
                        assert(before.remove(i as int) =~= pre.take(j - 1).filter(pred)
                            + pre.skip(j - 1).skip(1));
                        assert(pre.skip(j - 1).skip(1) =~= pre.skip(j));
                        assert(pre.take(j).filter(pred) == pre.take(j - 1).filter(pred));
                    }
                }
            } else {
                proof {
                    j = j + 1;
                    assert(self.streams@ =~= pre.take(j).filter(pred) + pre.skip(j)) by {
                        assert(pre.take(j).filter(pred) == pre.take(j - 1).filter(pred).push(
                            pre[j - 1],
                        ));
                        assert forall|k: int| 0 <= k < self.streams@.len() implies self.streams@[k]
                            == (pre.take(j).filter(pred) + pre.skip(j))[k] by {
                            if k < i {
                                assert(self.streams@[k] == (pre.take(j - 1).filter(pred)
                                    + pre.skip(j - 1))[k]);
                            } else if k == i {
                                assert(self.streams@[k] == pre[j - 1]);
                            } else {
                                assert(self.streams@[k] == pre.skip(j - 1)[k - i]);
                                assert(pre.skip(j)[k - i - 1] == pre.skip(j - 1)[k - i]);
                            }
                        }
                    }
                }
                i = i + 1;
            }
        }
        proof {
            assert(pre.skip(j).len() == 0);
            assert(j == pre.len());
            assert(pre.take(j) =~= pre);
            assert(self.streams@ =~= pre.filter(pred));
            assert forall|k: int| 0 <= k < pre.len() implies (#[trigger] pre[k]).1.wf() by {
                assert(pre[k] == old(self).entries()[k]);
            }
            assert forall|a: int, b: int| 0 <= a < b < pre.len() implies !((
            #[trigger] pre[a]).0.is_key((#[trigger] pre[b]).0.app@, pre[b].0.name@)) by {
                assert(pre[a] == old(self).entries()[a]);
                assert(pre[b] == old(self).entries()[b]);
            }
            lemma_filter_keeps_unique_and_wf(pre, pred);
        }
    }

    /// Run one cleanup sweep, timed by the clock.
    pub fn cleanup(&mut self)
        requires
            old(self).wf(),
        ensures
            final(self).wf(),
            final(self).spec_config() == old(self).spec_config(),
            exists|t: u64|
                #[trigger] Self::swept(
                    old(self).entries(),
                    final(self).entries(),
                    t,
                    old(self).spec_config().publisher_grace_period_ms,
                    old(self).spec_config().idle_stream_timeout_ms,
                ),
            final(self).entries().len() <= old(self).entries().len(),
    {
        let now = now_millis();
        self.cleanup_at(now);
        proof {
            assert(Self::swept(
                old(self).entries(),
                self.entries(),
                now,
                old(self).spec_config().publisher_grace_period_ms,
                old(self).spec_config().idle_stream_timeout_ms,
            ));
            old(self).entries().lemma_filter_len(
                (|p: (StreamKey, StreamEntry)|
                    !spec_expired(
                        p.1,
                        now,
                        old(self).spec_config().publisher_grace_period_ms,
                        old(self).spec_config().idle_stream_timeout_ms,
                    )),
            );
        }
    }

    /// Whether entry `i` is past its grace or idle deadline at `now_ms`.
    fn entry_expired(&self, i: usize, now_ms: u64) -> (r: bool)
        requires
            i < self.entries().len(),
        ensures
            r == spec_expired(
                self.entries()[i as int].1,
                now_ms,
                self.spec_config().publisher_grace_period_ms,
                self.spec_config().idle_stream_timeout_ms,
            ),
    {
        let entry = &self.streams[i].1;
        match entry.state {
            StreamState::GracePeriod => {
                match &entry.publisher_disconnected_at {
                    Some(d) => now_ms >= *d && now_ms - *d > self.config.publisher_grace_period_ms,
                    None => false,
                }
            },
            StreamState::Idle => {
                match &entry.publisher_disconnected_at {
                    Some(d) => now_ms >= *d && now_ms - *d > self.config.idle_stream_timeout_ms,
                    None => now_ms >= entry.created_at && now_ms - entry.created_at
                        > self.config.idle_stream_timeout_ms,
                }
            },
            StreamState::Active => false,
        }
    }
}

/// Every element of a filtered sequence comes from the original.
proof fn lemma_filter_elements<A>(s: Seq<A>, pred: spec_fn(A) -> bool)
    ensures
        forall|i: int|
            0 <= i < s.filter(pred).len() ==> exists|k: int|
                0 <= k < s.len() && #[trigger] s.filter(pred)[i] == s[k],
    decreases s.len(),
{
    reveal(Seq::filter);
    if s.len() > 0 {
        let d = s.drop_last();
        lemma_filter_elements(d, pred);
        assert forall|i: int| 0 <= i < s.filter(pred).len() implies exists|k: int|
            0 <= k < s.len() && #[trigger] s.filter(pred)[i] == s[k] by {
            if pred(s.last()) && i == s.filter(pred).len() - 1 {
                assert(s.filter(pred)[i] == s.last());
                assert(s.last() == s[s.len() - 1]);
            } else {
                assert(s.filter(pred)[i] == d.filter(pred)[i]);
                let k = choose|k: int| 0 <= k < d.len() && d.filter(pred)[i] == d[k];
                assert(d[k] == s[k]);
            }
        }
    }
}

/// Filtering a unique-keyed, well-formed entry list keeps it
/// unique-keyed and well-formed.
proof fn lemma_filter_keeps_unique_and_wf(
    s: Seq<(StreamKey, StreamEntry)>,
    pred: spec_fn((StreamKey, StreamEntry)) -> bool,
)
    requires
        forall|i: int, j: int|
            0 <= i < j < s.len() ==> !((#[trigger] s[i]).0.is_key(
                (#[trigger] s[j]).0.app@,
                s[j].0.name@,
            )),
        forall|i: int| 0 <= i < s.len() ==> (#[trigger] s[i]).1.wf(),
    ensures
        forall|i: int, j: int|
            0 <= i < j < s.filter(pred).len() ==> !((#[trigger] s.filter(pred)[i]).0.is_key(
                (#[trigger] s.filter(pred)[j]).0.app@,
                s.filter(pred)[j].0.name@,
            )),
        forall|i: int| 0 <= i < s.filter(pred).len() ==> (#[trigger] s.filter(pred)[i]).1.wf(),
    decreases s.len(),
{
    reveal(Seq::filter);
    if s.len() > 0 {
        let d = s.drop_last();
        assert forall|i: int| 0 <= i < d.len() implies (#[trigger] d[i]).1.wf() by {
            assert(d[i] == s[i]);
        }
        assert forall|i: int, j: int| 0 <= i < j < d.len() implies !((#[trigger] d[i]).0.is_key(
            (#[trigger] d[j]).0.app@,
            d[j].0.name@,
        )) by {
            assert(d[i] == s[i]);
            assert(d[j] == s[j]);
        }
        lemma_filter_keeps_unique_and_wf(d, pred);
        lemma_filter_elements(d, pred);
        let f = s.filter(pred);
        let rest = d.filter(pred);
        assert forall|i: int| 0 <= i < f.len() implies (#[trigger] f[i]).1.wf() by {
            if pred(s.last()) && i == f.len() - 1 {
                assert(f[i] == s[s.len() - 1]);
            } else {
                assert(f[i] == rest[i]);
            }
        }
        assert forall|a: int, b: int| 0 <= a < b < f.len() implies !((#[trigger] f[a]).0.is_key(
            (#[trigger] f[b]).0.app@,
            f[b].0.name@,
        )) by {
            if pred(s.last()) && b == f.len() - 1 && f == rest.push(s.last()) {
                assert(f[a] == rest[a]);
                assert(f[b] == s[s.len() - 1]);
                let k = choose|k: int| 0 <= k < d.len() && rest[a] == d[k];
                assert(d[k] == s[k]);
                assert(!(s[k].0.is_key(s[s.len() - 1].0.app@, s[s.len() - 1].0.name@)));
            } else {
                assert(f[a] == rest[a]);
                assert(f[b] == rest[b]);
            }
        }
    }
}

} // verus!
