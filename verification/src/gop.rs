//! GOP (group of pictures) buffer for late-joiner support.
//!
//! A new subscriber to a live stream needs the sequence headers, the most
//! recent keyframe, and every frame since it, so that its decoder can
//! start without waiting for the next keyframe. The buffer holds exactly
//! that: a keyframe opens a new GOP and discards the previous frames;
//! frames that would overflow the byte budget evict from the front; a
//! frame that cannot fit at all is rejected outright.

use vstd::prelude::*;

use bytes::Bytes;
use std::collections::VecDeque;

use crate::bytebuf::bytes_view;
use crate::flv::{spec_is_keyframe, FlvTag, FlvTagType};

verus! {

/// The observable content of a tag: type, timestamp, payload bytes.
pub open spec fn tag_view(t: FlvTag) -> (FlvTagType, u32, Seq<u8>) {
    (t.tag_type, t.timestamp, bytes_view(t.data))
}

/// The observable contents of a sequence of tags.
pub open spec fn tags_view(s: Seq<FlvTag>) -> Seq<(FlvTagType, u32, Seq<u8>)> {
    Seq::new(s.len(), |i: int| tag_view(s[i]))
}

/// Total payload bytes of the frames in `s`.
pub open spec fn gop_sizes(s: Seq<FlvTag>) -> int
    decreases s.len(),
{
    if s.len() == 0 {
        0
    } else {
        bytes_view(s[0].data).len() + gop_sizes(s.skip(1))
    }
}

/// How many frames must leave the front of `s` before a frame of `need`
/// more bytes fits under `max`.
pub open spec fn gop_drops(s: Seq<FlvTag>, need: int, max: int) -> int
    decreases s.len(),
{
    if gop_sizes(s) + need <= max || s.len() == 0 {
        0
    } else {
        1 + gop_drops(s.skip(1), need, max)
    }
}

/// Frame byte totals are never negative.
pub proof fn lemma_gop_sizes_nonneg(s: Seq<FlvTag>)
    ensures
        gop_sizes(s) >= 0,
    decreases s.len(),
{
    if s.len() > 0 {
        lemma_gop_sizes_nonneg(s.skip(1));
    }
}

/// Appending a frame adds its payload size to the total.
pub proof fn lemma_gop_sizes_push(s: Seq<FlvTag>, t: FlvTag)
    ensures
        gop_sizes(s.push(t)) == gop_sizes(s) + bytes_view(t.data).len(),
    decreases s.len(),
{
    assert(gop_sizes(s.push(t)) == bytes_view(s.push(t)[0].data).len() + gop_sizes(
        s.push(t).skip(1),
    ));
    if s.len() == 0 {
        assert(s.push(t)[0] == t);
        assert(s.push(t).skip(1) =~= Seq::<FlvTag>::empty());
        assert(gop_sizes(Seq::<FlvTag>::empty()) == 0);
    } else {
        assert(s.push(t)[0] == s[0]);
        assert(s.push(t).skip(1) =~= s.skip(1).push(t));
        lemma_gop_sizes_push(s.skip(1), t);
    }
}

/// A frame as large as the whole budget evicts every buffered frame
/// before it fits: with a positive budget and no zero-size frames
/// buffered, the drop count is the whole buffer. (A buffered zero-size
/// frame would satisfy the byte budget without leaving, so the eviction
/// rule stops early on it; such frames are excluded here.)
pub proof fn lemma_exact_budget_evicts_all(frames: Seq<FlvTag>, max: int)
    requires
        max >= 1,
        forall|i: int| 0 <= i < frames.len() ==> bytes_view(
            (#[trigger] frames[i]).data,
        ).len() >= 1,
    ensures
        gop_drops(frames, max, max) == frames.len(),
    decreases frames.len(),
{
    if frames.len() > 0 {
        lemma_gop_sizes_nonneg(frames.skip(1));
        assert(gop_sizes(frames) == bytes_view(frames[0].data).len() + gop_sizes(
            frames.skip(1),
        ));
        assert forall|i: int| 0 <= i < frames.skip(1).len() implies bytes_view(
            (#[trigger] frames.skip(1)[i]).data,
        ).len() >= 1 by {
            assert(frames.skip(1)[i] == frames[i + 1]);
        }
        lemma_exact_budget_evicts_all(frames.skip(1), max);
    }
}

/// Whether the buffered frames start with a keyframe when any are held.
pub open spec fn first_is_keyframe(s: Seq<FlvTag>) -> bool {
    s.len() > 0 ==> (s[0].tag_type == FlvTagType::Video && spec_is_keyframe(bytes_view(s[0].data)))
}

/// GOP buffer.
#[derive(Debug)]
pub struct GopBuffer {
    /// Maximum buffer size in bytes
    max_size: usize,
    /// Current buffer size in bytes
    current_size: usize,
    /// Video sequence header
    video_header: Option<FlvTag>,
    /// Audio sequence header
    audio_header: Option<FlvTag>,
    /// Metadata
    metadata: Option<Bytes>,
    /// Buffered frames since the last keyframe
    frames: VecDeque<FlvTag>,
    /// Whether the buffer holds a complete GOP (started with a keyframe)
    has_complete_gop: bool,
}

impl GopBuffer {
    /// The byte budget.
    pub closed spec fn spec_max_size(&self) -> int {
        self.max_size as int
    }

    /// The tracked byte count.
    pub closed spec fn spec_size(&self) -> int {
        self.current_size as int
    }

    /// The buffered frames, oldest first.
    pub closed spec fn spec_frames(&self) -> Seq<FlvTag> {
        self.frames@
    }

    /// The cached video sequence header.
    pub closed spec fn spec_video_header(&self) -> Option<FlvTag> {
        self.video_header
    }

    /// The cached audio sequence header.
    pub closed spec fn spec_audio_header(&self) -> Option<FlvTag> {
        self.audio_header
    }

    /// The cached metadata bytes.
    pub closed spec fn spec_metadata(&self) -> Option<Bytes> {
        self.metadata
    }

    /// Whether the current GOP began with a keyframe.
    pub closed spec fn spec_complete(&self) -> bool {
        self.has_complete_gop
    }

    /// The byte count matches the frames held and stays within budget.
    pub open spec fn wf(&self) -> bool {
        &&& self.spec_size() == gop_sizes(self.spec_frames())
        &&& self.spec_size() <= self.spec_max_size()
        &&& self.keyframe_first()
    }

    /// The GOP invariant: a complete GOP is non-empty and starts with a
    /// keyframe. Eviction that pops the opening keyframe clears the
    /// completeness flag, so this holds of every reachable buffer.
    pub open spec fn keyframe_first(&self) -> bool {
        self.spec_complete() ==> (self.spec_frames().len() > 0 && first_is_keyframe(
            self.spec_frames(),
        ))
    }

    /// A buffer with the default byte budget of 4 MiB.
    pub fn new() -> (r: Self)
        ensures
            r.spec_max_size() == 4 * 1024 * 1024,
            r.spec_frames().len() == 0,
            r.spec_video_header() is None,
            r.spec_audio_header() is None,
            r.spec_metadata() is None,
            !r.spec_complete(),
            r.spec_size() == 0,
            r.wf(),
            r.keyframe_first(),
    {
        Self::with_max_size(4 * 1024 * 1024)
    }

    /// A buffer with the given byte budget.
    pub fn with_max_size(max_size: usize) -> (r: Self)
        ensures
            r.spec_max_size() == max_size,
            r.spec_frames().len() == 0,
            r.spec_video_header() is None,
            r.spec_audio_header() is None,
            r.spec_metadata() is None,
            !r.spec_complete(),
            r.spec_size() == 0,
            r.wf(),
            r.keyframe_first(),
    {
        GopBuffer {
            max_size,
            current_size: 0,
            video_header: None,
            audio_header: None,
            metadata: None,
            frames: VecDeque::new(),
            has_complete_gop: false,
        }
    }

    /// Set the video sequence header.
    pub fn set_video_header(&mut self, tag: FlvTag)
        ensures
            final(self).spec_video_header() == Some(tag),
            final(self).spec_audio_header() == old(self).spec_audio_header(),
            final(self).spec_metadata() == old(self).spec_metadata(),
            final(self).spec_frames() == old(self).spec_frames(),
            final(self).spec_complete() == old(self).spec_complete(),
            final(self).spec_size() == old(self).spec_size(),
            final(self).spec_max_size() == old(self).spec_max_size(),
    {
        self.video_header = Some(tag);
    }

    /// Set the audio sequence header.
    pub fn set_audio_header(&mut self, tag: FlvTag)
        ensures
            final(self).spec_audio_header() == Some(tag),
            final(self).spec_video_header() == old(self).spec_video_header(),
            final(self).spec_metadata() == old(self).spec_metadata(),
            final(self).spec_frames() == old(self).spec_frames(),
            final(self).spec_complete() == old(self).spec_complete(),
            final(self).spec_size() == old(self).spec_size(),
            final(self).spec_max_size() == old(self).spec_max_size(),
    {
        self.audio_header = Some(tag);
    }

    /// Set the cached metadata bytes.
    pub fn set_metadata(&mut self, metadata: Bytes)
        ensures
            final(self).spec_metadata() == Some(metadata),
            final(self).spec_video_header() == old(self).spec_video_header(),
            final(self).spec_audio_header() == old(self).spec_audio_header(),
            final(self).spec_frames() == old(self).spec_frames(),
            final(self).spec_complete() == old(self).spec_complete(),
            final(self).spec_size() == old(self).spec_size(),
            final(self).spec_max_size() == old(self).spec_max_size(),
    {
        self.metadata = Some(metadata);
    }

    /// Add a frame.
    ///
    /// A keyframe discards all buffered frames and opens a new, complete
    /// GOP. Any other frame is appended, evicting from the front until it
    /// fits the byte budget. A frame larger than the whole budget is
    /// rejected and the buffer is unchanged.
    pub fn push(&mut self, tag: FlvTag) -> (r: bool)
        requires
            old(self).wf(),
        ensures
            final(self).wf(),
            final(self).spec_max_size() == old(self).spec_max_size(),
            final(self).spec_video_header() == old(self).spec_video_header(),
            final(self).spec_audio_header() == old(self).spec_audio_header(),
            final(self).spec_metadata() == old(self).spec_metadata(),
            r == (bytes_view(tag.data).len() <= old(self).spec_max_size()),
            ({
                let s = bytes_view(tag.data).len() as int;
                let key = tag.tag_type == FlvTagType::Video && spec_is_keyframe(
                    bytes_view(tag.data),
                );
                if s > old(self).spec_max_size() {
                    final(self).spec_frames() == old(self).spec_frames()
                        && final(self).spec_complete() == old(self).spec_complete()
                        && final(self).spec_size() == old(self).spec_size()
                } else if key {
                    final(self).spec_frames() =~= seq![tag] && final(self).spec_complete()
                        && final(self).spec_size() == s
                } else {
                    final(self).spec_frames() =~= old(self).spec_frames().skip(
                        gop_drops(old(self).spec_frames(), s, old(self).spec_max_size()),
                    ).push(tag) && final(self).spec_complete() == (old(self).spec_complete()
                        && gop_drops(old(self).spec_frames(), s, old(self).spec_max_size())
                        == 0)
                }
            }),
    {
        let size = tag.size();

        if size > self.max_size {
            return false;
        }

        if tag.is_keyframe() {
            self.clear_frames();
            self.has_complete_gop = true;
        }

        let ghost f0 = self.frames@;
        let ghost comp0 = self.has_complete_gop;
        let ghost mut j: int = 0;

        while size > self.max_size - self.current_size && self.frames.len() > 0
            invariant
                self.spec_size() == gop_sizes(self.spec_frames()),
                self.current_size <= self.max_size,
                size <= self.max_size,
                size == bytes_view(tag.data).len(),
                self.spec_max_size() == old(self).spec_max_size(),
                self.spec_video_header() == old(self).spec_video_header(),
                self.spec_audio_header() == old(self).spec_audio_header(),
                self.spec_metadata() == old(self).spec_metadata(),
                self.spec_complete() == (comp0 && j == 0),
                0 <= j <= f0.len(),
                self.spec_frames() =~= f0.skip(j),
                gop_drops(f0, size as int, self.spec_max_size()) == j + gop_drops(
                    self.spec_frames(),
                    size as int,
                    self.spec_max_size(),
                ),
            decreases self.frames.len(),
        {
            proof {
                lemma_gop_sizes_nonneg(self.spec_frames().skip(1));
                assert(gop_drops(self.spec_frames(), size as int, self.spec_max_size()) == 1
                    + gop_drops(self.spec_frames().skip(1), size as int, self.spec_max_size()));
            }
            let old_front = self.frames.pop_front();
            match old_front {
                Some(f) => {
                    self.current_size = self.current_size - f.size();
                },
                None => {
                },
            }
            // Dropping the front can only remove the GOP's opening
            // keyframe: the remainder is no longer a complete GOP.
            self.has_complete_gop = false;
            proof {
                j = j + 1;
                assert(f0.skip(j - 1).skip(1) =~= f0.skip(j));
            }
        }

        if size > self.max_size - self.current_size {
            return false;
        }

        proof {
            lemma_gop_sizes_push(f0.skip(j), tag);
        }
        self.frames.push_back(tag);
        self.current_size = self.current_size + size;
        true
    }

    /// Discard all buffered frames, keeping the headers.
    pub fn clear_frames(&mut self)
        ensures
            final(self).spec_frames().len() == 0,
            final(self).spec_size() == 0,
            !final(self).spec_complete(),
            final(self).spec_video_header() == old(self).spec_video_header(),
            final(self).spec_audio_header() == old(self).spec_audio_header(),
            final(self).spec_metadata() == old(self).spec_metadata(),
            final(self).spec_max_size() == old(self).spec_max_size(),
            final(self).wf(),
            final(self).keyframe_first(),
    {
        self.frames.clear();
        self.current_size = 0;
        self.has_complete_gop = false;
    }

    /// Discard everything, headers included.
    pub fn clear(&mut self)
        ensures
            final(self).spec_frames().len() == 0,
            final(self).spec_size() == 0,
            !final(self).spec_complete(),
            final(self).spec_video_header() is None,
            final(self).spec_audio_header() is None,
            final(self).spec_metadata() is None,
            final(self).spec_max_size() == old(self).spec_max_size(),
            final(self).wf(),
            final(self).keyframe_first(),
    {
        self.clear_frames();
        self.video_header = None;
        self.audio_header = None;
        self.metadata = None;
    }

    /// The cached video sequence header.
    pub fn video_header(&self) -> (r: Option<&FlvTag>)
        ensures
            match r {
                Some(h) => self.spec_video_header() == Some(*h),
                None => self.spec_video_header() is None,
            },
    {
        self.video_header.as_ref()
    }

    /// The cached audio sequence header.
    pub fn audio_header(&self) -> (r: Option<&FlvTag>)
        ensures
            match r {
                Some(h) => self.spec_audio_header() == Some(*h),
                None => self.spec_audio_header() is None,
            },
    {
        self.audio_header.as_ref()
    }

    /// The cached metadata bytes.
    pub fn metadata(&self) -> (r: Option<&Bytes>)
        ensures
            match r {
                Some(m) => self.spec_metadata() == Some(*m),
                None => self.spec_metadata() is None,
            },
    {
        self.metadata.as_ref()
    }

    /// Whether the current GOP began with a keyframe.
    pub fn has_complete_gop(&self) -> (r: bool)
        ensures
            r == self.spec_complete(),
    {
        self.has_complete_gop
    }

    /// Whether a late joiner can be served: a video header is cached and
    /// the GOP is complete.
    pub fn is_ready(&self) -> (r: bool)
        ensures
            r == (self.spec_video_header() is Some && self.spec_complete()),
    {
        match self.video_header {
            Some(_) => self.has_complete_gop,
            None => false,
        }
    }

    /// All frames a late joiner needs, in order: video header, audio
    /// header, then the buffered frames oldest first.
    pub fn get_catchup_data(&self) -> (r: Vec<FlvTag>)
        ensures
            tags_view(r@) =~= ({
                let vh = match self.spec_video_header() {
                    Some(h) => seq![h],
                    None => Seq::<FlvTag>::empty(),
                };
                let ah = match self.spec_audio_header() {
                    Some(h) => seq![h],
                    None => Seq::<FlvTag>::empty(),
                };
                tags_view(vh + ah + self.spec_frames())
            }),
    {
        let ghost vhs: Seq<FlvTag> = (match self.spec_video_header() {
            Some(h) => seq![h],
            None => Seq::<FlvTag>::empty(),
        });
        let ghost ahs: Seq<FlvTag> = (match self.spec_audio_header() {
            Some(h) => seq![h],
            None => Seq::<FlvTag>::empty(),
        });
        let mut result: Vec<FlvTag> = Vec::new();

        if let Some(h) = &self.video_header {
            let c = h.clone();
            result.push(c);
        }
        if let Some(h) = &self.audio_header {
            let c = h.clone();
            result.push(c);
        }
        proof {
            assert(tags_view(result@) =~= tags_view(vhs + ahs));
        }

        let ghost pre = result@;
        let mut i: usize = 0;
        while i < self.frames.len()
            invariant
                i <= self.frames.len(),
                result@.len() == pre.len() + i,
                result@.subrange(0, pre.len() as int) == pre,
                forall|k: int| 0 <= k < i ==> tag_view(result@[pre.len() + k]) == tag_view(
                    self.spec_frames()[k],
                ),
                self.spec_frames() == self.frames@,
            decreases self.frames.len() - i,
        {
            let f = &self.frames[i];
            let c = f.clone();
            proof {
                assert(result@.push(c).subrange(0, pre.len() as int) =~= result@.subrange(
                    0,
                    pre.len() as int,
                ));
            }
            result.push(c);
            i = i + 1;
        }
        proof {
            let expected = vhs + ahs + self.spec_frames();
            assert forall|k: int| 0 <= k < result@.len() implies tag_view(result@[k]) == tag_view(
                expected[k],
            ) by {
                if k < pre.len() {
                    assert(result@.subrange(0, pre.len() as int)[k] == result@[k]);
                    assert(tags_view(pre)[k] == tags_view(vhs + ahs)[k]);
                } else {
                    assert(tag_view(result@[pre.len() + (k - pre.len())]) == tag_view(
                        self.spec_frames()[k - pre.len()],
                    ));
                }
            }
            assert(tags_view(result@) =~= tags_view(vhs + ahs + self.spec_frames()));
        }
        result
    }

    /// The number of buffered frames.
    pub fn frame_count(&self) -> (r: usize)
        ensures
            r == self.spec_frames().len(),
    {
        self.frames.len()
    }

    /// The current buffer size in bytes.
    pub fn size(&self) -> (r: usize)
        ensures
            r == self.spec_size(),
    {
        self.current_size
    }

    /// Buffer utilization as an integer percentage of the byte budget.
    pub fn utilization_percent(&self) -> (r: u64)
        requires
            self.wf(),
        ensures
            self.spec_max_size() > 0 ==> r == self.spec_size() * 100 / self.spec_max_size(),
            self.spec_max_size() == 0 ==> r == 0,
    {
        if self.max_size > 0 {
            proof {
                lemma_gop_sizes_nonneg(self.spec_frames());
                assert(self.spec_size() * 100 / self.spec_max_size() <= 100) by (nonlinear_arith)
                    requires
                        0 <= self.spec_size() <= self.spec_max_size(),
                        self.spec_max_size() > 0,
                ;
            }
            ((self.current_size as u128 * 100) / (self.max_size as u128)) as u64
        } else {
            0
        }
    }

    /// The first and last buffered timestamps, if any frames are held.
    pub fn timestamp_range(&self) -> (r: Option<(u32, u32)>)
        ensures
            self.spec_frames().len() == 0 ==> r is None,
            self.spec_frames().len() > 0 ==> r == Some(
                (
                    self.spec_frames()[0].timestamp,
                    self.spec_frames()[self.spec_frames().len() - 1].timestamp,
                ),
            ),
    {
        if self.frames.len() == 0 {
            return None;
        }
        let first = self.frames[0].timestamp;
        let last = self.frames[self.frames.len() - 1].timestamp;
        Some((first, last))
    }

    /// The buffered GOP duration in milliseconds: last timestamp minus
    /// first.
    pub fn gop_duration(&self) -> (r: Option<u32>)
        requires
            self.spec_frames().len() > 0 ==> self.spec_frames()[0].timestamp <= self.spec_frames()[
                self.spec_frames().len() - 1].timestamp,
        ensures
            self.spec_frames().len() == 0 ==> r is None,
            self.spec_frames().len() > 0 ==> r == Some(
                (self.spec_frames()[self.spec_frames().len() - 1].timestamp - self.spec_frames()[
                    0].timestamp) as u32,
            ),
    {
        match self.timestamp_range() {
            Some((first, last)) => Some(last - first),
            None => None,
        }
    }
}

impl Default for GopBuffer {
    /// A buffer with the default byte budget.
    fn default() -> (r: Self)
        ensures
            r.spec_max_size() == 4 * 1024 * 1024,
            r.spec_frames().len() == 0,
            !r.spec_complete(),
            r.wf(),
    {
        GopBuffer::new()
    }
}

} // verus!
