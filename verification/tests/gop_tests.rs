use bytes::Bytes;

use rtmp_rs::flv::FlvTag;
use rtmp_rs::gop::GopBuffer;

fn make_tag(timestamp: u32, is_keyframe: bool, size: usize) -> FlvTag {
    let mut data = vec![0u8; size];
    if is_keyframe {
        data[0] = 0x17;
    } else {
        data[0] = 0x27;
    }
    FlvTag::video(timestamp, Bytes::from(data))
}

#[test]
fn test_gop_buffer_basic() {
    let mut buffer = GopBuffer::new();

    assert!(!buffer.is_ready());

    buffer.set_video_header(make_tag(0, true, 100));
    assert!(!buffer.is_ready());

    buffer.push(make_tag(0, true, 500));
    assert!(buffer.is_ready());
    assert!(buffer.has_complete_gop());

    buffer.push(make_tag(33, false, 200));
    buffer.push(make_tag(66, false, 200));

    assert_eq!(buffer.frame_count(), 3);
}

#[test]
fn test_gop_buffer_keyframe_clears() {
    let mut buffer = GopBuffer::new();

    buffer.push(make_tag(0, true, 500));
    buffer.push(make_tag(33, false, 200));
    buffer.push(make_tag(66, false, 200));
    assert_eq!(buffer.frame_count(), 3);

    buffer.push(make_tag(100, true, 500));
    assert_eq!(buffer.frame_count(), 1);
}

#[test]
fn test_gop_buffer_size_limit() {
    let mut buffer = GopBuffer::with_max_size(500);

    buffer.push(make_tag(0, true, 200));
    buffer.push(make_tag(33, false, 200));

    // This succeeds by dropping the keyframe (200 + 200 = 400 < 500).
    assert!(buffer.push(make_tag(66, false, 200)));

    // A single frame larger than max_size is rejected.
    assert!(!buffer.push(make_tag(99, false, 600)));
}

#[test]
fn test_gop_duration() {
    let mut buffer = GopBuffer::new();

    buffer.push(make_tag(0, true, 100));
    buffer.push(make_tag(33, false, 100));
    buffer.push(make_tag(66, false, 100));

    assert_eq!(buffer.gop_duration(), Some(66));
}

#[test]
fn test_gop_buffer_default() {
    let buffer = GopBuffer::default();
    assert!(!buffer.is_ready());
    assert_eq!(buffer.frame_count(), 0);
    assert_eq!(buffer.size(), 0);
}

#[test]
fn test_gop_buffer_headers() {
    let mut buffer = GopBuffer::new();

    let video_header = FlvTag::video(0, Bytes::from_static(&[0x17, 0x00]));
    let audio_header = FlvTag::audio(0, Bytes::from_static(&[0xAF, 0x00]));

    buffer.set_video_header(video_header.clone());
    buffer.set_audio_header(audio_header.clone());

    assert!(buffer.video_header().is_some());
    assert!(buffer.audio_header().is_some());
}

#[test]
fn test_gop_buffer_metadata() {
    let mut buffer = GopBuffer::new();

    let metadata = Bytes::from_static(b"test metadata");
    buffer.set_metadata(metadata.clone());

    assert!(buffer.metadata().is_some());
    assert_eq!(buffer.metadata().unwrap(), &metadata);
}

#[test]
fn test_gop_buffer_clear() {
    let mut buffer = GopBuffer::new();

    buffer.set_video_header(make_tag(0, true, 50));
    buffer.set_audio_header(FlvTag::audio(0, Bytes::from_static(&[0xAF, 0x00])));
    buffer.set_metadata(Bytes::from_static(b"meta"));
    buffer.push(make_tag(0, true, 100));
    buffer.push(make_tag(33, false, 100));

    buffer.clear();

    assert!(buffer.video_header().is_none());
    assert!(buffer.audio_header().is_none());
    assert!(buffer.metadata().is_none());
    assert_eq!(buffer.frame_count(), 0);
    assert!(!buffer.has_complete_gop());
}

#[test]
fn test_gop_buffer_clear_frames_only() {
    let mut buffer = GopBuffer::new();

    buffer.set_video_header(make_tag(0, true, 50));
    buffer.push(make_tag(0, true, 100));
    buffer.push(make_tag(33, false, 100));

    buffer.clear_frames();

    assert!(buffer.video_header().is_some());
    assert_eq!(buffer.frame_count(), 0);
    assert!(!buffer.has_complete_gop());
}

#[test]
fn test_gop_buffer_utilization() {
    let mut buffer = GopBuffer::with_max_size(1000);

    assert_eq!(buffer.utilization_percent(), 0);

    buffer.push(make_tag(0, true, 500));
    assert_eq!(buffer.utilization_percent(), 50);
}

#[test]
fn test_gop_buffer_timestamp_range() {
    let mut buffer = GopBuffer::new();

    assert!(buffer.timestamp_range().is_none());

    buffer.push(make_tag(100, true, 50));
    assert_eq!(buffer.timestamp_range(), Some((100, 100)));

    buffer.push(make_tag(133, false, 50));
    buffer.push(make_tag(166, false, 50));
    assert_eq!(buffer.timestamp_range(), Some((100, 166)));
}

#[test]
fn test_gop_buffer_get_catchup_data() {
    let mut buffer = GopBuffer::new();

    buffer.set_video_header(FlvTag::video(0, Bytes::from_static(&[0x17, 0x00])));
    buffer.set_audio_header(FlvTag::audio(0, Bytes::from_static(&[0xAF, 0x00])));
    buffer.push(make_tag(0, true, 100));
    buffer.push(make_tag(33, false, 50));
    buffer.push(make_tag(66, false, 50));

    let catchup = buffer.get_catchup_data();

    assert_eq!(catchup.len(), 5);

    assert!(catchup[0].is_avc_sequence_header());
    assert!(catchup[1].is_aac_sequence_header());
    assert!(catchup[2].is_keyframe());
}

#[test]
fn test_gop_buffer_get_catchup_data_without_headers() {
    let mut buffer = GopBuffer::new();

    buffer.push(make_tag(0, true, 100));
    buffer.push(make_tag(33, false, 50));

    let catchup = buffer.get_catchup_data();

    assert_eq!(catchup.len(), 2);
}

#[test]
fn test_gop_buffer_drops_old_frames_to_fit() {
    let mut buffer = GopBuffer::with_max_size(500);

    buffer.push(make_tag(0, true, 200));
    buffer.push(make_tag(33, false, 200));

    buffer.push(make_tag(66, false, 200));

    assert!(buffer.size() <= 500);
}

#[test]
fn test_gop_buffer_no_complete_gop_without_keyframe() {
    let mut buffer = GopBuffer::new();

    buffer.push(make_tag(0, false, 100));
    buffer.push(make_tag(33, false, 100));

    assert!(!buffer.has_complete_gop());

    buffer.push(make_tag(66, true, 100));
    assert!(buffer.has_complete_gop());
}

#[test]
fn test_gop_buffer_is_ready_requirements() {
    let mut buffer = GopBuffer::new();

    assert!(!buffer.is_ready());

    buffer.set_video_header(FlvTag::video(0, Bytes::from_static(&[0x17, 0x00])));
    assert!(!buffer.is_ready());

    buffer.push(make_tag(0, false, 100));
    assert!(!buffer.is_ready());

    buffer.push(make_tag(33, true, 100));
    assert!(buffer.is_ready());
}

#[test]
fn test_gop_buffer_audio_only_stream() {
    let mut buffer = GopBuffer::new();

    buffer.set_audio_header(FlvTag::audio(0, Bytes::from_static(&[0xAF, 0x00])));

    assert!(!buffer.is_ready());
}

#[test]
fn test_gop_eviction_exact_budget_frame() {
    // A frame equal in size to the whole budget empties a non-empty
    // buffer, then fits on its own.
    let mut buffer = GopBuffer::with_max_size(500);

    buffer.push(make_tag(0, true, 200));
    buffer.push(make_tag(33, false, 100));
    assert_eq!(buffer.frame_count(), 2);

    assert!(buffer.push(make_tag(66, false, 500)));
    assert_eq!(buffer.frame_count(), 1);
    assert_eq!(buffer.size(), 500);
}

#[test]
fn test_gop_oversized_frame_leaves_buffer_unchanged() {
    let mut buffer = GopBuffer::with_max_size(500);

    buffer.push(make_tag(0, true, 200));
    buffer.push(make_tag(33, false, 100));

    assert!(!buffer.push(make_tag(66, false, 501)));
    assert_eq!(buffer.frame_count(), 2);
    assert_eq!(buffer.size(), 300);
    assert!(buffer.has_complete_gop());
}

#[test]
fn test_gop_eviction_clears_complete_flag() {
    // Byte pressure that pops the GOP's opening keyframe also clears the
    // completeness flag: a complete, non-empty buffer always starts with
    // a keyframe.
    let mut buffer = GopBuffer::with_max_size(100);

    buffer.push(make_tag(0, true, 60));
    assert!(buffer.has_complete_gop());

    buffer.push(make_tag(33, false, 60));
    assert_eq!(buffer.frame_count(), 1);
    assert!(!buffer.has_complete_gop());
    assert!(!buffer.is_ready());
}
