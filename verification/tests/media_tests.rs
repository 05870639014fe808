use bytes::Bytes;

use rtmp_rs::aac::{generate_adts_header, AacData, AacPacketType, AacProfile, AudioSpecificConfig,
    sampling_frequency_from_index};
use rtmp_rs::flv::{AudioFormat, AudioSampleRate, FlvTag, FlvTagType, VideoCodec, VideoFrameType};
use rtmp_rs::h264::{AvcConfig, AvcPacketType, H264Data, NaluIterator, NaluType};

#[test]
fn test_video_frame_type() {
    assert_eq!(
        VideoFrameType::from_byte(0x17),
        Some(VideoFrameType::Keyframe)
    );
    assert_eq!(VideoCodec::from_byte(0x17), Some(VideoCodec::Avc));

    assert_eq!(
        VideoFrameType::from_byte(0x27),
        Some(VideoFrameType::InterFrame)
    );
}

#[test]
fn test_avc_sequence_header() {
    let header = FlvTag::video(0, Bytes::from_static(&[0x17, 0x00, 0x00, 0x00, 0x00]));
    assert!(header.is_avc_sequence_header());
    assert!(header.is_keyframe());

    let frame = FlvTag::video(0, Bytes::from_static(&[0x17, 0x01, 0x00, 0x00, 0x00]));
    assert!(!frame.is_avc_sequence_header());
}

#[test]
fn test_aac_sequence_header() {
    let header = FlvTag::audio(0, Bytes::from_static(&[0xAF, 0x00, 0x12, 0x10]));
    assert!(header.is_aac_sequence_header());

    let frame = FlvTag::audio(0, Bytes::from_static(&[0xAF, 0x01, 0x21, 0x00]));
    assert!(!frame.is_aac_sequence_header());
}

#[test]
fn test_video_frame_type_all_values() {
    assert_eq!(
        VideoFrameType::from_byte(0x10),
        Some(VideoFrameType::Keyframe)
    );
    assert_eq!(
        VideoFrameType::from_byte(0x20),
        Some(VideoFrameType::InterFrame)
    );
    assert_eq!(
        VideoFrameType::from_byte(0x30),
        Some(VideoFrameType::DisposableInterFrame)
    );
    assert_eq!(
        VideoFrameType::from_byte(0x40),
        Some(VideoFrameType::GeneratedKeyframe)
    );
    assert_eq!(
        VideoFrameType::from_byte(0x50),
        Some(VideoFrameType::VideoInfoFrame)
    );
    assert_eq!(VideoFrameType::from_byte(0x00), None);
    assert_eq!(VideoFrameType::from_byte(0x60), None);
}

#[test]
fn test_video_frame_type_is_keyframe() {
    assert!(VideoFrameType::Keyframe.is_keyframe());
    assert!(VideoFrameType::GeneratedKeyframe.is_keyframe());
    assert!(!VideoFrameType::InterFrame.is_keyframe());
    assert!(!VideoFrameType::DisposableInterFrame.is_keyframe());
    assert!(!VideoFrameType::VideoInfoFrame.is_keyframe());
}

#[test]
fn test_video_codec_all_values() {
    assert_eq!(VideoCodec::from_byte(0x02), Some(VideoCodec::SorensonH263));
    assert_eq!(VideoCodec::from_byte(0x03), Some(VideoCodec::ScreenVideo));
    assert_eq!(VideoCodec::from_byte(0x04), Some(VideoCodec::Vp6));
    assert_eq!(VideoCodec::from_byte(0x05), Some(VideoCodec::Vp6Alpha));
    assert_eq!(VideoCodec::from_byte(0x06), Some(VideoCodec::ScreenVideoV2));
    assert_eq!(VideoCodec::from_byte(0x07), Some(VideoCodec::Avc));
    assert_eq!(VideoCodec::from_byte(0x0C), Some(VideoCodec::Hevc));
    assert_eq!(VideoCodec::from_byte(0x0D), Some(VideoCodec::Av1));
    assert_eq!(VideoCodec::from_byte(0x00), None);
    assert_eq!(VideoCodec::from_byte(0x01), None);
    assert_eq!(VideoCodec::from_byte(0x08), None);
}

#[test]
fn test_audio_format_all_values() {
    assert_eq!(
        AudioFormat::from_byte(0x00),
        Some(AudioFormat::LinearPcmPlatform)
    );
    assert_eq!(AudioFormat::from_byte(0x10), Some(AudioFormat::Adpcm));
    assert_eq!(AudioFormat::from_byte(0x20), Some(AudioFormat::Mp3));
    assert_eq!(AudioFormat::from_byte(0x30), Some(AudioFormat::LinearPcmLe));
    assert_eq!(
        AudioFormat::from_byte(0x40),
        Some(AudioFormat::Nellymoser16kMono)
    );
    assert_eq!(
        AudioFormat::from_byte(0x50),
        Some(AudioFormat::Nellymoser8kMono)
    );
    assert_eq!(AudioFormat::from_byte(0x60), Some(AudioFormat::Nellymoser));
    assert_eq!(AudioFormat::from_byte(0x70), Some(AudioFormat::G711ALaw));
    assert_eq!(AudioFormat::from_byte(0x80), Some(AudioFormat::G711MuLaw));
    assert_eq!(AudioFormat::from_byte(0xA0), Some(AudioFormat::Aac));
    assert_eq!(AudioFormat::from_byte(0xB0), Some(AudioFormat::Speex));
    assert_eq!(AudioFormat::from_byte(0xE0), Some(AudioFormat::Mp38k));
    assert_eq!(
        AudioFormat::from_byte(0xF0),
        Some(AudioFormat::DeviceSpecific)
    );
    assert_eq!(AudioFormat::from_byte(0x90), None);
}

#[test]
fn test_audio_sample_rate() {
    assert_eq!(AudioSampleRate::from_byte(0x00).to_hz(), 5512);
    assert_eq!(AudioSampleRate::from_byte(0x04).to_hz(), 11025);
    assert_eq!(AudioSampleRate::from_byte(0x08).to_hz(), 22050);
    assert_eq!(AudioSampleRate::from_byte(0x0C).to_hz(), 44100);
    assert_eq!(AudioSampleRate::from_byte(0xFF).to_hz(), 44100);
}

#[test]
fn test_flv_tag_video_construction() {
    let tag = FlvTag::video(1000, Bytes::from_static(&[0x17, 0x01]));
    assert!(tag.is_video());
    assert!(!tag.is_audio());
    assert_eq!(tag.tag_type, FlvTagType::Video);
    assert_eq!(tag.timestamp, 1000);
}

#[test]
fn test_flv_tag_audio_construction() {
    let tag = FlvTag::audio(2000, Bytes::from_static(&[0xAF, 0x01]));
    assert!(tag.is_audio());
    assert!(!tag.is_video());
    assert_eq!(tag.tag_type, FlvTagType::Audio);
    assert_eq!(tag.timestamp, 2000);
}

#[test]
fn test_flv_tag_video_frame_type() {
    let keyframe = FlvTag::video(0, Bytes::from_static(&[0x17, 0x01]));
    assert_eq!(keyframe.video_frame_type(), Some(VideoFrameType::Keyframe));
    assert!(keyframe.is_keyframe());

    let interframe = FlvTag::video(0, Bytes::from_static(&[0x27, 0x01]));
    assert_eq!(
        interframe.video_frame_type(),
        Some(VideoFrameType::InterFrame)
    );
    assert!(!interframe.is_keyframe());

    let audio = FlvTag::audio(0, Bytes::from_static(&[0xAF, 0x01]));
    assert!(audio.video_frame_type().is_none());
}

#[test]
fn test_flv_tag_video_codec() {
    let avc = FlvTag::video(0, Bytes::from_static(&[0x17, 0x01]));
    assert_eq!(avc.video_codec(), Some(VideoCodec::Avc));

    let hevc = FlvTag::video(0, Bytes::from_static(&[0x1C, 0x01]));
    assert_eq!(hevc.video_codec(), Some(VideoCodec::Hevc));

    let audio = FlvTag::audio(0, Bytes::from_static(&[0xAF]));
    assert!(audio.video_codec().is_none());
}

#[test]
fn test_flv_tag_audio_format() {
    let aac = FlvTag::audio(0, Bytes::from_static(&[0xAF, 0x01]));
    assert_eq!(aac.audio_format(), Some(AudioFormat::Aac));

    let mp3 = FlvTag::audio(0, Bytes::from_static(&[0x2F]));
    assert_eq!(mp3.audio_format(), Some(AudioFormat::Mp3));

    let video = FlvTag::video(0, Bytes::from_static(&[0x17]));
    assert!(video.audio_format().is_none());
}

#[test]
fn test_flv_tag_empty_data() {
    let empty_video = FlvTag::video(0, Bytes::new());
    assert!(empty_video.video_frame_type().is_none());
    assert!(empty_video.video_codec().is_none());
    assert!(!empty_video.is_keyframe());
    assert!(!empty_video.is_avc_sequence_header());

    let empty_audio = FlvTag::audio(0, Bytes::new());
    assert!(empty_audio.audio_format().is_none());
    assert!(!empty_audio.is_aac_sequence_header());
}

#[test]
fn test_flv_tag_size() {
    let tag = FlvTag::video(0, Bytes::from_static(&[0x17, 0x00, 0x00, 0x00, 0x00]));
    assert_eq!(tag.size(), 5);

    let empty_tag = FlvTag::audio(0, Bytes::new());
    assert_eq!(empty_tag.size(), 0);
}

#[test]
fn test_is_avc_sequence_header_non_avc() {
    let hevc = FlvTag::video(0, Bytes::from_static(&[0x1C, 0x00, 0x00, 0x00, 0x00]));
    assert!(!hevc.is_avc_sequence_header());

    let avc_nalu = FlvTag::video(0, Bytes::from_static(&[0x17, 0x01, 0x00, 0x00, 0x00]));
    assert!(!avc_nalu.is_avc_sequence_header());
}

#[test]
fn test_is_aac_sequence_header_non_aac() {
    let mp3 = FlvTag::audio(0, Bytes::from_static(&[0x2F, 0x00]));
    assert!(!mp3.is_aac_sequence_header());

    let aac_raw = FlvTag::audio(0, Bytes::from_static(&[0xAF, 0x01]));
    assert!(!aac_raw.is_aac_sequence_header());
}

#[test]
fn test_flv_tag_type_enum() {
    assert_eq!(FlvTagType::Audio, FlvTagType::Audio);
    assert_ne!(FlvTagType::Audio, FlvTagType::Video);
    assert_ne!(FlvTagType::Video, FlvTagType::Script);
}

#[test]
fn test_combined_video_byte() {
    let tag = FlvTag::video(0, Bytes::from_static(&[0x17]));
    assert_eq!(tag.video_frame_type(), Some(VideoFrameType::Keyframe));
    assert_eq!(tag.video_codec(), Some(VideoCodec::Avc));

    let tag = FlvTag::video(0, Bytes::from_static(&[0x27]));
    assert_eq!(tag.video_frame_type(), Some(VideoFrameType::InterFrame));
    assert_eq!(tag.video_codec(), Some(VideoCodec::Avc));

    let tag = FlvTag::video(0, Bytes::from_static(&[0x14]));
    assert_eq!(tag.video_frame_type(), Some(VideoFrameType::Keyframe));
    assert_eq!(tag.video_codec(), Some(VideoCodec::Vp6));
}

#[test]
fn test_short_video_data() {
    let tag = FlvTag::video(0, Bytes::from_static(&[0x17]));
    assert!(tag.video_frame_type().is_some());
    assert!(tag.video_codec().is_some());
    assert!(!tag.is_avc_sequence_header());
}

#[test]
fn test_short_audio_data() {
    let tag = FlvTag::audio(0, Bytes::from_static(&[0xAF]));
    assert!(tag.audio_format().is_some());
    assert!(!tag.is_aac_sequence_header());
}

#[test]
fn test_nalu_type() {
    assert_eq!(NaluType::from_byte(0x65), Some(NaluType::Idr));
    assert_eq!(NaluType::from_byte(0x67), Some(NaluType::Sps));
    assert_eq!(NaluType::from_byte(0x68), Some(NaluType::Pps));
    assert_eq!(NaluType::from_byte(0x41), Some(NaluType::Slice));
}

#[test]
fn test_avc_config_parse() {
    let data = Bytes::from_static(&[
        0x01, 0x64, 0x00, 0x1F, 0xFF, 0xE1, 0x00, 0x04, 0x67, 0x64, 0x00, 0x1F, 0x01, 0x00,
        0x03, 0x68, 0xEF, 0x38,
    ]);

    let config = AvcConfig::parse(data.clone()).unwrap();
    assert_eq!(config.profile, 100);
    assert_eq!(config.level, 31);
    assert_eq!(config.nalu_length_size, 4);
    assert_eq!(config.sps.len(), 1);
    assert_eq!(config.pps.len(), 1);
    assert_eq!(config.profile_name(), "High");
    assert_eq!(config.level_string(), "3.1");
    assert_eq!(config.raw.len(), data.len());
    assert_eq!(config.raw, data);
}

#[test]
fn test_avc_packet_type() {
    assert_eq!(
        AvcPacketType::from_byte(0),
        Some(AvcPacketType::SequenceHeader)
    );
    assert_eq!(AvcPacketType::from_byte(1), Some(AvcPacketType::Nalu));
    assert_eq!(
        AvcPacketType::from_byte(2),
        Some(AvcPacketType::EndOfSequence)
    );
    assert_eq!(AvcPacketType::from_byte(3), None);
    assert_eq!(AvcPacketType::from_byte(255), None);
}

#[test]
fn test_nalu_type_parsing() {
    assert_eq!(NaluType::from_byte(0x01), Some(NaluType::Slice));
    assert_eq!(NaluType::from_byte(0x02), Some(NaluType::SlicePartA));
    assert_eq!(NaluType::from_byte(0x03), Some(NaluType::SlicePartB));
    assert_eq!(NaluType::from_byte(0x04), Some(NaluType::SlicePartC));
    assert_eq!(NaluType::from_byte(0x05), Some(NaluType::Idr));
    assert_eq!(NaluType::from_byte(0x06), Some(NaluType::Sei));
    assert_eq!(NaluType::from_byte(0x07), Some(NaluType::Sps));
    assert_eq!(NaluType::from_byte(0x08), Some(NaluType::Pps));
    assert_eq!(NaluType::from_byte(0x09), Some(NaluType::Aud));
    assert_eq!(NaluType::from_byte(0x0A), Some(NaluType::EndSeq));
    assert_eq!(NaluType::from_byte(0x0B), Some(NaluType::EndStream));
    assert_eq!(NaluType::from_byte(0x0C), Some(NaluType::Filler));

    assert_eq!(NaluType::from_byte(0x65), Some(NaluType::Idr));
    assert_eq!(NaluType::from_byte(0x67), Some(NaluType::Sps));
}

#[test]
fn test_nalu_type_is_keyframe() {
    assert!(NaluType::Idr.is_keyframe());
    assert!(!NaluType::Slice.is_keyframe());
    assert!(!NaluType::Sps.is_keyframe());
    assert!(!NaluType::Pps.is_keyframe());
}

#[test]
fn test_nalu_type_is_parameter_set() {
    assert!(NaluType::Sps.is_parameter_set());
    assert!(NaluType::Pps.is_parameter_set());
    assert!(!NaluType::Idr.is_parameter_set());
    assert!(!NaluType::Slice.is_parameter_set());
}

#[test]
fn test_h264_data_sequence_header() {
    let data = Bytes::from_static(&[
        0x00, 0x00, 0x00, 0x00, 0x01, 0x64, 0x00, 0x1F, 0xFF, 0xE1, 0x00, 0x04, 0x67, 0x64,
        0x00, 0x1F, 0x01, 0x00, 0x03, 0x68, 0xEF, 0x38,
    ]);

    let h264 = H264Data::parse(data).unwrap();
    assert!(h264.is_sequence_header());
    assert!(h264.is_keyframe());

    if let H264Data::SequenceHeader(config) = h264 {
        assert_eq!(config.profile, 100);
    } else {
        panic!("Expected SequenceHeader");
    }
}

#[test]
fn test_h264_data_end_of_sequence() {
    let data = Bytes::from_static(&[0x02, 0x00, 0x00, 0x00]);

    let h264 = H264Data::parse(data).unwrap();
    assert!(matches!(h264, H264Data::EndOfSequence));
    assert!(!h264.is_keyframe());
    assert!(!h264.is_sequence_header());
}

#[test]
fn test_h264_data_nalu_keyframe() {
    let data = Bytes::from_static(&[
        0x01, 0x00, 0x00, 0x00, 0x00, 0x00, 0x00, 0x05, 0x65, 0x88, 0x84, 0x00, 0x00,
    ]);

    let h264 = H264Data::parse(data).unwrap();
    assert!(h264.is_keyframe());
    assert!(!h264.is_sequence_header());

    if let H264Data::Frame {
        keyframe,
        composition_time,
        ..
    } = h264
    {
        assert!(keyframe);
        assert_eq!(composition_time, 0);
    } else {
        panic!("Expected Frame");
    }
}

#[test]
fn test_h264_data_nalu_p_frame() {
    let data = Bytes::from_static(&[
        0x01, 0x00, 0x00, 0x00, 0x00, 0x00, 0x00, 0x05, 0x41, 0x9A, 0x00, 0x00, 0x00,
    ]);

    let h264 = H264Data::parse(data).unwrap();
    assert!(!h264.is_keyframe());

    if let H264Data::Frame { keyframe, .. } = h264 {
        assert!(!keyframe);
    }
}

#[test]
fn test_h264_composition_time_positive() {
    let data = Bytes::from_static(&[0x01, 0x00, 0x01, 0x00, 0x00, 0x00, 0x00, 0x01, 0x41]);

    let h264 = H264Data::parse(data).unwrap();
    if let H264Data::Frame {
        composition_time, ..
    } = h264
    {
        assert_eq!(composition_time, 256);
    }
}

#[test]
fn test_h264_composition_time_negative() {
    let data = Bytes::from_static(&[0x01, 0xFF, 0xFF, 0x00, 0x00, 0x00, 0x00, 0x01, 0x41]);

    let h264 = H264Data::parse(data).unwrap();
    if let H264Data::Frame {
        composition_time, ..
    } = h264
    {
        assert_eq!(composition_time, -256);
    }
}

#[test]
fn test_h264_data_invalid_packet_type() {
    let data = Bytes::from_static(&[0x03, 0x00, 0x00, 0x00]);
    let result = H264Data::parse(data);
    assert!(result.is_err());
}

#[test]
fn test_h264_data_too_short() {
    let data = Bytes::from_static(&[0x00, 0x00]);
    let result = H264Data::parse(data);
    assert!(result.is_err());
}

#[test]
fn test_avc_config_profile_names() {
    let profiles = [
        (66, "Baseline"),
        (77, "Main"),
        (88, "Extended"),
        (100, "High"),
        (110, "High 10"),
        (122, "High 4:2:2"),
        (244, "High 4:4:4"),
        (99, "Unknown"),
    ];

    for (profile, expected_name) in profiles {
        let config = AvcConfig {
            profile,
            compatibility: 0,
            level: 31,
            nalu_length_size: 4,
            sps: vec![],
            pps: vec![],
            raw: Bytes::new(),
        };
        assert_eq!(config.profile_name(), expected_name);
    }
}

#[test]
fn test_avc_config_level_string() {
    let config = AvcConfig {
        profile: 100,
        compatibility: 0,
        level: 41,
        nalu_length_size: 4,
        sps: vec![],
        pps: vec![],
        raw: Bytes::new(),
    };
    assert_eq!(config.level_string(), "4.1");

    let config2 = AvcConfig {
        profile: 100,
        compatibility: 0,
        level: 52,
        nalu_length_size: 4,
        sps: vec![],
        pps: vec![],
        raw: Bytes::new(),
    };
    assert_eq!(config2.level_string(), "5.2");
}

#[test]
fn test_avc_config_invalid_version() {
    let data = Bytes::from_static(&[
        0x02, 0x64, 0x00, 0x1F, 0xFF, 0xE1, 0x00, 0x04, 0x67, 0x64, 0x00, 0x1F, 0x01, 0x00,
        0x03, 0x68, 0xEF, 0x38,
    ]);

    let result = AvcConfig::parse(data);
    assert!(result.is_err());
}

#[test]
fn test_avc_config_too_short() {
    let data = Bytes::from_static(&[0x01, 0x64, 0x00]);
    let result = AvcConfig::parse(data);
    assert!(result.is_err());
}

#[test]
fn test_nalu_iterator() {
    let data: &[u8] = &[
        0x00, 0x00, 0x00, 0x03, 0x67, 0x64, 0x00, 0x00, 0x00, 0x00, 0x02, 0x68, 0xEF,
    ];

    let mut iter = NaluIterator::new(data, 4);

    let nalu1 = iter.next().unwrap();
    assert_eq!(nalu1.len(), 3);
    assert_eq!(NaluType::from_byte(nalu1[0]), Some(NaluType::Sps));

    let nalu2 = iter.next().unwrap();
    assert_eq!(nalu2.len(), 2);
    assert_eq!(NaluType::from_byte(nalu2[0]), Some(NaluType::Pps));

    assert!(iter.next().is_none());
}

#[test]
fn test_nalu_iterator_different_length_sizes() {
    let data: &[u8] = &[0x00, 0x02, 0x65, 0x88];

    let mut iter = NaluIterator::new(data, 2);
    let nalu = iter.next().unwrap();
    assert_eq!(nalu.len(), 2);
}

#[test]
fn test_nalu_iterator_empty() {
    let data: &[u8] = &[];
    let mut iter = NaluIterator::new(data, 4);
    assert!(iter.next().is_none());
}

#[test]
fn test_nalu_iterator_truncated() {
    let data: &[u8] = &[0x00, 0x00, 0x00, 0x0A, 0x67, 0x64, 0x00];

    let mut iter = NaluIterator::new(data, 4);
    assert!(iter.next().is_none());
}

#[test]
fn test_audio_specific_config_parse() {
    let data = Bytes::from_static(&[0x12, 0x10]);

    let config = AudioSpecificConfig::parse(data).unwrap();
    assert_eq!(config.audio_object_type, 2);
    assert_eq!(config.sampling_frequency_index, 4);
    assert_eq!(config.sampling_frequency, 44100);
    assert_eq!(config.channel_configuration, 2);
    assert_eq!(config.channels(), 2);
    assert_eq!(config.profile(), Some(AacProfile::Lc));
}

#[test]
fn test_adts_header() {
    let config = AudioSpecificConfig {
        audio_object_type: 2,
        sampling_frequency_index: 4,
        sampling_frequency: 44100,
        channel_configuration: 2,
        frame_length_flag: false,
        depends_on_core_coder: false,
        extension_flag: false,
        raw: Bytes::new(),
    };

    let header = generate_adts_header(&config, 100);

    assert_eq!(header[0], 0xFF);
    assert_eq!(header[1] & 0xF0, 0xF0);
}

#[test]
fn test_aac_packet_type() {
    assert_eq!(
        AacPacketType::from_byte(0),
        Some(AacPacketType::SequenceHeader)
    );
    assert_eq!(AacPacketType::from_byte(1), Some(AacPacketType::Raw));
    assert_eq!(AacPacketType::from_byte(2), None);
    assert_eq!(AacPacketType::from_byte(255), None);
}

#[test]
fn test_aac_profile_from_object_type() {
    assert_eq!(AacProfile::from_object_type(1), Some(AacProfile::Main));
    assert_eq!(AacProfile::from_object_type(2), Some(AacProfile::Lc));
    assert_eq!(AacProfile::from_object_type(3), Some(AacProfile::Ssr));
    assert_eq!(AacProfile::from_object_type(4), Some(AacProfile::Ltp));
    assert_eq!(AacProfile::from_object_type(5), Some(AacProfile::Sbr));
    assert_eq!(AacProfile::from_object_type(6), Some(AacProfile::Scalable));
    assert_eq!(AacProfile::from_object_type(0), None);
    assert_eq!(AacProfile::from_object_type(7), None);
}

#[test]
fn test_aac_profile_names() {
    assert_eq!(AacProfile::Main.name(), "AAC Main");
    assert_eq!(AacProfile::Lc.name(), "AAC LC");
    assert_eq!(AacProfile::Ssr.name(), "AAC SSR");
    assert_eq!(AacProfile::Ltp.name(), "AAC LTP");
    assert_eq!(AacProfile::Sbr.name(), "HE-AAC");
    assert_eq!(AacProfile::Scalable.name(), "AAC Scalable");
}

#[test]
fn test_audio_specific_config_various_rates() {
    let test_cases = [
        (&[0x12u8, 0x10u8][..], 44100u32, 2u8),
        (&[0x11, 0x90][..], 48000, 2),
        (&[0x11, 0x88][..], 48000, 1),
    ];

    for (data, expected_freq, expected_channels) in test_cases {
        let config = AudioSpecificConfig::parse(Bytes::copy_from_slice(data)).unwrap();
        assert_eq!(config.sampling_frequency, expected_freq);
        assert_eq!(config.channel_configuration, expected_channels);
    }
}

#[test]
fn test_audio_specific_config_channels() {
    let mut config = AudioSpecificConfig {
        audio_object_type: 2,
        sampling_frequency_index: 4,
        sampling_frequency: 44100,
        channel_configuration: 0,
        frame_length_flag: false,
        depends_on_core_coder: false,
        extension_flag: false,
        raw: Bytes::new(),
    };
    assert_eq!(config.channels(), 0);

    let channel_tests = [
        (1, 1),
        (2, 2),
        (3, 3),
        (4, 4),
        (5, 5),
        (6, 6),
        (7, 8),
        (8, 0),
    ];

    for (config_value, expected_channels) in channel_tests {
        config.channel_configuration = config_value;
        assert_eq!(config.channels(), expected_channels);
    }
}

#[test]
fn test_audio_specific_config_samples_per_frame() {
    let config_1024 = AudioSpecificConfig {
        audio_object_type: 2,
        sampling_frequency_index: 4,
        sampling_frequency: 44100,
        channel_configuration: 2,
        frame_length_flag: false,
        depends_on_core_coder: false,
        extension_flag: false,
        raw: Bytes::new(),
    };
    assert_eq!(config_1024.samples_per_frame(), 1024);

    let config_960 = AudioSpecificConfig {
        audio_object_type: 2,
        sampling_frequency_index: 4,
        sampling_frequency: 44100,
        channel_configuration: 2,
        frame_length_flag: true,
        depends_on_core_coder: false,
        extension_flag: false,
        raw: Bytes::new(),
    };
    assert_eq!(config_960.samples_per_frame(), 960);
}

#[test]
fn test_audio_specific_config_profile() {
    let config = AudioSpecificConfig {
        audio_object_type: 2,
        sampling_frequency_index: 4,
        sampling_frequency: 44100,
        channel_configuration: 2,
        frame_length_flag: false,
        depends_on_core_coder: false,
        extension_flag: false,
        raw: Bytes::new(),
    };
    assert_eq!(config.profile(), Some(AacProfile::Lc));

    let config_unknown = AudioSpecificConfig {
        audio_object_type: 99,
        sampling_frequency_index: 4,
        sampling_frequency: 44100,
        channel_configuration: 2,
        frame_length_flag: false,
        depends_on_core_coder: false,
        extension_flag: false,
        raw: Bytes::new(),
    };
    assert!(config_unknown.profile().is_none());
}

#[test]
fn test_aac_data_sequence_header() {
    let data = Bytes::from_static(&[0x00, 0x12, 0x10]);

    let aac = AacData::parse(data).unwrap();
    assert!(aac.is_sequence_header());

    if let AacData::SequenceHeader(config) = aac {
        assert_eq!(config.audio_object_type, 2);
        assert_eq!(config.sampling_frequency, 44100);
        assert_eq!(config.channel_configuration, 2);
    } else {
        panic!("Expected SequenceHeader");
    }
}

#[test]
fn test_aac_data_raw_frame() {
    let data = Bytes::from_static(&[0x01, 0x21, 0x00, 0x49, 0x90, 0x02]);

    let aac = AacData::parse(data).unwrap();
    assert!(!aac.is_sequence_header());

    if let AacData::Frame { data } = aac {
        assert_eq!(data.len(), 5);
    } else {
        panic!("Expected Frame");
    }
}

#[test]
fn test_aac_data_invalid_packet_type() {
    let data = Bytes::from_static(&[0x02, 0x00, 0x00]);
    let result = AacData::parse(data);
    assert!(result.is_err());
}

#[test]
fn test_aac_data_empty() {
    let data = Bytes::new();
    let result = AacData::parse(data);
    assert!(result.is_err());
}

#[test]
fn test_audio_specific_config_too_short() {
    let data = Bytes::from_static(&[0x12]);
    let result = AudioSpecificConfig::parse(data);
    assert!(result.is_err());
}

#[test]
fn test_adts_header_frame_length() {
    let config = AudioSpecificConfig {
        audio_object_type: 2,
        sampling_frequency_index: 4,
        sampling_frequency: 44100,
        channel_configuration: 2,
        frame_length_flag: false,
        depends_on_core_coder: false,
        extension_flag: false,
        raw: Bytes::new(),
    };

    let header1 = generate_adts_header(&config, 100);
    let header2 = generate_adts_header(&config, 500);

    assert_ne!(header1, header2);

    assert_eq!(header1[0], 0xFF);
    assert_eq!(header2[0], 0xFF);
}

#[test]
fn test_audio_specific_config_all_sampling_frequencies() {
    let expected_freqs = [
        96000, 88200, 64000, 48000, 44100, 32000, 24000, 22050, 16000, 12000, 11025, 8000, 7350,
    ];

    for (index, &expected) in expected_freqs.iter().enumerate() {
        assert_eq!(sampling_frequency_from_index(index as u8), expected);
    }
}

#[test]
fn test_aac_data_raw_stores_config_bytes() {
    let raw_data = Bytes::from_static(&[0x12, 0x10]);
    let config = AudioSpecificConfig::parse(raw_data.clone()).unwrap();

    assert_eq!(config.raw.len(), 2);
}
