use rtmp_rs::amf::AmfValue;
use rtmp_rs::enhanced::{AudioFourCc, CapsEx, EnhancedCapabilities, EnhancedRtmpMode,
    FourCcCapability, VideoFourCc, VideoFunctionFlags};
use rtmp_rs::message::Command;
use rtmp_rs::quirks::{CommandSequence, EncoderType, QuirksConfig, TimestampNormalizer};

fn cmd(name: &str, transaction_id: f64, stream_id: u32) -> Command {
    Command {
        name: name.to_string(),
        transaction_id: transaction_id.to_bits(),
        command_object: AmfValue::Null,
        arguments: vec![],
        stream_id,
    }
}

#[test]
fn test_encoder_detection() {
    assert_eq!(
        EncoderType::from_flash_ver("OBS-Studio/29.1.3"),
        EncoderType::Obs
    );
    assert_eq!(
        EncoderType::from_flash_ver("FMLE/3.0"),
        EncoderType::FlashMediaEncoder
    );
    assert_eq!(
        EncoderType::from_flash_ver("Lavf58.76.100"),
        EncoderType::Ffmpeg
    );
}

#[test]
fn test_timestamp_normalizer() {
    let mut normalizer = TimestampNormalizer::new();

    assert_eq!(normalizer.normalize(0), 0);
    assert_eq!(normalizer.normalize(1000), 1000);
    assert_eq!(normalizer.normalize(2000), 2000);

    assert_eq!(normalizer.normalize(1500), 1500);

    assert_eq!(normalizer.normalize(100), 1601);
}

#[test]
fn test_quirks_config_default() {
    let config = QuirksConfig::default();

    assert!(config.allow_early_commands);
    assert!(config.allow_fc_before_connect);
    assert!(config.lenient_amf);
    assert!(config.allow_timestamp_regression);
    assert!(config.allow_duplicate_metadata);
    assert!(config.allow_empty_app);
    assert!(config.allow_oversized_chunks);
}

#[test]
fn test_quirks_config_strict() {
    let config = QuirksConfig::strict();

    assert!(!config.allow_early_commands);
    assert!(!config.allow_fc_before_connect);
    assert!(!config.lenient_amf);
    assert!(!config.allow_timestamp_regression);
    assert!(!config.allow_duplicate_metadata);
    assert!(!config.allow_empty_app);
    assert!(!config.allow_oversized_chunks);
}

#[test]
fn test_encoder_type_detection() {
    assert_eq!(
        EncoderType::from_flash_ver("OBS-Studio/29.1.3"),
        EncoderType::Obs
    );
    assert_eq!(EncoderType::from_flash_ver("obs studio"), EncoderType::Obs);

    assert_eq!(
        EncoderType::from_flash_ver("Lavf58.76.100"),
        EncoderType::Ffmpeg
    );
    assert_eq!(
        EncoderType::from_flash_ver("librtmp 2.4"),
        EncoderType::Ffmpeg
    );

    assert_eq!(
        EncoderType::from_flash_ver("FMLE/3.0"),
        EncoderType::FlashMediaEncoder
    );
    assert_eq!(
        EncoderType::from_flash_ver("Flash Media Encoder"),
        EncoderType::FlashMediaEncoder
    );

    assert_eq!(
        EncoderType::from_flash_ver("Wirecast/13.1"),
        EncoderType::Wirecast
    );

    assert_eq!(
        EncoderType::from_flash_ver("XSplit/4.0"),
        EncoderType::Xsplit
    );

    assert_eq!(
        EncoderType::from_flash_ver("Larix Broadcaster"),
        EncoderType::Larix
    );

    assert_eq!(
        EncoderType::from_flash_ver("SomeOtherEncoder"),
        EncoderType::Other
    );
    assert_eq!(EncoderType::from_flash_ver(""), EncoderType::Other);
}

#[test]
fn test_encoder_type_case_insensitive() {
    assert_eq!(EncoderType::from_flash_ver("OBS"), EncoderType::Obs);
    assert_eq!(EncoderType::from_flash_ver("obs"), EncoderType::Obs);
    assert_eq!(EncoderType::from_flash_ver("LAVF"), EncoderType::Ffmpeg);
    assert_eq!(EncoderType::from_flash_ver("lavf"), EncoderType::Ffmpeg);
}

#[test]
fn test_command_sequence_new() {
    let seq = CommandSequence::new();
    assert_eq!(seq.state(), "initial");
}

#[test]
fn test_command_sequence_default() {
    let seq = CommandSequence::default();
    assert_eq!(seq.state(), "initial");
}

#[test]
fn test_command_sequence_connect() {
    let mut seq = CommandSequence::new();

    let connect = cmd("connect", 1.0, 0);
    assert!(seq.is_valid_command(&connect));

    seq.on_command("connect");
    assert_eq!(seq.state(), "connected");

    assert!(!seq.is_valid_command(&connect));
}

#[test]
fn test_command_sequence_create_stream() {
    let mut seq = CommandSequence::new();

    let create_stream = cmd("createStream", 2.0, 0);

    assert!(seq.is_valid_command(&create_stream));

    seq.on_command("connect");
    assert!(seq.is_valid_command(&create_stream));

    seq.on_command("createStream");
    assert_eq!(seq.state(), "stream_created");
}

#[test]
fn test_command_sequence_publish() {
    let mut seq = CommandSequence::new();

    let publish = Command {
        name: "publish".to_string(),
        transaction_id: 0.0f64.to_bits(),
        command_object: AmfValue::Null,
        arguments: vec![AmfValue::String(b"stream_key".to_vec())],
        stream_id: 1,
    };

    assert!(!seq.is_valid_command(&publish));

    seq.on_command("connect");
    assert!(!seq.is_valid_command(&publish));

    seq.on_command("createStream");
    assert!(seq.is_valid_command(&publish));

    seq.on_command("publish");
    assert_eq!(seq.state(), "publishing");
}

#[test]
fn test_command_sequence_play() {
    let mut seq = CommandSequence::new();

    let play = Command {
        name: "play".to_string(),
        transaction_id: 0.0f64.to_bits(),
        command_object: AmfValue::Null,
        arguments: vec![AmfValue::String(b"stream_name".to_vec())],
        stream_id: 1,
    };

    seq.on_command("connect");
    seq.on_command("createStream");

    assert!(seq.is_valid_command(&play));
    seq.on_command("play");
    assert_eq!(seq.state(), "playing");
}

#[test]
fn test_command_sequence_fc_commands_always_valid() {
    let mut seq = CommandSequence::new();

    let release_stream = cmd("releaseStream", 2.0, 0);
    let fc_publish = cmd("FCPublish", 3.0, 0);

    assert!(seq.is_valid_command(&release_stream));
    assert!(seq.is_valid_command(&fc_publish));

    seq.on_command("connect");
    assert!(seq.is_valid_command(&release_stream));
    assert!(seq.is_valid_command(&fc_publish));
}

#[test]
fn test_command_sequence_close_commands() {
    let mut seq = CommandSequence::new();

    let fc_unpublish = cmd("FCUnpublish", 0.0, 1);
    let delete_stream = cmd("deleteStream", 4.0, 1);

    assert!(!seq.is_valid_command(&fc_unpublish));
    assert!(!seq.is_valid_command(&delete_stream));

    seq.on_command("connect");
    seq.on_command("createStream");
    seq.on_command("publish");

    assert!(seq.is_valid_command(&fc_unpublish));
    assert!(seq.is_valid_command(&delete_stream));

    seq.on_command("deleteStream");
    assert_eq!(seq.state(), "connected");
}

#[test]
fn test_command_sequence_unknown_command_always_valid() {
    let seq = CommandSequence::new();

    let unknown = cmd("unknownCommand", 0.0, 0);

    assert!(seq.is_valid_command(&unknown));
}

#[test]
fn test_timestamp_normalizer_reset() {
    let mut normalizer = TimestampNormalizer::new();

    normalizer.normalize(1000);
    normalizer.normalize(2000);

    normalizer.reset();

    assert_eq!(normalizer.normalize(0), 0);
    assert_eq!(normalizer.normalize(100), 100);
}

#[test]
fn test_timestamp_normalizer_multiple_regressions() {
    let mut normalizer = TimestampNormalizer::new();

    normalizer.normalize(0);
    normalizer.normalize(5000);
    let after_first = normalizer.normalize(100);
    assert!(after_first > 5000);

    let next = normalizer.normalize(200);
    assert!(next > after_first);
}

#[test]
fn test_timestamp_normalizer_default() {
    let normalizer = TimestampNormalizer::default();
    assert_eq!(normalizer.last_timestamp, 0);
    assert_eq!(normalizer.offset, 0);
}

#[test]
fn test_timestamp_regression_boundary() {
    // A regression of exactly 1000 ms passes through; 1001 ms adds the
    // last-normalized-plus-one offset.
    let mut n = TimestampNormalizer::new();
    n.normalize(2000);
    assert_eq!(n.normalize(1000), 1000);

    let mut n = TimestampNormalizer::new();
    n.normalize(2000);
    assert_eq!(n.normalize(999), 999 + 2001);
}

#[test]
fn test_encoder_type_equality() {
    assert_eq!(EncoderType::Obs, EncoderType::Obs);
    assert_ne!(EncoderType::Obs, EncoderType::Ffmpeg);
    assert_ne!(EncoderType::Unknown, EncoderType::Other);
}

#[test]
fn test_caps_ex_empty() {
    let caps = CapsEx::empty();
    assert_eq!(caps.bits(), 0);
    assert!(!caps.supports_reconnect());
    assert!(!caps.supports_multitrack());
    assert!(!caps.supports_modex());
    assert!(!caps.supports_timestamp_nano_offset());
}

#[test]
fn test_caps_ex_flags() {
    let caps = CapsEx::from_bits(CapsEx::RECONNECT | CapsEx::MULTITRACK);
    assert!(caps.supports_reconnect());
    assert!(caps.supports_multitrack());
    assert!(!caps.supports_modex());
    assert!(!caps.supports_timestamp_nano_offset());
}

#[test]
fn test_caps_ex_insert_remove() {
    let mut caps = CapsEx::empty();

    caps.insert(CapsEx::RECONNECT);
    assert!(caps.supports_reconnect());

    caps.insert(CapsEx::MODEX);
    assert!(caps.supports_modex());

    caps.remove(CapsEx::RECONNECT);
    assert!(!caps.supports_reconnect());
    assert!(caps.supports_modex());
}

#[test]
fn test_caps_ex_intersection() {
    let client = CapsEx::from_bits(CapsEx::RECONNECT | CapsEx::MULTITRACK | CapsEx::MODEX);
    let server = CapsEx::from_bits(CapsEx::MULTITRACK | CapsEx::MODEX);

    let common = client.intersection(&server);
    assert!(!common.supports_reconnect());
    assert!(common.supports_multitrack());
    assert!(common.supports_modex());
}

#[test]
fn test_fourcc_capability_flags() {
    let cap = FourCcCapability::full();
    assert!(cap.can_decode());
    assert!(cap.can_encode());
    assert!(cap.can_forward());

    let forward_only = FourCcCapability::forward();
    assert!(!forward_only.can_decode());
    assert!(!forward_only.can_encode());
    assert!(forward_only.can_forward());
}

#[test]
fn test_fourcc_capability_from_bits() {
    let cap =
        FourCcCapability::from_bits(FourCcCapability::CAN_DECODE | FourCcCapability::CAN_FORWARD);
    assert!(cap.can_decode());
    assert!(!cap.can_encode());
    assert!(cap.can_forward());
}

#[test]
fn test_enhanced_capabilities_default() {
    let caps = EnhancedCapabilities::new();
    assert!(!caps.enabled);
    assert!(caps.video_codecs.is_empty());
    assert!(caps.audio_codecs.is_empty());
}

#[test]
fn test_enhanced_capabilities_with_defaults() {
    let caps = EnhancedCapabilities::with_defaults();
    assert!(caps.enabled);
    assert!(caps.supports_video_codec(VideoFourCc::Avc));
    assert!(caps.supports_video_codec(VideoFourCc::Hevc));
    assert!(caps.supports_video_codec(VideoFourCc::Av1));
    assert!(caps.supports_audio_codec(AudioFourCc::Aac));
    assert!(caps.supports_audio_codec(AudioFourCc::Opus));

    assert!(caps.supports_video_codec(VideoFourCc::Vp9));
}

#[test]
fn test_enhanced_capabilities_codec_lookup() {
    let caps = EnhancedCapabilities::with_defaults();

    let avc_cap = caps.video_codec_capability(VideoFourCc::Avc).unwrap();
    assert!(avc_cap.can_forward());

    let vp8_cap = caps.video_codec_capability(VideoFourCc::Vp8);
    assert!(vp8_cap.is_none() || vp8_cap.unwrap().can_forward());
}

#[test]
fn test_enhanced_capabilities_intersect() {
    let mut client = EnhancedCapabilities::new();
    client.enabled = true;
    client.caps_ex = CapsEx::from_bits(CapsEx::RECONNECT | CapsEx::MODEX);
    client
        .video_codecs
        .push((VideoFourCc::Avc, FourCcCapability::full()));
    client
        .video_codecs
        .push((VideoFourCc::Vp8, FourCcCapability::decode()));

    let mut server = EnhancedCapabilities::new();
    server.enabled = true;
    server.caps_ex = CapsEx::from_bits(CapsEx::MODEX);
    server
        .video_codecs
        .push((VideoFourCc::Avc, FourCcCapability::forward()));

    let common = client.intersect(&server);
    assert!(common.enabled);
    assert!(!common.caps_ex.supports_reconnect());
    assert!(common.caps_ex.supports_modex());

    let avc_cap = common.video_codec_capability(VideoFourCc::Avc).unwrap();
    assert!(avc_cap.can_forward());
    assert!(!avc_cap.can_encode());

    assert!(!common.supports_video_codec(VideoFourCc::Vp8));
}

#[test]
fn test_enhanced_capabilities_intersect_disabled() {
    let client = EnhancedCapabilities::with_defaults();
    let server = EnhancedCapabilities::new();

    let common = client.intersect(&server);
    assert!(!common.enabled);
}

#[test]
fn test_enhanced_rtmp_mode_default() {
    let mode = EnhancedRtmpMode::default();
    assert_eq!(mode, EnhancedRtmpMode::Auto);
}

#[test]
fn test_video_function_flags() {
    let flags = VideoFunctionFlags::from_bits(VideoFunctionFlags::CLIENT_SEEK);
    assert!(flags.supports_client_seek());

    let empty = VideoFunctionFlags::empty();
    assert!(!empty.supports_client_seek());
}

#[test]
fn test_multitrack_support() {
    let mut caps = EnhancedCapabilities::with_defaults();
    assert!(!caps.supports_multitrack());

    caps.caps_ex.insert(CapsEx::MULTITRACK);
    assert!(caps.supports_multitrack());

    caps.enabled = false;
    assert!(!caps.supports_multitrack());
}

#[test]
fn test_reconnect_support() {
    let mut caps = EnhancedCapabilities::with_defaults();
    assert!(!caps.supports_reconnect());

    caps.caps_ex.insert(CapsEx::RECONNECT);
    assert!(caps.supports_reconnect());
}
