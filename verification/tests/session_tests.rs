use rtmp_rs::config::ServerConfig;
use rtmp_rs::message::ConnectParams;
use rtmp_rs::quirks::EncoderType;
use rtmp_rs::session::{SessionPhase, SessionState, StreamMode, StreamState};
use rtmp_rs::stats::{ServerStats, SessionStats, StreamStats};
use rtmp_rs::{DEFAULT_PEER_BANDWIDTH, DEFAULT_WINDOW_ACK_SIZE, MAX_CHUNK_SIZE,
    RECOMMENDED_CHUNK_SIZE};

#[test]
fn test_session_lifecycle() {
    let mut state = SessionState::new(1, "127.0.0.1:1935".to_string());

    assert_eq!(state.phase, SessionPhase::Connected);

    state.start_handshake();
    assert_eq!(state.phase, SessionPhase::Handshaking);

    state.complete_handshake();
    assert_eq!(state.phase, SessionPhase::WaitingConnect);
    assert!(state.handshake_completed_at_ms.is_some());

    let params = ConnectParams::default();
    state.on_connect(params, EncoderType::Obs);
    assert_eq!(state.phase, SessionPhase::Active);
    assert!(state.is_active());
}

#[test]
fn test_stream_allocation() {
    let mut state = SessionState::new(1, "127.0.0.1:1935".to_string());

    let id1 = state.allocate_stream_id();
    let id2 = state.allocate_stream_id();

    assert_eq!(id1, 1);
    assert_eq!(id2, 2);
    assert!(state.get_stream(1).is_some());
    assert!(state.get_stream(2).is_some());
}

#[test]
fn test_stream_publish() {
    let mut stream = StreamState::new(1);

    assert_eq!(stream.mode, StreamMode::Idle);
    assert!(!stream.is_publishing());

    stream.start_publish("test_key".into(), "live".into());

    assert_eq!(stream.mode, StreamMode::Publishing);
    assert!(stream.is_publishing());
    assert_eq!(stream.stream_key, Some("test_key".into()));
    assert!(stream.started_at_ms.is_some());
}

#[test]
fn test_stream_ready() {
    let mut stream = StreamState::new(1);

    assert!(!stream.is_ready());

    stream.on_video(0, false, true, 100);
    assert!(stream.is_ready());
    assert!(stream.has_video_header);
}

#[test]
fn test_stream_counters() {
    let mut stream = StreamState::new(1);

    stream.on_video(33, true, false, 500);
    stream.on_video(66, false, false, 300);
    stream.on_audio(50, true, 100);

    assert_eq!(stream.video_frames, 2);
    assert_eq!(stream.audio_frames, 1);
    assert_eq!(stream.keyframes, 1);
    assert_eq!(stream.bytes_received, 900);
    assert_eq!(stream.last_video_ts, 66);
    assert_eq!(stream.last_audio_ts, 50);
    assert!(stream.has_audio_header);
    assert!(!stream.has_video_header);
}

#[test]
fn test_stream_bitrate() {
    let mut stream = StreamState::new(1);
    stream.start_publish("k".into(), "live".into());
    stream.on_video(0, true, false, 125_000);

    let start = stream.started_at_ms.unwrap();
    // Ten seconds in: 125000 bytes * 8 bits / 10 s = 100_000 bps.
    assert_eq!(stream.bitrate_at(start + 10_000), Some(100_000));
    // Under a second: no estimate yet.
    assert_eq!(stream.bitrate_at(start + 500), None);
}

#[test]
fn test_session_ack_accounting() {
    let mut state = SessionState::new(1, "peer".to_string());
    state.window_ack_size = 1000;

    assert!(!state.add_bytes_received(999));
    assert!(state.add_bytes_received(1));
    state.mark_ack_sent();
    assert_eq!(state.last_ack_sequence, 1000);
    assert!(!state.add_bytes_received(999));
    assert!(state.add_bytes_received(1));
}

#[test]
fn test_session_remove_stream() {
    let mut state = SessionState::new(1, "peer".to_string());
    let id = state.allocate_stream_id();
    assert!(state.get_stream(id).is_some());

    let removed = state.remove_stream(id);
    assert!(removed.is_some());
    assert!(state.get_stream(id).is_none());
    assert!(state.remove_stream(id).is_none());
}

#[test]
fn test_session_stats_new() {
    let stats = SessionStats::new();
    assert_eq!(stats.bytes_received, 0);
    assert_eq!(stats.bytes_sent, 0);
    assert_eq!(stats.video_frames, 0);
    assert_eq!(stats.audio_frames, 0);
    assert_eq!(stats.keyframes, 0);
    assert_eq!(stats.dropped_frames, 0);
    assert_eq!(stats.bitrate, 0);
}

#[test]
fn test_session_stats_calculate_bitrate() {
    let mut stats = SessionStats::new();
    stats.bytes_received = 1_000_000;
    stats.duration_ms = 10_000;

    stats.calculate_bitrate();

    assert_eq!(stats.bitrate, 800_000);
}

#[test]
fn test_session_stats_calculate_bitrate_zero_duration() {
    let mut stats = SessionStats::new();
    stats.bytes_received = 1_000_000;
    stats.duration_ms = 0;

    stats.calculate_bitrate();

    assert_eq!(stats.bitrate, 0);
}

#[test]
fn test_stream_stats_new() {
    let stats = StreamStats::new("test_stream".to_string());
    assert_eq!(stats.stream_key, "test_stream");
    assert_eq!(stats.bytes_received, 0);
    assert_eq!(stats.video_frames, 0);
    assert_eq!(stats.audio_frames, 0);
    assert_eq!(stats.keyframes, 0);
    assert_eq!(stats.last_video_ts, 0);
    assert_eq!(stats.last_audio_ts, 0);
    assert!(stats.video_codec.is_none());
    assert!(stats.audio_codec.is_none());
}

#[test]
fn test_stream_stats_duration() {
    let stats = StreamStats::new("test".to_string());

    let duration = stats.duration_ms();
    assert!(duration < 60_000);
}

#[test]
fn test_stream_stats_bitrate_zero_duration() {
    let stats = StreamStats::new("test".to_string());

    let bitrate = stats.bitrate();
    assert_eq!(bitrate, 0);
}

#[test]
fn test_server_stats_new() {
    let stats = ServerStats::new();
    assert_eq!(stats.total_connections, 0);
    assert_eq!(stats.active_connections, 0);
    assert_eq!(stats.total_bytes_received, 0);
    assert_eq!(stats.total_bytes_sent, 0);
    assert_eq!(stats.active_streams, 0);
}

#[test]
fn test_stream_stats_with_data() {
    let mut stats = StreamStats::new("live_stream".to_string());

    stats.bytes_received = 5_000_000;
    stats.video_frames = 300;
    stats.audio_frames = 500;
    stats.keyframes = 10;
    stats.last_video_ts = 10000;
    stats.last_audio_ts = 10050;
    stats.video_codec = Some("H.264".to_string());
    stats.audio_codec = Some("AAC".to_string());
    stats.width = Some(1920);
    stats.height = Some(1080);
    stats.audio_sample_rate = Some(44100);
    stats.audio_channels = Some(2);

    assert_eq!(stats.video_codec, Some("H.264".to_string()));
    assert_eq!(stats.width, Some(1920));
    assert_eq!(stats.height, Some(1080));
    assert_eq!(stats.audio_channels, Some(2));
}

#[test]
fn test_default_config() {
    let config = ServerConfig::default();

    assert_eq!(config.bind_addr, "0.0.0.0:1935");
    assert_eq!(config.max_connections, 0);
    assert_eq!(config.chunk_size, RECOMMENDED_CHUNK_SIZE);
    assert_eq!(config.window_ack_size, DEFAULT_WINDOW_ACK_SIZE);
    assert_eq!(config.peer_bandwidth, DEFAULT_PEER_BANDWIDTH);
    assert!(config.tcp_nodelay);
    assert!(config.gop_buffer_enabled);
}

#[test]
fn test_with_addr() {
    let config = ServerConfig::with_addr("127.0.0.1:1936".to_string());

    assert_eq!(config.bind_addr, "127.0.0.1:1936");
}

#[test]
fn test_builder_bind() {
    let config = ServerConfig::default().bind("0.0.0.0:8080".to_string());

    assert_eq!(config.bind_addr, "0.0.0.0:8080");
}

#[test]
fn test_builder_max_connections() {
    let config = ServerConfig::default().max_connections(100);

    assert_eq!(config.max_connections, 100);
}

#[test]
fn test_builder_chunk_size() {
    let config = ServerConfig::default().chunk_size(8192);

    assert_eq!(config.chunk_size, 8192);
}

#[test]
fn test_builder_chunk_size_capped() {
    let config = ServerConfig::default().chunk_size(u32::MAX);

    assert_eq!(config.chunk_size, MAX_CHUNK_SIZE);
}

#[test]
fn test_builder_disable_gop_buffer() {
    let config = ServerConfig::default().disable_gop_buffer();

    assert!(!config.gop_buffer_enabled);
}

#[test]
fn test_builder_connection_timeout() {
    let config = ServerConfig::default().connection_timeout(30_000);

    assert_eq!(config.connection_timeout_ms, 30_000);
}

#[test]
fn test_builder_idle_timeout() {
    let config = ServerConfig::default().idle_timeout(120_000);

    assert_eq!(config.idle_timeout_ms, 120_000);
}

#[test]
fn test_builder_chaining() {
    let config = ServerConfig::default()
        .bind("127.0.0.1:1935".to_string())
        .max_connections(50)
        .chunk_size(4096)
        .connection_timeout(5_000)
        .idle_timeout(30_000)
        .disable_gop_buffer();

    assert_eq!(config.bind_addr, "127.0.0.1:1935");
    assert_eq!(config.max_connections, 50);
    assert_eq!(config.chunk_size, 4096);
    assert_eq!(config.connection_timeout_ms, 5_000);
    assert_eq!(config.idle_timeout_ms, 30_000);
    assert!(!config.gop_buffer_enabled);
}

#[test]
fn test_session_context() {
    let mut ctx = rtmp_rs::session::SessionContext::new(7, "10.0.0.1:51000".to_string());
    assert_eq!(ctx.session_id, 7);
    assert_eq!(ctx.app, "");
    assert!(ctx.tc_url().is_none());
    assert!(ctx.flash_ver().is_none());

    let mut params = ConnectParams::default();
    params.app = "live".to_string();
    params.tc_url = Some("rtmp://localhost/live".to_string());
    params.flash_ver = Some("OBS-Studio/29.1.3".to_string());
    ctx.with_connect(params, EncoderType::Obs);

    assert_eq!(ctx.app, "live");
    assert_eq!(ctx.encoder_type, EncoderType::Obs);
    assert_eq!(ctx.tc_url().unwrap(), "rtmp://localhost/live");
    assert!(ctx.page_url().is_none());

    let stream = rtmp_rs::session::StreamContext::new(ctx, 1, "k".to_string(), true);
    assert_eq!(stream.stream_id, 1);
    assert!(stream.is_publishing);
}
