use bytes::Bytes;

use rtmp_rs::registry::{BroadcastFrame, RegistryConfig, RegistryError, StreamKey, StreamRegistry,
    StreamState};

fn k(app: &str, name: &str) -> StreamKey {
    StreamKey::new(app.to_string(), name.to_string())
}

#[test]
fn test_register_publisher() {
    let mut registry = StreamRegistry::new();
    let key = k("live", "test_stream");

    registry.register_publisher(&key, 1).unwrap();
    assert!(registry.has_active_stream(&key));

    let result = registry.register_publisher(&key, 2);
    assert!(matches!(
        result,
        Err(RegistryError::StreamAlreadyPublishing(_))
    ));
}

#[test]
fn test_subscribe_unsubscribe() {
    let mut registry = StreamRegistry::new();
    let key = k("live", "test_stream");

    registry.register_publisher(&key, 1).unwrap();

    let catchup = registry.subscribe(&key).unwrap();
    assert!(catchup.is_empty());

    let frame = BroadcastFrame::video(0, Bytes::from_static(&[0x17, 0x01]), true, false);
    assert!(registry.broadcast(&key, &frame));

    registry.unsubscribe(&key);

    let stats = registry.get_stream_stats(&key).unwrap();
    assert_eq!(stats.subscriber_count, 0);
}

#[test]
fn test_grace_period() {
    let config = RegistryConfig::default().publisher_grace_period(100);
    let mut registry = StreamRegistry::with_config(config);
    let key = k("live", "test_stream");

    registry.register_publisher(&key, 1).unwrap();
    let _ = registry.subscribe(&key).unwrap();

    registry.unregister_publisher(&key, 1);

    let stats = registry.get_stream_stats(&key).unwrap();
    assert_eq!(stats.state, StreamState::GracePeriod);

    assert!(registry.stream_exists(&key));

    let result = registry.subscribe(&key);
    assert!(result.is_ok());
}

#[test]
fn test_publisher_reconnect() {
    let mut registry = StreamRegistry::new();
    let key = k("live", "test_stream");

    registry.register_publisher(&key, 1).unwrap();

    let _ = registry.subscribe(&key).unwrap();

    registry.unregister_publisher(&key, 1);

    registry.register_publisher(&key, 2).unwrap();

    let stats = registry.get_stream_stats(&key).unwrap();
    assert!(stats.has_publisher);
    assert_eq!(stats.state, StreamState::Active);
    assert_eq!(stats.subscriber_count, 1);
}

#[test]
fn test_catchup_frames() {
    let mut registry = StreamRegistry::new();
    let key = k("live", "test_stream");

    registry.register_publisher(&key, 1).unwrap();

    let video_header = BroadcastFrame::video(0, Bytes::from_static(&[0x17, 0x00]), true, true);
    let audio_header = BroadcastFrame::audio(0, Bytes::from_static(&[0xAF, 0x00]), true);
    registry.broadcast(&key, &video_header);
    registry.broadcast(&key, &audio_header);

    let keyframe = BroadcastFrame::video(33, Bytes::from_static(&[0x17, 0x01]), true, false);
    registry.broadcast(&key, &keyframe);

    let catchup = registry.subscribe(&key).unwrap();

    assert_eq!(catchup.len(), 3);
    assert!(catchup[0].is_header);
    assert!(catchup[1].is_header);
    assert!(catchup[2].is_keyframe);
}

#[test]
fn test_late_joiner_receives_full_gop() {
    // A publishes a header, a keyframe, then inter frames; a late joiner
    // gets the header, the keyframe, and every inter frame in order.
    let mut registry = StreamRegistry::new();
    let key = k("live", "k");
    registry.register_publisher(&key, 1).unwrap();

    let header = BroadcastFrame::video(0, Bytes::from_static(&[0x17, 0x00]), true, true);
    registry.broadcast(&key, &header);
    let keyframe = BroadcastFrame::video(0, Bytes::from_static(&[0x17, 0x01, 0x01]), true, false);
    registry.broadcast(&key, &keyframe);
    for i in 1..=10u32 {
        let inter =
            BroadcastFrame::video(i * 33, Bytes::from(vec![0x27, 0x01, i as u8]), false, false);
        registry.broadcast(&key, &inter);
    }

    let catchup = registry.subscribe(&key).unwrap();
    assert_eq!(catchup.len(), 1 + 1 + 10);
    assert!(catchup[0].is_header);
    assert!(catchup[1].is_keyframe);
    for i in 1..=10u32 {
        assert_eq!(catchup[1 + i as usize].timestamp, i * 33);
    }
}

#[test]
fn test_double_publish_rejected_other_unaffected() {
    // C's attempt to take key K while A is active fails and leaves A's
    // entry untouched.
    let mut registry = StreamRegistry::new();
    let key = k("live", "K");
    registry.register_publisher(&key, 1).unwrap();
    let _ = registry.subscribe(&key).unwrap();

    let r = registry.register_publisher(&key, 3);
    assert!(matches!(r, Err(RegistryError::StreamAlreadyPublishing(_))));

    let stats = registry.get_stream_stats(&key).unwrap();
    assert!(stats.has_publisher);
    assert_eq!(stats.subscriber_count, 1);
    assert_eq!(stats.state, StreamState::Active);
}

#[test]
fn test_reconnect_within_grace() {
    // Grace period 10 s. A publishes at t=0, B plays, A disconnects at
    // t=1000, A reconnects at t=5000: Active -> GracePeriod -> Active,
    // the subscriber count stays 1, and a sweep removes nothing.
    let config = RegistryConfig::default().publisher_grace_period(10_000);
    let mut registry = StreamRegistry::with_config(config);
    let key = k("live", "s");

    registry.register_publisher_at(&key, 1, 0).unwrap();
    let _ = registry.subscribe(&key).unwrap();

    registry.unregister_publisher_at(&key, 1, 1000);
    assert_eq!(
        registry.get_stream_stats(&key).unwrap().state,
        StreamState::GracePeriod
    );

    registry.cleanup_at(5000);
    assert!(registry.stream_exists(&key));

    registry.register_publisher_at(&key, 2, 5000).unwrap();
    let stats = registry.get_stream_stats(&key).unwrap();
    assert_eq!(stats.state, StreamState::Active);
    assert_eq!(stats.subscriber_count, 1);
}

#[test]
fn test_reconnect_after_grace() {
    // As above, but A reconnects at t=15000: the sweep at t=11001 removes
    // the entry, and the reconnect creates a fresh one.
    let config = RegistryConfig::default().publisher_grace_period(10_000);
    let mut registry = StreamRegistry::with_config(config);
    let key = k("live", "s");

    registry.register_publisher_at(&key, 1, 0).unwrap();
    let _ = registry.subscribe(&key).unwrap();
    registry.unregister_publisher_at(&key, 1, 1000);

    registry.cleanup_at(11_001);
    assert!(!registry.stream_exists(&key));
    assert_eq!(registry.stream_count(), 0);

    registry.register_publisher_at(&key, 2, 15_000).unwrap();
    let stats = registry.get_stream_stats(&key).unwrap();
    assert_eq!(stats.state, StreamState::Active);
    assert_eq!(stats.subscriber_count, 0);
}

#[test]
fn test_idle_entry_swept_after_timeout() {
    let config = RegistryConfig::default()
        .publisher_grace_period(10_000)
        .idle_stream_timeout(60_000);
    let mut registry = StreamRegistry::with_config(config);
    let key = k("live", "s");

    // No subscribers: unregistering goes Idle, not GracePeriod.
    registry.register_publisher_at(&key, 1, 0).unwrap();
    registry.unregister_publisher_at(&key, 1, 1000);
    assert_eq!(
        registry.get_stream_stats(&key).unwrap().state,
        StreamState::Idle
    );

    registry.cleanup_at(30_000);
    assert!(registry.get_stream_stats(&key).is_some());

    registry.cleanup_at(61_001);
    assert!(registry.get_stream_stats(&key).is_none());
}

#[test]
fn test_subscribe_missing_stream() {
    let mut registry = StreamRegistry::new();
    let r = registry.subscribe(&k("live", "nope"));
    assert!(matches!(r, Err(RegistryError::StreamNotFound(_))));
}

#[test]
fn test_subscribe_idle_stream_not_active() {
    let mut registry = StreamRegistry::new();
    let key = k("live", "s");
    registry.register_publisher(&key, 1).unwrap();
    registry.unregister_publisher(&key, 1);

    let r = registry.subscribe(&key);
    assert!(matches!(r, Err(RegistryError::StreamNotActive(_))));
}

#[test]
fn test_unregister_requires_owner() {
    let mut registry = StreamRegistry::new();
    let key = k("live", "s");
    registry.register_publisher(&key, 1).unwrap();

    // A non-owner cannot release the stream.
    registry.unregister_publisher(&key, 99);
    assert!(registry.has_active_stream(&key));
}

#[test]
fn test_broadcast_keyframe_starts_new_gop() {
    let mut registry = StreamRegistry::new();
    let key = k("live", "s");
    registry.register_publisher(&key, 1).unwrap();

    let kf1 = BroadcastFrame::video(0, Bytes::from_static(&[0x17, 0x01, 0x01]), true, false);
    let inter = BroadcastFrame::video(33, Bytes::from_static(&[0x27, 0x01]), false, false);
    let kf2 = BroadcastFrame::video(66, Bytes::from_static(&[0x17, 0x01, 0x02]), true, false);
    registry.broadcast(&key, &kf1);
    registry.broadcast(&key, &inter);
    registry.broadcast(&key, &kf2);

    // Catch-up holds only the new GOP.
    let catchup = registry.subscribe(&key).unwrap();
    assert_eq!(catchup.len(), 1);
    assert_eq!(catchup[0].timestamp, 66);
}

#[test]
fn test_get_sequence_headers() {
    let mut registry = StreamRegistry::new();
    let key = k("live", "s");
    registry.register_publisher(&key, 1).unwrap();

    assert!(registry.get_sequence_headers(&key).is_empty());

    let vh = BroadcastFrame::video(0, Bytes::from_static(&[0x17, 0x00]), true, true);
    let ah = BroadcastFrame::audio(0, Bytes::from_static(&[0xAF, 0x00]), true);
    registry.broadcast(&key, &vh);
    registry.broadcast(&key, &ah);

    let headers = registry.get_sequence_headers(&key);
    assert_eq!(headers.len(), 2);
    assert!(headers[0].is_header);
    assert!(headers[1].is_header);
}

#[test]
fn test_broadcast_missing_stream_is_noop() {
    let mut registry = StreamRegistry::new();
    let frame = BroadcastFrame::video(0, Bytes::from_static(&[0x17, 0x01]), true, false);
    assert!(!registry.broadcast(&k("live", "nope"), &frame));
}

#[test]
fn test_metadata_cached_for_late_joiners() {
    let mut registry = StreamRegistry::new();
    let key = k("live", "s");
    registry.register_publisher(&key, 1).unwrap();

    let meta = BroadcastFrame::metadata(Bytes::from_static(b"onMetaData"));
    registry.broadcast(&key, &meta);

    let catchup = registry.subscribe(&key).unwrap();
    assert_eq!(catchup.len(), 1);
    assert_eq!(&catchup[0].data[..], b"onMetaData");
}

#[test]
fn test_publish_status_codes() {
    // A granted publish reports Start; a conflicting one reports BadName.
    let mut registry = StreamRegistry::new();
    let key = k("live", "K");

    let first = registry.register_publisher(&key, 1);
    assert_eq!(
        rtmp_rs::dispatch::publish_status_code(&first),
        "NetStream.Publish.Start"
    );

    let second = registry.register_publisher(&key, 3);
    assert_eq!(
        rtmp_rs::dispatch::publish_status_code(&second),
        "NetStream.Publish.BadName"
    );
}

#[test]
fn test_play_and_connect_status_codes() {
    let (reset, start) = rtmp_rs::dispatch::play_status_codes();
    assert_eq!(reset, "NetStream.Play.Reset");
    assert_eq!(start, "NetStream.Play.Start");
    assert_eq!(
        rtmp_rs::dispatch::connect_status_code(),
        "NetConnection.Connect.Success"
    );
    assert_eq!(rtmp_rs::dispatch::status_level(), "status");

    assert_eq!(
        rtmp_rs::dispatch::response_name_for("connect"),
        Some("_result")
    );
    assert_eq!(
        rtmp_rs::dispatch::response_name_for("publish"),
        Some("onStatus")
    );
    assert_eq!(rtmp_rs::dispatch::response_name_for("FCPublish"), None);
}

#[test]
fn test_slow_subscriber_demotion() {
    // After a lag signal, the delivery gate drops frames until the next
    // keyframe, then resumes; the publisher side is never involved.
    let mut gate = rtmp_rs::registry::DeliveryGate::new();

    let inter = BroadcastFrame::video(33, Bytes::from_static(&[0x27, 0x01]), false, false);
    let keyframe = BroadcastFrame::video(66, Bytes::from_static(&[0x17, 0x01]), true, false);

    assert!(gate.deliver(&inter));

    gate.on_lag();
    assert!(!gate.deliver(&inter));
    assert!(!gate.deliver(&inter));
    assert!(gate.deliver(&keyframe));
    assert!(gate.deliver(&inter));
}
