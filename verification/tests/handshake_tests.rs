use bytes::{BufMut, Bytes, BytesMut};

use rtmp_rs::handshake::{generate_echo, generate_packet, Handshake, HandshakeRole};
use rtmp_rs::{HANDSHAKE_SIZE, RTMP_VERSION};

#[test]
fn test_client_server_handshake() {
    let mut client = Handshake::new(HandshakeRole::Client);
    let mut server = Handshake::new(HandshakeRole::Server);

    let c0c1 = client
        .generate_initial()
        .expect("Client should generate C0C1");
    assert_eq!(c0c1.len(), 1 + HANDSHAKE_SIZE);

    let mut c0c1_buf = c0c1;
    server.generate_initial();
    let s0s1s2 = server
        .process(&mut c0c1_buf)
        .unwrap()
        .expect("Server should generate S0S1S2");
    assert_eq!(s0s1s2.len(), 1 + HANDSHAKE_SIZE * 2);

    let mut s0s1s2_buf = s0s1s2;
    let c2 = client
        .process(&mut s0s1s2_buf)
        .unwrap()
        .expect("Client should generate C2");
    assert_eq!(c2.len(), HANDSHAKE_SIZE);
    assert!(client.is_done());

    let mut c2_buf = c2;
    let response = server.process(&mut c2_buf).unwrap();
    assert!(response.is_none());
    assert!(server.is_done());
}

#[test]
fn test_packet_generation() {
    let packet = generate_packet();

    let timestamp = u32::from_be_bytes([packet[0], packet[1], packet[2], packet[3]]);
    assert!(timestamp > 0);

    assert_eq!(&packet[4..8], &[0, 0, 0, 0]);
}

#[test]
fn test_handshake_role_enum() {
    assert_ne!(HandshakeRole::Client, HandshakeRole::Server);

    let client_role = HandshakeRole::Client;
    let server_role = HandshakeRole::Server;

    assert_eq!(client_role, HandshakeRole::Client);
    assert_eq!(server_role, HandshakeRole::Server);
}

#[test]
fn test_handshake_is_done() {
    let mut client = Handshake::new(HandshakeRole::Client);
    assert!(!client.is_done());

    let c0c1 = client.generate_initial().unwrap();

    assert!(!client.is_done());

    let mut server = Handshake::new(HandshakeRole::Server);
    server.generate_initial();

    let mut c0c1_buf = c0c1;
    let s0s1s2 = server.process(&mut c0c1_buf).unwrap().unwrap();

    let mut s0s1s2_buf = s0s1s2;
    let _c2 = client.process(&mut s0s1s2_buf).unwrap().unwrap();

    assert!(client.is_done());

    let mut c2_buf = _c2;
    server.process(&mut c2_buf).unwrap();

    assert!(server.is_done());
}

#[test]
fn test_bytes_needed() {
    let mut client = Handshake::new(HandshakeRole::Client);

    assert_eq!(client.bytes_needed(), 0);

    client.generate_initial();
    assert_eq!(client.bytes_needed(), 1 + HANDSHAKE_SIZE);

    let mut server = Handshake::new(HandshakeRole::Server);
    assert_eq!(server.bytes_needed(), 0);

    server.generate_initial();
    assert_eq!(server.bytes_needed(), 1 + HANDSHAKE_SIZE);
}

#[test]
fn test_server_initial_returns_none() {
    let mut server = Handshake::new(HandshakeRole::Server);

    let result = server.generate_initial();
    assert!(result.is_none());
}

#[test]
fn test_client_initial_returns_c0c1() {
    let mut client = Handshake::new(HandshakeRole::Client);

    let c0c1 = client.generate_initial().unwrap();

    assert_eq!(c0c1.len(), 1 + HANDSHAKE_SIZE);

    assert_eq!(c0c1[0], RTMP_VERSION);
}

#[test]
fn test_double_generate_initial_returns_none() {
    let mut client = Handshake::new(HandshakeRole::Client);

    assert!(client.generate_initial().is_some());

    assert!(client.generate_initial().is_none());
}

#[test]
fn test_echo_packet_preserves_random_data() {
    let original = generate_packet();
    let echo = generate_echo(&original);

    assert_eq!(&original[8..], &echo[8..]);

    assert_eq!(&original[0..4], &echo[0..4]);
}

#[test]
fn test_incomplete_c0c1() {
    let mut server = Handshake::new(HandshakeRole::Server);
    server.generate_initial();

    let mut incomplete = Bytes::from(vec![RTMP_VERSION; 100]);

    let result = server.process(&mut incomplete).unwrap();
    assert!(result.is_none());
}

#[test]
fn test_incomplete_s0s1s2() {
    let mut client = Handshake::new(HandshakeRole::Client);
    client.generate_initial();

    let mut incomplete = Bytes::from(vec![RTMP_VERSION; 1000]);

    let result = client.process(&mut incomplete).unwrap();
    assert!(result.is_none());
}

#[test]
fn test_invalid_version_rejected() {
    let mut server = Handshake::new(HandshakeRole::Server);
    server.generate_initial();

    let mut invalid = BytesMut::with_capacity(1 + HANDSHAKE_SIZE);
    invalid.put_u8(2);
    invalid.put_slice(&[0u8; 1536]);

    let mut buf = invalid.freeze();
    let result = server.process(&mut buf);

    assert!(result.is_err());
}

#[test]
fn test_lenient_version_acceptance() {
    let mut server = Handshake::new(HandshakeRole::Server);
    server.generate_initial();

    let mut valid = BytesMut::with_capacity(1 + HANDSHAKE_SIZE);
    valid.put_u8(31);
    valid.put_slice(&generate_packet());

    let mut buf = valid.freeze();
    let result = server.process(&mut buf);

    assert!(result.is_ok());
    assert!(result.unwrap().is_some());
}

#[test]
fn test_handshake_packet_size_constant() {
    assert_eq!(HANDSHAKE_SIZE, 1536);
}

#[test]
fn test_multiple_packets_different_random_data() {
    let packet1 = generate_packet();
    let packet2 = generate_packet();

    assert!(&packet1[8..100] != &[0u8; 92][..]);
    assert!(&packet2[8..100] != &[0u8; 92][..]);
}

#[test]
fn test_server_c2_processing() {
    let mut client = Handshake::new(HandshakeRole::Client);
    let mut server = Handshake::new(HandshakeRole::Server);

    let c0c1 = client.generate_initial().unwrap();
    server.generate_initial();

    let mut c0c1_buf = c0c1;
    let s0s1s2 = server.process(&mut c0c1_buf).unwrap().unwrap();

    let mut s0s1s2_buf = s0s1s2;
    let c2 = client.process(&mut s0s1s2_buf).unwrap().unwrap();

    let mut c2_buf = c2;
    let response = server.process(&mut c2_buf).unwrap();

    assert!(response.is_none());
    assert!(server.is_done());
}

#[test]
fn test_process_in_wrong_state() {
    let mut client = Handshake::new(HandshakeRole::Client);

    let mut buf = Bytes::from(vec![0u8; 3073]);
    let result = client.process(&mut buf).unwrap();

    assert!(result.is_none());
}

#[test]
fn test_s2_echoes_c1() {
    // The server's S2 (last 1536 bytes of S0S1S2) echoes C1's timestamp
    // and filler, replacing only bytes 4..8.
    let mut client = Handshake::new(HandshakeRole::Client);
    let mut server = Handshake::new(HandshakeRole::Server);

    let c0c1 = client.generate_initial().unwrap();
    let c1: Vec<u8> = c0c1[1..].to_vec();
    server.generate_initial();

    let mut buf = c0c1;
    let s0s1s2 = server.process(&mut buf).unwrap().unwrap();
    let s2 = &s0s1s2[1 + HANDSHAKE_SIZE..];

    assert_eq!(&s2[0..4], &c1[0..4]);
    assert_eq!(&s2[8..], &c1[8..]);
}
