use rtmp_rs::chunk::{fragment_message, reassemble_message, ChunkDecoder, ChunkMessage};
use rtmp_rs::error::ChunkError;

fn roundtrip(msg: &ChunkMessage, csid: u32, chunk_size: u32) {
    let wire = fragment_message(msg, csid, chunk_size).unwrap();
    let (csid2, out) = reassemble_message(&wire, chunk_size).unwrap();
    assert_eq!(csid2, csid);
    assert_eq!(out.msid, msg.msid);
    assert_eq!(out.type_id, msg.type_id);
    assert_eq!(out.timestamp, msg.timestamp);
    assert_eq!(out.payload, msg.payload);
}

fn sample_message(len: usize) -> ChunkMessage {
    let payload: Vec<u8> = (0..len).map(|i| (i % 251) as u8).collect();
    ChunkMessage {
        msid: 1,
        type_id: 9,
        timestamp: 33,
        payload,
    }
}

#[test]
fn test_chunk_roundtrip_small_message() {
    roundtrip(&sample_message(10), 3, 128);
}

#[test]
fn test_chunk_roundtrip_exact_chunk() {
    roundtrip(&sample_message(128), 3, 128);
}

#[test]
fn test_chunk_roundtrip_multi_chunk() {
    roundtrip(&sample_message(1000), 3, 128);
}

#[test]
fn test_chunk_roundtrip_boundary_sizes() {
    // Every boundary chunk size round-trips.
    let msg = sample_message(5000);
    for cs in [1u32, 127, 128, 129, 4095, 4096, 16_777_215] {
        roundtrip(&msg, 3, cs);
    }
}

#[test]
fn test_chunk_roundtrip_empty_payload() {
    roundtrip(&sample_message(0), 3, 128);
}

#[test]
fn test_chunk_roundtrip_two_byte_csid() {
    roundtrip(&sample_message(300), 200, 128);
}

#[test]
fn test_chunk_roundtrip_three_byte_csid() {
    roundtrip(&sample_message(300), 40000, 128);
}

#[test]
fn test_chunk_roundtrip_extended_timestamp() {
    let mut msg = sample_message(300);
    msg.timestamp = 0x0100_0000;
    roundtrip(&msg, 3, 128);
}

#[test]
fn test_chunk_oversized_payload_rejected() {
    let msg = sample_message(0x100_0000);
    let r = fragment_message(&msg, 3, 128);
    assert!(matches!(r, Err(ChunkError::LengthExceedsMax)));
}

#[test]
fn test_chunk_bad_csid_rejected() {
    let msg = sample_message(10);
    assert!(matches!(
        fragment_message(&msg, 0, 128),
        Err(ChunkError::InvalidBasicHeader)
    ));
    assert!(matches!(
        fragment_message(&msg, 1, 128),
        Err(ChunkError::InvalidBasicHeader)
    ));
    assert!(matches!(
        fragment_message(&msg, 65600, 128),
        Err(ChunkError::InvalidBasicHeader)
    ));
}

#[test]
fn test_chunk_wire_shape() {
    // One-byte basic header, 11-byte format-0 message header, payload.
    let msg = ChunkMessage {
        msid: 0x04030201,
        type_id: 0x14,
        timestamp: 0x123456,
        payload: vec![0xAA, 0xBB],
    };
    let wire = fragment_message(&msg, 3, 128).unwrap();
    assert_eq!(wire.len(), 1 + 11 + 2);
    assert_eq!(wire[0], 0x03); // fmt 0, csid 3
    assert_eq!(&wire[1..4], &[0x12, 0x34, 0x56]); // timestamp
    assert_eq!(&wire[4..7], &[0x00, 0x00, 0x02]); // length
    assert_eq!(wire[7], 0x14); // type id
    assert_eq!(&wire[8..12], &[0x01, 0x02, 0x03, 0x04]); // msid little-endian
    assert_eq!(&wire[12..], &[0xAA, 0xBB]);
}

#[test]
fn test_chunk_continuation_headers() {
    // A 3-byte payload at chunk size 1 yields one format-0 chunk and two
    // format-3 continuations.
    let msg = ChunkMessage {
        msid: 1,
        type_id: 8,
        timestamp: 0,
        payload: vec![0x10, 0x20, 0x30],
    };
    let wire = fragment_message(&msg, 3, 1).unwrap();
    assert_eq!(wire.len(), 12 + 1 + (1 + 1) + (1 + 1));
    assert_eq!(wire[12], 0x10);
    assert_eq!(wire[13], 0xC3); // fmt 3, csid 3
    assert_eq!(wire[14], 0x20);
    assert_eq!(wire[15], 0xC3);
    assert_eq!(wire[16], 0x30);
}

#[test]
fn test_reassemble_truncated_fails() {
    let msg = sample_message(300);
    let wire = fragment_message(&msg, 3, 128).unwrap();
    let r = reassemble_message(&wire[..wire.len() - 1], 128);
    assert!(r.is_err());
}

#[test]
fn test_reassemble_wrong_chunk_size_garbles() {
    // Reassembling with a larger chunk size than the fragmenter used
    // swallows the continuation headers into the payload: the chunk
    // size must be agreed, or the message comes back wrong.
    let msg = sample_message(300);
    let wire = fragment_message(&msg, 3, 128).unwrap();
    let (_csid, out) = reassemble_message(&wire, 4096).unwrap();
    assert_ne!(out.payload, msg.payload);
}

#[test]
fn test_decoder_contexts_inherit_headers() {
    let mut dec = ChunkDecoder::new();

    // Format 0: absolute header. ts=100, len=2, type=9, msid=7.
    let chunk0: Vec<u8> = vec![
        0x03, 0x00, 0x00, 0x64, 0x00, 0x00, 0x02, 0x09, 0x07, 0x00, 0x00, 0x00, 0xAA, 0xBB,
    ];
    let (out, p) = dec.process_chunk(&chunk0, 0).unwrap();
    assert_eq!(p, chunk0.len());
    let m = out.unwrap();
    assert_eq!(m.timestamp, 100);
    assert_eq!(m.type_id, 9);
    assert_eq!(m.msid, 7);
    assert_eq!(m.payload, vec![0xAA, 0xBB]);

    // Format 1: delta 33, new length 1, new type 8; msid inherited.
    let chunk1: Vec<u8> = vec![0x43, 0x00, 0x00, 0x21, 0x00, 0x00, 0x01, 0x08, 0xCC];
    let (out, _) = dec.process_chunk(&chunk1, 0).unwrap();
    let m = out.unwrap();
    assert_eq!(m.timestamp, 133);
    assert_eq!(m.type_id, 8);
    assert_eq!(m.msid, 7);
    assert_eq!(m.payload, vec![0xCC]);

    // Format 2: new delta 10 only; length/type/msid inherited.
    let chunk2: Vec<u8> = vec![0x83, 0x00, 0x00, 0x0A, 0xDD];
    let (out, _) = dec.process_chunk(&chunk2, 0).unwrap();
    let m = out.unwrap();
    assert_eq!(m.timestamp, 143);
    assert_eq!(m.type_id, 8);
    assert_eq!(m.payload, vec![0xDD]);

    // Format 3 on an empty buffer: full header replay, delta applied.
    let chunk3: Vec<u8> = vec![0xC3, 0xEE];
    let (out, _) = dec.process_chunk(&chunk3, 0).unwrap();
    let m = out.unwrap();
    assert_eq!(m.timestamp, 153);
    assert_eq!(m.payload, vec![0xEE]);
}

#[test]
fn test_decoder_reassembles_across_chunks() {
    let mut dec = ChunkDecoder::new();
    dec.set_chunk_size(2);
    assert_eq!(dec.chunk_size(), 2);

    // Length 5 at chunk size 2: three chunks.
    let chunk0: Vec<u8> = vec![
        0x03, 0x00, 0x00, 0x00, 0x00, 0x00, 0x05, 0x09, 0x01, 0x00, 0x00, 0x00, 0x01, 0x02,
    ];
    let (out, _) = dec.process_chunk(&chunk0, 0).unwrap();
    assert!(out.is_none());

    let cont1: Vec<u8> = vec![0xC3, 0x03, 0x04];
    let (out, _) = dec.process_chunk(&cont1, 0).unwrap();
    assert!(out.is_none());

    let cont2: Vec<u8> = vec![0xC3, 0x05];
    let (out, _) = dec.process_chunk(&cont2, 0).unwrap();
    let m = out.unwrap();
    assert_eq!(m.payload, vec![0x01, 0x02, 0x03, 0x04, 0x05]);
}

#[test]
fn test_decoder_rejects_unknown_context() {
    let mut dec = ChunkDecoder::new();
    // A format-3 chunk on a CSID never seen: no context to inherit.
    let chunk3: Vec<u8> = vec![0xC3, 0xEE];
    assert!(matches!(
        dec.process_chunk(&chunk3, 0),
        Err(ChunkError::MissingContext)
    ));
}
