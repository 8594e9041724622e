use bytes::Bytes;
use meta_mystia_network::config::NetworkConfig;
use meta_mystia_network::error::NetworkError;
use meta_mystia_network::messaging::{
    decode_internal, decode_payload, encode_internal, encode_packet, pack, RawPacket,
};
use meta_mystia_network::protocol::InternalMessage;
use meta_mystia_network::wire::{read_message, write_message};

#[test]
fn test_packet_encode_decode() {
    let cfg = NetworkConfig::default();
    let data = b"hello world";
    let packet = encode_packet(
        0x0100,
        data,
        0,
        cfg.compression_threshold,
        cfg.max_message_size,
    )
    .unwrap();
    assert_eq!(packet.msg_type, 0x0100);
    assert!(!packet.is_compressed());
    let decoded = decode_payload(&packet).unwrap();
    assert_eq!(&decoded[..], data);
}

#[test]
fn test_packet_compression() {
    let cfg = NetworkConfig::default();
    let data = vec![0x42; 2048];
    let packet = encode_packet(
        0x0100,
        &data,
        0,
        cfg.compression_threshold,
        cfg.max_message_size,
    )
    .unwrap();
    assert!(packet.is_compressed());
    assert!(packet.payload.len() < data.len());
    let decoded = decode_payload(&packet).unwrap();
    assert_eq!(&decoded[..], data);
}

#[test]
fn test_compression_not_beneficial() {
    let cfg = NetworkConfig::default();
    // Random-like data that LZ4 cannot compress effectively
    let data: Vec<u8> = (0u32..600)
        .map(|i| (i.wrapping_mul(2654435761) >> 24) as u8)
        .collect();
    let packet = encode_packet(
        0x0100,
        &data,
        0,
        cfg.compression_threshold,
        cfg.max_message_size,
    )
    .unwrap();
    // LZ4 compressed output is larger than input for random data, so no compression
    assert!(
        !packet.is_compressed(),
        "compression should not be used when result is larger"
    );
    let decoded = decode_payload(&packet).unwrap();
    assert_eq!(&decoded[..], &data[..]);
}

#[test]
fn test_user_msg_type_validation() {
    let cfg = NetworkConfig::default();
    let result = encode_packet(
        0x0001,
        b"test",
        0,
        cfg.compression_threshold,
        cfg.max_message_size,
    );
    assert!(result.is_err());
    let result = encode_packet(
        0x00FF,
        b"test",
        0,
        cfg.compression_threshold,
        cfg.max_message_size,
    );
    assert!(result.is_err());
    let result = encode_packet(
        0x0100,
        b"test",
        0,
        cfg.compression_threshold,
        cfg.max_message_size,
    );
    assert!(result.is_ok());
}

#[test]
fn test_flags_compression_bit() {
    let cfg = NetworkConfig::default();
    let packet = encode_packet(
        0x0100,
        b"small",
        0b1111_1111,
        cfg.compression_threshold,
        cfg.max_message_size,
    )
    .unwrap();
    assert_eq!(packet.flags & 0x01, 0);
    assert_eq!(packet.flags & 0xFE, 0xFE);

    let data = vec![0x42; 2048];
    let packet = encode_packet(
        0x0100,
        &data,
        0b0000_0110,
        cfg.compression_threshold,
        cfg.max_message_size,
    )
    .unwrap();
    assert!(packet.is_compressed(), "2048 bytes of 0x42 should compress");
    assert_eq!(packet.flags & 0x01, 0x01);
    assert_eq!(packet.flags & 0xFE, 0b0000_0110);
}

#[test]
fn test_message_too_large() {
    let cfg = NetworkConfig::default();
    let max = cfg.max_message_size;
    let data = vec![0; max as usize + 1];
    let result = encode_packet(0x0100, &data, 0, cfg.compression_threshold, max);
    assert!(matches!(result, Err(NetworkError::MessageTooLarge(_))));
}

#[test]
fn test_large_message_near_limit() {
    let cfg = NetworkConfig::default();
    let max = cfg.max_message_size;
    let data = vec![0x42; max as usize];
    let packet = encode_packet(0x0100, &data, 0, max + 1, max).unwrap();
    let decoded = decode_payload(&packet).unwrap();
    assert_eq!(&decoded[..], &data[..]);
}

#[test]
fn test_compression_threshold_boundary() {
    let cfg = NetworkConfig::default();
    let thresh = cfg.compression_threshold;
    let max = cfg.max_message_size;
    let data = vec![0xAA; thresh as usize];
    let packet_at = encode_packet(0x0100, &data, 0, thresh, max).unwrap();
    assert!(!packet_at.is_compressed());

    let data = vec![0xAA; thresh as usize + 1];
    let packet_above = encode_packet(0x0100, &data, 0, thresh, max).unwrap();
    assert!(
        packet_above.is_compressed(),
        "data above threshold should be compressed when beneficial"
    );
    let decoded = decode_payload(&packet_above).unwrap();
    assert_eq!(&decoded[..], &data[..]);
}

fn one_of_each() -> Vec<InternalMessage> {
    vec![
        InternalMessage::Handshake {
            peer_id: "peer1".into(),
            listen_port: 8080,
            protocol_version: 1,
            session_id: "session1".into(),
        },
        InternalMessage::HandshakeAck {
            peer_id: "peer2".into(),
            listen_port: 9090,
            success: true,
            error_reason: None,
        },
        InternalMessage::PeerLeave {
            peer_id: "peer1".into(),
        },
        InternalMessage::PeerListSync {
            peers: vec![("peer1".into(), "127.0.0.1:8080".into())],
        },
        InternalMessage::Heartbeat {
            term: 1,
            leader_id: "peer1".into(),
            timestamp_ms: 12345,
        },
        InternalMessage::HeartbeatResponse {
            term: 1,
            timestamp_ms: 12345,
        },
        InternalMessage::Ping {
            timestamp_ms: 12345,
        },
        InternalMessage::Pong {
            timestamp_ms: 12345,
        },
        InternalMessage::RequestVote {
            term: 2,
            candidate_id: "peer1".into(),
        },
        InternalMessage::VoteResponse {
            term: 2,
            voter_id: "peer2".into(),
            granted: true,
        },
        InternalMessage::LeaderAssign {
            term: 3,
            leader_id: "peer1".into(),
            assigner_id: "peer2".into(),
        },
        InternalMessage::ForwardedUserData {
            from_peer_id: "peer1".into(),
            original_msg_type: 0x0100,
            original_flags: 0x02,
            payload: vec![1, 2, 3],
        },
    ]
}

#[test]
fn test_internal_message_serde() {
    let max = NetworkConfig::default().max_message_size;
    let messages = one_of_each();

    for msg in &messages {
        let packet = encode_internal(msg, max).unwrap();
        assert!(packet.is_internal());
        let decoded = decode_internal(&packet).unwrap();
        let re_encoded = encode_internal(&decoded, max).unwrap();
        assert_eq!(packet.payload, re_encoded.payload);
        assert_eq!(packet.msg_type, re_encoded.msg_type);
    }
}

#[test]
fn messages_survive_the_wire() {
    let mut messages = one_of_each();
    messages.push(InternalMessage::HandshakeAck {
        peer_id: "päer".into(),
        listen_port: 65535,
        success: false,
        error_reason: Some("session_mismatch".into()),
    });
    messages.push(InternalMessage::PeerListSync {
        peers: vec![
            ("a".into(), "1".into()),
            (String::new(), "2".into()),
            ("名前".into(), String::new()),
        ],
    });
    messages.push(InternalMessage::Heartbeat {
        term: u64::MAX,
        leader_id: "x".repeat(300),
        timestamp_ms: 1 << 40,
    });
    messages.push(InternalMessage::ForwardedUserData {
        from_peer_id: "p".into(),
        original_msg_type: 0xFFFF,
        original_flags: 0xFF,
        payload: vec![7; 1000],
    });
    messages.push(InternalMessage::DataChannelHandshake { peer_id: "d".into() });
    messages.push(InternalMessage::DataChannelHandshakeAck {
        peer_id: "d".into(),
        success: false,
    });
    for msg in &messages {
        let mut bytes = write_message(msg).unwrap();
        assert_eq!(read_message(&bytes).unwrap(), *msg);
        // what stands behind a message is ignored
        bytes.push(0xEE);
        assert_eq!(read_message(&bytes).unwrap(), *msg);
    }
}

#[test]
fn wire_form_of_single_messages() {
    assert_eq!(
        write_message(&InternalMessage::Ping { timestamp_ms: 300 }).unwrap(),
        vec![6, 0xAC, 0x02]
    );
    assert_eq!(
        write_message(&InternalMessage::Handshake {
            peer_id: "ab".into(),
            listen_port: 8080,
            protocol_version: 1,
            session_id: "s".into(),
        })
        .unwrap(),
        vec![0, 2, b'a', b'b', 0x90, 0x3F, 1, 1, b's']
    );
    assert_eq!(
        write_message(&InternalMessage::HandshakeAck {
            peer_id: "a".into(),
            listen_port: 0,
            success: true,
            error_reason: Some("no".into()),
        })
        .unwrap(),
        vec![1, 1, b'a', 0, 1, 1, 2, b'n', b'o']
    );
    assert_eq!(
        write_message(&InternalMessage::HandshakeAck {
            peer_id: "a".into(),
            listen_port: 0,
            success: false,
            error_reason: None,
        })
        .unwrap(),
        vec![1, 1, b'a', 0, 0, 0]
    );
    assert_eq!(
        write_message(&InternalMessage::PeerListSync {
            peers: vec![("a".into(), "b".into()), ("c".into(), String::new())],
        })
        .unwrap(),
        vec![3, 2, 1, b'a', 1, b'b', 1, b'c', 0]
    );
    assert_eq!(
        write_message(&InternalMessage::ForwardedUserData {
            from_peer_id: "a".into(),
            original_msg_type: 0x0100,
            original_flags: 0xFE,
            payload: vec![9, 8],
        })
        .unwrap(),
        vec![11, 1, b'a', 0x80, 0x02, 0xFE, 2, 9, 8]
    );
}

#[test]
fn different_messages_have_different_forms() {
    let messages = one_of_each();
    for (i, a) in messages.iter().enumerate() {
        for (j, b) in messages.iter().enumerate() {
            assert_eq!(write_message(a).unwrap() == write_message(b).unwrap(), i == j);
        }
    }
}

#[test]
fn malformed_messages_are_refused() {
    let malformed: Vec<Vec<u8>> = vec![
        vec![],                               // nothing
        vec![14],                             // no such kind
        vec![6],                              // a number is missing
        vec![6, 0x80],                        // a number is cut short
        vec![2, 5, b'a'],                     // a text is cut short
        vec![2, 1, 0xFF],                     // a text is not UTF-8
        vec![9, 1, 1, b'v', 2],               // a truth value is neither 0 nor 1
        vec![1, 1, b'a', 0, 1, 2],            // an option is neither 0 nor 1
        vec![0, 1, b'a', 0x80, 0x80, 0x04],   // a number is too wide
        vec![3, 1, 1, b'a'],                  // a pair is cut short
        vec![11, 1, b'a', 0, 0, 3, 1],        // a payload is cut short
    ];
    for bytes in &malformed {
        assert!(matches!(
            read_message(bytes),
            Err(NetworkError::Serialization(_))
        ));
        let packet = RawPacket::from_parts(0x0001, 0, bytes.clone());
        assert!(matches!(
            decode_internal(&packet),
            Err(NetworkError::Serialization(_))
        ));
    }
    // a number with more bytes than it needs is accepted
    assert_eq!(
        read_message(&[6, 0x81, 0x00]).unwrap(),
        InternalMessage::Ping { timestamp_ms: 1 }
    );
}

#[test]
fn internal_message_too_large() {
    let msg = InternalMessage::PeerLeave { peer_id: "x".repeat(100) };
    assert!(encode_internal(&msg, 102).is_ok());
    assert!(matches!(
        encode_internal(&msg, 101),
        Err(NetworkError::MessageTooLarge(102))
    ));
}

#[test]
fn invalid_type_and_size_are_told_apart() {
    match encode_packet(0x00FF, b"test", 0, 512, 2) {
        Err(NetworkError::InvalidArgument(m)) => {
            assert_eq!(m, "msg_type must be >= 0x0100 for user messages")
        }
        _ => panic!("expected InvalidArgument"),
    }
    assert!(matches!(
        encode_packet(0x0100, b"test", 0, 512, 3),
        Err(NetworkError::MessageTooLarge(4))
    ));
}

#[test]
fn compressed_form_is_used_only_if_shorter() {
    let p = pack(0x0200, b"abcdef", 0x07, Some(vec![1, 2]));
    assert!(p.is_compressed());
    assert_eq!(p.flags, 0x07);
    assert_eq!(&p.payload[..], &[1, 2]);
    let p = pack(0x0200, b"ab", 0x07, Some(vec![1, 2]));
    assert!(!p.is_compressed());
    assert_eq!(p.flags, 0x06);
    assert_eq!(&p.payload[..], b"ab");
    let p = pack(0x0200, b"ab", 0x07, None);
    assert_eq!(p.flags, 0x06);
    assert_eq!(&p.payload[..], b"ab");
}

#[test]
fn corrupt_compressed_payload_is_an_error() {
    for payload in [vec![], vec![1, 2, 3], vec![5, 0, 0, 0, 0xFF, 0xFF]] {
        let packet = RawPacket { msg_type: 0x0100, flags: 0x01, payload: Bytes::from(payload) };
        match decode_payload(&packet) {
            Err(NetworkError::Internal(m)) => {
                assert!(m.starts_with("LZ4 decompression failed: "));
                assert!(m.len() > "LZ4 decompression failed: ".len());
            }
            _ => panic!("expected Internal"),
        }
    }
}

#[test]
fn packet_kinds() {
    let p = RawPacket::from_parts(0x00FF, 0, vec![]);
    assert!(p.is_internal());
    let p = RawPacket::from_parts(0x0100, 3, vec![1, 2]);
    assert!(!p.is_internal());
    let q = p.clone();
    assert_eq!((q.msg_type, q.flags, &q.payload[..]), (0x0100, 3, &[1u8, 2][..]));
}
