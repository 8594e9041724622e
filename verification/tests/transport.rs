use bytes::{BufMut, Bytes, BytesMut};
use meta_mystia_network::config::{NetworkConfig, PROTOCOL_VERSION};
use meta_mystia_network::error::NetworkError;
use meta_mystia_network::messaging::{decode_internal, encode_internal, RawPacket};
use meta_mystia_network::protocol::{msg_types, InternalMessage};
use meta_mystia_network::transport::handshake::{
    expect_packet, inbound_result, outbound_result, receive_data_channel_ack, send_failed, Inbound,
    Received,
};
use meta_mystia_network::transport::reconnect::{Reconnect, ReconnectEvent, ReconnectStep};
use meta_mystia_network::transport::{
    all_drained, broadcast_errors, drain_limit_ms, send_result, DataChannel, PacketCodec,
    SendOutcome, TransportManager,
};
use meta_mystia_network::types::{PeerId, PeerStatus};

fn make_transport_with(peer_id: &str, config: NetworkConfig) -> TransportManager {
    TransportManager::new(
        PeerId::new(peer_id),
        "session".into(),
        config,
        "127.0.0.1:4000".into(),
        4000,
    )
}

fn make_transport(peer_id: &str) -> TransportManager {
    make_transport_with(peer_id, NetworkConfig::default())
}

#[test]
fn test_packet_codec_framing() {
    let cfg = NetworkConfig::default();
    let mut codec = PacketCodec::new(cfg.max_message_size);
    let mut buf = BytesMut::new();

    let packet = RawPacket {
        msg_type: 0x0100,
        flags: 0x02,
        payload: vec![1, 2, 3, 4, 5].into(),
    };
    codec.encode(packet.clone(), &mut buf).unwrap();

    let decoded = codec.decode(&mut buf).unwrap().unwrap();
    assert_eq!(decoded.msg_type, 0x0100);
    assert_eq!(decoded.flags, 0x02);
    assert_eq!(decoded.payload, vec![1, 2, 3, 4, 5]);
}

#[test]
fn test_packet_codec_partial() {
    let cfg = NetworkConfig::default();
    let mut codec = PacketCodec::new(cfg.max_message_size);
    let mut buf = BytesMut::new();

    let packet = RawPacket {
        msg_type: 0x0100,
        flags: 0,
        payload: vec![10, 20, 30].into(),
    };
    codec.encode(packet, &mut buf).unwrap();

    let full = buf.split();

    // Case 1: header incomplete (5 of 7 bytes)
    let mut partial = BytesMut::new();
    partial.extend_from_slice(&full[..5]);
    assert!(codec.decode(&mut partial).unwrap().is_none());

    partial.extend_from_slice(&full[5..]);
    let decoded = codec.decode(&mut partial).unwrap().unwrap();
    assert_eq!(decoded.payload, vec![10, 20, 30]);

    // Case 2: header complete but payload incomplete
    let mut codec2 = PacketCodec::new(cfg.max_message_size);
    let mut buf2 = BytesMut::new();
    let packet2 = RawPacket {
        msg_type: 0x0200,
        flags: 0,
        payload: vec![1, 2, 3, 4, 5].into(),
    };
    codec2.encode(packet2, &mut buf2).unwrap();
    let full2 = buf2.split();

    let mut partial2 = BytesMut::new();
    partial2.extend_from_slice(&full2[..9]); // 7 header + 2 of 5 payload
    assert!(codec2.decode(&mut partial2).unwrap().is_none());

    partial2.extend_from_slice(&full2[9..]);
    let decoded2 = codec2.decode(&mut partial2).unwrap().unwrap();
    assert_eq!(decoded2.msg_type, 0x0200);
    assert_eq!(decoded2.payload, vec![1, 2, 3, 4, 5]);
}

#[test]
fn test_packet_codec_multiple() {
    let mut codec = PacketCodec::new(NetworkConfig::default().max_message_size);
    let mut buf = BytesMut::new();

    for i in 0u8..3 {
        let packet = RawPacket {
            msg_type: 0x0100 + i as u16,
            flags: i,
            payload: Bytes::from(vec![i; (i + 1) as usize]),
        };
        codec.encode(packet, &mut buf).unwrap();
    }

    for i in 0u8..3 {
        let decoded = codec.decode(&mut buf).unwrap().unwrap();
        assert_eq!(decoded.msg_type, 0x0100 + i as u16);
        assert_eq!(decoded.flags, i);
        assert_eq!(decoded.payload, vec![i; (i + 1) as usize]);
    }

    assert!(codec.decode(&mut buf).unwrap().is_none());
}

#[test]
fn test_packet_codec_too_large() {
    let max = NetworkConfig::default().max_message_size;
    let mut codec = PacketCodec::new(max);
    let mut buf = BytesMut::new();
    buf.put_u32(max + 1);
    buf.put_u16(0x0100);
    buf.put_u8(0);

    let result = codec.decode(&mut buf);
    assert!(matches!(result, Err(NetworkError::MessageTooLarge(_))));
}

#[test]
fn test_auto_reconnect_toggle() {
    let mut tm = make_transport("toggle_peer");

    // Default: enabled
    assert!(tm.is_auto_reconnect_enabled());

    tm.set_auto_reconnect(false);
    assert!(!tm.is_auto_reconnect_enabled());

    tm.set_auto_reconnect(true);
    assert!(tm.is_auto_reconnect_enabled());
}

#[test]
fn test_auto_reconnect_config_disabled() {
    let config = NetworkConfig {
        auto_reconnect_enabled: false,
        ..NetworkConfig::default()
    };
    let tm = make_transport_with("no_reconnect", config);
    assert!(!tm.is_auto_reconnect_enabled());
}

#[test]
fn test_reconnect_max_retries_config() {
    let config = NetworkConfig {
        reconnect_max_retries: 5,
        ..NetworkConfig::default()
    };
    let tm = make_transport_with("retry_peer", config);

    // Auto-reconnect should still be enabled by default
    assert!(tm.is_auto_reconnect_enabled());
}

#[test]
fn frame_layout() {
    let mut codec = PacketCodec::new(100);
    let mut buf = BytesMut::new();
    let packet = RawPacket::from_parts(0x1234, 0x56, vec![0xAA, 0xBB]);
    codec.encode(packet, &mut buf).unwrap();
    assert_eq!(&buf[..], &[0, 0, 0, 2, 0x12, 0x34, 0x56, 0xAA, 0xBB]);
    // a second frame is appended
    codec.encode(RawPacket::from_parts(1, 2, vec![]), &mut buf).unwrap();
    assert_eq!(buf.len(), 16);
    assert_eq!(&buf[9..], &[0, 0, 0, 0, 0, 1, 2]);
    // decoding leaves what follows
    codec.decode(&mut buf).unwrap().unwrap();
    assert_eq!(&buf[..], &[0, 0, 0, 0, 0, 1, 2]);
}

#[test]
fn too_large_packet_is_not_encoded() {
    let mut codec = PacketCodec::new(3);
    let mut buf = BytesMut::new();
    assert!(codec.encode(RawPacket::from_parts(1, 0, vec![0; 3]), &mut buf).is_ok());
    assert!(matches!(
        codec.encode(RawPacket::from_parts(1, 0, vec![0; 4]), &mut buf),
        Err(NetworkError::MessageTooLarge(4))
    ));
    assert_eq!(buf.len(), 10);
}

#[test]
fn it_does_not_matter_where_a_stream_is_cut() {
    let packets = [
        RawPacket::from_parts(0x0100, 1, vec![1, 2, 3]),
        RawPacket::from_parts(0x0001, 0, vec![]),
        RawPacket::from_parts(0xFFFF, 0xFE, vec![0, 0, 0, 9, 9, 9, 9, 9]),
    ];
    let mut whole = BytesMut::new();
    for p in &packets {
        PacketCodec::new(8).encode(p.clone(), &mut whole).unwrap();
    }
    for piece in 1..=whole.len() {
        let mut codec = PacketCodec::new(8);
        let mut buf = BytesMut::new();
        let mut got = Vec::new();
        for bytes in whole.chunks(piece) {
            buf.extend_from_slice(bytes);
            while let Some(p) = codec.decode(&mut buf).unwrap() {
                got.push(p);
            }
        }
        assert!(buf.is_empty());
        assert!(codec.decode(&mut buf).unwrap().is_none());
        assert_eq!(got.len(), packets.len());
        for (a, b) in got.iter().zip(&packets) {
            assert_eq!((a.msg_type, a.flags, &a.payload), (b.msg_type, b.flags, &b.payload));
        }
    }
}

#[test]
fn partial_frame_is_left_in_place() {
    let mut codec = PacketCodec::new(100);
    let mut buf = BytesMut::new();
    buf.put_u32(5);
    buf.put_u16(0x0100);
    buf.put_u8(9);
    buf.put_slice(&[1, 2]);
    assert!(codec.decode(&mut buf).unwrap().is_none());
    assert_eq!(&buf[..], &[0, 0, 0, 5, 1, 0, 9, 1, 2]);
    buf.put_slice(&[3, 4, 5, 6]);
    let p = codec.decode(&mut buf).unwrap().unwrap();
    assert_eq!((p.msg_type, p.flags, &p.payload[..]), (0x0100, 9, &[1u8, 2, 3, 4, 5][..]));
    assert_eq!(&buf[..], &[6]);
}

// --- table of connections ---------------------------------------------------

#[test]
fn one_side_opens_the_data_channel() {
    let mut a = make_transport("peer_a");
    let mut b = make_transport("peer_b");
    assert_eq!(a.register_connection(PeerId::new("peer_b"), "x".into(), 1).unwrap(), true);
    assert_eq!(b.register_connection(PeerId::new("peer_a"), "x".into(), 1).unwrap(), false);
    assert!(matches!(
        a.register_connection(PeerId::new("peer_b"), "y".into(), 2),
        Err(NetworkError::DuplicatePeerId(id)) if id == "peer_b"
    ));
    assert_eq!(a.get_peer_addr(&PeerId::new("peer_b")).unwrap(), "x");
    assert_eq!(a.connection_count(), 1);
}

#[test]
fn user_messages_take_the_data_channel() {
    let mut tm = make_transport("a");
    let b = PeerId::new("b");
    tm.register_connection(b.clone(), "x".into(), 1).unwrap();
    let user = RawPacket::from_parts(0x0100, 0, vec![1]);
    let internal = RawPacket::from_parts(msg_types::PING, 0, vec![2]);

    assert_eq!(tm.needs_data_channel(&b).unwrap(), true);
    assert_eq!(tm.send_to_peer(&b, user.clone()).ok().unwrap().channel, 1);
    assert_eq!(
        tm.register_data_channel(&b, 2),
        DataChannel::Attached { replaced: None }
    );
    assert_eq!(tm.needs_data_channel(&b).unwrap(), false);
    assert_eq!(tm.send_to_peer(&b, user.clone()).ok().unwrap().channel, 2);
    assert_eq!(tm.send_to_peer(&b, internal).ok().unwrap().channel, 1);

    // a newer data channel takes the place of the old one
    assert_eq!(
        tm.register_data_channel(&b, 3),
        DataChannel::Attached { replaced: Some(2) }
    );
    tm.data_channel_closed(&b, 2);
    assert!(tm.has_data_channel(&b));
    tm.data_channel_closed(&b, 3);
    assert!(!tm.has_data_channel(&b));
    assert_eq!(tm.send_to_peer(&b, user).ok().unwrap().channel, 1);

    assert_eq!(
        tm.register_data_channel(&PeerId::new("c"), 4),
        DataChannel::UnknownPeer
    );
    assert!(matches!(
        tm.needs_data_channel(&PeerId::new("c")),
        Err(NetworkError::PeerNotFound(id)) if id == "c"
    ));
}

#[test]
fn broadcasts_reach_the_connected() {
    let mut tm = make_transport("local");
    for (i, name) in ["a", "b", "c", "d"].iter().enumerate() {
        tm.register_connection(PeerId::new(name), format!("addr_{name}"), 10 + i as u64).unwrap();
    }
    tm.update_peer_status(&PeerId::new("c"), PeerStatus::Reconnecting);
    let packet = RawPacket::from_parts(0x0100, 0, vec![5]);
    let exclude = [PeerId::new("a")];
    let sent = tm.broadcast(packet.clone(), Some(&exclude));
    let mut names: Vec<&str> = sent.iter().map(|o| o.peer_id.as_str()).collect();
    names.sort();
    assert_eq!(names, vec!["b", "d"]);
    assert!(sent.iter().all(|o| &o.packet.payload[..] == [5]));
    assert_eq!(tm.broadcast(packet, None).len(), 3);

    let mut sync = tm.get_peer_list_for_sync();
    sync.sort();
    assert_eq!(
        sync,
        vec![
            (String::from("a"), String::from("addr_a")),
            (String::from("b"), String::from("addr_b")),
            (String::from("d"), String::from("addr_d")),
        ]
    );
    assert_eq!(tm.get_connected_peer_ids().len(), 3);
}

#[test]
fn a_lost_connection_is_restored_if_wanted() {
    let b = PeerId::new("b");
    let mut tm = make_transport("a");
    tm.register_connection(b.clone(), "addr".into(), 1).unwrap();
    tm.register_data_channel(&b, 2);
    let closed = tm.connection_closed(&b);
    assert_eq!(closed.cancelled, vec![1, 2]);
    assert_eq!(closed.reconnect, Some(String::from("addr")));
    assert!(!tm.has_peer(&b));
    // a second report changes nothing
    let closed = tm.connection_closed(&b);
    assert!(closed.cancelled.is_empty() && closed.reconnect.is_none());

    // not after a farewell
    tm.register_connection(b.clone(), "addr".into(), 3).unwrap();
    tm.set_should_reconnect(&b, false);
    assert!(tm.connection_closed(&b).reconnect.is_none());

    // not when it is switched off
    tm.register_connection(b.clone(), "addr".into(), 4).unwrap();
    tm.set_auto_reconnect(false);
    assert!(tm.connection_closed(&b).reconnect.is_none());
    tm.set_auto_reconnect(true);

    // not during the shutdown
    tm.register_connection(b.clone(), "addr".into(), 5).unwrap();
    tm.stop();
    assert!(tm.connection_closed(&b).reconnect.is_none());
}

#[test]
fn a_disconnected_peer_is_bid_farewell() {
    let b = PeerId::new("b");
    let mut tm = make_transport("a");
    tm.register_connection(b.clone(), "addr".into(), 1).unwrap();
    let d = tm.disconnect_peer(&b).ok().unwrap();
    let leave = d.leave.unwrap();
    assert_eq!(leave.channel, 1);
    assert_eq!(
        decode_internal(&leave.packet).unwrap(),
        InternalMessage::PeerLeave { peer_id: "a".into() }
    );
    assert_eq!(d.cancelled, vec![1]);
    assert_eq!(tm.connection_count(), 0);
    let d = tm.disconnect_peer(&b).ok().unwrap();
    assert!(d.leave.is_none() && d.cancelled.is_empty());
}

#[test]
fn all_channels_are_closed_at_the_end() {
    let mut tm = make_transport("a");
    tm.register_connection(PeerId::new("b"), "x".into(), 1).unwrap();
    tm.register_connection(PeerId::new("c"), "x".into(), 2).unwrap();
    tm.register_data_channel(&PeerId::new("b"), 3);
    assert_eq!(tm.broadcast_peer_leave().len(), 2);
    let mut channels = tm.shutdown();
    channels.sort();
    assert_eq!(channels, vec![1, 2, 3]);
    assert_eq!(tm.connection_count(), 0);
}

#[test]
fn measured_times_are_kept() {
    let b = PeerId::new("b");
    let mut tm = make_transport("a");
    assert_eq!(tm.get_peer_rtt(&b), None);
    assert_eq!(tm.get_peer_status(&b), None);
    tm.register_connection(b.clone(), "x".into(), 1).unwrap();
    assert_eq!(tm.get_peer_rtt(&b), None);
    tm.update_rtt(&b, 17);
    tm.update_last_seen(&b);
    assert_eq!(tm.get_peer_rtt(&b), Some(17));
    assert_eq!(tm.get_peer_status(&b), Some(PeerStatus::Connected));
}

#[test]
fn queue_outcomes() {
    assert!(send_result(SendOutcome::Queued).is_ok());
    assert!(matches!(
        send_result(SendOutcome::Full),
        Err(NetworkError::SendQueueFull)
    ));
    match send_result(SendOutcome::Closed) {
        Err(NetworkError::ConnectionFailed(m)) => assert_eq!(m, "send channel closed"),
        _ => panic!("expected ConnectionFailed"),
    }
    let mut tm = make_transport("a");
    tm.register_connection(PeerId::new("b"), "x".into(), 1).unwrap();
    tm.register_connection(PeerId::new("c"), "x".into(), 2).unwrap();
    let sent = tm.broadcast(RawPacket::from_parts(0x0100, 0, vec![]), None);
    let errors = broadcast_errors(&sent, &vec![SendOutcome::Queued, SendOutcome::Full]);
    assert_eq!(errors.len(), 1);
    assert_eq!(errors[0].0.as_str(), sent[1].peer_id.as_str());
    assert!(matches!(errors[0].1, NetworkError::SendQueueFull));
}

#[test]
fn queues_are_drained_when_all_room_is_back() {
    assert!(all_drained(&vec![]));
    assert!(all_drained(&vec![(5, 5), (1, 1)]));
    assert!(!all_drained(&vec![(5, 5), (0, 1)]));
    assert_eq!(drain_limit_ms(1000), 1000);
    assert_eq!(drain_limit_ms(200), 200);
    assert_eq!(drain_limit_ms(5000), 1000);
}

// --- handshake --------------------------------------------------------------

fn greet(tm: &TransportManager, peer: &str, version: u16, session: &str) -> Result<Inbound, NetworkError> {
    let hs = encode_internal(
        &InternalMessage::Handshake {
            peer_id: peer.into(),
            listen_port: 9999,
            protocol_version: version,
            session_id: session.into(),
        },
        NetworkConfig::default().max_message_size,
    )
    .unwrap();
    tm.handle_first_packet(&hs)
}

fn ack_of(packet: &RawPacket) -> (bool, Option<String>) {
    match decode_internal(packet).unwrap() {
        InternalMessage::HandshakeAck { success, error_reason, .. } => (success, error_reason),
        _ => panic!("expected HandshakeAck"),
    }
}

#[test]
fn handshakes_are_answered() {
    let mut tm = make_transport("host");
    let Ok(Inbound::Handshake(reply)) = greet(&tm, "guest", PROTOCOL_VERSION, "session") else {
        panic!("expected an answer");
    };
    assert_eq!(ack_of(&reply.ack), (true, None));
    let newcomer = reply.outcome.ok().unwrap();
    assert_eq!(newcomer.peer_id.as_str(), "guest");
    assert_eq!(newcomer.listen_port, 9999);

    let Ok(Inbound::Handshake(reply)) = greet(&tm, "guest", PROTOCOL_VERSION, "other") else {
        panic!("expected an answer");
    };
    assert_eq!(ack_of(&reply.ack), (false, Some(String::from("session_mismatch"))));
    assert!(matches!(
        reply.outcome,
        Err(NetworkError::SessionMismatch { expected, got }) if expected == "session" && got == "other"
    ));

    let Ok(Inbound::Handshake(reply)) = greet(&tm, "guest", 999, "other") else {
        panic!("expected an answer");
    };
    assert_eq!(
        ack_of(&reply.ack),
        (false, Some(String::from("version_mismatch: expected 1, got 999")))
    );
    assert!(matches!(
        reply.outcome,
        Err(NetworkError::VersionMismatch { expected: 1, got: 999 })
    ));

    tm.register_connection(PeerId::new("guest"), "x".into(), 1).unwrap();
    let Ok(Inbound::Handshake(reply)) = greet(&tm, "guest", PROTOCOL_VERSION, "session") else {
        panic!("expected an answer");
    };
    assert_eq!(ack_of(&reply.ack), (true, Some(String::from("already_connected"))));
    assert!(matches!(
        reply.outcome,
        Err(NetworkError::AlreadyConnected(id)) if id == "guest"
    ));
}

#[test]
fn other_first_packets_are_refused() {
    let tm = make_transport("host");
    let ping = encode_internal(&InternalMessage::Ping { timestamp_ms: 1 }, 1000).unwrap();
    assert!(matches!(
        tm.handle_first_packet(&ping),
        Err(NetworkError::HandshakeFailed(m)) if m == "expected Handshake message"
    ));
    let garbage = RawPacket::from_parts(msg_types::HANDSHAKE, 0, vec![0xFF]);
    assert!(matches!(
        tm.handle_first_packet(&garbage),
        Err(NetworkError::Serialization(_))
    ));
}

#[test]
fn full_house_takes_data_channels_only() {
    let config = NetworkConfig { max_connections: 1, ..NetworkConfig::default() };
    let mut tm = make_transport_with("host", config);
    assert!(tm.begin_connect().is_ok());
    tm.register_connection(PeerId::new("guest"), "x".into(), 1).unwrap();
    assert!(tm.is_full());
    assert!(matches!(tm.begin_connect(), Err(NetworkError::MaxConnectionsReached)));
    assert!(matches!(
        greet(&tm, "late", PROTOCOL_VERSION, "session"),
        Err(NetworkError::MaxConnectionsReached)
    ));
    for (name, known) in [("guest", true), ("late", false)] {
        let hs = encode_internal(
            &InternalMessage::DataChannelHandshake { peer_id: name.into() },
            1000,
        )
        .unwrap();
        let Ok(Inbound::DataChannel(reply)) = tm.handle_first_packet(&hs) else {
            panic!("expected an answer");
        };
        assert_eq!(
            decode_internal(&reply.ack).unwrap(),
            InternalMessage::DataChannelHandshakeAck { peer_id: "host".into(), success: known }
        );
        assert_eq!(reply.outcome.is_ok(), known);
        assert_eq!(receive_data_channel_ack(&reply.ack).is_ok(), known);
    }
}

#[test]
fn answers_to_a_handshake_are_understood() {
    let tm = make_transport("guest");
    let receive = |success: bool, reason: Option<&str>| {
        let ack = encode_internal(
            &InternalMessage::HandshakeAck {
                peer_id: "host".into(),
                listen_port: 5,
                success,
                error_reason: reason.map(String::from),
            },
            1000,
        )
        .unwrap();
        tm.receive_handshake_ack(&ack)
    };
    let (peer, port, notify) = receive(true, None).ok().unwrap();
    assert_eq!((peer.as_str(), port), ("host", 5));
    assert_eq!(ack_of(&notify), (true, None));
    for (success, reason) in [(true, "already_connected"), (false, "duplicate_peer_id")] {
        assert!(matches!(
            receive(success, Some(reason)),
            Err(NetworkError::AlreadyConnected(id)) if id == "host"
        ));
    }
    assert!(matches!(
        receive(false, Some("session_mismatch")),
        Err(NetworkError::HandshakeFailed(m)) if m == "session_mismatch"
    ));
    assert!(matches!(
        receive(false, None),
        Err(NetworkError::HandshakeFailed(m)) if m == "unknown"
    ));
    let ping = encode_internal(&InternalMessage::Ping { timestamp_ms: 1 }, 1000).unwrap();
    assert!(matches!(
        tm.receive_handshake_ack(&ping),
        Err(NetworkError::HandshakeFailed(m)) if m == "expected HandshakeAck message"
    ));
}

#[test]
fn waiting_for_a_packet() {
    let packet = RawPacket::from_parts(7, 0, vec![]);
    assert_eq!(expect_packet(Received::Packet(packet), "gone").unwrap().msg_type, 7);
    assert!(matches!(
        expect_packet(Received::Failed(NetworkError::MessageTooLarge(9)), "gone"),
        Err(NetworkError::MessageTooLarge(9))
    ));
    assert!(matches!(
        expect_packet(Received::Closed, "gone"),
        Err(NetworkError::HandshakeFailed(m)) if m == "gone"
    ));
    assert!(matches!(
        expect_packet(Received::TimedOut, "gone"),
        Err(NetworkError::HandshakeTimeout)
    ));
    assert!(matches!(
        send_failed("handshake", &NetworkError::SendQueueFull),
        NetworkError::ConnectionFailed(m) if m == "failed to send handshake: send queue full"
    ));
}

#[test]
fn an_existing_connection_is_no_failure_inbound() {
    assert!(inbound_result(Ok(())).is_ok());
    assert!(inbound_result(Err(NetworkError::AlreadyConnected("p".into()))).is_ok());
    assert!(inbound_result(Err(NetworkError::HandshakeTimeout)).is_err());
    assert!(matches!(
        outbound_result(Err(NetworkError::DuplicatePeerId("p".into()))),
        Err(NetworkError::AlreadyConnected(id)) if id == "p"
    ));
    assert_eq!(outbound_result(Ok(PeerId::new("p"))).unwrap().as_str(), "p");
    assert!(matches!(
        outbound_result(Err(NetworkError::HandshakeTimeout)),
        Err(NetworkError::HandshakeTimeout)
    ));
}

// --- restoring --------------------------------------------------------------

#[test]
fn delays_double_up_to_the_maximum() {
    let config = NetworkConfig {
        reconnect_initial_ms: 100,
        reconnect_max_ms: 500,
        ..Default::default()
    };
    let mut r = Reconnect::new(&config);
    assert_eq!(r.next_step(), ReconnectStep::Wait { delay_ms: 100 });
    assert_eq!(r.delay_elapsed(true), ReconnectStep::Connect);
    for delay_ms in [200, 400, 500, 500] {
        assert_eq!(r.attempt_failed(), ReconnectStep::Wait { delay_ms });
    }
    for _ in 0..300 {
        assert_eq!(r.attempt_failed(), ReconnectStep::Wait { delay_ms: 500 });
    }
    assert_eq!(
        r.connected(),
        ReconnectStep::Stop { event: ReconnectEvent::Reconnected }
    );
    assert_eq!(
        r.delay_elapsed(false),
        ReconnectStep::Stop { event: ReconnectEvent::Exhausted }
    );
}

#[test]
fn restoring_is_given_up_after_the_limit() {
    let config = NetworkConfig { reconnect_max_retries: 2, ..Default::default() };
    let mut r = Reconnect::new(&config);
    assert_eq!(r.attempt_failed(), ReconnectStep::Wait { delay_ms: 2000 });
    assert_eq!(
        r.attempt_failed(),
        ReconnectStep::Stop { event: ReconnectEvent::Exhausted }
    );
}

#[test]
fn an_initial_delay_above_the_maximum_is_kept_once() {
    let config = NetworkConfig {
        reconnect_initial_ms: 900,
        reconnect_max_ms: 500,
        ..Default::default()
    };
    let mut r = Reconnect::new(&config);
    assert_eq!(r.next_step(), ReconnectStep::Wait { delay_ms: 900 });
    assert_eq!(r.attempt_failed(), ReconnectStep::Wait { delay_ms: 500 });
    assert_eq!(r.attempt_failed(), ReconnectStep::Wait { delay_ms: 500 });
}

#[test]
fn reconnect_events_have_numbers() {
    let numbers = [
        ReconnectEvent::Disconnected.as_u8(),
        ReconnectEvent::Reconnected.as_u8(),
        ReconnectEvent::Exhausted.as_u8(),
    ];
    assert_eq!(numbers, [0, 1, 2]);
}
