use meta_mystia_network::protocol::{msg_types, InternalMessage};

fn one_of_each() -> Vec<InternalMessage> {
    vec![
        InternalMessage::Handshake {
            peer_id: "p".into(),
            listen_port: 0,
            protocol_version: 1,
            session_id: "s".into(),
        },
        InternalMessage::HandshakeAck {
            peer_id: "p".into(),
            listen_port: 0,
            success: true,
            error_reason: None,
        },
        InternalMessage::PeerLeave {
            peer_id: "p".into(),
        },
        InternalMessage::PeerListSync { peers: vec![] },
        InternalMessage::Heartbeat {
            term: 0,
            leader_id: "p".into(),
            timestamp_ms: 0,
        },
        InternalMessage::HeartbeatResponse {
            term: 0,
            timestamp_ms: 0,
        },
        InternalMessage::Ping { timestamp_ms: 0 },
        InternalMessage::Pong { timestamp_ms: 0 },
        InternalMessage::RequestVote {
            term: 0,
            candidate_id: "p".into(),
        },
        InternalMessage::VoteResponse {
            term: 0,
            voter_id: "p".into(),
            granted: false,
        },
        InternalMessage::LeaderAssign {
            term: 0,
            leader_id: "p".into(),
            assigner_id: "p".into(),
        },
        InternalMessage::ForwardedUserData {
            from_peer_id: "p".into(),
            original_msg_type: 0x0100,
            original_flags: 0,
            payload: vec![],
        },
        InternalMessage::DataChannelHandshake {
            peer_id: "p".into(),
        },
        InternalMessage::DataChannelHandshakeAck {
            peer_id: "p".into(),
            success: true,
        },
    ]
}

#[test]
fn test_msg_type_returns_internal_range() {
    let messages = one_of_each();

    for msg in &messages {
        assert!(
            msg.msg_type() < msg_types::USER_MESSAGE_START,
            "{msg:?} has msg_type {:#06x} which is >= USER_MESSAGE_START",
            msg.msg_type()
        );
    }
}

#[test]
fn test_msg_type_constants_unique() {
    let codes = msg_types::all();
    for (i, &a) in codes.iter().enumerate() {
        for &b in &codes[i + 1..] {
            assert_ne!(a, b, "duplicate msg_type constant: {a:#06x}");
        }
    }
}

#[test]
fn test_msg_type_all_covers_every_constant() {
    // 14 InternalMessage variants → 14 msg_type constants.
    assert_eq!(msg_types::all().len(), 14);
}

#[test]
fn test_msg_type_expected_values() {
    assert_eq!(
        InternalMessage::Handshake {
            peer_id: String::new(),
            listen_port: 0,
            protocol_version: 0,
            session_id: String::new(),
        }
        .msg_type(),
        msg_types::HANDSHAKE
    );
    assert_eq!(
        InternalMessage::Ping { timestamp_ms: 0 }.msg_type(),
        msg_types::PING
    );
    assert_eq!(
        InternalMessage::DataChannelHandshake {
            peer_id: String::new()
        }
        .msg_type(),
        msg_types::DATA_CHANNEL_HANDSHAKE
    );
}

#[test]
fn test_internal_message_partial_eq() {
    let a = InternalMessage::Ping { timestamp_ms: 42 };
    let b = InternalMessage::Ping { timestamp_ms: 42 };
    let c = InternalMessage::Ping { timestamp_ms: 99 };
    assert_eq!(a, b);
    assert_ne!(a, c);

    let d = InternalMessage::Pong { timestamp_ms: 42 };
    assert_ne!(a, d, "different variants with same field value");
}

#[test]
fn each_kind_has_the_code_at_its_position() {
    let codes = msg_types::all();
    for (i, msg) in one_of_each().iter().enumerate() {
        assert_eq!(msg.msg_type(), codes[i]);
    }
    assert_eq!(msg_types::HANDSHAKE, 0x0001);
    assert_eq!(msg_types::FORWARDED_USER_DATA, 0x0030);
    assert_eq!(msg_types::DATA_CHANNEL_HANDSHAKE_ACK, 0x0041);
    assert_eq!(msg_types::USER_MESSAGE_START, 0x0100);
}
