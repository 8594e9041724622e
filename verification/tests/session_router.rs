use meta_mystia_network::config::{ManualOverrideRecovery, NetworkConfig};
use meta_mystia_network::error::NetworkError;
use meta_mystia_network::leader::LeaderElection;
use meta_mystia_network::messaging::{decode_internal, decode_payload};
use meta_mystia_network::protocol::{msg_types, InternalMessage};
use meta_mystia_network::session_router::{Delivery, SessionRouter};
use meta_mystia_network::transport::TransportManager;
use meta_mystia_network::types::{ForwardTarget, MessageTarget, PeerId};

fn make_router() -> (SessionRouter, TransportManager, LeaderElection) {
    let local = PeerId::new("local");
    let config = NetworkConfig::default();
    let transport = TransportManager::new(
        local.clone(),
        "session".into(),
        config,
        "127.0.0.1:4000".into(),
        4000,
    );
    let leader = LeaderElection::new(local.clone(), false, ManualOverrideRecovery::Hold);
    (SessionRouter::new(local, config), transport, leader)
}

#[test]
fn invalid_msg_type_errors() {
    let (router, transport, leader) = make_router();
    let e = router
        .route_message(&transport, &leader, MessageTarget::Broadcast, 0x0001, b"", 0)
        .err()
        .unwrap();
    assert!(matches!(e, NetworkError::InvalidArgument(_)));
}

#[test]
fn not_leader_errors() {
    let (mut router, transport, leader) = make_router();
    assert!(matches!(
        router.send_from_leader(&transport, &leader, 0x0100, b"x", 0),
        Err(NetworkError::NotLeader)
    ));
    let local = PeerId::new("local");
    assert!(matches!(
        router.forward_message(
            &transport,
            &leader,
            &local,
            ForwardTarget::Broadcast,
            0x0100,
            0,
            b""
        ),
        Err(NetworkError::NotLeader)
    ));

    // centralized broadcast when not leader should also fail
    router.set_centralized(true);
    let e = router
        .route_message(&transport, &leader, MessageTarget::Broadcast, 0x0100, b"", 0)
        .err()
        .unwrap();
    assert!(matches!(e, NetworkError::NotLeader));
}

#[test]
fn handle_forwarded_user_data_preserves_packet() {
    let (router, transport, leader) = make_router();
    let (raw, forward) =
        router.handle_forwarded_user_data(&transport, &leader, "peer", 0x0100, 5, b"abc");
    let pkt = raw.unwrap();
    assert_eq!(pkt.msg_type, 0x0100);
    assert_eq!(pkt.flags, 5);
    assert_eq!(&pkt.payload[..], b"abc");
    assert!(forward.is_empty());
}

#[test]
fn a_message_to_an_unknown_peer_is_an_error() {
    let (router, transport, mut leader) = make_router();
    let target = MessageTarget::ToPeer(PeerId::new("nobody"));
    assert!(matches!(
        router.route_message(&transport, &leader, target, 0x0100, b"x", 0),
        Err(NetworkError::PeerNotFound(id)) if id == "nobody"
    ));
    assert!(matches!(
        router.route_message(&transport, &leader, MessageTarget::ToLeader, 0x0100, b"x", 0),
        Err(NetworkError::NotLeader)
    ));
    leader.handle_heartbeat(1, "boss");
    assert!(matches!(
        router.route_message(&transport, &leader, MessageTarget::ToLeader, 0x0100, b"x", 0),
        Err(NetworkError::PeerNotFound(id)) if id == "boss"
    ));
}

#[test]
fn a_message_to_this_node_as_leader_stays() {
    let (router, transport, mut leader) = make_router();
    leader.set_leader(&PeerId::new("local"));
    assert!(matches!(
        router.route_message(&transport, &leader, MessageTarget::ToLeader, 0x0100, b"x", 0),
        Ok(Delivery::Local)
    ));
}

#[test]
fn centralized_messages_are_wrapped_for_the_leader() {
    let (mut router, mut transport, mut leader) = make_router();
    transport.register_connection(PeerId::new("boss"), "127.0.0.1:1".into(), 7).unwrap();
    transport.register_connection(PeerId::new("other"), "127.0.0.1:2".into(), 8).unwrap();
    leader.handle_heartbeat(1, "boss");
    router.set_centralized(true);
    assert!(router.is_centralized());
    let d = router
        .route_message(&transport, &leader, MessageTarget::Broadcast, 0x0800, b"hi", 0x05)
        .unwrap_or_else(|_| panic!("the leader is connected"));
    let Delivery::ToPeer(out) = d else {
        panic!("expected one peer");
    };
    assert_eq!(out.peer_id.as_str(), "boss");
    assert_eq!(out.channel, 7);
    assert_eq!(out.packet.msg_type, msg_types::FORWARDED_USER_DATA);
    assert_eq!(
        decode_internal(&out.packet).unwrap(),
        InternalMessage::ForwardedUserData {
            from_peer_id: "local".into(),
            original_msg_type: 0x0800,
            original_flags: 0x04,
            payload: b"hi".to_vec(),
        }
    );
}

#[test]
fn the_leader_passes_forwarded_messages_on() {
    let (mut router, mut transport, mut leader) = make_router();
    for (i, name) in ["a", "b", "c"].iter().enumerate() {
        transport.register_connection(PeerId::new(name), "x".into(), i as u64).unwrap();
    }
    leader.set_leader(&PeerId::new("local"));
    router.set_centralized(true);
    let (raw, forward) =
        router.handle_forwarded_user_data(&transport, &leader, "b", 0x0800, 2, b"hi");
    assert!(raw.is_some());
    let names: Vec<&str> = forward.iter().map(|o| o.peer_id.as_str()).collect();
    assert_eq!(names.len(), 2);
    assert!(names.contains(&"a") && names.contains(&"c"));

    router.set_auto_forward(false);
    assert!(!router.is_auto_forward());
    let (raw, forward) =
        router.handle_forwarded_user_data(&transport, &leader, "b", 0x0800, 2, b"hi");
    assert!(raw.is_some());
    assert!(forward.is_empty());
}

#[test]
fn the_threshold_decides_on_compression() {
    let (mut router, mut transport, leader) = make_router();
    transport.register_connection(PeerId::new("a"), "x".into(), 1).unwrap();
    let data = vec![7u8; 400];
    for (threshold, compressed) in [(512, false), (100, true), (400, false), (399, true)] {
        router.set_compression_threshold(threshold);
        assert_eq!(router.compression_threshold(), threshold);
        let d = router
            .route_message(&transport, &leader, MessageTarget::ToPeer(PeerId::new("a")), 0x0100, &data, 0)
            .unwrap_or_else(|_| panic!("the peer is connected"));
        let Delivery::ToPeer(out) = d else {
            panic!("expected one peer");
        };
        assert_eq!(out.packet.is_compressed(), compressed);
        assert_eq!(&decode_payload(&out.packet).unwrap()[..], &data[..]);
    }
}
