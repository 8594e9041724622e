//! Several nodes that talk to each other. Packets travel as frames through
//! queues, one for each pair of nodes; time stands still unless a test moves
//! it.

use std::collections::VecDeque;

use bytes::BytesMut;
use meta_mystia_network::callback::CallbackCall;
use meta_mystia_network::config::{NetworkConfig, PROTOCOL_VERSION};
use meta_mystia_network::discovery::DiscoveryManager;
use meta_mystia_network::error::NetworkError;
use meta_mystia_network::messaging::{decode_internal, encode_internal, RawPacket};
use meta_mystia_network::network::Effects;
use meta_mystia_network::protocol::InternalMessage;
use meta_mystia_network::session_router::Delivery;
use meta_mystia_network::transport::handshake::{
    inbound_result, outbound_result, receive_data_channel_ack, Inbound,
};
use meta_mystia_network::transport::{DataChannel, Outgoing, PacketCodec};
use meta_mystia_network::types::{ForwardTarget, MessageTarget, PeerId, PeerStatus};
use meta_mystia_network::NetworkState;

const MS: u128 = 1_000_000;

struct Node {
    state: NetworkState,
    received: Vec<(String, Vec<u8>, u16, u8)>,
    statuses: Vec<(String, i32)>,
    leaders: Vec<String>,
    down: bool,
}

struct Net {
    nodes: Vec<Node>,
    in_flight: VecDeque<(usize, usize, BytesMut)>,
    channels: u64,
    now_ms: u64,
}

impl Net {
    fn new() -> Net {
        Net { nodes: Vec::new(), in_flight: VecDeque::new(), channels: 0, now_ms: 1_000_000 }
    }

    fn now(&self) -> u128 {
        self.now_ms as u128 * MS
    }

    fn add_with(&mut self, peer_id: &str, session: &str, config: NetworkConfig) -> usize {
        let i = self.nodes.len();
        let port = 4000 + i as u16;
        let mut state = NetworkState::new(
            peer_id.into(),
            session.into(),
            config,
            format!("127.0.0.1:{port}"),
            port,
        );
        state.callback.register_receive_callback(true);
        state.callback.register_peer_status_callback(true);
        state.callback.register_leader_changed_callback(true);
        self.nodes.push(Node {
            state,
            received: Vec::new(),
            statuses: Vec::new(),
            leaders: Vec::new(),
            down: false,
        });
        i
    }

    fn add(&mut self, peer_id: &str, session: &str) -> usize {
        self.add_with(peer_id, session, NetworkConfig::default())
    }

    fn index_of(&self, peer_id: &PeerId) -> Option<usize> {
        self.nodes.iter().position(|n| !n.down && n.state.local_peer_id == *peer_id)
    }

    fn channel(&mut self) -> u64 {
        self.channels += 1;
        self.channels
    }

    fn queue(&mut self, from: usize, sent: Vec<Outgoing>) {
        for o in sent {
            if let Some(to) = self.index_of(&o.peer_id) {
                let mut frame = BytesMut::new();
                let max = self.nodes[from].state.config.max_message_size;
                PacketCodec::new(max).encode(o.packet, &mut frame).unwrap();
                self.in_flight.push_back((from, to, frame));
            }
        }
    }

    fn apply(&mut self, at: usize, effects: Effects) {
        self.queue(at, effects.send);
        for addr in effects.connect {
            let to = self.nodes.iter().position(|n| n.state.transport.listener_addr() == addr);
            let _ = self.connect(at, to.unwrap());
        }
    }

    fn hand_in(&mut self, at: usize, from: &PeerId, packet: RawPacket) {
        let (now_ms, now) = (self.now_ms, self.now());
        let effects = self.nodes[at].state.handle_message_at(from, packet, now_ms, now);
        self.apply(at, effects);
        self.settle(at);
    }

    fn settle(&mut self, at: usize) {
        let node = &mut self.nodes[at];
        node.state.process_membership_events();
        node.state.process_leader_changes();
        while let Some(event) = node.state.callback.next_event() {
            match node.state.callback.dispatch_event(event) {
                Some(CallbackCall::Received { peer_id, data, length, msg_type, flags }) => {
                    assert_eq!(length as usize, data.len());
                    node.received.push((peer_id, data.to_vec(), msg_type, flags));
                }
                Some(CallbackCall::PeerStatusChanged { peer_id, status }) => {
                    node.statuses.push((peer_id, status));
                }
                Some(CallbackCall::LeaderChanged { leader_id }) => node.leaders.push(leader_id),
                _ => {}
            }
        }
    }

    /// Deliver all packets, also those that come up on the way.
    fn run(&mut self) {
        for i in 0..self.nodes.len() {
            self.settle(i);
        }
        while let Some((from, to, mut frame)) = self.in_flight.pop_front() {
            if self.nodes[to].down {
                continue;
            }
            let sender = self.nodes[from].state.local_peer_id.clone();
            let max = self.nodes[to].state.config.max_message_size;
            let packet = PacketCodec::new(max).decode(&mut frame).unwrap().unwrap();
            assert!(frame.is_empty());
            self.hand_in(to, &sender, packet);
        }
    }

    /// Connect one node to another one.
    fn connect(&mut self, a: usize, b: usize) -> Result<PeerId, NetworkError> {
        let result = self.handshake(a, b);
        outbound_result(result)
    }

    fn handshake(&mut self, a: usize, b: usize) -> Result<PeerId, NetworkError> {
        self.nodes[a].state.transport.begin_connect()?;
        let greeting = self.nodes[a].state.transport.handshake_packet()?;
        let Inbound::Handshake(reply) = self.nodes[b].state.transport.handle_first_packet(&greeting)?
        else {
            panic!("a handshake was sent");
        };
        let addr_a = String::from(self.nodes[a].state.transport.listener_addr());
        let addr_b = String::from(self.nodes[b].state.transport.listener_addr());
        let now = self.now();
        match reply.outcome {
            Ok(newcomer) => {
                let welcome = self.nodes[b].state.transport.welcome(&newcomer);
                let channel = self.channel();
                let id = newcomer.peer_id.clone();
                self.nodes[b].state.transport.register_connection_at(id.clone(), addr_a, channel, now)?;
                self.hand_in(b, &id, welcome.notify?);
                let (peer, _, notify) =
                    self.nodes[a].state.transport.receive_handshake_ack(&reply.ack)?;
                let channel = self.channel();
                let opens = self.nodes[a].state.transport.register_connection_at(
                    peer.clone(),
                    addr_b,
                    channel,
                    now,
                )?;
                self.hand_in(a, &peer, notify);
                if let Some(sync) = welcome.sync {
                    self.hand_in(a, &peer, sync);
                }
                if opens {
                    self.open_data_channel(a, b);
                } else {
                    self.open_data_channel(b, a);
                }
                Ok(peer)
            }
            Err(e) => {
                let _ = inbound_result(Err(e));
                match self.nodes[a].state.transport.receive_handshake_ack(&reply.ack) {
                    Ok(_) => panic!("the handshake was refused"),
                    Err(e) => Err(e),
                }
            }
        }
    }

    fn open_data_channel(&mut self, a: usize, b: usize) {
        let id_a = self.nodes[a].state.local_peer_id.clone();
        let id_b = self.nodes[b].state.local_peer_id.clone();
        assert!(self.nodes[a].state.transport.needs_data_channel(&id_b).unwrap());
        let hello = self.nodes[a].state.transport.data_channel_packet().unwrap();
        let Ok(Inbound::DataChannel(reply)) =
            self.nodes[b].state.transport.handle_first_packet(&hello)
        else {
            panic!("a data channel was announced");
        };
        assert!(reply.outcome.unwrap() == id_a);
        receive_data_channel_ack(&reply.ack).unwrap();
        for (i, peer) in [(a, id_b), (b, id_a)] {
            let channel = self.channel();
            assert_eq!(
                self.nodes[i].state.transport.register_data_channel(&peer, channel),
                DataChannel::Attached { replaced: None }
            );
        }
    }

    fn mesh(&mut self, nodes: &[usize]) {
        for (k, &a) in nodes.iter().enumerate() {
            for &b in &nodes[k + 1..] {
                self.connect(a, b).unwrap();
            }
        }
        self.run();
    }

    fn send(&mut self, from: usize, target: MessageTarget, msg_type: u16, data: &[u8], flags: u8) {
        let s = &self.nodes[from].state;
        let d = s.session_router.route_message(
            &s.transport,
            &s.leader_election,
            target,
            msg_type,
            data,
            flags,
        );
        self.ship(from, d);
    }

    fn ship(&mut self, from: usize, d: Result<Delivery, NetworkError>) {
        match d {
            Ok(Delivery::Local) => {}
            Ok(Delivery::ToPeer(o)) => self.queue(from, vec![o]),
            Ok(Delivery::ToAll(list)) => self.queue(from, list),
            Err(e) => panic!("{}", e.to_string()),
        }
        self.run();
    }

    fn to(&self, node: usize) -> MessageTarget {
        MessageTarget::ToPeer(self.nodes[node].state.local_peer_id.clone())
    }

    fn knows(&self, a: usize, name: &str) -> bool {
        self.nodes[a].state.membership.has_peer(&PeerId::new(name))
    }

    /// The timer for elections goes off at a node.
    fn election(&mut self, at: usize) {
        let now_ms = self.now_ms;
        let effects = self.nodes[at].state.election_tick_at(now_ms);
        self.apply(at, effects);
        self.run();
    }

    fn leader_of(&self, at: usize) -> Option<String> {
        self.nodes[at].state.leader_election.leader_id().map(|p| p.to_string())
    }

    fn disconnect(&mut self, a: usize, b: usize) {
        let id_a = self.nodes[a].state.local_peer_id.clone();
        let id_b = self.nodes[b].state.local_peer_id.clone();
        let d = self.nodes[a].state.transport.disconnect_peer(&id_b).ok().unwrap();
        self.nodes[a].state.membership.remove_peer(&id_b);
        if let Some(leave) = d.leave {
            self.queue(a, vec![leave]);
        }
        self.run();
        let closed = self.nodes[b].state.transport.connection_closed(&id_a);
        assert!(closed.reconnect.is_none());
        self.run();
    }

    fn shut_down(&mut self, at: usize) {
        let farewell = self.nodes[at].state.begin_shutdown();
        self.queue(at, farewell);
        self.run();
        self.nodes[at].state.finish_shutdown();
        self.nodes[at].down = true;
        let id = self.nodes[at].state.local_peer_id.clone();
        for i in 0..self.nodes.len() {
            if i != at && self.nodes[i].state.transport.has_peer(&id) {
                let closed = self.nodes[i].state.transport.connection_closed(&id);
                assert!(closed.reconnect.is_none());
            }
        }
        self.run();
    }
}

#[test]
fn test_two_node_connect() {
    let mut net = Net::new();
    let a = net.add("peer_a", "session1");
    let b = net.add("peer_b", "session1");
    net.connect(a, b).unwrap();
    assert!(net.knows(a, "peer_b"));
    assert!(net.knows(b, "peer_a"));
}

#[test]
fn test_handshake_session_mismatch() {
    let mut net = Net::new();
    let a = net.add("peer_a", "session1");
    let b = net.add("peer_b", "session2");
    assert!(net.connect(a, b).is_err());
    assert!(!net.knows(a, "peer_b"));
    assert!(!net.knows(b, "peer_a"));
}

#[test]
fn test_handshake_duplicate_peer_id() {
    let mut net = Net::new();
    let a = net.add("peer_a", "session1");
    let b = net.add("peer_b", "session1");
    net.connect(a, b).unwrap();
    assert!(net.connect(a, b).is_err());
}

#[test]
fn test_graceful_shutdown() {
    let mut net = Net::new();
    let a = net.add("peer_a", "session1");
    let b = net.add("peer_b", "session1");
    net.connect(a, b).unwrap();
    assert!(net.knows(a, "peer_b"));
    net.shut_down(a);
    assert!(!net.knows(b, "peer_a"));
    net.shut_down(b);
}

#[test]
fn test_broadcast_message() {
    let mut net = Net::new();
    let a = net.add("peer_a", "session1");
    let b = net.add("peer_b", "session1");
    net.connect(a, b).unwrap();
    net.send(a, MessageTarget::Broadcast, 0x0100, b"hello", 0);
    assert_eq!(net.nodes[b].received, vec![("peer_a".into(), b"hello".to_vec(), 0x0100, 0)]);
}

#[test]
fn test_disconnect_no_reconnect() {
    let mut net = Net::new();
    let a = net.add("peer_a", "session1");
    let b = net.add("peer_b", "session1");
    net.connect(a, b).unwrap();
    assert!(net.knows(a, "peer_b"));
    net.disconnect(a, b);
    assert!(!net.knows(a, "peer_b"));
    assert!(!net.knows(b, "peer_a"));
}

#[test]
fn test_handshake_version_mismatch() {
    let mut net = Net::new();
    let node = net.add("peer_b", "session_ver");
    let hs = encode_internal(
        &InternalMessage::Handshake {
            peer_id: "peer_a".into(),
            listen_port: 9999,
            protocol_version: 999,
            session_id: "session_ver".into(),
        },
        NetworkConfig::default().max_message_size,
    )
    .unwrap();
    let Ok(Inbound::Handshake(reply)) = net.nodes[node].state.transport.handle_first_packet(&hs)
    else {
        panic!("expected a response");
    };
    match decode_internal(&reply.ack).unwrap() {
        InternalMessage::HandshakeAck { success, error_reason, .. } => {
            assert!(!success);
            let reason = error_reason.expect("error_reason should be set");
            assert!(
                reason.contains("version_mismatch"),
                "expected version_mismatch, got: {reason}"
            );
        }
        _ => panic!("expected HandshakeAck"),
    }
}

fn fill(net: &mut Net, server: usize, session: &str, count: usize) -> (u32, u32) {
    let mut success = 0;
    let mut reject = 0;
    for i in 0..count {
        let hs = encode_internal(
            &InternalMessage::Handshake {
                peer_id: format!("mc_c{i}"),
                listen_port: 0,
                protocol_version: PROTOCOL_VERSION,
                session_id: session.into(),
            },
            NetworkConfig::default().max_message_size,
        )
        .unwrap();
        let now = net.now();
        let transport = &mut net.nodes[server].state.transport;
        match transport.handle_first_packet(&hs) {
            Ok(Inbound::Handshake(reply)) if reply.outcome.is_ok() => {
                let id = reply.outcome.ok().unwrap().peer_id;
                transport.register_connection_at(id, "x".into(), i as u64, now).unwrap();
                success += 1;
            }
            _ => reject += 1,
        }
    }
    (success, reject)
}

#[test]
fn test_max_connections() {
    let mut net = Net::new();
    let node = net.add("peer_main", "session_max");
    let (connected, _) = fill(&mut net, node, "session_max", 66);
    assert!(connected > 0);
    assert!(connected <= NetworkConfig::default().max_connections as u32);
}

#[test]
fn test_max_connections_rejection() {
    let mut net = Net::new();
    let server = net.add("mc_server", "session_mc");
    let max_conn = NetworkConfig::default().max_connections as usize;
    let (success, reject) = fill(&mut net, server, "session_mc", max_conn + 2);
    assert_eq!(success as usize, max_conn);
    assert_eq!(reject, 2);

    // a lost connection makes room for a new one
    let client = net.add("mc_new", "session_mc");
    assert!(matches!(
        net.connect(client, server),
        Err(NetworkError::MaxConnectionsReached)
    ));
    net.nodes[server].state.transport.connection_closed(&PeerId::new("mc_c0"));
    assert!(net.connect(client, server).is_ok());
}

fn elect(prefix: &str, count: usize) -> Net {
    let config = NetworkConfig {
        election_timeout_min_ms: 300,
        election_timeout_max_ms: 600,
        heartbeat_interval_ms: 100,
        ..Default::default()
    };
    let mut net = Net::new();
    let nodes: Vec<usize> =
        (0..count).map(|i| net.add_with(&format!("{prefix}_{i}"), "session", config)).collect();
    net.mesh(&nodes);
    for &i in &nodes {
        assert_eq!(net.nodes[i].state.membership.get_connected_peer_count(), count - 1);
    }
    net.election(1);
    net
}

#[test]
fn test_auto_leader_election_3_nodes() {
    let net = elect("node", 3);
    for i in 0..3 {
        assert_eq!(net.leader_of(i), Some(String::from("node_1")));
        assert_eq!(net.nodes[i].leaders, vec![String::from("node_1")]);
    }
}

#[test]
fn test_auto_leader_election_2_nodes() {
    let net = elect("node", 2);
    assert_eq!(net.leader_of(0), net.leader_of(1));
    assert!(net.leader_of(0).is_some());
}

#[test]
fn test_all_nodes_agree_on_leader() {
    let mut net = elect("election", 3);
    // the other timers go off too, but a leader is known
    net.election(0);
    net.election(2);
    for i in 0..3 {
        assert_eq!(net.leader_of(i), Some(String::from("election_1")));
    }
    let leaders = (0..3).filter(|&i| net.nodes[i].state.leader_election.is_leader()).count();
    assert_eq!(leaders, 1, "exactly one node must be leader");
}

#[test]
fn test_election_skips_known_leader() {
    let mut net = elect("esk", 2);
    let term = net.nodes[0].state.leader_election.current_term();
    for _ in 0..5 {
        net.election(0);
        net.election(1);
    }
    assert_eq!(net.nodes[0].state.leader_election.current_term(), term);
    assert_eq!(net.leader_of(0), Some(String::from("esk_1")));
}

#[test]
fn test_leader_failover_new_election() {
    let mut net = elect("fo", 3);
    net.shut_down(1);
    assert_eq!(net.leader_of(0), None);
    assert_eq!(net.leader_of(2), None);
    net.election(2);
    assert_eq!(net.leader_of(0), Some(String::from("fo_2")));
    assert_eq!(net.leader_of(2), Some(String::from("fo_2")));
}

#[test]
fn test_centralized_routing() {
    let mut net = elect("node", 2);
    net.nodes[0].state.session_router.set_centralized(true);
    net.nodes[1].state.session_router.set_centralized(true);
    net.send(0, MessageTarget::Broadcast, 0x0100, b"centralized_msg", 0x04);
    assert_eq!(
        net.nodes[1].received,
        vec![("node_0".into(), b"centralized_msg".to_vec(), 0x0100, 0x04)]
    );
}

#[test]
fn test_centralized_broadcast_delivery() {
    let mut net = elect("cent", 3);
    for i in 0..3 {
        net.nodes[i].state.session_router.set_centralized(true);
    }
    net.send(0, MessageTarget::Broadcast, 0x0800, b"centralized_e2e", 0);
    let message = b"centralized_e2e".to_vec();
    assert_eq!(net.nodes[1].received, vec![("cent_0".into(), message.clone(), 0x0800, 0)]);
    // the other follower has it from the leader
    assert_eq!(net.nodes[2].received, vec![("cent_1".into(), message, 0x0800, 0)]);
    assert!(net.nodes[0].received.is_empty());
}

#[test]
fn test_leader_broadcast_delivery() {
    let mut net = elect("lb", 2);
    let s = &net.nodes[1].state;
    let d = s.session_router.send_from_leader(
        &s.transport,
        &s.leader_election,
        0x0900,
        b"from_the_leader",
        0,
    );
    net.ship(1, d);
    assert_eq!(
        net.nodes[0].received,
        vec![("lb_1".into(), b"from_the_leader".to_vec(), 0x0900, 0)]
    );
}

#[test]
fn test_forward_message() {
    let mut net = elect("node", 2);
    let forward = |net: &Net, i: usize, target: ForwardTarget, data: &[u8]| {
        let s = &net.nodes[i].state;
        s.session_router.forward_message(
            &s.transport,
            &s.leader_election,
            &PeerId::new("external"),
            target,
            0x0100,
            0x02,
            data,
        )
    };
    let d = forward(&net, 1, ForwardTarget::ToPeer(PeerId::new("node_0")), b"forwarded_data");
    assert!(d.is_ok());
    net.ship(1, d);
    let d = forward(&net, 0, ForwardTarget::Broadcast, b"should_fail");
    assert!(matches!(d, Err(NetworkError::NotLeader)));
}

#[test]
fn test_forward_message_delivery_to_follower() {
    let mut net = elect("fwd", 3);
    let s = &net.nodes[1].state;
    let d = s.session_router.forward_message(
        &s.transport,
        &s.leader_election,
        &PeerId::new("external_peer"),
        ForwardTarget::ToPeer(PeerId::new("fwd_0")),
        0x0F00,
        0x02,
        b"forwarded_payload",
    );
    net.ship(1, d);
    assert_eq!(
        net.nodes[0].received,
        vec![("fwd_1".into(), b"forwarded_payload".to_vec(), 0x0F00, 0x02)]
    );
    assert!(net.nodes[2].received.is_empty());
}

#[test]
fn test_send_to_leader_and_from_leader() {
    let config = NetworkConfig { auto_election_enabled: false, ..Default::default() };
    let mut net = Net::new();
    let n0 = net.add_with("send_to_leader_and_from_leader_0", "session", config);
    let n1 = net.add_with("send_to_leader_and_from_leader_1", "session", config);
    net.connect(n0, n1).unwrap();
    let leader = PeerId::new("send_to_leader_and_from_leader_0");
    net.nodes[n0].state.leader_election.set_leader(&leader);
    net.nodes[n1].state.leader_election.set_leader(&leader);

    net.send(n1, MessageTarget::ToLeader, 0x0E00, b"msg_to_leader", 0);
    assert!(net.nodes[n0]
        .received
        .iter()
        .any(|(_, d, mt, _)| d == b"msg_to_leader" && *mt == 0x0E00));

    let s = &net.nodes[n0].state;
    let d = s.session_router.send_from_leader(
        &s.transport,
        &s.leader_election,
        0x0E01,
        b"from_leader_broadcast",
        0,
    );
    net.ship(n0, d);
    assert!(net.nodes[n1]
        .received
        .iter()
        .any(|(_, d, mt, _)| d == b"from_leader_broadcast" && *mt == 0x0E01));
}

#[test]
fn test_rapid_connect_disconnect() {
    let mut net = Net::new();
    let a = net.add("peer_a", "session_rapid");
    let b = net.add("peer_b", "session_rapid");
    for _ in 0..5 {
        net.connect(a, b).unwrap();
        net.disconnect(a, b);
    }
    net.connect(a, b).unwrap();
    assert!(net.knows(a, "peer_b"));
}

#[test]
fn test_rapid_reconnect_then_message() {
    let mut net = Net::new();
    let a = net.add("rapid_a", "session_rapid");
    let b = net.add("rapid_b", "session_rapid");
    for _ in 0..10 {
        net.connect(a, b).unwrap();
        net.disconnect(a, b);
    }
    net.connect(a, b).unwrap();
    let target = net.to(b);
    net.send(a, target, 0x1100, b"survived_the_storm", 0);
    assert!(net.nodes[b].received.iter().any(|(_, d, _, _)| d == b"survived_the_storm"));
}

#[test]
fn test_reconnect_then_message() {
    let mut net = Net::new();
    let a = net.add("recon_a", "session_recon");
    let b = net.add("recon_b", "session_recon");
    net.connect(a, b).unwrap();
    net.disconnect(a, b);
    assert!(!net.knows(a, "recon_b"));
    net.connect(a, b).unwrap();
    assert!(net.knows(a, "recon_b"));
    let target = net.to(b);
    net.send(a, target, 0x0700, b"after_reconnect", 0);
    assert!(net.nodes[b].received.iter().any(|(_, d, _, _)| d == b"after_reconnect"));
}

#[test]
fn test_discovery_same_session_auto_connect() {
    let mut net = Net::new();
    let a = net.add("disc_peer_0", "disc_session");
    let b = net.add("disc_peer_1", "disc_session");
    let (n0, n1) = (&net.nodes[a].state, &net.nodes[b].state);
    let should = DiscoveryManager::should_connect_to_discovered_peer(
        &n0.local_peer_id,
        &n0.session_id,
        n1.local_peer_id.as_str(),
        &n1.session_id,
        &n0.membership,
    );
    assert!(should, "same session peer should be connectable");
    net.connect(a, b).unwrap();
    assert!(net.knows(a, "disc_peer_1"));
    assert!(net.knows(b, "disc_peer_0"));
}

#[test]
fn test_discovery_session_isolation() {
    let mut net = Net::new();
    let a = net.add("iso_peer_0", "session_A");
    let b = net.add("iso_peer_1", "session_B");
    let (n0, n1) = (&net.nodes[a].state, &net.nodes[b].state);
    let should = DiscoveryManager::should_connect_to_discovered_peer(
        &n0.local_peer_id,
        &n0.session_id,
        n1.local_peer_id.as_str(),
        &n1.session_id,
        &n0.membership,
    );
    assert!(!should, "different session peers should not connect");
    assert!(net.connect(a, b).is_err(), "cross-session handshake should fail");
    assert!(!net.knows(a, "iso_peer_1"));
}

#[test]
fn test_unicast_delivery_verified() {
    let mut net = Net::new();
    let a = net.add("e2e_uni_a", "session_e2e_uni");
    let b = net.add("e2e_uni_b", "session_e2e_uni");
    net.connect(a, b).unwrap();
    let target = net.to(b);
    net.send(a, target, 0x0200, b"unicast_e2e_payload", 0);
    assert!(net.nodes[b]
        .received
        .iter()
        .any(|(pid, d, mt, _)| pid == "e2e_uni_a" && d == b"unicast_e2e_payload" && *mt == 0x0200));
}

#[test]
fn test_broadcast_delivery_verified() {
    let mut net = Net::new();
    let a = net.add("e2e_bc_a", "session_e2e_bc");
    let b = net.add("e2e_bc_b", "session_e2e_bc");
    let c = net.add("e2e_bc_c", "session_e2e_bc");
    net.connect(a, b).unwrap();
    net.connect(a, c).unwrap();
    net.run();
    net.send(a, MessageTarget::Broadcast, 0x0300, b"broadcast_e2e_payload", 0);
    for i in [b, c] {
        assert_eq!(
            net.nodes[i].received,
            vec![("e2e_bc_a".into(), b"broadcast_e2e_payload".to_vec(), 0x0300, 0)]
        );
    }
}

#[test]
fn test_bidirectional_messaging() {
    let mut net = Net::new();
    let a = net.add("bidirectional_a", "session_bidirectional");
    let b = net.add("bidirectional_b", "session_bidirectional");
    net.connect(a, b).unwrap();
    let (to_a, to_b) = (net.to(a), net.to(b));
    net.send(a, to_b, 0x0200, b"from_a_to_b", 0);
    net.send(b, to_a, 0x0201, b"from_b_to_a", 0);
    assert!(net.nodes[a]
        .received
        .iter()
        .any(|(pid, d, mt, _)| pid == "bidirectional_b" && d == b"from_b_to_a" && *mt == 0x0201));
    assert!(net.nodes[b]
        .received
        .iter()
        .any(|(pid, d, mt, _)| pid == "bidirectional_a" && d == b"from_a_to_b" && *mt == 0x0200));
}

#[test]
fn test_sequential_delivery() {
    let mut net = Net::new();
    let a = net.add("seq_a", "session_seq");
    let b = net.add("seq_b", "session_seq");
    net.connect(a, b).unwrap();
    for i in 0..20 {
        let target = net.to(b);
        net.send(a, target, 0x0400, format!("msg_{i}").as_bytes(), 0);
    }
    let got: Vec<Vec<u8>> = net.nodes[b].received.iter().map(|(_, d, _, _)| d.clone()).collect();
    let expected: Vec<Vec<u8>> = (0..20).map(|i| format!("msg_{i}").into_bytes()).collect();
    assert_eq!(got, expected);
}

#[test]
fn test_large_payload_delivery() {
    let mut net = Net::new();
    let a = net.add("large_a", "session_large");
    let b = net.add("large_b", "session_large");
    net.connect(a, b).unwrap();
    let size = 100 * 1024;
    let mut payload = Vec::with_capacity(size);
    for i in 0..size {
        payload.push((i % 251) as u8);
    }
    let target = net.to(b);
    net.send(a, target, 0x0500, &payload, 0);
    let msgs = &net.nodes[b].received;
    assert_eq!(msgs[0].1.len(), size);
    assert_eq!(msgs[0].1, payload, "large payload content mismatch");
}

#[test]
fn test_type_and_flags_preserved() {
    let mut net = Net::new();
    let a = net.add("tf_a", "session_tf");
    let b = net.add("tf_b", "session_tf");
    net.connect(a, b).unwrap();
    let cases: Vec<(u16, u8, u8)> = vec![
        (0x0100, 0x00, 0x00), // min user type, no flags
        (0x0100, 0x02, 0x02), // flag bit 1
        (0x0100, 0xFE, 0xFE), // all user bits set (bit 0 stripped)
        (0xFFFF, 0x00, 0x00), // max msg_type
        (0x1234, 0x04, 0x04), // arbitrary combo
    ];
    for (mt, send_flags, _) in &cases {
        let target = net.to(b);
        net.send(a, target, *mt, b"tf", *send_flags);
    }
    let got: Vec<(u16, u8)> = net.nodes[b].received.iter().map(|(_, _, t, f)| (*t, *f)).collect();
    let expected: Vec<(u16, u8)> = cases.iter().map(|(t, _, f)| (*t, *f)).collect();
    assert_eq!(got, expected);
}

#[test]
fn test_full_mesh_broadcast() {
    let mut net = Net::new();
    let nodes: Vec<usize> = (0..3).map(|i| net.add(&format!("mesh_{i}"), "session_mesh")).collect();
    net.mesh(&nodes);
    for &i in &nodes {
        net.send(i, MessageTarget::Broadcast, 0x0600, format!("from_{i}").as_bytes(), 0);
    }
    for &i in &nodes {
        assert_eq!(net.nodes[i].received.len(), 2);
        for &j in &nodes {
            let heard =
                net.nodes[i].received.iter().filter(|(p, _, _, _)| *p == format!("mesh_{j}")).count();
            assert_eq!(heard, if i == j { 0 } else { 1 });
        }
    }
}

#[test]
fn test_status_callbacks_on_connect_disconnect() {
    let mut net = Net::new();
    let a = net.add("stat_a", "session_stat");
    let b = net.add("stat_b", "session_stat");
    net.connect(a, b).unwrap();
    assert_eq!(
        net.nodes[a].statuses,
        vec![("stat_b".into(), PeerStatus::Connected.as_i32())]
    );
    net.disconnect(a, b);
    assert_eq!(
        net.nodes[a].statuses,
        vec![
            ("stat_b".into(), PeerStatus::Connected.as_i32()),
            ("stat_b".into(), PeerStatus::Disconnected.as_i32()),
        ]
    );
}

#[test]
fn test_late_joiner_receives_messages() {
    let mut net = Net::new();
    let n0 = net.add("dj_0", "session_dj");
    let n1 = net.add("dj_1", "session_dj");
    let n2 = net.add("dj_2", "session_dj");
    net.connect(n0, n1).unwrap();
    net.connect(n0, n2).unwrap();
    let n3 = net.add("dj_3", "session_dj");
    net.connect(n0, n3).unwrap();
    assert!(net.knows(n3, "dj_0"), "late joiner did not connect to n0");
    let target = net.to(n3);
    net.send(n0, target, 0x0A00, b"welcome_latecomer", 0);
    assert!(net.nodes[n3].received.iter().any(|(_, d, _, _)| d == b"welcome_latecomer"));
}

#[test]
fn test_duplicate_peer_id_connection_rejected() {
    let mut net = Net::new();
    let a = net.add("dup_host", "session_dup_id");
    let b = net.add("dup_guest", "session_dup_id");
    net.connect(a, b).unwrap();
    let c = net.add("dup_guest", "session_dup_id");
    assert!(net.connect(c, a).is_err(), "duplicate peer_id connection should be rejected");
    assert!(net.knows(a, "dup_guest"));
}

#[test]
fn test_peer_list_sync_auto_mesh() {
    let mut net = Net::new();
    let a = net.add("pls_a", "session_pls");
    let b = net.add("pls_b", "session_pls");
    // C's id "pls_aa" < "pls_b" so C will initiate to B.
    let c = net.add("pls_aa", "session_pls");
    net.connect(a, b).unwrap();
    net.connect(c, a).unwrap();
    net.run();
    assert!(net.knows(c, "pls_a"));
    assert!(net.knows(c, "pls_b"), "C did not auto-connect to B via PeerListSync");
    for i in [a, b, c] {
        assert_eq!(net.nodes[i].state.membership.get_connected_peer_count(), 2);
    }
}

#[test]
fn test_concurrent_senders_all_delivered() {
    let mut net = Net::new();
    let target = net.add("cs_target", "session_cs");
    let senders: Vec<usize> = (0..3).map(|i| net.add(&format!("cs_s{i}"), "session_cs")).collect();
    for &s in &senders {
        net.connect(s, target).unwrap();
    }
    net.run();
    assert_eq!(net.nodes[target].state.membership.get_connected_peer_count(), 3);
    for i in 0..5 {
        for (k, &s) in senders.iter().enumerate() {
            let to = net.to(target);
            net.send(s, to, 0x0C00, format!("cs_s{k}_{i}").as_bytes(), 0);
        }
    }
    for k in 0..3 {
        let count =
            net.nodes[target].received.iter().filter(|(p, _, _, _)| *p == format!("cs_s{k}")).count();
        assert_eq!(count, 5);
    }
}

#[test]
fn test_empty_payload_delivery() {
    let mut net = Net::new();
    let a = net.add("empty_a", "session_empty");
    let b = net.add("empty_b", "session_empty");
    net.connect(a, b).unwrap();
    let target = net.to(b);
    net.send(a, target, 0x0D00, b"", 0);
    assert_eq!(net.nodes[b].received, vec![("empty_a".into(), vec![], 0x0D00, 0)]);
}

#[test]
fn test_graceful_leave_propagates() {
    let mut net = Net::new();
    let a = net.add("leave_a", "session_leave");
    let b = net.add("leave_b", "session_leave");
    let c = net.add("leave_c", "session_leave");
    net.mesh(&[a, b, c]);
    net.nodes[a].statuses.clear();
    net.nodes[c].statuses.clear();
    net.shut_down(b);
    for i in [a, c] {
        assert_eq!(
            net.nodes[i].statuses,
            vec![("leave_b".into(), PeerStatus::Disconnected.as_i32())]
        );
        assert_eq!(net.nodes[i].state.membership.get_connected_peer_count(), 1);
    }
}

#[test]
fn test_compression_roundtrip() {
    let mut net = Net::new();
    let a = net.add("lz4_a", "session_lz4");
    let b = net.add("lz4_b", "session_lz4");
    net.connect(a, b).unwrap();
    let big = vec![0xABu8; 8192];
    let target = net.to(b);
    net.send(a, target, 0x1000, &big, 0);
    let target = net.to(b);
    net.send(a, target, 0x1001, b"tiny_msg", 0);
    let msgs = &net.nodes[b].received;
    assert_eq!(msgs.len(), 2);
    assert_eq!(msgs[0].1, big, "big message content corrupted");
    assert_eq!(msgs[0].3, 1);
    assert_eq!(msgs[1].1, b"tiny_msg".to_vec());
    assert_eq!(msgs[1].3, 0);
}

#[test]
fn test_keepalive_timeout_detection() {
    let config = NetworkConfig {
        heartbeat_interval_ms: 100,
        heartbeat_timeout_multiplier: 2,
        ..Default::default()
    };
    let mut net = Net::new();
    let n0 = net.add_with("ka_0", "session_ka", config);
    let n1 = net.add_with("ka_1", "session_ka", config);
    net.connect(n0, n1).unwrap();
    net.nodes[n0].statuses.clear();
    // a node that answers is heard of
    for _ in 0..5 {
        net.now_ms += 100;
        let (now_ms, now) = (net.now_ms, net.now());
        let effects = net.nodes[n0].state.ping_tick_at(now_ms, now);
        net.apply(n0, effects);
        net.run();
    }
    assert!(net.nodes[n0].statuses.is_empty());
    assert_eq!(net.nodes[n0].state.membership.get_peer_rtt(&PeerId::new("ka_1")), Some(0));
    // a node that is gone is not
    net.nodes[n1].down = true;
    for _ in 0..3 {
        net.now_ms += 100;
        let (now_ms, now) = (net.now_ms, net.now());
        let effects = net.nodes[n0].state.ping_tick_at(now_ms, now);
        net.apply(n0, effects);
        net.run();
    }
    assert!(net.nodes[n0]
        .statuses
        .contains(&("ka_1".into(), PeerStatus::Disconnected.as_i32())));
}

#[test]
fn test_version_mismatch_then_recovery() {
    let mut net = Net::new();
    let node = net.add("vm_server", "session_vm");
    let hs = encode_internal(
        &InternalMessage::Handshake {
            peer_id: "vm_bad".into(),
            listen_port: 9999,
            protocol_version: 999,
            session_id: "session_vm".into(),
        },
        NetworkConfig::default().max_message_size,
    )
    .unwrap();
    let Ok(Inbound::Handshake(reply)) = net.nodes[node].state.transport.handle_first_packet(&hs)
    else {
        panic!("expected response");
    };
    assert!(reply.outcome.is_err());
    let good = net.add("vm_good", "session_vm");
    net.connect(good, node).unwrap();
    assert!(net.knows(node, "vm_good"));
}

#[test]
fn test_manual_leader_survives_heartbeat() {
    let config = NetworkConfig { auto_election_enabled: false, ..Default::default() };
    let mut net = Net::new();
    let n0 = net.add_with("manual_leader_survives_heartbeat_0", "session", config);
    let n1 = net.add_with("manual_leader_survives_heartbeat_1", "session", config);
    net.connect(n0, n1).unwrap();

    let manual_leader = PeerId::new("manual_leader_survives_heartbeat_0");
    let (term, lid, aid) = net.nodes[n0].state.leader_election.set_leader(&manual_leader);
    let assign = encode_internal(
        &InternalMessage::LeaderAssign { term, leader_id: lid, assigner_id: aid },
        config.max_message_size,
    )
    .unwrap();
    let sent = net.nodes[n0].state.transport.broadcast(assign, None);
    net.queue(n0, sent);
    net.run();
    assert_eq!(net.nodes[n0].state.leader_election.leader_id().as_ref(), Some(&manual_leader));
    assert_eq!(net.nodes[n1].state.leader_election.leader_id().as_ref(), Some(&manual_leader));

    let election = &mut net.nodes[n0].state.leader_election;
    let foreign_term = election.current_term() + 10;
    let accepted = election.handle_heartbeat(foreign_term, "manual_leader_survives_heartbeat_1");
    assert!(!accepted, "manual override node should reject foreign heartbeat");
    assert_eq!(election.leader_id().as_ref(), Some(&manual_leader));
}

#[test]
fn test_already_connected_inbound() {
    let mut net = Net::new();
    let a = net.add("peer_a", "session");
    let b = net.add("peer_b", "session");
    net.connect(b, a).unwrap();
    let result = net.connect(b, a);
    assert!(
        matches!(result, Err(NetworkError::AlreadyConnected(ref id)) if id == "peer_a"),
        "expected AlreadyConnected"
    );
    assert!(net.nodes[a].state.transport.has_peer(&PeerId::new("peer_b")));
    assert!(net.nodes[b].state.transport.has_peer(&PeerId::new("peer_a")));
}

#[test]
fn test_already_connected_outbound() {
    let mut net = Net::new();
    let a = net.add("peer_a", "session");
    let b = net.add("peer_b", "session");
    net.connect(a, b).unwrap();
    let result = net.connect(a, b);
    assert!(
        matches!(result, Err(NetworkError::AlreadyConnected(ref id)) if id == "peer_b"),
        "expected AlreadyConnected"
    );
    assert_eq!(net.nodes[a].state.transport.connection_count(), 1);
    assert_eq!(net.nodes[b].state.transport.connection_count(), 1);
}

#[test]
fn test_data_channel_established_after_connect() {
    let mut net = Net::new();
    let a = net.add("peer_a", "session");
    let b = net.add("peer_b", "session");
    net.connect(b, a).unwrap();
    assert!(net.nodes[a].state.transport.has_data_channel(&PeerId::new("peer_b")));
    assert!(net.nodes[b].state.transport.has_data_channel(&PeerId::new("peer_a")));
}

#[test]
fn test_data_channel_works_at_max_connections() {
    let config = NetworkConfig { max_connections: 2, ..NetworkConfig::default() };
    let mut net = Net::new();
    let a = net.add_with("peer_a", "session_dc", config);
    let b = net.add_with("peer_b", "session_dc", config);
    let c = net.add_with("peer_c", "session_dc", config);
    net.connect(b, a).unwrap();
    net.connect(c, a).unwrap();
    net.run();
    assert_eq!(net.nodes[a].state.transport.connection_count(), 2);
    assert!(net.nodes[a].state.transport.has_data_channel(&PeerId::new("peer_b")));
    assert!(net.nodes[a].state.transport.has_data_channel(&PeerId::new("peer_c")));
    let target = net.to(a);
    net.send(b, target, 0x0100, b"at-limit", 0);
    assert!(net.nodes[a].received.iter().any(|(_, d, _, _)| d == b"at-limit"));
}

#[test]
fn heartbeats_come_from_the_leader_only() {
    let mut net = elect("hb", 3);
    let now_ms = net.now_ms;
    assert!(net.nodes[0].state.heartbeat_tick_at(now_ms).send.is_empty());
    let effects = net.nodes[1].state.heartbeat_tick_at(now_ms);
    assert_eq!(effects.send.len(), 2);
    assert_eq!(
        decode_internal(&effects.send[0].packet).unwrap(),
        InternalMessage::Heartbeat { term: 1, leader_id: "hb_1".into(), timestamp_ms: now_ms }
    );
    net.apply(1, effects);
    net.run();
    assert_eq!(net.leader_of(2), Some(String::from("hb_1")));
}

#[test]
fn election_timeouts_are_within_bounds() {
    let config = NetworkConfig {
        election_timeout_min_ms: 1500,
        election_timeout_max_ms: 1510,
        ..Default::default()
    };
    let mut net = Net::new();
    let a = net.add_with("a", "s", config);
    let mut seen = Vec::new();
    for _ in 0..500 {
        let t = net.nodes[a].state.election_timeout_ms();
        assert!((1500..=1510).contains(&t));
        seen.push(t);
    }
    assert!(seen.iter().any(|t| *t != seen[0]));
}

#[test]
fn the_clocks_of_a_node_run() {
    let mut net = Net::new();
    let a = net.add("a", "s");
    let b = net.add("b", "s");
    net.connect(a, b).unwrap();
    let effects = net.nodes[a].state.ping_tick();
    assert_eq!(effects.send.len(), 1);
    match decode_internal(&effects.send[0].packet).unwrap() {
        // some time after the year 2020
        InternalMessage::Ping { timestamp_ms } => assert!(timestamp_ms > 1_577_836_800_000),
        _ => panic!("expected Ping"),
    }
    let clock = net.nodes[a].state.clock;
    let t = clock.now();
    let mut later = clock.now();
    while later <= t {
        later = clock.now();
    }
}

#[test]
fn undecodable_packets_are_ignored() {
    let mut net = Net::new();
    let a = net.add("a", "s");
    let from = PeerId::new("b");
    net.hand_in(a, &from, RawPacket::from_parts(0x0001, 0, vec![0xFF]));
    net.hand_in(a, &from, RawPacket::from_parts(0x0100, 1, vec![1, 2]));
    assert!(net.nodes[a].received.is_empty());
    assert!(net.in_flight.is_empty());
}

#[test]
fn a_lone_node_elects_itself() {
    let mut net = Net::new();
    let a = net.add("a", "s");
    net.election(a);
    assert_eq!(net.leader_of(a), Some(String::from("a")));
    assert_eq!(net.nodes[a].leaders, vec![String::from("a")]);
    assert_eq!(net.nodes[a].state.leader_election.current_term(), 1);
}

#[test]
fn a_ping_is_answered() {
    let mut net = Net::new();
    let a = net.add("a", "s");
    let b = net.add("b", "s");
    net.connect(a, b).unwrap();
    let ping = InternalMessage::Ping { timestamp_ms: 42 };
    let (now_ms, now) = (net.now_ms, net.now());
    let effects = net.nodes[b].state.handle_internal_at(&PeerId::new("a"), ping, now_ms, now);
    assert_eq!(effects.send.len(), 1);
    assert_eq!(effects.send[0].peer_id.as_str(), "a");
    assert_eq!(
        decode_internal(&effects.send[0].packet).unwrap(),
        InternalMessage::Pong { timestamp_ms: 42 }
    );
}

#[test]
fn a_message_within_the_limit_is_accepted() {
    let config = NetworkConfig { max_message_size: 100, ..Default::default() };
    let mut net = Net::new();
    let a = net.add_with("a", "s", config);
    let b = net.add_with("b", "s", config);
    net.connect(a, b).unwrap();
    let target = net.to(b);
    net.send(a, target, 0x0100, &[7; 100], 0);
    assert_eq!(net.nodes[b].received[0].1, vec![7; 100]);
    let s = &net.nodes[a].state;
    let d = s.session_router.route_message(
        &s.transport,
        &s.leader_election,
        MessageTarget::Broadcast,
        0x0100,
        &[7; 101],
        0,
    );
    assert!(matches!(d, Err(NetworkError::MessageTooLarge(101))));
}
