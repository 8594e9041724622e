use meta_mystia_network::config::NetworkConfig;
use meta_mystia_network::error::NetworkError;
use meta_mystia_network::membership::{
    current_timestamp_ms, MembershipEvent, MembershipManager, Received,
};
use meta_mystia_network::types::{PeerId, PeerStatus};

const MS: u128 = 1_000_000;

fn local(config: NetworkConfig) -> MembershipManager {
    MembershipManager::new(PeerId::new("local"), config)
}

#[test]
fn test_add_remove_peer() {
    let mut mgr = local(NetworkConfig::default());
    let addr = String::from("127.0.0.1:8080");

    assert!(mgr.add_peer(PeerId::new("peer1"), addr.clone()).is_ok());
    assert!(mgr.has_peer(&PeerId::new("peer1")));
    assert_eq!(mgr.get_connected_peer_count(), 1);

    assert!(mgr.add_peer(PeerId::new("peer1"), addr).is_err());

    mgr.remove_peer(&PeerId::new("peer1"));
    assert!(!mgr.has_peer(&PeerId::new("peer1")));
    assert_eq!(mgr.get_connected_peer_count(), 0);
}

#[test]
fn test_status_update() {
    let mut mgr = local(NetworkConfig::default());
    let addr = String::from("127.0.0.1:8080");

    mgr.add_peer(PeerId::new("peer1"), addr).unwrap();
    assert_eq!(
        mgr.get_peer_status(&PeerId::new("peer1")),
        Some(PeerStatus::Connected)
    );

    mgr.update_status(&PeerId::new("peer1"), PeerStatus::Disconnected);
    assert_eq!(
        mgr.get_peer_status(&PeerId::new("peer1")),
        Some(PeerStatus::Disconnected)
    );
    assert_eq!(mgr.get_connected_peer_count(), 0);
}

#[test]
fn test_rtt_measurement() {
    let mut mgr = local(NetworkConfig::default());
    let addr = String::from("127.0.0.1:8080");

    mgr.add_peer(PeerId::new("peer1"), addr).unwrap();
    assert_eq!(mgr.get_peer_rtt(&PeerId::new("peer1")), None);

    let ts = current_timestamp_ms().saturating_sub(50);
    mgr.handle_pong(&PeerId::new("peer1"), ts);

    let rtt = mgr.get_peer_rtt(&PeerId::new("peer1")).unwrap();
    assert!(rtt >= 40 && rtt <= 200);
}

#[test]
fn test_heartbeat_timeout_detection() {
    let mut config = NetworkConfig::default();
    config.heartbeat_interval_ms = 10;
    config.heartbeat_timeout_multiplier = 1;
    let mut mgr = local(config);
    let addr = String::from("127.0.0.1:8080");

    mgr.add_peer_at(PeerId::new("peer1"), addr, 0).unwrap();
    assert!(mgr.check_timeouts_at(0).is_empty());

    let timed_out = mgr.check_timeouts_at(20 * MS);
    assert_eq!(timed_out.len(), 1);
    assert_eq!(timed_out[0].as_str(), "peer1");
}

#[test]
fn test_update_last_seen_prevents_timeout() {
    let mut config = NetworkConfig::default();
    config.heartbeat_interval_ms = 100;
    config.heartbeat_timeout_multiplier = 1;
    let mut mgr = local(config);
    let addr = String::from("127.0.0.1:8080");

    mgr.add_peer_at(PeerId::new("peer1"), addr, 0).unwrap();
    mgr.update_last_seen_at(&PeerId::new("peer1"), 60 * MS);

    assert!(mgr.check_timeouts_at(120 * MS).is_empty());
}

#[test]
fn test_membership_events() {
    let mut mgr = local(NetworkConfig::default());
    let addr = String::from("127.0.0.1:8080");

    mgr.add_peer(PeerId::new("peer1"), addr).unwrap();
    let event = mgr.take_events().remove(0);
    assert!(matches!(event, MembershipEvent::Joined(ref p) if p.as_str() == "peer1"));

    mgr.update_status(&PeerId::new("peer1"), PeerStatus::Disconnected);
    let event = mgr.take_events().remove(0);
    assert!(
        matches!(event, MembershipEvent::StatusChanged { ref peer_id, old: PeerStatus::Connected, new: PeerStatus::Disconnected } if peer_id.as_str() == "peer1")
    );

    mgr.remove_peer(&PeerId::new("peer1"));
    let event = mgr.take_events().remove(0);
    assert!(matches!(event, MembershipEvent::Left(ref p) if p.as_str() == "peer1"));
}

#[test]
fn test_get_connected_peers() {
    let mut mgr = local(NetworkConfig::default());
    let addr = String::from("127.0.0.1:8080");

    mgr.add_peer(PeerId::new("peer1"), addr.clone()).unwrap();
    mgr.add_peer(PeerId::new("peer2"), addr).unwrap();
    mgr.update_status(&PeerId::new("peer1"), PeerStatus::Disconnected);

    let connected = mgr.get_connected_peers();
    assert_eq!(connected.len(), 1);
    assert_eq!(connected[0].as_str(), "peer2");
}

#[test]
fn the_timeout_is_exceeded_not_reached() {
    let mut mgr = local(NetworkConfig::default());
    mgr.add_peer_at(PeerId::new("peer1"), "a".into(), 5).unwrap();
    // three intervals of 500 ms
    assert!(mgr.check_timeouts_at(5 + 1500 * MS).is_empty());
    assert_eq!(mgr.check_timeouts_at(6 + 1500 * MS).len(), 1);
    // a time before the last sign of life is no delay
    assert!(mgr.check_timeouts_at(0).is_empty());
    // who is marked as gone is not reported again
    mgr.update_status(&PeerId::new("peer1"), PeerStatus::Disconnected);
    assert!(mgr.check_timeouts_at(6 + 1500 * MS).is_empty());
}

#[test]
fn a_pong_is_a_sign_of_life() {
    let mut mgr = local(NetworkConfig::default());
    mgr.add_peer_at(PeerId::new("peer1"), "a".into(), 0).unwrap();
    mgr.handle_pong_at(&PeerId::new("peer1"), 70, 100, 1000 * MS);
    assert_eq!(mgr.get_peer_rtt(&PeerId::new("peer1")), Some(30));
    assert!(mgr.check_timeouts_at(2500 * MS).is_empty());
    // a clock that was set back gives no negative time
    mgr.handle_pong_at(&PeerId::new("peer1"), 200, 100, 1000 * MS);
    assert_eq!(mgr.get_peer_rtt(&PeerId::new("peer1")), Some(0));
    mgr.handle_pong_at(&PeerId::new("other"), 0, 100, 1000 * MS);
    assert!(!mgr.has_peer(&PeerId::new("other")));
}

#[test]
fn unchanged_status_is_no_event() {
    let mut mgr = local(NetworkConfig::default());
    mgr.add_peer(PeerId::new("peer1"), "a".into()).unwrap();
    mgr.take_events();
    mgr.update_status(&PeerId::new("peer1"), PeerStatus::Connected);
    mgr.update_status(&PeerId::new("other"), PeerStatus::Disconnected);
    mgr.remove_peer(&PeerId::new("other"));
    assert!(mgr.take_events().is_empty());
}

#[test]
fn duplicate_peer_is_named() {
    let mut mgr = local(NetworkConfig::default());
    mgr.add_peer(PeerId::new("peer1"), "a".into()).unwrap();
    match mgr.add_peer(PeerId::new("peer1"), "b".into()) {
        Err(NetworkError::DuplicatePeerId(id)) => assert_eq!(id, "peer1"),
        _ => panic!("expected DuplicatePeerId"),
    }
    let list = mgr.get_peer_list();
    assert_eq!(list.len(), 1);
    assert_eq!(list[0].addr, "a");
}

#[test]
fn test_broadcast_lagged_recovery() {
    let mut mgr = local(NetworkConfig::default());

    // Send more events than there is room for
    for i in 0..300 {
        let _ = mgr.add_peer(PeerId::new(&format!("p{i}")), "127.0.0.1:8080".into());
    }

    // Drain the events: the loss must be told at some point
    let mut lagged = false;
    loop {
        match mgr.next_event() {
            Received::Event(_) => continue,
            Received::Lagged => {
                lagged = true;
                break;
            }
            Received::Empty => break,
        }
    }
    assert!(lagged, "events should have been lost");

    // The full peer list is still there for recovery
    let peers = mgr.get_peer_list();
    assert_eq!(peers.len(), 300);
}

#[test]
fn a_slow_reader_loses_the_oldest_events() {
    let mut mgr = local(NetworkConfig::default());
    assert!(matches!(mgr.next_event(), Received::Empty));
    for i in 0..256 {
        mgr.add_peer(PeerId::new(&format!("p{i}")), "a".into()).unwrap();
    }
    assert!(matches!(mgr.next_event(), Received::Event(MembershipEvent::Joined(p)) if p.as_str() == "p0"));
    for i in 256..259 {
        mgr.add_peer(PeerId::new(&format!("p{i}")), "a".into()).unwrap();
    }
    assert!(matches!(mgr.next_event(), Received::Lagged));
    assert!(matches!(mgr.next_event(), Received::Event(MembershipEvent::Joined(p)) if p.as_str() == "p3"));
    let rest = mgr.take_events();
    assert_eq!(rest.len(), 255);
    assert!(matches!(&rest[254], MembershipEvent::Joined(p) if p.as_str() == "p258"));
    assert!(matches!(mgr.next_event(), Received::Empty));

    for i in 300..600 {
        mgr.add_peer(PeerId::new(&format!("p{i}")), "a".into()).unwrap();
    }
    assert_eq!(mgr.take_events().len(), 256);
    assert!(matches!(mgr.next_event(), Received::Empty));
}

#[test]
fn the_clock_of_the_table_runs() {
    let mut config = NetworkConfig::default();
    config.heartbeat_interval_ms = 10;
    config.heartbeat_timeout_multiplier = 1;
    let mut mgr = local(config);
    mgr.add_peer(PeerId::new("peer1"), "a".into()).unwrap();
    while mgr.check_timeouts().is_empty() {}
    mgr.update_last_seen(&PeerId::new("peer1"));
    assert!(mgr.check_timeouts().is_empty());
}
