use meta_mystia_network::config::NetworkConfig;
use meta_mystia_network::discovery::{DiscoveryManager, ResolvedService, SERVICE_TYPE};
use meta_mystia_network::error::NetworkError;
use meta_mystia_network::membership::MembershipManager;
use meta_mystia_network::types::PeerId;

fn make_membership(peer_id: &str) -> MembershipManager {
    MembershipManager::new(PeerId::new(peer_id), NetworkConfig::default())
}

#[test]
fn test_discovery_same_session_connects() {
    let membership = make_membership("peer_a");
    assert!(DiscoveryManager::should_connect_to_discovered_peer(
        &PeerId::new("peer_a"),
        "session1",
        "peer_b",
        "session1",
        &membership,
    ));
}

#[test]
fn test_discovery_different_session_rejects() {
    let membership = make_membership("peer_a");
    assert!(!DiscoveryManager::should_connect_to_discovered_peer(
        &PeerId::new("peer_a"),
        "session1",
        "peer_b",
        "session2",
        &membership,
    ));
}

#[test]
fn test_discovery_self_excluded() {
    let membership = make_membership("peer_a");
    assert!(!DiscoveryManager::should_connect_to_discovered_peer(
        &PeerId::new("peer_a"),
        "session1",
        "peer_a",
        "session1",
        &membership,
    ));
}

#[test]
fn test_discovery_already_connected_skipped() {
    let mut membership = make_membership("peer_a");
    let addr = String::from("127.0.0.1:8080");
    membership.add_peer(PeerId::new("peer_b"), addr).unwrap();

    assert!(!DiscoveryManager::should_connect_to_discovered_peer(
        &PeerId::new("peer_a"),
        "session1",
        "peer_b",
        "session1",
        &membership,
    ));
}

#[test]
fn test_discovery_lexicographic_dedup() {
    let membership = make_membership("peer_b");
    // peer_b > peer_a → peer_b should NOT initiate (peer_a should)
    assert!(!DiscoveryManager::should_connect_to_discovered_peer(
        &PeerId::new("peer_b"),
        "session1",
        "peer_a",
        "session1",
        &membership,
    ));

    // peer_a < peer_b → peer_a SHOULD initiate
    let membership2 = make_membership("peer_a");
    assert!(DiscoveryManager::should_connect_to_discovered_peer(
        &PeerId::new("peer_a"),
        "session1",
        "peer_b",
        "session1",
        &membership2,
    ));
}

#[test]
fn test_connect_to_discovery_server_not_implemented() {
    let result = DiscoveryManager::connect_to_discovery_server("1.2.3.4:5000");
    assert!(matches!(result, Err(NetworkError::NotImplemented)));
}

#[test]
fn service_is_advertised_under_session_and_name() {
    let d = DiscoveryManager::new(PeerId::new("peer_a"), "session1".into(), 4242);
    let record = d.service_record(Some("box".into()));
    assert_eq!(record.service_type, "_meta-mystia._tcp.local.");
    assert_eq!(record.instance_name, "session1_peer_a");
    assert_eq!(record.host_name, "box.local.");
    assert_eq!(record.port, 4242);
    assert_eq!(
        record.properties,
        vec![
            (String::from("peer_id"), String::from("peer_a")),
            (String::from("session_id"), String::from("session1")),
            (String::from("protocol_version"), String::from("1")),
        ]
    );
    assert_eq!(d.service_record(None).host_name, "unknown.local.");
    assert_eq!(d.full_name(), format!("session1_peer_a.{SERVICE_TYPE}"));
}

fn found(session: Option<&str>, peer: Option<&str>, addresses: &[&str]) -> ResolvedService {
    ResolvedService {
        session_id: session.map(String::from),
        peer_id: peer.map(String::from),
        addresses: addresses.iter().map(|a| String::from(*a)).collect(),
        port: 99,
    }
}

#[test]
fn address_of_a_found_peer() {
    let membership = make_membership("peer_a");
    let d = DiscoveryManager::new(PeerId::new("peer_a"), "session1".into(), 4242);
    let s = Some("session1");
    let p = Some("peer_b");
    assert_eq!(
        d.connect_target(&found(s, p, &["10.0.0.1", "10.0.0.2"]), &membership),
        Some(String::from("10.0.0.1:99"))
    );
    assert_eq!(d.connect_target(&found(s, p, &[]), &membership), None);
    assert_eq!(d.connect_target(&found(None, p, &["10.0.0.1"]), &membership), None);
    assert_eq!(d.connect_target(&found(s, None, &["10.0.0.1"]), &membership), None);
    assert_eq!(
        d.connect_target(&found(Some("other"), p, &["10.0.0.1"]), &membership),
        None
    );
}
