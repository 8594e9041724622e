use std::collections::HashSet;

use meta_mystia_network::types::{ForwardTarget, MessageTarget, PeerId, PeerInfo, PeerStatus};

#[test]
fn test_peer_id_new_and_as_str() {
    let id = PeerId::new("test_peer");
    assert_eq!(id.as_str(), "test_peer");
}

#[test]
fn test_peer_id_display() {
    let id = PeerId::new("display_peer");
    assert_eq!(format!("{}", id.to_string()), "display_peer");
}

#[test]
fn test_peer_id_from_str() {
    let id: PeerId = "from_str".into();
    assert_eq!(id.as_str(), "from_str");
}

#[test]
fn test_peer_id_from_string() {
    let id: PeerId = String::from("from_string").into();
    assert_eq!(id.as_str(), "from_string");
}

#[test]
fn test_peer_id_as_ref() {
    let id = PeerId::new("ref_test");
    let s: &str = id.as_ref();
    assert_eq!(s, "ref_test");
}

#[test]
fn test_peer_id_eq_hash() {
    let a = PeerId::new("same");
    let b = PeerId::new("same");
    assert_eq!(a, b);

    let mut set = HashSet::new();
    set.insert(a);
    assert!(set.contains(&b));
}

#[test]
fn test_peer_status_as_i32() {
    assert_eq!(PeerStatus::Connected.as_i32(), 0);
    assert_eq!(PeerStatus::Disconnected.as_i32(), 1);
    assert_eq!(PeerStatus::Reconnecting.as_i32(), 2);
    assert_eq!(PeerStatus::Handshaking.as_i32(), 3);
}

#[test]
fn test_peer_info_new_defaults() {
    let addr = String::from("127.0.0.1:8080");
    let info = PeerInfo::new(PeerId::new("p1"), addr.clone(), 7);
    assert_eq!(info.peer_id.as_str(), "p1");
    assert_eq!(info.addr, addr);
    assert_eq!(info.status, PeerStatus::Connected);
    assert!(info.rtt_ms.is_none());
    assert!(info.should_reconnect);
    assert_eq!(info.last_seen, 7);
    assert_eq!(info.connected_at, 7);
}

#[test]
fn peer_ids_are_ordered_by_their_bytes() {
    assert!(PeerId::new("peer_a").less_than(&PeerId::new("peer_b")));
    assert!(!PeerId::new("peer_b").less_than(&PeerId::new("peer_a")));
    assert!(!PeerId::new("peer_a").less_than(&PeerId::new("peer_a")));
    assert!(PeerId::new("peer").less_than(&PeerId::new("peer_a")));
    assert!(PeerId::new("").less_than(&PeerId::new("a")));
    assert!(PeerId::new("Z").less_than(&PeerId::new("a")));
    assert!(PeerId::new("z").less_than(&PeerId::new("é")));
}

#[test]
fn targets_are_cloned_as_they_are() {
    let target = MessageTarget::ToPeer(PeerId::new("x"));
    assert!(matches!(target.clone(), MessageTarget::ToPeer(p) if p.as_str() == "x"));
    assert!(matches!(MessageTarget::Broadcast.clone(), MessageTarget::Broadcast));
    assert!(matches!(MessageTarget::ToLeader.clone(), MessageTarget::ToLeader));
    let forward = ForwardTarget::ToPeer(PeerId::new("y"));
    assert!(matches!(forward.clone(), ForwardTarget::ToPeer(p) if p.as_str() == "y"));
    assert!(matches!(ForwardTarget::Broadcast.clone(), ForwardTarget::Broadcast));
}
