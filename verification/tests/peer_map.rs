use meta_mystia_network::peer_map::PeerMap;
use meta_mystia_network::types::PeerId;

fn keys(m: &PeerMap<u32>) -> Vec<String> {
    (0..m.len()).map(|i| m.key_at(i).to_string()).collect()
}

#[test]
fn entries_are_found_and_replaced() {
    let mut m: PeerMap<u32> = PeerMap::new();
    let (a, b) = (PeerId::new("a"), PeerId::new("b"));
    assert!(m.get(&a).is_none());
    m.insert(a.clone(), 1);
    m.insert(b.clone(), 2);
    m.insert(a.clone(), 3);
    assert_eq!(m.len(), 2);
    assert_eq!(m.get(&a), Some(&3));
    assert_eq!(*m.value_at(1), 2);
    assert_eq!(keys(&m), vec!["a", "b"]);
    *m.get_mut(&b).unwrap() += 5;
    assert_eq!(m.get(&b), Some(&7));
    assert!(m.get_mut(&PeerId::new("c")).is_none());
}

#[test]
fn removing_undoes_inserting() {
    let mut m: PeerMap<u32> = PeerMap::new();
    for (i, name) in ["a", "b", "c"].iter().enumerate() {
        m.insert(PeerId::new(name), i as u32);
    }
    let before = keys(&m);
    m.insert(PeerId::new("d"), 9);
    assert!(m.contains(&PeerId::new("d")));
    assert_eq!(m.remove(&PeerId::new("d")), Some(9));
    assert_eq!(m.remove(&PeerId::new("d")), None);
    assert_eq!(keys(&m), before);
    assert_eq!(m.remove(&PeerId::new("b")), Some(1));
    assert_eq!(keys(&m), vec!["a", "c"]);
    m.clear();
    assert_eq!(m.len(), 0);
}
