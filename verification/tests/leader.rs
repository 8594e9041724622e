use meta_mystia_network::config::{ManualOverrideRecovery, NetworkConfig};
use meta_mystia_network::leader::{LeaderElection, Role};
use meta_mystia_network::membership::MembershipManager;
use meta_mystia_network::types::{PeerId, PeerStatus};

fn create_election(peer_id: &str) -> LeaderElection {
    LeaderElection::new(PeerId::new(peer_id), true, ManualOverrideRecovery::Hold)
}

#[test]
fn test_initial_state() {
    let election = create_election("peer1");
    assert_eq!(election.role(), Role::Follower);
    assert_eq!(election.current_term(), 0);
    assert!(election.leader_id().is_none());
    assert!(!election.is_leader());
}

#[test]
fn test_start_election_single_node() {
    let mut election = create_election("peer1");
    let result = election.start_election(0);
    assert!(result.is_none());
    assert_eq!(election.role(), Role::Leader);
    assert!(election.is_leader());
}

#[test]
fn test_start_election_two_nodes() {
    let mut election = create_election("peer1");
    let result = election.start_election(1);
    assert!(result.is_none());
    assert_eq!(election.role(), Role::Leader);
}

#[test]
fn test_start_election_three_nodes() {
    let mut election = create_election("peer1");
    let result = election.start_election(2);
    assert!(result.is_some());
    assert_eq!(election.role(), Role::Candidate);

    let (term, candidate) = result.unwrap();
    assert_eq!(term, 1);
    assert_eq!(candidate, "peer1");
}

#[test]
fn test_vote_response_majority() {
    let mut election = create_election("peer1");
    election.start_election(2);

    let became_leader = election.handle_vote_response(1, "peer2", true, 2);
    assert!(became_leader);
    assert_eq!(election.role(), Role::Leader);
}

#[test]
fn test_handle_heartbeat() {
    let mut election = create_election("peer1");
    let accepted = election.handle_heartbeat(1, "peer2");
    assert!(accepted);
    assert_eq!(election.role(), Role::Follower);
    assert_eq!(election.leader_id().unwrap().as_str(), "peer2");
}

#[test]
fn test_higher_term_steps_down() {
    let mut election = create_election("peer1");
    election.start_election(0);
    assert_eq!(election.role(), Role::Leader);

    let accepted = election.handle_heartbeat(2, "peer2");
    assert!(accepted);
    assert_eq!(election.role(), Role::Follower);
}

#[test]
fn test_manual_set_leader() {
    let mut election = create_election("peer1");
    let (term, lid, aid) = election.set_leader(&PeerId::new("peer2"));
    assert_eq!(term, 1);
    assert_eq!(lid, "peer2");
    assert_eq!(aid, "peer1");
    assert_eq!(election.leader_id().unwrap().as_str(), "peer2");
    assert_eq!(election.role(), Role::Follower);
}

#[test]
fn test_manual_set_leader_self() {
    let mut election = create_election("peer1");
    election.set_leader(&PeerId::new("peer1"));
    assert_eq!(election.role(), Role::Leader);
    assert!(election.is_leader());
}

#[test]
fn test_majority_threshold() {
    assert_eq!(LeaderElection::majority_threshold(1), 1);
    assert_eq!(LeaderElection::majority_threshold(2), 1);
    assert_eq!(LeaderElection::majority_threshold(3), 2);
    assert_eq!(LeaderElection::majority_threshold(5), 3);
    assert_eq!(LeaderElection::majority_threshold(7), 4);
}

#[test]
fn test_leader_failover() {
    let mut election = create_election("peer1");
    election.handle_heartbeat(1, "peer2");
    assert_eq!(election.leader_id().unwrap().as_str(), "peer2");

    election.handle_peer_left(&PeerId::new("peer2"));
    assert!(election.leader_id().is_none());
}

#[test]
fn test_split_brain_recovery() {
    let mut e1 = create_election("peer_a");
    e1.start_election(0);
    assert!(e1.is_leader());
    let term_a = e1.current_term();

    let mut e2 = create_election("peer_b");
    e2.start_election(0);
    assert!(e2.is_leader());
    let term_b = e2.current_term();

    assert_eq!(term_a, term_b);

    let accepted = e1.handle_heartbeat(term_b, "peer_b");
    assert!(accepted);
    assert_eq!(e1.role(), Role::Follower);
    assert_eq!(e1.leader_id().unwrap().as_str(), "peer_b");
}

#[test]
fn test_vote_rejected_lower_term() {
    let mut election = create_election("peer1");
    election.handle_heartbeat(5, "peer2");
    let (resp_term, granted) = election.handle_request_vote(3, "peer3");
    assert_eq!(resp_term, 5);
    assert!(!granted);
}

#[test]
fn test_vote_rejected_already_voted() {
    let mut election = create_election("peer1");
    let (_, granted1) = election.handle_request_vote(1, "peer2");
    assert!(granted1);
    let (_, granted2) = election.handle_request_vote(1, "peer3");
    assert!(!granted2);
}

#[test]
fn test_manual_override_blocks_election() {
    let mut election = create_election("peer1");
    election.set_leader(&PeerId::new("peer2"));
    assert!(election.is_manual_override());

    let result = election.start_election(2);
    assert!(result.is_none());
    assert_ne!(election.role(), Role::Candidate);
}

#[test]
fn test_enable_auto_election_preserves_override_with_leader() {
    let mut election = create_election("peer1");
    election.set_leader(&PeerId::new("peer2"));

    election.enable_auto_election(true);
    assert!(election.is_auto_election_enabled());
    assert!(election.is_manual_override());
}

#[test]
fn test_enable_auto_election_after_leader_gone() {
    let mut election = create_election("peer1");
    election.set_leader(&PeerId::new("peer2"));
    election.handle_peer_left(&PeerId::new("peer2"));

    election.enable_auto_election(true);
    assert!(election.is_auto_election_enabled());
    assert!(!election.is_manual_override());
}

#[test]
fn test_leader_assign() {
    let mut election = create_election("peer1");
    election.handle_leader_assign(5, "peer3", "peer2");
    assert_eq!(election.leader_id().unwrap().as_str(), "peer3");
    assert_eq!(election.current_term(), 5);
    assert_eq!(election.role(), Role::Follower);
    assert!(election.is_manual_override());
}

#[test]
fn majorities_of_other_sizes() {
    assert_eq!(LeaderElection::majority_threshold(0), 1);
    assert_eq!(LeaderElection::majority_threshold(4), 3);
    assert_eq!(LeaderElection::majority_threshold(6), 4);
}

#[test]
fn held_override_outlives_the_leader() {
    let mut election = create_election("peer1");
    election.set_leader(&PeerId::new("peer2"));
    election.handle_peer_left(&PeerId::new("peer2"));
    assert!(election.leader_id().is_none());
    assert!(election.is_manual_override());
    assert!(election.start_election(2).is_none());
    assert_eq!(election.role(), Role::Follower);
}

#[test]
fn auto_elect_recovery_clears_the_override() {
    let mut election =
        LeaderElection::new(PeerId::new("peer1"), true, ManualOverrideRecovery::AutoElect);
    election.set_leader(&PeerId::new("peer2"));
    election.handle_peer_left(&PeerId::new("peer3"));
    assert!(election.is_manual_override());
    election.handle_peer_left(&PeerId::new("peer2"));
    assert!(!election.is_manual_override());
    assert!(election.leader_id().is_none());
    assert!(election.start_election(2).is_some());
}

#[test]
fn terms_never_decrease() {
    let mut election = create_election("peer1");
    let mut last = election.current_term();
    election.handle_heartbeat(7, "peer2");
    assert!(election.current_term() >= last);
    last = election.current_term();
    assert!(!election.handle_heartbeat(3, "peer3"));
    assert_eq!(election.current_term(), last);
    // an assignment of an older term takes effect, but the term stays
    election.handle_leader_assign(5, "peer4", "peer2");
    assert_eq!(election.current_term(), last);
    assert_eq!(election.leader_id().unwrap().as_str(), "peer4");
    election.handle_request_vote(9, "peer5");
    assert_eq!(election.current_term(), 9);
    assert!(!election.handle_vote_response(12, "peer6", true, 2));
    assert_eq!(election.current_term(), 12);
}

#[test]
fn a_vote_can_be_repeated_for_the_same_candidate() {
    let mut election = create_election("peer1");
    assert_eq!(election.handle_request_vote(1, "peer2"), (1, true));
    assert_eq!(election.handle_request_vote(1, "peer2"), (1, true));
    assert_eq!(election.handle_request_vote(1, "peer3"), (1, false));
    assert_eq!(election.handle_request_vote(2, "peer3"), (2, true));
}

#[test]
fn a_vote_counts_once() {
    let mut election = create_election("peer1");
    election.start_election(4);
    assert!(!election.handle_vote_response(1, "peer2", true, 4));
    assert!(!election.handle_vote_response(1, "peer2", true, 4));
    assert!(!election.handle_vote_response(1, "peer3", false, 4));
    assert!(!election.handle_vote_response(0, "peer4", true, 4));
    assert_eq!(election.role(), Role::Candidate);
    assert!(election.handle_vote_response(1, "peer4", true, 4));
    assert!(election.is_leader());
    assert!(!election.handle_vote_response(1, "peer5", true, 4));
}

#[test]
fn split_brain_is_healed_on_both_sides() {
    let mut a = create_election("peer_a");
    let mut b = create_election("peer_b");
    a.start_election(0);
    b.start_election(0);
    // the greater name wins within a term
    assert!(!b.handle_heartbeat(1, "peer_a"));
    assert!(b.is_leader());
    assert!(a.handle_heartbeat(1, "peer_b"));
    assert!(!a.is_leader());
}

#[test]
fn changes_of_the_leader_are_noted() {
    let mut election = create_election("peer1");
    election.handle_heartbeat(1, "peer2");
    election.handle_heartbeat(1, "peer2");
    election.handle_peer_left(&PeerId::new("peer2"));
    election.start_election(0);
    let notices = election.take_notices();
    let names: Vec<Option<&str>> = notices.iter().map(|n| n.as_ref().map(|p| p.as_str())).collect();
    assert_eq!(names, vec![Some("peer2"), None, Some("peer1")]);
    assert!(election.take_notices().is_empty());
}

#[test]
fn membership_events_change_the_count_and_the_leader() {
    let mut election = create_election("peer1");
    election.handle_heartbeat(1, "peer2");
    let mut count: usize = 1;
    let mut table = MembershipManager::new(PeerId::new("peer1"), NetworkConfig::default());
    table.add_peer(PeerId::new("peer2"), "a".into()).unwrap();
    table.take_events();
    table.add_peer(PeerId::new("peer3"), "a".into()).unwrap();
    table.update_status(&PeerId::new("peer3"), PeerStatus::Disconnected);
    table.remove_peer(&PeerId::new("peer2"));
    election.drain_membership_events(&mut table, &mut count);
    assert!(election.leader_id().is_none());
    assert_eq!(count, 1);
    assert!(table.take_events().is_empty());
}

#[test]
fn lost_membership_events_are_acknowledged_first() {
    let mut election = create_election("peer1");
    election.handle_heartbeat(1, "p0");
    let mut table = MembershipManager::new(PeerId::new("peer1"), NetworkConfig::default());
    for i in 0..300 {
        table.add_peer(PeerId::new(&format!("p{i}")), "a".into()).unwrap();
    }
    table.remove_peer(&PeerId::new("p0"));
    let mut count: usize = 45;
    election.drain_membership_events(&mut table, &mut count);
    assert_eq!(count, 45);
    assert!(election.leader_id().is_some());
    election.drain_membership_events(&mut table, &mut count);
    assert_eq!(count, 299);
    assert!(election.leader_id().is_none());
}

#[test]
fn a_notice_without_room_is_dropped() {
    let mut election = create_election("peer1");
    for i in 0..17 {
        election.handle_heartbeat(i + 1, &format!("l{i}"));
    }
    assert_eq!(election.leader_id().unwrap().as_str(), "l16");
    let notices = election.take_notices();
    assert_eq!(notices.len(), 16);
    assert_eq!(notices[0].as_ref().unwrap().as_str(), "l0");
    assert_eq!(notices[15].as_ref().unwrap().as_str(), "l15");
    election.handle_peer_left(&PeerId::new("l16"));
    assert_eq!(election.take_notices().len(), 1);
}

#[test]
fn disabled_election_does_not_start() {
    let mut election =
        LeaderElection::new(PeerId::new("peer1"), false, ManualOverrideRecovery::Hold);
    assert!(election.start_election(0).is_none());
    assert_eq!(election.role(), Role::Follower);
    assert_eq!(election.current_term(), 0);
    election.enable_auto_election(true);
    assert!(election.start_election(0).is_none());
    assert!(election.is_leader());
}

#[test]
fn a_candidate_asks_no_more_once_elections_are_off() {
    let mut election = create_election("peer1");
    assert_eq!(election.start_election(2), Some((1, String::from("peer1"))));
    election.enable_auto_election(false);
    assert_eq!(election.start_election(2), None);
    assert_eq!(election.role(), Role::Candidate);
    assert_eq!(election.current_term(), 1);
}
