use bytes::Bytes;
use meta_mystia_network::callback::{
    CallbackCall, CallbackEvent, CallbackManager, EVENT_QUEUE_CAPACITY,
};
use meta_mystia_network::types::PeerId;

fn all_calls(mgr: &mut CallbackManager) -> Vec<Option<CallbackCall>> {
    let mut calls = Vec::new();
    while let Some(event) = mgr.next_event() {
        calls.push(mgr.dispatch_event(event));
    }
    calls
}

#[test]
fn test_registration_and_delivery() {
    let mut mgr = CallbackManager::new();
    mgr.register_connection_result_callback(true);
    mgr.register_leader_changed_callback(true);
    mgr.register_peer_status_callback(true);
    mgr.register_receive_callback(true);

    mgr.send_connection_result("foo", true, 0);
    mgr.send_leader_changed(Some(&PeerId::new("x")));
    mgr.send_peer_status(&PeerId::new("y"), 5);
    mgr.send_received(&PeerId::new("z"), Bytes::from(&b"hi"[..]), 0x100, 3);

    let calls = all_calls(&mut mgr);
    mgr.drain_and_shutdown();
    assert_eq!(calls.len(), 4);
    assert!(
        matches!(&calls[0], Some(CallbackCall::ConnectionResult { addr, success: 1, error_code: 0 }) if addr == "foo")
    );
    assert!(matches!(&calls[1], Some(CallbackCall::LeaderChanged { leader_id }) if leader_id == "x"));
    assert!(
        matches!(&calls[2], Some(CallbackCall::PeerStatusChanged { peer_id, status: 5 }) if peer_id == "y")
    );
    assert!(
        matches!(&calls[3], Some(CallbackCall::Received { peer_id, data, length: 2, msg_type: 0x100, flags: 3 }) if peer_id == "z" && &data[..] == b"hi")
    );
}

#[test]
fn test_unregister_and_shutdown() {
    let mut mgr = CallbackManager::new();
    mgr.register_connection_result_callback(false);
    mgr.register_leader_changed_callback(false);
    mgr.register_peer_status_callback(false);
    mgr.register_receive_callback(false);

    // sending events with no callbacks should not panic
    mgr.send_event(CallbackEvent::ConnectionResult {
        addr: "a".into(),
        success: false,
        error_code: 1,
    });

    let calls = all_calls(&mut mgr);
    assert!(calls.len() == 1 && calls[0].is_none());
    mgr.drain_and_shutdown();
}

#[test]
fn test_ffi_callbacks() {
    let mut cb = CallbackManager::new();
    cb.register_receive_callback(true);
    cb.send_received(&PeerId::new("test_peer"), Bytes::from_static(b"hello"), 0x0100, 0);
    let calls = all_calls(&mut cb);
    let receive_count = calls.iter().filter(|c| matches!(c, Some(CallbackCall::Received { .. }))).count();
    assert!(receive_count > 0, "receive callback should have been invoked");
    cb.register_receive_callback(false);
    cb.drain_and_shutdown();
}

#[test]
fn no_leader_is_an_empty_name() {
    let mut mgr = CallbackManager::new();
    mgr.register_leader_changed_callback(true);
    mgr.send_leader_changed(None);
    let calls = all_calls(&mut mgr);
    assert!(matches!(&calls[0], Some(CallbackCall::LeaderChanged { leader_id }) if leader_id.is_empty()));
}

#[test]
fn names_with_a_nul_byte_are_not_passed_on() {
    let mut mgr = CallbackManager::new();
    mgr.register_peer_status_callback(true);
    mgr.send_peer_status(&PeerId::new("a\0b"), 1);
    let calls = all_calls(&mut mgr);
    assert!(calls.len() == 1 && calls[0].is_none());
}

#[test]
fn a_full_queue_drops_events() {
    let mut mgr = CallbackManager::new();
    for i in 0..(EVENT_QUEUE_CAPACITY as i32 + 10) {
        mgr.send_peer_status(&PeerId::new("p"), i);
    }
    let mut statuses = Vec::new();
    while let Some(event) = mgr.next_event() {
        if let CallbackEvent::PeerStatusChanged { status, .. } = event {
            statuses.push(status);
        }
    }
    let expected: Vec<i32> = (0..EVENT_QUEUE_CAPACITY as i32).collect();
    assert_eq!(statuses, expected);
}

#[test]
fn no_event_is_handed_out_after_the_shutdown() {
    let mut mgr = CallbackManager::new();
    mgr.send_peer_status(&PeerId::new("p"), 1);
    mgr.send_peer_status(&PeerId::new("p"), 2);
    assert!(matches!(
        mgr.next_event(),
        Some(CallbackEvent::PeerStatusChanged { status: 1, .. })
    ));
    assert!(!mgr.is_shut_down());
    mgr.drain_and_shutdown();
    assert!(mgr.is_shut_down());
    mgr.send_peer_status(&PeerId::new("p"), 3);
    assert!(mgr.next_event().is_none());
}
