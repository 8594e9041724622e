use meta_mystia_network::config::{ManualOverrideRecovery, NetworkConfig};
use meta_mystia_network::error::{error_codes, NetworkError};
use meta_mystia_network::ffi::{
    c_str_to_string, is_readable, return_string, CData, CText, FfiState, NetworkConfigFFI,
};
use meta_mystia_network::session_router::Delivery;
use meta_mystia_network::transport::SendOutcome;
use meta_mystia_network::types::PeerId;
use meta_mystia_network::NetworkState;

fn text(s: &str) -> CText {
    CText::Valid(s.into())
}

fn start(state: &mut FfiState, peer: &str, session: &str, config: Option<NetworkConfig>) -> i32 {
    match state.begin_initialize(text(peer), text(session), config) {
        Ok((p, s, c)) => {
            let node = NetworkState::new(p, s, c, "127.0.0.1:4000".into(), 4000);
            state.finish_initialize(Ok(node))
        }
        Err(code) => code,
    }
}

fn stop(state: &mut FfiState) -> i32 {
    match state.shutdown_network() {
        Ok(mut node) => {
            node.begin_shutdown();
            node.finish_shutdown();
            error_codes::OK
        }
        Err(code) => code,
    }
}

#[test]
fn test_c_str_to_string_null() {
    let err = c_str_to_string(CText::Null);
    assert!(matches!(err, Err(NetworkError::InvalidArgument(_))));
}

#[test]
fn test_return_string_and_last_error() {
    assert_eq!(return_string("hello".into()), "hello");

    let mut state = FfiState::new();
    state.set_error(123, "oops");
    let pair = state.last_error.as_ref().unwrap();
    assert_eq!(pair.0, 123);
    assert_eq!(pair.1, "oops");
}

#[test]
fn test_ffi_error_codes_not_initialized() {
    let state = FfiState::new();
    assert_eq!(state.is_network_initialized(), 0);
    assert!(state.get_local_addr().is_none());
}

fn ffi_config() -> NetworkConfigFFI {
    let d = NetworkConfig::default();
    NetworkConfigFFI {
        heartbeat_interval_ms: d.heartbeat_interval_ms,
        election_timeout_min_ms: d.election_timeout_min_ms,
        election_timeout_max_ms: d.election_timeout_max_ms,
        reconnect_initial_ms: d.reconnect_initial_ms,
        reconnect_max_ms: d.reconnect_max_ms,
        compression_threshold: 256, // intentionally non-default
        heartbeat_timeout_multiplier: d.heartbeat_timeout_multiplier,
        send_queue_capacity: 512, // intentionally non-default
        max_connections: d.max_connections as u32,
        max_message_size: d.max_message_size,
        centralized_auto_forward: 1,
        auto_election_enabled: 1,
        mdns_port: d.mdns_port,
        manual_override_recovery: 0,
        _padding: [0; 3],
        handshake_timeout_ms: d.handshake_timeout_ms,
    }
}

#[test]
fn test_ffi_full_lifecycle() {
    let mut state = FfiState::new();

    // --- Phase 1: getters/setters ---
    let r = start(&mut state, "ffi_lc_peer", "ffi_lc_session", None);
    assert_eq!(r, error_codes::OK);

    assert!(state.get_local_addr().is_some());
    assert!(state.get_local_peer_id().is_some());
    assert!(state.get_session_id().is_some());
    assert_eq!(state.get_local_peer_id().unwrap(), "ffi_lc_peer");
    assert_eq!(state.get_session_id().unwrap(), "ffi_lc_session");

    assert_eq!(state.get_peer_count(), 0);
    assert!(state.get_peer_list().is_some());
    assert!(state.get_current_leader().is_some());
    assert_eq!(state.is_leader(), 0);
    assert_eq!(state.is_centralized_mode(), 0);
    assert_eq!(state.is_centralized_auto_forward(), 1);

    assert_eq!(state.set_centralized_mode(1), error_codes::OK);
    assert_eq!(state.is_centralized_mode(), 1);
    assert_eq!(state.set_centralized_mode(0), error_codes::OK);
    assert_eq!(state.is_centralized_mode(), 0);

    assert_eq!(state.set_centralized_auto_forward(0), error_codes::OK);
    assert_eq!(state.is_centralized_auto_forward(), 0);
    assert_eq!(state.set_centralized_auto_forward(1), error_codes::OK);
    assert_eq!(state.is_centralized_auto_forward(), 1);

    assert_eq!(state.set_compression_threshold(1024), error_codes::OK);

    assert_eq!(state.enable_auto_leader_election(0), error_codes::OK);
    assert_eq!(state.enable_auto_leader_election(1), error_codes::OK);

    assert_eq!(state.get_peer_rtt(text("unknown_peer")), -1);
    assert_eq!(state.get_peer_status(text("unknown_peer")), -1);

    assert_eq!(stop(&mut state), error_codes::OK);

    // --- Phase 2: with a configuration ---
    let config = ffi_config();
    let r = start(
        &mut state,
        "ffi_lc_peer",
        "ffi_lc_session",
        Some(NetworkConfig::from(&config)),
    );
    assert_eq!(r, error_codes::OK);
    assert_eq!(stop(&mut state), error_codes::OK);

    // null config
    assert_eq!(state.reject_null_config(), error_codes::INVALID_ARGUMENT);

    // --- Phase 3: null args ---
    let r = state.begin_initialize(CText::Null, CText::Null, None);
    assert!(matches!(r, Err(error_codes::INVALID_ARGUMENT)));

    // --- Phase 4: not initialized ---
    assert_eq!(stop(&mut state), error_codes::NOT_INITIALIZED);
    let (r, _) = state.broadcast_message(CData::Invalid, 0x0100, 0);
    assert_ne!(r, error_codes::OK);

    // --- Phase 5: reinitialize after shutdown ---
    let r = start(&mut state, "ffi_reinit_peer", "ffi_reinit_session", None);
    assert_eq!(r, error_codes::OK);
    assert_eq!(state.is_network_initialized(), 1);

    let r = start(&mut state, "ffi_reinit_peer", "ffi_reinit_session", None);
    assert_eq!(r, error_codes::ALREADY_INITIALIZED);

    assert_eq!(stop(&mut state), error_codes::OK);
    assert_eq!(state.is_network_initialized(), 0);

    let r = start(&mut state, "ffi_reinit_peer", "ffi_reinit_session", None);
    assert_eq!(r, error_codes::OK);
    assert_eq!(stop(&mut state), error_codes::OK);
}

#[test]
fn test_ffi_operations_before_init() {
    let mut state = FfiState::new();
    // These should all fail gracefully when not initialized
    assert_eq!(state.is_network_initialized(), 0);

    let data = b"test_data";

    let (r, d) = state.send_to_peer(text("some_peer"), CData::Valid(data), 0x0100, 0);
    assert_ne!(r, error_codes::OK);
    assert!(d.is_none());

    let (r, _) = state.broadcast_message(CData::Valid(data), 0x0100, 0);
    assert_ne!(r, error_codes::OK);

    let (r, _) = state.send_to_leader(CData::Valid(data), 0x0100, 0);
    assert_ne!(r, error_codes::OK);

    assert!(state.connect_to_peer(text("127.0.0.1:9999")).is_err());

    let (r, _) = state.disconnect_peer(text("some_peer"));
    assert_ne!(r, error_codes::OK);

    let (r, _) = state.set_leader(text("some_peer"));
    assert_ne!(r, error_codes::OK);

    let (r, _) = state.forward_message(
        text("some_peer"),
        text("some_peer"),
        CData::Valid(data),
        0x0100,
        0,
    );
    assert_ne!(r, error_codes::OK);

    let (r, _) = state.send_from_leader(CData::Valid(data), 0x0100, 0);
    assert_ne!(r, error_codes::OK);

    // Double shutdown is also safe
    assert_eq!(stop(&mut state), error_codes::NOT_INITIALIZED);
}

#[test]
fn c_configuration_is_taken_over() {
    let mut c = ffi_config();
    c.manual_override_recovery = 1;
    c.centralized_auto_forward = 0;
    c.auto_election_enabled = 7;
    c.max_connections = 3;
    let config = NetworkConfig::from(&c);
    assert_eq!(config.compression_threshold, 256);
    assert_eq!(config.send_queue_capacity, 512);
    assert_eq!(config.max_connections, 3);
    assert_eq!(config.manual_override_recovery, ManualOverrideRecovery::AutoElect);
    assert!(!config.centralized_auto_forward);
    assert!(config.auto_election_enabled);
    assert_eq!(config.mdns_port, 15353);
    // what it does not hold has its default
    assert_eq!(config.reconnect_max_retries, NetworkConfig::default().reconnect_max_retries);
}

#[test]
fn c_arguments_are_checked() {
    assert!(is_readable(false, 0));
    assert!(is_readable(false, 5));
    assert!(!is_readable(false, -1));
    assert!(!is_readable(true, 5));
    assert!(matches!(
        c_str_to_string(CText::Invalid("bad byte".into())),
        Err(NetworkError::InvalidArgument(m)) if m == "invalid UTF-8: bad byte"
    ));
    assert_eq!(c_str_to_string(text("ok")).unwrap(), "ok");
}

#[test]
fn failures_are_recorded() {
    let mut state = FfiState::new();
    assert_eq!(state.get_last_error_code(), error_codes::OK);
    assert_eq!(state.get_last_error_message(), "");
    state.send_to_leader(CData::Valid(b"x"), 0x0100, 0);
    assert_eq!(state.get_last_error_code(), error_codes::NOT_INITIALIZED);
    assert_eq!(state.get_last_error_message(), "network not initialized");

    start(&mut state, "a", "s", None);
    state.send_to_leader(CData::Invalid, 0x0100, 0);
    assert_eq!(state.get_last_error_code(), error_codes::INVALID_ARGUMENT);
    assert_eq!(state.get_last_error_message(), "invalid data pointer or length");
    state.send_from_leader(CData::Valid(b"x"), 0x0100, 0);
    assert_eq!(state.get_last_error_code(), error_codes::NOT_LEADER);
    state.send_to_peer(text("b"), CData::Valid(b"x"), 0x0100, 0);
    assert_eq!(state.get_last_error_code(), error_codes::PEER_NOT_FOUND);
    assert_eq!(state.get_last_error_message(), "peer not found: b");
    let large = vec![0u8; 262_145];
    let (r, _) = state.broadcast_message(CData::Valid(&large), 0x0100, 0);
    assert_eq!(r, error_codes::INVALID_ARGUMENT);
    assert_eq!(
        state.get_last_error_message(),
        "invalid argument: message exceeds max_message_size"
    );
    assert_eq!(state.finish_send(SendOutcome::Full), error_codes::SEND_QUEUE_FULL);
    assert_eq!(state.get_last_error_message(), "send queue full");
    assert_eq!(state.finish_send(SendOutcome::Queued), error_codes::OK);
    assert_eq!(state.get_last_error_code(), error_codes::SEND_QUEUE_FULL);
}

#[test]
fn a_bad_configuration_is_refused() {
    let mut state = FfiState::new();
    let config = NetworkConfig { max_connections: 0, ..NetworkConfig::default() };
    assert_eq!(start(&mut state, "a", "s", Some(config)), error_codes::INVALID_ARGUMENT);
    assert_eq!(
        state.get_last_error_message(),
        "invalid argument: max_connections must be > 0"
    );
    assert_eq!(state.is_network_initialized(), 0);
    let failed = state.finish_initialize(Err(NetworkError::ConnectionFailed("bind".into())));
    assert_eq!(failed, error_codes::CONNECTION_FAILED);
    assert_eq!(state.get_last_error_message(), "connection failed: bind");
}

#[test]
fn peers_are_listed() {
    let mut state = FfiState::new();
    start(&mut state, "a", "s", None);
    assert_eq!(state.get_peer_list().unwrap(), "");
    let node = state.network.as_mut().unwrap();
    node.membership.add_peer(PeerId::new("b"), "x".into()).unwrap();
    node.membership.add_peer(PeerId::new("c"), "y".into()).unwrap();
    assert_eq!(state.get_peer_count(), 2);
    let list = state.get_peer_list().unwrap();
    assert!(list == "b\nc" || list == "c\nb");
    assert_eq!(state.get_peer_status(text("b")), 0);
    assert_eq!(state.get_peer_status(CText::Null), -1);
}

#[test]
fn the_leader_is_set_and_announced() {
    let mut state = FfiState::new();
    start(&mut state, "a", "s", None);
    let node = state.network.as_mut().unwrap();
    node.transport.register_connection(PeerId::new("b"), "x".into(), 1).unwrap();
    let (r, sent) = state.set_leader(text("a"));
    assert_eq!(r, error_codes::OK);
    assert_eq!(sent.len(), 1);
    assert_eq!(state.is_leader(), 1);
    assert_eq!(state.get_current_leader().unwrap(), "a");
    let (r, d) = state.send_from_leader(CData::Valid(b"x"), 0x0100, 0);
    assert_eq!(r, error_codes::OK);
    assert!(matches!(d, Some(Delivery::ToAll(list)) if list.len() == 1));
    let (r, d) = state.send_to_leader(CData::Valid(b"x"), 0x0100, 0);
    assert_eq!(r, error_codes::OK);
    assert!(matches!(d, Some(Delivery::Local)));
    // without a target the message goes to all
    let (r, d) = state.forward_message(text("c"), CText::Null, CData::Valid(b"x"), 0x0100, 0);
    assert_eq!(r, error_codes::OK);
    assert!(matches!(d, Some(Delivery::ToAll(_))));
    let (r, d) = state.forward_message(text("c"), text("b"), CData::Valid(b"x"), 0x0100, 0);
    assert_eq!(r, error_codes::OK);
    assert!(matches!(d, Some(Delivery::ToPeer(_))));
    // an empty target is the name of a peer
    let (r, d) = state.forward_message(text("c"), text(""), CData::Valid(b"x"), 0x0100, 0);
    assert_eq!(r, error_codes::PEER_NOT_FOUND);
    assert!(d.is_none());
}

#[test]
fn callbacks_are_registered_with_the_node() {
    let mut state = FfiState::new();
    assert_eq!(state.register_receive_callback(true), error_codes::NOT_INITIALIZED);
    start(&mut state, "a", "s", None);
    assert_eq!(state.register_receive_callback(true), error_codes::OK);
    assert_eq!(state.register_leader_changed_callback(true), error_codes::OK);
    assert_eq!(state.register_peer_status_callback(true), error_codes::OK);
    assert_eq!(state.register_connection_result_callback(true), error_codes::OK);
    assert_eq!(state.is_mdns_active(), 0);
}
