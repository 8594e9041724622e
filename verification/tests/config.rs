use meta_mystia_network::config::{ManualOverrideRecovery, NetworkConfig, PROTOCOL_VERSION};
use meta_mystia_network::error::NetworkError;

#[test]
fn test_config_default_valid() {
    assert!(NetworkConfig::default().validate().is_ok());
}

#[test]
fn test_config_validation() {
    let d = NetworkConfig::default();
    let mut config = NetworkConfig::default();

    config.heartbeat_interval_ms = 0;
    assert!(config.validate().is_err());
    config.heartbeat_interval_ms = d.heartbeat_interval_ms;

    config.election_timeout_min_ms = 500;
    assert!(config.validate().is_err());
    config.election_timeout_min_ms = d.election_timeout_min_ms;

    config.election_timeout_max_ms = 1000;
    assert!(config.validate().is_err());
    config.election_timeout_max_ms = d.election_timeout_max_ms;

    config.heartbeat_timeout_multiplier = 0;
    assert!(config.validate().is_err());
    config.heartbeat_timeout_multiplier = d.heartbeat_timeout_multiplier;

    config.reconnect_initial_ms = 0;
    assert!(config.validate().is_err());
    config.reconnect_initial_ms = d.reconnect_initial_ms;

    config.reconnect_max_ms = 500;
    assert!(config.validate().is_err());
    config.reconnect_max_ms = d.reconnect_max_ms;

    config.send_queue_capacity = 0;
    assert!(config.validate().is_err());
}

#[test]
fn test_manual_override_recovery_from_u8() {
    assert_eq!(
        ManualOverrideRecovery::from_u8(0),
        ManualOverrideRecovery::Hold
    );
    assert_eq!(
        ManualOverrideRecovery::from_u8(1),
        ManualOverrideRecovery::AutoElect
    );
    // Unrecognised values fall back to Hold
    assert_eq!(
        ManualOverrideRecovery::from_u8(2),
        ManualOverrideRecovery::Hold
    );
    assert_eq!(
        ManualOverrideRecovery::from_u8(255),
        ManualOverrideRecovery::Hold
    );
}

#[test]
fn test_manual_override_recovery_default_in_config() {
    let cfg = NetworkConfig::default();
    assert_eq!(cfg.manual_override_recovery, ManualOverrideRecovery::Hold);
}

fn problem(config: NetworkConfig) -> String {
    match config.validate() {
        Err(NetworkError::InvalidArgument(m)) => m,
        other => panic!("expected InvalidArgument, got {other:?}"),
    }
}

#[test]
fn first_problem_is_reported() {
    let d = NetworkConfig::default();
    assert_eq!(PROTOCOL_VERSION, 1);
    assert_eq!(
        problem(NetworkConfig { heartbeat_interval_ms: 0, max_connections: 0, ..d }),
        "heartbeat_interval_ms must be > 0"
    );
    assert_eq!(
        problem(NetworkConfig { election_timeout_min_ms: 500, ..d }),
        "election_timeout_min_ms must be > heartbeat_interval_ms"
    );
    assert_eq!(
        problem(NetworkConfig { election_timeout_max_ms: 1000, ..d }),
        "election_timeout_min_ms must be <= election_timeout_max_ms"
    );
    assert_eq!(
        problem(NetworkConfig { reconnect_max_ms: 500, ..d }),
        "reconnect_initial_ms must be <= reconnect_max_ms"
    );
    assert_eq!(
        problem(NetworkConfig { max_connections: 0, ..d }),
        "max_connections must be > 0"
    );
    assert_eq!(
        problem(NetworkConfig { max_message_size: 0, ..d }),
        "max_message_size must be > 0"
    );
    assert_eq!(
        problem(NetworkConfig { handshake_timeout_ms: 0, ..d }),
        "handshake_timeout_ms must be > 0"
    );
}

#[test]
fn documented_defaults() {
    let d = NetworkConfig::default();
    assert_eq!(d.compression_threshold, 512);
    assert_eq!(d.heartbeat_interval_ms, 500);
    assert_eq!(d.election_timeout_min_ms, 1500);
    assert_eq!(d.election_timeout_max_ms, 3000);
    assert_eq!(d.heartbeat_timeout_multiplier, 3);
    assert_eq!(d.reconnect_initial_ms, 1000);
    assert_eq!(d.reconnect_max_ms, 30000);
    assert_eq!(d.send_queue_capacity, 128);
    assert_eq!(d.max_connections, 64);
    assert_eq!(d.max_message_size, 262144);
    assert_eq!(d.handshake_timeout_ms, 5000);
    assert_eq!(d.mdns_port, 15353);
    assert!(!d.tcp_nodelay);
    assert_eq!(d.keepalive_time_secs, 60);
    assert_eq!(d.keepalive_interval_secs, 10);
    assert_eq!(d.keepalive_retries, 3);
    assert!(d.centralized_auto_forward);
    assert!(d.auto_election_enabled);
}
