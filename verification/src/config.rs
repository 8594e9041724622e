//! Configuration constants and runtime parameters.

use vstd::prelude::*;

use crate::error::NetworkError;

verus! {

/// Protocol version number sent in the handshake.
pub const PROTOCOL_VERSION: u16 = 1;

/// What happens when a manually assigned leader goes offline.
#[derive(Clone, Copy, Debug, PartialEq, Eq, Structural)]
pub enum ManualOverrideRecovery {
    /// Keep the manual override; no automatic election starts.
    Hold,
    /// Clear the manual override and let an election choose a new leader.
    AutoElect,
}

impl ManualOverrideRecovery {
    /// The strategy for the number `v`: `1` stands for `AutoElect`, any
    /// other number for `Hold`.
    pub open spec fn of_number(v: u8) -> Self {
        if v == 1 {
            ManualOverrideRecovery::AutoElect
        } else {
            ManualOverrideRecovery::Hold
        }
    }

    /// Convert from a number; `Hold` for any unrecognized one.
    pub fn from_u8(v: u8) -> (r: Self)
        ensures
            r == Self::of_number(v),
    {
        match v {
            1 => Self::AutoElect,
            _ => Self::Hold,
        }
    }
}

/// Parameters that control timing, buffering and behavior of a node.
#[derive(Clone, Copy, Debug)]
pub struct NetworkConfig {
    // --- compression -----------------------------------------------------
    /// Payloads longer than this (bytes) are compressed if that pays.
    pub compression_threshold: u32,
    // --- heartbeats & election -------------------------------------------
    /// Interval (ms) between heartbeats.
    pub heartbeat_interval_ms: u64,
    /// Lower bound of the randomized election timeout (ms).
    pub election_timeout_min_ms: u64,
    /// Upper bound of the randomized election timeout (ms).
    pub election_timeout_max_ms: u64,
    /// A peer not heard of for this many heartbeat intervals has timed out.
    pub heartbeat_timeout_multiplier: u32,
    // --- reconnection/backoff --------------------------------------------
    /// Delay (ms) before the first attempt to reconnect.
    pub reconnect_initial_ms: u64,
    /// Longest delay (ms) between attempts to reconnect.
    pub reconnect_max_ms: u64,
    /// Failed attempts after which reconnecting is given up; `0` for never.
    pub reconnect_max_retries: u8,
    /// Reconnect to peers whose connection is lost?
    pub auto_reconnect_enabled: bool,
    // --- buffers & capacities --------------------------------------------
    /// Capacity of each channel's queue of outgoing packets.
    pub send_queue_capacity: usize,
    /// Capacity of the queue of incoming packets.
    pub incoming_queue_capacity: usize,
    /// Maximum number of connected peers.
    pub max_connections: usize,
    /// Maximum size (bytes) of a message's payload, of user messages and
    /// internal ones.
    pub max_message_size: u32,
    // --- timeouts --------------------------------------------------------
    /// Time (ms) to complete the handshake.
    pub handshake_timeout_ms: u64,
    /// Time (ms) that a write may stall before the peer is dropped.
    pub write_timeout_ms: u64,
    // --- sockets ---------------------------------------------------------
    /// Send small packets at once instead of collecting them?
    pub tcp_nodelay: bool,
    /// Idle time (s) before the first keepalive probe.
    pub keepalive_time_secs: u32,
    /// Time (s) between keepalive probes.
    pub keepalive_interval_secs: u32,
    /// Unanswered keepalive probes after which a connection is dead.
    pub keepalive_retries: u32,
    // --- discovery -------------------------------------------------------
    /// UDP port for mDNS; all nodes of a network must use the same.
    pub mdns_port: u16,
    // --- feature toggles -------------------------------------------------
    /// Does a leader forward broadcasts that it receives in centralized
    /// mode?
    pub centralized_auto_forward: bool,
    /// Start an election when there is no leader?
    pub auto_election_enabled: bool,
    /// What happens when a manually assigned leader goes offline.
    pub manual_override_recovery: ManualOverrideRecovery,
}

impl NetworkConfig {
    /// The default parameters.
    pub open spec fn default_config() -> Self {
        NetworkConfig {
            compression_threshold: 512,
            heartbeat_interval_ms: 500,
            election_timeout_min_ms: 1500,
            election_timeout_max_ms: 3000,
            heartbeat_timeout_multiplier: 3,
            reconnect_initial_ms: 1000,
            reconnect_max_ms: 30000,
            reconnect_max_retries: 0,
            auto_reconnect_enabled: true,
            send_queue_capacity: 128,
            incoming_queue_capacity: 1024,
            max_connections: 64,
            max_message_size: 0x4_0000,
            handshake_timeout_ms: 5000,
            write_timeout_ms: 5000,
            tcp_nodelay: false,
            keepalive_time_secs: 60,
            keepalive_interval_secs: 10,
            keepalive_retries: 3,
            mdns_port: 15353,
            centralized_auto_forward: true,
            auto_election_enabled: true,
            manual_override_recovery: ManualOverrideRecovery::Hold,
        }
    }

    /// Do the parameters make sense?
    pub open spec fn valid(self) -> bool {
        &&& 0 < self.heartbeat_interval_ms < self.election_timeout_min_ms
        &&& self.election_timeout_min_ms <= self.election_timeout_max_ms
        &&& self.heartbeat_timeout_multiplier > 0
        &&& 0 < self.reconnect_initial_ms <= self.reconnect_max_ms
        &&& self.send_queue_capacity > 0
        &&& self.max_connections > 0
        &&& self.max_message_size > 0
        &&& self.handshake_timeout_ms > 0
    }

    /// The message for the first parameter that makes no sense; `None` where
    /// all of them do.
    pub open spec fn first_problem(self) -> Option<Seq<char>> {
        if self.heartbeat_interval_ms == 0 {
            Some("heartbeat_interval_ms must be > 0"@)
        } else if self.election_timeout_min_ms <= self.heartbeat_interval_ms {
            Some("election_timeout_min_ms must be > heartbeat_interval_ms"@)
        } else if self.election_timeout_min_ms > self.election_timeout_max_ms {
            Some("election_timeout_min_ms must be <= election_timeout_max_ms"@)
        } else if self.heartbeat_timeout_multiplier == 0 {
            Some("heartbeat_timeout_multiplier must be > 0"@)
        } else if self.reconnect_initial_ms == 0 {
            Some("reconnect_initial_ms must be > 0"@)
        } else if self.reconnect_initial_ms > self.reconnect_max_ms {
            Some("reconnect_initial_ms must be <= reconnect_max_ms"@)
        } else if self.send_queue_capacity == 0 {
            Some("send_queue_capacity must be > 0"@)
        } else if self.max_connections == 0 {
            Some("max_connections must be > 0"@)
        } else if self.max_message_size == 0 {
            Some("max_message_size must be > 0"@)
        } else if self.handshake_timeout_ms == 0 {
            Some("handshake_timeout_ms must be > 0"@)
        } else {
            None
        }
    }

    /// Check that the parameters make sense; the error describes the first
    /// one that does not.
    pub fn validate(&self) -> (r: Result<(), NetworkError>)
        ensures
            r is Ok <==> self.valid(),
            match r {
                Ok(()) => self.first_problem() is None,
                Err(NetworkError::InvalidArgument(m)) => self.first_problem() == Some(m@),
                Err(_) => false,
            },
    {
        let problem: &str = if self.heartbeat_interval_ms == 0 {
            "heartbeat_interval_ms must be > 0"
        } else if self.election_timeout_min_ms <= self.heartbeat_interval_ms {
            "election_timeout_min_ms must be > heartbeat_interval_ms"
        } else if self.election_timeout_min_ms > self.election_timeout_max_ms {
            "election_timeout_min_ms must be <= election_timeout_max_ms"
        } else if self.heartbeat_timeout_multiplier == 0 {
            "heartbeat_timeout_multiplier must be > 0"
        } else if self.reconnect_initial_ms == 0 {
            "reconnect_initial_ms must be > 0"
        } else if self.reconnect_initial_ms > self.reconnect_max_ms {
            "reconnect_initial_ms must be <= reconnect_max_ms"
        } else if self.send_queue_capacity == 0 {
            "send_queue_capacity must be > 0"
        } else if self.max_connections == 0 {
            "max_connections must be > 0"
        } else if self.max_message_size == 0 {
            "max_message_size must be > 0"
        } else if self.handshake_timeout_ms == 0 {
            "handshake_timeout_ms must be > 0"
        } else {
            return Ok(());
        };
        Err(NetworkError::InvalidArgument(problem.to_owned()))
    }
}

impl Default for NetworkConfig {
    fn default() -> (r: Self)
        ensures
            r == NetworkConfig::default_config(),
    {
        Self {
            compression_threshold: 512,
            heartbeat_interval_ms: 500,
            election_timeout_min_ms: 1500,
            election_timeout_max_ms: 3000,
            heartbeat_timeout_multiplier: 3,
            reconnect_initial_ms: 1000,
            reconnect_max_ms: 30000,
            reconnect_max_retries: 0,
            auto_reconnect_enabled: true,
            send_queue_capacity: 128,
            incoming_queue_capacity: 1024,
            max_connections: 64,
            max_message_size: 256 * 1024,
            handshake_timeout_ms: 5000,
            write_timeout_ms: 5000,
            tcp_nodelay: false,
            keepalive_time_secs: 60,
            keepalive_interval_secs: 10,
            keepalive_retries: 3,
            mdns_port: 15353,
            centralized_auto_forward: true,
            auto_election_enabled: true,
            manual_override_recovery: ManualOverrideRecovery::Hold,
        }
    }
}

/// The default parameters make sense.
pub proof fn law_default_is_valid()
    ensures
        NetworkConfig::default_config().valid(),
{
}

} // verus!
