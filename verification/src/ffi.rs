//! The operations that are offered to C callers: what each of them checks,
//! does and returns. Pointers are turned into values, and values into
//! pointers, by whoever exports the functions.

use vstd::prelude::*;

use crate::callback;
use crate::config::{ManualOverrideRecovery, NetworkConfig};
use crate::error::{error_codes, NetworkError};
use crate::leader::{ElectionEvent, Role};
use crate::messaging;
use crate::network::{NetworkState, NetworkView};
use crate::protocol::{self, InternalMessage, MessageView};
use crate::session_router::{Delivery, RouterView, UserMessage};
use crate::text;
use crate::transport::{self, Disconnect, Outgoing, OutgoingView, SendOutcome};
use crate::types::{ForwardTarget, MessageTarget, PeerId};

verus! {

/// The configuration as C callers lay it out; toggles are `0` or `1`.
#[derive(Clone, Copy, Debug)]
pub struct NetworkConfigFFI {
    // heartbeat/election timing
    pub heartbeat_interval_ms: u64,
    pub election_timeout_min_ms: u64,
    pub election_timeout_max_ms: u64,
    pub heartbeat_timeout_multiplier: u32,
    // reconnection/backoff timing
    pub reconnect_initial_ms: u64,
    pub reconnect_max_ms: u64,
    // payload and queue sizes
    pub compression_threshold: u32,
    pub send_queue_capacity: u32,
    // connection limits
    pub max_connections: u32,
    // maximum message size
    pub max_message_size: u32,
    // feature toggles
    pub centralized_auto_forward: u8,
    pub auto_election_enabled: u8,
    // mDNS discovery port
    pub mdns_port: u16,
    // manual override recovery strategy
    pub manual_override_recovery: u8,
    // explicit padding to maintain alignment
    pub _padding: [u8; 3],
    // handshake timeout
    pub handshake_timeout_ms: u64,
}

/// The configuration that a C caller asks for; what it cannot set has its
/// default.
pub open spec fn config_of(ffi: NetworkConfigFFI) -> NetworkConfig {
    NetworkConfig {
        heartbeat_interval_ms: ffi.heartbeat_interval_ms,
        election_timeout_min_ms: ffi.election_timeout_min_ms,
        election_timeout_max_ms: ffi.election_timeout_max_ms,
        heartbeat_timeout_multiplier: ffi.heartbeat_timeout_multiplier,
        reconnect_initial_ms: ffi.reconnect_initial_ms,
        reconnect_max_ms: ffi.reconnect_max_ms,
        compression_threshold: ffi.compression_threshold,
        send_queue_capacity: ffi.send_queue_capacity as usize,
        max_connections: ffi.max_connections as usize,
        max_message_size: ffi.max_message_size,
        handshake_timeout_ms: ffi.handshake_timeout_ms,
        mdns_port: ffi.mdns_port,
        centralized_auto_forward: ffi.centralized_auto_forward != 0,
        auto_election_enabled: ffi.auto_election_enabled != 0,
        manual_override_recovery: ManualOverrideRecovery::of_number(ffi.manual_override_recovery),
        ..NetworkConfig::default_config()
    }
}

impl From<&NetworkConfigFFI> for NetworkConfig {
    fn from(ffi: &NetworkConfigFFI) -> (r: Self) {
        let d = NetworkConfig::default();
        Self {
            heartbeat_interval_ms: ffi.heartbeat_interval_ms,
            election_timeout_min_ms: ffi.election_timeout_min_ms,
            election_timeout_max_ms: ffi.election_timeout_max_ms,
            heartbeat_timeout_multiplier: ffi.heartbeat_timeout_multiplier,
            reconnect_initial_ms: ffi.reconnect_initial_ms,
            reconnect_max_ms: ffi.reconnect_max_ms,
            compression_threshold: ffi.compression_threshold,
            send_queue_capacity: ffi.send_queue_capacity as usize,
            max_connections: ffi.max_connections as usize,
            max_message_size: ffi.max_message_size,
            handshake_timeout_ms: ffi.handshake_timeout_ms,
            mdns_port: ffi.mdns_port,
            centralized_auto_forward: ffi.centralized_auto_forward != 0,
            auto_election_enabled: ffi.auto_election_enabled != 0,
            manual_override_recovery: ManualOverrideRecovery::from_u8(ffi.manual_override_recovery),
            reconnect_max_retries: d.reconnect_max_retries,
            auto_reconnect_enabled: d.auto_reconnect_enabled,
            incoming_queue_capacity: d.incoming_queue_capacity,
            write_timeout_ms: d.write_timeout_ms,
            tcp_nodelay: d.tcp_nodelay,
            keepalive_time_secs: d.keepalive_time_secs,
            keepalive_interval_secs: d.keepalive_interval_secs,
            keepalive_retries: d.keepalive_retries,
        }
    }
}

impl vstd::std_specs::convert::FromSpecImpl<&NetworkConfigFFI> for NetworkConfig {
    open spec fn obeys_from_spec() -> bool {
        true
    }

    open spec fn from_spec(ffi: &NetworkConfigFFI) -> Self {
        config_of(*ffi)
    }
}

/// What is returned where a number is not known.
pub const UNKNOWN: i32 = -1;

// --- arguments and results --------------------------------------------------
/// What a C string argument holds.
pub enum CText {
    /// The pointer is null.
    Null,
    /// The bytes are not UTF-8, for the given reason.
    Invalid(String),
    Valid(String),
}

/// What a C argument made of a pointer and a length holds.
pub enum CData<'a> {
    /// The pointer is null or the length negative.
    Invalid,
    Valid(&'a [u8]),
}

/// Can a pointer and a length be read?
pub fn is_readable(is_null: bool, length: i32) -> (r: bool)
    ensures
        r == (!is_null && length >= 0),
{
    !is_null && length >= 0
}

/// Is `r` the text that the argument holds, or the error for it?
pub open spec fn reads(t: CText, r: Result<String, NetworkError>) -> bool {
    match t {
        CText::Null => r matches Err(NetworkError::InvalidArgument(m)) && m@
            == "null string pointer"@,
        CText::Invalid(d) => r matches Err(NetworkError::InvalidArgument(m)) && m@
            == "invalid UTF-8: "@ + d@,
        CText::Valid(s) => r == Ok::<String, NetworkError>(s),
    }
}

/// The text that a C string argument holds.
pub fn c_str_to_string(t: CText) -> (r: Result<String, NetworkError>)
    ensures
        reads(t, r),
{
    match t {
        CText::Null => Err(NetworkError::InvalidArgument("null string pointer".to_owned())),
        CText::Invalid(d) => Err(
            NetworkError::InvalidArgument(text::concat("invalid UTF-8: ", d.as_str())),
        ),
        CText::Valid(s) => Ok(s),
    }
}

/// The text that is handed out as a C string: the empty one where the text
/// holds a NUL.
pub fn return_string(s: String) -> (r: String)
    ensures
        r@ == (if callback::has_nul(s@) {
            Seq::<char>::empty()
        } else {
            s@
        }),
{
    if callback::contains_nul(s.as_str()) {
        String::new()
    } else {
        s
    }
}

/// Texts, one per line.
pub open spec fn joined(names: Seq<Seq<char>>) -> Seq<char>
    decreases names.len(),
{
    if names.len() == 0 {
        Seq::empty()
    } else if names.len() == 1 {
        names[0]
    } else {
        joined(names.drop_last()) + "\n"@ + names.last()
    }
}

fn join_lines(names: &Vec<PeerId>) -> (r: String)
    ensures
        r@ == joined(crate::types::ids_view(names@)),
{
    let mut out = String::new();
    let mut i: usize = 0;
    let ghost views = crate::types::ids_view(names@);
    while i < names.len()
        invariant
            i <= names@.len(),
            views == crate::types::ids_view(names@),
            out@ == joined(views.take(i as int)),
        decreases names@.len() - i,
    {
        assert(views.take(i + 1).drop_last() =~= views.take(i as int));
        if i > 0 {
            out.append("\n");
        }
        out.append(names[i].as_str());
        proof {
            if i == 0 {
                assert(out@ =~= views.take(1)[0]);
            }
        }
        i = i + 1;
    }
    assert(views.take(i as int) =~= views);
    out
}

// --- state ------------------------------------------------------------------
/// The value of an [`FfiState`].
#[verifier::ext_equal]
pub struct FfiView {
    pub network: Option<NetworkView>,
    pub last_error: Option<(i32, Seq<char>)>,
}

/// The node, while it is initialized, and the last error.
pub struct FfiState {
    pub network: Option<NetworkState>,
    pub last_error: Option<(i32, String)>,
}

impl View for FfiState {
    type V = FfiView;

    open spec fn view(&self) -> FfiView {
        FfiView {
            network: match self.network {
                Some(n) => Some(n@),
                None => None,
            },
            last_error: match self.last_error {
                Some((code, m)) => Some((code, m@)),
                None => None,
            },
        }
    }
}

impl FfiView {
    /// The state after an error was recorded.
    pub open spec fn with_error(self, code: i32, message: Seq<char>) -> Self {
        FfiView { last_error: Some((code, message)), ..self }
    }

    /// The state with another state of the node.
    pub open spec fn with_network(self, n: NetworkView) -> Self {
        FfiView { network: Some(n), ..self }
    }

    /// Is `after` the state after the error `e` was recorded, and `code` what
    /// is returned?
    pub open spec fn fails(self, e: NetworkError, after: FfiView, code: i32) -> bool {
        &&& code == e.spec_code()
        &&& after.network == self.network
        &&& after.last_error matches Some((c, m)) && c == code && e.is_message(m)
    }

    /// The same, for some error that satisfies `p`.
    pub open spec fn fails_with(
        self,
        p: spec_fn(NetworkError) -> bool,
        after: FfiView,
        code: i32,
    ) -> bool {
        exists|e: NetworkError| #[trigger] p(e) && self.fails(e, after, code)
    }

    /// The outcome for a C string argument that cannot be read.
    pub open spec fn rejects_text(self, t: CText, after: FfiView, code: i32) -> bool {
        self.fails_with(|e: NetworkError| reads(t, Err(e)), after, code)
    }

    /// The outcome for data that cannot be read.
    pub open spec fn rejects_data(self, after: FfiView, code: i32) -> bool {
        &&& code == error_codes::INVALID_ARGUMENT
        &&& after == self.with_error(code, "invalid data pointer or length"@)
    }

    /// The outcome before initialization.
    pub open spec fn not_initialized(self, after: FfiView, code: i32) -> bool {
        &&& code == error_codes::NOT_INITIALIZED
        &&& after == self.with_error(code, "network not initialized"@)
    }

    /// The outcome of sending a message, given what the router made of it.
    pub open spec fn sends(
        self,
        data: Seq<u8>,
        routes: spec_fn(NetworkView, Result<Delivery, NetworkError>) -> bool,
        after: FfiView,
        r: (i32, Option<Delivery>),
    ) -> bool {
        match self.network {
            None => self.not_initialized(after, r.0) && r.1 is None,
            Some(n) => if data.len() > n.config.max_message_size {
                &&& r.0 == error_codes::INVALID_ARGUMENT
                &&& r.1 is None
                &&& after == self.with_error(
                    r.0,
                    "invalid argument: "@ + "message exceeds max_message_size"@,
                )
            } else {
                match r.1 {
                    Some(d) => r.0 == error_codes::OK && after == self && routes(n, Ok(d)),
                    None => self.fails_with(
                        |e: NetworkError| routes(n, Err(e)),
                        after,
                        r.0,
                    ),
                }
            },
        }
    }

    /// The outcome of an operation that changes the node and cannot fail.
    pub open spec fn applies(
        self,
        change: spec_fn(NetworkView) -> NetworkView,
        after: FfiView,
        code: i32,
    ) -> bool {
        match self.network {
            None => self.not_initialized(after, code),
            Some(n) => code == error_codes::OK && after == self.with_network(change(n)),
        }
    }

    /// What is read off the node, or `otherwise` before initialization.
    pub open spec fn asks<T>(self, read: spec_fn(NetworkView) -> T, otherwise: T) -> T {
        match self.network {
            None => otherwise,
            Some(n) => read(n),
        }
    }
}

/// `1` for true, `0` for false.
pub open spec fn flag(b: bool) -> u8 {
    if b {
        1
    } else {
        0
    }
}

fn to_flag(b: bool) -> (r: u8)
    ensures
        r == flag(b),
{
    if b {
        1
    } else {
        0
    }
}

impl FfiState {
    /// Is the node, if there is one, well-formed?
    pub open spec fn wf(&self) -> bool {
        self.network matches Some(n) ==> n.wf()
    }

    /// Nothing is initialized and no error recorded.
    pub fn new() -> (r: Self)
        ensures
            r.wf(),
            r@ == (FfiView { network: None, last_error: None }),
    {
        FfiState { network: None, last_error: None }
    }

    /// Record an error.
    pub fn set_error(&mut self, code: i32, msg: &str)
        ensures
            final(self).network == old(self).network,
            final(self)@ == old(self)@.with_error(code, msg@),
    {
        self.last_error = Some((code, msg.to_owned()));
    }

    fn fail(&mut self, e: NetworkError) -> (r: i32)
        ensures
            final(self).network == old(self).network,
            old(self)@.fails(e, final(self)@, r),
    {
        let code: i32 = e.error_code();
        self.last_error = Some((code, e.to_string()));
        code
    }

    fn fail_not_initialized(&mut self) -> (r: i32)
        ensures
            final(self).network == old(self).network,
            old(self)@.not_initialized(final(self)@, r),
    {
        let e = NetworkError::NotInitialized;
        self.fail(e)
    }

    fn fail_data(&mut self) -> (r: i32)
        ensures
            final(self).network == old(self).network,
            old(self)@.rejects_data(final(self)@, r),
    {
        self.set_error(error_codes::INVALID_ARGUMENT, "invalid data pointer or length");
        error_codes::INVALID_ARGUMENT
    }

    // --- lifecycle ----------------------------------------------------------
    /// A null pointer in place of a configuration.
    pub fn reject_null_config(&mut self) -> (r: i32)
        requires
            old(self).wf(),
        ensures
            final(self).wf(),
            r == error_codes::INVALID_ARGUMENT,
            final(self)@ == old(self)@.with_error(r, "null config pointer"@),
    {
        self.set_error(error_codes::INVALID_ARGUMENT, "null config pointer");
        error_codes::INVALID_ARGUMENT
    }

    /// Check the arguments of an initialization. The result is what to start
    /// the node with, or the code to return.
    pub fn begin_initialize(
        &mut self,
        peer_id: CText,
        session_id: CText,
        config: Option<NetworkConfig>,
    ) -> (r: Result<(String, String, NetworkConfig), i32>)
        requires
            old(self).wf(),
        ensures
            final(self).wf(),
            match r {
                Ok((peer, session, c)) => {
                    &&& old(self)@.network is None
                    &&& final(self)@ == old(self)@
                    &&& peer_id == CText::Valid(peer)
                    &&& session_id == CText::Valid(session)
                    &&& c == (match config {
                        Some(c) => c,
                        None => NetworkConfig::default_config(),
                    })
                    &&& c.valid()
                },
                Err(code) => {
                    if old(self)@.network is Some {
                        &&& code == error_codes::ALREADY_INITIALIZED
                        &&& final(self)@ == old(self)@.with_error(code, "already initialized"@)
                    } else if !(peer_id is Valid) {
                        old(self)@.rejects_text(peer_id, final(self)@, code)
                    } else if !(session_id is Valid) {
                        old(self)@.rejects_text(session_id, final(self)@, code)
                    } else {
                        &&& config matches Some(c) && !c.valid() && code
                            == error_codes::INVALID_ARGUMENT && final(self)@ == old(
                            self,
                        )@.with_error(code, "invalid argument: "@ + c.first_problem()->0)
                    }
                },
            },
    {
        if self.network.is_some() {
            self.set_error(error_codes::ALREADY_INITIALIZED, "already initialized");
            return Err(error_codes::ALREADY_INITIALIZED);
        }
        let peer = match c_str_to_string(peer_id) {
            Ok(s) => s,
            Err(e) => {
                let ghost p = |x: NetworkError| reads(peer_id, Err(x));
                assert(p(e));
                return Err(self.fail(e));
            },
        };
        let session = match c_str_to_string(session_id) {
            Ok(s) => s,
            Err(e) => {
                let ghost p = |x: NetworkError| reads(session_id, Err(x));
                assert(p(e));
                return Err(self.fail(e));
            },
        };
        let config = match config {
            Some(c) => c,
            None => NetworkConfig::default(),
        };
        proof {
            crate::config::law_default_is_valid();
        }
        match config.validate() {
            Ok(()) => Ok((peer, session, config)),
            Err(e) => Err(self.fail(e)),
        }
    }

    /// Take over the node that was started, or record why it was not.
    pub fn finish_initialize(&mut self, started: Result<NetworkState, NetworkError>) -> (r: i32)
        requires
            old(self).wf(),
            started matches Ok(n) ==> n.wf(),
        ensures
            final(self).wf(),
            match started {
                Ok(n) => r == error_codes::OK && final(self)@ == old(self)@.with_network(n@),
                Err(e) => old(self)@.fails(e, final(self)@, r),
            },
    {
        match started {
            Ok(n) => {
                self.network = Some(n);
                error_codes::OK
            },
            Err(e) => self.fail(e),
        }
    }

    /// Hand out the node to shut it down, or the code to return.
    pub fn shutdown_network(&mut self) -> (r: Result<NetworkState, i32>)
        requires
            old(self).wf(),
        ensures
            final(self).wf(),
            match r {
                Ok(n) => {
                    &&& n.wf()
                    &&& old(self)@.network == Some(n@)
                    &&& final(self)@ == (FfiView { network: None, ..old(self)@ })
                },
                Err(code) => {
                    &&& old(self)@.network is None
                    &&& code == error_codes::NOT_INITIALIZED
                    &&& final(self)@ == old(self)@.with_error(code, "not initialized"@)
                },
            },
    {
        match self.network.take() {
            Some(n) => Ok(n),
            None => {
                self.set_error(error_codes::NOT_INITIALIZED, "not initialized");
                Err(error_codes::NOT_INITIALIZED)
            },
        }
    }

    /// `1` if the node is initialized, else `0`.
    pub fn is_network_initialized(&self) -> (r: u8)
        ensures
            r == flag(self@.network is Some),
    {
        to_flag(self.network.is_some())
    }

    /// `1` if discovery is running, else `0`.
    pub fn is_mdns_active(&self) -> (r: u8)
        ensures
            r == self@.asks(|n: NetworkView| flag(n.discovery is Some), 0),
    {
        match &self.network {
            Some(n) => to_flag(n.is_mdns_active()),
            None => 0,
        }
    }

    /// The code of the last error, `OK` where there was none.
    pub fn get_last_error_code(&self) -> (r: i32)
        ensures
            r == (match self@.last_error {
                Some((code, _)) => code,
                None => error_codes::OK,
            }),
    {
        match &self.last_error {
            Some((code, _)) => *code,
            None => error_codes::OK,
        }
    }

    /// The message of the last error, empty where there was none.
    pub fn get_last_error_message(&self) -> (r: String)
        ensures
            r@ == (match self@.last_error {
                Some((_, m)) => m,
                None => Seq::<char>::empty(),
            }),
    {
        match &self.last_error {
            Some((_, m)) => m.clone(),
            None => String::new(),
        }
    }

    // --- connections --------------------------------------------------------
    /// Check the arguments of a connection attempt. The result is the address
    /// to connect to, or the code to return.
    pub fn connect_to_peer(&mut self, addr: CText) -> (r: Result<String, i32>)
        requires
            old(self).wf(),
        ensures
            final(self).wf(),
            match addr {
                CText::Valid(a) => if old(self)@.network is Some {
                    r == Ok::<String, i32>(a) && final(self)@ == old(self)@
                } else {
                    r matches Err(code) && old(self)@.not_initialized(final(self)@, code)
                },
                _ => r matches Err(code) && old(self)@.rejects_text(addr, final(self)@, code),
            },
    {
        match c_str_to_string(addr) {
            Ok(a) => {
                if self.network.is_some() {
                    Ok(a)
                } else {
                    Err(self.fail_not_initialized())
                }
            },
            Err(e) => {
                let ghost p = |x: NetworkError| reads(addr, Err(x));
                assert(p(e));
                Err(self.fail(e))
            },
        }
    }

    /// Disconnect from a peer. The result is the code to return, and what is
    /// to be done where it is `OK`.
    pub fn disconnect_peer(&mut self, peer_id: CText) -> (r: (i32, Option<Disconnect>))
        requires
            old(self).wf(),
        ensures
            final(self).wf(),
            match peer_id {
                CText::Valid(id) => match old(self)@.network {
                    None => old(self)@.not_initialized(final(self)@, r.0) && r.1 is None,
                    Some(n) => {
                        let leave = n.transport.leave_message();
                        if !messaging::fits(leave, n.transport.config.max_message_size) {
                            &&& old(self)@.fails(messaging::oversize(leave), final(self)@, r.0)
                            &&& r.1 is None
                        } else {
                            &&& r.0 == error_codes::OK
                            &&& final(self)@ == old(self)@.with_network(
                                n.with_transport(n.transport.closed(id@)).with_membership(
                                    n.membership.removed(id@),
                                ),
                            )
                            &&& r.1 matches Some(d) && d.cancelled@ == n.transport.channels_of(id@)
                                && (match d.leave {
                                Some(o) => n.transport.connections.contains(id@) && o@
                                    == n.transport.outgoing(
                                    id@,
                                    messaging::internal_packet(leave),
                                ),
                                None => !n.transport.connections.contains(id@),
                            })
                        }
                    },
                },
                _ => old(self)@.rejects_text(peer_id, final(self)@, r.0) && r.1 is None,
            },
    {
        let id = match c_str_to_string(peer_id) {
            Ok(s) => s,
            Err(e) => {
                let ghost p = |x: NetworkError| reads(peer_id, Err(x));
                assert(p(e));
                return (self.fail(e), None);
            },
        };
        let pid = PeerId::new(id.as_str());
        match self.network.take() {
            Some(n) => {
                let mut n = n;
                let result = n.transport.disconnect_peer(&pid);
                match result {
                    Ok(d) => {
                        n.membership.remove_peer(&pid);
                        self.network = Some(n);
                        (error_codes::OK, Some(d))
                    },
                    Err(e) => {
                        self.network = Some(n);
                        (self.fail(e), None)
                    },
                }
            },
            None => (self.fail_not_initialized(), None),
        }
    }

    // --- queries ------------------------------------------------------------
    /// The address that the node listens on.
    pub fn get_local_addr(&self) -> (r: Option<String>)
        ensures
            protocol::optional_text(r) == self@.asks(
                |n: NetworkView| Some(n.transport.listen_addr),
                None,
            ),
    {
        match &self.network {
            Some(n) => Some(n.transport.listener_addr().to_owned()),
            None => None,
        }
    }

    /// The name of the node.
    pub fn get_local_peer_id(&self) -> (r: Option<String>)
        ensures
            protocol::optional_text(r) == self@.asks(|n: NetworkView| Some(n.local), None),
    {
        match &self.network {
            Some(n) => Some(n.local_peer_id.to_string()),
            None => None,
        }
    }

    /// The session of the node.
    pub fn get_session_id(&self) -> (r: Option<String>)
        ensures
            protocol::optional_text(r) == self@.asks(|n: NetworkView| Some(n.session), None),
    {
        match &self.network {
            Some(n) => Some(n.session_id.clone()),
            None => None,
        }
    }

    /// How many peers are connected, cut to 32 bits; `-1` before
    /// initialization.
    pub fn get_peer_count(&self) -> (r: i32)
        requires
            self.wf(),
        ensures
            r == self@.asks(|n: NetworkView| n.membership.connected().len() as i32, UNKNOWN),
    {
        match &self.network {
            Some(n) => #[verifier::truncate]
            (n.membership.get_connected_peer_count() as i32),
            None => UNKNOWN,
        }
    }

    /// The names of the connected peers, one per line.
    pub fn get_peer_list(&self) -> (r: Option<String>)
        requires
            self.wf(),
        ensures
            protocol::optional_text(r) == self@.asks(
                |n: NetworkView| Some(joined(n.membership.connected())),
                None,
            ),
    {
        match &self.network {
            Some(n) => {
                let names = n.membership.get_connected_peers();
                Some(join_lines(&names))
            },
            None => None,
        }
    }

    /// The round trip time of a peer, cut to 32 bits; `-1` where it is not
    /// known.
    pub fn get_peer_rtt(&self, peer_id: CText) -> (r: i32)
        requires
            self.wf(),
        ensures
            r == (match peer_id {
                CText::Valid(id) => self@.asks(
                    |n: NetworkView|
                        match n.membership.info(id@) {
                            Some(info) => match info.rtt_ms {
                                Some(rtt) => rtt as i32,
                                None => UNKNOWN,
                            },
                            None => UNKNOWN,
                        },
                    UNKNOWN,
                ),
                _ => UNKNOWN,
            }),
    {
        let id = match c_str_to_string(peer_id) {
            Ok(s) => s,
            Err(_) => {
                return UNKNOWN;
            },
        };
        match &self.network {
            Some(n) => match n.membership.get_peer_rtt(&PeerId::new(id.as_str())) {
                Some(rtt) => #[verifier::truncate]
                (rtt as i32),
                None => UNKNOWN,
            },
            None => UNKNOWN,
        }
    }

    /// The status of a peer; `-1` where it is not known.
    pub fn get_peer_status(&self, peer_id: CText) -> (r: i32)
        requires
            self.wf(),
        ensures
            r == (match peer_id {
                CText::Valid(id) => self@.asks(
                    |n: NetworkView|
                        match n.membership.info(id@) {
                            Some(info) => info.status.number(),
                            None => UNKNOWN,
                        },
                    UNKNOWN,
                ),
                _ => UNKNOWN,
            }),
    {
        let id = match c_str_to_string(peer_id) {
            Ok(s) => s,
            Err(_) => {
                return UNKNOWN;
            },
        };
        match &self.network {
            Some(n) => match n.membership.get_peer_status(&PeerId::new(id.as_str())) {
                Some(status) => status.as_i32(),
                None => UNKNOWN,
            },
            None => UNKNOWN,
        }
    }

    // --- leadership and modes -----------------------------------------------
    /// Assign a leader by hand and tell all peers. The assignment holds even
    /// where the message to the peers is too large.
    pub fn set_leader(&mut self, peer_id: CText) -> (r: (i32, Vec<Outgoing>))
        requires
            old(self).wf(),
            old(self)@.network matches Some(n) ==> n.election.term < u64::MAX,
        ensures
            final(self).wf(),
            match peer_id {
                CText::Valid(id) => match old(self)@.network {
                    None => {
                        &&& old(self)@.not_initialized(final(self)@, r.0)
                        &&& r.1@.len() == 0
                    },
                    Some(n) => {
                        let after = n.with_election(
                            n.election.after(ElectionEvent::SetLeader { leader: id@ }),
                        );
                        let m = MessageView::LeaderAssign {
                            term: after.election.term as u64,
                            leader_id: id@,
                            assigner_id: n.local,
                        };
                        let mid = old(self)@.with_network(after);
                        if messaging::fits(m, n.config.max_message_size) {
                            &&& r.0 == error_codes::OK
                            &&& final(self)@ == mid
                            &&& transport::outgoing_view(r.1@) == n.transport.broadcast(
                                messaging::internal_packet(m),
                                seq![],
                            )
                        } else {
                            &&& mid.fails(messaging::oversize(m), final(self)@, r.0)
                            &&& r.1@.len() == 0
                        }
                    },
                },
                _ => {
                    &&& old(self)@.rejects_text(peer_id, final(self)@, r.0)
                    &&& r.1@.len() == 0
                },
            },
    {
        let id = match c_str_to_string(peer_id) {
            Ok(s) => s,
            Err(e) => {
                let ghost p = |x: NetworkError| reads(peer_id, Err(x));
                assert(p(e));
                return (self.fail(e), Vec::new());
            },
        };
        let pid = PeerId::new(id.as_str());
        match self.network.take() {
            Some(n) => {
                let mut n = n;
                let (term, leader_id, assigner_id) = n.leader_election.set_leader(&pid);
                let msg = InternalMessage::LeaderAssign { term, leader_id, assigner_id };
                match messaging::encode_internal(&msg, n.config.max_message_size) {
                    Ok(packet) => {
                        let list = n.transport.broadcast(packet, None);
                        self.network = Some(n);
                        (error_codes::OK, list)
                    },
                    Err(e) => {
                        self.network = Some(n);
                        (self.fail(e), Vec::new())
                    },
                }
            },
            None => (self.fail_not_initialized(), Vec::new()),
        }
    }

    /// Switch automatic elections on or off.
    pub fn enable_auto_leader_election(&mut self, enable: u8) -> (r: i32)
        requires
            old(self).wf(),
        ensures
            final(self).wf(),
            old(self)@.applies(
                |n: NetworkView| n.with_election(n.election.auto_set(enable != 0)),
                final(self)@,
                r,
            ),
    {
        match self.network.take() {
            Some(n) => {
                let mut n = n;
                n.leader_election.enable_auto_election(enable != 0);
                self.network = Some(n);
                error_codes::OK
            },
            None => self.fail_not_initialized(),
        }
    }

    /// The name of the leader, empty where there is none.
    pub fn get_current_leader(&self) -> (r: Option<String>)
        ensures
            protocol::optional_text(r) == self@.asks(
                |n: NetworkView|
                    Some(
                        match n.election.leader {
                            Some(l) => l,
                            None => Seq::<char>::empty(),
                        },
                    ),
                None,
            ),
    {
        match &self.network {
            Some(n) => match n.leader_election.leader_id() {
                Some(id) => Some(id.to_string()),
                None => Some(String::new()),
            },
            None => None,
        }
    }

    /// `1` if the node is the leader, else `0`.
    pub fn is_leader(&self) -> (r: u8)
        ensures
            r == self@.asks(|n: NetworkView| flag(n.election.role == Role::Leader), 0),
    {
        match &self.network {
            Some(n) => to_flag(n.leader_election.is_leader()),
            None => 0,
        }
    }

    /// Switch centralized mode on or off.
    pub fn set_centralized_mode(&mut self, enable: u8) -> (r: i32)
        requires
            old(self).wf(),
        ensures
            final(self).wf(),
            old(self)@.applies(
                |n: NetworkView|
                    NetworkView {
                        router: RouterView { centralized: enable != 0, ..n.router },
                        ..n
                    },
                final(self)@,
                r,
            ),
    {
        match self.network.take() {
            Some(n) => {
                let mut n = n;
                n.session_router.set_centralized(enable != 0);
                self.network = Some(n);
                error_codes::OK
            },
            None => self.fail_not_initialized(),
        }
    }

    /// `1` in centralized mode, else `0`.
    pub fn is_centralized_mode(&self) -> (r: u8)
        ensures
            r == self@.asks(|n: NetworkView| flag(n.router.centralized), 0),
    {
        match &self.network {
            Some(n) => to_flag(n.session_router.is_centralized()),
            None => 0,
        }
    }

    /// Say whether the leader passes on broadcasts.
    pub fn set_centralized_auto_forward(&mut self, enable: u8) -> (r: i32)
        requires
            old(self).wf(),
        ensures
            final(self).wf(),
            old(self)@.applies(
                |n: NetworkView|
                    NetworkView {
                        router: RouterView { auto_forward: enable != 0, ..n.router },
                        ..n
                    },
                final(self)@,
                r,
            ),
    {
        match self.network.take() {
            Some(n) => {
                let mut n = n;
                n.session_router.set_auto_forward(enable != 0);
                self.network = Some(n);
                error_codes::OK
            },
            None => self.fail_not_initialized(),
        }
    }

    /// `1` if the leader passes on broadcasts, else `0`.
    pub fn is_centralized_auto_forward(&self) -> (r: u8)
        ensures
            r == self@.asks(|n: NetworkView| flag(n.router.auto_forward), 0),
    {
        match &self.network {
            Some(n) => to_flag(n.session_router.is_auto_forward()),
            None => 0,
        }
    }

    /// Set the size beyond which compression is tried.
    pub fn set_compression_threshold(&mut self, threshold: u32) -> (r: i32)
        requires
            old(self).wf(),
        ensures
            final(self).wf(),
            old(self)@.applies(
                |n: NetworkView|
                    NetworkView {
                        router: RouterView { compression_threshold: threshold, ..n.router },
                        ..n
                    },
                final(self)@,
                r,
            ),
    {
        match self.network.take() {
            Some(n) => {
                let mut n = n;
                n.session_router.set_compression_threshold(threshold);
                self.network = Some(n);
                error_codes::OK
            },
            None => self.fail_not_initialized(),
        }
    }

    // --- messages -----------------------------------------------------------
    fn check_size(&mut self, len: usize) -> (r: Result<(), i32>)
        requires
            old(self).wf(),
        ensures
            final(self).wf(),
            final(self).network == old(self).network,
            match old(self)@.network {
                None => r matches Err(code) && old(self)@.not_initialized(final(self)@, code),
                Some(n) => if len > n.config.max_message_size {
                    r matches Err(code) && code == error_codes::INVALID_ARGUMENT && final(self)@
                        == old(self)@.with_error(
                        code,
                        "invalid argument: "@ + "message exceeds max_message_size"@,
                    )
                } else {
                    r is Ok && final(self)@ == old(self)@
                },
            },
    {
        let too_large = match &self.network {
            Some(n) => len as u64 > n.config.max_message_size as u64,
            None => {
                return Err(self.fail_not_initialized());
            },
        };
        if too_large {
            let m = "message exceeds max_message_size".to_owned();
            Err(self.fail(NetworkError::InvalidArgument(m)))
        } else {
            Ok(())
        }
    }

    fn route(&mut self, target: MessageTarget, data: &[u8], msg_type: u16, flags: u8) -> (r: (
        i32,
        Option<Delivery>,
    ))
        requires
            old(self).wf(),
        ensures
            final(self).wf(),
            old(self)@.sends(
                data@,
                |n: NetworkView, d: Result<Delivery, NetworkError>|
                    n.router.routes(
                        n.transport,
                        n.election,
                        target,
                        UserMessage { msg_type, data: data@, flags },
                        d,
                    ),
                final(self)@,
                r,
            ),
    {
        if let Err(code) = self.check_size(data.len()) {
            return (code, None);
        }
        let ghost target0 = target;
        let result = match &self.network {
            Some(n) => n.session_router.route_message(
                &n.transport,
                &n.leader_election,
                target,
                msg_type,
                data,
                flags,
            ),
            None => Err(NetworkError::NotInitialized),
        };
        match result {
            Ok(d) => (error_codes::OK, Some(d)),
            Err(e) => {
                proof {
                    let n = self@.network->0;
                    let routes = |n: NetworkView, d: Result<Delivery, NetworkError>|
                        n.router.routes(
                            n.transport,
                            n.election,
                            target0,
                            UserMessage { msg_type, data: data@, flags },
                            d,
                        );
                    let p = |x: NetworkError| routes(n, Err(x));
                    assert(routes(n, Err(e)));
                    assert(p(e));
                }
                (self.fail(e), None)
            },
        }
    }

    /// Send a message to all peers.
    pub fn broadcast_message(&mut self, data: CData<'_>, msg_type: u16, flags: u8) -> (r: (
        i32,
        Option<Delivery>,
    ))
        requires
            old(self).wf(),
        ensures
            final(self).wf(),
            match data {
                CData::Invalid => old(self)@.rejects_data(final(self)@, r.0) && r.1 is None,
                CData::Valid(d) => old(self)@.sends(
                    d@,
                    |n: NetworkView, x: Result<Delivery, NetworkError>|
                        n.router.routes(
                            n.transport,
                            n.election,
                            MessageTarget::Broadcast,
                            UserMessage { msg_type, data: d@, flags },
                            x,
                        ),
                    final(self)@,
                    r,
                ),
            },
    {
        match data {
            CData::Valid(d) => self.route(MessageTarget::Broadcast, d, msg_type, flags),
            CData::Invalid => (self.fail_data(), None),
        }
    }

    /// Send a message to one peer.
    pub fn send_to_peer(
        &mut self,
        target: CText,
        data: CData<'_>,
        msg_type: u16,
        flags: u8,
    ) -> (r: (i32, Option<Delivery>))
        requires
            old(self).wf(),
        ensures
            final(self).wf(),
            match (target, data) {
                (CText::Valid(id), CData::Valid(d)) => old(self)@.sends(
                    d@,
                    |n: NetworkView, x: Result<Delivery, NetworkError>|
                        n.router.unicasts_type(
                            n.transport,
                            UserMessage { msg_type, data: d@, flags },
                            id@,
                            x,
                        ),
                    final(self)@,
                    r,
                ),
                (CText::Valid(_), CData::Invalid) => old(self)@.rejects_data(final(self)@, r.0)
                    && r.1 is None,
                _ => old(self)@.rejects_text(target, final(self)@, r.0) && r.1 is None,
            },
    {
        let id = match c_str_to_string(target) {
            Ok(s) => s,
            Err(e) => {
                let ghost p = |x: NetworkError| reads(target, Err(x));
                assert(p(e));
                return (self.fail(e), None);
            },
        };
        let d = match data {
            CData::Valid(d) => d,
            CData::Invalid => {
                return (self.fail_data(), None);
            },
        };
        let pid = PeerId::new(id.as_str());
        let ghost a = |n: NetworkView, x: Result<Delivery, NetworkError>|
            n.router.routes(
                n.transport,
                n.election,
                MessageTarget::ToPeer(pid),
                UserMessage { msg_type, data: d@, flags },
                x,
            );
        let ghost b = |n: NetworkView, x: Result<Delivery, NetworkError>|
            n.router.unicasts_type(
                n.transport,
                UserMessage { msg_type, data: d@, flags },
                id@,
                x,
            );
        let r = self.route(MessageTarget::ToPeer(pid), d, msg_type, flags);
        assert(a =~= b);
        r
    }

    /// Send a message to the leader.
    pub fn send_to_leader(&mut self, data: CData<'_>, msg_type: u16, flags: u8) -> (r: (
        i32,
        Option<Delivery>,
    ))
        requires
            old(self).wf(),
        ensures
            final(self).wf(),
            match data {
                CData::Invalid => old(self)@.rejects_data(final(self)@, r.0) && r.1 is None,
                CData::Valid(d) => old(self)@.sends(
                    d@,
                    |n: NetworkView, x: Result<Delivery, NetworkError>|
                        n.router.routes(
                            n.transport,
                            n.election,
                            MessageTarget::ToLeader,
                            UserMessage { msg_type, data: d@, flags },
                            x,
                        ),
                    final(self)@,
                    r,
                ),
            },
    {
        match data {
            CData::Valid(d) => self.route(MessageTarget::ToLeader, d, msg_type, flags),
            CData::Invalid => (self.fail_data(), None),
        }
    }

    /// Send a message to all peers as the leader.
    pub fn send_from_leader(&mut self, data: CData<'_>, msg_type: u16, flags: u8) -> (r: (
        i32,
        Option<Delivery>,
    ))
        requires
            old(self).wf(),
        ensures
            final(self).wf(),
            match data {
                CData::Invalid => old(self)@.rejects_data(final(self)@, r.0) && r.1 is None,
                CData::Valid(d) => old(self)@.sends(
                    d@,
                    |n: NetworkView, x: Result<Delivery, NetworkError>|
                        n.router.leads_with(
                            n.transport,
                            n.election,
                            UserMessage { msg_type, data: d@, flags },
                            x,
                        ),
                    final(self)@,
                    r,
                ),
            },
    {
        let d = match data {
            CData::Valid(d) => d,
            CData::Invalid => {
                return (self.fail_data(), None);
            },
        };
        if let Err(code) = self.check_size(d.len()) {
            return (code, None);
        }
        let result = match &self.network {
            Some(n) => n.session_router.send_from_leader(
                &n.transport,
                &n.leader_election,
                msg_type,
                d,
                flags,
            ),
            None => Err(NetworkError::NotInitialized),
        };
        match result {
            Ok(x) => (error_codes::OK, Some(x)),
            Err(e) => {
                proof {
                    let n = self@.network->0;
                    let routes = |n: NetworkView, x: Result<Delivery, NetworkError>|
                        n.router.leads_with(
                            n.transport,
                            n.election,
                            UserMessage { msg_type, data: d@, flags },
                            x,
                        );
                    let p = |x: NetworkError| routes(n, Err(x));
                    assert(routes(n, Err(e)));
                    assert(p(e));
                }
                (self.fail(e), None)
            },
        }
    }

    /// Pass on a message of another node as the leader: to one peer, or to
    /// all where the target is null.
    pub fn forward_message(
        &mut self,
        from: CText,
        target: CText,
        data: CData<'_>,
        msg_type: u16,
        flags: u8,
    ) -> (r: (i32, Option<Delivery>))
        requires
            old(self).wf(),
        ensures
            final(self).wf(),
            match (from, data) {
                (CText::Valid(f), CData::Valid(d)) => match target {
                    CText::Invalid(_) => old(self)@.rejects_text(target, final(self)@, r.0)
                        && r.1 is None,
                    CText::Null => old(self)@.sends(
                        d@,
                        |n: NetworkView, x: Result<Delivery, NetworkError>|
                            n.router.forwards(
                                n.transport,
                                n.election,
                                f@,
                                ForwardTarget::Broadcast,
                                UserMessage { msg_type, data: d@, flags },
                                x,
                            ),
                        final(self)@,
                        r,
                    ),
                    CText::Valid(t) => old(self)@.sends(
                        d@,
                        |n: NetworkView, x: Result<Delivery, NetworkError>|
                            n.router.forwards_to(
                                n.transport,
                                n.election,
                                t@,
                                UserMessage { msg_type, data: d@, flags },
                                x,
                            ),
                        final(self)@,
                        r,
                    ),
                },
                (CText::Valid(_), CData::Invalid) => old(self)@.rejects_data(final(self)@, r.0)
                    && r.1 is None,
                _ => old(self)@.rejects_text(from, final(self)@, r.0) && r.1 is None,
            },
    {
        let origin = match c_str_to_string(from) {
            Ok(s) => s,
            Err(e) => {
                let ghost p = |x: NetworkError| reads(from, Err(x));
                assert(p(e));
                return (self.fail(e), None);
            },
        };
        let d = match data {
            CData::Valid(d) => d,
            CData::Invalid => {
                return (self.fail_data(), None);
            },
        };
        let from_pid = PeerId::new(origin.as_str());
        let fwd_target = match target {
            CText::Null => ForwardTarget::Broadcast,
            other => match c_str_to_string(other) {
                Ok(s) => ForwardTarget::ToPeer(PeerId::new(s.as_str())),
                Err(e) => {
                    let ghost p = |x: NetworkError| reads(target, Err(x));
                    assert(p(e));
                    return (self.fail(e), None);
                },
            },
        };
        if let Err(code) = self.check_size(d.len()) {
            return (code, None);
        }
        let ghost chosen = fwd_target;
        let result = match &self.network {
            Some(n) => n.session_router.forward_message(
                &n.transport,
                &n.leader_election,
                &from_pid,
                fwd_target,
                msg_type,
                flags,
                d,
            ),
            None => Err(NetworkError::NotInitialized),
        };
        match result {
            Ok(x) => (error_codes::OK, Some(x)),
            Err(e) => {
                proof {
                    let n = self@.network->0;
                    let m = UserMessage { msg_type, data: d@, flags };
                    if target is Valid {
                        let t = target->Valid_0;
                        let routes = |n: NetworkView, x: Result<Delivery, NetworkError>|
                            n.router.forwards_to(n.transport, n.election, t@, m, x);
                        let p = |x: NetworkError| routes(n, Err(x));
                        assert(routes(n, Err(e)));
                        assert(p(e));
                    } else {
                        let routes = |n: NetworkView, x: Result<Delivery, NetworkError>|
                            n.router.forwards(
                                n.transport,
                                n.election,
                                origin@,
                                ForwardTarget::Broadcast,
                                m,
                                x,
                            );
                        let p = |x: NetworkError| routes(n, Err(x));
                        assert(routes(n, Err(e)));
                        assert(p(e));
                    }
                }
                (self.fail(e), None)
            },
        }
    }

    /// The code to return once a packet for one peer was put into its queue,
    /// or was not.
    pub fn finish_send(&mut self, outcome: SendOutcome) -> (r: i32)
        requires
            old(self).wf(),
        ensures
            final(self).wf(),
            match outcome {
                SendOutcome::Queued => r == error_codes::OK && final(self)@ == old(self)@,
                _ => old(self)@.fails_with(
                    |e: NetworkError| transport::reports(Err(e), outcome),
                    final(self)@,
                    r,
                ),
            },
    {
        match transport::send_result(outcome) {
            Ok(()) => error_codes::OK,
            Err(e) => {
                let ghost p = |x: NetworkError| transport::reports(Err(x), outcome);
                assert(p(e));
                self.fail(e)
            },
        }
    }

    // --- callbacks ----------------------------------------------------------
    /// Note whether a callback for messages is registered.
    pub fn register_receive_callback(&mut self, registered: bool) -> (r: i32)
        requires
            old(self).wf(),
        ensures
            final(self).wf(),
            old(self)@.applies(
                |n: NetworkView|
                    NetworkView {
                        callback: callback::CallbackView { receive: registered, ..n.callback },
                        ..n
                    },
                final(self)@,
                r,
            ),
    {
        match self.network.take() {
            Some(n) => {
                let mut n = n;
                n.callback.register_receive_callback(registered);
                self.network = Some(n);
                error_codes::OK
            },
            None => self.fail_not_initialized(),
        }
    }

    /// Note whether a callback for leader changes is registered.
    pub fn register_leader_changed_callback(&mut self, registered: bool) -> (r: i32)
        requires
            old(self).wf(),
        ensures
            final(self).wf(),
            old(self)@.applies(
                |n: NetworkView|
                    NetworkView {
                        callback: callback::CallbackView {
                            leader_changed: registered,
                            ..n.callback
                        },
                        ..n
                    },
                final(self)@,
                r,
            ),
    {
        match self.network.take() {
            Some(n) => {
                let mut n = n;
                n.callback.register_leader_changed_callback(registered);
                self.network = Some(n);
                error_codes::OK
            },
            None => self.fail_not_initialized(),
        }
    }

    /// Note whether a callback for status changes is registered.
    pub fn register_peer_status_callback(&mut self, registered: bool) -> (r: i32)
        requires
            old(self).wf(),
        ensures
            final(self).wf(),
            old(self)@.applies(
                |n: NetworkView|
                    NetworkView {
                        callback: callback::CallbackView {
                            peer_status: registered,
                            ..n.callback
                        },
                        ..n
                    },
                final(self)@,
                r,
            ),
    {
        match self.network.take() {
            Some(n) => {
                let mut n = n;
                n.callback.register_peer_status_callback(registered);
                self.network = Some(n);
                error_codes::OK
            },
            None => self.fail_not_initialized(),
        }
    }

    /// Note whether a callback for connection results is registered.
    pub fn register_connection_result_callback(&mut self, registered: bool) -> (r: i32)
        requires
            old(self).wf(),
        ensures
            final(self).wf(),
            old(self)@.applies(
                |n: NetworkView|
                    NetworkView {
                        callback: callback::CallbackView {
                            connection_result: registered,
                            ..n.callback
                        },
                        ..n
                    },
                final(self)@,
                r,
            ),
    {
        match self.network.take() {
            Some(n) => {
                let mut n = n;
                n.callback.register_connection_result_callback(registered);
                self.network = Some(n);
                error_codes::OK
            },
            None => self.fail_not_initialized(),
        }
    }
}

// --- laws -------------------------------------------------------------------
/// Before initialization every operation on the node fails with the same code
/// and leaves everything but the last error as it is.
pub proof fn law_nothing_works_before_initialization(
    s: FfiView,
    change: spec_fn(NetworkView) -> NetworkView,
    data: Seq<u8>,
    routes: spec_fn(NetworkView, Result<Delivery, NetworkError>) -> bool,
    after: FfiView,
    code: i32,
    sent: Option<Delivery>,
)
    requires
        s.network is None,
        s.applies(change, after, code) || s.sends(data, routes, after, (code, sent)),
    ensures
        code == error_codes::NOT_INITIALIZED,
        after == s.with_error(code, "network not initialized"@),
{
}

/// A failure is never reported as success, and it is what the last error
/// then says.
pub proof fn law_failures_are_recorded(s: FfiView, e: NetworkError, after: FfiView, code: i32)
    requires
        s.fails(e, after, code),
    ensures
        code < error_codes::OK,
        after.last_error matches Some((c, m)) && c == code && e.is_message(m),
        after.network == s.network,
{
}

} // verus!
