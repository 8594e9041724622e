//! Promises to the application and to other nodes on the network: calls of
//! callbacks, what is published and whom that leads to connect, and which
//! configurations are taken.

use bytes::Bytes;
use vstd::prelude::*;
use vstd::utf8;

use crate::buffer;
use crate::callback::{
    self, CallbackCall, CallbackCallView, CallbackEvent, CallbackEventView, CallbackManager,
    CallbackView,
};
use crate::config::{ManualOverrideRecovery, NetworkConfig};
use crate::discovery::{DiscoveryManager, ResolvedService, ServiceRecord};
use crate::error::NetworkError;
use crate::membership::MembershipManager;
use crate::text;
use crate::types::{PeerId, PeerStatus};

verus! {

// --- callbacks --------------------------------------------------------------
/// Can the text be handed out as a C string? Not if it holds a NUL byte.
pub open spec fn is_c_text(t: Seq<char>) -> bool {
    !utf8::encode_utf8(t).contains(0u8)
}

/// A text is said to hold a NUL exactly if it cannot be handed out.
pub proof fn law_nul_is_found(t: &str, r: bool)
    requires
        call_ensures(callback::contains_nul, (t,), r),
    ensures
        r <==> !is_c_text(t@),
{
}

/// An event becomes a call of its callback, with all that it says, exactly if
/// that callback is registered and the text can be handed out. That there is
/// no leader is told by the empty text.
pub proof fn law_event_becomes_a_call(
    m: &CallbackManager,
    event: CallbackEvent,
    r: Option<CallbackCall>,
)
    requires
        call_ensures(CallbackManager::dispatch_event, (m, event), r),
    ensures
        match event@ {
            CallbackEventView::ConnectionResult { addr, success, error_code } => {
                &&& r is Some <==> m@.connection_result && is_c_text(addr)
                &&& r matches Some(c) ==> (c@ matches CallbackCallView::ConnectionResult {
                    addr: a,
                    success: s,
                    error_code: e,
                } && a == addr && (s == 1 <==> success) && (s == 0 <==> !success) && e
                    == error_code)
            },
            CallbackEventView::LeaderChanged { leader_id } => {
                &&& leader_id matches Some(l) ==> (r is Some <==> m@.leader_changed && is_c_text(
                    l,
                ))
                &&& leader_id is None && m@.leader_changed ==> r is Some
                &&& r is Some ==> m@.leader_changed
                &&& r matches Some(c) ==> (c@ matches CallbackCallView::LeaderChanged {
                    leader_id: l,
                } && (leader_id is None ==> l.len() == 0) && (leader_id is Some ==> Some(l)
                    == leader_id))
            },
            CallbackEventView::PeerStatusChanged { peer_id, status } => {
                &&& r is Some <==> m@.peer_status && is_c_text(peer_id)
                &&& r matches Some(c) ==> (c@ matches CallbackCallView::PeerStatusChanged {
                    peer_id: p,
                    status: s,
                } && p == peer_id && s == status)
            },
            CallbackEventView::Received { peer_id, data, msg_type, flags } => {
                &&& r is Some <==> m@.receive && is_c_text(peer_id)
                &&& r matches Some(c) ==> (c@ matches CallbackCallView::Received {
                    peer_id: p,
                    data: d,
                    length: n,
                    msg_type: t,
                    flags: f,
                } && p == peer_id && d == data && (data.len() <= i32::MAX ==> n == data.len()) && t
                    == msg_type && f == flags)
            },
        },
{
    assert(utf8::encode_utf8(Seq::<char>::empty()).len() == 0) by {
        reveal_with_fuel(utf8::encode_utf8, 2);
    }
}

/// While events are taken and fewer than 1024 wait, an event is queued behind
/// the others; else it is dropped, and nothing changes.
pub proof fn law_event_is_queued(m: &mut CallbackManager, event: CallbackEvent)
    requires
        call_ensures(CallbackManager::send_event, (m, event), ()),
    ensures
        old(m)@.open && old(m)@.queue.len() < 1024 ==> final(m)@.queue =~= old(m)@.queue + seq![
            event@,
        ],
        !old(m)@.open || old(m)@.queue.len() >= 1024 ==> final(m)@ == old(m)@,
        same_callbacks(old(m)@, final(m)@),
        final(m)@.open == old(m)@.open,
{
}

/// Are the same callbacks registered?
pub open spec fn same_callbacks(c: CallbackView, after: CallbackView) -> bool {
    &&& after.connection_result == c.connection_result
    &&& after.leader_changed == c.leader_changed
    &&& after.peer_status == c.peer_status
    &&& after.receive == c.receive
}

/// What is sent to the application is queued as what it is.
pub proof fn law_what_is_sent_is_queued(
    a: &mut CallbackManager,
    b: &mut CallbackManager,
    c: &mut CallbackManager,
    d: &mut CallbackManager,
    addr: &str,
    success: bool,
    code: i32,
    leader: Option<&PeerId>,
    peer: &PeerId,
    status: i32,
    data: Bytes,
    msg_type: u16,
    flags: u8,
)
    requires
        call_ensures(CallbackManager::send_connection_result, (a, addr, success, code), ()),
        call_ensures(CallbackManager::send_leader_changed, (b, leader), ()),
        call_ensures(CallbackManager::send_peer_status, (c, peer, status), ()),
        call_ensures(CallbackManager::send_received, (d, peer, data, msg_type, flags), ()),
        old(a)@.open && old(a)@.queue.len() < 1024,
        old(b)@.open && old(b)@.queue.len() < 1024,
        old(c)@.open && old(c)@.queue.len() < 1024,
        old(d)@.open && old(d)@.queue.len() < 1024,
    ensures
        final(a)@.queue.last() == (CallbackEventView::ConnectionResult {
            addr: addr@,
            success,
            error_code: code,
        }),
        leader matches Some(l) ==> final(b)@.queue.last() == (CallbackEventView::LeaderChanged {
            leader_id: Some(l@),
        }),
        leader is None ==> final(b)@.queue.last() == (CallbackEventView::LeaderChanged {
            leader_id: None,
        }),
        final(c)@.queue.last() == (CallbackEventView::PeerStatusChanged {
            peer_id: peer@,
            status,
        }),
        final(d)@.queue.last() == (CallbackEventView::Received {
            peer_id: peer@,
            data: buffer::contents(data),
            msg_type,
            flags,
        }),
{
}

/// Events are handed out in the order in which they were queued, each once;
/// after the manager was shut down none is taken and none handed out.
pub proof fn law_events_are_handed_out_in_order(
    m: &mut CallbackManager,
    r: Option<CallbackEvent>,
    s: &mut CallbackManager,
)
    requires
        call_ensures(CallbackManager::next_event, (m,), r),
        call_ensures(CallbackManager::drain_and_shutdown, (s,), ()),
    ensures
        old(m)@.open && old(m)@.queue.len() > 0 ==> {
            &&& r matches Some(e) && e@ == old(m)@.queue.first()
            &&& old(m)@.queue =~= seq![old(m)@.queue.first()] + final(m)@.queue
        },
        !old(m)@.open || old(m)@.queue.len() == 0 ==> r is None && final(m)@ == old(m)@,
        same_callbacks(old(m)@, final(m)@),
        final(m)@.open == old(m)@.open,
        !final(s)@.open,
        same_callbacks(old(s)@, final(s)@),
{
}

/// Registering a callback, or taking it back, concerns that callback alone.
pub proof fn law_registering_callbacks(
    a: &mut CallbackManager,
    b: &mut CallbackManager,
    c: &mut CallbackManager,
    d: &mut CallbackManager,
    registered: bool,
)
    requires
        call_ensures(CallbackManager::register_connection_result_callback, (a, registered), ()),
        call_ensures(CallbackManager::register_leader_changed_callback, (b, registered), ()),
        call_ensures(CallbackManager::register_peer_status_callback, (c, registered), ()),
        call_ensures(CallbackManager::register_receive_callback, (d, registered), ()),
    ensures
        final(a)@ == (CallbackView { connection_result: registered, ..old(a)@ }),
        final(b)@ == (CallbackView { leader_changed: registered, ..old(b)@ }),
        final(c)@ == (CallbackView { peer_status: registered, ..old(c)@ }),
        final(d)@ == (CallbackView { receive: registered, ..old(d)@ }),
{
}

/// The numbers that stand for statuses are these.
pub proof fn law_numbers_of_statuses(s: PeerStatus, r: i32)
    requires
        call_ensures(PeerStatus::as_i32, (s,), r),
    ensures
        r == 0 <==> s == PeerStatus::Connected,
        r == 1 <==> s == PeerStatus::Disconnected,
        r == 2 <==> s == PeerStatus::Reconnecting,
        r == 3 <==> s == PeerStatus::Handshaking,
{
}

// --- discovery --------------------------------------------------------------
/// A node connects to one that it found exactly if that is of its session,
/// is another node, is no member yet, and does not come before it by name.
pub proof fn law_whom_a_node_connects_to(
    local: &PeerId,
    session: &str,
    peer: &str,
    peer_session: &str,
    m: &MembershipManager,
    r: bool,
)
    requires
        call_ensures(
            DiscoveryManager::should_connect_to_discovered_peer,
            (local, session, peer, peer_session, m),
            r,
        ),
    ensures
        peer_session@ != session@ ==> !r,
        peer@ == local@ ==> !r,
        m@.peers.contains(peer@) ==> !r,
        text::text_less(peer@, local@) ==> !r,
        peer_session@ == session@ && !m@.peers.contains(peer@) && text::text_less(
            local@,
            peer@,
        ) ==> r,
{
    text::law_text_order_is_total(local@, peer@, local@);
}

/// Of two nodes of a session that find each other and are not members of each
/// other yet, exactly one connects.
pub proof fn law_one_of_two_that_find_each_other_connects(
    a: &PeerId,
    b: &PeerId,
    a_name: &str,
    b_name: &str,
    session: &str,
    of_a: &MembershipManager,
    of_b: &MembershipManager,
    ra: bool,
    rb: bool,
)
    requires
        a@ == a_name@,
        b@ == b_name@,
        a@ != b@,
        !of_a@.peers.contains(b@),
        !of_b@.peers.contains(a@),
        call_ensures(
            DiscoveryManager::should_connect_to_discovered_peer,
            (a, session, b_name, session, of_a),
            ra,
        ),
        call_ensures(
            DiscoveryManager::should_connect_to_discovered_peer,
            (b, session, a_name, session, of_b),
            rb,
        ),
    ensures
        ra <==> !rb,
        ra <==> text::text_less(a@, b@),
{
    text::law_text_order_is_total(a@, b@, a@);
}

/// The address that a node connects to is the first one of the node that it
/// found, with its port. There is none if it does not connect to that node,
/// if that does not say its name and session, or has no address.
pub proof fn law_where_a_node_connects_to(
    d: &DiscoveryManager,
    found: &ResolvedService,
    m: &MembershipManager,
    r: Option<String>,
)
    requires
        call_ensures(DiscoveryManager::connect_target, (d, found, m), r),
    ensures
        found.session_id is None || found.peer_id is None || found.addresses@.len() == 0
            ==> r is None,
        found.session_id is Some && found.peer_id is Some && found.addresses@.len() > 0 ==> {
            let peer = found.peer_id->0@;
            let connects = found.session_id->0@ == d@.session && peer != d@.local
                && !m@.peers.contains(peer) && !text::text_less(peer, d@.local);
            &&& connects ==> (r matches Some(t) && t@ == found.addresses@[0]@ + ":"@
                + text::decimal(found.port as nat))
            &&& !connects ==> r is None
        },
{
}

/// Does the record say this under this name?
pub open spec fn says(r: ServiceRecord, name: Seq<char>, value: Seq<char>) -> bool {
    exists|i: int|
        0 <= i < r.properties@.len() && (#[trigger] r.properties@[i]).0@ == name
            && r.properties@[i].1@ == value
}

/// What a node publishes says its name, its session and the version, under
/// the port that it listens on; the name of the record holds both names.
pub proof fn law_what_a_node_publishes(
    d: &DiscoveryManager,
    host: Option<String>,
    r: ServiceRecord,
    full: String,
)
    requires
        call_ensures(DiscoveryManager::service_record, (d, host), r),
        call_ensures(DiscoveryManager::full_name, (d,), full),
    ensures
        says(r, "peer_id"@, d@.local),
        says(r, "session_id"@, d@.session),
        says(r, "protocol_version"@, text::decimal(crate::config::PROTOCOL_VERSION as nat)),
        r.properties@.len() == 3,
        r.port == d@.listen_port,
        r.service_type@ == "_meta-mystia._tcp.local."@,
        r.instance_name@ == d@.session + "_"@ + d@.local,
        full@ == r.instance_name@ + "."@ + r.service_type@,
        host matches Some(h) ==> r.host_name@ == h@ + ".local."@,
{
    let pairs = crate::protocol::pairs_view(r.properties@);
    assert(pairs.len() == 3);
    assert(pairs[0] == (r.properties@[0].0@, r.properties@[0].1@));
    assert(pairs[1] == (r.properties@[1].0@, r.properties@[1].1@));
    assert(pairs[2] == (r.properties@[2].0@, r.properties@[2].1@));
}

/// A node whose record is found is connected to by the nodes of its session
/// that come before it by name and do not know it yet, and by no others.
pub proof fn law_published_node_is_found(
    a: &DiscoveryManager,
    b: &DiscoveryManager,
    found: &ResolvedService,
    m: &MembershipManager,
    r: Option<String>,
)
    requires
        found.peer_id matches Some(p) && p@ == a@.local,
        found.session_id matches Some(s) && s@ == a@.session,
        found.addresses@.len() > 0,
        call_ensures(DiscoveryManager::connect_target, (b, found, m), r),
        a@.local != b@.local,
    ensures
        r is Some <==> a@.session == b@.session && text::text_less(b@.local, a@.local)
            && !m@.peers.contains(a@.local),
{
    text::law_text_order_is_total(a@.local, b@.local, a@.local);
}

// --- configuration ----------------------------------------------------------
/// A configuration is taken exactly if every interval, limit and capacity is
/// positive and every lower bound keeps below its upper one; the error for one
/// that is not says which parameter is at fault.
pub proof fn law_which_configurations_are_taken(
    c: &NetworkConfig,
    r: Result<(), NetworkError>,
)
    requires
        call_ensures(NetworkConfig::validate, (c,), r),
    ensures
        c.heartbeat_interval_ms == 0 ==> r is Err,
        c.heartbeat_interval_ms >= c.election_timeout_min_ms ==> r is Err,
        c.election_timeout_min_ms > c.election_timeout_max_ms ==> r is Err,
        c.heartbeat_timeout_multiplier == 0 ==> r is Err,
        c.reconnect_initial_ms == 0 ==> r is Err,
        c.reconnect_initial_ms > c.reconnect_max_ms ==> r is Err,
        c.send_queue_capacity == 0 ==> r is Err,
        c.max_connections == 0 ==> r is Err,
        c.max_message_size == 0 ==> r is Err,
        c.handshake_timeout_ms == 0 ==> r is Err,
        r is Err ==> r->Err_0 is InvalidArgument,
        r is Err ==> {
            ||| c.heartbeat_interval_ms == 0
            ||| c.heartbeat_interval_ms >= c.election_timeout_min_ms
            ||| c.election_timeout_min_ms > c.election_timeout_max_ms
            ||| c.heartbeat_timeout_multiplier == 0
            ||| c.reconnect_initial_ms == 0
            ||| c.reconnect_initial_ms > c.reconnect_max_ms
            ||| c.send_queue_capacity == 0
            ||| c.max_connections == 0
            ||| c.max_message_size == 0
            ||| c.handshake_timeout_ms == 0
        },
{
}

/// The number one stands for electing a new leader when an assigned one is
/// lost, every other for holding on.
pub proof fn law_numbers_of_recovery(v: u8, r: ManualOverrideRecovery)
    requires
        call_ensures(ManualOverrideRecovery::from_u8, (v,), r),
    ensures
        r == ManualOverrideRecovery::AutoElect <==> v == 1,
        r == ManualOverrideRecovery::Hold <==> v != 1,
{
}

/// Errors of the same code are of the same category: only what concerns a
/// connection being set up, and what is not supposed to happen, share theirs.
pub proof fn law_codes_tell_errors_apart(a: NetworkError, b: NetworkError, ca: i32, cb: i32)
    requires
        call_ensures(NetworkError::error_code, (&a,), ca),
        call_ensures(NetworkError::error_code, (&b,), cb),
    ensures
        ca < 0,
        ca == cb && !(a is Io) && !(a is ConnectionFailed) && !(a is HandshakeFailed) && !(
        a is HandshakeTimeout) && !(a is NotImplemented) && !(a is Internal) ==> (
        a is NotInitialized <==> b is NotInitialized) && (a is AlreadyInitialized
            <==> b is AlreadyInitialized) && (a is InvalidArgument <==> b is InvalidArgument) && (
        a is PeerNotFound <==> b is PeerNotFound) && (a is DuplicatePeerId
            <==> b is DuplicatePeerId) && (a is AlreadyConnected <==> b is AlreadyConnected) && (
        a is VersionMismatch <==> b is VersionMismatch) && (a is SessionMismatch
            <==> b is SessionMismatch) && (a is NotLeader <==> b is NotLeader) && (
        a is MaxConnectionsReached <==> b is MaxConnectionsReached) && (a is SendQueueFull
            <==> b is SendQueueFull) && (a is MessageTooLarge <==> b is MessageTooLarge) && (
        a is Serialization <==> b is Serialization),
        (a is Io || a is ConnectionFailed || a is HandshakeFailed || a is HandshakeTimeout) && (
        b is Io || b is ConnectionFailed || b is HandshakeFailed || b is HandshakeTimeout) ==> ca
            == cb,
{
}

/// Of two names the order says which comes first: the one whose first byte
/// that differs is smaller, or that is a beginning of the other.
pub proof fn law_order_of_names(a: &PeerId, b: &PeerId, r: bool)
    requires
        call_ensures(PeerId::less_than, (a, b), r),
    ensures
        ({
            let x = utf8::encode_utf8(a@);
            let y = utf8::encode_utf8(b@);
            r <==> exists|n: int|
                {
                    &&& 0 <= n <= x.len()
                    &&& n < y.len()
                    &&& #[trigger] x.take(n) == y.take(n)
                    &&& n == x.len() || x[n] < y[n]
                }
        }),
{
    lemma_order_of_bytes(utf8::encode_utf8(a@), utf8::encode_utf8(b@));
}

proof fn lemma_order_of_bytes(x: Seq<u8>, y: Seq<u8>)
    ensures
        text::bytes_less(x, y) <==> exists|n: int|
            {
                &&& 0 <= n <= x.len()
                &&& n < y.len()
                &&& #[trigger] x.take(n) == y.take(n)
                &&& n == x.len() || x[n] < y[n]
            },
    decreases x.len(),
{
    if y.len() > 0 {
        assert(x.take(0) =~= y.take(0));
        if x.len() > 0 && x[0] == y[0] {
            let (u, v) = (x.skip(1), y.skip(1));
            lemma_order_of_bytes(u, v);
            if text::bytes_less(u, v) {
                let n = choose|n: int|
                    {
                        &&& 0 <= n <= u.len()
                        &&& n < v.len()
                        &&& #[trigger] u.take(n) == v.take(n)
                        &&& n == u.len() || u[n] < v[n]
                    };
                assert(x.take(n + 1) =~= seq![x[0]] + u.take(n));
                assert(y.take(n + 1) =~= seq![y[0]] + v.take(n));
                assert(x.take(n + 1) == y.take(n + 1));
            }
            if exists|n: int|
                {
                    &&& 0 <= n <= x.len()
                    &&& n < y.len()
                    &&& #[trigger] x.take(n) == y.take(n)
                    &&& n == x.len() || x[n] < y[n]
                } {
                let n = choose|n: int|
                    {
                        &&& 0 <= n <= x.len()
                        &&& n < y.len()
                        &&& #[trigger] x.take(n) == y.take(n)
                        &&& n == x.len() || x[n] < y[n]
                    };
                assert(u.take(n - 1) =~= x.take(n).skip(1));
                assert(v.take(n - 1) =~= y.take(n).skip(1));
                assert(u.take(n - 1) == v.take(n - 1));
            }
        } else if x.len() > 0 {
            if exists|n: int|
                {
                    &&& 0 <= n <= x.len()
                    &&& n < y.len()
                    &&& #[trigger] x.take(n) == y.take(n)
                    &&& n == x.len() || x[n] < y[n]
                } {
                let n = choose|n: int|
                    {
                        &&& 0 <= n <= x.len()
                        &&& n < y.len()
                        &&& #[trigger] x.take(n) == y.take(n)
                        &&& n == x.len() || x[n] < y[n]
                    };
                if n > 0 {
                    assert(x.take(n)[0] == x[0]);
                    assert(y.take(n)[0] == y[0]);
                }
            }
        }
    }
}

} // verus!
