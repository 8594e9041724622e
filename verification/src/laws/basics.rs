//! Promises of the small parts: texts, tables, queries and settings, errors,
//! and the form of internal messages.

use vstd::prelude::*;

use crate::clock;
use crate::config::NetworkConfig;
use crate::discovery::DiscoveryManager;
use crate::error::NetworkError;
use crate::leader::{LeaderElection, Role};
use crate::membership::{MembershipEvent, MembershipManager, Received};
use crate::peer_map::PeerMap;
use crate::protocol::{InternalMessage, MessageView};
use crate::session_router::SessionRouter;
use crate::text;
use crate::transport::handshake;
use crate::transport::TransportManager;
use crate::types::{PeerId, PeerStatus};
use crate::wire;

verus! {

// --- texts ------------------------------------------------------------------
/// The number that decimal digits stand for.
pub open spec fn value_of(t: Seq<char>) -> int
    decreases t.len(),
{
    if t.len() == 0 {
        0
    } else {
        value_of(t.drop_last()) * 10 + (t.last() as int - '0' as int)
    }
}

proof fn lemma_decimal(n: nat)
    ensures
        value_of(text::decimal(n)) == n,
        text::decimal(n).len() > 0,
        forall|i: int|
            0 <= i < text::decimal(n).len() ==> '0' <= #[trigger] text::decimal(n)[i] <= '9',
        n > 0 ==> text::decimal(n)[0] != '0',
    decreases n,
{
    reveal_with_fuel(value_of, 2);
    let d = text::decimal(n);
    if n >= 10 {
        lemma_decimal(n / 10);
        assert(d.drop_last() =~= text::decimal(n / 10));
        assert forall|i: int| 0 <= i < d.len() implies '0' <= #[trigger] d[i] <= '9' by {
            if i < d.len() - 1 {
                assert(d[i] == text::decimal(n / 10)[i]);
            }
        }
        assert(d[0] == text::decimal(n / 10)[0]);
    } else {
        assert(d.drop_last() =~= seq![]);
    }
}

/// A number is written as decimal digits, without leading zeros, behind what
/// stands there already.
pub proof fn law_number_is_written_in_decimal(out: &mut String, n: u64)
    requires
        call_ensures(text::append_decimal, (out, n), ()),
    ensures
        ({
            let digits = final(out)@.skip(old(out)@.len() as int);
            &&& old(out)@.is_prefix_of(final(out)@)
            &&& digits == text::decimal(n as nat)
            &&& digits.len() > 0
            &&& value_of(digits) == n
            &&& n > 0 ==> digits[0] != '0'
            &&& n == 0 ==> digits.len() == 1
        }),
{
    lemma_decimal(n as nat);
    assert(final(out)@.skip(old(out)@.len() as int) =~= text::decimal(n as nat));
}

/// Two texts are found equal exactly if they are, and put together one stands
/// behind the other.
pub proof fn law_texts(a: &str, b: &str, same: bool, both: String)
    requires
        call_ensures(text::str_eq, (a, b), same),
        call_ensures(text::concat, (a, b), both),
    ensures
        same <==> a@ == b@,
        both@.take(a@.len() as int) == a@,
        both@.skip(a@.len() as int) == b@,
{
    assert(both@.take(a@.len() as int) =~= a@);
    assert(both@.skip(a@.len() as int) =~= b@);
}

/// A name is its text.
pub proof fn law_names(
    t: &str,
    id: PeerId,
    as_text: &str,
    owned: String,
)
    requires
        call_ensures(PeerId::new, (t,), id),
        call_ensures(PeerId::as_str, (&id,), as_text),
        call_ensures(PeerId::to_string, (&id,), owned),
    ensures
        id@ == t@,
        as_text@ == t@,
        owned@ == t@,
{
}

// --- tables -----------------------------------------------------------------
/// What was put under a name is found under it, and nothing else has changed;
/// what is taken out is handed out and found no more.
pub proof fn law_table<V>(
    m: &mut PeerMap<V>,
    k: PeerId,
    v: V,
    n: &mut PeerMap<V>,
    gone: &PeerId,
    r: Option<V>,
    x: Seq<char>,
)
    requires
        old(n)@.wf(),
        call_ensures(PeerMap::<V>::insert, (m, k, v), ()),
        call_ensures(PeerMap::<V>::remove, (n, gone), r),
    ensures
        final(m)@.contains(k@),
        final(m)@.vals[k@] == v,
        x != k@ ==> final(m)@.contains(x) == old(m)@.contains(x) && final(m)@.vals[x]
            == old(m)@.vals[x],
        !final(n)@.contains(gone@),
        old(n)@.contains(gone@) ==> r == Some(old(n)@.vals[gone@]),
        !old(n)@.contains(gone@) ==> r is None,
        x != gone@ ==> final(n)@.contains(x) == old(n)@.contains(x) && final(n)@.vals[x]
            == old(n)@.vals[x],
{
}

/// What a table is asked.
pub proof fn law_table_is_asked<V>(
    m: &PeerMap<V>,
    k: &PeerId,
    known: bool,
    v: Option<&V>,
    n: usize,
    fresh: PeerMap<V>,
    x: Seq<char>,
)
    requires
        call_ensures(PeerMap::<V>::contains, (m, k), known),
        call_ensures(PeerMap::<V>::get, (m, k), v),
        call_ensures(PeerMap::<V>::len, (m,), n),
        call_ensures(PeerMap::<V>::new, (), fresh),
    ensures
        known <==> m@.contains(k@),
        known ==> (v matches Some(y) && *y == m@.vals[k@]),
        !known ==> v is None,
        n == m@.keys.len(),
        !fresh@.contains(x),
        fresh@.keys.len() == 0,
{
}

// --- queries and settings ---------------------------------------------------
/// What the table of members is asked about a peer is answered from its
/// record; of any other nothing is known.
pub proof fn law_what_is_known_of_a_member(
    m: &MembershipManager,
    k: &PeerId,
    known: bool,
    status: Option<PeerStatus>,
    rtt: Option<u32>,
)
    requires
        call_ensures(MembershipManager::has_peer, (m, k), known),
        call_ensures(MembershipManager::get_peer_status, (m, k), status),
        call_ensures(MembershipManager::get_peer_rtt, (m, k), rtt),
    ensures
        known <==> m@.peers.contains(k@),
        known ==> status == Some(m@.peers.vals[k@].status) && rtt == m@.peers.vals[k@].rtt_ms,
        !known ==> status is None && rtt is None,
{
}

/// The oldest event that waits is handed out, after it was told once that
/// events were lost. Taking all hands out all that wait, in their order.
pub proof fn law_events_are_handed_out(
    m: &mut MembershipManager,
    r: Received,
    n: &mut MembershipManager,
    all: Vec<MembershipEvent>,
)
    requires
        call_ensures(MembershipManager::next_event, (m,), r),
        call_ensures(MembershipManager::take_events, (n,), all),
    ensures
        r is Lagged <==> old(m)@.lagged,
        !old(m)@.lagged && old(m)@.events.len() > 0 ==> {
            &&& r matches Received::Event(e) && e@ == old(m)@.events.first()
            &&& old(m)@.events =~= seq![old(m)@.events.first()] + final(m)@.events
        },
        !old(m)@.lagged && old(m)@.events.len() == 0 ==> r is Empty,
        old(m)@.lagged ==> final(m)@.events == old(m)@.events,
        !final(m)@.lagged,
        final(m)@.peers == old(m)@.peers,
        all@.len() == old(n)@.events.len(),
        forall|i: int| 0 <= i < all@.len() ==> (#[trigger] all@[i])@ == old(n)@.events[i],
        final(n)@.events.len() == 0,
        !final(n)@.lagged,
        final(n)@.peers == old(n)@.peers,
{
    let views = crate::membership::events_view(all@);
    assert forall|i: int| 0 <= i < all@.len() implies (#[trigger] all@[i])@ == old(
        n,
    )@.events[i] by {
        assert(views[i] == all@[i]@);
    }
}

/// A new table of members lists nobody, and there are no new connections.
pub proof fn law_new_tables_are_empty(
    local: PeerId,
    config: NetworkConfig,
    session: String,
    addr: String,
    port: u16,
    m: MembershipManager,
    t: TransportManager,
    k: Seq<char>,
)
    requires
        call_ensures(MembershipManager::new, (local, config), m),
        call_ensures(TransportManager::new, (local, session, config, addr, port), t),
    ensures
        m@.local == local@,
        m@.config == config,
        !m@.peers.contains(k),
        m@.peers.keys.len() == 0,
        m@.events.len() == 0,
        !m@.lagged,
        t@.local == local@,
        t@.session == session@,
        t@.config == config,
        t@.listen_addr == addr@,
        t@.listen_port == port,
        !t@.connections.contains(k),
        t@.connections.keys.len() == 0,
        t@.auto_reconnect == config.auto_reconnect_enabled,
        !t@.stopped,
{
}

/// What the election is asked about is its state.
pub proof fn law_what_the_election_says(
    e: &LeaderElection,
    role: Role,
    leads: bool,
    leader: Option<PeerId>,
    term: u64,
    auto: bool,
    by_hand: bool,
)
    requires
        call_ensures(LeaderElection::role, (e,), role),
        call_ensures(LeaderElection::is_leader, (e,), leads),
        call_ensures(LeaderElection::leader_id, (e,), leader),
        call_ensures(LeaderElection::current_term, (e,), term),
        call_ensures(LeaderElection::is_auto_election_enabled, (e,), auto),
        call_ensures(LeaderElection::is_manual_override, (e,), by_hand),
    ensures
        role == e@.role,
        leads <==> role == Role::Leader,
        leader matches Some(l) ==> e@.leader == Some(l@),
        leader is None ==> e@.leader is None,
        term == e@.term,
        auto == e@.auto_election,
        by_hand == e@.manual_override,
{
}

/// What the connections are asked about is their state.
pub proof fn law_what_the_connections_say(
    t: &TransportManager,
    addr: &str,
    port: u16,
    local: &PeerId,
    session: &str,
    config: NetworkConfig,
    count: usize,
    restores: bool,
    u: &mut TransportManager,
    enabled: bool,
)
    requires
        call_ensures(TransportManager::listener_addr, (t,), addr),
        call_ensures(TransportManager::listener_port, (t,), port),
        call_ensures(TransportManager::local_peer_id, (t,), local),
        call_ensures(TransportManager::session_id, (t,), session),
        call_ensures(TransportManager::config, (t,), config),
        call_ensures(TransportManager::connection_count, (t,), count),
        call_ensures(TransportManager::is_auto_reconnect_enabled, (t,), restores),
        call_ensures(TransportManager::set_auto_reconnect, (u, enabled), ()),
    ensures
        addr@ == t@.listen_addr,
        port == t@.listen_port,
        local@ == t@.local,
        session@ == t@.session,
        config == t@.config,
        count == t@.connections.keys.len(),
        restores == t@.auto_reconnect,
        final(u)@.auto_reconnect == enabled,
        final(u)@.connections == old(u)@.connections,
        final(u)@.stopped == old(u)@.stopped,
        final(u)@.session == old(u)@.session,
        final(u)@.local == old(u)@.local,
        final(u)@.config == old(u)@.config,
{
}

/// The settings of the router are what they were set to last; a new one is not
/// in centralized mode.
pub proof fn law_settings_of_the_router(
    local: PeerId,
    config: NetworkConfig,
    r: SessionRouter,
    a: &mut SessionRouter,
    b: &mut SessionRouter,
    c: &mut SessionRouter,
    enable: bool,
    threshold: u32,
    s: &SessionRouter,
    centralized: bool,
    forwards: bool,
    set: u32,
)
    requires
        call_ensures(SessionRouter::new, (local, config), r),
        call_ensures(SessionRouter::set_centralized, (a, enable), ()),
        call_ensures(SessionRouter::set_auto_forward, (b, enable), ()),
        call_ensures(SessionRouter::set_compression_threshold, (c, threshold), ()),
        call_ensures(SessionRouter::is_centralized, (s,), centralized),
        call_ensures(SessionRouter::is_auto_forward, (s,), forwards),
        call_ensures(SessionRouter::compression_threshold, (s,), set),
    ensures
        r@.local == local@,
        !r@.centralized,
        r@.auto_forward == config.centralized_auto_forward,
        r@.compression_threshold == config.compression_threshold,
        r@.max_message_size == config.max_message_size,
        final(a)@.centralized == enable,
        final(a)@.auto_forward == old(a)@.auto_forward,
        final(a)@.local == old(a)@.local,
        final(a)@.max_message_size == old(a)@.max_message_size,
        final(b)@.auto_forward == enable,
        final(b)@.centralized == old(b)@.centralized,
        final(b)@.local == old(b)@.local,
        final(b)@.max_message_size == old(b)@.max_message_size,
        final(c)@.compression_threshold == threshold,
        final(c)@.centralized == old(c)@.centralized,
        final(c)@.auto_forward == old(c)@.auto_forward,
        final(c)@.max_message_size == old(c)@.max_message_size,
        centralized == s@.centralized,
        forwards == s@.auto_forward,
        set == s@.compression_threshold,
{
}

/// Discovery is of the node that it was made for.
pub proof fn law_new_discovery(
    local: PeerId,
    session: String,
    port: u16,
    r: DiscoveryManager,
    server: &str,
    s: Result<(), NetworkError>,
)
    requires
        call_ensures(DiscoveryManager::new, (local, session, port), r),
        call_ensures(DiscoveryManager::connect_to_discovery_server, (server,), s),
    ensures
        r@.local == local@,
        r@.session == session@,
        r@.listen_port == port,
        s matches Err(NetworkError::NotImplemented),
{
}

/// The time between sending and receiving is their difference, none where the
/// clock went back; a time before the epoch counts as the epoch.
pub proof fn law_times(now: u64, sent: u64, rtt: u32, since: Option<u128>, stamp: u64)
    requires
        call_ensures(clock::round_trip_ms, (now, sent), rtt),
        call_ensures(clock::timestamp_ms, (since,), stamp),
    ensures
        sent <= now <= sent + u32::MAX ==> rtt == now - sent,
        now < sent ==> rtt == 0,
        since is None ==> stamp == 0,
        since is Some && since->0 <= u64::MAX ==> stamp == since->0,
{
}

// --- errors -----------------------------------------------------------------
/// The message of an error ends in its detail, if it has one, behind a text
/// that says what kind of error it is.
pub proof fn law_message_of_an_error(e: &NetworkError, r: String)
    requires
        call_ensures(NetworkError::to_string, (e,), r),
    ensures
        match *e {
            NetworkError::InvalidArgument(m) => r@ == "invalid argument: "@ + m@,
            NetworkError::ConnectionFailed(m) => r@ == "connection failed: "@ + m@,
            NetworkError::HandshakeFailed(m) => r@ == "handshake failed: "@ + m@,
            NetworkError::PeerNotFound(m) => r@ == "peer not found: "@ + m@,
            NetworkError::DuplicatePeerId(m) => r@ == "duplicate peer id: "@ + m@,
            NetworkError::AlreadyConnected(m) => r@ == "already connected: "@ + m@,
            NetworkError::Internal(m) => r@ == "internal error: "@ + m@,
            NetworkError::MessageTooLarge(n) => r@ == "message too large: "@ + text::decimal(
                n as nat,
            ) + " bytes"@,
            NetworkError::VersionMismatch { expected, got } => r@
                == "version mismatch: expected "@ + text::decimal(expected as nat) + ", got "@
                + text::decimal(got as nat),
            NetworkError::SessionMismatch { expected, got } => r@
                == "session mismatch: expected "@ + expected@ + ", got "@ + got@,
            NetworkError::NotInitialized => r@ == "network not initialized"@,
            NetworkError::AlreadyInitialized => r@ == "network already initialized"@,
            NetworkError::HandshakeTimeout => r@ == "handshake timeout"@,
            NetworkError::NotLeader => r@ == "not leader"@,
            NetworkError::MaxConnectionsReached => r@ == "max connections reached"@,
            NetworkError::SendQueueFull => r@ == "send queue full"@,
            NetworkError::NotImplemented => r@ == "not implemented"@,
            NetworkError::Io(_) => "IO error: "@.is_prefix_of(r@),
            NetworkError::Serialization(_) => "serialization error: "@.is_prefix_of(r@),
        },
{
}

/// The error for a packet that could not be sent is one of the connection, and
/// says which packet it was.
pub proof fn law_failed_sending_is_an_error(what: &str, cause: &NetworkError, r: NetworkError)
    requires
        call_ensures(handshake::send_failed, (what, cause), r),
    ensures
        r matches NetworkError::ConnectionFailed(m) && ("failed to send "@ + what@).is_prefix_of(
            m@,
        ),
{
    if let NetworkError::ConnectionFailed(m) = r {
        let t = choose|t: Seq<char>|
            #[trigger] cause.is_message(t) && m@ == "failed to send "@ + what@ + ": "@ + t;
        let p = "failed to send "@ + what@;
        assert(m@ == p + ": "@ + t);
        assert(m@.take(p.len() as int) =~= p);
    }
}

// --- internal messages ------------------------------------------------------
/// The form of a message begins with the number of its kind, and what begins
/// with no such number is no message.
pub proof fn law_form_begins_with_its_kind(m: MessageView, s: Seq<u8>)
    ensures
        wire::message_form(m).len() > 0,
        wire::message_form(m)[0] == m.index(),
        m.index() < 14,
        s.len() > 0 && 14 <= s[0] < 128 ==> wire::take_message(s) is None,
        s.len() == 0 ==> wire::take_message(s) is None,
{
}

/// What was written of a message is read as the message.
pub proof fn law_message_is_read_as_written(
    m: &InternalMessage,
    w: Result<Vec<u8>, NetworkError>,
    s: &[u8],
    r: Result<InternalMessage, NetworkError>,
)
    requires
        call_ensures(wire::write_message, (m,), w),
        w matches Ok(v) && v@ == s@ && v@.len() <= usize::MAX,
        call_ensures(wire::read_message, (s,), r),
    ensures
        r matches Ok(x) && x@ == m@,
{
    wire::law_lengths_fit_within_form(m@);
    wire::law_read_gives_back_written(m@, seq![]);
    assert(wire::message_form(m@) + Seq::<u8>::empty() =~= wire::message_form(m@));
}

/// The type of a message tells its kind: it is below the types of user
/// messages, and two messages are of the same type exactly if they are of the
/// same kind.
pub proof fn law_types_tell_kinds_apart(
    a: &InternalMessage,
    b: &InternalMessage,
    ta: u16,
    tb: u16,
)
    requires
        call_ensures(InternalMessage::msg_type, (a,), ta),
        call_ensures(InternalMessage::msg_type, (b,), tb),
    ensures
        ta < 0x0100,
        ta == tb <==> a@.index() == b@.index(),
{
    crate::protocol::law_code_identifies_kind(a@, b@);
}

} // verus!
