//! Promises of the operations for C callers.

use vstd::prelude::*;

use crate::config::{ManualOverrideRecovery, NetworkConfig};
use crate::error::NetworkError;
use crate::ffi::{self, CData, CText, FfiState, FfiView, NetworkConfigFFI};
use crate::laws::connections;
use crate::laws::election;
use crate::laws::members;
use crate::laws::node;
use crate::laws::routing;
use crate::leader::Role;
use crate::membership::EventView;
use crate::network::{NetworkState, NetworkView};
use crate::protocol::MessageView;
use crate::session_router::{Delivery, UserMessage};
use crate::transport::{self, Disconnect, Outgoing, SendOutcome};
use crate::types::{MessageTarget, PeerStatus};
use crate::wire;

verus! {

/// Has the operation failed with this code: the last error says so, and the
/// node is as it was?
pub open spec fn has_failed(s: FfiView, after: FfiView, code: i32) -> bool {
    &&& code < 0
    &&& after.last_error matches Some((c, _)) && c == code
    &&& after.network == s.network
}

/// Has the operation succeeded and changed nothing but the node?
pub open spec fn has_succeeded(s: FfiView, after: FfiView, code: i32) -> bool {
    &&& code == 0
    &&& after.last_error == s.last_error
}

// --- lifecycle --------------------------------------------------------------
/// A node is begun to be initialized exactly if there is none, both names can
/// be read and the configuration, where one is given, is taken; it is then
/// started with just these. A second initialization fails with a code of its
/// own.
pub proof fn law_when_a_node_is_initialized(
    f: &mut FfiState,
    peer: CText,
    session: CText,
    config: Option<NetworkConfig>,
    r: Result<(String, String, NetworkConfig), i32>,
)
    requires
        call_ensures(FfiState::begin_initialize, (f, peer, session, config), r),
    ensures
        old(f)@.network is Some ==> (r matches Err(code) && code == -2),
        !(peer is Valid) || !(session is Valid) ==> r is Err,
        config matches Some(c) && !c.valid() ==> r is Err,
        old(f)@.network is None && peer is Valid && session is Valid && (config matches Some(c)
            ==> c.valid()) ==> r is Ok,
        r matches Ok(x) ==> {
            &&& peer == CText::Valid(x.0)
            &&& session == CText::Valid(x.1)
            &&& config matches Some(c) ==> x.2 == c
            &&& x.2.valid()
            &&& final(f)@ == old(f)@
        },
        r matches Err(code) ==> has_failed(old(f)@, final(f)@, code),
{
}

/// A node that was started is taken over as it is; one that was not leaves
/// its error. Taking it down hands it out, and then there is none.
pub proof fn law_taking_a_node_over_and_down(
    f: &mut FfiState,
    started: Result<NetworkState, NetworkError>,
    code: i32,
    g: &mut FfiState,
    down: Result<NetworkState, i32>,
)
    requires
        call_ensures(FfiState::finish_initialize, (f, started), code),
        call_ensures(FfiState::shutdown_network, (g,), down),
    ensures
        started matches Ok(n) ==> has_succeeded(old(f)@, final(f)@, code) && final(f)@.network
            == Some(n@),
        started is Err ==> has_failed(old(f)@, final(f)@, code),
        final(g)@.network is None,
        old(g)@.network is Some ==> (down matches Ok(n) && Some(n@) == old(g)@.network),
        old(g)@.network is None ==> (down matches Err(c) && c == -1 && has_failed(
            old(g)@,
            final(g)@,
            c,
        )),
{
}

/// The questions about the node are answered from its state: whether there is
/// one, whether it leads and whom it follows, its modes, and how many of its
/// members are connected.
pub proof fn law_what_is_answered_about_the_node(
    f: &FfiState,
    initialized: u8,
    leads: u8,
    centralized: u8,
    forwards: u8,
    discovers: u8,
    leader: Option<String>,
    name: Option<String>,
    session: Option<String>,
    addr: Option<String>,
    count: i32,
)
    requires
        call_ensures(FfiState::is_network_initialized, (f,), initialized),
        call_ensures(FfiState::is_leader, (f,), leads),
        call_ensures(FfiState::is_centralized_mode, (f,), centralized),
        call_ensures(FfiState::is_centralized_auto_forward, (f,), forwards),
        call_ensures(FfiState::is_mdns_active, (f,), discovers),
        call_ensures(FfiState::get_current_leader, (f,), leader),
        call_ensures(FfiState::get_local_peer_id, (f,), name),
        call_ensures(FfiState::get_session_id, (f,), session),
        call_ensures(FfiState::get_local_addr, (f,), addr),
        call_ensures(FfiState::get_peer_count, (f,), count),
    ensures
        match f@.network {
            None => {
                &&& initialized == 0
                &&& leads == 0
                &&& centralized == 0
                &&& forwards == 0
                &&& discovers == 0
                &&& leader is None
                &&& name is None
                &&& session is None
                &&& addr is None
                &&& count == -1
            },
            Some(n) => {
                &&& initialized == 1
                &&& leads == 1 <==> n.election.role == Role::Leader
                &&& leads <= 1
                &&& centralized == 1 <==> n.router.centralized
                &&& centralized <= 1
                &&& forwards == 1 <==> n.router.auto_forward
                &&& forwards <= 1
                &&& discovers == 1 <==> n.discovery is Some
                &&& discovers <= 1
                &&& n.election.leader is Some ==> (leader matches Some(l) && Some(l@)
                    == n.election.leader)
                &&& n.election.leader is None ==> (leader matches Some(l) && l@.len() == 0)
                &&& name matches Some(x) && x@ == n.local
                &&& session matches Some(x) && x@ == n.session
                &&& addr matches Some(x) && x@ == n.transport.listen_addr
                &&& n.membership.connected().len() <= i32::MAX ==> count
                    == n.membership.connected().len()
            },
        },
{
}

/// The questions about a peer are answered from its record as a member; where
/// nothing is known the answer is minus one.
pub proof fn law_what_is_answered_about_a_peer(
    f: &FfiState,
    peer: CText,
    status: i32,
    rtt: i32,
)
    requires
        call_ensures(FfiState::get_peer_status, (f, peer), status),
        call_ensures(FfiState::get_peer_rtt, (f, peer), rtt),
    ensures
        !(peer is Valid) || f@.network is None ==> status == -1 && rtt == -1,
        (peer matches CText::Valid(id) && f@.network is Some) ==> {
            let peers = f@.network->0.membership.peers;
            let k = peer->Valid_0@;
            &&& !peers.contains(k) ==> status == -1 && rtt == -1
            &&& peers.contains(k) ==> {
                &&& status == 0 <==> peers.vals[k].status == PeerStatus::Connected
                &&& status == 1 <==> peers.vals[k].status == PeerStatus::Disconnected
                &&& status == 2 <==> peers.vals[k].status == PeerStatus::Reconnecting
                &&& status == 3 <==> peers.vals[k].status == PeerStatus::Handshaking
                &&& peers.vals[k].rtt_ms is None ==> rtt == -1
                &&& peers.vals[k].rtt_ms is Some && peers.vals[k].rtt_ms->0 <= i32::MAX ==> rtt
                    == peers.vals[k].rtt_ms->0
            }
        },
{
}

/// The list of peers names the connected members, one per line: it is empty
/// without any, and each further one is a line break and its name.
pub proof fn law_list_of_peers_has_one_per_line(f: &FfiState, r: Option<String>)
    requires
        call_ensures(FfiState::get_peer_list, (f,), r),
    ensures
        f@.network is None ==> r is None,
        f@.network matches Some(n) ==> {
            let names = n.membership.connected();
            &&& r matches Some(t) && t@ == ffi::joined(names)
            &&& names.len() == 0 ==> r->0@.len() == 0
            &&& names.len() == 1 ==> r->0@ == names[0]
        },
        forall|names: Seq<Seq<char>>, k: Seq<char>|
            names.len() > 0 ==> #[trigger] ffi::joined(names.push(k)) == ffi::joined(names) + "\n"@
                + k,
{
    assert forall|names: Seq<Seq<char>>, k: Seq<char>| names.len() > 0 implies #[trigger] ffi::joined(
        names.push(k),
    ) == ffi::joined(names) + "\n"@ + k by {
        assert(names.push(k).drop_last() =~= names);
    }
}

/// The last error is what was recorded last; without any the code is zero and
/// the message empty.
pub proof fn law_last_error(
    f: &mut FfiState,
    code: i32,
    msg: &str,
    g: &FfiState,
    c: i32,
    m: String,
)
    requires
        call_ensures(FfiState::set_error, (f, code, msg), ()),
        call_ensures(FfiState::get_last_error_code, (g,), c),
        call_ensures(FfiState::get_last_error_message, (g,), m),
    ensures
        final(f)@.last_error == Some((code, msg@)),
        final(f)@.network == old(f)@.network,
        g@.last_error matches Some((x, y)) ==> c == x && m@ == y,
        g@.last_error is None ==> c == 0 && m@.len() == 0,
{
}

// --- connections ------------------------------------------------------------
/// A connection is attempted to the address that was given, if there is a
/// node; nothing changes by that.
pub proof fn law_connecting(f: &mut FfiState, addr: CText, r: Result<String, i32>)
    requires
        call_ensures(FfiState::connect_to_peer, (f, addr), r),
    ensures
        addr is Valid && old(f)@.network is Some ==> r == Ok::<String, i32>(addr->Valid_0)
            && final(f)@ == old(f)@,
        addr is Valid && old(f)@.network is None ==> (r matches Err(code) && code == -1),
        !(addr is Valid) ==> (r matches Err(code) && code == -3),
        r matches Err(code) ==> has_failed(old(f)@, final(f)@, code),
{
}

/// A peer that is disconnected is neither connected nor a member any more,
/// which is an event; it is bidden farewell and its channels are to be closed.
pub proof fn law_disconnecting(
    f: &mut FfiState,
    peer: CText,
    n: NetworkView,
    k: Seq<char>,
    r: (i32, Option<Disconnect>),
)
    requires
        call_ensures(FfiState::disconnect_peer, (f, peer), r),
        peer matches CText::Valid(id) && id@ == k,
        old(f)@.network == Some(n),
        wire::message_form(MessageView::PeerLeave { peer_id: n.transport.local }).len()
            <= n.transport.config.max_message_size,
    ensures
        has_succeeded(old(f)@, final(f)@, r.0),
        final(f)@.network is Some,
        ({
            let after = final(f)@.network->0;
            &&& !after.transport.connections.contains(k)
            &&& connections::same_but_for(n.transport, after.transport, k)
            &&& !after.membership.peers.contains(k)
            &&& members::same_but_for(n.membership, after.membership, k)
            &&& n.membership.peers.contains(k) ==> after.membership.events.last()
                == EventView::Left(k)
            &&& after.election == n.election
            &&& node::same_node(n, after)
        }),
        r.1 is Some,
        n.transport.connections.contains(k) ==> {
            &&& connections::are_channels_of(n.transport.connections.vals[k], r.1->0.cancelled@)
            &&& r.1->0.leave matches Some(o) && routing::goes_to(n.transport, o@, k)
                && routing::tells(
                o@.packet,
                MessageView::PeerLeave { peer_id: n.transport.local },
            )
        },
        !n.transport.connections.contains(k) ==> r.1->0.leave is None && r.1->0.cancelled@.len()
            == 0,
{
    routing::lemma_tells(MessageView::PeerLeave { peer_id: n.transport.local });
}

/// Without a node nobody can be disconnected, nor can one whose name cannot be
/// read.
pub proof fn law_disconnecting_nobody(
    f: &mut FfiState,
    peer: CText,
    r: (i32, Option<Disconnect>),
)
    requires
        call_ensures(FfiState::disconnect_peer, (f, peer), r),
        !(peer is Valid) || old(f)@.network is None,
    ensures
        r.1 is None,
        peer is Valid ==> r.0 == -1,
        !(peer is Valid) ==> r.0 == -3,
        has_failed(old(f)@, final(f)@, r.0),
{
}

// --- leadership and modes ---------------------------------------------------
/// A leader that is assigned by hand is the leader, in a new term, and every
/// connected peer is told: the leader, the term, and by whom.
pub proof fn law_assigning_a_leader(
    f: &mut FfiState,
    peer: CText,
    n: NetworkView,
    k: Seq<char>,
    r: (i32, Vec<Outgoing>),
)
    requires
        old(f).wf(),
        call_ensures(FfiState::set_leader, (f, peer), r),
        peer matches CText::Valid(id) && id@ == k,
        old(f)@.network == Some(n),
    ensures
        final(f)@.network is Some,
        ({
            let after = final(f)@.network->0;
            let m = MessageView::LeaderAssign {
                term: (n.election.term + 1) as u64,
                leader_id: k,
                assigner_id: n.local,
            };
            &&& election::is_assigned(after.election, k)
            &&& after.election.local == n.election.local
            &&& after.election.term == n.election.term + 1
            &&& node::only_election_changes(n, after)
            &&& node::announces(n, m, transport::outgoing_view(r.1@))
            &&& wire::message_form(m).len() <= n.config.max_message_size ==> has_succeeded(
                old(f)@,
                final(f)@,
                r.0,
            )
            &&& wire::message_form(m).len() > n.config.max_message_size ==> r.0 == -8
        }),
{
    old(f).network->0.transport.law_each_peer_has_one_connection();
    routing::lemma_announces(
        n.transport,
        MessageView::LeaderAssign {
            term: (n.election.term + 1) as u64,
            leader_id: k,
            assigner_id: n.local,
        },
    );
    assert(transport::outgoing_view(r.1@).len() == r.1@.len());
}

/// Switching automatic elections, centralized mode or the passing on of
/// broadcasts on or off, and setting the threshold for compression, does just
/// that.
pub proof fn law_switches(
    a: &mut FfiState,
    b: &mut FfiState,
    c: &mut FfiState,
    d: &mut FfiState,
    enable: u8,
    threshold: u32,
    ra: i32,
    rb: i32,
    rc: i32,
    rd: i32,
    n: NetworkView,
)
    requires
        call_ensures(FfiState::enable_auto_leader_election, (a, enable), ra),
        call_ensures(FfiState::set_centralized_mode, (b, enable), rb),
        call_ensures(FfiState::set_centralized_auto_forward, (c, enable), rc),
        call_ensures(FfiState::set_compression_threshold, (d, threshold), rd),
        old(a)@.network == Some(n),
        old(b)@.network == Some(n),
        old(c)@.network == Some(n),
        old(d)@.network == Some(n),
    ensures
        has_succeeded(old(a)@, final(a)@, ra),
        has_succeeded(old(b)@, final(b)@, rb),
        has_succeeded(old(c)@, final(c)@, rc),
        has_succeeded(old(d)@, final(d)@, rd),
        final(a)@.network matches Some(after) && after.election.auto_election == (enable != 0)
            && after.election.leader == n.election.leader && after.election.role == n.election.role
            && node::only_election_changes(n, after),
        final(b)@.network == Some(
            NetworkView {
                router: crate::session_router::RouterView { centralized: enable != 0, ..n.router },
                ..n
            },
        ),
        final(c)@.network == Some(
            NetworkView {
                router: crate::session_router::RouterView {
                    auto_forward: enable != 0,
                    ..n.router
                },
                ..n
            },
        ),
        final(d)@.network == Some(
            NetworkView {
                router: crate::session_router::RouterView {
                    compression_threshold: threshold,
                    ..n.router
                },
                ..n
            },
        ),
{
}

/// Registering a callback, or taking it back, concerns that callback alone.
pub proof fn law_callbacks(
    a: &mut FfiState,
    b: &mut FfiState,
    c: &mut FfiState,
    d: &mut FfiState,
    registered: bool,
    ra: i32,
    rb: i32,
    rc: i32,
    rd: i32,
    n: NetworkView,
)
    requires
        call_ensures(FfiState::register_receive_callback, (a, registered), ra),
        call_ensures(FfiState::register_leader_changed_callback, (b, registered), rb),
        call_ensures(FfiState::register_peer_status_callback, (c, registered), rc),
        call_ensures(FfiState::register_connection_result_callback, (d, registered), rd),
        old(a)@.network == Some(n),
        old(b)@.network == Some(n),
        old(c)@.network == Some(n),
        old(d)@.network == Some(n),
    ensures
        has_succeeded(old(a)@, final(a)@, ra),
        has_succeeded(old(b)@, final(b)@, rb),
        has_succeeded(old(c)@, final(c)@, rc),
        has_succeeded(old(d)@, final(d)@, rd),
        final(a)@.network == Some(
            NetworkView {
                callback: crate::callback::CallbackView { receive: registered, ..n.callback },
                ..n
            },
        ),
        final(b)@.network == Some(
            NetworkView {
                callback: crate::callback::CallbackView {
                    leader_changed: registered,
                    ..n.callback
                },
                ..n
            },
        ),
        final(c)@.network == Some(
            NetworkView {
                callback: crate::callback::CallbackView { peer_status: registered, ..n.callback },
                ..n
            },
        ),
        final(d)@.network == Some(
            NetworkView {
                callback: crate::callback::CallbackView {
                    connection_result: registered,
                    ..n.callback
                },
                ..n
            },
        ),
{
}

/// Without a node every one of these operations fails with the same code.
pub proof fn law_nothing_is_switched_without_a_node(
    a: &mut FfiState,
    b: &mut FfiState,
    c: &mut FfiState,
    d: &mut FfiState,
    e: &mut FfiState,
    peer: CText,
    enable: u8,
    threshold: u32,
    registered: bool,
    ra: i32,
    rb: i32,
    rc: i32,
    rd: i32,
    re: (i32, Vec<Outgoing>),
)
    requires
        call_ensures(FfiState::enable_auto_leader_election, (a, enable), ra),
        call_ensures(FfiState::set_centralized_mode, (b, enable), rb),
        call_ensures(FfiState::set_compression_threshold, (c, threshold), rc),
        call_ensures(FfiState::register_receive_callback, (d, registered), rd),
        call_ensures(FfiState::set_leader, (e, peer), re),
        old(a)@.network is None,
        old(b)@.network is None,
        old(c)@.network is None,
        old(d)@.network is None,
        old(e)@.network is None,
    ensures
        ra == -1 && has_failed(old(a)@, final(a)@, ra),
        rb == -1 && has_failed(old(b)@, final(b)@, rb),
        rc == -1 && has_failed(old(c)@, final(c)@, rc),
        rd == -1 && has_failed(old(d)@, final(d)@, rd),
        peer is Valid ==> re.0 == -1,
        has_failed(old(e)@, final(e)@, re.0),
        re.1@.len() == 0,
{
}

/// Without a node no callback is registered and no passing on switched either.
/// A null pointer in place of a configuration is a bad argument.
pub proof fn law_nothing_is_registered_without_a_node(
    a: &mut FfiState,
    b: &mut FfiState,
    c: &mut FfiState,
    d: &mut FfiState,
    e: &mut FfiState,
    enable: u8,
    registered: bool,
    ra: i32,
    rb: i32,
    rc: i32,
    rd: i32,
    re: i32,
)
    requires
        call_ensures(FfiState::register_leader_changed_callback, (a, registered), ra),
        call_ensures(FfiState::register_peer_status_callback, (b, registered), rb),
        call_ensures(FfiState::register_connection_result_callback, (c, registered), rc),
        call_ensures(FfiState::set_centralized_auto_forward, (d, enable), rd),
        call_ensures(FfiState::reject_null_config, (e,), re),
        old(a)@.network is None,
        old(b)@.network is None,
        old(c)@.network is None,
        old(d)@.network is None,
    ensures
        ra == -1 && has_failed(old(a)@, final(a)@, ra),
        rb == -1 && has_failed(old(b)@, final(b)@, rb),
        rc == -1 && has_failed(old(c)@, final(c)@, rc),
        rd == -1 && has_failed(old(d)@, final(d)@, rd),
        re == -3 && has_failed(old(e)@, final(e)@, re),
{
}

// --- messages ---------------------------------------------------------------
/// Has the sending succeeded, with this delivery?
pub open spec fn has_sent(s: FfiView, after: FfiView, r: (i32, Option<Delivery>)) -> bool {
    &&& r.0 == 0
    &&& r.1 is Some
    &&& after == s
}

/// A broadcast of a user's type within the limit succeeds and reaches every
/// connected peer, if the node leads or is not in centralized mode. A message
/// for a connected peer succeeds and goes to that peer.
pub proof fn law_sending_to_all_or_one(
    f: &mut FfiState,
    g: &mut FfiState,
    to: CText,
    k: Seq<char>,
    data: &[u8],
    msg_type: u16,
    flags: u8,
    rf: (i32, Option<Delivery>),
    rg: (i32, Option<Delivery>),
    n: NetworkView,
)
    requires
        old(f).wf(),
        old(g).wf(),
        old(f)@.network == Some(n),
        old(g)@.network == Some(n),
        call_ensures(
            FfiState::broadcast_message,
            (f, CData::Valid(data), msg_type, flags),
            rf,
        ),
        call_ensures(FfiState::send_to_peer, (g, to, CData::Valid(data), msg_type, flags), rg),
        to matches CText::Valid(id) && id@ == k,
        msg_type >= 0x0100,
        data@.len() <= n.config.max_message_size,
    ensures
        !n.router.centralized || n.election.role == Role::Leader ==> has_sent(
            old(f)@,
            final(f)@,
            rf,
        ) && routing::sent_to_all(n.transport, seq![], msg_type, data@, flags, Ok(rf.1->0)),
        n.transport.connections.contains(k) ==> has_sent(old(g)@, final(g)@, rg)
            && routing::sent_to(n.transport, k, msg_type, data@, flags, Ok(rg.1->0)),
        !n.transport.connections.contains(k) ==> rg.1 is None && rg.0 == -5 && has_failed(
            old(g)@,
            final(g)@,
            rg.0,
        ),
{
    old(f).network->0.transport.law_each_peer_has_one_connection();
    let m = UserMessage { msg_type, data: data@, flags };
    let target = MessageTarget::Broadcast;
    if rf.1 is Some {
        routing::lemma_routes(n.router, n.transport, n.election, target, m, Ok(rf.1->0));
    } else {
        let e = choose|e: NetworkError|
            n.router.routes(n.transport, n.election, target, m, Err(e)) && old(f)@.fails(
                e,
                final(f)@,
                rf.0,
            );
        routing::lemma_routes(n.router, n.transport, n.election, target, m, Err(e));
    }
    if rg.1 is Some {
        routing::lemma_unicast(n.router, n.transport, m, k, Ok(rg.1->0));
    } else {
        let e = choose|e: NetworkError|
            n.router.unicasts_type(n.transport, m, k, Err(e)) && old(g)@.fails(
                e,
                final(g)@,
                rg.0,
            );
        routing::lemma_unicast(n.router, n.transport, m, k, Err(e));
    }
}

/// A message of a user's type within the limit, for the leader, stays with the
/// node if it leads, goes to the leader if that is connected, and fails if
/// there is none.
pub proof fn law_sending_to_the_leader(
    f: &mut FfiState,
    data: &[u8],
    msg_type: u16,
    flags: u8,
    r: (i32, Option<Delivery>),
    n: NetworkView,
)
    requires
        old(f).wf(),
        old(f)@.network == Some(n),
        call_ensures(FfiState::send_to_leader, (f, CData::Valid(data), msg_type, flags), r),
        msg_type >= 0x0100,
        data@.len() <= n.config.max_message_size,
    ensures
        n.election.role == Role::Leader ==> has_sent(old(f)@, final(f)@, r) && r.1->0 is Local,
        n.election.role != Role::Leader && n.election.leader is None ==> r.0 == -6 && r.1 is None
            && has_failed(old(f)@, final(f)@, r.0),
        n.election.role != Role::Leader && n.election.leader is Some
            && n.transport.connections.contains(n.election.leader->0) ==> has_sent(
            old(f)@,
            final(f)@,
            r,
        ) && routing::sent_to(
            n.transport,
            n.election.leader->0,
            msg_type,
            data@,
            flags,
            Ok(r.1->0),
        ),
{
    old(f).network->0.transport.law_each_peer_has_one_connection();
    let m = UserMessage { msg_type, data: data@, flags };
    let target = MessageTarget::ToLeader;
    if r.1 is Some {
        routing::lemma_routes(n.router, n.transport, n.election, target, m, Ok(r.1->0));
    } else {
        let e = choose|e: NetworkError|
            n.router.routes(n.transport, n.election, target, m, Err(e)) && old(f)@.fails(
                e,
                final(f)@,
                r.0,
            );
        routing::lemma_routes(n.router, n.transport, n.election, target, m, Err(e));
    }
}

/// A message of a user's type within the limit that the leader sends reaches
/// every connected peer; whoever does not lead fails.
pub proof fn law_sending_as_the_leader(
    f: &mut FfiState,
    data: &[u8],
    msg_type: u16,
    flags: u8,
    r: (i32, Option<Delivery>),
    n: NetworkView,
)
    requires
        old(f).wf(),
        old(f)@.network == Some(n),
        call_ensures(FfiState::send_from_leader, (f, CData::Valid(data), msg_type, flags), r),
        msg_type >= 0x0100,
        data@.len() <= n.config.max_message_size,
    ensures
        n.election.role == Role::Leader ==> has_sent(old(f)@, final(f)@, r)
            && routing::sent_to_all(n.transport, seq![], msg_type, data@, flags, Ok(r.1->0)),
        n.election.role != Role::Leader ==> r.0 == -6 && r.1 is None && has_failed(
            old(f)@,
            final(f)@,
            r.0,
        ),
{
    old(f).network->0.transport.law_each_peer_has_one_connection();
    let m = UserMessage { msg_type, data: data@, flags };
    if r.1 is Some {
        if n.election.role == Role::Leader {
            if let Delivery::ToAll(list) = r.1->0 {
                routing::lemma_broadcast(
                    n.router,
                    n.transport,
                    m,
                    seq![],
                    transport::outgoing_view(list@),
                );
            }
        }
    }
}

/// A message of a user's type within the limit that the leader passes on goes
/// to the peer that is named, or, where none is, to every connected peer but
/// the one it came from; whoever does not lead fails.
pub proof fn law_passing_on(
    f: &mut FfiState,
    from: CText,
    to: CText,
    data: &[u8],
    msg_type: u16,
    flags: u8,
    r: (i32, Option<Delivery>),
    n: NetworkView,
)
    requires
        old(f).wf(),
        old(f)@.network == Some(n),
        from is Valid,
        to is Null || to is Valid,
        call_ensures(
            FfiState::forward_message,
            (f, from, to, CData::Valid(data), msg_type, flags),
            r,
        ),
        msg_type >= 0x0100,
        data@.len() <= n.config.max_message_size,
    ensures
        n.election.role == Role::Leader && to is Null ==> has_sent(old(f)@, final(f)@, r)
            && routing::sent_to_all(
            n.transport,
            seq![from->Valid_0@],
            msg_type,
            data@,
            flags,
            Ok(r.1->0),
        ),
        n.election.role == Role::Leader && to is Valid && n.transport.connections.contains(
            to->Valid_0@,
        ) ==> has_sent(old(f)@, final(f)@, r) && routing::sent_to(
            n.transport,
            to->Valid_0@,
            msg_type,
            data@,
            flags,
            Ok(r.1->0),
        ),
        n.election.role != Role::Leader ==> r.0 == -6 && r.1 is None && has_failed(
            old(f)@,
            final(f)@,
            r.0,
        ),
{
    old(f).network->0.transport.law_each_peer_has_one_connection();
    let m = UserMessage { msg_type, data: data@, flags };
    if n.election.role == Role::Leader {
        if to is Null {
            if r.1 is Some {
                if let Delivery::ToAll(list) = r.1->0 {
                    routing::lemma_broadcast(
                        n.router,
                        n.transport,
                        m,
                        seq![from->Valid_0@],
                        transport::outgoing_view(list@),
                    );
                }
            }
        } else {
            let k = to->Valid_0@;
            if r.1 is Some {
                routing::lemma_unicast(n.router, n.transport, m, k, Ok(r.1->0));
            } else {
                let e = choose|e: NetworkError|
                    n.router.forwards_to(n.transport, n.election, k, m, Err(e)) && old(f)@.fails(
                        e,
                        final(f)@,
                        r.0,
                    );
                routing::lemma_unicast(n.router, n.transport, m, k, Err(e));
            }
        }
    }
}

/// A message that is too large, or whose data cannot be read, fails as a bad
/// argument, and without a node every message fails.
pub proof fn law_what_is_not_sent(
    f: &mut FfiState,
    data: CData<'_>,
    msg_type: u16,
    flags: u8,
    r: (i32, Option<Delivery>),
)
    requires
        call_ensures(FfiState::broadcast_message, (f, data, msg_type, flags), r) || call_ensures(
            FfiState::send_to_leader,
            (f, data, msg_type, flags),
            r,
        ) || call_ensures(FfiState::send_from_leader, (f, data, msg_type, flags), r),
    ensures
        data is Invalid ==> r.0 == -3,
        data is Valid && old(f)@.network is None ==> r.0 == -1,
        data is Valid && old(f)@.network is Some && data->Valid_0@.len()
            > old(f)@.network->0.config.max_message_size ==> r.0 == -3,
        data is Invalid || old(f)@.network is None || data->Valid_0@.len()
            > old(f)@.network->0.config.max_message_size ==> r.1 is None && has_failed(
            old(f)@,
            final(f)@,
            r.0,
        ),
        r.1 is Some <==> r.0 == 0,
        r.0 != 0 ==> has_failed(old(f)@, final(f)@, r.0),
{
}

/// A message whose type is not one of user messages fails as a bad argument,
/// whomever it is for.
pub proof fn law_other_types_are_not_sent(
    f: &mut FfiState,
    data: &[u8],
    msg_type: u16,
    flags: u8,
    r: (i32, Option<Delivery>),
)
    requires
        call_ensures(
            FfiState::broadcast_message,
            (f, CData::Valid(data), msg_type, flags),
            r,
        ) || call_ensures(
            FfiState::send_to_leader,
            (f, CData::Valid(data), msg_type, flags),
            r,
        ) || call_ensures(
            FfiState::send_from_leader,
            (f, CData::Valid(data), msg_type, flags),
            r,
        ),
        old(f)@.network is Some,
        msg_type < 0x0100,
    ensures
        r.0 == -3,
        r.1 is None,
        has_failed(old(f)@, final(f)@, r.0),
{
}

/// The same, for a message to one peer and for one that is passed on. They
/// also fail where a name or the data cannot be read, where there is no node,
/// and where the message is too large.
pub proof fn law_what_is_not_sent_or_passed_on(
    f: &mut FfiState,
    to: CText,
    data: CData<'_>,
    msg_type: u16,
    flags: u8,
    rf: (i32, Option<Delivery>),
    g: &mut FfiState,
    from: CText,
    rg: (i32, Option<Delivery>),
)
    requires
        call_ensures(FfiState::send_to_peer, (f, to, data, msg_type, flags), rf),
        call_ensures(FfiState::forward_message, (g, from, to, data, msg_type, flags), rg),
    ensures
        !(to is Valid) || data is Invalid ==> rf.0 == -3,
        to is Valid && data is Valid && old(f)@.network is None ==> rf.0 == -1,
        to is Valid && data is Valid && old(f)@.network is Some && (data->Valid_0@.len()
            > old(f)@.network->0.config.max_message_size || msg_type < 0x0100) ==> rf.0 == -3,
        rf.1 is Some <==> rf.0 == 0,
        rf.0 != 0 ==> has_failed(old(f)@, final(f)@, rf.0),
        !(from is Valid) || data is Invalid || to is Invalid ==> rg.0 == -3,
        from is Valid && data is Valid && !(to is Invalid) && old(g)@.network is None ==> rg.0
            == -1,
        from is Valid && data is Valid && !(to is Invalid) && old(g)@.network is Some && (
        data->Valid_0@.len() > old(g)@.network->0.config.max_message_size || msg_type < 0x0100)
            ==> rg.0 == -3,
        rg.1 is Some <==> rg.0 == 0,
        rg.0 != 0 ==> has_failed(old(g)@, final(g)@, rg.0),
{
}

/// In centralized mode a follower's broadcast succeeds if it goes to the
/// leader: one that is known and connected, with what is put around the
/// message keeping within the limit.
pub proof fn law_centralized_broadcast(
    f: &mut FfiState,
    data: &[u8],
    msg_type: u16,
    flags: u8,
    r: (i32, Option<Delivery>),
    n: NetworkView,
    k: Seq<char>,
)
    requires
        old(f)@.network == Some(n),
        call_ensures(FfiState::broadcast_message, (f, CData::Valid(data), msg_type, flags), r),
        msg_type >= 0x0100,
        data@.len() <= n.config.max_message_size,
        n.router.centralized,
        n.election.role != Role::Leader,
        n.election.leader == Some(k),
        n.transport.connections.contains(k),
        wire::message_form(
            MessageView::ForwardedUserData {
                from_peer_id: n.router.local,
                original_msg_type: msg_type,
                original_flags: flags & 0xFE,
                payload: data@,
            },
        ).len() <= n.router.max_message_size,
    ensures
        has_sent(old(f)@, final(f)@, r),
        r.1->0 matches Delivery::ToPeer(o) && routing::goes_to(n.transport, o@, k)
            && routing::tells(
            o@.packet,
            MessageView::ForwardedUserData {
                from_peer_id: n.router.local,
                original_msg_type: msg_type,
                original_flags: flags & 0xFE,
                payload: data@,
            },
        ),
{
    let m = UserMessage { msg_type, data: data@, flags };
    routing::lemma_tells(n.router.forward_request(m));
}

/// A packet that its queue took is a success, any other outcome a failure:
/// that the queue is full, or that the connection is.
pub proof fn law_end_of_a_sending(f: &mut FfiState, outcome: SendOutcome, r: i32)
    requires
        call_ensures(FfiState::finish_send, (f, outcome), r),
    ensures
        outcome == SendOutcome::Queued ==> r == 0 && final(f)@ == old(f)@,
        outcome == SendOutcome::Full ==> r == -7,
        outcome == SendOutcome::Closed ==> r == -4,
        outcome != SendOutcome::Queued ==> has_failed(old(f)@, final(f)@, r),
{
}

// --- arguments and results --------------------------------------------------
/// An argument can be read if its pointer is not null and its length not
/// negative; a text argument is the text if there is one, and else a bad
/// argument. A text that holds a NUL is handed out as the empty one.
pub proof fn law_arguments_and_results(
    is_null: bool,
    length: i32,
    readable: bool,
    arg: CText,
    read: Result<String, NetworkError>,
    text: String,
    out: String,
)
    requires
        call_ensures(ffi::is_readable, (is_null, length), readable),
        call_ensures(ffi::c_str_to_string, (arg,), read),
        call_ensures(ffi::return_string, (text,), out),
    ensures
        readable <==> !is_null && length >= 0,
        arg matches CText::Valid(t) ==> read == Ok::<String, NetworkError>(t),
        !(arg is Valid) ==> read matches Err(NetworkError::InvalidArgument(_)),
        crate::laws::outside::is_c_text(text@) ==> out@ == text@,
        !crate::laws::outside::is_c_text(text@) ==> out@.len() == 0,
{
}

/// What a C caller configures is what the node is configured with; the rest
/// has its default.
pub proof fn law_configuration_of_c_callers(c: NetworkConfigFFI)
    ensures
        ({
            let r = ffi::config_of(c);
            &&& r.heartbeat_interval_ms == c.heartbeat_interval_ms
            &&& r.election_timeout_min_ms == c.election_timeout_min_ms
            &&& r.election_timeout_max_ms == c.election_timeout_max_ms
            &&& r.heartbeat_timeout_multiplier == c.heartbeat_timeout_multiplier
            &&& r.reconnect_initial_ms == c.reconnect_initial_ms
            &&& r.reconnect_max_ms == c.reconnect_max_ms
            &&& r.compression_threshold == c.compression_threshold
            &&& r.send_queue_capacity == c.send_queue_capacity
            &&& r.max_connections == c.max_connections
            &&& r.max_message_size == c.max_message_size
            &&& r.handshake_timeout_ms == c.handshake_timeout_ms
            &&& r.mdns_port == c.mdns_port
            &&& r.centralized_auto_forward <==> c.centralized_auto_forward != 0
            &&& r.auto_election_enabled <==> c.auto_election_enabled != 0
            &&& r.manual_override_recovery == ManualOverrideRecovery::AutoElect
                <==> c.manual_override_recovery == 1
            &&& r.reconnect_max_retries == NetworkConfig::default_config().reconnect_max_retries
            &&& r.auto_reconnect_enabled == NetworkConfig::default_config().auto_reconnect_enabled
            &&& r.incoming_queue_capacity
                == NetworkConfig::default_config().incoming_queue_capacity
            &&& r.write_timeout_ms == NetworkConfig::default_config().write_timeout_ms
            &&& r.tcp_nodelay == NetworkConfig::default_config().tcp_nodelay
            &&& r.keepalive_time_secs == NetworkConfig::default_config().keepalive_time_secs
            &&& r.keepalive_interval_secs
                == NetworkConfig::default_config().keepalive_interval_secs
            &&& r.keepalive_retries == NetworkConfig::default_config().keepalive_retries
        }),
{
}

} // verus!
