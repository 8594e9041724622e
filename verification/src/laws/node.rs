//! Promises of a node: what it makes of the packets that arrive, of its
//! timers, and of the changes in its table of members.

use vstd::prelude::*;

use crate::callback::{CallbackEventView, CallbackView};
use crate::error::NetworkError;
use crate::laws::connections;
use crate::laws::members;
use crate::laws::routing;
use crate::leader::Role;
use crate::membership::{EventView, MembershipEvent, MembershipView};
use crate::messaging::{self, RawPacket};
use crate::network::{Effects, NetworkState, NetworkView};
use crate::protocol::{InternalMessage, MessageView};
use crate::text;
use crate::transport::{self, Outgoing, OutgoingView};
use crate::types::{PeerId, PeerInfo, PeerStatus};
use crate::wire;

verus! {

// --- what the parts of a node have to do with a call ------------------------
/// Is the application told `e`? It is, behind what it was told before, while
/// events are taken and fewer than 1024 wait.
pub open spec fn told(c: CallbackView, after: CallbackView, e: CallbackEventView) -> bool {
    &&& c.open && c.queue.len() < 1024 ==> after.queue =~= c.queue + seq![e]
    &&& !c.open || c.queue.len() >= 1024 ==> after.queue == c.queue
    &&& after.open == c.open
    &&& after.connection_result == c.connection_result
    &&& after.leader_changed == c.leader_changed
    &&& after.peer_status == c.peer_status
    &&& after.receive == c.receive
}

/// Is this node what it was: of the same name, in the same session, with the
/// same configuration and routing?
pub open spec fn same_node(s: NetworkView, after: NetworkView) -> bool {
    &&& after.local == s.local
    &&& after.session == s.session
    &&& after.config == s.config
    &&& after.router == s.router
    &&& after.discovery == s.discovery
    &&& after.clock == s.clock
}

/// Is one message on its way to the peer `k`, if that is connected and the
/// message keeps within the limit, and else nothing?
pub open spec fn replies(
    s: NetworkView,
    k: Seq<char>,
    m: MessageView,
    sent: Seq<OutgoingView>,
) -> bool {
    if s.transport.connections.contains(k) && wire::message_form(m).len()
        <= s.config.max_message_size {
        &&& sent.len() == 1
        &&& routing::goes_to(s.transport, sent[0], k)
        &&& routing::tells(sent[0].packet, m)
    } else {
        sent.len() == 0
    }
}

/// Is one message on its way to every connected peer, if it keeps within the
/// limit, and else nothing?
pub open spec fn announces(s: NetworkView, m: MessageView, sent: Seq<OutgoingView>) -> bool {
    if wire::message_form(m).len() <= s.config.max_message_size {
        routing::announces(s.transport, sent, m)
    } else {
        sent.len() == 0
    }
}

proof fn lemma_to_peer(s: NetworkView, k: Seq<char>, m: MessageView)
    ensures
        replies(s, k, m, s.to_peer(k, m)),
{
    routing::lemma_tells(m);
}

pub proof fn lemma_to_all(s: NetworkView, m: MessageView)
    requires
        s.transport.wf(),
    ensures
        announces(s, m, s.to_all(m)),
{
    routing::lemma_announces(s.transport, m);
}

// --- forming a mesh ---------------------------------------------------------
/// Is a peer on another node's list one that this node is to connect to? One
/// that it does not know yet, and whose name does not come before its own:
/// of two nodes that learn of each other one connects.
pub open spec fn is_to_be_sought(s: NetworkView, peer: Seq<char>) -> bool {
    &&& peer != s.local
    &&& !s.membership.peers.contains(peer)
    &&& !s.transport.connections.contains(peer)
    &&& !text::text_less(peer, s.local)
}

/// A node that receives a list of peers connects to every one of them that it
/// is to connect to, and to no other; to each no more often than it is
/// listed. Nothing else happens.
pub proof fn law_every_listed_peer_is_sought(
    n: &mut NetworkState,
    from: &PeerId,
    msg: InternalMessage,
    peers: Seq<(Seq<char>, Seq<char>)>,
    now_ms: u64,
    now: u128,
    r: Effects,
)
    requires
        call_ensures(NetworkState::handle_internal_at, (n, from, msg, now_ms, now), r),
        msg@ == (MessageView::PeerListSync { peers }),
    ensures
        final(n)@ == old(n)@,
        r@.send.len() == 0,
        forall|i: int|
            0 <= i < peers.len() && is_to_be_sought(old(n)@, (#[trigger] peers[i]).0)
                ==> r@.connect.contains(peers[i].1),
        forall|j: int|
            0 <= j < r@.connect.len() ==> listed_at(old(n)@, peers, #[trigger] r@.connect[j]),
        r@.connect.len() <= peers.len(),
        (forall|i: int| 0 <= i < peers.len() ==> is_to_be_sought(old(n)@, (#[trigger] peers[i]).0))
            ==> r@.connect =~= peers.map_values(|e: (Seq<char>, Seq<char>)| e.1),
{
    let s = old(n)@;
    let p = |e: (Seq<char>, Seq<char>)| s.seeks(e.0);
    let f = |e: (Seq<char>, Seq<char>)| e.1;
    let found = peers.filter(p);
    assert(r@.connect == found.map_values(f));
    assert forall|i: int|
        0 <= i < peers.len() && is_to_be_sought(s, (#[trigger] peers[i]).0) implies r@.connect.contains(
        peers[i].1) by {
        peers.lemma_filter_contains(p, i);
        let j = found.index_of(peers[i]);
        assert(r@.connect[j] == peers[i].1);
    }
    assert forall|j: int| 0 <= j < r@.connect.len() implies listed_at(
        s,
        peers,
        #[trigger] r@.connect[j],
    ) by {
        peers.lemma_filter_pred(p, j);
        assert(found.contains(found[j]));
        peers.lemma_filter_contains_rev(p, found[j]);
        let i = peers.index_of(found[j]);
        assert(peers[i].1 == r@.connect[j]);
    }
    peers.lemma_filter_len(p);
    if forall|i: int| 0 <= i < peers.len() ==> is_to_be_sought(s, (#[trigger] peers[i]).0) {
        assert forall|i: int| 0 <= i < peers.len() implies p(#[trigger] peers[i]) by {
            assert(is_to_be_sought(s, peers[i].0));
        }
        lemma_filter_all(peers, p);
    }
}

/// Is the address that of a listed peer that is to be sought?
pub open spec fn listed_at(
    s: NetworkView,
    peers: Seq<(Seq<char>, Seq<char>)>,
    addr: Seq<char>,
) -> bool {
    exists|i: int|
        0 <= i < peers.len() && (#[trigger] peers[i]).1 == addr && is_to_be_sought(s, peers[i].0)
}

proof fn lemma_filter_all<A>(s: Seq<A>, p: spec_fn(A) -> bool)
    requires
        forall|i: int| 0 <= i < s.len() ==> p(#[trigger] s[i]),
    ensures
        s.filter(p) == s,
    decreases s.len(),
{
    reveal(Seq::filter);
    if s.len() > 0 {
        lemma_filter_all(s.drop_last(), p);
        assert(s.drop_last().push(s.last()) =~= s);
        assert(p(s[s.len() - 1]));
    } else {
        assert(s.filter(p) =~= s);
    }
}

/// Of two nodes that learn of each other from a list, and do not know each
/// other yet, exactly one connects to the other.
pub proof fn law_one_of_two_connects(a: NetworkView, b: NetworkView)
    requires
        a.local != b.local,
        !a.membership.peers.contains(b.local),
        !b.membership.peers.contains(a.local),
        !a.transport.connections.contains(b.local),
        !b.transport.connections.contains(a.local),
    ensures
        is_to_be_sought(a, b.local) <==> !is_to_be_sought(b, a.local),
{
    text::law_text_order_is_total(a.local, b.local, a.local);
}

/// After the handshake, in either direction, a connected peer is a member,
/// with the address of its connection, connected and heard of just now. One
/// that is a member already stays as it is, and so does all else. A
/// handshake that was refused makes nobody a member, nor does one of a peer
/// that is not connected.
pub proof fn law_handshake_makes_a_member(
    n: &mut NetworkState,
    from: &PeerId,
    msg: InternalMessage,
    peer: Seq<char>,
    now_ms: u64,
    now: u128,
    r: Effects,
)
    requires
        call_ensures(NetworkState::handle_internal_at, (n, from, msg, now_ms, now), r),
        match msg@ {
            MessageView::Handshake { peer_id, .. } => peer_id == peer,
            MessageView::HandshakeAck { peer_id, .. } => peer_id == peer,
            _ => false,
        },
    ensures
        r@.send.len() == 0,
        r@.connect.len() == 0,
        same_node(old(n)@, final(n)@),
        final(n)@.transport == old(n)@.transport,
        final(n)@.election == old(n)@.election,
        final(n)@.callback == old(n)@.callback,
        members::same_but_for(old(n)@.membership, final(n)@.membership, peer),
        ({
            let accepted = msg@ matches MessageView::HandshakeAck { success, .. } ==> success;
            if accepted && old(n)@.transport.connections.contains(peer)
                && !old(n)@.membership.peers.contains(peer) {
                let info = final(n)@.membership.peers.vals[peer];
                &&& final(n)@.membership.peers.contains(peer)
                &&& info.peer_id@ == peer
                &&& info.addr == old(n)@.transport.connections.vals[peer].info.addr
                &&& info.status == PeerStatus::Connected
                &&& info.last_seen == now
                &&& final(n)@.membership.events.last() == EventView::Joined(peer)
            } else {
                final(n)@ == old(n)@
            }
        }),
{
}

/// After its farewell a peer is no member, which is an event, and a lost
/// connection to it is not to be restored. Nothing else changes.
pub proof fn law_farewell_is_final(
    n: &mut NetworkState,
    from: &PeerId,
    msg: InternalMessage,
    peer: Seq<char>,
    now_ms: u64,
    now: u128,
    r: Effects,
)
    requires
        call_ensures(NetworkState::handle_internal_at, (n, from, msg, now_ms, now), r),
        msg@ == (MessageView::PeerLeave { peer_id: peer }),
    ensures
        r@.send.len() == 0,
        r@.connect.len() == 0,
        same_node(old(n)@, final(n)@),
        final(n)@.election == old(n)@.election,
        final(n)@.callback == old(n)@.callback,
        !final(n)@.membership.peers.contains(peer),
        members::same_but_for(old(n)@.membership, final(n)@.membership, peer),
        old(n)@.membership.peers.contains(peer) ==> final(n)@.membership.events.last()
            == EventView::Left(peer),
        final(n)@.transport.connections.keys == old(n)@.transport.connections.keys,
        final(n)@.transport.connections.contains(peer)
            == old(n)@.transport.connections.contains(peer),
        old(n)@.transport.connections.contains(peer)
            ==> !final(n)@.transport.connections.vals[peer].info.should_reconnect,
        forall|x: Seq<char>|
            x != peer ==> #[trigger] final(n)@.transport.connections.vals[x]
                == old(n)@.transport.connections.vals[x],
{
}

// --- signs of life ----------------------------------------------------------
/// Does only the record of the peer `k` change, by a sign of life at `now`?
pub open spec fn is_heard_of(
    m: MembershipView,
    after: MembershipView,
    k: Seq<char>,
    now: u128,
) -> bool {
    &&& members::same_but_for(m, after, k)
    &&& after.events == m.events
    &&& after.peers.keys == m.peers.keys
    &&& after.peers.contains(k) == m.peers.contains(k)
    &&& m.peers.contains(k) ==> after.peers.vals[k] == (PeerInfo {
        last_seen: now,
        ..m.peers.vals[k]
    })
    &&& !m.peers.contains(k) ==> after == m
}

/// A ping is answered to its sender with the time that it bears, and counts
/// as a sign of life.
pub proof fn law_ping_is_answered_to_its_sender(
    n: &mut NetworkState,
    from: &PeerId,
    msg: InternalMessage,
    timestamp_ms: u64,
    now_ms: u64,
    now: u128,
    r: Effects,
)
    requires
        call_ensures(NetworkState::handle_internal_at, (n, from, msg, now_ms, now), r),
        msg@ == (MessageView::Ping { timestamp_ms }),
    ensures
        replies(old(n)@, from@, MessageView::Pong { timestamp_ms }, r@.send),
        r@.connect.len() == 0,
        is_heard_of(old(n)@.membership, final(n)@.membership, from@, now),
        same_node(old(n)@, final(n)@),
        final(n)@.transport == old(n)@.transport,
        final(n)@.election == old(n)@.election,
        final(n)@.callback == old(n)@.callback,
{
    lemma_to_peer(old(n)@, from@, MessageView::Pong { timestamp_ms });
}

/// An answer to a ping counts as a sign of life, and how long it took is
/// recorded for the member and for the connection: the time since the ping
/// was sent.
pub proof fn law_answer_to_ping_is_recorded(
    n: &mut NetworkState,
    from: &PeerId,
    msg: InternalMessage,
    timestamp_ms: u64,
    now_ms: u64,
    now: u128,
    r: Effects,
)
    requires
        call_ensures(NetworkState::handle_internal_at, (n, from, msg, now_ms, now), r),
        msg@ == (MessageView::Pong { timestamp_ms }),
        timestamp_ms <= now_ms <= timestamp_ms + u32::MAX,
    ensures
        r@.send.len() == 0,
        r@.connect.len() == 0,
        old(n)@.membership.peers.contains(from@) ==> {
            let info = final(n)@.membership.peers.vals[from@];
            &&& info.rtt_ms == Some((now_ms - timestamp_ms) as u32)
            &&& info.last_seen == now
            &&& info.status == old(n)@.membership.peers.vals[from@].status
        },
        old(n)@.transport.connections.contains(from@) ==> {
            let info = final(n)@.transport.connections.vals[from@].info;
            &&& info.rtt_ms == Some((now_ms - timestamp_ms) as u32)
            &&& info.last_seen == now
            &&& info.status == old(n)@.transport.connections.vals[from@].info.status
        },
        members::same_but_for(old(n)@.membership, final(n)@.membership, from@),
        final(n)@.membership.peers.keys == old(n)@.membership.peers.keys,
        final(n)@.transport.connections.keys == old(n)@.transport.connections.keys,
        same_node(old(n)@, final(n)@),
        final(n)@.election == old(n)@.election,
        final(n)@.callback == old(n)@.callback,
{
}

/// The peers that have timed out, marked as disconnected, and what the
/// application and the events say of them.
proof fn lemma_timed_out(s: NetworkView, names: Seq<Seq<char>>)
    requires
        names.no_duplicates(),
        forall|i: int|
            0 <= i < names.len() ==> s.membership.peers.contains(#[trigger] names[i])
                && s.membership.peers.vals[names[i]].status == PeerStatus::Connected,
    ensures
        ({
            let after = s.timed_out(names);
            &&& same_node(s, after)
            &&& after.transport == s.transport
            &&& after.election == s.election
            &&& after.membership.local == s.membership.local
            &&& after.membership.config == s.membership.config
            &&& after.membership.clock == s.membership.clock
            &&& after.membership.peers.keys == s.membership.peers.keys
            &&& forall|x: Seq<char>| #[trigger]
                after.membership.peers.contains(x) == s.membership.peers.contains(x)
            &&& forall|x: Seq<char>|
                names.contains(x) ==> #[trigger] after.membership.peers.vals[x] == (PeerInfo {
                    status: PeerStatus::Disconnected,
                    ..s.membership.peers.vals[x]
                })
            &&& forall|x: Seq<char>|
                !names.contains(x) ==> #[trigger] after.membership.peers.vals[x]
                    == s.membership.peers.vals[x]
            &&& s.callback.open && s.callback.queue.len() + names.len() <= 1024 ==> {
                &&& after.callback.queue.len() == s.callback.queue.len() + names.len()
                &&& forall|i: int|
                    0 <= i < names.len() ==> after.callback.queue[s.callback.queue.len() + i] == (
                    CallbackEventView::PeerStatusChanged {
                        peer_id: #[trigger] names[i],
                        status: 1,
                    })
            }
            &&& s.membership.events.len() + names.len() <= 256 ==> {
                &&& after.membership.events.len() == s.membership.events.len() + names.len()
                &&& forall|i: int|
                    0 <= i < names.len() ==> after.membership.events[s.membership.events.len() + i]
                        == (EventView::StatusChanged {
                        peer_id: #[trigger] names[i],
                        old: PeerStatus::Connected,
                        new: PeerStatus::Disconnected,
                    })
            }
            &&& after.callback.open == s.callback.open
        }),
    decreases names.len(),
{
    if names.len() > 0 {
        let before = names.drop_last();
        let k = names.last();
        assert forall|i: int| 0 <= i < before.len() implies s.membership.peers.contains(
            #[trigger] before[i],
        ) && s.membership.peers.vals[before[i]].status == PeerStatus::Connected by {
            assert(before[i] == names[i]);
        }
        lemma_timed_out(s, before);
        assert(names[names.len() - 1] == k);
        assert(!before.contains(k)) by {
            if before.contains(k) {
                let i = before.index_of(k);
                assert(names[i] == names[names.len() - 1]);
            }
        }
        let mid = s.timed_out(before);
        assert(mid.membership.peers.contains(k) == s.membership.peers.contains(k));
        assert(mid.membership.peers.vals[k] == s.membership.peers.vals[k]);
        assert forall|x: Seq<char>| names.contains(x) <==> before.contains(x) || x == k by {
            if before.contains(x) {
                let i = before.index_of(x);
                assert(names[i] == x);
            }
            if names.contains(x) && x != k {
                let i = names.index_of(x);
                assert(before[i] == x);
            }
        }
        let after = s.timed_out(names);
        assert(after.membership.peers == mid.membership.peers.put(
            k,
            PeerInfo { status: PeerStatus::Disconnected, ..mid.membership.peers.vals[k] },
        ));
        assert forall|x: Seq<char>| names.contains(x) implies #[trigger] after.membership.peers.vals[x]
            == (PeerInfo {
            status: PeerStatus::Disconnected,
            ..s.membership.peers.vals[x]
        }) by {
            if x != k {
                assert(before.contains(x));
                assert(after.membership.peers.vals[x] == mid.membership.peers.vals[x]);
            }
        }
        assert forall|x: Seq<char>| !names.contains(x) implies #[trigger] after.membership.peers.vals[x]
            == s.membership.peers.vals[x] by {
            assert(!before.contains(x) && x != k);
            assert(after.membership.peers.vals[x] == mid.membership.peers.vals[x]);
        }
        assert forall|x: Seq<char>| #[trigger] after.membership.peers.contains(x)
            == s.membership.peers.contains(x) by {
            assert(after.membership.peers.contains(x) == mid.membership.peers.contains(x));
        }
        if s.callback.open && s.callback.queue.len() + names.len() <= 1024 {
            let q = s.callback.queue.len();
            assert forall|i: int| 0 <= i < names.len() implies after.callback.queue[q + i] == (
            CallbackEventView::PeerStatusChanged { peer_id: #[trigger] names[i], status: 1 }) by {
                if i < before.len() {
                    assert(before[i] == names[i]);
                    assert(after.callback.queue[q + i] == mid.callback.queue[q + i]);
                }
            }
        }
        if s.membership.events.len() + names.len() <= 256 {
            let q = s.membership.events.len();
            assert forall|i: int| 0 <= i < names.len() implies after.membership.events[q + i] == (
            EventView::StatusChanged {
                peer_id: #[trigger] names[i],
                old: PeerStatus::Connected,
                new: PeerStatus::Disconnected,
            }) by {
                if i < before.len() {
                    assert(before[i] == names[i]);
                    assert(after.membership.events[q + i] == mid.membership.events[q + i]);
                }
            }
        }
    }
}

/// Giving up the members that have timed out.
pub proof fn lemma_silent_are_given_up(s: NetworkView, now: u128)
    requires
        s.membership.peers.wf(),
    ensures
        ({
            let m = s.membership;
            let after = s.timed_out(m.overdue(now));
            &&& same_node(s, after)
            &&& after.transport == s.transport
            &&& after.election == s.election
            &&& after.membership.config == m.config
            &&& after.membership.peers.keys == m.peers.keys
            &&& forall|k: Seq<char>| #[trigger]
                after.membership.peers.contains(k) == m.peers.contains(k)
            &&& forall|k: Seq<char>|
                m.peers.contains(k) ==> #[trigger] after.membership.peers.vals[k] == (
                if members::is_silent(m, m.peers.vals[k], now) {
                    PeerInfo { status: PeerStatus::Disconnected, ..m.peers.vals[k] }
                } else {
                    m.peers.vals[k]
                })
        }),
{
    let names = s.membership.overdue(now);
    members::lemma_overdue_is_silent(s.membership, now);
    assert forall|i: int| 0 <= i < names.len() implies s.membership.peers.contains(
        #[trigger] names[i],
    ) && s.membership.peers.vals[names[i]].status == PeerStatus::Connected by {
        assert(names.contains(names[i]));
    }
    lemma_timed_out(s, names);
    let after = s.timed_out(names);
    assert forall|k: Seq<char>|
        s.membership.peers.contains(k) implies #[trigger] after.membership.peers.vals[k] == (
    if members::is_silent(s.membership, s.membership.peers.vals[k], now) {
        PeerInfo { status: PeerStatus::Disconnected, ..s.membership.peers.vals[k] }
    } else {
        s.membership.peers.vals[k]
    }) by {
        assert(names.contains(k) <==> members::is_silent(
            s.membership,
            s.membership.peers.vals[k],
            now,
        ));
    }
}

/// When the timer for pings goes off, every connected peer is sent a ping
/// with the time.
pub proof fn law_everybody_is_pinged(
    n: &mut NetworkState,
    now_ms: u64,
    now: u128,
    r: Effects,
)
    requires
        old(n).wf(),
        call_ensures(NetworkState::ping_tick_at, (n, now_ms, now), r),
    ensures
        announces(old(n)@, MessageView::Ping { timestamp_ms: now_ms }, r@.send),
        r@.connect.len() == 0,
{
    old(n).transport.law_each_peer_has_one_connection();
    lemma_to_all(old(n)@, MessageView::Ping { timestamp_ms: now_ms });
}

/// When the timer for pings goes off, exactly the connected members that have
/// been silent for too long are marked as disconnected; every other record is
/// as it was, and nobody is left that has timed out.
pub proof fn law_silent_peers_are_given_up(
    n: &mut NetworkState,
    now_ms: u64,
    now: u128,
    r: Effects,
    k: Seq<char>,
)
    requires
        old(n).wf(),
        call_ensures(NetworkState::ping_tick_at, (n, now_ms, now), r),
    ensures
        ({
            let m = old(n)@.membership;
            let after = final(n)@.membership;
            &&& after.peers.keys == m.peers.keys
            &&& after.peers.contains(k) == m.peers.contains(k)
            &&& m.peers.contains(k) && members::is_silent(m, m.peers.vals[k], now) ==> {
                &&& after.peers.vals[k].status == PeerStatus::Disconnected
                &&& after.peers.vals[k] == (PeerInfo {
                    status: PeerStatus::Disconnected,
                    ..m.peers.vals[k]
                })
            }
            &&& m.peers.contains(k) && !members::is_silent(m, m.peers.vals[k], now)
                ==> after.peers.vals[k] == m.peers.vals[k]
            &&& after.peers.contains(k) ==> !members::is_silent(after, after.peers.vals[k], now)
        }),
        same_node(old(n)@, final(n)@),
        final(n)@.transport == old(n)@.transport,
        final(n)@.election == old(n)@.election,
{
    old(n).membership.law_each_peer_is_listed_once();
    lemma_silent_are_given_up(old(n)@, now);
}

/// Of every member that is given up, the application is told that it is
/// disconnected, as long as it takes events and has room for them, and there
/// is an event.
pub proof fn law_giving_up_is_told(
    n: &mut NetworkState,
    now_ms: u64,
    now: u128,
    r: Effects,
    k: Seq<char>,
)
    requires
        old(n).wf(),
        call_ensures(NetworkState::ping_tick_at, (n, now_ms, now), r),
        old(n)@.membership.peers.contains(k),
        members::is_silent(old(n)@.membership, old(n)@.membership.peers.vals[k], now),
    ensures
        old(n)@.callback.open && old(n)@.callback.queue.len()
            + old(n)@.membership.peers.keys.len() <= 1024 ==> final(n)@.callback.queue.skip(
            old(n)@.callback.queue.len() as int,
        ).contains(CallbackEventView::PeerStatusChanged { peer_id: k, status: 1 }),
        old(n)@.membership.events.len() + old(n)@.membership.peers.keys.len() <= 256
            ==> final(n)@.membership.events.skip(old(n)@.membership.events.len() as int).contains(
            EventView::StatusChanged {
                peer_id: k,
                old: PeerStatus::Connected,
                new: PeerStatus::Disconnected,
            },
        ),
{
    let s = old(n)@;
    let after = final(n)@;
    let names = s.membership.overdue(now);
    old(n).membership.law_each_peer_is_listed_once();
    members::lemma_overdue_is_silent(s.membership, now);
    assert forall|i: int| 0 <= i < names.len() implies s.membership.peers.contains(
        #[trigger] names[i],
    ) && s.membership.peers.vals[names[i]].status == PeerStatus::Connected by {
        assert(names.contains(names[i]));
    }
    lemma_timed_out(s, names);
    assert(names.contains(k));
    let i = names.index_of(k);
    assert(names[i] == k);
    if s.callback.open && s.callback.queue.len() + s.membership.peers.keys.len() <= 1024 {
        let e = CallbackEventView::PeerStatusChanged { peer_id: k, status: 1 };
        assert(after.callback.queue[s.callback.queue.len() + i] == e);
        assert(after.callback.queue.skip(s.callback.queue.len() as int)[i] == e);
    }
    if s.membership.events.len() + s.membership.peers.keys.len() <= 256 {
        let e = EventView::StatusChanged {
            peer_id: k,
            old: PeerStatus::Connected,
            new: PeerStatus::Disconnected,
        };
        assert(after.membership.events[s.membership.events.len() + i] == e);
        assert(after.membership.events.skip(s.membership.events.len() as int)[i] == e);
    }
}

// --- the election -----------------------------------------------------------
/// When the timer for heartbeats goes off, the leader sends one to every
/// connected peer, with its term and name; nobody else sends any.
pub proof fn law_leader_sends_heartbeats(n: &NetworkState, now_ms: u64, r: Effects)
    requires
        n.wf(),
        call_ensures(NetworkState::heartbeat_tick_at, (n, now_ms), r),
    ensures
        r@.connect.len() == 0,
        n@.election.role == Role::Leader ==> announces(
            n@,
            MessageView::Heartbeat {
                term: n@.election.term as u64,
                leader_id: n@.local,
                timestamp_ms: now_ms,
            },
            r@.send,
        ),
        n@.election.role != Role::Leader ==> r@.send.len() == 0,
{
    n.transport.law_each_peer_has_one_connection();
    lemma_to_all(
        n@,
        MessageView::Heartbeat {
            term: n@.election.term as u64,
            leader_id: n@.local,
            timestamp_ms: now_ms,
        },
    );
}

/// When the timer for elections goes off and there is no leader, a node that
/// may stand does: in the next term, with its own vote. With at most one
/// connected member it leads at once and says so to every connected peer;
/// with more it asks them for their votes.
pub proof fn law_node_without_leader_stands(
    n: &mut NetworkState,
    now_ms: u64,
    r: Effects,
)
    requires
        old(n).wf(),
        call_ensures(NetworkState::election_tick_at, (n, now_ms), r),
        old(n)@.election.role != Role::Leader,
        old(n)@.election.leader is None,
        old(n)@.election.auto_election,
        !old(n)@.election.manual_override,
        old(n)@.election.term < u64::MAX,
    ensures
        final(n)@.election.term == old(n)@.election.term + 1,
        final(n)@.election.voted_for == Some(old(n)@.local),
        old(n)@.membership.connected().len() <= 1 ==> {
            &&& final(n)@.election.role == Role::Leader
            &&& final(n)@.election.leader == Some(old(n)@.local)
            &&& announces(
                old(n)@,
                MessageView::Heartbeat {
                    term: (old(n)@.election.term + 1) as u64,
                    leader_id: old(n)@.local,
                    timestamp_ms: now_ms,
                },
                r@.send,
            )
        },
        old(n)@.membership.connected().len() >= 2 ==> {
            &&& final(n)@.election.role == Role::Candidate
            &&& final(n)@.election.votes == set![old(n)@.local]
            &&& final(n)@.election.leader is None
            &&& announces(
                old(n)@,
                MessageView::RequestVote {
                    term: (old(n)@.election.term + 1) as u64,
                    candidate_id: old(n)@.local,
                },
                r@.send,
            )
        },
        r@.connect.len() == 0,
        same_node(old(n)@, final(n)@),
        final(n)@.transport == old(n)@.transport,
        final(n)@.membership == old(n)@.membership,
        final(n)@.callback == old(n)@.callback,
{
    old(n).transport.law_each_peer_has_one_connection();
    let s = old(n)@;
    lemma_to_all(
        s,
        MessageView::Heartbeat {
            term: (s.election.term + 1) as u64,
            leader_id: s.local,
            timestamp_ms: now_ms,
        },
    );
    lemma_to_all(
        s,
        MessageView::RequestVote {
            term: (s.election.term + 1) as u64,
            candidate_id: s.local,
        },
    );
}

/// Otherwise the timer for elections does nothing.
pub proof fn law_node_with_leader_does_not_stand(
    n: &mut NetworkState,
    now_ms: u64,
    r: Effects,
)
    requires
        call_ensures(NetworkState::election_tick_at, (n, now_ms), r),
        old(n)@.election.role == Role::Leader || old(n)@.election.leader is Some
            || !old(n)@.election.auto_election || old(n)@.election.manual_override,
    ensures
        final(n)@ == old(n)@,
        r@.send.len() == 0,
        r@.connect.len() == 0,
{
}

/// Does only the state of the election change?
pub open spec fn only_election_changes(s: NetworkView, after: NetworkView) -> bool {
    &&& same_node(s, after)
    &&& after.transport == s.transport
    &&& after.membership == s.membership
    &&& after.callback == s.callback
}

/// A heartbeat goes to the election, counts as a sign of life of its sender,
/// and is answered to it with the same term and time.
pub proof fn law_heartbeat_is_taken_in_and_answered(
    n: &mut NetworkState,
    from: &PeerId,
    msg: InternalMessage,
    term: u64,
    leader: Seq<char>,
    timestamp_ms: u64,
    now_ms: u64,
    now: u128,
    r: Effects,
)
    requires
        call_ensures(NetworkState::handle_internal_at, (n, from, msg, now_ms, now), r),
        msg@ == (MessageView::Heartbeat { term, leader_id: leader, timestamp_ms }),
    ensures
        final(n)@.election == old(n)@.election.heard(term as nat, leader),
        term > old(n)@.election.term && !old(n)@.election.manual_override ==> {
            &&& final(n)@.election.leader == Some(leader)
            &&& final(n)@.election.role == Role::Follower
        },
        is_heard_of(old(n)@.membership, final(n)@.membership, from@, now),
        replies(old(n)@, from@, MessageView::HeartbeatResponse { term, timestamp_ms }, r@.send),
        r@.connect.len() == 0,
        same_node(old(n)@, final(n)@),
        final(n)@.transport == old(n)@.transport,
        final(n)@.callback == old(n)@.callback,
{
    lemma_to_peer(old(n)@, from@, MessageView::HeartbeatResponse { term, timestamp_ms });
}

/// The answer to a heartbeat counts as a sign of life, and nothing else.
pub proof fn law_answer_to_heartbeat_is_a_sign_of_life(
    n: &mut NetworkState,
    from: &PeerId,
    msg: InternalMessage,
    now_ms: u64,
    now: u128,
    r: Effects,
)
    requires
        call_ensures(NetworkState::handle_internal_at, (n, from, msg, now_ms, now), r),
        msg@ is HeartbeatResponse,
    ensures
        is_heard_of(old(n)@.membership, final(n)@.membership, from@, now),
        r@.send.len() == 0,
        r@.connect.len() == 0,
        same_node(old(n)@, final(n)@),
        final(n)@.transport == old(n)@.transport,
        final(n)@.election == old(n)@.election,
        final(n)@.callback == old(n)@.callback,
{
}

/// Whoever asks for a vote is answered with the term and the decision, under
/// this node's name, and the vote that is given is remembered. In a later
/// term it is given; in an earlier one it is not.
pub proof fn law_vote_request_is_answered(
    n: &mut NetworkState,
    from: &PeerId,
    msg: InternalMessage,
    term: u64,
    candidate: Seq<char>,
    now_ms: u64,
    now: u128,
    r: Effects,
)
    requires
        call_ensures(NetworkState::handle_internal_at, (n, from, msg, now_ms, now), r),
        msg@ == (MessageView::RequestVote { term, candidate_id: candidate }),
    ensures
        final(n)@.election == old(n)@.election.asked(term as nat, candidate),
        ({
            let granted = term > old(n)@.election.term || (term == old(n)@.election.term && (
            old(n)@.election.voted_for is None || old(n)@.election.voted_for == Some(candidate)));
            &&& granted ==> final(n)@.election.voted_for == Some(candidate)
            &&& replies(
                old(n)@,
                from@,
                MessageView::VoteResponse {
                    term: final(n)@.election.term as u64,
                    voter_id: old(n)@.local,
                    granted,
                },
                r@.send,
            )
        }),
        r@.connect.len() == 0,
        only_election_changes(old(n)@, final(n)@),
{
    lemma_to_peer(
        old(n)@,
        from@,
        MessageView::VoteResponse {
            term: final(n)@.election.term as u64,
            voter_id: old(n)@.local,
            granted: old(n)@.election.grants(term as nat, candidate),
        },
    );
}

/// An answer to a request for a vote goes to the election, which counts it
/// among the connected members. Whoever becomes the leader by it says so to
/// every connected peer at once; else nothing is sent.
pub proof fn law_vote_is_counted(
    n: &mut NetworkState,
    from: &PeerId,
    msg: InternalMessage,
    term: u64,
    voter: Seq<char>,
    granted: bool,
    now_ms: u64,
    now: u128,
    r: Effects,
)
    requires
        old(n).wf(),
        call_ensures(NetworkState::handle_internal_at, (n, from, msg, now_ms, now), r),
        msg@ == (MessageView::VoteResponse { term, voter_id: voter, granted }),
    ensures
        final(n)@.election == old(n)@.election.answered(
            term as nat,
            voter,
            granted,
            old(n)@.membership.connected().len(),
        ),
        old(n)@.election.role != Role::Leader && final(n)@.election.role == Role::Leader
            ==> announces(
            old(n)@,
            MessageView::Heartbeat {
                term: final(n)@.election.term as u64,
                leader_id: old(n)@.local,
                timestamp_ms: now_ms,
            },
            r@.send,
        ),
        old(n)@.election.role == Role::Leader || final(n)@.election.role != Role::Leader
            ==> r@.send.len() == 0,
        r@.connect.len() == 0,
        only_election_changes(old(n)@, final(n)@),
{
    old(n).transport.law_each_peer_has_one_connection();
    lemma_to_all(
        old(n)@,
        MessageView::Heartbeat {
            term: final(n)@.election.term as u64,
            leader_id: old(n)@.local,
            timestamp_ms: now_ms,
        },
    );
}

/// The assignment of a leader by another node is taken over: the assigned
/// node is the leader, and this node leads exactly if that is itself.
pub proof fn law_assignment_of_another_node_is_taken_over(
    n: &mut NetworkState,
    from: &PeerId,
    msg: InternalMessage,
    term: u64,
    leader: Seq<char>,
    assigner: Seq<char>,
    now_ms: u64,
    now: u128,
    r: Effects,
)
    requires
        old(n).wf(),
        call_ensures(NetworkState::handle_internal_at, (n, from, msg, now_ms, now), r),
        msg@ == (MessageView::LeaderAssign { term, leader_id: leader, assigner_id: assigner }),
    ensures
        final(n)@.election.leader == Some(leader),
        final(n)@.election.role == Role::Leader <==> leader == old(n)@.local,
        final(n)@.election.role != Role::Candidate,
        final(n)@.election.manual_override,
        final(n)@.election.term >= term,
        final(n)@.election.term >= old(n)@.election.term,
        r@.send.len() == 0,
        r@.connect.len() == 0,
        only_election_changes(old(n)@, final(n)@),
{
}

// --- user messages ----------------------------------------------------------
/// A packet of a user message is handed to the application under the name of
/// the peer that it came from, unpacked, with its type and flags; one that
/// cannot be unpacked is ignored. Nothing else happens.
pub proof fn law_user_packet_is_handed_over(
    n: &mut NetworkState,
    from: &PeerId,
    p: RawPacket,
    now_ms: u64,
    now: u128,
    r: Effects,
)
    requires
        call_ensures(NetworkState::handle_message_at, (n, from, p, now_ms, now), r),
        p@.msg_type >= 0x0100,
    ensures
        messaging::unpacked(p@) matches Some(data) ==> told(
            old(n)@.callback,
            final(n)@.callback,
            CallbackEventView::Received {
                peer_id: from@,
                data,
                msg_type: p@.msg_type,
                flags: p@.flags,
            },
        ),
        messaging::unpacked(p@) is None ==> final(n)@ == old(n)@,
        r@.send.len() == 0,
        r@.connect.len() == 0,
        same_node(old(n)@, final(n)@),
        final(n)@.transport == old(n)@.transport,
        final(n)@.membership == old(n)@.membership,
        final(n)@.election == old(n)@.election,
{
}

/// A packet of an internal message is taken in as the message that it holds;
/// one that cannot be read is ignored.
pub proof fn law_internal_packet_is_taken_in(
    n: &mut NetworkState,
    from: &PeerId,
    p: RawPacket,
    now_ms: u64,
    now: u128,
    r: Effects,
)
    requires
        call_ensures(NetworkState::handle_message_at, (n, from, p, now_ms, now), r),
        p@.msg_type < 0x0100,
    ensures
        wire::take_message(p@.payload) matches Some(m) ==> old(n)@.takes_in(
            from@,
            m,
            now_ms,
            now,
            final(n)@,
            r@,
        ),
        wire::take_message(p@.payload) is None ==> final(n)@ == old(n)@ && r@.send.len() == 0
            && r@.connect.len() == 0,
{
}

/// A broadcast that this node is asked to pass on is handed to the
/// application under the name of the peer that it is of, unpacked if that is
/// possible. It is passed on to every connected peer but that one exactly if
/// this node leads, is set to do so, and the message is one of a user's type
/// within the limit.
pub proof fn law_forwarded_broadcast_is_handed_over_and_passed_on(
    n: &mut NetworkState,
    from: &PeerId,
    msg: InternalMessage,
    origin: Seq<char>,
    msg_type: u16,
    flags: u8,
    payload: Seq<u8>,
    now_ms: u64,
    now: u128,
    r: Effects,
)
    requires
        old(n).wf(),
        call_ensures(NetworkState::handle_internal_at, (n, from, msg, now_ms, now), r),
        msg@ == (MessageView::ForwardedUserData {
            from_peer_id: origin,
            original_msg_type: msg_type,
            original_flags: flags,
            payload,
        }),
    ensures
        ({
            let p = messaging::PacketView { msg_type, flags, payload };
            &&& messaging::unpacked(p) matches Some(data) ==> told(
                old(n)@.callback,
                final(n)@.callback,
                CallbackEventView::Received { peer_id: origin, data, msg_type, flags },
            )
            &&& messaging::unpacked(p) is None ==> told(
                old(n)@.callback,
                final(n)@.callback,
                CallbackEventView::Received { peer_id: origin, data: payload, msg_type, flags },
            )
        }),
        ({
            let passed_on = old(n)@.election.role == Role::Leader && old(n)@.router.auto_forward
                && msg_type >= 0x0100 && payload.len() <= old(n)@.config.max_message_size;
            &&& passed_on ==> routing::delivers(
                old(n)@.transport,
                seq![origin],
                r@.send,
                msg_type,
                payload,
                flags,
            )
            &&& !passed_on ==> r@.send.len() == 0
        }),
        r@.connect.len() == 0,
        same_node(old(n)@, final(n)@),
        final(n)@.transport == old(n)@.transport,
        final(n)@.membership == old(n)@.membership,
        final(n)@.election == old(n)@.election,
{
    old(n).transport.law_each_peer_has_one_connection();
    let s = old(n)@;
    let m = crate::session_router::UserMessage { msg_type, data: payload, flags };
    if s.election.role == Role::Leader && s.router.auto_forward && msg_type >= 0x0100
        && payload.len() <= s.config.max_message_size {
        routing::lemma_broadcast(s.router, s.transport, m, seq![origin], r@.send);
    }
}

/// The messages by which a data channel is set up change nothing here.
pub proof fn law_data_channel_messages_change_nothing(
    n: &mut NetworkState,
    from: &PeerId,
    msg: InternalMessage,
    now_ms: u64,
    now: u128,
    r: Effects,
)
    requires
        call_ensures(NetworkState::handle_internal_at, (n, from, msg, now_ms, now), r),
        msg@ is DataChannelHandshake || msg@ is DataChannelHandshakeAck,
    ensures
        final(n)@ == old(n)@,
        r@.send.len() == 0,
        r@.connect.len() == 0,
{
}

// --- what the application is told -------------------------------------------
/// The application is told of a peer that joins that it is connected, of one
/// that leaves that it is disconnected, and of any other change the new
/// status. That the leader leaves makes the node forget it.
pub proof fn law_change_of_members_is_told(
    n: &mut NetworkState,
    event: &MembershipEvent,
)
    requires
        call_ensures(NetworkState::on_membership_event, (n, event), ()),
    ensures
        ({
            let (peer, status): (Seq<char>, int) = match event@ {
                EventView::Joined(k) => (k, 0),
                EventView::Left(k) => (k, 1),
                EventView::StatusChanged { peer_id, new, .. } => (
                    peer_id,
                    match new {
                        PeerStatus::Connected => 0,
                        PeerStatus::Disconnected => 1,
                        PeerStatus::Reconnecting => 2,
                        PeerStatus::Handshaking => 3,
                    },
                ),
            };
            told(
                old(n)@.callback,
                final(n)@.callback,
                CallbackEventView::PeerStatusChanged { peer_id: peer, status: status as i32 },
            )
        }),
        event@ matches EventView::Left(k) && old(n)@.election.leader == Some(k)
            ==> final(n)@.election.leader is None,
        event@ matches EventView::Left(k) && old(n)@.election.leader != Some(k)
            ==> final(n)@.election == old(n)@.election,
        !(event@ is Left) ==> final(n)@.election == old(n)@.election,
        same_node(old(n)@, final(n)@),
        final(n)@.transport == old(n)@.transport,
        final(n)@.membership == old(n)@.membership,
{
}

proof fn lemma_reacted_all(s: NetworkView, events: Seq<EventView>)
    ensures
        ({
            let after = s.reacted_all(events);
            &&& same_node(s, after)
            &&& after.transport == s.transport
            &&& after.membership == s.membership
            &&& after.callback.open == s.callback.open
            &&& s.callback.open && s.callback.queue.len() + events.len() <= 1024 ==> {
                &&& after.callback.queue.len() == s.callback.queue.len() + events.len()
                &&& s.callback.queue.is_prefix_of(after.callback.queue)
                &&& forall|i: int|
                    0 <= i < events.len() ==> status_told(
                        #[trigger] events[i],
                        after.callback.queue[s.callback.queue.len() + i],
                    )
            }
            &&& s.election.leader matches Some(l) ==> after.election.leader == (
            if events.contains(EventView::Left(l)) {
                None
            } else {
                Some(l)
            })
            &&& s.election.leader is None ==> after.election.leader is None
            &&& after.election.role == s.election.role
            &&& after.election.term == s.election.term
        }),
    decreases events.len(),
{
    if events.len() > 0 {
        let before = events.drop_last();
        lemma_reacted_all(s, before);
        let mid = s.reacted_all(before);
        let after = s.reacted_all(events);
        if s.callback.open && s.callback.queue.len() + events.len() <= 1024 {
            assert forall|i: int| 0 <= i < events.len() implies status_told(
                #[trigger] events[i],
                after.callback.queue[s.callback.queue.len() + i],
            ) by {
                if i < before.len() {
                    assert(before[i] == events[i]);
                    assert(after.callback.queue[s.callback.queue.len() + i]
                        == mid.callback.queue[s.callback.queue.len() + i]);
                }
            }
        }
        if s.election.leader is Some {
            let left = EventView::Left(s.election.leader->0);
            if before.contains(left) {
                let i = before.index_of(left);
                assert(events[i] == left);
            }
            if events.contains(left) && !before.contains(left) {
                let i = events.index_of(left);
                if i < before.len() {
                    assert(before[i] == left);
                }
                assert(events.last() == left);
            }
            if events.last() == left {
                assert(events[events.len() - 1] == left);
            }
        }
    }
}

/// Is this what the application is told of a change in the table of members?
pub open spec fn status_told(e: EventView, c: CallbackEventView) -> bool {
    c matches CallbackEventView::PeerStatusChanged { peer_id, status } && match e {
        EventView::Joined(k) => peer_id == k && status == 0,
        EventView::Left(k) => peer_id == k && status == 1,
        EventView::StatusChanged { peer_id: k, new, .. } => peer_id == k && match new {
            PeerStatus::Connected => status == 0,
            PeerStatus::Disconnected => status == 1,
            PeerStatus::Reconnecting => status == 2,
            PeerStatus::Handshaking => status == 3,
        },
    }
}

/// Every change in the table of members that waits is handed on, one after
/// the other, and none waits then. The leader is forgotten exactly if it is
/// among those that left.
pub proof fn law_all_changes_of_members_are_handed_on(n: &mut NetworkState)
    requires
        call_ensures(NetworkState::process_membership_events, (n,), ()),
    ensures
        final(n)@.membership.events.len() == 0,
        final(n)@.membership.peers == old(n)@.membership.peers,
        ({
            let events = old(n)@.membership.events;
            let queue = old(n)@.callback.queue;
            &&& old(n)@.callback.open && queue.len() + events.len() <= 1024 ==> {
                &&& final(n)@.callback.queue.len() == queue.len() + events.len()
                &&& queue.is_prefix_of(final(n)@.callback.queue)
                &&& forall|i: int|
                    0 <= i < events.len() ==> status_told(
                        #[trigger] events[i],
                        final(n)@.callback.queue[queue.len() + i],
                    )
            }
            &&& old(n)@.election.leader matches Some(l) ==> final(n)@.election.leader == (
            if events.contains(EventView::Left(l)) {
                None
            } else {
                Some(l)
            })
        }),
        same_node(old(n)@, final(n)@),
        final(n)@.transport == old(n)@.transport,
        final(n)@.election.role == old(n)@.election.role,
        final(n)@.election.term == old(n)@.election.term,
{
    lemma_reacted_all(
        old(n)@.with_membership(old(n)@.membership.drained()),
        old(n)@.membership.events,
    );
}

/// Every change of the leader that was noted is told to the application, in
/// order, and none is noted then.
pub proof fn law_all_changes_of_the_leader_are_told(n: &mut NetworkState)
    requires
        call_ensures(NetworkState::process_leader_changes, (n,), ()),
        old(n)@.callback.open,
        old(n)@.callback.queue.len() + old(n)@.election.notices.len() <= 1024,
    ensures
        final(n)@.election.notices.len() == 0,
        final(n)@.election.leader == old(n)@.election.leader,
        final(n)@.election.role == old(n)@.election.role,
        final(n)@.callback.queue.len() == old(n)@.callback.queue.len()
            + old(n)@.election.notices.len(),
        old(n)@.callback.queue.is_prefix_of(final(n)@.callback.queue),
        forall|i: int|
            0 <= i < old(n)@.election.notices.len() ==> final(n)@.callback.queue[old(
                n,
            )@.callback.queue.len() + i] == (CallbackEventView::LeaderChanged {
                leader_id: #[trigger] old(n)@.election.notices[i],
            }),
        same_node(old(n)@, final(n)@),
        final(n)@.transport == old(n)@.transport,
        final(n)@.membership == old(n)@.membership,
{
    let s = old(n)@;
    let events = NetworkView::leader_events(s.election.notices);
    crate::callback::law_events_keep_their_order(s.callback, events);
    assert forall|i: int| 0 <= i < s.election.notices.len() implies final(n)@.callback.queue[
    s.callback.queue.len() + i] == (CallbackEventView::LeaderChanged {
        leader_id: #[trigger] s.election.notices[i],
    }) by {
        assert(events[i] == (CallbackEventView::LeaderChanged {
            leader_id: s.election.notices[i],
        }));
    }
}

/// The application is told how a connection attempt ended: a success has the
/// code zero, a peer that is connected already counts as a success with the
/// code of that error, and any other error is a failure with its code.
pub proof fn law_outcome_of_connecting_is_told(
    n: &mut NetworkState,
    addr: &str,
    result: &Result<PeerId, NetworkError>,
)
    requires
        call_ensures(NetworkState::report_connection, (n, addr, result), ()),
    ensures
        match *result {
            Ok(_) => told(
                old(n)@.callback,
                final(n)@.callback,
                CallbackEventView::ConnectionResult { addr: addr@, success: true, error_code: 0 },
            ),
            Err(e) => told(
                old(n)@.callback,
                final(n)@.callback,
                CallbackEventView::ConnectionResult {
                    addr: addr@,
                    success: e is AlreadyConnected,
                    error_code: e.spec_code(),
                },
            ),
        },
        same_node(old(n)@, final(n)@),
        final(n)@.transport == old(n)@.transport,
        final(n)@.membership == old(n)@.membership,
        final(n)@.election == old(n)@.election,
{
}

// --- beginning and end ------------------------------------------------------
/// A new node knows nobody, is connected to nobody and leads nobody.
pub proof fn law_new_node_is_alone(
    peer: String,
    session: String,
    config: crate::config::NetworkConfig,
    addr: String,
    port: u16,
    r: NetworkState,
)
    requires
        call_ensures(NetworkState::new, (peer, session, config, addr, port), r),
    ensures
        r@.local == peer@,
        r@.session == session@,
        r@.config == config,
        r@.transport.local == peer@,
        r@.transport.session == session@,
        r@.transport.config == config,
        r@.transport.listen_addr == addr@,
        r@.transport.listen_port == port,
        r@.transport.auto_reconnect == config.auto_reconnect_enabled,
        !r@.transport.stopped,
        forall|k: Seq<char>| !#[trigger] r@.transport.connections.contains(k),
        forall|k: Seq<char>| !#[trigger] r@.membership.peers.contains(k),
        r@.membership.config == config,
        r@.membership.events.len() == 0,
        r@.election.role == Role::Follower,
        r@.election.leader is None,
        r@.election.auto_election == config.auto_election_enabled,
        r@.election.recovery == config.manual_override_recovery,
        !r@.router.centralized,
        r@.router.auto_forward == config.centralized_auto_forward,
        r@.router.max_message_size == config.max_message_size,
        r@.router.compression_threshold == config.compression_threshold,
        r@.callback.open,
        r@.callback.queue.len() == 0,
        r@.discovery is None,
{
}

/// A node that shuts down bids every connected peer farewell, under its own
/// name.
pub proof fn law_everybody_is_bidden_farewell(n: &NetworkState, r: Vec<Outgoing>)
    requires
        n.wf(),
        call_ensures(NetworkState::begin_shutdown, (n,), r),
    ensures
        announces(
            n@,
            MessageView::PeerLeave { peer_id: n@.local },
            transport::outgoing_view(r@),
        ),
{
    n.transport.law_each_peer_has_one_connection();
    routing::lemma_announces(n@.transport, MessageView::PeerLeave { peer_id: n@.local });
}

/// A node that has shut down has no connections, restores none, and neither
/// takes nor hands out events; the channels to close are those of all
/// connections.
pub proof fn law_shutdown_leaves_nothing_open(n: &mut NetworkState, r: Vec<u64>)
    requires
        old(n).wf(),
        call_ensures(NetworkState::finish_shutdown, (n,), r),
    ensures
        forall|k: Seq<char>| !#[trigger] final(n)@.transport.connections.contains(k),
        final(n)@.transport.connections.keys.len() == 0,
        final(n)@.transport.stopped,
        !final(n)@.callback.open,
        connections::are_all_channels(old(n)@.transport, r@),
        same_node(old(n)@, final(n)@),
{
    old(n).transport.law_each_peer_has_one_connection();
    connections::lemma_channels_of_all(old(n)@.transport);
}

} // verus!
