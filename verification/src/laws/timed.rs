//! Promises of the operations that read the clock: what they do whatever time
//! it is.

use vstd::prelude::*;

use crate::callback::CallbackEventView;
use crate::error::NetworkError;
use crate::laws::connections;
use crate::laws::members;
use crate::laws::node;
use crate::leader::Role;
use crate::membership::{EventView, MembershipManager};
use crate::messaging::{self, RawPacket};
use crate::network::{Effects, NetworkState};
use crate::protocol::MessageView;
use crate::text;
use crate::transport::TransportManager;
use crate::types::{self, PeerId, PeerInfo, PeerStatus};
use crate::wire;

verus! {

/// A peer that is not listed yet is listed, as connected and heard of when it
/// connected, and its joining is an event; one that is listed is refused.
pub proof fn law_peer_is_added_now(
    m: &mut MembershipManager,
    k: PeerId,
    addr: String,
    r: Result<(), NetworkError>,
)
    requires
        call_ensures(MembershipManager::add_peer, (m, k, addr), r),
    ensures
        !old(m)@.peers.contains(k@) ==> {
            let info = final(m)@.peers.vals[k@];
            &&& r is Ok
            &&& final(m)@.peers.contains(k@)
            &&& info.peer_id@ == k@
            &&& info.addr == addr
            &&& info.status == PeerStatus::Connected
            &&& info.last_seen == info.connected_at
            &&& info.rtt_ms is None
            &&& info.should_reconnect
            &&& final(m)@.peers.keys =~= old(m)@.peers.keys + seq![k@]
            &&& final(m)@.events.last() == EventView::Joined(k@)
        },
        old(m)@.peers.contains(k@) ==> {
            &&& r matches Err(NetworkError::DuplicatePeerId(id)) && id@ == k@
            &&& final(m)@ == old(m)@
        },
        members::same_but_for(old(m)@, final(m)@, k@),
{
}

/// A sign of life, or an answer to a ping, changes the times in the record of
/// its peer and nothing else; the answer leaves a round trip time.
pub proof fn law_signs_of_life_are_remembered_now(
    m: &mut MembershipManager,
    n: &mut MembershipManager,
    k: &PeerId,
    sent: u64,
)
    requires
        call_ensures(MembershipManager::update_last_seen, (m, k), ()),
        call_ensures(MembershipManager::handle_pong, (n, k, sent), ()),
    ensures
        old(m)@.peers.contains(k@) ==> final(m)@.peers.vals[k@] == (PeerInfo {
            last_seen: final(m)@.peers.vals[k@].last_seen,
            ..old(m)@.peers.vals[k@]
        }),
        !old(m)@.peers.contains(k@) ==> final(m)@ == old(m)@,
        final(m)@.peers.contains(k@) == old(m)@.peers.contains(k@),
        final(m)@.events == old(m)@.events,
        members::same_but_for(old(m)@, final(m)@, k@),
        old(n)@.peers.contains(k@) ==> {
            let info = final(n)@.peers.vals[k@];
            &&& info.rtt_ms is Some
            &&& info == (PeerInfo {
                last_seen: info.last_seen,
                rtt_ms: info.rtt_ms,
                ..old(n)@.peers.vals[k@]
            })
        },
        !old(n)@.peers.contains(k@) ==> final(n)@ == old(n)@,
        final(n)@.peers.contains(k@) == old(n)@.peers.contains(k@),
        final(n)@.events == old(n)@.events,
        members::same_but_for(old(n)@, final(n)@, k@),
{
}

/// Are exactly the members named that have been silent for too long at `now`?
pub open spec fn names_the_silent(
    m: crate::membership::MembershipView,
    names: Seq<Seq<char>>,
    now: u128,
) -> bool {
    &&& forall|k: Seq<char>| #[trigger]
        names.contains(k) <==> m.peers.contains(k) && members::is_silent(m, m.peers.vals[k], now)
    &&& names.no_duplicates()
}

/// There is a time at which exactly the named peers have timed out.
pub proof fn law_who_has_timed_out_now(m: &MembershipManager, r: Vec<PeerId>)
    requires
        m.wf(),
        call_ensures(MembershipManager::check_timeouts, (m,), r),
    ensures
        exists|now: u128| names_the_silent(m@, types::ids_view(r@), now),
{
    m.law_each_peer_is_listed_once();
    let now = choose|now: u128| types::ids_view(r@) == #[trigger] m@.overdue(now);
    members::lemma_overdue_is_silent(m@, now);
    assert(names_the_silent(m@, types::ids_view(r@), now));
}

/// A new connection has the given control channel, counts as connected since
/// it was made, and is to be restored when lost.
pub proof fn law_connection_is_added_now(
    t: &mut TransportManager,
    k: PeerId,
    addr: String,
    channel: u64,
    r: Result<bool, NetworkError>,
)
    requires
        call_ensures(TransportManager::register_connection, (t, k, addr, channel), r),
    ensures
        !old(t)@.connections.contains(k@) ==> {
            let c = final(t)@.connections.vals[k@];
            &&& r == Ok::<bool, NetworkError>(text::text_less(old(t)@.local, k@))
            &&& final(t)@.connections.contains(k@)
            &&& c.control == channel
            &&& c.data is None
            &&& c.info.peer_id@ == k@
            &&& c.info.addr == addr
            &&& c.info.status == PeerStatus::Connected
            &&& c.info.last_seen == c.info.connected_at
            &&& c.info.rtt_ms is None
            &&& c.info.should_reconnect
        },
        old(t)@.connections.contains(k@) ==> {
            &&& r matches Err(NetworkError::DuplicatePeerId(id)) && id@ == k@
            &&& final(t)@ == old(t)@
        },
        connections::same_but_for(old(t)@, final(t)@, k@),
{
}

/// A sign of life of a connected peer changes only the time in its record, and
/// a round trip time is recorded as it was measured.
pub proof fn law_connection_is_heard_of_now(
    a: &mut TransportManager,
    b: &mut TransportManager,
    k: &PeerId,
    rtt: u32,
)
    requires
        call_ensures(TransportManager::update_last_seen, (a, k), ()),
        call_ensures(TransportManager::update_rtt, (b, k, rtt), ()),
    ensures
        connections::record_becomes(
            old(a)@,
            final(a)@,
            k@,
            PeerInfo {
                last_seen: final(a)@.connections.vals[k@].info.last_seen,
                ..old(a)@.connections.vals[k@].info
            },
        ),
        connections::record_becomes(
            old(b)@,
            final(b)@,
            k@,
            PeerInfo {
                rtt_ms: Some(rtt),
                last_seen: final(b)@.connections.vals[k@].info.last_seen,
                ..old(b)@.connections.vals[k@].info
            },
        ),
{
}

/// A packet of a user message is handed to the application whatever time it
/// is.
pub proof fn law_user_packet_is_handed_over_now(
    n: &mut NetworkState,
    from: &PeerId,
    p: RawPacket,
    r: Effects,
)
    requires
        call_ensures(NetworkState::handle_message, (n, from, p), r),
        p@.msg_type >= 0x0100,
    ensures
        messaging::unpacked(p@) matches Some(data) ==> node::told(
            old(n)@.callback,
            final(n)@.callback,
            CallbackEventView::Received {
                peer_id: from@,
                data,
                msg_type: p@.msg_type,
                flags: p@.flags,
            },
        ),
        messaging::unpacked(p@) is None ==> final(n)@ == old(n)@,
        r@.send.len() == 0,
        r@.connect.len() == 0,
        node::same_node(old(n)@, final(n)@),
        final(n)@.transport == old(n)@.transport,
        final(n)@.membership == old(n)@.membership,
        final(n)@.election == old(n)@.election,
{
}

/// A packet of an internal message is taken in as the message that it holds,
/// at some time; one that cannot be read is ignored.
pub proof fn law_internal_packet_is_taken_in_now(
    n: &mut NetworkState,
    from: &PeerId,
    p: RawPacket,
    r: Effects,
)
    requires
        call_ensures(NetworkState::handle_message, (n, from, p), r),
        p@.msg_type < 0x0100,
    ensures
        wire::take_message(p@.payload) is Some ==> exists|now_ms: u64, now: u128| #[trigger]
            old(n)@.takes_in(
                from@,
                wire::take_message(p@.payload)->0,
                now_ms,
                now,
                final(n)@,
                r@,
            ),
        wire::take_message(p@.payload) is None ==> final(n)@ == old(n)@ && r@.send.len() == 0
            && r@.connect.len() == 0,
{
    let (now_ms, now) = choose|now_ms: u64, now: u128| #[trigger]
        old(n)@.handles(from@, p@, now_ms, now, final(n)@, r@);
    if wire::take_message(p@.payload) is Some {
        assert(old(n)@.takes_in(
            from@,
            wire::take_message(p@.payload)->0,
            now_ms,
            now,
            final(n)@,
            r@,
        ));
    }
}

/// Is every connected peer sent a ping with some time?
pub open spec fn pings_everybody(
    s: crate::network::NetworkView,
    sent: Seq<crate::transport::OutgoingView>,
) -> bool {
    exists|now_ms: u64| #[trigger]
        node::announces(s, MessageView::Ping { timestamp_ms: now_ms }, sent)
}

/// Are exactly the members that are silent at `now` marked as disconnected,
/// and all others as they were?
pub open spec fn gives_up_the_silent(
    m: crate::membership::MembershipView,
    after: crate::membership::MembershipView,
    now: u128,
) -> bool {
    &&& after.peers.keys == m.peers.keys
    &&& forall|k: Seq<char>| #[trigger]
        m.peers.contains(k) ==> after.peers.contains(k) && after.peers.vals[k] == (
        if members::is_silent(m, m.peers.vals[k], now) {
            PeerInfo { status: PeerStatus::Disconnected, ..m.peers.vals[k] }
        } else {
            m.peers.vals[k]
        })
}

/// When the timer for pings goes off, every connected peer is pinged, and
/// there is a time at which exactly those members had been silent for too
/// long that are marked as disconnected then.
pub proof fn law_pinging_now(n: &mut NetworkState, r: Effects)
    requires
        old(n).wf(),
        call_ensures(NetworkState::ping_tick, (n,), r),
    ensures
        pings_everybody(old(n)@, r@.send),
        r@.connect.len() == 0,
        exists|now: u128| #[trigger]
            gives_up_the_silent(old(n)@.membership, final(n)@.membership, now),
        node::same_node(old(n)@, final(n)@),
        final(n)@.transport == old(n)@.transport,
        final(n)@.election == old(n)@.election,
{
    let s = old(n)@;
    old(n).transport.law_each_peer_has_one_connection();
    old(n).membership.law_each_peer_is_listed_once();
    let now_ms = choose|now_ms: u64|
        r@ == crate::network::EffectsView::sending(
            #[trigger] s.to_all(MessageView::Ping { timestamp_ms: now_ms }),
        );
    node::lemma_to_all(s, MessageView::Ping { timestamp_ms: now_ms });
    assert(node::announces(s, MessageView::Ping { timestamp_ms: now_ms }, r@.send));
    let now = choose|now: u128|
        final(n)@ == s.timed_out(#[trigger] s.membership.overdue(now));
    node::lemma_silent_are_given_up(s, now);
    assert(gives_up_the_silent(s.membership, final(n)@.membership, now));
}

/// Does the leader announce itself, at some time?
pub open spec fn announces_leader(
    s: crate::network::NetworkView,
    term: nat,
    sent: Seq<crate::transport::OutgoingView>,
) -> bool {
    exists|now_ms: u64| #[trigger]
        node::announces(
            s,
            MessageView::Heartbeat {
                term: term as u64,
                leader_id: s.local,
                timestamp_ms: now_ms,
            },
            sent,
        )
}

/// When the timer for heartbeats goes off, the leader sends one to every
/// connected peer; nobody else sends any.
pub proof fn law_leader_sends_heartbeats_now(n: &NetworkState, r: Effects)
    requires
        n.wf(),
        call_ensures(NetworkState::heartbeat_tick, (n,), r),
    ensures
        r@.connect.len() == 0,
        n@.election.role == Role::Leader ==> announces_leader(n@, n@.election.term, r@.send),
        n@.election.role != Role::Leader ==> r@.send.len() == 0,
{
    n.transport.law_each_peer_has_one_connection();
    if n@.election.role == Role::Leader {
        let now_ms = choose|now_ms: u64|
            r@ == crate::network::EffectsView::sending(
                n@.to_all(#[trigger] n@.heartbeat(now_ms)),
            );
        node::lemma_to_all(n@, n@.heartbeat(now_ms));
        assert(node::announces(
            n@,
            MessageView::Heartbeat {
                term: n@.election.term as u64,
                leader_id: n@.local,
                timestamp_ms: now_ms,
            },
            r@.send,
        ));
    }
}

/// When the timer for elections goes off and there is no leader, a node that
/// may stand does; else nothing happens.
pub proof fn law_standing_now(n: &mut NetworkState, r: Effects)
    requires
        old(n).wf(),
        call_ensures(NetworkState::election_tick, (n,), r),
        old(n)@.election.term < u64::MAX,
    ensures
        ({
            let s = old(n)@;
            let after = final(n)@;
            let stands = s.election.role != Role::Leader && s.election.leader is None
                && s.election.auto_election && !s.election.manual_override;
            &&& stands ==> {
                &&& after.election.term == s.election.term + 1
                &&& after.election.voted_for == Some(s.local)
                &&& s.membership.connected().len() <= 1 ==> {
                    &&& after.election.role == Role::Leader
                    &&& after.election.leader == Some(s.local)
                    &&& announces_leader(s, after.election.term, r@.send)
                }
                &&& s.membership.connected().len() >= 2 ==> {
                    &&& after.election.role == Role::Candidate
                    &&& node::announces(
                        s,
                        MessageView::RequestVote {
                            term: after.election.term as u64,
                            candidate_id: s.local,
                        },
                        r@.send,
                    )
                }
            }
            &&& !stands ==> after == s && r@.send.len() == 0
            &&& r@.connect.len() == 0
            &&& node::only_election_changes(s, after)
        }),
{
    old(n).transport.law_each_peer_has_one_connection();
    let s = old(n)@;
    let after = final(n)@;
    let now_ms = choose|now_ms: u64| r@ == #[trigger] after.campaign(s, now_ms);
    let beat = MessageView::Heartbeat {
        term: after.election.term as u64,
        leader_id: s.local,
        timestamp_ms: now_ms,
    };
    node::lemma_to_all(s, beat);
    node::lemma_to_all(
        s,
        MessageView::RequestVote { term: after.election.term as u64, candidate_id: s.local },
    );
    if s.stands() && after.election.role == Role::Leader {
        assert(node::announces(s, beat, r@.send));
    }
}

/// The wait before looking for a leader lies within the bounds that are
/// configured.
pub proof fn law_wait_before_an_election(n: &NetworkState, r: u64)
    requires
        call_ensures(NetworkState::election_timeout_ms, (n,), r),
    ensures
        n@.config.election_timeout_min_ms <= r,
        r <= n@.config.election_timeout_max_ms,
{
}

} // verus!
