//! A node of the network: what it does with the packets that arrive, when
//! its timers go off, and when its connections and its table of members
//! change.

use rand::Rng;
use vstd::prelude::*;

use crate::callback::{CallbackEventView, CallbackManager, CallbackView};
use crate::clock::{self, Clock};
use crate::config::NetworkConfig;
use crate::discovery::{DiscoveryManager, DiscoveryView};
use crate::error::{error_codes, NetworkError};
use crate::leader::{self, ElectionView, LeaderElection, Role};
use crate::membership::{
    self, current_timestamp_ms, EventView, MembershipEvent, MembershipManager, MembershipView,
};
use crate::messaging::{self, PacketView, RawPacket};
use crate::protocol::{InternalMessage, MessageView};
use crate::session_router::{Delivery, RouterView, SessionRouter, UserMessage};
use crate::text;
use crate::transport::{self, Outgoing, OutgoingView, TransportManager, TransportView};
use crate::types::{self, MessageTarget, PeerId, PeerInfo, PeerStatus};
use crate::wire;

verus! {

/// What a node wants done: packets to put into queues, where a queue that
/// does not take one is no error, and addresses to connect to.
pub struct Effects {
    pub send: Vec<Outgoing>,
    pub connect: Vec<String>,
}

/// The texts of a list of strings.
pub open spec fn texts_view(s: Seq<String>) -> Seq<Seq<char>> {
    s.map_values(|t: String| t@)
}

/// The value of an [`Effects`].
#[verifier::ext_equal]
pub struct EffectsView {
    pub send: Seq<OutgoingView>,
    pub connect: Seq<Seq<char>>,
}

impl View for Effects {
    type V = EffectsView;

    open spec fn view(&self) -> EffectsView {
        EffectsView {
            send: transport::outgoing_view(self.send@),
            connect: texts_view(self.connect@),
        }
    }
}

impl EffectsView {
    /// Nothing is to be done.
    pub open spec fn none() -> Self {
        EffectsView { send: Seq::empty(), connect: Seq::empty() }
    }

    /// Only packets are to be sent.
    pub open spec fn sending(send: Seq<OutgoingView>) -> Self {
        EffectsView { send, connect: Seq::empty() }
    }
}

impl Effects {
    fn none() -> (r: Self)
        ensures
            r@ == EffectsView::none(),
    {
        let r = Effects { send: Vec::new(), connect: Vec::new() };
        assert(r@ =~= EffectsView::none());
        r
    }

    fn sending(send: Vec<Outgoing>) -> (r: Self)
        ensures
            r@ == EffectsView::sending(transport::outgoing_view(send@)),
    {
        let r = Effects { send, connect: Vec::new() };
        assert(r@.connect =~= Seq::<Seq<char>>::empty());
        r
    }
}

/// `Rng::random_range` of the thread's generator, over a range that includes
/// both ends: a number of the range. It panics where the range is empty.
#[verifier::external_body]
fn random_between(low: u64, high: u64) -> (r: u64)
    requires
        low <= high,
    ensures
        low <= r <= high,
{
    rand::rng().random_range(low..=high)
}

/// The record of a peer named `id` that has connected at time `now`.
pub open spec fn joined_info(id: PeerId, addr: String, now: u128) -> PeerInfo {
    PeerInfo {
        peer_id: id,
        addr,
        status: PeerStatus::Connected,
        last_seen: now,
        rtt_ms: None,
        connected_at: now,
        should_reconnect: true,
    }
}

/// Is `after` the table of members after the peer `k` has joined at time
/// `now`? A member stays as it is.
pub open spec fn joins(
    before: MembershipView,
    k: Seq<char>,
    addr: String,
    now: u128,
    after: MembershipView,
) -> bool {
    if before.peers.contains(k) {
        after == before
    } else {
        exists|id: PeerId|
            id@ == k && after == before.with_info(
                k,
                #[trigger] joined_info(id, addr, now),
            ).with_event(EventView::Joined(k))
    }
}

/// The value of a [`NetworkState`].
#[verifier::ext_equal]
pub struct NetworkView {
    pub local: Seq<char>,
    pub session: Seq<char>,
    pub config: NetworkConfig,
    pub transport: TransportView,
    pub membership: MembershipView,
    pub election: ElectionView,
    pub router: RouterView,
    pub callback: CallbackView,
    /// What discovery knows, if it is running.
    pub discovery: Option<DiscoveryView>,
    pub clock: Clock,
}

impl NetworkView {
    /// Do the parts belong to the same node, with the same configuration, and
    /// go by the same clock?
    pub open spec fn agrees(self) -> bool {
        &&& self.transport.local == self.local
        &&& self.transport.session == self.session
        &&& self.transport.config == self.config
        &&& self.transport.clock == self.clock
        &&& self.membership.local == self.local
        &&& self.membership.config == self.config
        &&& self.membership.clock == self.clock
        &&& self.election.local == self.local
        &&& self.router.local == self.local
        &&& self.router.max_message_size == self.config.max_message_size
        &&& self.discovery matches Some(d) ==> d == self.discovery_view()
    }

    /// What discovery knows of this node.
    pub open spec fn discovery_view(self) -> DiscoveryView {
        DiscoveryView {
            local: self.local,
            session: self.session,
            listen_port: self.transport.listen_port,
        }
    }

    /// A message for one peer, if it keeps within the limit and the peer is
    /// connected.
    pub open spec fn to_peer(self, k: Seq<char>, m: MessageView) -> Seq<OutgoingView> {
        if messaging::fits(m, self.config.max_message_size) && self.transport.connections.contains(
            k,
        ) {
            seq![self.transport.outgoing(k, messaging::internal_packet(m))]
        } else {
            seq![]
        }
    }

    /// A message for all connected peers, if it keeps within the limit.
    pub open spec fn to_all(self, m: MessageView) -> Seq<OutgoingView> {
        if messaging::fits(m, self.config.max_message_size) {
            self.transport.broadcast(messaging::internal_packet(m), seq![])
        } else {
            seq![]
        }
    }

    /// This node's heartbeat as the leader.
    pub open spec fn heartbeat(self, now_ms: u64) -> MessageView {
        MessageView::Heartbeat {
            term: self.election.term as u64,
            leader_id: self.local,
            timestamp_ms: now_ms,
        }
    }

    /// Is a peer on another node's list one that this node connects to?
    pub open spec fn seeks(self, peer: Seq<char>) -> bool {
        &&& peer != self.local
        &&& !self.membership.peers.contains(peer)
        &&& !self.transport.connections.contains(peer)
        &&& !text::text_less(peer, self.local)
    }

    /// The addresses on another node's list that this node connects to.
    pub open spec fn sought(self, peers: Seq<(Seq<char>, Seq<char>)>) -> Seq<Seq<char>> {
        peers.filter(|e: (Seq<char>, Seq<char>)| self.seeks(e.0)).map_values(
            |e: (Seq<char>, Seq<char>)| e.1,
        )
    }

    /// The state after a message for the application has arrived.
    pub open spec fn delivered(
        self,
        from: Seq<char>,
        data: Seq<u8>,
        msg_type: u16,
        flags: u8,
    ) -> Self {
        NetworkView {
            callback: self.callback.sent(
                CallbackEventView::Received { peer_id: from, data, msg_type, flags },
            ),
            ..self
        }
    }

    /// The state with another table of members.
    pub open spec fn with_membership(self, membership: MembershipView) -> Self {
        NetworkView { membership, ..self }
    }

    /// The state with another state of the election.
    pub open spec fn with_election(self, election: ElectionView) -> Self {
        NetworkView { election, ..self }
    }

    /// The state with other connections.
    pub open spec fn with_transport(self, transport: TransportView) -> Self {
        NetworkView { transport, ..self }
    }

    /// The user's bytes of a forwarded message; as they are, where they
    /// cannot be unpacked.
    pub open spec fn forwarded_data(p: PacketView) -> Seq<u8> {
        match messaging::unpacked(p) {
            Some(data) => data,
            None => p.payload,
        }
    }

    /// Is `after` the state, and `out` what is to be done, after the internal
    /// message `m` of the peer `k` was taken in at the given times?
    pub open spec fn takes_in(
        self,
        k: Seq<char>,
        m: MessageView,
        now_ms: u64,
        now: u128,
        after: NetworkView,
        out: EffectsView,
    ) -> bool {
        match m {
            MessageView::Handshake { peer_id, .. } => {
                &&& self.welcomes(peer_id, now, after)
                &&& out == EffectsView::none()
            },
            MessageView::HandshakeAck { peer_id, success, .. } => {
                &&& if success {
                    self.welcomes(peer_id, now, after)
                } else {
                    after == self
                }
                &&& out == EffectsView::none()
            },
            MessageView::PeerLeave { peer_id } => {
                &&& after == self.parted(peer_id)
                &&& out == EffectsView::none()
            },
            MessageView::PeerListSync { peers } => {
                &&& after == self
                &&& out == (EffectsView { send: Seq::empty(), connect: self.sought(peers) })
            },
            MessageView::Ping { timestamp_ms } => {
                &&& after == self.with_membership(self.membership.touched(k, now))
                &&& out == EffectsView::sending(self.to_peer(k, MessageView::Pong { timestamp_ms }))
            },
            MessageView::Pong { timestamp_ms } => {
                let rtt = clock::round_trip(now_ms, timestamp_ms);
                &&& after == self.with_membership(
                    self.membership.answered(k, rtt, now),
                ).with_transport(self.transport.measured(k, rtt, now))
                &&& out == EffectsView::none()
            },
            MessageView::Heartbeat { term, leader_id, timestamp_ms } => {
                &&& after == self.with_membership(self.membership.touched(k, now)).with_election(
                    self.election.heard(term as nat, leader_id),
                )
                &&& out == EffectsView::sending(
                    self.to_peer(k, MessageView::HeartbeatResponse { term, timestamp_ms }),
                )
            },
            MessageView::HeartbeatResponse { .. } => {
                &&& after == self.with_membership(self.membership.touched(k, now))
                &&& out == EffectsView::none()
            },
            MessageView::RequestVote { term, candidate_id } => {
                &&& after == self.with_election(self.election.asked(term as nat, candidate_id))
                &&& out == EffectsView::sending(
                    self.to_peer(
                        k,
                        MessageView::VoteResponse {
                            term: after.election.term as u64,
                            voter_id: self.local,
                            granted: self.election.grants(term as nat, candidate_id),
                        },
                    ),
                )
            },
            MessageView::VoteResponse { term, voter_id, granted } => {
                let peers = self.membership.connected().len();
                &&& after == self.with_election(
                    self.election.answered(term as nat, voter_id, granted, peers),
                )
                &&& out == (if self.election.wins(term as nat, voter_id, granted, peers) {
                    EffectsView::sending(after.to_all(after.heartbeat(now_ms)))
                } else {
                    EffectsView::none()
                })
            },
            MessageView::LeaderAssign { term, leader_id, .. } => {
                &&& after == self.with_election(
                    self.election.after(
                        leader::ElectionEvent::LeaderAssign {
                            term: term as nat,
                            leader: leader_id,
                        },
                    ),
                )
                &&& out == EffectsView::none()
            },
            MessageView::ForwardedUserData {
                from_peer_id,
                original_msg_type,
                original_flags,
                payload,
            } => {
                let m = UserMessage {
                    msg_type: original_msg_type,
                    data: payload,
                    flags: original_flags,
                };
                let p = PacketView {
                    msg_type: original_msg_type,
                    flags: original_flags,
                    payload,
                };
                &&& after == self.delivered(
                    from_peer_id,
                    Self::forwarded_data(p),
                    original_msg_type,
                    original_flags,
                )
                &&& out == EffectsView::sending(out.send)
                &&& if self.router.passes_on(self.election, m) {
                    self.router.is_broadcast(self.transport, m, seq![from_peer_id], out.send)
                } else {
                    out.send == Seq::<OutgoingView>::empty()
                }
            },
            MessageView::DataChannelHandshake { .. } => after == self && out
                == EffectsView::none(),
            MessageView::DataChannelHandshakeAck { .. } => after == self && out
                == EffectsView::none(),
        }
    }

    /// Is `after` the state after the handshake with a peer? It becomes a
    /// member if it is connected.
    pub open spec fn welcomes(self, peer: Seq<char>, now: u128, after: NetworkView) -> bool {
        match self.transport.info(peer) {
            Some(info) => {
                &&& after == self.with_membership(after.membership)
                &&& joins(self.membership, peer, info.addr, now, after.membership)
            },
            None => after == self,
        }
    }

    /// The state after the farewell of a peer: it is no member any more, and
    /// a lost connection to it is not restored.
    pub open spec fn parted(self, peer: Seq<char>) -> Self {
        self.with_transport(
            self.transport.with_info(
                peer,
                PeerInfo {
                    should_reconnect: false,
                    ..self.transport.connections.vals[peer].info
                },
            ),
        ).with_membership(self.membership.removed(peer))
    }

    /// Is `after` the state, and `out` what is to be done, after a packet of
    /// the peer `k` was handled at the given times? A packet that cannot be
    /// read is ignored.
    pub open spec fn handles(
        self,
        k: Seq<char>,
        packet: PacketView,
        now_ms: u64,
        now: u128,
        after: NetworkView,
        out: EffectsView,
    ) -> bool {
        if packet.internal() {
            match wire::take_message(packet.payload) {
                Some(m) => self.takes_in(k, m, now_ms, now, after, out),
                None => after == self && out == EffectsView::none(),
            }
        } else {
            &&& out == EffectsView::none()
            &&& after == (match messaging::unpacked(packet) {
                Some(data) => self.delivered(k, data, packet.msg_type, packet.flags),
                None => self,
            })
        }
    }

    /// The state after peers were found to have timed out.
    pub open spec fn timed_out(self, names: Seq<Seq<char>>) -> Self
        decreases names.len(),
    {
        if names.len() == 0 {
            self
        } else {
            let before = self.timed_out(names.drop_last());
            NetworkView {
                membership: before.membership.status_set(names.last(), PeerStatus::Disconnected),
                callback: before.callback.sent(
                    CallbackEventView::PeerStatusChanged {
                        peer_id: names.last(),
                        status: PeerStatus::Disconnected.number(),
                    },
                ),
                ..before
            }
        }
    }

    /// Does this node stand for election when its timer goes off?
    pub open spec fn stands(self) -> bool {
        &&& self.election.role != Role::Leader
        &&& self.election.leader is None
        &&& self.election.may_stand()
    }

    /// What is to be done after this node stood for election, with `before`
    /// the state before.
    pub open spec fn campaign(self, before: NetworkView, now_ms: u64) -> EffectsView {
        if !before.stands() {
            EffectsView::none()
        } else if self.election.role == Role::Leader {
            EffectsView::sending(self.to_all(self.heartbeat(now_ms)))
        } else {
            EffectsView::sending(
                self.to_all(
                    MessageView::RequestVote {
                        term: self.election.term as u64,
                        candidate_id: self.local,
                    },
                ),
            )
        }
    }

    /// The state after a change in the table of members was handed on: the
    /// application is told, and so is the election, of a peer that left.
    pub open spec fn reacted(self, e: EventView) -> Self {
        let status = |peer: Seq<char>, s: PeerStatus|
            self.callback.sent(
                CallbackEventView::PeerStatusChanged { peer_id: peer, status: s.number() },
            );
        match e {
            EventView::Joined(peer) => NetworkView {
                callback: status(peer, PeerStatus::Connected),
                ..self
            },
            EventView::Left(peer) => NetworkView {
                election: self.election.departed(peer),
                callback: status(peer, PeerStatus::Disconnected),
                ..self
            },
            EventView::StatusChanged { peer_id, new, .. } => NetworkView {
                callback: status(peer_id, new),
                ..self
            },
        }
    }

    /// The state after several changes in the table of members were handed
    /// on, one after the other.
    pub open spec fn reacted_all(self, events: Seq<EventView>) -> Self
        decreases events.len(),
    {
        if events.len() == 0 {
            self
        } else {
            self.reacted_all(events.drop_last()).reacted(events.last())
        }
    }

    /// The events for the application that changes of the leader amount to.
    pub open spec fn leader_events(notices: Seq<Option<Seq<char>>>) -> Seq<CallbackEventView> {
        notices.map_values(
            |n: Option<Seq<char>>| CallbackEventView::LeaderChanged { leader_id: n },
        )
    }
}

/// A running node.
///
/// It does nothing by itself: whoever drives it hands in what happens and
/// carries out the [`Effects`].
pub struct NetworkState {
    pub transport: TransportManager,
    pub membership: MembershipManager,
    pub leader_election: LeaderElection,
    pub session_router: SessionRouter,
    pub discovery: Option<DiscoveryManager>,
    pub callback: CallbackManager,
    pub local_peer_id: PeerId,
    pub session_id: String,
    pub config: NetworkConfig,
    pub clock: Clock,
}

impl View for NetworkState {
    type V = NetworkView;

    open spec fn view(&self) -> NetworkView {
        NetworkView {
            local: self.local_peer_id@,
            session: self.session_id@,
            config: self.config,
            transport: self.transport@,
            membership: self.membership@,
            election: self.leader_election@,
            router: self.session_router@,
            callback: self.callback@,
            discovery: match self.discovery {
                Some(d) => Some(d@),
                None => None,
            },
            clock: self.clock,
        }
    }
}

impl NetworkState {
    /// The parts are well-formed and belong to the same node.
    pub open spec fn wf(&self) -> bool {
        &&& self.transport.wf()
        &&& self.membership.wf()
        &&& self.leader_election.wf()
        &&& self.discovery matches Some(d) ==> d.wf()
        &&& self@.agrees()
    }

    /// A node that listens on the given address. Discovery is not running.
    pub fn new(
        peer_id: String,
        session_id: String,
        config: NetworkConfig,
        listener_addr: String,
        listener_port: u16,
    ) -> (r: Self)
        ensures
            r.wf(),
            r@.local == peer_id@,
            r@.session == session_id@,
            r@.config == config,
            r@.transport == TransportView::initial(
                peer_id@,
                session_id@,
                config,
                listener_addr@,
                listener_port,
                r@.clock,
            ),
            r@.membership == MembershipView::initial(peer_id@, config, r@.clock),
            r@.election == (ElectionView {
                local: peer_id@,
                role: Role::Follower,
                term: 0,
                voted_for: None,
                leader: None,
                votes: Set::empty(),
                auto_election: config.auto_election_enabled,
                manual_override: false,
                recovery: config.manual_override_recovery,
                notices: Seq::empty(),
            }),
            r@.router == (RouterView {
                local: peer_id@,
                centralized: false,
                auto_forward: config.centralized_auto_forward,
                compression_threshold: config.compression_threshold,
                max_message_size: config.max_message_size,
            }),
            r@.callback == (CallbackView {
                connection_result: false,
                leader_changed: false,
                peer_status: false,
                receive: false,
                open: true,
                queue: Seq::empty(),
            }),
            r@.discovery is None,
    {
        let local_peer_id = PeerId::new(peer_id.as_str());
        let clock = Clock::new();
        Self {
            transport: TransportManager::with_clock(
                local_peer_id.clone(),
                session_id.clone(),
                config,
                listener_addr,
                listener_port,
                clock,
            ),
            membership: MembershipManager::with_clock(local_peer_id.clone(), config, clock),
            leader_election: LeaderElection::new(
                local_peer_id.clone(),
                config.auto_election_enabled,
                config.manual_override_recovery,
            ),
            session_router: SessionRouter::new(local_peer_id.clone(), config),
            discovery: None,
            callback: CallbackManager::new(),
            local_peer_id,
            session_id,
            config,
            clock,
        }
    }

    /// Is discovery by mDNS running?
    pub fn is_mdns_active(&self) -> (r: bool)
        ensures
            r == self@.discovery is Some,
    {
        self.discovery.is_some()
    }

    fn send_one(&self, peer_id: &PeerId, msg: &InternalMessage) -> (r: Vec<Outgoing>)
        requires
            self.wf(),
        ensures
            transport::outgoing_view(r@) == self@.to_peer(peer_id@, msg@),
    {
        let mut list: Vec<Outgoing> = Vec::new();
        assert(transport::outgoing_view(list@) =~= Seq::<OutgoingView>::empty());
        if let Ok(packet) = messaging::encode_internal(msg, self.config.max_message_size) {
            if let Ok(o) = self.transport.send_to_peer(peer_id, packet) {
                list.push(o);
                assert(transport::outgoing_view(list@) =~= seq![o@]);
            }
        }
        list
    }

    fn send_all(&self, msg: &InternalMessage) -> (r: Vec<Outgoing>)
        requires
            self.wf(),
        ensures
            transport::outgoing_view(r@) == self@.to_all(msg@),
    {
        match messaging::encode_internal(msg, self.config.max_message_size) {
            Ok(packet) => self.transport.broadcast(packet, None),
            Err(_) => {
                let none: Vec<Outgoing> = Vec::new();
                assert(transport::outgoing_view(none@) =~= Seq::<OutgoingView>::empty());
                none
            },
        }
    }

    fn send_heartbeat(&self, now_ms: u64) -> (r: Vec<Outgoing>)
        requires
            self.wf(),
        ensures
            transport::outgoing_view(r@) == self@.to_all(self@.heartbeat(now_ms)),
    {
        self.send_all(
            &InternalMessage::Heartbeat {
                term: self.leader_election.current_term(),
                leader_id: self.local_peer_id.to_string(),
                timestamp_ms: now_ms,
            },
        )
    }

    fn welcome_peer(&mut self, remote_id: &str, now: u128)
        requires
            old(self).wf(),
        ensures
            final(self).wf(),
            old(self)@.welcomes(remote_id@, now, final(self)@),
    {
        let pid = PeerId::new(remote_id);
        if let Some(addr) = self.transport.get_peer_addr(&pid) {
            let ghost info = joined_info(pid, addr, now);
            let _ = self.membership.add_peer_at(pid, addr, now);
        }
    }

    fn part_from(&mut self, leaving_id: &str)
        requires
            old(self).wf(),
        ensures
            final(self).wf(),
            final(self)@ == old(self)@.parted(leaving_id@),
    {
        let pid = PeerId::new(leaving_id);
        self.transport.set_should_reconnect(&pid, false);
        self.membership.remove_peer(&pid);
    }

    fn seek_peers(&self, peers: &Vec<(String, String)>) -> (r: Vec<String>)
        requires
            self.wf(),
        ensures
            texts_view(r@) == self@.sought(crate::protocol::pairs_view(peers@)),
    {
        let mut list: Vec<String> = Vec::new();
        let mut i: usize = 0;
        let ghost pairs = crate::protocol::pairs_view(peers@);
        let ghost p = |e: (Seq<char>, Seq<char>)| self@.seeks(e.0);
        let ghost f = |e: (Seq<char>, Seq<char>)| e.1;
        proof {
            crate::peer_map::lemma_filter_ends(pairs, p);
            assert(texts_view(list@) =~= pairs.take(0).filter(p).map_values(f));
        }
        while i < peers.len()
            invariant
                self.wf(),
                pairs == crate::protocol::pairs_view(peers@),
                p == (|e: (Seq<char>, Seq<char>)| self@.seeks(e.0)),
                f == (|e: (Seq<char>, Seq<char>)| e.1),
                i <= peers@.len(),
                texts_view(list@) == pairs.take(i as int).filter(p).map_values(f),
            decreases peers@.len() - i,
        {
            proof {
                crate::peer_map::lemma_filter_step(pairs, i as int, p);
            }
            let ghost before = list@;
            let pid = PeerId::new(peers[i].0.as_str());
            if pid != self.local_peer_id && !self.membership.has_peer(&pid)
                && !self.transport.has_peer(&pid) && !pid.less_than(&self.local_peer_id) {
                list.push(peers[i].1.clone());
                proof {
                    assert(texts_view(list@) =~= texts_view(before).push(f(pairs[i as int])));
                    assert(pairs.take(i as int).filter(p).push(pairs[i as int]).map_values(f)
                        =~= pairs.take(i as int).filter(p).map_values(f).push(f(pairs[i as int])));
                }
            }
            i = i + 1;
        }
        proof {
            crate::peer_map::lemma_filter_ends(pairs, p);
        }
        list
    }

    fn take_in_forwarded(
        &mut self,
        from_peer_id: &str,
        original_msg_type: u16,
        original_flags: u8,
        payload: &Vec<u8>,
    ) -> (r: Effects)
        requires
            old(self).wf(),
        ensures
            final(self).wf(),
            forall|k: Seq<char>, now_ms: u64, now: u128| #[trigger]
                old(self)@.takes_in(
                    k,
                    MessageView::ForwardedUserData {
                        from_peer_id: from_peer_id@,
                        original_msg_type,
                        original_flags,
                        payload: payload@,
                    },
                    now_ms,
                    now,
                    final(self)@,
                    r@,
                ),
    {
        let (packet, forward) = self.session_router.handle_forwarded_user_data(
            &self.transport,
            &self.leader_election,
            from_peer_id,
            original_msg_type,
            original_flags,
            payload.as_slice(),
        );
        if let Some(user_packet) = packet {
            let from = PeerId::new(from_peer_id);
            let data = match messaging::decode_payload(&user_packet) {
                Ok(d) => d,
                Err(_) => crate::buffer::bytes_clone(&user_packet.payload),
            };
            self.callback.send_received(&from, data, user_packet.msg_type, user_packet.flags);
        }
        Effects::sending(forward)
    }

    fn take_in_vote_response(
        &mut self,
        term: u64,
        voter_id: &str,
        granted: bool,
        now_ms: u64,
    ) -> (r: Effects)
        requires
            old(self).wf(),
        ensures
            final(self).wf(),
            forall|k: Seq<char>, now: u128| #[trigger]
                old(self)@.takes_in(
                    k,
                    MessageView::VoteResponse { term, voter_id: voter_id@, granted },
                    now_ms,
                    now,
                    final(self)@,
                    r@,
                ),
    {
        let count: usize = self.membership.get_connected_peer_count();
        if self.leader_election.handle_vote_response(term, voter_id, granted, count) {
            Effects::sending(self.send_heartbeat(now_ms))
        } else {
            Effects::none()
        }
    }

    /// Take in an internal message of a peer; the wall clock shows `now_ms`,
    /// the monotonic one `now`.
    #[verifier::rlimit(50)]
    pub fn handle_internal_at(
        &mut self,
        peer_id: &PeerId,
        msg: InternalMessage,
        now_ms: u64,
        now: u128,
    ) -> (r: Effects)
        requires
            old(self).wf(),
        ensures
            final(self).wf(),
            old(self)@.takes_in(peer_id@, msg@, now_ms, now, final(self)@, r@),
    {
        match msg {
            InternalMessage::Handshake { peer_id: remote_id, .. } => {
                self.welcome_peer(remote_id.as_str(), now);
                Effects::none()
            },
            InternalMessage::HandshakeAck { peer_id: remote_id, success, .. } => {
                if success {
                    self.welcome_peer(remote_id.as_str(), now);
                }
                Effects::none()
            },
            InternalMessage::PeerLeave { peer_id: leaving_id } => {
                self.part_from(leaving_id.as_str());
                Effects::none()
            },
            InternalMessage::PeerListSync { peers } => {
                let r = Effects { send: Vec::new(), connect: self.seek_peers(&peers) };
                assert(r@.send =~= Seq::<OutgoingView>::empty());
                r
            },
            InternalMessage::Ping { timestamp_ms } => {
                self.membership.update_last_seen_at(peer_id, now);
                let reply = InternalMessage::Pong { timestamp_ms };
                Effects::sending(self.send_one(peer_id, &reply))
            },
            InternalMessage::Pong { timestamp_ms } => {
                self.membership.handle_pong_at(peer_id, timestamp_ms, now_ms, now);
                let rtt: u32 = clock::round_trip_ms(now_ms, timestamp_ms);
                self.transport.update_rtt_at(peer_id, rtt, now);
                Effects::none()
            },
            InternalMessage::Heartbeat { term, leader_id, timestamp_ms } => {
                self.leader_election.handle_heartbeat(term, leader_id.as_str());
                self.membership.update_last_seen_at(peer_id, now);
                let reply = InternalMessage::HeartbeatResponse { term, timestamp_ms };
                Effects::sending(self.send_one(peer_id, &reply))
            },
            InternalMessage::HeartbeatResponse { .. } => {
                self.membership.update_last_seen_at(peer_id, now);
                Effects::none()
            },
            InternalMessage::RequestVote { term, candidate_id } => {
                let (term, granted) = self.leader_election.handle_request_vote(
                    term,
                    candidate_id.as_str(),
                );
                let reply = InternalMessage::VoteResponse {
                    term,
                    voter_id: self.local_peer_id.to_string(),
                    granted,
                };
                Effects::sending(self.send_one(peer_id, &reply))
            },
            InternalMessage::VoteResponse { term, voter_id, granted } => self.take_in_vote_response(
                term,
                voter_id.as_str(),
                granted,
                now_ms,
            ),
            InternalMessage::LeaderAssign { term, leader_id, assigner_id } => {
                self.leader_election.handle_leader_assign(
                    term,
                    leader_id.as_str(),
                    assigner_id.as_str(),
                );
                Effects::none()
            },
            InternalMessage::ForwardedUserData {
                from_peer_id,
                original_msg_type,
                original_flags,
                payload,
            } => self.take_in_forwarded(
                from_peer_id.as_str(),
                original_msg_type,
                original_flags,
                &payload,
            ),
            InternalMessage::DataChannelHandshake { .. } => Effects::none(),
            InternalMessage::DataChannelHandshakeAck { .. } => Effects::none(),
        }
    }

    /// Handle a packet of a peer; the wall clock shows `now_ms`, the
    /// monotonic one `now`.
    pub fn handle_message_at(
        &mut self,
        peer_id: &PeerId,
        packet: RawPacket,
        now_ms: u64,
        now: u128,
    ) -> (r: Effects)
        requires
            old(self).wf(),
        ensures
            final(self).wf(),
            old(self)@.handles(peer_id@, packet@, now_ms, now, final(self)@, r@),
    {
        if packet.is_internal() {
            match messaging::decode_internal(&packet) {
                Ok(msg) => self.handle_internal_at(peer_id, msg, now_ms, now),
                Err(_) => Effects::none(),
            }
        } else {
            match messaging::decode_payload(&packet) {
                Ok(data) => {
                    self.callback.send_received(peer_id, data, packet.msg_type, packet.flags);
                },
                Err(_) => {},
            }
            Effects::none()
        }
    }

    /// Handle a packet of a peer.
    pub fn handle_message(&mut self, peer_id: &PeerId, packet: RawPacket) -> (r: Effects)
        requires
            old(self).wf(),
        ensures
            final(self).wf(),
            exists|now_ms: u64, now: u128| #[trigger]
                old(self)@.handles(peer_id@, packet@, now_ms, now, final(self)@, r@),
    {
        let now_ms: u64 = current_timestamp_ms();
        let now: u128 = self.clock.now();
        self.handle_message_at(peer_id, packet, now_ms, now)
    }

    fn time_out(&mut self, names: &Vec<PeerId>)
        requires
            old(self).wf(),
        ensures
            final(self).wf(),
            final(self)@ == old(self)@.timed_out(types::ids_view(names@)),
    {
        let mut i: usize = 0;
        let ghost views = types::ids_view(names@);
        while i < names.len()
            invariant
                i <= names@.len(),
                views == types::ids_view(names@),
                self.wf(),
                self@ == old(self)@.timed_out(views.take(i as int)),
            decreases names@.len() - i,
        {
            assert(views.take(i + 1).drop_last() =~= views.take(i as int));
            self.membership.update_status(&names[i], PeerStatus::Disconnected);
            self.callback.send_peer_status(&names[i], PeerStatus::Disconnected.as_i32());
            i = i + 1;
        }
        assert(views.take(i as int) =~= views);
    }

    /// The timer for pings goes off: ping all peers, and give up those that
    /// were not heard of for too long.
    pub fn ping_tick_at(&mut self, now_ms: u64, now: u128) -> (r: Effects)
        requires
            old(self).wf(),
        ensures
            final(self).wf(),
            r@ == EffectsView::sending(
                old(self)@.to_all(MessageView::Ping { timestamp_ms: now_ms }),
            ),
            final(self)@ == old(self)@.timed_out(old(self)@.membership.overdue(now)),
    {
        let ping = InternalMessage::Ping { timestamp_ms: now_ms };
        let send = self.send_all(&ping);
        let names = self.membership.check_timeouts_at(now);
        self.time_out(&names);
        Effects::sending(send)
    }

    /// The timer for pings goes off.
    pub fn ping_tick(&mut self) -> (r: Effects)
        requires
            old(self).wf(),
        ensures
            final(self).wf(),
            exists|now_ms: u64|
                r@ == EffectsView::sending(
                    #[trigger] old(self)@.to_all(MessageView::Ping { timestamp_ms: now_ms }),
                ),
            exists|now: u128|
                final(self)@ == old(self)@.timed_out(
                    #[trigger] old(self)@.membership.overdue(now),
                ),
    {
        let now_ms: u64 = current_timestamp_ms();
        let now: u128 = self.clock.now();
        self.ping_tick_at(now_ms, now)
    }

    /// The timer for heartbeats goes off: the leader sends one.
    pub fn heartbeat_tick_at(&self, now_ms: u64) -> (r: Effects)
        requires
            self.wf(),
        ensures
            r@ == (if self@.election.role == Role::Leader {
                EffectsView::sending(self@.to_all(self@.heartbeat(now_ms)))
            } else {
                EffectsView::none()
            }),
    {
        if self.leader_election.is_leader() {
            Effects::sending(self.send_heartbeat(now_ms))
        } else {
            Effects::none()
        }
    }

    /// The timer for heartbeats goes off.
    pub fn heartbeat_tick(&self) -> (r: Effects)
        requires
            self.wf(),
        ensures
            self@.election.role != Role::Leader ==> r@ == EffectsView::none(),
            self@.election.role == Role::Leader ==> exists|now_ms: u64|
                r@ == EffectsView::sending(self@.to_all(#[trigger] self@.heartbeat(now_ms))),
    {
        let now_ms: u64 = current_timestamp_ms();
        self.heartbeat_tick_at(now_ms)
    }

    /// How long (ms) to wait before looking for a leader: a random time
    /// within the configured bounds.
    pub fn election_timeout_ms(&self) -> (r: u64)
        requires
            self@.config.election_timeout_min_ms <= self@.config.election_timeout_max_ms,
        ensures
            self@.config.election_timeout_min_ms <= r <= self@.config.election_timeout_max_ms,
    {
        random_between(self.config.election_timeout_min_ms, self.config.election_timeout_max_ms)
    }

    /// The timer for elections goes off: without a leader this node stands,
    /// if it may.
    pub fn election_tick_at(&mut self, now_ms: u64) -> (r: Effects)
        requires
            old(self).wf(),
            old(self)@.stands() ==> old(self)@.election.term < u64::MAX,
        ensures
            final(self).wf(),
            final(self)@ == (if old(self)@.stands() {
                old(self)@.with_election(
                    old(self)@.election.started(old(self)@.membership.connected().len()),
                )
            } else {
                old(self)@
            }),
            r@ == final(self)@.campaign(old(self)@, now_ms),
    {
        if self.leader_election.is_leader() || !self.leader_election.is_auto_election_enabled()
            || self.leader_election.leader_id().is_some()
            || self.leader_election.is_manual_override() {
            return Effects::none();
        }
        let count: usize = self.membership.get_connected_peer_count();
        match self.leader_election.start_election(count) {
            Some((term, candidate_id)) => {
                let request = InternalMessage::RequestVote { term, candidate_id };
                Effects::sending(self.send_all(&request))
            },
            None => {
                if self.leader_election.is_leader() {
                    Effects::sending(self.send_heartbeat(now_ms))
                } else {
                    Effects::none()
                }
            },
        }
    }

    /// The timer for elections goes off.
    pub fn election_tick(&mut self) -> (r: Effects)
        requires
            old(self).wf(),
            old(self)@.stands() ==> old(self)@.election.term < u64::MAX,
        ensures
            final(self).wf(),
            final(self)@ == (if old(self)@.stands() {
                old(self)@.with_election(
                    old(self)@.election.started(old(self)@.membership.connected().len()),
                )
            } else {
                old(self)@
            }),
            exists|now_ms: u64| r@ == #[trigger] final(self)@.campaign(old(self)@, now_ms),
    {
        let now_ms: u64 = current_timestamp_ms();
        self.election_tick_at(now_ms)
    }

    /// React to one change in the table of members.
    pub fn on_membership_event(&mut self, event: &MembershipEvent)
        requires
            old(self).wf(),
        ensures
            final(self).wf(),
            final(self)@ == old(self)@.reacted(event@),
    {
        match event {
            MembershipEvent::Joined(peer_id) => {
                self.callback.send_peer_status(peer_id, PeerStatus::Connected.as_i32());
            },
            MembershipEvent::Left(peer_id) => {
                self.leader_election.handle_peer_left(peer_id);
                self.callback.send_peer_status(peer_id, PeerStatus::Disconnected.as_i32());
            },
            MembershipEvent::StatusChanged { peer_id, new, .. } => {
                self.callback.send_peer_status(peer_id, new.as_i32());
            },
        }
    }

    /// React to the changes in the table of members since the last time.
    pub fn process_membership_events(&mut self)
        requires
            old(self).wf(),
        ensures
            final(self).wf(),
            final(self)@ == old(self)@.with_membership(
                old(self)@.membership.drained(),
            ).reacted_all(old(self)@.membership.events),
    {
        let events = self.membership.take_events();
        let ghost views = membership::events_view(events@);
        let ghost start = self@;
        let mut i: usize = 0;
        while i < events.len()
            invariant
                i <= events@.len(),
                views == membership::events_view(events@),
                self.wf(),
                self@ == start.reacted_all(views.take(i as int)),
            decreases events@.len() - i,
        {
            assert(views.take(i + 1).drop_last() =~= views.take(i as int));
            self.on_membership_event(&events[i]);
            i = i + 1;
        }
        assert(views.take(i as int) =~= views);
    }

    /// Tell the application of the changes of the leader since the last time.
    pub fn process_leader_changes(&mut self)
        requires
            old(self).wf(),
        ensures
            final(self).wf(),
            final(self)@ == (NetworkView {
                election: ElectionView { notices: Seq::empty(), ..old(self)@.election },
                callback: old(self)@.callback.sent_all(
                    NetworkView::leader_events(old(self)@.election.notices),
                ),
                ..old(self)@
            }),
    {
        let notices = self.leader_election.take_notices();
        let ghost start = self@;
        let ghost events = NetworkView::leader_events(leader::notices_view(notices@));
        let mut i: usize = 0;
        while i < notices.len()
            invariant
                i <= notices@.len(),
                events == NetworkView::leader_events(leader::notices_view(notices@)),
                self.wf(),
                self@ == (NetworkView {
                    callback: start.callback.sent_all(events.take(i as int)),
                    ..start
                }),
            decreases notices@.len() - i,
        {
            assert(events.take(i + 1).drop_last() =~= events.take(i as int));
            self.callback.send_leader_changed(notices[i].as_ref());
            i = i + 1;
        }
        assert(events.take(i as int) =~= events);
    }

    /// Tell the application how a connection attempt ended. A peer that is
    /// connected already counts as a success, with a code of its own.
    pub fn report_connection(&mut self, addr: &str, result: &Result<PeerId, NetworkError>)
        requires
            old(self).wf(),
        ensures
            final(self).wf(),
            final(self)@ == (NetworkView {
                callback: old(self)@.callback.sent(
                    match *result {
                        Ok(_) => CallbackEventView::ConnectionResult {
                            addr: addr@,
                            success: true,
                            error_code: error_codes::OK,
                        },
                        Err(NetworkError::AlreadyConnected(_)) =>
                            CallbackEventView::ConnectionResult {
                            addr: addr@,
                            success: true,
                            error_code: error_codes::ALREADY_CONNECTED,
                        },
                        Err(e) => CallbackEventView::ConnectionResult {
                            addr: addr@,
                            success: false,
                            error_code: e.spec_code(),
                        },
                    },
                ),
                ..old(self)@
            }),
    {
        match result {
            Ok(_) => {
                self.callback.send_connection_result(addr, true, error_codes::OK);
            },
            Err(NetworkError::AlreadyConnected(_)) => {
                self.callback.send_connection_result(addr, true, error_codes::ALREADY_CONNECTED);
            },
            Err(e) => {
                self.callback.send_connection_result(addr, false, e.error_code());
            },
        }
    }

    /// Begin to shut down: bid all peers farewell.
    pub fn begin_shutdown(&self) -> (r: Vec<Outgoing>)
        requires
            self.wf(),
        ensures
            transport::outgoing_view(r@) == (if messaging::fits(
                self@.transport.leave_message(),
                self@.transport.config.max_message_size,
            ) {
                self@.transport.broadcast(
                    messaging::internal_packet(self@.transport.leave_message()),
                    seq![],
                )
            } else {
                seq![]
            }),
    {
        self.transport.broadcast_peer_leave()
    }

    /// Finish shutting down: restore no connection, tell the application
    /// nothing more, drop all connections. The result are the channels to
    /// close.
    pub fn finish_shutdown(&mut self) -> (r: Vec<u64>)
        requires
            old(self).wf(),
        ensures
            final(self).wf(),
            final(self)@ == (NetworkView {
                transport: TransportView {
                    stopped: true,
                    connections: crate::peer_map::PeerTable::empty(),
                    ..old(self)@.transport
                },
                callback: CallbackView { open: false, ..old(self)@.callback },
                ..old(self)@
            }),
            r@ == old(self)@.transport.connections.keys.map_values(
                |k: Seq<char>| old(self)@.transport.connections.vals[k].channels(),
            ).flatten(),
    {
        self.transport.stop();
        self.callback.drain_and_shutdown();
        self.transport.shutdown()
    }
}

// --- laws -------------------------------------------------------------------
/// No packet changes who the node is or how it is configured, lowers its
/// term, or makes the state of its election inconsistent.
pub proof fn law_packets_keep_the_node_sound(
    s: NetworkView,
    k: Seq<char>,
    packet: PacketView,
    now_ms: u64,
    now: u128,
    after: NetworkView,
    out: EffectsView,
)
    requires
        s.handles(k, packet, now_ms, now, after, out),
        s.election.consistent(),
    ensures
        after.local == s.local,
        after.session == s.session,
        after.config == s.config,
        after.router == s.router,
        after.discovery == s.discovery,
        after.clock == s.clock,
        s.agrees() ==> after.agrees(),
        after.election.local == s.election.local,
        after.election.term >= s.election.term,
        after.election.consistent(),
{
}

/// A user message reaches the application as it was sent: of the same peer,
/// with the same data and type and the same upper seven flag bits.
pub proof fn law_user_message_is_delivered(
    sender: RouterView,
    m: UserMessage,
    packet: PacketView,
    s: NetworkView,
    from: Seq<char>,
    now_ms: u64,
    now: u128,
    after: NetworkView,
    out: EffectsView,
)
    requires
        m.msg_type >= crate::protocol::msg_types::USER_MESSAGE_START,
        sender.packs(m, packet),
        s.handles(from, packet, now_ms, now, after, out),
    ensures
        after == s.delivered(from, m.data, m.msg_type, packet.flags),
        packet.flags & 0xFE == m.flags & 0xFE,
        out == EffectsView::none(),
{
    crate::session_router::law_message_arrives_unchanged(sender, m, packet);
}

/// A message of a user type that keeps within the node's limit is never
/// refused for its size or type, whether it is for a peer, for the leader or
/// for all; only a follower's broadcast in centralized mode, which travels
/// inside another message, can be too large.
pub proof fn law_message_within_limit_is_accepted(
    s: NetworkView,
    target: MessageTarget,
    m: UserMessage,
    r: Result<Delivery, NetworkError>,
)
    requires
        s.agrees(),
        m.msg_type >= crate::protocol::msg_types::USER_MESSAGE_START,
        m.data.len() <= s.config.max_message_size,
        s.router.routes(s.transport, s.election, target, m, r),
        !(target is Broadcast && s.router.centralized && s.election.role != Role::Leader),
    ensures
        r matches Err(e) ==> e is PeerNotFound || e is NotLeader,
        target is Broadcast ==> r is Ok,
        target matches MessageTarget::ToPeer(id) && s.transport.connections.contains(id@)
            ==> r is Ok,
{
}

/// In centralized mode a follower's broadcast reaches the leader's
/// application under the follower's name, and the leader passes it on, if it
/// does so at all, to the others only.
pub proof fn law_centralized_broadcast_is_delivered(
    follower: RouterView,
    m: UserMessage,
    s: NetworkView,
    k: Seq<char>,
    now_ms: u64,
    now: u128,
    after: NetworkView,
    out: EffectsView,
)
    requires
        s.transport.wf(),
        wire::lengths_fit(follower.forward_request(m)),
        s.handles(
            k,
            messaging::internal_packet(follower.forward_request(m)),
            now_ms,
            now,
            after,
            out,
        ),
    ensures
        after == s.delivered(follower.local, m.data, m.msg_type, m.flags & 0xFE),
        forall|i: int| 0 <= i < out.send.len() ==> (#[trigger] out.send[i]).peer != follower.local,
{
    let request = follower.forward_request(m);
    messaging::law_internal_packet_round_trip(request);
    let f = m.flags;
    assert((f & 0xFE) & 0x01 == 0) by (bit_vector);
    let passed = UserMessage { msg_type: m.msg_type, data: m.data, flags: m.flags & 0xFE };
    if s.router.passes_on(s.election, passed) {
        crate::session_router::law_passed_on_message_does_not_return(
            s.router,
            s.transport,
            passed,
            follower.local,
            out.send,
        );
    }
}

/// A ping of a connected peer is answered to that peer, with the time that
/// it bears, and counts as a sign of life.
pub proof fn law_ping_is_answered(
    s: NetworkView,
    k: Seq<char>,
    timestamp_ms: u64,
    now_ms: u64,
    now: u128,
    after: NetworkView,
    out: EffectsView,
)
    requires
        s.takes_in(k, MessageView::Ping { timestamp_ms }, now_ms, now, after, out),
        s.transport.connections.contains(k),
        messaging::fits(MessageView::Pong { timestamp_ms }, s.config.max_message_size),
    ensures
        out.send == seq![
            s.transport.outgoing(k, messaging::internal_packet(MessageView::Pong { timestamp_ms })),
        ],
        after.membership == s.membership.touched(k, now),
{
}

/// After its farewell a peer is no member, and a lost connection to it is
/// not restored.
pub proof fn law_farewell(
    s: NetworkView,
    k: Seq<char>,
    peer: Seq<char>,
    now_ms: u64,
    now: u128,
    after: NetworkView,
    out: EffectsView,
)
    requires
        s.takes_in(k, MessageView::PeerLeave { peer_id: peer }, now_ms, now, after, out),
    ensures
        !after.membership.peers.contains(peer),
        !after.transport.restores(peer),
{
}

/// A node without connected peers that may stand elects itself.
pub proof fn law_lone_node_elects_itself(s: NetworkView)
    requires
        s.stands(),
        s.membership.connected().len() == 0,
    ensures
        ({
            let after = s.election.started(s.membership.connected().len());
            &&& after.role == Role::Leader
            &&& after.leader == Some(s.election.local)
            &&& after.term == s.election.term + 1
        }),
{
}

/// When the leader leaves, the node has none, and the application is told
/// that the peer is disconnected.
pub proof fn law_leader_that_leaves_is_forgotten(s: NetworkView, peer: Seq<char>)
    requires
        s.election.leader == Some(peer),
    ensures
        s.reacted(EventView::Left(peer)).election.leader is None,
        s.reacted(EventView::Left(peer)).callback == s.callback.sent(
            CallbackEventView::PeerStatusChanged {
                peer_id: peer,
                status: PeerStatus::Disconnected.number(),
            },
        ),
{
}

/// Of two nodes that learn of each other from a list of peers, exactly one
/// connects to the other.
pub proof fn law_one_side_of_a_list_connects(a: NetworkView, b: NetworkView)
    requires
        a.local != b.local,
        !a.membership.peers.contains(b.local),
        !b.membership.peers.contains(a.local),
        !a.transport.connections.contains(b.local),
        !b.transport.connections.contains(a.local),
    ensures
        a.seeks(b.local) <==> !b.seeks(a.local),
{
    text::law_text_order_is_total(a.local, b.local, a.local);
}

} // verus!
