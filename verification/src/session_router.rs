//! Routing of user messages: to one peer, to the leader or to all, through
//! the leader in centralized mode.

use vstd::prelude::*;

use crate::buffer;
use crate::config::NetworkConfig;
use crate::error::NetworkError;
use crate::leader::{ElectionView, LeaderElection, Role};
use crate::messaging::{self, PacketView, RawPacket};
use crate::protocol::{msg_types, InternalMessage, MessageView};
use crate::transport::{self, Outgoing, OutgoingView, TransportManager, TransportView};
use crate::types::{self, ForwardTarget, MessageTarget, PeerId};

verus! {

/// Where a routed message goes.
pub enum Delivery {
    /// Nowhere: it is for this node.
    Local,
    /// To one peer; that its queue does not take it is an error.
    ToPeer(Outgoing),
    /// To several peers; that a queue does not take it is no error.
    ToAll(Vec<Outgoing>),
}

/// The value of a [`SessionRouter`].
#[verifier::ext_equal]
pub struct RouterView {
    /// This node's name.
    pub local: Seq<char>,
    pub centralized: bool,
    pub auto_forward: bool,
    pub compression_threshold: u32,
    pub max_message_size: u32,
}

/// A user message as it is handed over for sending.
pub struct UserMessage {
    pub msg_type: u16,
    pub data: Seq<u8>,
    pub flags: u8,
}

/// Is `r` the error for a type that is not one of user messages?
pub open spec fn rejects_type(r: Result<Delivery, NetworkError>) -> bool {
    r matches Err(NetworkError::InvalidArgument(t)) && t@ == "msg_type must be >= 0x0100"@
}

impl RouterView {
    /// Can `p` be the packet of the message?
    pub open spec fn packs(self, m: UserMessage, p: PacketView) -> bool {
        messaging::is_packed(p, m.msg_type, m.data, m.flags & 0xFE, self.compression_threshold)
    }

    /// Does the message keep within the limit?
    pub open spec fn fits(self, m: UserMessage) -> bool {
        m.data.len() <= self.max_message_size
    }

    /// Is `r` the error for a message that does not keep within the limit?
    pub open spec fn rejects_size(self, m: UserMessage, r: Result<Delivery, NetworkError>) -> bool {
        r == Err::<Delivery, NetworkError>(NetworkError::MessageTooLarge(m.data.len() as u32))
    }

    /// Is `r` the sending of the packet of the message to the peer `k`?
    pub open spec fn unicasts(
        self,
        t: TransportView,
        m: UserMessage,
        k: Seq<char>,
        r: Result<Delivery, NetworkError>,
    ) -> bool {
        if !self.fits(m) {
            self.rejects_size(m, r)
        } else if !t.connections.contains(k) {
            r matches Err(NetworkError::PeerNotFound(id)) && id@ == k
        } else {
            r matches Ok(Delivery::ToPeer(o)) && self.packs(m, o@.packet) && o@ == t.outgoing(
                k,
                o@.packet,
            )
        }
    }

    /// The same, for a message whose type may not be one of user messages.
    pub open spec fn unicasts_type(
        self,
        t: TransportView,
        m: UserMessage,
        k: Seq<char>,
        r: Result<Delivery, NetworkError>,
    ) -> bool {
        if m.msg_type < msg_types::USER_MESSAGE_START {
            rejects_type(r)
        } else {
            self.unicasts(t, m, k, r)
        }
    }

    /// Are these the broadcast of the packet of the message?
    pub open spec fn is_broadcast(
        self,
        t: TransportView,
        m: UserMessage,
        exclude: Seq<Seq<char>>,
        sent: Seq<OutgoingView>,
    ) -> bool {
        exists|p: PacketView|
            #[trigger] self.packs(m, p) && sent == t.broadcast(p, exclude)
    }

    /// Is `r` the sending of the packet of the message to all connected peers
    /// that are not excluded?
    pub open spec fn broadcasts(
        self,
        t: TransportView,
        m: UserMessage,
        exclude: Seq<Seq<char>>,
        r: Result<Delivery, NetworkError>,
    ) -> bool {
        if !self.fits(m) {
            self.rejects_size(m, r)
        } else {
            r matches Ok(Delivery::ToAll(list)) && self.is_broadcast(
                t,
                m,
                exclude,
                transport::outgoing_view(list@),
            )
        }
    }

    /// The message that asks the leader to pass on a broadcast.
    pub open spec fn forward_request(self, m: UserMessage) -> MessageView {
        MessageView::ForwardedUserData {
            from_peer_id: self.local,
            original_msg_type: m.msg_type,
            original_flags: m.flags & 0xFE,
            payload: m.data,
        }
    }

    /// Is `r` the request to the leader `k` to pass on the message?
    pub open spec fn requests_forward(
        self,
        t: TransportView,
        m: UserMessage,
        k: Seq<char>,
        r: Result<Delivery, NetworkError>,
    ) -> bool {
        let request = self.forward_request(m);
        if !messaging::fits(request, self.max_message_size) {
            r == Err::<Delivery, NetworkError>(messaging::oversize(request))
        } else if !t.connections.contains(k) {
            r matches Err(NetworkError::PeerNotFound(id)) && id@ == k
        } else {
            r matches Ok(Delivery::ToPeer(o)) && o@ == t.outgoing(
                k,
                messaging::internal_packet(request),
            )
        }
    }

    /// Is `r` the routing of the message to its target?
    pub open spec fn routes(
        self,
        t: TransportView,
        e: ElectionView,
        target: MessageTarget,
        m: UserMessage,
        r: Result<Delivery, NetworkError>,
    ) -> bool {
        let leads = e.role == Role::Leader;
        if m.msg_type < msg_types::USER_MESSAGE_START {
            rejects_type(r)
        } else {
            match target {
                MessageTarget::Broadcast => if !self.centralized || leads {
                    self.broadcasts(t, m, seq![], r)
                } else {
                    match e.leader {
                        None => r == Err::<Delivery, NetworkError>(NetworkError::NotLeader),
                        Some(k) => self.requests_forward(t, m, k, r),
                    }
                },
                MessageTarget::ToPeer(id) => self.unicasts(t, m, id@, r),
                MessageTarget::ToLeader => if leads {
                    r matches Ok(Delivery::Local)
                } else {
                    match e.leader {
                        None => r == Err::<Delivery, NetworkError>(NetworkError::NotLeader),
                        Some(k) => self.unicasts(t, m, k, r),
                    }
                },
            }
        }
    }

    /// Is `r` the sending of the message to all by this node as the leader?
    pub open spec fn leads_with(
        self,
        t: TransportView,
        e: ElectionView,
        m: UserMessage,
        r: Result<Delivery, NetworkError>,
    ) -> bool {
        if m.msg_type < msg_types::USER_MESSAGE_START {
            rejects_type(r)
        } else if e.role != Role::Leader {
            r == Err::<Delivery, NetworkError>(NetworkError::NotLeader)
        } else {
            self.broadcasts(t, m, seq![], r)
        }
    }

    /// Is `r` the passing on of a message of `from` by this node as the
    /// leader? A broadcast does not go back to where it came from.
    pub open spec fn forwards(
        self,
        t: TransportView,
        e: ElectionView,
        from: Seq<char>,
        target: ForwardTarget,
        m: UserMessage,
        r: Result<Delivery, NetworkError>,
    ) -> bool {
        if m.msg_type < msg_types::USER_MESSAGE_START {
            rejects_type(r)
        } else if e.role != Role::Leader {
            r == Err::<Delivery, NetworkError>(NetworkError::NotLeader)
        } else {
            match target {
                ForwardTarget::ToPeer(id) => self.unicasts(t, m, id@, r),
                ForwardTarget::Broadcast => self.broadcasts(t, m, seq![from], r),
            }
        }
    }

    /// Is `r` the passing on of a message to the peer `k` by this node as the
    /// leader?
    pub open spec fn forwards_to(
        self,
        t: TransportView,
        e: ElectionView,
        k: Seq<char>,
        m: UserMessage,
        r: Result<Delivery, NetworkError>,
    ) -> bool {
        if m.msg_type >= msg_types::USER_MESSAGE_START && e.role != Role::Leader {
            r == Err::<Delivery, NetworkError>(NetworkError::NotLeader)
        } else {
            self.unicasts_type(t, m, k, r)
        }
    }

    /// Does this node pass on a broadcast that it is asked to?
    pub open spec fn passes_on(self, e: ElectionView, m: UserMessage) -> bool {
        &&& e.role == Role::Leader
        &&& self.auto_forward
        &&& m.msg_type >= msg_types::USER_MESSAGE_START
        &&& self.fits(m)
    }
}

/// Routes user messages. The connections and the state of the election are
/// handed in with each message.
pub struct SessionRouter {
    local_peer_id: PeerId,
    centralized_mode: bool,
    centralized_auto_forward: bool,
    compression_threshold: u32,
    max_message_size: u32,
}

impl View for SessionRouter {
    type V = RouterView;

    closed spec fn view(&self) -> RouterView {
        RouterView {
            local: self.local_peer_id@,
            centralized: self.centralized_mode,
            auto_forward: self.centralized_auto_forward,
            compression_threshold: self.compression_threshold,
            max_message_size: self.max_message_size,
        }
    }
}

impl SessionRouter {
    /// A router that is not in centralized mode.
    pub fn new(local_peer_id: PeerId, config: NetworkConfig) -> (r: Self)
        ensures
            r@ == (RouterView {
                local: local_peer_id@,
                centralized: false,
                auto_forward: config.centralized_auto_forward,
                compression_threshold: config.compression_threshold,
                max_message_size: config.max_message_size,
            }),
    {
        Self {
            local_peer_id,
            centralized_mode: false,
            centralized_auto_forward: config.centralized_auto_forward,
            compression_threshold: config.compression_threshold,
            max_message_size: config.max_message_size,
        }
    }

    /// Is the node in centralized mode, where broadcasts go through the
    /// leader?
    pub fn is_centralized(&self) -> (r: bool)
        ensures
            r == self@.centralized,
    {
        self.centralized_mode
    }

    /// Switch centralized mode on or off.
    pub fn set_centralized(&mut self, enable: bool)
        ensures
            final(self)@ == (RouterView { centralized: enable, ..old(self)@ }),
    {
        self.centralized_mode = enable;
    }

    /// Does this node, as the leader, pass on broadcasts that it is asked to?
    pub fn is_auto_forward(&self) -> (r: bool)
        ensures
            r == self@.auto_forward,
    {
        self.centralized_auto_forward
    }

    /// Say whether this node, as the leader, passes on broadcasts.
    pub fn set_auto_forward(&mut self, enable: bool)
        ensures
            final(self)@ == (RouterView { auto_forward: enable, ..old(self)@ }),
    {
        self.centralized_auto_forward = enable;
    }

    /// Set the size beyond which compression is tried.
    pub fn set_compression_threshold(&mut self, threshold: u32)
        ensures
            final(self)@ == (RouterView { compression_threshold: threshold, ..old(self)@ }),
    {
        self.compression_threshold = threshold;
    }

    /// The size beyond which compression is tried.
    pub fn compression_threshold(&self) -> (r: u32)
        ensures
            r == self@.compression_threshold,
    {
        self.compression_threshold
    }

    fn unicast(
        &self,
        transport: &TransportManager,
        peer_id: &PeerId,
        msg_type: u16,
        data: &[u8],
        user_flags: u8,
    ) -> (r: Result<Delivery, NetworkError>)
        requires
            transport.wf(),
            msg_type >= msg_types::USER_MESSAGE_START,
        ensures
            self@.unicasts(
                transport@,
                UserMessage { msg_type, data: data@, flags: user_flags },
                peer_id@,
                r,
            ),
    {
        let packet = match messaging::encode_packet(
            msg_type,
            data,
            user_flags & 0xFE,
            self.compression_threshold,
            self.max_message_size,
        ) {
            Ok(p) => p,
            Err(e) => {
                return Err(e);
            },
        };
        match transport.send_to_peer(peer_id, packet) {
            Ok(o) => Ok(Delivery::ToPeer(o)),
            Err(e) => Err(e),
        }
    }

    fn broadcast(
        &self,
        transport: &TransportManager,
        exclude: Option<&[PeerId]>,
        msg_type: u16,
        data: &[u8],
        user_flags: u8,
    ) -> (r: Result<Delivery, NetworkError>)
        requires
            transport.wf(),
            msg_type >= msg_types::USER_MESSAGE_START,
        ensures
            self@.broadcasts(
                transport@,
                UserMessage { msg_type, data: data@, flags: user_flags },
                transport::excluded(exclude),
                r,
            ),
    {
        let packet = match messaging::encode_packet(
            msg_type,
            data,
            user_flags & 0xFE,
            self.compression_threshold,
            self.max_message_size,
        ) {
            Ok(p) => p,
            Err(e) => {
                return Err(e);
            },
        };
        let ghost m = UserMessage { msg_type, data: data@, flags: user_flags };
        assert(self@.packs(m, packet@));
        Ok(Delivery::ToAll(transport.broadcast(packet, exclude)))
    }

    /// Route a message to its target.
    pub fn route_message(
        &self,
        transport: &TransportManager,
        leader_election: &LeaderElection,
        target: MessageTarget,
        msg_type: u16,
        data: &[u8],
        user_flags: u8,
    ) -> (r: Result<Delivery, NetworkError>)
        requires
            transport.wf(),
        ensures
            self@.routes(
                transport@,
                leader_election@,
                target,
                UserMessage { msg_type, data: data@, flags: user_flags },
                r,
            ),
    {
        if msg_type < msg_types::USER_MESSAGE_START {
            return Err(NetworkError::InvalidArgument("msg_type must be >= 0x0100".to_owned()));
        }
        match target {
            MessageTarget::Broadcast => {
                if self.centralized_mode && !leader_election.is_leader() {
                    let leader = match leader_election.leader_id() {
                        Some(id) => id,
                        None => {
                            return Err(NetworkError::NotLeader);
                        },
                    };
                    let request = InternalMessage::ForwardedUserData {
                        from_peer_id: self.local_peer_id.to_string(),
                        original_msg_type: msg_type,
                        original_flags: user_flags & 0xFE,
                        payload: vstd::slice::slice_to_vec(data),
                    };
                    let packet = match messaging::encode_internal(&request, self.max_message_size) {
                        Ok(p) => p,
                        Err(e) => {
                            return Err(e);
                        },
                    };
                    match transport.send_to_peer(&leader, packet) {
                        Ok(o) => Ok(Delivery::ToPeer(o)),
                        Err(e) => Err(e),
                    }
                } else {
                    self.broadcast(transport, None, msg_type, data, user_flags)
                }
            },
            MessageTarget::ToPeer(peer_id) => self.unicast(
                transport,
                &peer_id,
                msg_type,
                data,
                user_flags,
            ),
            MessageTarget::ToLeader => {
                if leader_election.is_leader() {
                    return Ok(Delivery::Local);
                }
                match leader_election.leader_id() {
                    Some(leader) => self.unicast(transport, &leader, msg_type, data, user_flags),
                    None => Err(NetworkError::NotLeader),
                }
            },
        }
    }

    /// Send a message to all peers as the leader.
    pub fn send_from_leader(
        &self,
        transport: &TransportManager,
        leader_election: &LeaderElection,
        msg_type: u16,
        data: &[u8],
        user_flags: u8,
    ) -> (r: Result<Delivery, NetworkError>)
        requires
            transport.wf(),
        ensures
            self@.leads_with(
                transport@,
                leader_election@,
                UserMessage { msg_type, data: data@, flags: user_flags },
                r,
            ),
    {
        if msg_type < msg_types::USER_MESSAGE_START {
            return Err(NetworkError::InvalidArgument("msg_type must be >= 0x0100".to_owned()));
        }
        if !leader_election.is_leader() {
            return Err(NetworkError::NotLeader);
        }
        self.broadcast(transport, None, msg_type, data, user_flags)
    }

    /// Pass on a message of another node as the leader.
    pub fn forward_message(
        &self,
        transport: &TransportManager,
        leader_election: &LeaderElection,
        from_peer_id: &PeerId,
        target: ForwardTarget,
        msg_type: u16,
        flags: u8,
        payload: &[u8],
    ) -> (r: Result<Delivery, NetworkError>)
        requires
            transport.wf(),
        ensures
            self@.forwards(
                transport@,
                leader_election@,
                from_peer_id@,
                target,
                UserMessage { msg_type, data: payload@, flags },
                r,
            ),
    {
        if msg_type < msg_types::USER_MESSAGE_START {
            return Err(NetworkError::InvalidArgument("msg_type must be >= 0x0100".to_owned()));
        }
        if !leader_election.is_leader() {
            return Err(NetworkError::NotLeader);
        }
        match target {
            ForwardTarget::ToPeer(peer_id) => self.unicast(
                transport,
                &peer_id,
                msg_type,
                payload,
                flags,
            ),
            ForwardTarget::Broadcast => {
                let mut origin: Vec<PeerId> = Vec::new();
                origin.push(from_peer_id.clone());
                assert(types::ids_view(origin@) =~= seq![from_peer_id@]);
                self.broadcast(transport, Some(origin.as_slice()), msg_type, payload, flags)
            },
        }
    }

    /// Take in a message that this node is asked to pass on. The result is
    /// the message as a packet, for this node itself, and what is passed on.
    pub fn handle_forwarded_user_data(
        &self,
        transport: &TransportManager,
        leader_election: &LeaderElection,
        from_peer_id: &str,
        original_msg_type: u16,
        original_flags: u8,
        payload: &[u8],
    ) -> (r: (Option<RawPacket>, Vec<Outgoing>))
        requires
            transport.wf(),
        ensures
            r.0 matches Some(p) && p@ == (PacketView {
                msg_type: original_msg_type,
                flags: original_flags,
                payload: payload@,
            }),
            ({
                let m = UserMessage {
                    msg_type: original_msg_type,
                    data: payload@,
                    flags: original_flags,
                };
                let sent = transport::outgoing_view(r.1@);
                if self@.passes_on(leader_election@, m) {
                    self@.is_broadcast(transport@, m, seq![from_peer_id@], sent)
                } else {
                    sent == Seq::<OutgoingView>::empty()
                }
            }),
    {
        let mut forward: Vec<Outgoing> = Vec::new();
        assert(transport::outgoing_view(forward@) =~= Seq::<OutgoingView>::empty());
        if leader_election.is_leader() && self.centralized_auto_forward {
            let from = PeerId::new(from_peer_id);
            match self.forward_message(
                transport,
                leader_election,
                &from,
                ForwardTarget::Broadcast,
                original_msg_type,
                original_flags,
                payload,
            ) {
                Ok(Delivery::ToAll(list)) => {
                    forward = list;
                },
                _ => {},
            }
        }
        let packet = RawPacket {
            msg_type: original_msg_type,
            flags: original_flags,
            payload: buffer::bytes_from_slice(payload),
        };
        (Some(packet), forward)
    }
}

// --- laws -------------------------------------------------------------------
/// A node that is not the leader cannot send as the leader nor pass messages
/// on, whatever the message.
pub proof fn law_only_the_leader_leads(
    s: RouterView,
    t: TransportView,
    e: ElectionView,
    from: Seq<char>,
    target: ForwardTarget,
    m: UserMessage,
    r: Result<Delivery, NetworkError>,
)
    requires
        e.role != Role::Leader,
        m.msg_type >= msg_types::USER_MESSAGE_START,
        s.leads_with(t, e, m, r) || s.forwards(t, e, from, target, m, r),
    ensures
        r == Err::<Delivery, NetworkError>(NetworkError::NotLeader),
{
}

/// In centralized mode the broadcast of a follower goes to the leader and to
/// nobody else.
pub proof fn law_centralized_broadcast_goes_to_leader(
    s: RouterView,
    t: TransportView,
    e: ElectionView,
    m: UserMessage,
    r: Result<Delivery, NetworkError>,
)
    requires
        s.centralized,
        e.role != Role::Leader,
        s.routes(t, e, MessageTarget::Broadcast, m, r),
    ensures
        r matches Ok(d) ==> (d matches Delivery::ToPeer(o) && Some(o@.peer) == e.leader
            && o@.packet == messaging::internal_packet(s.forward_request(m))),
{
}

/// What arrives is what was sent: the packet of a message, unpacked, gives
/// back its data, its type and its upper seven flag bits, on whatever way it
/// was routed.
pub proof fn law_message_arrives_unchanged(s: RouterView, m: UserMessage, p: PacketView)
    requires
        s.packs(m, p),
    ensures
        messaging::unpacked(p) == Some(m.data),
        p.msg_type == m.msg_type,
        p.flags & 0xFE == m.flags & 0xFE,
{
    messaging::law_unpack_gives_back_packed(
        p,
        m.msg_type,
        m.data,
        m.flags & 0xFE,
        s.compression_threshold,
    );
    let f = m.flags;
    assert((f & 0xFE) & 0xFE == f & 0xFE) by (bit_vector);
}

/// A message that was passed on by the leader does not go back to where it
/// came from.
pub proof fn law_passed_on_message_does_not_return(
    s: RouterView,
    t: TransportView,
    m: UserMessage,
    from: Seq<char>,
    sent: Seq<OutgoingView>,
)
    requires
        t.wf(),
        s.is_broadcast(t, m, seq![from], sent),
    ensures
        forall|i: int| 0 <= i < sent.len() ==> (#[trigger] sent[i]).peer != from,
{
    let p = choose|p: PacketView|
        #[trigger] s.packs(m, p) && sent == t.broadcast(p, seq![from]);
    let pred = |k: Seq<char>| t.is_target(k, seq![from]);
    assert forall|i: int| 0 <= i < sent.len() implies (#[trigger] sent[i]).peer != from by {
        t.connections.keys.lemma_filter_pred(pred, i);
        assert(seq![from][0] == from);
    }
}

} // verus!
