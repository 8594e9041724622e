//! Connections to peers: which there are, over which of their channels a
//! packet goes, and what becomes of them when they close.
//!
//! Channels themselves (sockets and their queues) belong to whoever drives
//! the node; here each of them is a number.

use vstd::prelude::*;

use crate::clock::Clock;
use crate::config::NetworkConfig;
use crate::error::NetworkError;
use crate::messaging::{self, PacketView, RawPacket};
use crate::peer_map::{self, PeerMap, PeerTable};
use crate::protocol::{InternalMessage, MessageView};
use crate::text;
use crate::types::{self, PeerId, PeerInfo, PeerStatus};

pub mod codec;
pub mod handshake;
pub mod reconnect;

pub use self::codec::PacketCodec;

verus! {

/// A connection to a peer.
///
/// The control channel is always there and carries internal messages. The
/// data channel, once it is established, carries user messages; without it
/// they go over the control channel.
pub struct PeerConnection {
    pub control: u64,
    pub data: Option<u64>,
    pub info: PeerInfo,
}

impl PeerConnection {
    /// The channel for a packet.
    pub open spec fn channel_for(self, p: PacketView) -> u64 {
        if p.internal() {
            self.control
        } else {
            self.user_channel()
        }
    }

    /// The channel for user messages.
    pub open spec fn user_channel(self) -> u64 {
        match self.data {
            Some(d) => d,
            None => self.control,
        }
    }

    /// All channels of the connection.
    pub open spec fn channels(self) -> Seq<u64> {
        match self.data {
            Some(d) => seq![self.control, d],
            None => seq![self.control],
        }
    }

    fn select_channel(&self, internal: bool) -> (r: u64)
        ensures
            r == (if internal {
                self.control
            } else {
                self.user_channel()
            }),
    {
        if internal {
            self.control
        } else {
            match self.data {
                Some(d) => d,
                None => self.control,
            }
        }
    }

    fn append_channels(&self, out: &mut Vec<u64>)
        ensures
            final(out)@ == old(out)@ + self.channels(),
    {
        out.push(self.control);
        if let Some(d) = self.data {
            out.push(d);
        }
        assert(out@ =~= old(out)@ + self.channels());
    }
}

/// A packet to put into the queue of a peer's channel.
pub struct Outgoing {
    pub peer_id: PeerId,
    pub channel: u64,
    pub packet: RawPacket,
}

/// The value of an [`Outgoing`].
#[verifier::ext_equal]
pub struct OutgoingView {
    pub peer: Seq<char>,
    pub channel: u64,
    pub packet: PacketView,
}

impl View for Outgoing {
    type V = OutgoingView;

    open spec fn view(&self) -> OutgoingView {
        OutgoingView { peer: self.peer_id@, channel: self.channel, packet: self.packet@ }
    }
}

/// The values of a list of outgoing packets.
pub open spec fn outgoing_view(s: Seq<Outgoing>) -> Seq<OutgoingView> {
    s.map_values(|o: Outgoing| o@)
}

/// The names of the peers that a broadcast leaves out.
pub open spec fn excluded(exclude: Option<&[PeerId]>) -> Seq<Seq<char>> {
    match exclude {
        Some(l) => types::ids_view(l@),
        None => seq![],
    }
}

/// What became of a packet that was put into a channel's queue.
#[derive(Clone, Copy, Debug, PartialEq, Eq, Structural)]
pub enum SendOutcome {
    Queued,
    Full,
    Closed,
}

/// Is `r` what a send returns, given what became of the packet?
pub open spec fn reports(r: Result<(), NetworkError>, outcome: SendOutcome) -> bool {
    match outcome {
        SendOutcome::Queued => r is Ok,
        SendOutcome::Full => r == Err::<(), NetworkError>(NetworkError::SendQueueFull),
        SendOutcome::Closed => r matches Err(NetworkError::ConnectionFailed(m)) && m@
            == "send channel closed"@,
    }
}

/// What a send returns, given what became of the packet.
pub fn send_result(outcome: SendOutcome) -> (r: Result<(), NetworkError>)
    ensures
        reports(r, outcome),
{
    match outcome {
        SendOutcome::Queued => Ok(()),
        SendOutcome::Full => Err(NetworkError::SendQueueFull),
        SendOutcome::Closed => Err(
            NetworkError::ConnectionFailed("send channel closed".to_owned()),
        ),
    }
}

/// The peers of a broadcast whose channels did not take the packet.
pub open spec fn failed_peers(sent: Seq<OutgoingView>, outcomes: Seq<SendOutcome>) -> Seq<
    (Seq<char>, SendOutcome),
>
    decreases sent.len(),
{
    if sent.len() == 0 || sent.len() != outcomes.len() {
        seq![]
    } else {
        let before = failed_peers(sent.drop_last(), outcomes.drop_last());
        if outcomes.last() == SendOutcome::Queued {
            before
        } else {
            before.push((sent.last().peer, outcomes.last()))
        }
    }
}

/// Do the errors of a broadcast report exactly these failures?
pub open spec fn reports_all(
    errors: Seq<(PeerId, NetworkError)>,
    failed: Seq<(Seq<char>, SendOutcome)>,
) -> bool {
    &&& errors.len() == failed.len()
    &&& forall|i: int|
        #![auto]
        0 <= i < errors.len() ==> errors[i].0@ == failed[i].0 && reports(
            Err(errors[i].1),
            failed[i].1,
        )
}

/// The errors of a broadcast: for each peer whose channel did not take the
/// packet, its name and why.
pub fn broadcast_errors(sent: &Vec<Outgoing>, outcomes: &Vec<SendOutcome>) -> (r: Vec<
    (PeerId, NetworkError),
>)
    requires
        sent@.len() == outcomes@.len(),
    ensures
        reports_all(r@, failed_peers(outgoing_view(sent@), outcomes@)),
{
    let mut errors: Vec<(PeerId, NetworkError)> = Vec::new();
    let mut i: usize = 0;
    let ghost views = outgoing_view(sent@);
    while i < sent.len()
        invariant
            i <= sent@.len(),
            sent@.len() == outcomes@.len(),
            views == outgoing_view(sent@),
            reports_all(errors@, failed_peers(views.take(i as int), outcomes@.take(i as int))),
        decreases sent@.len() - i,
    {
        proof {
            assert(views.take(i + 1).drop_last() =~= views.take(i as int));
            assert(outcomes@.take(i + 1).drop_last() =~= outcomes@.take(i as int));
        }
        match send_result(outcomes[i]) {
            Ok(()) => {},
            Err(e) => {
                errors.push((sent[i].peer_id.clone(), e));
            },
        }
        i = i + 1;
    }
    proof {
        assert(views.take(i as int) =~= views);
        assert(outcomes@.take(i as int) =~= outcomes@);
    }
    errors
}

/// Is a channel's queue empty, given how much of its capacity is free?
pub open spec fn is_drained(queue: (usize, usize)) -> bool {
    queue.0 == queue.1
}

/// Are all queues empty? Each is given by its free and its whole capacity.
pub open spec fn are_drained(queues: Seq<(usize, usize)>) -> bool {
    forall|i: int| 0 <= i < queues.len() ==> is_drained(#[trigger] queues[i])
}

/// Are all queues empty? Each is given by its free and its whole capacity.
pub fn all_drained(queues: &Vec<(usize, usize)>) -> (r: bool)
    ensures
        r == are_drained(queues@),
{
    let mut i: usize = 0;
    while i < queues.len()
        invariant
            i <= queues@.len(),
            forall|j: int| 0 <= j < i ==> is_drained(#[trigger] queues@[j]),
        decreases queues@.len() - i,
    {
        if queues[i].0 != queues[i].1 {
            assert(!is_drained(queues@[i as int]));
            return false;
        }
        i = i + 1;
    }
    true
}

/// How long (ms) to wait for the queues to drain: as long as asked for, a
/// second at most.
pub fn drain_limit_ms(timeout_ms: u64) -> (r: u64)
    ensures
        r == (if timeout_ms <= 1000 {
            timeout_ms
        } else {
            1000
        }),
{
    if timeout_ms <= 1000 {
        timeout_ms
    } else {
        1000
    }
}

/// The value of a [`TransportManager`].
#[verifier::ext_equal]
pub struct TransportView {
    /// This node's name.
    pub local: Seq<char>,
    pub session: Seq<char>,
    pub config: NetworkConfig,
    pub connections: PeerTable<PeerConnection>,
    /// The address that this node listens on, and its port.
    pub listen_addr: Seq<char>,
    pub listen_port: u16,
    pub auto_reconnect: bool,
    /// Is the node shutting down?
    pub stopped: bool,
    /// The clock that the times of the records were read from.
    pub clock: Clock,
}

/// What closing a connection amounts to.
pub struct ClosedConnection {
    /// The channels to close.
    pub cancelled: Vec<u64>,
    /// The address to reconnect to, if the connection is to be restored.
    pub reconnect: Option<String>,
}

/// What became of a data channel that was to be attached to a peer.
#[derive(Clone, Copy, Debug, PartialEq, Eq, Structural)]
pub enum DataChannel {
    /// It is attached; the channel that it replaces, if any, is to be closed.
    Attached { replaced: Option<u64> },
    /// The peer is not connected any more.
    UnknownPeer,
}

/// What disconnecting from a peer amounts to.
pub struct Disconnect {
    /// The farewell to send, if the peer is connected.
    pub leave: Option<Outgoing>,
    /// The channels to close.
    pub cancelled: Vec<u64>,
}

impl TransportView {
    /// The table of connections is well-formed and each connection's record
    /// bears the peer's name.
    pub open spec fn wf(self) -> bool {
        &&& self.connections.wf()
        &&& forall|k: Seq<char>| #[trigger]
            self.connections.contains(k) ==> self.connections.vals[k].info.peer_id@ == k
    }

    /// A node without connections.
    pub open spec fn initial(
        local: Seq<char>,
        session: Seq<char>,
        config: NetworkConfig,
        listen_addr: Seq<char>,
        listen_port: u16,
        clock: Clock,
    ) -> Self {
        TransportView {
            local,
            session,
            config,
            connections: PeerTable::empty(),
            listen_addr,
            listen_port,
            auto_reconnect: config.auto_reconnect_enabled,
            stopped: false,
            clock,
        }
    }

    /// Is the maximum number of connections reached?
    pub open spec fn full(self) -> bool {
        self.connections.len() >= self.config.max_connections
    }

    /// The state with the connection `c` for the peer `k`.
    pub open spec fn with_connection(self, k: Seq<char>, c: PeerConnection) -> Self {
        TransportView { connections: self.connections.put(k, c), ..self }
    }

    /// The state with the record of the peer `k` replaced, if it is connected.
    pub open spec fn with_info(self, k: Seq<char>, info: PeerInfo) -> Self {
        if self.connections.contains(k) {
            self.with_connection(k, PeerConnection { info, ..self.connections.vals[k] })
        } else {
            self
        }
    }

    /// The state after a sign of life of the peer `k` at time `now`.
    pub open spec fn touched(self, k: Seq<char>, now: u128) -> Self {
        self.with_info(k, PeerInfo { last_seen: now, ..self.connections.vals[k].info })
    }

    /// The state after a round trip time of the peer `k` was recorded at time
    /// `now`.
    pub open spec fn measured(self, k: Seq<char>, rtt: u32, now: u128) -> Self {
        self.with_info(
            k,
            PeerInfo { rtt_ms: Some(rtt), last_seen: now, ..self.connections.vals[k].info },
        )
    }

    /// The record of the peer `k`, where it is connected.
    pub open spec fn info(self, k: Seq<char>) -> Option<PeerInfo> {
        match self.connections.get(k) {
            Some(c) => Some(c.info),
            None => None,
        }
    }

    /// The state without a connection to the peer `k`.
    pub open spec fn closed(self, k: Seq<char>) -> Self {
        TransportView { connections: self.connections.without(k), ..self }
    }

    /// The channels of the peer `k`.
    pub open spec fn channels_of(self, k: Seq<char>) -> Seq<u64> {
        match self.connections.get(k) {
            Some(c) => c.channels(),
            None => seq![],
        }
    }

    /// Is a lost connection to the peer `k` to be restored?
    pub open spec fn restores(self, k: Seq<char>) -> bool {
        &&& self.connections.contains(k)
        &&& self.connections.vals[k].info.should_reconnect
        &&& !self.stopped
        &&& self.auto_reconnect
    }

    /// The names of the peers that are marked as connected.
    pub open spec fn connected(self) -> Seq<Seq<char>> {
        self.connections.keys.filter(
            |k: Seq<char>| self.connections.vals[k].info.status == PeerStatus::Connected,
        )
    }

    /// Is a broadcast sent to the peer `k`?
    pub open spec fn is_target(self, k: Seq<char>, exclude: Seq<Seq<char>>) -> bool {
        self.connections.vals[k].info.status == PeerStatus::Connected && !exclude.contains(k)
    }

    /// The packet `p` on its way to the peer `k`.
    pub open spec fn outgoing(self, k: Seq<char>, p: PacketView) -> OutgoingView {
        OutgoingView { peer: k, channel: self.connections.vals[k].channel_for(p), packet: p }
    }

    /// A broadcast: the packet goes to every connected peer that is not
    /// excluded.
    pub open spec fn broadcast(self, p: PacketView, exclude: Seq<Seq<char>>) -> Seq<OutgoingView> {
        self.connections.keys.filter(|k: Seq<char>| self.is_target(k, exclude)).map_values(
            |k: Seq<char>| self.outgoing(k, p),
        )
    }

    /// The names and addresses of the connected peers.
    pub open spec fn sync_list(self) -> Seq<(Seq<char>, Seq<char>)> {
        self.connected().map_values(
            |k: Seq<char>|
                (
                    self.connections.vals[k].info.peer_id@,
                    self.connections.vals[k].info.addr@,
                ),
        )
    }

    /// This node's farewell.
    pub open spec fn leave_message(self) -> MessageView {
        MessageView::PeerLeave { peer_id: self.local }
    }

    /// Does this node open the data channel to the peer `k`? Of two peers the
    /// one whose name comes first does.
    pub open spec fn opens_data_channel(self, k: Seq<char>) -> bool {
        text::text_less(self.local, k)
    }
}

/// Adding or replacing a connection keeps the state well-formed, if the
/// connection's record bears the peer's name.
proof fn lemma_with_connection_wf(t: TransportView, k: Seq<char>, c: PeerConnection)
    requires
        t.wf(),
    ensures
        c.info.peer_id@ == k ==> t.with_connection(k, c).wf(),
{
    peer_map::lemma_put_wf(t.connections, k, c);
    let u = t.with_connection(k, c);
    assert forall|x: Seq<char>| #[trigger]
        u.connections.contains(x) && c.info.peer_id@ == k implies
        u.connections.vals[x].info.peer_id@ == x by {
        if x != k {
            assert(t.connections.contains(x));
        }
    }
}

/// Removing a connection keeps the state well-formed.
proof fn lemma_closed_wf(t: TransportView, k: Seq<char>)
    requires
        t.wf(),
    ensures
        t.closed(k).wf(),
{
    peer_map::lemma_without_wf(t.connections, k);
    let u = t.closed(k);
    assert forall|x: Seq<char>| #[trigger] u.connections.contains(x) implies
        u.connections.vals[x].info.peer_id@ == x by {
        assert(t.connections.contains(x));
    }
}

/// Manages the connections to peers.
pub struct TransportManager {
    local_peer_id: PeerId,
    session_id: String,
    config: NetworkConfig,
    connections: PeerMap<PeerConnection>,
    listener_addr: String,
    listener_port: u16,
    auto_reconnect_enabled: bool,
    stopped: bool,
    clock: Clock,
}

impl View for TransportManager {
    type V = TransportView;

    closed spec fn view(&self) -> TransportView {
        TransportView {
            local: self.local_peer_id@,
            session: self.session_id@,
            config: self.config,
            connections: self.connections@,
            listen_addr: self.listener_addr@,
            listen_port: self.listener_port,
            auto_reconnect: self.auto_reconnect_enabled,
            stopped: self.stopped,
            clock: self.clock,
        }
    }
}

impl TransportManager {
    /// Is the state well-formed?
    pub closed spec fn wf(&self) -> bool {
        self.connections.wf() && self@.wf()
    }

    /// In every state no peer is listed twice, exactly the listed peers have
    /// a connection, and its record bears the peer's name.
    pub proof fn law_each_peer_has_one_connection(&self)
        requires
            self.wf(),
        ensures
            self@.wf(),
    {
    }

    /// A manager without connections, for a node that listens on the given
    /// address.
    pub fn new(
        local_peer_id: PeerId,
        session_id: String,
        config: NetworkConfig,
        listener_addr: String,
        listener_port: u16,
    ) -> (r: Self)
        ensures
            r.wf(),
            exists|clock: Clock|
                r@ == #[trigger] TransportView::initial(
                    local_peer_id@,
                    session_id@,
                    config,
                    listener_addr@,
                    listener_port,
                    clock,
                ),
    {
        Self::with_clock(
            local_peer_id,
            session_id,
            config,
            listener_addr,
            listener_port,
            Clock::new(),
        )
    }

    /// A manager without connections that goes by the given clock.
    pub fn with_clock(
        local_peer_id: PeerId,
        session_id: String,
        config: NetworkConfig,
        listener_addr: String,
        listener_port: u16,
        clock: Clock,
    ) -> (r: Self)
        ensures
            r.wf(),
            r@ == TransportView::initial(
                local_peer_id@,
                session_id@,
                config,
                listener_addr@,
                listener_port,
                clock,
            ),
    {
        Self {
            local_peer_id,
            session_id,
            config,
            connections: PeerMap::new(),
            listener_addr,
            listener_port,
            auto_reconnect_enabled: config.auto_reconnect_enabled,
            stopped: false,
            clock,
        }
    }

    /// The address that this node listens on.
    pub fn listener_addr(&self) -> (r: &str)
        ensures
            r@ == self@.listen_addr,
    {
        self.listener_addr.as_str()
    }

    /// The port that this node listens on.
    pub fn listener_port(&self) -> (r: u16)
        ensures
            r == self@.listen_port,
    {
        self.listener_port
    }

    /// This node's name.
    pub fn local_peer_id(&self) -> (r: &PeerId)
        ensures
            r@ == self@.local,
    {
        &self.local_peer_id
    }

    /// The session that all peers of the network share.
    pub fn session_id(&self) -> (r: &str)
        ensures
            r@ == self@.session,
    {
        self.session_id.as_str()
    }

    /// The parameters of the node.
    pub fn config(&self) -> (r: NetworkConfig)
        ensures
            r == self@.config,
    {
        self.config
    }

    /// How many connections there are.
    pub fn connection_count(&self) -> (r: usize)
        requires
            self.wf(),
        ensures
            r == self@.connections.len(),
    {
        self.connections.len()
    }

    /// Is the maximum number of connections reached?
    pub fn is_full(&self) -> (r: bool)
        requires
            self.wf(),
        ensures
            r == self@.full(),
    {
        self.connections.len() >= self.config.max_connections
    }

    /// Add the connection of a peer, whose control channel stands since time
    /// `now`. A peer that is connected already is refused. Does this node
    /// open the data channel?
    pub fn register_connection_at(
        &mut self,
        peer_id: PeerId,
        peer_addr: String,
        channel: u64,
        now: u128,
    ) -> (r: Result<bool, NetworkError>)
        requires
            old(self).wf(),
        ensures
            final(self).wf(),
            match r {
                Ok(opens) => {
                    &&& !old(self)@.connections.contains(peer_id@)
                    &&& final(self)@ == old(self)@.with_connection(
                        peer_id@,
                        (PeerConnection {
                            control: channel,
                            data: None,
                            info: PeerInfo {
                                peer_id,
                                addr: peer_addr,
                                status: PeerStatus::Connected,
                                last_seen: now,
                                rtt_ms: None,
                                connected_at: now,
                                should_reconnect: true,
                            },
                        }),
                    )
                    &&& opens == old(self)@.opens_data_channel(peer_id@)
                },
                Err(NetworkError::DuplicatePeerId(id)) => {
                    &&& old(self)@.connections.contains(peer_id@)
                    &&& id@ == peer_id@
                    &&& final(self)@ == old(self)@
                },
                Err(_) => false,
            },
    {
        if self.connections.contains(&peer_id) {
            return Err(NetworkError::DuplicatePeerId(peer_id.to_string()));
        }
        let opens = self.local_peer_id.less_than(&peer_id);
        let info = PeerInfo::new(peer_id.clone(), peer_addr, now);
        proof {
            lemma_with_connection_wf(
                self@,
                peer_id@,
                (PeerConnection { control: channel, data: None, info }),
            );
        }
        self.connections.insert(peer_id, PeerConnection { control: channel, data: None, info });
        Ok(opens)
    }

    /// Add the connection of a peer, whose control channel stands from now on.
    pub fn register_connection(
        &mut self,
        peer_id: PeerId,
        peer_addr: String,
        channel: u64,
    ) -> (r: Result<bool, NetworkError>)
        requires
            old(self).wf(),
        ensures
            final(self).wf(),
            match r {
                Ok(opens) => {
                    &&& !old(self)@.connections.contains(peer_id@)
                    &&& exists|now: u128|
                        final(self)@ == #[trigger] old(self)@.with_connection(
                            peer_id@,
                            (PeerConnection {
                                control: channel,
                                data: None,
                                info: PeerInfo {
                                    peer_id,
                                    addr: peer_addr,
                                    status: PeerStatus::Connected,
                                    last_seen: now,
                                    rtt_ms: None,
                                    connected_at: now,
                                    should_reconnect: true,
                                },
                            }),
                        )
                    &&& opens == old(self)@.opens_data_channel(peer_id@)
                },
                Err(NetworkError::DuplicatePeerId(id)) => {
                    &&& old(self)@.connections.contains(peer_id@)
                    &&& id@ == peer_id@
                    &&& final(self)@ == old(self)@
                },
                Err(_) => false,
            },
    {
        let now: u128 = self.clock.now();
        self.register_connection_at(peer_id, peer_addr, channel, now)
    }

    /// Take in that a peer's control channel has closed: the connection goes,
    /// its channels are to be closed, and it is restored if that is wanted.
    pub fn connection_closed(&mut self, peer_id: &PeerId) -> (r: ClosedConnection)
        requires
            old(self).wf(),
        ensures
            final(self).wf(),
            final(self)@ == old(self)@.closed(peer_id@),
            r.cancelled@ == old(self)@.channels_of(peer_id@),
            match r.reconnect {
                Some(addr) => old(self)@.restores(peer_id@) && addr@
                    == old(self)@.connections.vals[peer_id@].info.addr@,
                None => !old(self)@.restores(peer_id@),
            },
    {
        let mut cancelled: Vec<u64> = Vec::new();
        proof {
            lemma_closed_wf(self@, peer_id@);
        }
        match self.connections.remove(peer_id) {
            Some(conn) => {
                conn.append_channels(&mut cancelled);
                assert(cancelled@ =~= conn.channels());
                let reconnect = if conn.info.should_reconnect && !self.stopped
                    && self.auto_reconnect_enabled {
                    Some(conn.info.addr)
                } else {
                    None
                };
                ClosedConnection { cancelled, reconnect }
            },
            None => ClosedConnection { cancelled, reconnect: None },
        }
    }

    /// Does the peer still need a data channel? An error where it is not
    /// connected.
    pub fn needs_data_channel(&self, peer_id: &PeerId) -> (r: Result<bool, NetworkError>)
        requires
            self.wf(),
        ensures
            match r {
                Ok(needs) => self@.connections.contains(peer_id@) && needs
                    == self@.connections.vals[peer_id@].data is None,
                Err(NetworkError::PeerNotFound(id)) => !self@.connections.contains(peer_id@) && id@
                    == peer_id@,
                Err(_) => false,
            },
    {
        match self.connections.get(peer_id) {
            Some(c) => Ok(c.data.is_none()),
            None => Err(NetworkError::PeerNotFound(peer_id.to_string())),
        }
    }

    /// Attach a data channel to a connected peer. It replaces the one that is
    /// there.
    pub fn register_data_channel(&mut self, peer_id: &PeerId, channel: u64) -> (r: DataChannel)
        requires
            old(self).wf(),
        ensures
            final(self).wf(),
            match r {
                DataChannel::Attached { replaced } => {
                    &&& old(self)@.connections.contains(peer_id@)
                    &&& replaced == old(self)@.connections.vals[peer_id@].data
                    &&& final(self)@ == old(self)@.with_connection(
                        peer_id@,
                        (PeerConnection {
                            data: Some(channel),
                            ..old(self)@.connections.vals[peer_id@]
                        }),
                    )
                },
                DataChannel::UnknownPeer => {
                    &&& !old(self)@.connections.contains(peer_id@)
                    &&& final(self)@ == old(self)@
                },
            },
    {
        proof {
            let c = self.connections@.vals[peer_id@];
            lemma_with_connection_wf(
                self@,
                peer_id@,
                PeerConnection { data: Some(channel), ..c },
            );
        }
        match self.connections.get_mut(peer_id) {
            Some(conn) => {
                let replaced = conn.data;
                conn.data = Some(channel);
                DataChannel::Attached { replaced }
            },
            None => DataChannel::UnknownPeer,
        }
    }

    /// Take in that a data channel has closed. It is detached, unless another
    /// has taken its place.
    pub fn data_channel_closed(&mut self, peer_id: &PeerId, channel: u64)
        requires
            old(self).wf(),
        ensures
            final(self).wf(),
            final(self)@ == (if old(self)@.connections.contains(peer_id@)
                && old(self)@.connections.vals[peer_id@].data == Some(channel) {
                old(self)@.with_connection(
                    peer_id@,
                    (PeerConnection { data: None, ..old(self)@.connections.vals[peer_id@] }),
                )
            } else {
                old(self)@
            }),
    {
        let current = match self.connections.get(peer_id) {
            Some(c) => c.data,
            None => None,
        };
        if let Some(d) = current {
            if d == channel {
                proof {
                    let c = self.connections@.vals[peer_id@];
                    lemma_with_connection_wf(
                        self@,
                        peer_id@,
                        PeerConnection { data: None, ..c },
                    );
                }
                if let Some(conn) = self.connections.get_mut(peer_id) {
                    conn.data = None;
                }
            }
        }
    }

    /// Address a packet to a peer: internal messages go over the control
    /// channel, user messages over the data channel where there is one.
    pub fn send_to_peer(&self, peer_id: &PeerId, packet: RawPacket) -> (r: Result<
        Outgoing,
        NetworkError,
    >)
        requires
            self.wf(),
        ensures
            match r {
                Ok(o) => self@.connections.contains(peer_id@) && o@ == self@.outgoing(
                    peer_id@,
                    packet@,
                ),
                Err(NetworkError::PeerNotFound(id)) => !self@.connections.contains(peer_id@) && id@
                    == peer_id@,
                Err(_) => false,
            },
    {
        match self.connections.get(peer_id) {
            Some(conn) => {
                let channel: u64 = conn.select_channel(packet.is_internal());
                Ok(Outgoing { peer_id: peer_id.clone(), channel, packet })
            },
            None => Err(NetworkError::PeerNotFound(peer_id.to_string())),
        }
    }

    fn is_excluded(peer_id: &PeerId, exclude: Option<&[PeerId]>) -> (r: bool)
        ensures
            r == excluded(exclude).contains(peer_id@),
    {
        let list = match exclude {
            Some(l) => l,
            None => {
                return false;
            },
        };
        let mut i: usize = 0;
        while i < list.len()
            invariant
                i <= list@.len(),
                excluded(exclude) == types::ids_view(list@),
                forall|j: int| 0 <= j < i ==> (#[trigger] list@[j])@ != peer_id@,
            decreases list@.len() - i,
        {
            if list[i] == *peer_id {
                assert(types::ids_view(list@)[i as int] == peer_id@);
                return true;
            }
            i = i + 1;
        }
        assert forall|j: int| 0 <= j < types::ids_view(list@).len() implies types::ids_view(
            list@,
        )[j] != peer_id@ by {
            assert(list@[j]@ != peer_id@);
        }
        false
    }

    /// Address a packet to all connected peers but those in `exclude`.
    pub fn broadcast(&self, packet: RawPacket, exclude: Option<&[PeerId]>) -> (r: Vec<Outgoing>)
        requires
            self.wf(),
        ensures
            outgoing_view(r@) == self@.broadcast(packet@, excluded(exclude)),
    {
        let internal = packet.is_internal();
        let mut list: Vec<Outgoing> = Vec::new();
        let mut i: usize = 0;
        let ghost ex = excluded(exclude);
        let ghost keys = self@.connections.keys;
        let ghost p = |k: Seq<char>| self@.is_target(k, ex);
        let ghost f = |k: Seq<char>| self@.outgoing(k, packet@);
        proof {
            peer_map::lemma_filter_ends(keys, p);
            assert(outgoing_view(list@) =~= keys.take(0).filter(p).map_values(f));
        }
        while i < self.connections.len()
            invariant
                self.wf(),
                internal == packet@.internal(),
                ex == excluded(exclude),
                keys == self@.connections.keys,
                p == (|k: Seq<char>| self@.is_target(k, ex)),
                f == (|k: Seq<char>| self@.outgoing(k, packet@)),
                i <= keys.len(),
                outgoing_view(list@) == keys.take(i as int).filter(p).map_values(f),
            decreases keys.len() - i,
        {
            proof {
                peer_map::lemma_filter_step(keys, i as int, p);
            }
            let ghost before = list@;
            let peer_id = self.connections.key_at(i);
            let conn = self.connections.value_at(i);
            if conn.info.status == PeerStatus::Connected && !Self::is_excluded(peer_id, exclude) {
                let channel: u64 = conn.select_channel(internal);
                list.push(Outgoing { peer_id: peer_id.clone(), channel, packet: packet.clone() });
                proof {
                    assert(outgoing_view(list@) =~= outgoing_view(before).push(f(keys[i as int])));
                    assert(keys.take(i as int).filter(p).push(keys[i as int]).map_values(f)
                        =~= keys.take(i as int).filter(p).map_values(f).push(f(keys[i as int])));
                }
            }
            i = i + 1;
        }
        proof {
            peer_map::lemma_filter_ends(keys, p);
        }
        list
    }

    fn leave_packet(&self) -> (r: Result<RawPacket, NetworkError>)
        ensures
            match r {
                Ok(p) => messaging::fits(self@.leave_message(), self@.config.max_message_size)
                    && p@ == messaging::internal_packet(self@.leave_message()),
                Err(e) => !messaging::fits(self@.leave_message(), self@.config.max_message_size)
                    && e == messaging::oversize(self@.leave_message()),
            },
    {
        let msg = InternalMessage::PeerLeave { peer_id: self.local_peer_id.to_string() };
        messaging::encode_internal(&msg, self.config.max_message_size)
    }

    /// Disconnect from a peer: it is bid farewell, its channels are to be
    /// closed and the connection goes. A peer that is not connected is no
    /// error.
    pub fn disconnect_peer(&mut self, peer_id: &PeerId) -> (r: Result<Disconnect, NetworkError>)
        requires
            old(self).wf(),
        ensures
            final(self).wf(),
            match r {
                Ok(d) => {
                    &&& messaging::fits(
                        old(self)@.leave_message(),
                        old(self)@.config.max_message_size,
                    )
                    &&& final(self)@ == old(self)@.closed(peer_id@)
                    &&& d.cancelled@ == old(self)@.channels_of(peer_id@)
                    &&& match d.leave {
                        Some(o) => old(self)@.connections.contains(peer_id@) && o@ == old(
                            self,
                        )@.outgoing(
                            peer_id@,
                            messaging::internal_packet(old(self)@.leave_message()),
                        ),
                        None => !old(self)@.connections.contains(peer_id@),
                    }
                },
                Err(e) => {
                    &&& !messaging::fits(
                        old(self)@.leave_message(),
                        old(self)@.config.max_message_size,
                    )
                    &&& e == messaging::oversize(old(self)@.leave_message())
                    &&& final(self)@ == old(self)@
                },
            },
    {
        let packet = match self.leave_packet() {
            Ok(p) => p,
            Err(e) => {
                return Err(e);
            },
        };
        let leave = match self.send_to_peer(peer_id, packet) {
            Ok(o) => Some(o),
            Err(_) => None,
        };
        let mut cancelled: Vec<u64> = Vec::new();
        proof {
            lemma_closed_wf(self@, peer_id@);
        }
        if let Some(conn) = self.connections.remove(peer_id) {
            conn.append_channels(&mut cancelled);
            assert(cancelled@ =~= conn.channels());
        }
        Ok(Disconnect { leave, cancelled })
    }

    /// This node's farewell to all connected peers. Nothing is sent where the
    /// message is too large.
    pub fn broadcast_peer_leave(&self) -> (r: Vec<Outgoing>)
        requires
            self.wf(),
        ensures
            outgoing_view(r@) == (if messaging::fits(
                self@.leave_message(),
                self@.config.max_message_size,
            ) {
                self@.broadcast(messaging::internal_packet(self@.leave_message()), seq![])
            } else {
                seq![]
            }),
    {
        match self.leave_packet() {
            Ok(packet) => {
                self.broadcast(packet, None)
            },
            Err(_) => {
                let none: Vec<Outgoing> = Vec::new();
                assert(outgoing_view(none@) =~= seq![]);
                none
            },
        }
    }

    /// Mark the node as shutting down: lost connections are not restored.
    pub fn stop(&mut self)
        requires
            old(self).wf(),
        ensures
            final(self).wf(),
            final(self)@ == (TransportView { stopped: true, ..old(self)@ }),
    {
        self.stopped = true;
    }

    /// Drop all connections. The result are the channels to close.
    pub fn shutdown(&mut self) -> (r: Vec<u64>)
        requires
            old(self).wf(),
        ensures
            final(self).wf(),
            final(self)@ == (TransportView { connections: PeerTable::empty(), ..old(self)@ }),
            r@ == old(self)@.connections.keys.map_values(
                |k: Seq<char>| old(self)@.connections.vals[k].channels(),
            ).flatten(),
    {
        let mut cancelled: Vec<u64> = Vec::new();
        let mut i: usize = 0;
        let ghost keys = self@.connections.keys;
        let ghost f = |k: Seq<char>| old(self)@.connections.vals[k].channels();
        assert(keys.take(0).map_values(f) =~= seq![]);
        while i < self.connections.len()
            invariant
                self.wf(),
                self@ == old(self)@,
                keys == self@.connections.keys,
                f == (|k: Seq<char>| old(self)@.connections.vals[k].channels()),
                i <= keys.len(),
                cancelled@ == keys.take(i as int).map_values(f).flatten(),
            decreases keys.len() - i,
        {
            let ghost before = keys.take(i as int).map_values(f);
            self.connections.value_at(i).append_channels(&mut cancelled);
            proof {
                let next = keys.take(i + 1).map_values(f);
                assert(next =~= before.push(f(keys[i as int])));
                before.lemma_flatten_push(f(keys[i as int]));
            }
            i = i + 1;
        }
        assert(keys.take(i as int) =~= keys);
        self.connections.clear();
        cancelled
    }

    /// The names and addresses of the connected peers, for a new one.
    pub fn get_peer_list_for_sync(&self) -> (r: Vec<(String, String)>)
        requires
            self.wf(),
        ensures
            crate::protocol::pairs_view(r@) == self@.sync_list(),
    {
        let mut list: Vec<(String, String)> = Vec::new();
        let mut i: usize = 0;
        let ghost keys = self@.connections.keys;
        let ghost p = |k: Seq<char>|
            self@.connections.vals[k].info.status == PeerStatus::Connected;
        let ghost f = |k: Seq<char>|
            (self@.connections.vals[k].info.peer_id@, self@.connections.vals[k].info.addr@);
        proof {
            peer_map::lemma_filter_ends(keys, p);
            assert(crate::protocol::pairs_view(list@) =~= keys.take(0).filter(p).map_values(f));
        }
        while i < self.connections.len()
            invariant
                self.wf(),
                keys == self@.connections.keys,
                p == (|k: Seq<char>|
                    self@.connections.vals[k].info.status == PeerStatus::Connected),
                f == (|k: Seq<char>|
                    (
                        self@.connections.vals[k].info.peer_id@,
                        self@.connections.vals[k].info.addr@,
                    )),
                i <= keys.len(),
                crate::protocol::pairs_view(list@) == keys.take(i as int).filter(p).map_values(f),
            decreases keys.len() - i,
        {
            proof {
                peer_map::lemma_filter_step(keys, i as int, p);
            }
            let ghost before = list@;
            let conn = self.connections.value_at(i);
            if conn.info.status == PeerStatus::Connected {
                list.push((conn.info.peer_id.to_string(), conn.info.addr.clone()));
                proof {
                    assert(crate::protocol::pairs_view(list@) =~= crate::protocol::pairs_view(
                        before,
                    ).push(f(keys[i as int])));
                    assert(keys.take(i as int).filter(p).push(keys[i as int]).map_values(f)
                        =~= keys.take(i as int).filter(p).map_values(f).push(f(keys[i as int])));
                }
            }
            i = i + 1;
        }
        proof {
            peer_map::lemma_filter_ends(keys, p);
        }
        list
    }

    /// The names of the peers that are marked as connected.
    pub fn get_connected_peer_ids(&self) -> (r: Vec<PeerId>)
        requires
            self.wf(),
        ensures
            types::ids_view(r@) == self@.connected(),
    {
        let mut list: Vec<PeerId> = Vec::new();
        let mut i: usize = 0;
        let ghost keys = self@.connections.keys;
        let ghost p = |k: Seq<char>|
            self@.connections.vals[k].info.status == PeerStatus::Connected;
        proof {
            peer_map::lemma_filter_ends(keys, p);
            assert(types::ids_view(list@) =~= Seq::<Seq<char>>::empty());
        }
        while i < self.connections.len()
            invariant
                self.wf(),
                keys == self@.connections.keys,
                p == (|k: Seq<char>|
                    self@.connections.vals[k].info.status == PeerStatus::Connected),
                i <= keys.len(),
                types::ids_view(list@) == keys.take(i as int).filter(p),
            decreases keys.len() - i,
        {
            proof {
                peer_map::lemma_filter_step(keys, i as int, p);
            }
            let ghost before = list@;
            if self.connections.value_at(i).info.status == PeerStatus::Connected {
                list.push(self.connections.key_at(i).clone());
                assert(types::ids_view(list@) =~= types::ids_view(before).push(keys[i as int]));
            }
            i = i + 1;
        }
        proof {
            peer_map::lemma_filter_ends(keys, p);
        }
        list
    }

    /// Is the peer connected?
    pub fn has_peer(&self, peer_id: &PeerId) -> (r: bool)
        requires
            self.wf(),
        ensures
            r == self@.connections.contains(peer_id@),
    {
        self.connections.contains(peer_id)
    }

    /// Say whether a lost connection to a peer is to be restored.
    pub fn set_should_reconnect(&mut self, peer_id: &PeerId, should_reconnect: bool)
        requires
            old(self).wf(),
        ensures
            final(self).wf(),
            final(self)@ == old(self)@.with_info(
                peer_id@,
                (PeerInfo { should_reconnect, ..old(self)@.connections.vals[peer_id@].info }),
            ),
    {
        let ghost c = self.connections@.vals[peer_id@];
        proof {
            lemma_with_connection_wf(
                self@,
                peer_id@,
                (PeerConnection { info: PeerInfo { should_reconnect, ..c.info }, ..c }),
            );
        }
        if let Some(conn) = self.connections.get_mut(peer_id) {
            conn.info.should_reconnect = should_reconnect;
        }
    }

    /// Switch the restoring of lost connections on or off.
    pub fn set_auto_reconnect(&mut self, enabled: bool)
        requires
            old(self).wf(),
        ensures
            final(self).wf(),
            final(self)@ == (TransportView { auto_reconnect: enabled, ..old(self)@ }),
    {
        self.auto_reconnect_enabled = enabled;
    }

    /// Is the restoring of lost connections switched on?
    pub fn is_auto_reconnect_enabled(&self) -> (r: bool)
        ensures
            r == self@.auto_reconnect,
    {
        self.auto_reconnect_enabled
    }

    /// Set the status of a connection.
    pub fn update_peer_status(&mut self, peer_id: &PeerId, status: PeerStatus)
        requires
            old(self).wf(),
        ensures
            final(self).wf(),
            final(self)@ == old(self)@.with_info(
                peer_id@,
                (PeerInfo { status, ..old(self)@.connections.vals[peer_id@].info }),
            ),
    {
        let ghost c = self.connections@.vals[peer_id@];
        proof {
            lemma_with_connection_wf(
                self@,
                peer_id@,
                (PeerConnection { info: PeerInfo { status, ..c.info }, ..c }),
            );
        }
        if let Some(conn) = self.connections.get_mut(peer_id) {
            conn.info.status = status;
        }
    }

    /// Note a sign of life of a peer at time `now`.
    pub fn update_last_seen_at(&mut self, peer_id: &PeerId, now: u128)
        requires
            old(self).wf(),
        ensures
            final(self).wf(),
            final(self)@ == old(self)@.touched(peer_id@, now),
    {
        let ghost c = self.connections@.vals[peer_id@];
        proof {
            lemma_with_connection_wf(
                self@,
                peer_id@,
                (PeerConnection { info: PeerInfo { last_seen: now, ..c.info }, ..c }),
            );
        }
        if let Some(conn) = self.connections.get_mut(peer_id) {
            conn.info.last_seen = now;
        }
    }

    /// Note a sign of life of a peer.
    pub fn update_last_seen(&mut self, peer_id: &PeerId)
        requires
            old(self).wf(),
        ensures
            final(self).wf(),
            exists|now: u128| final(self)@ == #[trigger] old(self)@.touched(peer_id@, now),
    {
        let now: u128 = self.clock.now();
        self.update_last_seen_at(peer_id, now);
    }

    /// Record the round trip time of a peer, measured at time `now`.
    pub fn update_rtt_at(&mut self, peer_id: &PeerId, rtt_ms: u32, now: u128)
        requires
            old(self).wf(),
        ensures
            final(self).wf(),
            final(self)@ == old(self)@.measured(peer_id@, rtt_ms, now),
    {
        let ghost c = self.connections@.vals[peer_id@];
        proof {
            lemma_with_connection_wf(
                self@,
                peer_id@,
                (PeerConnection {
                    info: PeerInfo { rtt_ms: Some(rtt_ms), last_seen: now, ..c.info },
                    ..c
                }),
            );
        }
        if let Some(conn) = self.connections.get_mut(peer_id) {
            conn.info.rtt_ms = Some(rtt_ms);
            conn.info.last_seen = now;
        }
    }

    /// Record the round trip time of a peer.
    pub fn update_rtt(&mut self, peer_id: &PeerId, rtt_ms: u32)
        requires
            old(self).wf(),
        ensures
            final(self).wf(),
            exists|now: u128|
                final(self)@ == #[trigger] old(self)@.measured(peer_id@, rtt_ms, now),
    {
        let now: u128 = self.clock.now();
        self.update_rtt_at(peer_id, rtt_ms, now);
    }

    /// The last recorded round trip time of a peer.
    pub fn get_peer_rtt(&self, peer_id: &PeerId) -> (r: Option<u32>)
        requires
            self.wf(),
        ensures
            r == (match self@.info(peer_id@) {
                Some(info) => info.rtt_ms,
                None => None,
            }),
    {
        match self.connections.get(peer_id) {
            Some(c) => c.info.rtt_ms,
            None => None,
        }
    }

    /// The status of a connection.
    pub fn get_peer_status(&self, peer_id: &PeerId) -> (r: Option<PeerStatus>)
        requires
            self.wf(),
        ensures
            r == (match self@.info(peer_id@) {
                Some(info) => Some(info.status),
                None => None,
            }),
    {
        match self.connections.get(peer_id) {
            Some(c) => Some(c.info.status),
            None => None,
        }
    }

    /// The address of a connected peer.
    pub fn get_peer_addr(&self, peer_id: &PeerId) -> (r: Option<String>)
        requires
            self.wf(),
        ensures
            r == (match self@.info(peer_id@) {
                Some(info) => Some(info.addr),
                None => None,
            }),
    {
        match self.connections.get(peer_id) {
            Some(c) => Some(c.info.addr.clone()),
            None => None,
        }
    }

    /// Does the peer have a data channel?
    pub fn has_data_channel(&self, peer_id: &PeerId) -> (r: bool)
        requires
            self.wf(),
        ensures
            r == (self@.connections.get(peer_id@) matches Some(c) && c.data is Some),
    {
        match self.connections.get(peer_id) {
            Some(c) => c.data.is_some(),
            None => false,
        }
    }
}

// --- laws -------------------------------------------------------------------
/// A broadcast reaches every connected peer that is not excluded, and no
/// other, each of them once.
pub proof fn law_broadcast_targets(
    t: TransportView,
    p: PacketView,
    exclude: Seq<Seq<char>>,
    k: Seq<char>,
)
    requires
        t.wf(),
    ensures
        t.broadcast(p, exclude).contains(t.outgoing(k, p)) <==> t.connections.contains(k)
            && t.is_target(k, exclude),
        t.broadcast(p, exclude).no_duplicates(),
{
    let keys = t.connections.keys;
    let pred = |x: Seq<char>| t.is_target(x, exclude);
    let targets = keys.filter(pred);
    let sent = t.broadcast(p, exclude);
    if t.connections.contains(k) && t.is_target(k, exclude) {
        let i = keys.index_of(k);
        keys.lemma_filter_contains(pred, i);
        let j = targets.index_of(k);
        assert(sent[j] == t.outgoing(k, p));
    }
    if sent.contains(t.outgoing(k, p)) {
        let j = sent.index_of(t.outgoing(k, p));
        assert(targets[j] == k);
        keys.lemma_filter_pred(pred, j);
        assert(targets.contains(k));
        keys.lemma_filter_contains_rev(pred, k);
    }
    lemma_filter_no_duplicates(keys, pred);
    assert forall|i: int, j: int| 0 <= i < sent.len() && 0 <= j < sent.len() && i != j implies sent[i]
        != sent[j] by {
        assert(sent[i].peer == targets[i]);
        assert(sent[j].peer == targets[j]);
    }
}

pub proof fn lemma_filter_no_duplicates(s: Seq<Seq<char>>, p: spec_fn(Seq<char>) -> bool)
    requires
        s.no_duplicates(),
    ensures
        s.filter(p).no_duplicates(),
    decreases s.len(),
{
    reveal(Seq::filter);
    if s.len() > 0 {
        let t = s.drop_last();
        lemma_filter_no_duplicates(t, p);
        assert forall|i: int| 0 <= i < t.filter(p).len() implies t.filter(p)[i] != s.last() by {
            t.lemma_filter_contains_rev(p, t.filter(p)[i]);
            let j = t.index_of(t.filter(p)[i]);
            assert(s[j] == t[j]);
        }
    }
}

/// A user message goes over the data channel if there is one, else over the
/// control channel; an internal message always goes over the control channel.
pub proof fn law_channel_choice(c: PeerConnection, p: PacketView)
    ensures
        p.internal() ==> c.channel_for(p) == c.control,
        !p.internal() && c.data is Some ==> c.channel_for(p) == c.data->0,
        !p.internal() && c.data is None ==> c.channel_for(p) == c.control,
{
}

/// Of two peers exactly one opens the data channel between them.
pub proof fn law_one_side_opens_data_channel(a: TransportView, b: TransportView)
    requires
        a.local != b.local,
    ensures
        a.opens_data_channel(b.local) <==> !b.opens_data_channel(a.local),
{
    text::law_text_order_is_total(a.local, b.local, a.local);
}

/// A connection is not restored after the peer was disconnected by hand,
/// after it said farewell, while restoring is switched off, or while the
/// node shuts down.
pub proof fn law_when_not_restored(t: TransportView, k: Seq<char>)
    requires
        t.wf(),
    ensures
        !t.closed(k).restores(k),
        !t.with_info(
            k,
            PeerInfo { should_reconnect: false, ..t.connections.vals[k].info },
        ).restores(k),
        !(TransportView { auto_reconnect: false, ..t }).restores(k),
        !(TransportView { stopped: true, ..t }).restores(k),
{
}

/// Closing a connection that was just added restores the table.
pub proof fn law_close_undoes_register(t: TransportView, k: Seq<char>, c: PeerConnection)
    requires
        t.wf(),
        !t.connections.contains(k),
    ensures
        t.with_connection(k, c).closed(k) == t,
{
    peer_map::law_without_undoes_put(t.connections, k, c);
}

} // verus!
