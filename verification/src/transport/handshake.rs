//! The handshake by which two nodes become peers, and the one by which a
//! second connection becomes their data channel.

use vstd::prelude::*;

use crate::config::PROTOCOL_VERSION;
use crate::error::NetworkError;
use crate::messaging::{self, RawPacket};
use crate::protocol::{self, msg_types, InternalMessage, MessageView};
use crate::text;
use crate::transport::{TransportManager, TransportView};
use crate::types::PeerId;
use crate::wire;

verus! {

// --- receiving --------------------------------------------------------------
/// What came of waiting for a packet.
pub enum Received {
    Packet(RawPacket),
    Failed(NetworkError),
    Closed,
    TimedOut,
}

/// The packet that was waited for during a handshake, or the error that the
/// handshake ends in; `closed` says what was closed.
pub fn expect_packet(received: Received, closed: &str) -> (r: Result<RawPacket, NetworkError>)
    ensures
        match received {
            Received::Packet(p) => r == Ok::<RawPacket, NetworkError>(p),
            Received::Failed(e) => r == Err::<RawPacket, NetworkError>(e),
            Received::Closed => r matches Err(NetworkError::HandshakeFailed(m)) && m@ == closed@,
            Received::TimedOut => r == Err::<RawPacket, NetworkError>(
                NetworkError::HandshakeTimeout,
            ),
        },
{
    match received {
        Received::Packet(p) => Ok(p),
        Received::Failed(e) => Err(e),
        Received::Closed => Err(NetworkError::HandshakeFailed(closed.to_owned())),
        Received::TimedOut => Err(NetworkError::HandshakeTimeout),
    }
}

/// Is `e` the error for a packet, called `what`, that could not be sent
/// because of `cause`?
pub open spec fn is_send_failure(e: NetworkError, what: Seq<char>, cause: NetworkError) -> bool {
    e matches NetworkError::ConnectionFailed(m) && exists|t: Seq<char>|
        #[trigger] cause.is_message(t) && m@ == "failed to send "@ + what + ": "@ + t
}

/// The error for a packet, called `what`, that could not be sent.
pub fn send_failed(what: &str, cause: &NetworkError) -> (r: NetworkError)
    ensures
        is_send_failure(r, what@, *cause),
{
    let t = cause.to_string();
    let mut m = text::concat("failed to send ", what);
    m.append(": ");
    m.append(t.as_str());
    assert(cause.is_message(t@));
    NetworkError::ConnectionFailed(m)
}

// --- answering a handshake --------------------------------------------------
/// What is thought of a handshake.
#[derive(Clone, Copy, Debug, PartialEq, Eq, Structural)]
pub enum Verdict {
    WrongVersion,
    WrongSession,
    AlreadyConnected,
    Accepted,
}

/// A node whose handshake was accepted, as it introduced itself.
pub struct Newcomer {
    pub peer_id: PeerId,
    pub listen_port: u16,
    pub protocol_version: u16,
    pub session_id: String,
}

/// The answer to a handshake: the packet to send, and then what comes of it.
pub struct HandshakeReply {
    pub ack: RawPacket,
    pub outcome: Result<Newcomer, NetworkError>,
}

/// What a newcomer is sent once the answer has been sent, and the packet by
/// which this node is told of it.
pub struct Welcome {
    pub sync: Option<RawPacket>,
    pub notify: Result<RawPacket, NetworkError>,
}

/// The answer to the handshake of a data channel: the packet to send, and
/// then the peer that the channel belongs to.
pub struct DataChannelReply {
    pub ack: RawPacket,
    pub outcome: Result<PeerId, NetworkError>,
}

/// The answer to the first packet of an incoming connection.
pub enum Inbound {
    Handshake(HandshakeReply),
    DataChannel(DataChannelReply),
}

/// Is `r` the packet of the message `m`, or the error that it is too large?
pub open spec fn is_packet_of(
    r: Result<RawPacket, NetworkError>,
    m: MessageView,
    max_message_size: u32,
) -> bool {
    match r {
        Ok(p) => messaging::fits(m, max_message_size) && p@ == messaging::internal_packet(m),
        Err(e) => !messaging::fits(m, max_message_size) && e == messaging::oversize(m),
    }
}

impl Newcomer {
    /// The handshake by which the node introduced itself.
    pub open spec fn handshake(self) -> MessageView {
        MessageView::Handshake {
            peer_id: self.peer_id@,
            listen_port: self.listen_port,
            protocol_version: self.protocol_version,
            session_id: self.session_id@,
        }
    }
}

impl TransportView {
    /// What this node thinks of a handshake.
    pub open spec fn verdict(self, peer: Seq<char>, version: u16, session: Seq<char>) -> Verdict {
        if version != PROTOCOL_VERSION {
            Verdict::WrongVersion
        } else if session != self.session {
            Verdict::WrongSession
        } else if self.connections.contains(peer) {
            Verdict::AlreadyConnected
        } else {
            Verdict::Accepted
        }
    }

    /// The handshake of this node.
    pub open spec fn greeting(self) -> MessageView {
        MessageView::Handshake {
            peer_id: self.local,
            listen_port: self.listen_port,
            protocol_version: PROTOCOL_VERSION,
            session_id: self.session,
        }
    }

    /// This node's answer to a handshake.
    pub open spec fn ack(self, success: bool, reason: Option<Seq<char>>) -> MessageView {
        MessageView::HandshakeAck {
            peer_id: self.local,
            listen_port: self.listen_port,
            success,
            error_reason: reason,
        }
    }

    /// This node's answer to a handshake of protocol version `version`.
    pub open spec fn ack_for(self, verdict: Verdict, version: u16) -> MessageView {
        match verdict {
            Verdict::WrongVersion => self.ack(
                false,
                Some(
                    "version_mismatch: expected "@ + text::decimal(PROTOCOL_VERSION as nat)
                        + ", got "@ + text::decimal(version as nat),
                ),
            ),
            Verdict::WrongSession => self.ack(false, Some("session_mismatch"@)),
            Verdict::AlreadyConnected => self.ack(true, Some("already_connected"@)),
            Verdict::Accepted => self.ack(true, None),
        }
    }

    /// Is `r` what comes of this handshake?
    pub open spec fn concludes(self, m: MessageView, r: Result<Newcomer, NetworkError>) -> bool {
        m matches MessageView::Handshake { peer_id, listen_port, protocol_version, session_id }
            && match self.verdict(peer_id, protocol_version, session_id) {
            Verdict::WrongVersion => r == Err::<Newcomer, NetworkError>(
                NetworkError::VersionMismatch {
                    expected: PROTOCOL_VERSION,
                    got: protocol_version,
                },
            ),
            Verdict::WrongSession => r matches Err(
                NetworkError::SessionMismatch { expected, got },
            ) && expected@ == self.session && got@ == session_id,
            Verdict::AlreadyConnected => r matches Err(NetworkError::AlreadyConnected(id)) && id@
                == peer_id,
            Verdict::Accepted => r matches Ok(n) && n.handshake() == m,
        }
    }

    /// Is `r` the answer to the message `m` as a handshake?
    pub open spec fn answers(self, m: MessageView, r: Result<HandshakeReply, NetworkError>) -> bool {
        match m {
            MessageView::Handshake { peer_id, protocol_version, session_id, .. } => {
                let ack = self.ack_for(
                    self.verdict(peer_id, protocol_version, session_id),
                    protocol_version,
                );
                match r {
                    Ok(reply) => {
                        &&& is_packet_of(Ok(reply.ack), ack, self.config.max_message_size)
                        &&& self.concludes(m, reply.outcome)
                    },
                    Err(e) => is_packet_of(Err(e), ack, self.config.max_message_size),
                }
            },
            _ => r matches Err(NetworkError::HandshakeFailed(t)) && t@
                == "expected Handshake message"@,
        }
    }

    /// Is `r` the answer to the message `m` as the handshake of a data
    /// channel?
    pub open spec fn answers_data_channel(
        self,
        m: MessageView,
        r: Result<DataChannelReply, NetworkError>,
    ) -> bool {
        match m {
            MessageView::DataChannelHandshake { peer_id } => {
                let known = self.connections.contains(peer_id);
                let ack = MessageView::DataChannelHandshakeAck {
                    peer_id: self.local,
                    success: known,
                };
                match r {
                    Ok(reply) => {
                        &&& is_packet_of(Ok(reply.ack), ack, self.config.max_message_size)
                        &&& match reply.outcome {
                            Ok(id) => known && id@ == peer_id,
                            Err(NetworkError::HandshakeFailed(t)) => !known && t@
                                == "data channel from unknown peer "@ + peer_id,
                            Err(_) => false,
                        }
                    },
                    Err(e) => is_packet_of(Err(e), ack, self.config.max_message_size),
                }
            },
            _ => r matches Err(NetworkError::HandshakeFailed(t)) && t@
                == "expected DataChannelHandshake"@,
        }
    }

    /// Is `w` the welcome of a newcomer? The newcomer is told of the peers
    /// that are connected, if there are any.
    pub open spec fn welcomes(self, n: Newcomer, w: Welcome) -> bool {
        let max = self.config.max_message_size;
        let sync = MessageView::PeerListSync { peers: self.sync_list() };
        if self.sync_list().len() == 0 {
            w.sync is None && is_packet_of(w.notify, n.handshake(), max)
        } else {
            match w.sync {
                Some(p) => is_packet_of(Ok(p), sync, max) && is_packet_of(
                    w.notify,
                    n.handshake(),
                    max,
                ),
                None => w.notify matches Err(e) && is_packet_of(Err(e), sync, max),
            }
        }
    }
}

/// What a node makes of the answer to its handshake.
#[verifier::ext_equal]
pub enum AckOutcome {
    Connected { peer: Seq<char>, port: u16 },
    AlreadyConnected { peer: Seq<char> },
    Failed { reason: Seq<char> },
}

/// What a node makes of the message `m` as the answer to its handshake.
pub open spec fn ack_outcome(m: MessageView) -> AckOutcome {
    match m {
        MessageView::HandshakeAck { peer_id, listen_port, success, error_reason } => {
            if success && error_reason != Some("already_connected"@) {
                AckOutcome::Connected { peer: peer_id, port: listen_port }
            } else if success || error_reason == Some("duplicate_peer_id"@) {
                AckOutcome::AlreadyConnected { peer: peer_id }
            } else {
                AckOutcome::Failed {
                    reason: match error_reason {
                        Some(t) => t,
                        None => "unknown"@,
                    },
                }
            }
        },
        _ => AckOutcome::Failed { reason: "expected HandshakeAck message"@ },
    }
}

/// The answer that this node is told of once it has connected to a peer.
pub open spec fn accepted_ack(peer: Seq<char>, port: u16) -> MessageView {
    MessageView::HandshakeAck {
        peer_id: peer,
        listen_port: port,
        success: true,
        error_reason: None,
    }
}

fn is_text(t: &Option<String>, literal: &str) -> (r: bool)
    ensures
        r == (protocol::optional_text(*t) == Some(literal@)),
{
    match t {
        Some(s) => text::str_eq(s.as_str(), literal),
        None => false,
    }
}

impl TransportManager {
    fn ack_packet(&self, success: bool, error_reason: Option<String>) -> (r: Result<
        RawPacket,
        NetworkError,
    >)
        ensures
            is_packet_of(
                r,
                self@.ack(success, protocol::optional_text(error_reason)),
                self@.config.max_message_size,
            ),
    {
        let msg = InternalMessage::HandshakeAck {
            peer_id: self.local_peer_id().to_string(),
            listen_port: self.listener_port(),
            success,
            error_reason,
        };
        messaging::encode_internal(&msg, self.config().max_message_size)
    }

    /// Answer a handshake: refuse another protocol version or session, point
    /// out a connection that exists already, else accept.
    pub fn process_handshake_message(&self, msg: InternalMessage) -> (r: Result<
        HandshakeReply,
        NetworkError,
    >)
        requires
            self.wf(),
        ensures
            self@.answers(msg@, r),
    {
        match msg {
            InternalMessage::Handshake { peer_id, listen_port, protocol_version, session_id } => {
                if protocol_version != PROTOCOL_VERSION {
                    let mut reason = "version_mismatch: expected ".to_owned();
                    text::append_decimal(&mut reason, PROTOCOL_VERSION as u64);
                    reason.append(", got ");
                    text::append_decimal(&mut reason, protocol_version as u64);
                    let ack = self.ack_packet(false, Some(reason))?;
                    return Ok(
                        HandshakeReply {
                            ack,
                            outcome: Err(
                                NetworkError::VersionMismatch {
                                    expected: PROTOCOL_VERSION,
                                    got: protocol_version,
                                },
                            ),
                        },
                    );
                }
                if !text::str_eq(session_id.as_str(), self.session_id()) {
                    let ack = self.ack_packet(false, Some("session_mismatch".to_owned()))?;
                    return Ok(
                        HandshakeReply {
                            ack,
                            outcome: Err(
                                NetworkError::SessionMismatch {
                                    expected: self.session_id().to_owned(),
                                    got: session_id,
                                },
                            ),
                        },
                    );
                }
                let pid = PeerId::new(peer_id.as_str());
                if self.has_peer(&pid) {
                    let ack = self.ack_packet(true, Some("already_connected".to_owned()))?;
                    return Ok(
                        HandshakeReply {
                            ack,
                            outcome: Err(NetworkError::AlreadyConnected(peer_id)),
                        },
                    );
                }
                let ack = self.ack_packet(true, None)?;
                Ok(
                    HandshakeReply {
                        ack,
                        outcome: Ok(
                            Newcomer { peer_id: pid, listen_port, protocol_version, session_id },
                        ),
                    },
                )
            },
            _ => Err(NetworkError::HandshakeFailed("expected Handshake message".to_owned())),
        }
    }

    /// Welcome a newcomer, once the answer to its handshake has been sent.
    pub fn welcome(&self, newcomer: &Newcomer) -> (r: Welcome)
        requires
            self.wf(),
        ensures
            self@.welcomes(*newcomer, r),
    {
        let max: u32 = self.config().max_message_size;
        let peers = self.get_peer_list_for_sync();
        let mut sync: Option<RawPacket> = None;
        if peers.len() > 0 {
            match messaging::encode_internal(&InternalMessage::PeerListSync { peers }, max) {
                Ok(p) => {
                    sync = Some(p);
                },
                Err(e) => {
                    return Welcome { sync: None, notify: Err(e) };
                },
            }
        }
        let msg = InternalMessage::Handshake {
            peer_id: newcomer.peer_id.to_string(),
            listen_port: newcomer.listen_port,
            protocol_version: newcomer.protocol_version,
            session_id: newcomer.session_id.clone(),
        };
        Welcome { sync, notify: messaging::encode_internal(&msg, max) }
    }

    /// Answer the handshake of a data channel: it is welcome if it belongs to
    /// a connected peer.
    pub fn process_data_channel_handshake(&self, msg: InternalMessage) -> (r: Result<
        DataChannelReply,
        NetworkError,
    >)
        requires
            self.wf(),
        ensures
            self@.answers_data_channel(msg@, r),
    {
        match msg {
            InternalMessage::DataChannelHandshake { peer_id } => {
                let pid = PeerId::new(peer_id.as_str());
                let known = self.has_peer(&pid);
                let reply = InternalMessage::DataChannelHandshakeAck {
                    peer_id: self.local_peer_id().to_string(),
                    success: known,
                };
                let ack = messaging::encode_internal(&reply, self.config().max_message_size)?;
                let outcome = if known {
                    Ok(pid)
                } else {
                    Err(
                        NetworkError::HandshakeFailed(
                            text::concat("data channel from unknown peer ", peer_id.as_str()),
                        ),
                    )
                };
                Ok(DataChannelReply { ack, outcome })
            },
            _ => Err(NetworkError::HandshakeFailed("expected DataChannelHandshake".to_owned())),
        }
    }

    /// Answer the first packet of an incoming connection. A data channel
    /// belongs to a peer that is connected already, so the maximum number of
    /// connections does not concern it.
    pub fn handle_first_packet(&self, packet: &RawPacket) -> (r: Result<Inbound, NetworkError>)
        requires
            self.wf(),
        ensures
            if packet@.msg_type != msg_types::DATA_CHANNEL_HANDSHAKE && self@.full() {
                r == Err::<Inbound, NetworkError>(NetworkError::MaxConnectionsReached)
            } else {
                match wire::take_message(packet@.payload) {
                    None => r matches Err(NetworkError::Serialization(_)),
                    Some(m) => if packet@.msg_type == msg_types::DATA_CHANNEL_HANDSHAKE {
                        match r {
                            Ok(Inbound::DataChannel(reply)) => self@.answers_data_channel(
                                m,
                                Ok(reply),
                            ),
                            Ok(Inbound::Handshake(_)) => false,
                            Err(e) => self@.answers_data_channel(m, Err(e)),
                        }
                    } else {
                        match r {
                            Ok(Inbound::Handshake(reply)) => self@.answers(m, Ok(reply)),
                            Ok(Inbound::DataChannel(_)) => false,
                            Err(e) => self@.answers(m, Err(e)),
                        }
                    },
                }
            },
    {
        if packet.msg_type == msg_types::DATA_CHANNEL_HANDSHAKE {
            let msg = match messaging::decode_internal(packet) {
                Ok(m) => m,
                Err(e) => {
                    return Err(e);
                },
            };
            return match self.process_data_channel_handshake(msg) {
                Ok(reply) => Ok(Inbound::DataChannel(reply)),
                Err(e) => Err(e),
            };
        }
        if self.is_full() {
            return Err(NetworkError::MaxConnectionsReached);
        }
        let msg = match messaging::decode_internal(packet) {
            Ok(m) => m,
            Err(e) => {
                return Err(e);
            },
        };
        match self.process_handshake_message(msg) {
            Ok(reply) => Ok(Inbound::Handshake(reply)),
            Err(e) => Err(e),
        }
    }

    /// May this node connect to another one? An error where the maximum
    /// number of connections is reached.
    pub fn begin_connect(&self) -> (r: Result<(), NetworkError>)
        requires
            self.wf(),
        ensures
            r == (if self@.full() {
                Err(NetworkError::MaxConnectionsReached)
            } else {
                Ok::<(), NetworkError>(())
            }),
    {
        if self.is_full() {
            Err(NetworkError::MaxConnectionsReached)
        } else {
            Ok(())
        }
    }

    /// The handshake that this node sends first.
    pub fn handshake_packet(&self) -> (r: Result<RawPacket, NetworkError>)
        ensures
            is_packet_of(r, self@.greeting(), self@.config.max_message_size),
    {
        let msg = InternalMessage::Handshake {
            peer_id: self.local_peer_id().to_string(),
            listen_port: self.listener_port(),
            protocol_version: PROTOCOL_VERSION,
            session_id: self.session_id().to_owned(),
        };
        messaging::encode_internal(&msg, self.config().max_message_size)
    }

    /// Take in the answer to this node's handshake. On success the result is
    /// the peer, the port that it listens on and the packet by which this
    /// node is told of it.
    pub fn receive_handshake_ack(&self, packet: &RawPacket) -> (r: Result<
        (PeerId, u16, RawPacket),
        NetworkError,
    >)
        ensures
            match wire::take_message(packet@.payload) {
                None => r matches Err(NetworkError::Serialization(_)),
                Some(m) => match ack_outcome(m) {
                    AckOutcome::Connected { peer, port } => match r {
                        Ok((id, p, notify)) => {
                            &&& id@ == peer
                            &&& p == port
                            &&& is_packet_of(
                                Ok(notify),
                                accepted_ack(peer, port),
                                self@.config.max_message_size,
                            )
                        },
                        Err(e) => is_packet_of(
                            Err(e),
                            accepted_ack(peer, port),
                            self@.config.max_message_size,
                        ),
                    },
                    AckOutcome::AlreadyConnected { peer } => r matches Err(
                        NetworkError::AlreadyConnected(id),
                    ) && id@ == peer,
                    AckOutcome::Failed { reason } => r matches Err(
                        NetworkError::HandshakeFailed(t),
                    ) && t@ == reason,
                },
            },
    {
        let msg = match messaging::decode_internal(packet) {
            Ok(m) => m,
            Err(e) => {
                return Err(e);
            },
        };
        match msg {
            InternalMessage::HandshakeAck { peer_id, listen_port, success, error_reason } => {
                if !success {
                    if is_text(&error_reason, "duplicate_peer_id") {
                        return Err(NetworkError::AlreadyConnected(peer_id));
                    }
                    let reason = match error_reason {
                        Some(t) => t,
                        None => "unknown".to_owned(),
                    };
                    return Err(NetworkError::HandshakeFailed(reason));
                }
                if is_text(&error_reason, "already_connected") {
                    return Err(NetworkError::AlreadyConnected(peer_id));
                }
                let pid = PeerId::new(peer_id.as_str());
                let notify = messaging::encode_internal(
                    &InternalMessage::HandshakeAck {
                        peer_id,
                        listen_port,
                        success: true,
                        error_reason: None,
                    },
                    self.config().max_message_size,
                )?;
                Ok((pid, listen_port, notify))
            },
            _ => Err(NetworkError::HandshakeFailed("expected HandshakeAck message".to_owned())),
        }
    }

    /// The handshake that this node sends first on a data channel.
    pub fn data_channel_packet(&self) -> (r: Result<RawPacket, NetworkError>)
        ensures
            is_packet_of(
                r,
                MessageView::DataChannelHandshake { peer_id: self@.local },
                self@.config.max_message_size,
            ),
    {
        let msg = InternalMessage::DataChannelHandshake {
            peer_id: self.local_peer_id().to_string(),
        };
        messaging::encode_internal(&msg, self.config().max_message_size)
    }
}

/// Take in the answer to the handshake of a data channel.
pub fn receive_data_channel_ack(packet: &RawPacket) -> (r: Result<(), NetworkError>)
    ensures
        match wire::take_message(packet@.payload) {
            None => r matches Err(NetworkError::Serialization(_)),
            Some(MessageView::DataChannelHandshakeAck { success: true, .. }) => r is Ok,
            Some(_) => r matches Err(NetworkError::HandshakeFailed(t)) && t@
                == "data channel handshake rejected"@,
        },
{
    let msg = match messaging::decode_internal(packet) {
        Ok(m) => m,
        Err(e) => {
            return Err(e);
        },
    };
    if let InternalMessage::DataChannelHandshakeAck { success, .. } = msg {
        if success {
            return Ok(());
        }
    }
    Err(NetworkError::HandshakeFailed("data channel handshake rejected".to_owned()))
}

/// How an incoming connection ends. That the peer is connected already, or
/// was connected meanwhile, is no error: the existing connection stays.
pub fn inbound_result(result: Result<(), NetworkError>) -> (r: Result<(), NetworkError>)
    ensures
        match result {
            Ok(()) => r is Ok,
            Err(NetworkError::DuplicatePeerId(_)) => r is Ok,
            Err(NetworkError::AlreadyConnected(_)) => r is Ok,
            Err(e) => r == Err::<(), NetworkError>(e),
        },
{
    match result {
        Ok(()) => Ok(()),
        Err(NetworkError::DuplicatePeerId(_)) => Ok(()),
        Err(NetworkError::AlreadyConnected(_)) => Ok(()),
        Err(e) => Err(e),
    }
}

/// How an outgoing connection ends. A peer that was connected meanwhile is
/// connected already.
pub fn outbound_result(result: Result<PeerId, NetworkError>) -> (r: Result<PeerId, NetworkError>)
    ensures
        r == (match result {
            Err(NetworkError::DuplicatePeerId(id)) => Err(NetworkError::AlreadyConnected(id)),
            other => other,
        }),
{
    match result {
        Ok(id) => Ok(id),
        Err(NetworkError::DuplicatePeerId(id)) => Err(NetworkError::AlreadyConnected(id)),
        Err(e) => Err(e),
    }
}

// --- laws -------------------------------------------------------------------
/// Sessions are isolated: a node accepts a handshake only of its own session
/// and protocol version, and only of a node that is not connected yet.
pub proof fn law_only_own_session_is_accepted(
    t: TransportView,
    m: MessageView,
    r: Result<Newcomer, NetworkError>,
)
    requires
        t.concludes(m, r),
    ensures
        r is Ok <==> (m matches MessageView::Handshake {
            peer_id,
            protocol_version,
            session_id,
            ..
        } && protocol_version == PROTOCOL_VERSION && session_id == t.session
            && !t.connections.contains(peer_id)),
{
}

/// What the node that connects makes of the answer agrees with what the node
/// that answers thinks: accepted is connected, already connected is the same
/// on both sides, and a refusal is a failure with the reason that was given.
pub proof fn law_both_sides_agree(connecting: TransportView, answering: TransportView, version: u16)
    ensures
        ({
            let verdict = answering.verdict(connecting.local, version, connecting.session);
            let outcome = ack_outcome(answering.ack_for(verdict, version));
            match verdict {
                Verdict::Accepted => outcome == (AckOutcome::Connected {
                    peer: answering.local,
                    port: answering.listen_port,
                }),
                Verdict::AlreadyConnected => outcome == (AckOutcome::AlreadyConnected {
                    peer: answering.local,
                }),
                Verdict::WrongSession => outcome == (AckOutcome::Failed {
                    reason: "session_mismatch"@,
                }),
                Verdict::WrongVersion => outcome is Failed,
            }
        }),
{
    reveal_strlit("session_mismatch");
    reveal_strlit("duplicate_peer_id");
    reveal_strlit("version_mismatch: expected ");
    let reason = "version_mismatch: expected "@ + text::decimal(PROTOCOL_VERSION as nat)
        + ", got "@ + text::decimal(version as nat);
    assert(reason[0] == 'v');
    assert("duplicate_peer_id"@[0] == 'd');
    assert("session_mismatch"@[0] == 's');
}

/// Two nodes of the same session that are not connected yet connect: the
/// greeting of one is accepted by the other.
pub proof fn law_same_session_connects(a: TransportView, b: TransportView)
    requires
        a.session == b.session,
        !b.connections.contains(a.local),
    ensures
        b.verdict(a.local, PROTOCOL_VERSION, a.session) == Verdict::Accepted,
        ack_outcome(b.ack_for(Verdict::Accepted, PROTOCOL_VERSION)) == (AckOutcome::Connected {
            peer: b.local,
            port: b.listen_port,
        }),
{
}

} // verus!
