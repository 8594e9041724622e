//! Internal protocol messages exchanged between peers for handshakes,
//! heartbeats, elections and forwarded payloads.

use vstd::prelude::*;

pub mod msg_types;

verus! {

/// Messages exchanged between peers to manage connections, membership and
/// leader election, and to carry forwarded user payloads.
#[derive(Clone, Debug, PartialEq)]
pub enum InternalMessage {
    // --- connection handshake --------------------------------------------
    Handshake { peer_id: String, listen_port: u16, protocol_version: u16, session_id: String },
    HandshakeAck {
        peer_id: String,
        listen_port: u16,
        success: bool,
        error_reason: Option<String>,
    },
    // --- membership notifications ----------------------------------------
    PeerLeave { peer_id: String },
    /// Pairs of a peer's name and its address.
    PeerListSync { peers: Vec<(String, String)> },
    // --- heartbeat/ping for liveness -------------------------------------
    Heartbeat { term: u64, leader_id: String, timestamp_ms: u64 },
    HeartbeatResponse { term: u64, timestamp_ms: u64 },
    Ping { timestamp_ms: u64 },
    Pong { timestamp_ms: u64 },
    // --- leader election -------------------------------------------------
    RequestVote { term: u64, candidate_id: String },
    VoteResponse { term: u64, voter_id: String, granted: bool },
    LeaderAssign { term: u64, leader_id: String, assigner_id: String },
    // --- forwarded user data (used by centralized routing) ---------------
    ForwardedUserData {
        from_peer_id: String,
        original_msg_type: u16,
        original_flags: u8,
        payload: Vec<u8>,
    },
    // --- dual-channel handshake ------------------------------------------
    /// Sent on a new connection to attach it as the data channel of a peer
    /// whose control channel stands.
    DataChannelHandshake { peer_id: String },
    DataChannelHandshakeAck { peer_id: String, success: bool },
}

/// The value of an [`InternalMessage`].
#[verifier::ext_equal]
pub enum MessageView {
    Handshake {
        peer_id: Seq<char>,
        listen_port: u16,
        protocol_version: u16,
        session_id: Seq<char>,
    },
    HandshakeAck {
        peer_id: Seq<char>,
        listen_port: u16,
        success: bool,
        error_reason: Option<Seq<char>>,
    },
    PeerLeave { peer_id: Seq<char> },
    PeerListSync { peers: Seq<(Seq<char>, Seq<char>)> },
    Heartbeat { term: u64, leader_id: Seq<char>, timestamp_ms: u64 },
    HeartbeatResponse { term: u64, timestamp_ms: u64 },
    Ping { timestamp_ms: u64 },
    Pong { timestamp_ms: u64 },
    RequestVote { term: u64, candidate_id: Seq<char> },
    VoteResponse { term: u64, voter_id: Seq<char>, granted: bool },
    LeaderAssign { term: u64, leader_id: Seq<char>, assigner_id: Seq<char> },
    ForwardedUserData {
        from_peer_id: Seq<char>,
        original_msg_type: u16,
        original_flags: u8,
        payload: Seq<u8>,
    },
    DataChannelHandshake { peer_id: Seq<char> },
    DataChannelHandshakeAck { peer_id: Seq<char>, success: bool },
}

/// The value of an optional text.
pub open spec fn optional_text(s: Option<String>) -> Option<Seq<char>> {
    match s {
        Some(t) => Some(t@),
        None => None,
    }
}

/// The value of a list of pairs of texts.
pub open spec fn pairs_view(p: Seq<(String, String)>) -> Seq<(Seq<char>, Seq<char>)> {
    p.map_values(|e: (String, String)| (e.0@, e.1@))
}

impl View for InternalMessage {
    type V = MessageView;

    open spec fn view(&self) -> MessageView {
        match *self {
            InternalMessage::Handshake { peer_id, listen_port, protocol_version, session_id } =>
                MessageView::Handshake {
                peer_id: peer_id@,
                listen_port,
                protocol_version,
                session_id: session_id@,
            },
            InternalMessage::HandshakeAck { peer_id, listen_port, success, error_reason } =>
                MessageView::HandshakeAck {
                peer_id: peer_id@,
                listen_port,
                success,
                error_reason: optional_text(error_reason),
            },
            InternalMessage::PeerLeave { peer_id } => MessageView::PeerLeave {
                peer_id: peer_id@,
            },
            InternalMessage::PeerListSync { peers } => MessageView::PeerListSync {
                peers: pairs_view(peers@),
            },
            InternalMessage::Heartbeat { term, leader_id, timestamp_ms } =>
                MessageView::Heartbeat { term, leader_id: leader_id@, timestamp_ms },
            InternalMessage::HeartbeatResponse { term, timestamp_ms } =>
                MessageView::HeartbeatResponse { term, timestamp_ms },
            InternalMessage::Ping { timestamp_ms } => MessageView::Ping { timestamp_ms },
            InternalMessage::Pong { timestamp_ms } => MessageView::Pong { timestamp_ms },
            InternalMessage::RequestVote { term, candidate_id } => MessageView::RequestVote {
                term,
                candidate_id: candidate_id@,
            },
            InternalMessage::VoteResponse { term, voter_id, granted } =>
                MessageView::VoteResponse { term, voter_id: voter_id@, granted },
            InternalMessage::LeaderAssign { term, leader_id, assigner_id } =>
                MessageView::LeaderAssign {
                term,
                leader_id: leader_id@,
                assigner_id: assigner_id@,
            },
            InternalMessage::ForwardedUserData {
                from_peer_id,
                original_msg_type,
                original_flags,
                payload,
            } => MessageView::ForwardedUserData {
                from_peer_id: from_peer_id@,
                original_msg_type,
                original_flags,
                payload: payload@,
            },
            InternalMessage::DataChannelHandshake { peer_id } =>
                MessageView::DataChannelHandshake { peer_id: peer_id@ },
            InternalMessage::DataChannelHandshakeAck { peer_id, success } =>
                MessageView::DataChannelHandshakeAck { peer_id: peer_id@, success },
        }
    }
}

impl MessageView {
    /// The position of the message's kind in the list of all kinds.
    pub open spec fn index(self) -> nat {
        match self {
            MessageView::Handshake { .. } => 0,
            MessageView::HandshakeAck { .. } => 1,
            MessageView::PeerLeave { .. } => 2,
            MessageView::PeerListSync { .. } => 3,
            MessageView::Heartbeat { .. } => 4,
            MessageView::HeartbeatResponse { .. } => 5,
            MessageView::Ping { .. } => 6,
            MessageView::Pong { .. } => 7,
            MessageView::RequestVote { .. } => 8,
            MessageView::VoteResponse { .. } => 9,
            MessageView::LeaderAssign { .. } => 10,
            MessageView::ForwardedUserData { .. } => 11,
            MessageView::DataChannelHandshake { .. } => 12,
            MessageView::DataChannelHandshakeAck { .. } => 13,
        }
    }

    /// The message's type code: the code at the position of its kind.
    pub open spec fn code(self) -> u16 {
        msg_types::all_codes()[self.index() as int]
    }
}

impl InternalMessage {
    /// The type code under which this message travels.
    pub fn msg_type(&self) -> (r: u16)
        ensures
            r == self@.code(),
            r < msg_types::USER_MESSAGE_START,
    {
        match self {
            Self::Handshake { .. } => msg_types::HANDSHAKE,
            Self::HandshakeAck { .. } => msg_types::HANDSHAKE_ACK,
            Self::PeerLeave { .. } => msg_types::PEER_LEAVE,
            Self::PeerListSync { .. } => msg_types::PEER_LIST_SYNC,
            Self::Heartbeat { .. } => msg_types::HEARTBEAT,
            Self::HeartbeatResponse { .. } => msg_types::HEARTBEAT_RESPONSE,
            Self::Ping { .. } => msg_types::PING,
            Self::Pong { .. } => msg_types::PONG,
            Self::RequestVote { .. } => msg_types::REQUEST_VOTE,
            Self::VoteResponse { .. } => msg_types::VOTE_RESPONSE,
            Self::LeaderAssign { .. } => msg_types::LEADER_ASSIGN,
            Self::ForwardedUserData { .. } => msg_types::FORWARDED_USER_DATA,
            Self::DataChannelHandshake { .. } => msg_types::DATA_CHANNEL_HANDSHAKE,
            Self::DataChannelHandshakeAck { .. } => msg_types::DATA_CHANNEL_HANDSHAKE_ACK,
        }
    }
}

/// Two messages have the same type code exactly if they are of the same
/// kind, and no message's code is one of a user message.
pub proof fn law_code_identifies_kind(a: MessageView, b: MessageView)
    ensures
        a.code() == b.code() <==> a.index() == b.index(),
        a.code() < msg_types::USER_MESSAGE_START,
{
    msg_types::law_codes_are_unique_and_internal();
}

} // verus!
