//! Promises of the handshakes: who becomes a peer of whom, and which
//! connections become data channels.

use vstd::prelude::*;

use crate::config::PROTOCOL_VERSION;
use crate::error::NetworkError;
use crate::laws::connections;
use crate::laws::routing;
use crate::messaging::{self, RawPacket};
use crate::protocol::{InternalMessage, MessageView};
use crate::transport::handshake::{
    self, DataChannelReply, HandshakeReply, Inbound, Newcomer, Received, Welcome,
};
use crate::transport::{TransportManager, TransportView};
use crate::types::PeerId;
use crate::wire;

verus! {

/// Is a message of this form small enough to be sent by the node?
pub open spec fn is_small(t: TransportView, m: MessageView) -> bool {
    wire::message_form(m).len() <= t.config.max_message_size
}

/// Is `r` a packet that tells of `m`, or the error that it is too large?
pub open spec fn makes_packet(
    t: TransportView,
    m: MessageView,
    r: Result<RawPacket, NetworkError>,
) -> bool {
    if is_small(t, m) {
        r matches Ok(p) && routing::tells(p@, m)
    } else {
        r matches Err(NetworkError::MessageTooLarge(_))
    }
}

/// The handshake that a node sends first tells its name, the port that it
/// listens on, the version and its session; that of a data channel tells its
/// name.
pub proof fn law_node_introduces_itself(
    t: &TransportManager,
    hello: Result<RawPacket, NetworkError>,
    data: Result<RawPacket, NetworkError>,
)
    requires
        call_ensures(TransportManager::handshake_packet, (t,), hello),
        call_ensures(TransportManager::data_channel_packet, (t,), data),
    ensures
        makes_packet(
            t@,
            MessageView::Handshake {
                peer_id: t@.local,
                listen_port: t@.listen_port,
                protocol_version: PROTOCOL_VERSION,
                session_id: t@.session,
            },
            hello,
        ),
        makes_packet(t@, MessageView::DataChannelHandshake { peer_id: t@.local }, data),
{
    routing::lemma_tells(t@.greeting());
    routing::lemma_tells(MessageView::DataChannelHandshake { peer_id: t@.local });
}

/// A handshake of the same version and session, of a node that is not
/// connected yet, is accepted, and the newcomer is what it said it is. One of
/// another version or session is refused, and one of a node that is connected
/// already is pointed out as such; what is sent back says the same.
pub proof fn law_whose_handshake_is_accepted(
    t: &TransportManager,
    msg: InternalMessage,
    peer: Seq<char>,
    port: u16,
    version: u16,
    session: Seq<char>,
    r: Result<HandshakeReply, NetworkError>,
)
    requires
        call_ensures(TransportManager::process_handshake_message, (t, msg), r),
        msg@ == (MessageView::Handshake {
            peer_id: peer,
            listen_port: port,
            protocol_version: version,
            session_id: session,
        }),
        r is Ok,
    ensures
        ({
            let reply = r->Ok_0;
            let answer = |success: bool, reason: Option<Seq<char>>|
                MessageView::HandshakeAck {
                    peer_id: t@.local,
                    listen_port: t@.listen_port,
                    success,
                    error_reason: reason,
                };
            &&& version != PROTOCOL_VERSION ==> {
                &&& reply.outcome matches Err(NetworkError::VersionMismatch { expected, got })
                    && expected == PROTOCOL_VERSION && got == version
                &&& exists|reason: Seq<char>|
                    routing::tells(reply.ack@, #[trigger] answer(false, Some(reason)))
            }
            &&& version == PROTOCOL_VERSION && session != t@.session ==> {
                &&& reply.outcome matches Err(NetworkError::SessionMismatch { expected, got })
                    && expected@ == t@.session && got@ == session
                &&& routing::tells(reply.ack@, answer(false, Some("session_mismatch"@)))
            }
            &&& version == PROTOCOL_VERSION && session == t@.session && t@.connections.contains(
                peer,
            ) ==> {
                &&& reply.outcome matches Err(NetworkError::AlreadyConnected(id)) && id@ == peer
                &&& routing::tells(reply.ack@, answer(true, Some("already_connected"@)))
            }
            &&& version == PROTOCOL_VERSION && session == t@.session && !t@.connections.contains(
                peer,
            ) ==> {
                &&& reply.outcome matches Ok(n) && n.peer_id@ == peer && n.listen_port == port
                    && n.protocol_version == version && n.session_id@ == session
                &&& routing::tells(reply.ack@, answer(true, None))
            }
        }),
{
    let ack = t@.ack_for(t@.verdict(peer, version, session), version);
    routing::lemma_tells(ack);
    let answer = |success: bool, reason: Option<Seq<char>>|
        MessageView::HandshakeAck {
            peer_id: t@.local,
            listen_port: t@.listen_port,
            success,
            error_reason: reason,
        };
    if version != PROTOCOL_VERSION {
        let reason = "version_mismatch: expected "@ + crate::text::decimal(PROTOCOL_VERSION as nat)
            + ", got "@ + crate::text::decimal(version as nat);
        assert(ack == answer(false, Some(reason)));
    }
}

/// A handshake is answered, whatever is thought of it, if the answer is small
/// enough to be sent; no other message is taken for a handshake.
pub proof fn law_handshake_is_answered(
    t: &TransportManager,
    msg: InternalMessage,
    r: Result<HandshakeReply, NetworkError>,
)
    requires
        call_ensures(TransportManager::process_handshake_message, (t, msg), r),
    ensures
        !(msg@ is Handshake) ==> r matches Err(NetworkError::HandshakeFailed(_)),
        msg@ is Handshake && r is Err ==> r matches Err(NetworkError::MessageTooLarge(_)),
        msg@ matches MessageView::Handshake { peer_id, protocol_version, session_id, .. } ==> {
            let small = |success: bool, reason: Option<Seq<char>>|
                is_small(
                    t@,
                    MessageView::HandshakeAck {
                        peer_id: t@.local,
                        listen_port: t@.listen_port,
                        success,
                        error_reason: reason,
                    },
                );
            let reason = "version_mismatch: expected "@ + crate::text::decimal(
                PROTOCOL_VERSION as nat,
            ) + ", got "@ + crate::text::decimal(protocol_version as nat);
            &&& protocol_version != PROTOCOL_VERSION && small(false, Some(reason)) ==> r is Ok
            &&& protocol_version == PROTOCOL_VERSION && session_id != t@.session && small(
                false,
                Some("session_mismatch"@),
            ) ==> r is Ok
            &&& protocol_version == PROTOCOL_VERSION && session_id == t@.session
                && t@.connections.contains(peer_id) && small(true, Some("already_connected"@))
                ==> r is Ok
            &&& protocol_version == PROTOCOL_VERSION && session_id == t@.session
                && !t@.connections.contains(peer_id) && small(true, None) ==> r is Ok
        },
{
}

/// A newcomer is sent the list of all connected peers if there are any, and
/// the node is told of the handshake as it was.
pub proof fn law_newcomer_is_told_of_everybody(
    t: &TransportManager,
    n: &Newcomer,
    w: Welcome,
)
    requires
        t.wf(),
        call_ensures(TransportManager::welcome, (t, n), w),
    ensures
        ({
            let list = t@.sync_list();
            let hello = MessageView::Handshake {
                peer_id: n.peer_id@,
                listen_port: n.listen_port,
                protocol_version: n.protocol_version,
                session_id: n.session_id@,
            };
            let sync = MessageView::PeerListSync { peers: list };
            &&& connections::is_peer_list(t@, list)
            &&& list.len() == 0 ==> w.sync is None && makes_packet(t@, hello, w.notify)
            &&& list.len() > 0 && is_small(t@, sync) ==> {
                &&& w.sync matches Some(p) && routing::tells(p@, sync)
                &&& makes_packet(t@, hello, w.notify)
            }
            &&& list.len() > 0 && !is_small(t@, sync) ==> {
                &&& w.sync is None
                &&& w.notify matches Err(NetworkError::MessageTooLarge(_))
            }
        }),
{
    t.law_each_peer_has_one_connection();
    connections::lemma_sync_list(t@);
    routing::lemma_tells(n.handshake());
    routing::lemma_tells(MessageView::PeerListSync { peers: t@.sync_list() });
}

/// The handshake of a data channel is accepted exactly if it is of a connected
/// peer, and what is sent back says so.
pub proof fn law_whose_data_channel_is_accepted(
    t: &TransportManager,
    msg: InternalMessage,
    r: Result<DataChannelReply, NetworkError>,
)
    requires
        call_ensures(TransportManager::process_data_channel_handshake, (t, msg), r),
    ensures
        !(msg@ is DataChannelHandshake) ==> r matches Err(NetworkError::HandshakeFailed(_)),
        msg@ matches MessageView::DataChannelHandshake { peer_id } ==> {
            let ack = MessageView::DataChannelHandshakeAck {
                peer_id: t@.local,
                success: t@.connections.contains(peer_id),
            };
            if is_small(t@, ack) {
                &&& r is Ok
                &&& routing::tells(r->Ok_0.ack@, ack)
                &&& t@.connections.contains(peer_id) ==> (r->Ok_0.outcome matches Ok(id) && id@
                    == peer_id)
                &&& !t@.connections.contains(peer_id) ==> r->Ok_0.outcome matches Err(
                    NetworkError::HandshakeFailed(_),
                )
            } else {
                r matches Err(NetworkError::MessageTooLarge(_))
            }
        },
{
    if let MessageView::DataChannelHandshake { peer_id } = msg@ {
        routing::lemma_tells(
            MessageView::DataChannelHandshakeAck {
                peer_id: t@.local,
                success: t@.connections.contains(peer_id),
            },
        );
    }
}

/// The first packet of an incoming connection: once there are as many
/// connections as are allowed, only the handshake of a data channel is
/// answered. Within the limit, a handshake of the same version and session,
/// of a node that is not connected yet, makes a newcomer. A packet that
/// cannot be read is an error.
pub proof fn law_first_packet_of_a_connection(
    t: &TransportManager,
    p: &RawPacket,
    r: Result<Inbound, NetworkError>,
)
    requires
        call_ensures(TransportManager::handle_first_packet, (t, p), r),
    ensures
        p@.msg_type != 0x0040 && t@.connections.keys.len() >= t@.config.max_connections ==> r
            == Err::<Inbound, NetworkError>(NetworkError::MaxConnectionsReached),
        (p@.msg_type == 0x0040 || t@.connections.keys.len() < t@.config.max_connections)
            && wire::take_message(p@.payload) is None ==> r matches Err(
            NetworkError::Serialization(_),
        ),
        p@.msg_type != 0x0040 && t@.connections.keys.len() < t@.config.max_connections
            && wire::take_message(p@.payload) is Some ==> is_handshake_answered(
            t@,
            wire::take_message(p@.payload)->0,
            r,
        ),
        p@.msg_type == 0x0040 && wire::take_message(p@.payload) is Some
            ==> is_data_channel_answered(t@, wire::take_message(p@.payload)->0, r),
{
}

/// Does the answer make a newcomer of the sender exactly if it is of the same
/// version and session and not connected yet? Only that it would be too large
/// can keep an answer from being given, and only a handshake gets one.
pub open spec fn is_handshake_answered(
    t: TransportView,
    m: MessageView,
    r: Result<Inbound, NetworkError>,
) -> bool {
    match m {
        MessageView::Handshake { peer_id, protocol_version, session_id, .. } => match r {
            Ok(Inbound::Handshake(reply)) => match reply.outcome {
                Ok(n) => {
                    &&& protocol_version == PROTOCOL_VERSION
                    &&& session_id == t.session
                    &&& !t.connections.contains(peer_id)
                    &&& n.handshake() == m
                },
                Err(_) => protocol_version != PROTOCOL_VERSION || session_id != t.session
                    || t.connections.contains(peer_id),
            },
            Ok(Inbound::DataChannel(_)) => false,
            Err(e) => e is MessageTooLarge,
        },
        _ => r is Err,
    }
}

/// Does the answer attach the data channel exactly if it is of a connected
/// peer?
pub open spec fn is_data_channel_answered(
    t: TransportView,
    m: MessageView,
    r: Result<Inbound, NetworkError>,
) -> bool {
    match m {
        MessageView::DataChannelHandshake { peer_id } => match r {
            Ok(Inbound::DataChannel(reply)) => match reply.outcome {
                Ok(id) => t.connections.contains(peer_id) && id@ == peer_id,
                Err(_) => !t.connections.contains(peer_id),
            },
            Ok(Inbound::Handshake(_)) => false,
            Err(e) => e is MessageTooLarge,
        },
        _ => r is Err,
    }
}

/// A node that is told that it was accepted has connected to the node that
/// told it, and that it is connected already is an error that names the node.
/// A refusal is an error, with the reason that was given.
pub proof fn law_what_an_answer_means(
    t: &TransportManager,
    p: &RawPacket,
    r: Result<(PeerId, u16, RawPacket), NetworkError>,
)
    requires
        call_ensures(TransportManager::receive_handshake_ack, (t, p), r),
    ensures
        wire::take_message(p@.payload) is None ==> r matches Err(NetworkError::Serialization(_)),
        wire::take_message(p@.payload) matches Some(m) ==> match m {
            MessageView::HandshakeAck { peer_id, listen_port, success, error_reason } => {
                let told = MessageView::HandshakeAck {
                    peer_id,
                    listen_port,
                    success: true,
                    error_reason: None,
                };
                &&& success && error_reason != Some("already_connected"@) && is_small(
                    t@,
                    told,
                ) ==> {
                    &&& r is Ok
                    &&& r->Ok_0.0@ == peer_id
                    &&& r->Ok_0.1 == listen_port
                    &&& routing::tells(r->Ok_0.2@, told)
                }
                &&& success && error_reason != Some("already_connected"@) && !is_small(t@, told)
                    ==> r is Err
                &&& success && error_reason == Some("already_connected"@) ==> (r matches Err(
                    NetworkError::AlreadyConnected(id),
                ) && id@ == peer_id)
                &&& !success ==> r is Err
                &&& !success && error_reason is None ==> (r matches Err(
                    NetworkError::HandshakeFailed(_),
                ))
                &&& !success && error_reason is Some && error_reason != Some("duplicate_peer_id"@)
                    ==> (r matches Err(NetworkError::HandshakeFailed(t)) && Some(t@)
                    == error_reason)
                &&& !success && error_reason == Some("duplicate_peer_id"@) ==> (r matches Err(
                    NetworkError::AlreadyConnected(id),
                ) && id@ == peer_id)
            },
            _ => r is Err,
        },
{
    if let Some(MessageView::HandshakeAck { peer_id, listen_port, .. }) = wire::take_message(
        p@.payload,
    ) {
        routing::lemma_tells(handshake::accepted_ack(peer_id, listen_port));
    }
}

/// Two nodes of the same session that are not connected yet become peers: the
/// one that is connected to accepts the other as the newcomer that it is, and
/// the one that connects learns the other's name and port from the answer.
pub proof fn law_nodes_of_a_session_become_peers(
    a: &TransportManager,
    b: &TransportManager,
    hello: Result<RawPacket, NetworkError>,
    inbound: Result<Inbound, NetworkError>,
    answer: Result<(PeerId, u16, RawPacket), NetworkError>,
)
    requires
        a@.session == b@.session,
        !b@.connections.contains(a@.local),
        b@.connections.keys.len() < b@.config.max_connections,
        call_ensures(TransportManager::handshake_packet, (a,), hello),
        hello is Ok,
        call_ensures(TransportManager::handle_first_packet, (b, &hello->Ok_0), inbound),
        inbound is Ok,
        inbound->Ok_0 is Handshake ==> call_ensures(
            TransportManager::receive_handshake_ack,
            (a, &inbound->Ok_0->Handshake_0.ack),
            answer,
        ),
    ensures
        inbound->Ok_0 is Handshake,
        ({
            let reply = inbound->Ok_0->Handshake_0;
            &&& reply.outcome matches Ok(n) && n.peer_id@ == a@.local && n.listen_port
                == a@.listen_port && n.session_id@ == b@.session
            &&& answer matches Ok(x) ==> x.0@ == b@.local && x.1 == b@.listen_port
            &&& answer matches Err(e) ==> e is MessageTooLarge
        }),
{
    let greeting = a@.greeting();
    messaging::law_message_within_limit_is_read_back(greeting, a@.config.max_message_size);
    crate::protocol::law_code_identifies_kind(
        greeting,
        MessageView::DataChannelHandshake { peer_id: a@.local },
    );
    let ack = b@.ack(true, None);
    messaging::law_message_within_limit_is_read_back(ack, b@.config.max_message_size);
}

/// Nodes of different sessions do not become peers: the one that is connected
/// to takes no newcomer in, and the one that connects gets an error.
pub proof fn law_sessions_are_kept_apart(
    a: &TransportManager,
    b: &TransportManager,
    hello: Result<RawPacket, NetworkError>,
    inbound: Result<Inbound, NetworkError>,
    answer: Result<(PeerId, u16, RawPacket), NetworkError>,
)
    requires
        a@.session != b@.session,
        call_ensures(TransportManager::handshake_packet, (a,), hello),
        hello is Ok,
        call_ensures(TransportManager::handle_first_packet, (b, &hello->Ok_0), inbound),
        inbound matches Ok(Inbound::Handshake(_)) ==> call_ensures(
            TransportManager::receive_handshake_ack,
            (a, &inbound->Ok_0->Handshake_0.ack),
            answer,
        ),
    ensures
        inbound matches Ok(i) ==> {
            &&& i is Handshake
            &&& i->Handshake_0.outcome is Err
            &&& answer is Err
        },
{
    let greeting = a@.greeting();
    messaging::law_message_within_limit_is_read_back(greeting, a@.config.max_message_size);
    crate::protocol::law_code_identifies_kind(
        greeting,
        MessageView::DataChannelHandshake { peer_id: a@.local },
    );
    let ack = b@.ack(false, Some("session_mismatch"@));
    if messaging::fits(ack, b@.config.max_message_size) {
        messaging::law_message_within_limit_is_read_back(ack, b@.config.max_message_size);
    }
}

/// The answer to the handshake of a data channel is a success exactly if it
/// says so.
pub proof fn law_what_an_answer_on_a_data_channel_means(
    p: &RawPacket,
    r: Result<(), NetworkError>,
)
    requires
        call_ensures(handshake::receive_data_channel_ack, (p,), r),
    ensures
        r is Ok <==> (wire::take_message(p@.payload) matches Some(
            MessageView::DataChannelHandshakeAck { success, .. },
        ) && success),
{
}

/// What is waited for during a handshake is either there or an error: the one
/// that occurred, that the connection was closed, or that it took too long.
pub proof fn law_waiting_for_a_packet(
    received: Received,
    closed: &str,
    r: Result<RawPacket, NetworkError>,
)
    requires
        call_ensures(handshake::expect_packet, (received, closed), r),
    ensures
        received is Packet <==> r is Ok,
        received matches Received::Packet(p) ==> r->Ok_0 == p,
        received matches Received::Failed(e) ==> r->Err_0 == e,
        received is Closed ==> r->Err_0 is HandshakeFailed,
        received is TimedOut ==> r->Err_0 is HandshakeTimeout,
{
}

/// That a peer is connected already is no error for the side that is
/// connected to, and for the side that connects it is that error; every other
/// outcome stays as it is.
pub proof fn law_double_connections(
    result: Result<(), NetworkError>,
    inbound: Result<(), NetworkError>,
    connected: Result<PeerId, NetworkError>,
    outbound: Result<PeerId, NetworkError>,
)
    requires
        call_ensures(handshake::inbound_result, (result,), inbound),
        call_ensures(handshake::outbound_result, (connected,), outbound),
    ensures
        inbound is Ok <==> result is Ok || result->Err_0 is DuplicatePeerId
            || result->Err_0 is AlreadyConnected,
        inbound matches Err(e) ==> result == Err::<(), NetworkError>(e),
        connected matches Err(NetworkError::DuplicatePeerId(id)) ==> outbound == Err::<
            PeerId,
            NetworkError,
        >(NetworkError::AlreadyConnected(id)),
        !(connected matches Err(NetworkError::DuplicatePeerId(_))) ==> outbound == connected,
{
}

} // verus!
