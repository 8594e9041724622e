//! Promises of sending: over which channel a packet goes, whom a broadcast
//! reaches, and where user messages are routed.

use vstd::prelude::*;

use crate::error::NetworkError;
use crate::leader::{LeaderElection, Role};
use crate::messaging::{self, PacketView, RawPacket};
use crate::protocol::MessageView;
use crate::session_router::{Delivery, SessionRouter};
use crate::transport::{self, Outgoing, OutgoingView, TransportManager, TransportView};
use crate::types::{ForwardTarget, MessageTarget, PeerId, PeerStatus};
use crate::wire;

verus! {

/// Does the packet, unpacked, give this user message?
pub open spec fn carries(p: PacketView, msg_type: u16, data: Seq<u8>, flags: u8) -> bool {
    &&& messaging::unpacked(p) == Some(data)
    &&& p.msg_type == msg_type
    &&& p.flags & 0xFE == flags & 0xFE
}

/// Does the packet, read, give this internal message?
pub open spec fn tells(p: PacketView, m: MessageView) -> bool {
    &&& p.msg_type < 0x0100
    &&& p.msg_type == m.code()
    &&& p.flags == 0
    &&& p.payload == wire::message_form(m)
}

/// Is the packet on its way to the peer `k`, over the right channel: the
/// control channel for an internal message, else the data channel if there is
/// one?
pub open spec fn goes_to(t: TransportView, o: OutgoingView, k: Seq<char>) -> bool {
    &&& o.peer == k
    &&& t.connections.contains(k)
    &&& o.packet.msg_type < 0x0100 ==> o.channel == t.connections.vals[k].control
    &&& o.packet.msg_type >= 0x0100 ==> match t.connections.vals[k].data {
        Some(d) => o.channel == d,
        None => o.channel == t.connections.vals[k].control,
    }
}

/// Is there a packet on its way to the peer `k`?
pub open spec fn addressed(sent: Seq<OutgoingView>, k: Seq<char>) -> bool {
    exists|i: int| 0 <= i < sent.len() && (#[trigger] sent[i]).peer == k
}

/// Do these packets go to every connected peer but those that are left out,
/// to nobody else, and to nobody twice?
pub open spec fn reaches_all(
    t: TransportView,
    left_out: Seq<Seq<char>>,
    sent: Seq<OutgoingView>,
) -> bool {
    &&& forall|k: Seq<char>|
        {
            &&& #[trigger] t.connections.contains(k)
            &&& t.connections.vals[k].info.status == PeerStatus::Connected
            &&& !left_out.contains(k)
        } ==> addressed(sent, k)
    &&& forall|i: int|
        0 <= i < sent.len() ==> {
            &&& goes_to(t, #[trigger] sent[i], sent[i].peer)
            &&& t.connections.vals[sent[i].peer].info.status == PeerStatus::Connected
            &&& !left_out.contains(sent[i].peer)
        }
    &&& forall|i: int, j: int|
        0 <= i < j < sent.len() ==> (#[trigger] sent[i]).peer != (#[trigger] sent[j]).peer
}

/// The same, of a list of outgoing packets that all carry the user message.
pub open spec fn delivers(
    t: TransportView,
    left_out: Seq<Seq<char>>,
    sent: Seq<OutgoingView>,
    msg_type: u16,
    data: Seq<u8>,
    flags: u8,
) -> bool {
    &&& reaches_all(t, left_out, sent)
    &&& forall|i: int|
        0 <= i < sent.len() ==> carries((#[trigger] sent[i]).packet, msg_type, data, flags)
}

/// The same, of a list of outgoing packets that all tell of `m`.
pub open spec fn announces(
    t: TransportView,
    sent: Seq<OutgoingView>,
    m: MessageView,
) -> bool {
    &&& reaches_all(t, seq![], sent)
    &&& forall|i: int| 0 <= i < sent.len() ==> tells((#[trigger] sent[i]).packet, m)
}

pub proof fn lemma_broadcast_reaches_all(
    t: TransportView,
    p: PacketView,
    left_out: Seq<Seq<char>>,
)
    requires
        t.wf(),
    ensures
        reaches_all(t, left_out, t.broadcast(p, left_out)),
        forall|i: int|
            0 <= i < t.broadcast(p, left_out).len() ==> (#[trigger] t.broadcast(
                p,
                left_out,
            )[i]).packet == p,
{
    let keys = t.connections.keys;
    let pred = |x: Seq<char>| t.is_target(x, left_out);
    let targets = keys.filter(pred);
    let sent = t.broadcast(p, left_out);
    assert forall|k: Seq<char>|
        {
            &&& #[trigger] t.connections.contains(k)
            &&& t.connections.vals[k].info.status == PeerStatus::Connected
            &&& !left_out.contains(k)
        } implies addressed(sent, k) by {
        let i = keys.index_of(k);
        keys.lemma_filter_contains(pred, i);
        let j = targets.index_of(k);
        assert(sent[j].peer == k);
    }
    assert forall|i: int| 0 <= i < sent.len() implies {
        &&& goes_to(t, #[trigger] sent[i], sent[i].peer)
        &&& t.connections.vals[sent[i].peer].info.status == PeerStatus::Connected
        &&& !left_out.contains(sent[i].peer)
    } by {
        assert(sent[i] == t.outgoing(targets[i], p));
        keys.lemma_filter_pred(pred, i);
        assert(targets.contains(targets[i]));
        keys.lemma_filter_contains_rev(pred, targets[i]);
    }
    transport::lemma_filter_no_duplicates(keys, pred);
    assert forall|i: int, j: int| 0 <= i < j < sent.len() implies (#[trigger] sent[i]).peer != (
    #[trigger] sent[j]).peer by {
        assert(sent[i].peer == targets[i]);
        assert(sent[j].peer == targets[j]);
    }
}

pub proof fn lemma_tells(m: MessageView)
    ensures
        tells(messaging::internal_packet(m), m),
{
    crate::protocol::law_code_identifies_kind(m, m);
}

pub proof fn lemma_announces(t: TransportView, m: MessageView)
    requires
        t.wf(),
    ensures
        announces(t, t.broadcast(messaging::internal_packet(m), seq![]), m),
{
    lemma_broadcast_reaches_all(t, messaging::internal_packet(m), seq![]);
    lemma_tells(m);
}

/// A packet that tells of a message, read, gives the message back.
pub proof fn law_what_is_told_is_understood(p: PacketView, m: MessageView)
    requires
        tells(p, m),
        wire::lengths_fit(m),
    ensures
        wire::take_message(p.payload) == Some(m),
{
    messaging::law_internal_packet_round_trip(m);
}

// --- channels ---------------------------------------------------------------
/// A packet for a connected peer goes to that peer, over the right channel
/// and unchanged; for any other there is an error that names it.
pub proof fn law_packet_goes_to_its_peer(
    t: &TransportManager,
    k: &PeerId,
    p: RawPacket,
    r: Result<Outgoing, NetworkError>,
)
    requires
        call_ensures(TransportManager::send_to_peer, (t, k, p), r),
    ensures
        t@.connections.contains(k@) ==> (r matches Ok(o) && goes_to(t@, o@, k@) && o@.packet == p@),
        !t@.connections.contains(k@) ==> (r matches Err(NetworkError::PeerNotFound(id)) && id@
            == k@),
{
}

/// A broadcast reaches every connected peer but those that are left out, and
/// bears the packet unchanged.
pub proof fn law_broadcast_reaches_everybody(
    t: &TransportManager,
    p: RawPacket,
    left_out: Option<&[PeerId]>,
    r: Vec<Outgoing>,
)
    requires
        t.wf(),
        call_ensures(TransportManager::broadcast, (t, p, left_out), r),
    ensures
        reaches_all(t@, transport::excluded(left_out), transport::outgoing_view(r@)),
        forall|i: int| 0 <= i < r@.len() ==> (#[trigger] r@[i])@.packet == p@,
        left_out is None ==> transport::excluded(left_out).len() == 0,
        left_out matches Some(l) ==> transport::excluded(left_out).len() == l@.len() && forall|i: int|
            0 <= i < l@.len() ==> transport::excluded(left_out)[i] == (#[trigger] l@[i])@,
{
    t.law_each_peer_has_one_connection();
    let ex = transport::excluded(left_out);
    lemma_broadcast_reaches_all(t@, p@, ex);
    let sent = transport::outgoing_view(r@);
    assert forall|i: int| 0 <= i < r@.len() implies (#[trigger] r@[i])@.packet == p@ by {
        assert(sent[i] == r@[i]@);
        assert(t@.broadcast(p@, ex)[i].packet == p@);
    }
}

// --- user messages ----------------------------------------------------------
/// What a message of a user's type that keeps within the limit is sent with:
/// a packet for one peer.
pub open spec fn sent_to(
    t: TransportView,
    k: Seq<char>,
    msg_type: u16,
    data: Seq<u8>,
    flags: u8,
    r: Result<Delivery, NetworkError>,
) -> bool {
    if t.connections.contains(k) {
        r matches Ok(Delivery::ToPeer(o)) && goes_to(t, o@, k) && carries(
            o@.packet,
            msg_type,
            data,
            flags,
        )
    } else {
        r matches Err(NetworkError::PeerNotFound(id)) && id@ == k
    }
}

/// The same: packets for all connected peers but those that are left out.
pub open spec fn sent_to_all(
    t: TransportView,
    left_out: Seq<Seq<char>>,
    msg_type: u16,
    data: Seq<u8>,
    flags: u8,
    r: Result<Delivery, NetworkError>,
) -> bool {
    r matches Ok(Delivery::ToAll(list)) && delivers(
        t,
        left_out,
        transport::outgoing_view(list@),
        msg_type,
        data,
        flags,
    )
}

pub proof fn lemma_unicast(
    s: crate::session_router::RouterView,
    t: TransportView,
    m: crate::session_router::UserMessage,
    k: Seq<char>,
    r: Result<Delivery, NetworkError>,
)
    requires
        m.msg_type >= 0x0100,
        m.data.len() <= s.max_message_size,
        s.unicasts(t, m, k, r),
    ensures
        sent_to(t, k, m.msg_type, m.data, m.flags, r),
{
    if let Ok(Delivery::ToPeer(o)) = r {
        crate::session_router::law_message_arrives_unchanged(s, m, o@.packet);
    }
}

pub proof fn lemma_broadcast(
    s: crate::session_router::RouterView,
    t: TransportView,
    m: crate::session_router::UserMessage,
    left_out: Seq<Seq<char>>,
    sent: Seq<OutgoingView>,
)
    requires
        t.wf(),
        s.is_broadcast(t, m, left_out, sent),
    ensures
        delivers(t, left_out, sent, m.msg_type, m.data, m.flags),
{
    let p = choose|p: PacketView| #[trigger] s.packs(m, p) && sent == t.broadcast(p, left_out);
    lemma_broadcast_reaches_all(t, p, left_out);
    crate::session_router::law_message_arrives_unchanged(s, m, p);
    assert forall|i: int| 0 <= i < sent.len() implies carries(
        (#[trigger] sent[i]).packet,
        m.msg_type,
        m.data,
        m.flags,
    ) by {
        assert(t.broadcast(p, left_out)[i].packet == p);
    }
}

pub proof fn lemma_routes(
    s: crate::session_router::RouterView,
    t: TransportView,
    e: crate::leader::ElectionView,
    target: MessageTarget,
    m: crate::session_router::UserMessage,
    r: Result<Delivery, NetworkError>,
)
    requires
        t.wf(),
        m.msg_type >= 0x0100,
        m.data.len() <= s.max_message_size,
        s.routes(t, e, target, m, r),
    ensures
        target is Broadcast && (!s.centralized || e.role == Role::Leader) ==> sent_to_all(
            t,
            seq![],
            m.msg_type,
            m.data,
            m.flags,
            r,
        ),
        target matches MessageTarget::ToPeer(k) ==> sent_to(
            t,
            k@,
            m.msg_type,
            m.data,
            m.flags,
            r,
        ),
        target is ToLeader && e.role == Role::Leader ==> r matches Ok(Delivery::Local),
        target is ToLeader && e.role != Role::Leader && e.leader is None ==> r == Err::<
            Delivery,
            NetworkError,
        >(NetworkError::NotLeader),
        target is ToLeader && e.role != Role::Leader && e.leader is Some ==> sent_to(
            t,
            e.leader->0,
            m.msg_type,
            m.data,
            m.flags,
            r,
        ),
{
    match target {
        MessageTarget::Broadcast => {
            if !s.centralized || e.role == Role::Leader {
                if let Ok(Delivery::ToAll(list)) = r {
                    lemma_broadcast(s, t, m, seq![], transport::outgoing_view(list@));
                }
            }
        },
        MessageTarget::ToPeer(k) => {
            lemma_unicast(s, t, m, k@, r);
        },
        MessageTarget::ToLeader => {
            if e.role != Role::Leader && e.leader is Some {
                lemma_unicast(s, t, m, e.leader->0, r);
            }
        },
    }
}

/// A broadcast within the limits reaches every connected peer and arrives
/// there as it was sent, if this node leads or is not in centralized mode.
pub proof fn law_broadcast_is_sent_to_everybody(
    s: &SessionRouter,
    t: &TransportManager,
    e: &LeaderElection,
    msg_type: u16,
    data: &[u8],
    flags: u8,
    r: Result<Delivery, NetworkError>,
)
    requires
        t.wf(),
        call_ensures(
            SessionRouter::route_message,
            (s, t, e, MessageTarget::Broadcast, msg_type, data, flags),
            r,
        ),
        msg_type >= 0x0100,
        data@.len() <= s@.max_message_size,
        !s@.centralized || e@.role == Role::Leader,
    ensures
        sent_to_all(t@, seq![], msg_type, data@, flags, r),
{
    t.law_each_peer_has_one_connection();
    let m = crate::session_router::UserMessage { msg_type, data: data@, flags };
    if let Ok(Delivery::ToAll(list)) = r {
        lemma_broadcast(s@, t@, m, seq![], transport::outgoing_view(list@));
    }
}

/// In centralized mode a follower sends its broadcast to the leader alone,
/// with its own name, for the leader to pass on. Without a leader there is an
/// error, as there is for a message that is too large with what is put around
/// it, or a leader that is not connected.
pub proof fn law_centralized_broadcast_is_sent_to_the_leader(
    s: &SessionRouter,
    t: &TransportManager,
    e: &LeaderElection,
    msg_type: u16,
    data: &[u8],
    flags: u8,
    r: Result<Delivery, NetworkError>,
)
    requires
        call_ensures(
            SessionRouter::route_message,
            (s, t, e, MessageTarget::Broadcast, msg_type, data, flags),
            r,
        ),
        msg_type >= 0x0100,
        s@.centralized,
        e@.role != Role::Leader,
    ensures
        ({
            let request = MessageView::ForwardedUserData {
                from_peer_id: s@.local,
                original_msg_type: msg_type,
                original_flags: flags & 0xFE,
                payload: data@,
            };
            match e@.leader {
                None => r == Err::<Delivery, NetworkError>(NetworkError::NotLeader),
                Some(k) => if wire::message_form(request).len() > s@.max_message_size {
                    r matches Err(NetworkError::MessageTooLarge(_))
                } else if !t@.connections.contains(k) {
                    r matches Err(NetworkError::PeerNotFound(id)) && id@ == k
                } else {
                    r matches Ok(Delivery::ToPeer(o)) && goes_to(t@, o@, k) && tells(
                        o@.packet,
                        request,
                    )
                },
            }
        }),
{
    lemma_tells(s@.forward_request(
        crate::session_router::UserMessage { msg_type, data: data@, flags },
    ));
}

/// A message within the limits for one peer goes to that peer and arrives
/// there as it was sent; where the peer is not connected, the error names it.
pub proof fn law_message_is_sent_to_its_peer(
    s: &SessionRouter,
    t: &TransportManager,
    e: &LeaderElection,
    k: PeerId,
    msg_type: u16,
    data: &[u8],
    flags: u8,
    r: Result<Delivery, NetworkError>,
)
    requires
        call_ensures(
            SessionRouter::route_message,
            (s, t, e, MessageTarget::ToPeer(k), msg_type, data, flags),
            r,
        ),
        msg_type >= 0x0100,
        data@.len() <= s@.max_message_size,
    ensures
        sent_to(t@, k@, msg_type, data@, flags, r),
{
    let m = crate::session_router::UserMessage { msg_type, data: data@, flags };
    lemma_unicast(s@, t@, m, k@, r);
}

/// A message within the limits for the leader stays here if this node leads,
/// goes to the leader if one is known, and else is an error.
pub proof fn law_message_is_sent_to_the_leader(
    s: &SessionRouter,
    t: &TransportManager,
    e: &LeaderElection,
    msg_type: u16,
    data: &[u8],
    flags: u8,
    r: Result<Delivery, NetworkError>,
)
    requires
        call_ensures(
            SessionRouter::route_message,
            (s, t, e, MessageTarget::ToLeader, msg_type, data, flags),
            r,
        ),
        msg_type >= 0x0100,
        data@.len() <= s@.max_message_size,
    ensures
        e@.role == Role::Leader ==> r matches Ok(Delivery::Local),
        e@.role != Role::Leader && e@.leader is None ==> r == Err::<Delivery, NetworkError>(
            NetworkError::NotLeader,
        ),
        e@.role != Role::Leader && e@.leader is Some ==> sent_to(
            t@,
            e@.leader->0,
            msg_type,
            data@,
            flags,
            r,
        ),
{
    let m = crate::session_router::UserMessage { msg_type, data: data@, flags };
    if e@.role != Role::Leader && e@.leader is Some {
        lemma_unicast(s@, t@, m, e@.leader->0, r);
    }
}

/// Nothing is sent of a message whose type is not one of user messages, and
/// nothing of one that is too large, unless it is for this node itself.
pub proof fn law_bad_messages_are_not_sent(
    s: &SessionRouter,
    t: &TransportManager,
    e: &LeaderElection,
    target: MessageTarget,
    msg_type: u16,
    data: &[u8],
    flags: u8,
    r: Result<Delivery, NetworkError>,
)
    requires
        call_ensures(SessionRouter::route_message, (s, t, e, target, msg_type, data, flags), r),
    ensures
        msg_type < 0x0100 ==> r matches Err(NetworkError::InvalidArgument(_)),
        msg_type >= 0x0100 && data@.len() > s@.max_message_size ==> match target {
            MessageTarget::ToPeer(_) => r matches Err(NetworkError::MessageTooLarge(_)),
            MessageTarget::Broadcast => !s@.centralized || e@.role == Role::Leader
                ==> r matches Err(NetworkError::MessageTooLarge(_)),
            MessageTarget::ToLeader => e@.role != Role::Leader && e@.leader is Some
                ==> r matches Err(NetworkError::MessageTooLarge(_)),
        },
{
}

/// The leader sends to every connected peer; nobody else sends as the leader.
pub proof fn law_leader_sends_to_everybody(
    s: &SessionRouter,
    t: &TransportManager,
    e: &LeaderElection,
    msg_type: u16,
    data: &[u8],
    flags: u8,
    r: Result<Delivery, NetworkError>,
)
    requires
        t.wf(),
        call_ensures(SessionRouter::send_from_leader, (s, t, e, msg_type, data, flags), r),
    ensures
        msg_type < 0x0100 ==> r matches Err(NetworkError::InvalidArgument(_)),
        msg_type >= 0x0100 && e@.role != Role::Leader ==> r == Err::<Delivery, NetworkError>(
            NetworkError::NotLeader,
        ),
        msg_type >= 0x0100 && e@.role == Role::Leader && data@.len() <= s@.max_message_size
            ==> sent_to_all(t@, seq![], msg_type, data@, flags, r),
        msg_type >= 0x0100 && e@.role == Role::Leader && data@.len() > s@.max_message_size
            ==> r matches Err(NetworkError::MessageTooLarge(_)),
{
    t.law_each_peer_has_one_connection();
    let m = crate::session_router::UserMessage { msg_type, data: data@, flags };
    if msg_type >= 0x0100 && e@.role == Role::Leader {
        if let Ok(Delivery::ToAll(list)) = r {
            lemma_broadcast(s@, t@, m, seq![], transport::outgoing_view(list@));
        }
    }
}

/// The leader passes a message on to the peer it is meant for, or to every
/// connected peer but the one it came from; nobody else passes messages on.
pub proof fn law_leader_passes_messages_on(
    s: &SessionRouter,
    t: &TransportManager,
    e: &LeaderElection,
    from: &PeerId,
    target: ForwardTarget,
    msg_type: u16,
    flags: u8,
    data: &[u8],
    r: Result<Delivery, NetworkError>,
)
    requires
        t.wf(),
        call_ensures(
            SessionRouter::forward_message,
            (s, t, e, from, target, msg_type, flags, data),
            r,
        ),
    ensures
        msg_type < 0x0100 ==> r matches Err(NetworkError::InvalidArgument(_)),
        msg_type >= 0x0100 && e@.role != Role::Leader ==> r == Err::<Delivery, NetworkError>(
            NetworkError::NotLeader,
        ),
        msg_type >= 0x0100 && e@.role == Role::Leader && data@.len() <= s@.max_message_size
            ==> match target {
            ForwardTarget::ToPeer(k) => sent_to(t@, k@, msg_type, data@, flags, r),
            ForwardTarget::Broadcast => sent_to_all(
                t@,
                seq![from@],
                msg_type,
                data@,
                flags,
                r,
            ),
        },
        msg_type >= 0x0100 && e@.role == Role::Leader && data@.len() > s@.max_message_size
            ==> r matches Err(NetworkError::MessageTooLarge(_)),
{
    t.law_each_peer_has_one_connection();
    let m = crate::session_router::UserMessage { msg_type, data: data@, flags };
    if msg_type >= 0x0100 && e@.role == Role::Leader && data@.len() <= s@.max_message_size {
        match target {
            ForwardTarget::ToPeer(k) => {
                lemma_unicast(s@, t@, m, k@, r);
            },
            ForwardTarget::Broadcast => {
                if let Ok(Delivery::ToAll(list)) = r {
                    lemma_broadcast(s@, t@, m, seq![from@], transport::outgoing_view(list@));
                }
            },
        }
    }
}

/// A node that is asked to pass a broadcast on takes the message for itself
/// in any case. It passes it on to every connected peer but the one it came
/// from exactly if it leads, is set to do so, and the message is one of a
/// user's type within the limit.
pub proof fn law_forwarded_message_is_taken_and_passed_on(
    s: &SessionRouter,
    t: &TransportManager,
    e: &LeaderElection,
    from: &str,
    msg_type: u16,
    flags: u8,
    data: &[u8],
    r: (Option<RawPacket>, Vec<Outgoing>),
)
    requires
        t.wf(),
        call_ensures(
            SessionRouter::handle_forwarded_user_data,
            (s, t, e, from, msg_type, flags, data),
            r,
        ),
    ensures
        r.0 matches Some(p) && p@.msg_type == msg_type && p@.flags == flags && p@.payload == data@,
        e@.role == Role::Leader && s@.auto_forward && msg_type >= 0x0100 && data@.len()
            <= s@.max_message_size ==> delivers(
            t@,
            seq![from@],
            transport::outgoing_view(r.1@),
            msg_type,
            data@,
            flags,
        ),
        !(e@.role == Role::Leader && s@.auto_forward && msg_type >= 0x0100 && data@.len()
            <= s@.max_message_size) ==> r.1@.len() == 0,
{
    t.law_each_peer_has_one_connection();
    let m = crate::session_router::UserMessage { msg_type, data: data@, flags };
    let sent = transport::outgoing_view(r.1@);
    if e@.role == Role::Leader && s@.auto_forward && msg_type >= 0x0100 && data@.len()
        <= s@.max_message_size {
        lemma_broadcast(s@, t@, m, seq![from@], sent);
    } else {
        assert(sent.len() == r.1@.len());
    }
}

} // verus!
