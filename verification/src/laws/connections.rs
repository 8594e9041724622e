//! Promises of the connections: which there are, what closing one amounts to,
//! and how a lost one is restored.

use vstd::prelude::*;

use crate::config::NetworkConfig;
use crate::error::NetworkError;
use crate::laws::routing;
use crate::protocol::MessageView;
use crate::text;
use crate::transport::reconnect::{Reconnect, ReconnectEvent, ReconnectStep};
use crate::transport::{
    self, ClosedConnection, DataChannel, Disconnect, Outgoing, OutgoingView, PeerConnection,
    SendOutcome, TransportManager, TransportView,
};
use crate::types::{self, PeerId, PeerInfo, PeerStatus};
use crate::wire;

verus! {

/// Is everything but the connection of `k` the same?
pub open spec fn same_but_for(t: TransportView, after: TransportView, k: Seq<char>) -> bool {
    &&& same_settings(t, after)
    &&& forall|x: Seq<char>|
        x != k ==> #[trigger] after.connections.contains(x) == t.connections.contains(x)
            && after.connections.vals[x] == t.connections.vals[x]
}

/// Is everything but the connections the same?
pub open spec fn same_settings(t: TransportView, after: TransportView) -> bool {
    &&& after.local == t.local
    &&& after.session == t.session
    &&& after.config == t.config
    &&& after.listen_addr == t.listen_addr
    &&& after.listen_port == t.listen_port
    &&& after.auto_reconnect == t.auto_reconnect
    &&& after.stopped == t.stopped
    &&& after.clock == t.clock
}

/// A new connection has the given control channel and no data channel, and
/// counts as connected from now on; a lost one is to be restored. This node
/// opens the data channel exactly if its own name comes first. Where the peer
/// is connected already, nothing changes and the error names it.
pub proof fn law_connection_is_added(
    t: &mut TransportManager,
    k: PeerId,
    addr: String,
    channel: u64,
    now: u128,
    r: Result<bool, NetworkError>,
)
    requires
        call_ensures(TransportManager::register_connection_at, (t, k, addr, channel, now), r),
    ensures
        !old(t)@.connections.contains(k@) ==> {
            let c = final(t)@.connections.vals[k@];
            &&& r == Ok::<bool, NetworkError>(text::text_less(old(t)@.local, k@))
            &&& final(t)@.connections.contains(k@)
            &&& c.control == channel
            &&& c.data is None
            &&& c.info.peer_id@ == k@
            &&& c.info.addr == addr
            &&& c.info.status == PeerStatus::Connected
            &&& c.info.last_seen == now
            &&& c.info.connected_at == now
            &&& c.info.rtt_ms is None
            &&& c.info.should_reconnect
            &&& final(t)@.connections.keys =~= old(t)@.connections.keys + seq![k@]
        },
        old(t)@.connections.contains(k@) ==> {
            &&& r matches Err(NetworkError::DuplicatePeerId(id)) && id@ == k@
            &&& final(t)@ == old(t)@
        },
        same_but_for(old(t)@, final(t)@, k@),
{
}

/// Are these the channels of the connection: the control channel, and the
/// data channel if there is one?
pub open spec fn are_channels_of(c: PeerConnection, channels: Seq<u64>) -> bool {
    match c.data {
        Some(d) => channels.len() == 2 && channels[0] == c.control && channels[1] == d,
        None => channels.len() == 1 && channels[0] == c.control,
    }
}

/// When a connection is lost, it is gone and its channels are to be closed.
/// It is restored, at the same address, exactly if that is wanted for this
/// peer, restoring is switched on and the node does not shut down.
pub proof fn law_lost_connection(
    t: &mut TransportManager,
    k: &PeerId,
    r: ClosedConnection,
)
    requires
        call_ensures(TransportManager::connection_closed, (t, k), r),
    ensures
        !final(t)@.connections.contains(k@),
        same_but_for(old(t)@, final(t)@, k@),
        !old(t)@.connections.contains(k@) ==> {
            &&& final(t)@ == old(t)@
            &&& r.cancelled@.len() == 0
            &&& r.reconnect is None
        },
        old(t)@.connections.contains(k@) ==> {
            let c = old(t)@.connections.vals[k@];
            &&& are_channels_of(c, r.cancelled@)
            &&& c.info.should_reconnect && old(t)@.auto_reconnect && !old(t)@.stopped ==> (
            r.reconnect matches Some(a) && a@ == c.info.addr@)
            &&& !(c.info.should_reconnect && old(t)@.auto_reconnect && !old(t)@.stopped)
                ==> r.reconnect is None
        },
{
}

/// A peer that is disconnected by hand is bidden farewell, under this node's
/// name, its channels are to be closed and the connection is gone; it will
/// not be restored, as the record that says so is gone too.
pub proof fn law_disconnecting_by_hand(
    t: &mut TransportManager,
    k: &PeerId,
    r: Result<Disconnect, NetworkError>,
)
    requires
        call_ensures(TransportManager::disconnect_peer, (t, k), r),
        wire::message_form(MessageView::PeerLeave { peer_id: old(t)@.local }).len()
            <= old(t)@.config.max_message_size,
    ensures
        r is Ok,
        !final(t)@.connections.contains(k@),
        same_but_for(old(t)@, final(t)@, k@),
        old(t)@.connections.contains(k@) ==> {
            &&& are_channels_of(old(t)@.connections.vals[k@], r->Ok_0.cancelled@)
            &&& r->Ok_0.leave matches Some(o) && routing::goes_to(old(t)@, o@, k@)
                && routing::tells(o@.packet, MessageView::PeerLeave { peer_id: old(t)@.local })
        },
        !old(t)@.connections.contains(k@) ==> {
            &&& r->Ok_0.cancelled@.len() == 0
            &&& r->Ok_0.leave is None
            &&& final(t)@ == old(t)@
        },
{
    routing::lemma_tells(MessageView::PeerLeave { peer_id: old(t)@.local });
}

/// A data channel is attached to the connection of its peer, in place of the
/// one that is there, which is to be closed. Nothing else changes.
pub proof fn law_data_channel_is_attached(
    t: &mut TransportManager,
    k: &PeerId,
    channel: u64,
    r: DataChannel,
)
    requires
        call_ensures(TransportManager::register_data_channel, (t, k, channel), r),
    ensures
        old(t)@.connections.contains(k@) ==> {
            &&& r == (DataChannel::Attached { replaced: old(t)@.connections.vals[k@].data })
            &&& final(t)@.connections.contains(k@)
            &&& final(t)@.connections.vals[k@].data == Some(channel)
            &&& final(t)@.connections.vals[k@].control == old(t)@.connections.vals[k@].control
            &&& final(t)@.connections.vals[k@].info == old(t)@.connections.vals[k@].info
            &&& final(t)@.connections.keys == old(t)@.connections.keys
        },
        !old(t)@.connections.contains(k@) ==> r == DataChannel::UnknownPeer && final(t)@
            == old(t)@,
        same_but_for(old(t)@, final(t)@, k@),
{
}

/// A data channel that closes is detached, unless another has taken its
/// place: then that one stays.
pub proof fn law_data_channel_is_detached(t: &mut TransportManager, k: &PeerId, channel: u64)
    requires
        call_ensures(TransportManager::data_channel_closed, (t, k, channel), ()),
    ensures
        final(t)@.connections.contains(k@) == old(t)@.connections.contains(k@),
        final(t)@.connections.keys == old(t)@.connections.keys,
        old(t)@.connections.contains(k@) ==> {
            &&& final(t)@.connections.vals[k@].control == old(t)@.connections.vals[k@].control
            &&& final(t)@.connections.vals[k@].info == old(t)@.connections.vals[k@].info
            &&& final(t)@.connections.vals[k@].data != Some(channel)
            &&& old(t)@.connections.vals[k@].data != Some(channel)
                ==> final(t)@.connections.vals[k@].data == old(t)@.connections.vals[k@].data
            &&& old(t)@.connections.vals[k@].data == Some(channel)
                ==> final(t)@.connections.vals[k@].data is None
        },
        same_but_for(old(t)@, final(t)@, k@),
{
}

/// Does the record of a connected peer become `info`, and nothing else change?
pub open spec fn record_becomes(
    t: TransportView,
    after: TransportView,
    k: Seq<char>,
    info: PeerInfo,
) -> bool {
    &&& same_but_for(t, after, k)
    &&& after.connections.keys == t.connections.keys
    &&& after.connections.contains(k) == t.connections.contains(k)
    &&& t.connections.contains(k) ==> {
        &&& after.connections.vals[k].info == info
        &&& after.connections.vals[k].control == t.connections.vals[k].control
        &&& after.connections.vals[k].data == t.connections.vals[k].data
    }
    &&& !t.connections.contains(k) ==> after == t
}

/// What is noted of a connected peer (its status, whether to restore a lost
/// connection, a sign of life, a round trip time) stands in its record
/// afterwards, and nothing else changes.
pub proof fn law_what_is_noted_of_a_connection(
    a: &mut TransportManager,
    b: &mut TransportManager,
    c: &mut TransportManager,
    d: &mut TransportManager,
    k: &PeerId,
    status: PeerStatus,
    wanted: bool,
    now: u128,
    rtt: u32,
)
    requires
        call_ensures(TransportManager::update_peer_status, (a, k, status), ()),
        call_ensures(TransportManager::set_should_reconnect, (b, k, wanted), ()),
        call_ensures(TransportManager::update_last_seen_at, (c, k, now), ()),
        call_ensures(TransportManager::update_rtt_at, (d, k, rtt, now), ()),
    ensures
        record_becomes(
            old(a)@,
            final(a)@,
            k@,
            PeerInfo { status, ..old(a)@.connections.vals[k@].info },
        ),
        record_becomes(
            old(b)@,
            final(b)@,
            k@,
            PeerInfo { should_reconnect: wanted, ..old(b)@.connections.vals[k@].info },
        ),
        record_becomes(
            old(c)@,
            final(c)@,
            k@,
            PeerInfo { last_seen: now, ..old(c)@.connections.vals[k@].info },
        ),
        record_becomes(
            old(d)@,
            final(d)@,
            k@,
            PeerInfo { rtt_ms: Some(rtt), last_seen: now, ..old(d)@.connections.vals[k@].info },
        ),
{
}

/// What is asked of a connected peer is answered from its record; of any
/// other nothing is known.
pub proof fn law_what_is_known_of_a_connection(
    t: &TransportManager,
    k: &PeerId,
    status: Option<PeerStatus>,
    rtt: Option<u32>,
    addr: Option<String>,
    has_data: bool,
    known: bool,
    needs: Result<bool, NetworkError>,
)
    requires
        call_ensures(TransportManager::get_peer_status, (t, k), status),
        call_ensures(TransportManager::get_peer_rtt, (t, k), rtt),
        call_ensures(TransportManager::get_peer_addr, (t, k), addr),
        call_ensures(TransportManager::has_data_channel, (t, k), has_data),
        call_ensures(TransportManager::has_peer, (t, k), known),
        call_ensures(TransportManager::needs_data_channel, (t, k), needs),
    ensures
        known <==> t@.connections.contains(k@),
        known ==> {
            let c = t@.connections.vals[k@];
            &&& status == Some(c.info.status)
            &&& rtt == c.info.rtt_ms
            &&& addr == Some(c.info.addr)
            &&& has_data <==> c.data is Some
            &&& needs == Ok::<bool, NetworkError>(!has_data)
        },
        !known ==> {
            &&& status is None
            &&& rtt is None
            &&& addr is None
            &&& !has_data
            &&& needs matches Err(NetworkError::PeerNotFound(id)) && id@ == k@
        },
{
}

proof fn lemma_connected(t: TransportView)
    requires
        t.wf(),
    ensures
        forall|k: Seq<char>| #[trigger]
            t.connected().contains(k) <==> t.connections.contains(k)
                && t.connections.vals[k].info.status == PeerStatus::Connected,
        t.connected().no_duplicates(),
{
    let keys = t.connections.keys;
    let pred = |k: Seq<char>| t.connections.vals[k].info.status == PeerStatus::Connected;
    transport::lemma_filter_no_duplicates(keys, pred);
    assert forall|k: Seq<char>| #[trigger] t.connected().contains(k) <==> t.connections.contains(k)
        && t.connections.vals[k].info.status == PeerStatus::Connected by {
        if t.connections.contains(k) && t.connections.vals[k].info.status
            == PeerStatus::Connected {
            assert(keys.contains(k));
            keys.lemma_filter_contains(pred, keys.index_of(k));
        }
        if t.connected().contains(k) {
            let i = t.connected().index_of(k);
            keys.lemma_filter_pred(pred, i);
            keys.lemma_filter_contains_rev(pred, k);
        }
    }
}

/// Is this a list of the names and addresses of exactly the connected peers?
pub open spec fn is_peer_list(t: TransportView, list: Seq<(Seq<char>, Seq<char>)>) -> bool {
    &&& forall|k: Seq<char>|
        #[trigger] t.connections.contains(k) && t.connections.vals[k].info.status
            == PeerStatus::Connected ==> list.contains(
            (k, t.connections.vals[k].info.addr@),
        )
    &&& forall|i: int|
        0 <= i < list.len() ==> {
            &&& t.connections.contains((#[trigger] list[i]).0)
            &&& t.connections.vals[list[i].0].info.status == PeerStatus::Connected
            &&& list[i].1 == t.connections.vals[list[i].0].info.addr@
        }
    &&& forall|i: int, j: int|
        0 <= i < j < list.len() ==> (#[trigger] list[i]).0 != (#[trigger] list[j]).0
}

pub proof fn lemma_sync_list(t: TransportView)
    requires
        t.wf(),
    ensures
        is_peer_list(t, t.sync_list()),
        t.sync_list().len() == 0 <==> forall|k: Seq<char>|
            !(#[trigger] t.connections.contains(k) && t.connections.vals[k].info.status
                == PeerStatus::Connected),
{
    lemma_connected(t);
    let names = t.connected();
    let list = t.sync_list();
    assert forall|i: int| 0 <= i < list.len() implies {
        &&& (#[trigger] list[i]).0 == names[i]
        &&& t.connections.contains(list[i].0)
        &&& t.connections.vals[list[i].0].info.status == PeerStatus::Connected
        &&& list[i].1 == t.connections.vals[list[i].0].info.addr@
    } by {
        assert(names.contains(names[i]));
        assert(t.connections.contains(names[i]));
    }
    assert forall|k: Seq<char>|
        #[trigger] t.connections.contains(k) && t.connections.vals[k].info.status
            == PeerStatus::Connected implies list.contains(
        (k, t.connections.vals[k].info.addr@),
    ) by {
        assert(names.contains(k));
        let i = names.index_of(k);
        assert(list[i] == (k, t.connections.vals[k].info.addr@));
    }
    if list.len() > 0 {
        assert(t.connections.contains(list[0].0));
    }
}

/// The list for a newcomer, and the list of names, hold exactly the connected
/// peers, each of them once.
pub proof fn law_lists_of_connected_peers(
    t: &TransportManager,
    list: Vec<(String, String)>,
    names: Vec<PeerId>,
    k: Seq<char>,
)
    requires
        t.wf(),
        call_ensures(TransportManager::get_peer_list_for_sync, (t,), list),
        call_ensures(TransportManager::get_connected_peer_ids, (t,), names),
    ensures
        is_peer_list(t@, crate::protocol::pairs_view(list@)),
        types::ids_view(names@).contains(k) <==> t@.connections.contains(k)
            && t@.connections.vals[k].info.status == PeerStatus::Connected,
        types::ids_view(names@).no_duplicates(),
{
    t.law_each_peer_has_one_connection();
    lemma_sync_list(t@);
    lemma_connected(t@);
}

/// No more connections are begun once there are as many as are allowed, and
/// before that they are.
pub proof fn law_number_of_connections_is_limited(
    t: &TransportManager,
    full: bool,
    r: Result<(), NetworkError>,
)
    requires
        call_ensures(TransportManager::is_full, (t,), full),
        call_ensures(TransportManager::begin_connect, (t,), r),
    ensures
        full <==> t@.connections.keys.len() >= t@.config.max_connections,
        t@.connections.keys.len() < t@.config.max_connections ==> r is Ok,
        t@.connections.keys.len() >= t@.config.max_connections ==> r == Err::<(), NetworkError>(
            NetworkError::MaxConnectionsReached,
        ),
{
}

/// Does every channel of every connection occur, and no other?
pub open spec fn are_all_channels(t: TransportView, channels: Seq<u64>) -> bool {
    &&& forall|k: Seq<char>| #[trigger]
        t.connections.contains(k) ==> channels.contains(t.connections.vals[k].control) && (
        t.connections.vals[k].data matches Some(d) ==> channels.contains(d))
    &&& forall|i: int|
        0 <= i < channels.len() ==> is_channel_of_somebody(t, #[trigger] channels[i])
}

/// Is this a channel of one of the connections?
pub open spec fn is_channel_of_somebody(t: TransportView, c: u64) -> bool {
    exists|k: Seq<char>| #[trigger]
        t.connections.contains(k) && (t.connections.vals[k].control == c
            || t.connections.vals[k].data == Some(c))
}

proof fn lemma_all_channels(t: TransportView, keys: Seq<Seq<char>>)
    requires
        forall|i: int| 0 <= i < keys.len() ==> t.connections.contains(#[trigger] keys[i]),
    ensures
        ({
            let channels = keys.map_values(
                |k: Seq<char>| t.connections.vals[k].channels(),
            ).flatten();
            &&& forall|i: int|
                0 <= i < keys.len() ==> channels.contains(
                    t.connections.vals[#[trigger] keys[i]].control,
                ) && (t.connections.vals[keys[i]].data matches Some(d) ==> channels.contains(d))
            &&& forall|i: int|
                0 <= i < channels.len() ==> is_channel_of_somebody(t, #[trigger] channels[i])
        }),
    decreases keys.len(),
{
    let f = |k: Seq<char>| t.connections.vals[k].channels();
    let channels = keys.map_values(f).flatten();
    if keys.len() > 0 {
        let before = keys.drop_last();
        let k = keys.last();
        assert forall|i: int| 0 <= i < before.len() implies t.connections.contains(
            #[trigger] before[i],
        ) by {
            assert(before[i] == keys[i]);
        }
        lemma_all_channels(t, before);
        let earlier = before.map_values(f).flatten();
        assert(keys.map_values(f) =~= before.map_values(f).push(f(k)));
        before.map_values(f).lemma_flatten_push(f(k));
        assert(channels == earlier + f(k));
        assert(keys[keys.len() - 1] == k);
        let c = t.connections.vals[k];
        assert(channels[earlier.len() as int] == c.control);
        if c.data is Some {
            assert(channels[earlier.len() as int + 1] == c.data->0);
        }
        assert forall|i: int| 0 <= i < keys.len() implies channels.contains(
            t.connections.vals[#[trigger] keys[i]].control,
        ) && (t.connections.vals[keys[i]].data matches Some(d) ==> channels.contains(d)) by {
            if i < before.len() {
                assert(before[i] == keys[i]);
                let x = t.connections.vals[keys[i]];
                let j = earlier.index_of(x.control);
                assert(channels[j] == x.control);
                if x.data is Some {
                    let l = earlier.index_of(x.data->0);
                    assert(channels[l] == x.data->0);
                }
            }
        }
        assert forall|i: int| 0 <= i < channels.len() implies is_channel_of_somebody(
            t,
            #[trigger] channels[i],
        ) by {
            if i < earlier.len() {
                assert(channels[i] == earlier[i]);
            } else {
                assert(t.connections.contains(k));
                assert(channels[i] == f(k)[i - earlier.len()]);
            }
        }
    } else {
        assert(keys.map_values(f) =~= seq![]);
        assert(channels.len() == 0);
    }
}

pub proof fn lemma_channels_of_all(t: TransportView)
    requires
        t.wf(),
    ensures
        are_all_channels(
            t,
            t.connections.keys.map_values(
                |k: Seq<char>| t.connections.vals[k].channels(),
            ).flatten(),
        ),
{
    let keys = t.connections.keys;
    let channels = keys.map_values(|k: Seq<char>| t.connections.vals[k].channels()).flatten();
    assert forall|i: int| 0 <= i < keys.len() implies t.connections.contains(
        #[trigger] keys[i],
    ) by {
        assert(keys.contains(keys[i]));
    }
    lemma_all_channels(t, keys);
    assert forall|k: Seq<char>| #[trigger] t.connections.contains(k) implies channels.contains(
        t.connections.vals[k].control,
    ) && (t.connections.vals[k].data matches Some(d) ==> channels.contains(d)) by {
        let i = keys.index_of(k);
        assert(keys[i] == k);
    }
}

/// Shutting down drops every connection; the channels to close are those of
/// all of them. To be stopped is all that stopping does.
pub proof fn law_stopping(
    t: &mut TransportManager,
    u: &mut TransportManager,
    channels: Vec<u64>,
)
    requires
        old(u).wf(),
        call_ensures(TransportManager::stop, (t,), ()),
        call_ensures(TransportManager::shutdown, (u,), channels),
    ensures
        final(t)@.stopped,
        final(t)@.connections == old(t)@.connections,
        final(t)@.auto_reconnect == old(t)@.auto_reconnect,
        forall|k: Seq<char>| !#[trigger] final(u)@.connections.contains(k),
        final(u)@.connections.keys.len() == 0,
        are_all_channels(old(u)@, channels@),
        same_settings(old(u)@, final(u)@),
{
    old(u).law_each_peer_has_one_connection();
    lemma_channels_of_all(old(u)@);
}

/// The farewell to all is on its way to every connected peer, under this
/// node's name, if it keeps within the limit.
pub proof fn law_farewell_to_all(t: &TransportManager, r: Vec<Outgoing>)
    requires
        t.wf(),
        call_ensures(TransportManager::broadcast_peer_leave, (t,), r),
    ensures
        wire::message_form(MessageView::PeerLeave { peer_id: t@.local }).len()
            <= t@.config.max_message_size ==> routing::announces(
            t@,
            transport::outgoing_view(r@),
            MessageView::PeerLeave { peer_id: t@.local },
        ),
        wire::message_form(MessageView::PeerLeave { peer_id: t@.local }).len()
            > t@.config.max_message_size ==> r@.len() == 0,
{
    t.law_each_peer_has_one_connection();
    routing::lemma_announces(t@, MessageView::PeerLeave { peer_id: t@.local });
    assert(transport::outgoing_view(r@).len() == r@.len());
}

/// A packet that its queue took is a success; one that it had no room for,
/// or whose channel is closed, is an error that says so.
pub proof fn law_what_a_send_returns(outcome: SendOutcome, r: Result<(), NetworkError>)
    requires
        call_ensures(transport::send_result, (outcome,), r),
    ensures
        outcome == SendOutcome::Queued <==> r is Ok,
        outcome == SendOutcome::Full ==> r == Err::<(), NetworkError>(NetworkError::SendQueueFull),
        outcome == SendOutcome::Closed ==> r matches Err(NetworkError::ConnectionFailed(_)),
{
}

proof fn lemma_failed_peers(sent: Seq<OutgoingView>, outcomes: Seq<SendOutcome>)
    requires
        sent.len() == outcomes.len(),
    ensures
        ({
            let failed = transport::failed_peers(sent, outcomes);
            &&& failed.len() <= sent.len()
            &&& forall|i: int|
                0 <= i < sent.len() && #[trigger] outcomes[i] != SendOutcome::Queued
                    ==> failed.contains((sent[i].peer, outcomes[i]))
            &&& forall|j: int|
                0 <= j < failed.len() ==> failed_at(sent, outcomes, #[trigger] failed[j])
        }),
    decreases sent.len(),
{
    if sent.len() > 0 {
        let (a, b) = (sent.drop_last(), outcomes.drop_last());
        lemma_failed_peers(a, b);
        let before = transport::failed_peers(a, b);
        let failed = transport::failed_peers(sent, outcomes);
        assert forall|i: int|
            0 <= i < sent.len() && #[trigger] outcomes[i] != SendOutcome::Queued implies failed.contains(
            (sent[i].peer, outcomes[i])) by {
            if i < a.len() {
                assert(b[i] == outcomes[i]);
                let j = before.index_of((a[i].peer, b[i]));
                assert(failed[j] == (sent[i].peer, outcomes[i]));
            } else {
                assert(failed[before.len() as int] == (sent[i].peer, outcomes[i]));
            }
        }
        assert forall|j: int| 0 <= j < failed.len() implies failed_at(
            sent,
            outcomes,
            #[trigger] failed[j],
        ) by {
            if j < before.len() {
                assert(failed_at(a, b, before[j]));
                let i = choose|i: int|
                    0 <= i < a.len() && (#[trigger] a[i]).peer == before[j].0 && b[i]
                        == before[j].1 && b[i] != SendOutcome::Queued;
                assert(sent[i].peer == failed[j].0);
            } else {
                assert(sent[sent.len() - 1].peer == failed[j].0);
            }
        }
    }
}

/// Did a packet to this peer fail with this outcome?
pub open spec fn failed_at(
    sent: Seq<OutgoingView>,
    outcomes: Seq<SendOutcome>,
    failure: (Seq<char>, SendOutcome),
) -> bool {
    exists|i: int|
        0 <= i < sent.len() && (#[trigger] sent[i]).peer == failure.0 && outcomes[i] == failure.1
            && outcomes[i] != SendOutcome::Queued
}

/// Of a broadcast exactly the peers are reported whose channel did not take
/// the packet, with the reason.
pub proof fn law_failures_of_a_broadcast_are_reported(
    sent: &Vec<Outgoing>,
    outcomes: &Vec<SendOutcome>,
    r: Vec<(PeerId, NetworkError)>,
)
    requires
        sent@.len() == outcomes@.len(),
        call_ensures(transport::broadcast_errors, (sent, outcomes), r),
    ensures
        forall|i: int|
            0 <= i < sent@.len() && #[trigger] outcomes@[i] != SendOutcome::Queued ==> reported(
                r@,
                sent@[i].peer_id@,
                outcomes@[i],
            ),
        forall|j: int|
            0 <= j < r@.len() ==> is_justified(
                transport::outgoing_view(sent@),
                outcomes@,
                #[trigger] r@[j],
            ),
        r@.len() <= sent@.len(),
{
    let views = transport::outgoing_view(sent@);
    let failed = transport::failed_peers(views, outcomes@);
    lemma_failed_peers(views, outcomes@);
    assert forall|i: int|
        0 <= i < sent@.len() && #[trigger] outcomes@[i] != SendOutcome::Queued implies reported(
        r@,
        sent@[i].peer_id@,
        outcomes@[i],
    ) by {
        assert(views[i].peer == sent@[i].peer_id@);
        let j = failed.index_of((views[i].peer, outcomes@[i]));
        assert(r@[j].0@ == failed[j].0);
    }
    assert forall|j: int| 0 <= j < r@.len() implies is_justified(
        views,
        outcomes@,
        #[trigger] r@[j],
    ) by {
        assert(failed_at(views, outcomes@, failed[j]));
        assert(r@[j].0@ == failed[j].0);
        assert(transport::reports(Err(r@[j].1), failed[j].1));
        let i = choose|i: int|
            0 <= i < views.len() && (#[trigger] views[i]).peer == failed[j].0 && outcomes@[i]
                == failed[j].1 && outcomes@[i] != SendOutcome::Queued;
        assert(views[i].peer == r@[j].0@);
    }
}

/// Does the error name a peer whose channel did not take its packet, and why?
pub open spec fn is_justified(
    sent: Seq<OutgoingView>,
    outcomes: Seq<SendOutcome>,
    error: (PeerId, NetworkError),
) -> bool {
    exists|i: int|
        0 <= i < sent.len() && (#[trigger] sent[i]).peer == error.0@ && match outcomes[i] {
            SendOutcome::Queued => false,
            SendOutcome::Full => error.1 is SendQueueFull,
            SendOutcome::Closed => error.1 is ConnectionFailed,
        }
}

/// Is this failure among the errors?
pub open spec fn reported(
    errors: Seq<(PeerId, NetworkError)>,
    peer: Seq<char>,
    outcome: SendOutcome,
) -> bool {
    exists|j: int|
        0 <= j < errors.len() && (#[trigger] errors[j]).0@ == peer && match outcome {
            SendOutcome::Queued => false,
            SendOutcome::Full => errors[j].1 is SendQueueFull,
            SendOutcome::Closed => errors[j].1 is ConnectionFailed,
        }
}

/// All queues count as drained exactly if each has all of its capacity free,
/// and the wait for it is as long as asked for, but a second at most.
pub proof fn law_draining(
    queues: &Vec<(usize, usize)>,
    drained: bool,
    timeout_ms: u64,
    limit: u64,
)
    requires
        call_ensures(transport::all_drained, (queues,), drained),
        call_ensures(transport::drain_limit_ms, (timeout_ms,), limit),
    ensures
        drained ==> forall|i: int|
            0 <= i < queues@.len() ==> (#[trigger] queues@[i]).0 == queues@[i].1,
        (forall|i: int| 0 <= i < queues@.len() ==> (#[trigger] queues@[i]).0 == queues@[i].1)
            ==> drained,
        limit <= timeout_ms,
        limit <= 1000,
        limit == timeout_ms || limit == 1000,
{
    if drained {
        assert forall|i: int| 0 <= i < queues@.len() implies (#[trigger] queues@[i]).0
            == queues@[i].1 by {
            assert(transport::is_drained(queues@[i]));
        }
    }
}

// --- restoring --------------------------------------------------------------
/// Restoring begins with the wait that is configured; an attempt is made
/// after a wait only while restoring is switched on, and a connection that
/// stands again ends it.
pub proof fn law_restoring_begins_and_ends(
    config: &NetworkConfig,
    c: Reconnect,
    first: ReconnectStep,
    enabled: bool,
    then: ReconnectStep,
    done: ReconnectStep,
)
    requires
        call_ensures(Reconnect::new, (config,), c),
        call_ensures(Reconnect::next_step, (&c,), first),
        call_ensures(Reconnect::delay_elapsed, (&c, enabled), then),
        call_ensures(Reconnect::connected, (&c,), done),
    ensures
        first == (ReconnectStep::Wait { delay_ms: config.reconnect_initial_ms }),
        enabled ==> then == ReconnectStep::Connect,
        !enabled ==> then == (ReconnectStep::Stop { event: ReconnectEvent::Exhausted }),
        done == (ReconnectStep::Stop { event: ReconnectEvent::Reconnected }),
        c@.attempts == 0,
        c@.max_ms == config.reconnect_max_ms,
        c@.max_retries == config.reconnect_max_retries,
{
}

/// After a failed attempt the next wait is twice as long, but the longest at
/// most; with a limit set, restoring ends with the failed attempt that
/// reaches it, and without one it goes on for ever.
pub proof fn law_failed_attempt(c: &mut Reconnect, r: ReconnectStep)
    requires
        call_ensures(Reconnect::attempt_failed, (c,), r),
    ensures
        old(c)@.max_retries > 0 && old(c)@.attempts + 1 >= old(c)@.max_retries ==> r == (
        ReconnectStep::Stop { event: ReconnectEvent::Exhausted }),
        old(c)@.max_retries == 0 || old(c)@.attempts + 1 < old(c)@.max_retries ==> {
            &&& r == (ReconnectStep::Wait { delay_ms: final(c)@.delay_ms })
            &&& 2 * old(c)@.delay_ms <= old(c)@.max_ms ==> final(c)@.delay_ms == 2
                * old(c)@.delay_ms
            &&& 2 * old(c)@.delay_ms > old(c)@.max_ms ==> final(c)@.delay_ms == old(c)@.max_ms
        },
        old(c)@.attempts < 255 ==> final(c)@.attempts == old(c)@.attempts + 1,
        old(c)@.attempts == 255 ==> final(c)@.attempts == 255,
        final(c)@.max_ms == old(c)@.max_ms,
        final(c)@.max_retries == old(c)@.max_retries,
{
}

} // verus!
