//! Promises of the table of members: who is listed, with what record, who
//! counts as connected and who has timed out.

use vstd::prelude::*;

use crate::error::NetworkError;
use crate::membership::{EventView, MembershipManager, MembershipView};
use crate::peer_map::PeerTable;
use crate::types::{self, PeerId, PeerInfo, PeerStatus};

verus! {

/// Mapping a key to a value does that and nothing else: the key is there with
/// the value, every other key is as it was, and a new key comes last.
pub proof fn law_put<V>(t: PeerTable<V>, k: Seq<char>, v: V, other: Seq<char>)
    ensures
        t.put(k, v).contains(k),
        t.put(k, v).vals[k] == v,
        t.put(k, v).get(k) == Some(v),
        other != k ==> t.put(k, v).contains(other) == t.contains(other) && t.put(k, v).get(other)
            == t.get(other),
        t.contains(k) ==> t.put(k, v).keys == t.keys,
        !t.contains(k) ==> t.put(k, v).keys =~= t.keys + seq![k],
{
}

/// Removing a key does that and nothing else: the others stay, with their
/// values and in their order.
pub proof fn law_without<V>(t: PeerTable<V>, k: Seq<char>, other: Seq<char>)
    requires
        t.wf(),
    ensures
        !t.without(k).contains(k),
        t.without(k).get(k) is None,
        other != k ==> t.without(k).contains(other) == t.contains(other) && t.without(k).get(
            other,
        ) == t.get(other),
        !t.contains(k) ==> t.without(k) == t,
        t.contains(k) ==> exists|i: int|
            0 <= i < t.keys.len() && t.keys[i] == k && #[trigger] t.keys.remove(i)
                == t.without(k).keys,
{
    if t.contains(k) {
        assert(t.keys.contains(k));
        let i = t.keys.index_of(k);
        assert(t.keys.remove(i) == t.without(k).keys);
    }
}

/// Is the table of members, but for the record of `k` and the events that
/// wait, the same?
pub open spec fn same_but_for(s: MembershipView, after: MembershipView, k: Seq<char>) -> bool {
    &&& after.local == s.local
    &&& after.config == s.config
    &&& after.clock == s.clock
    &&& forall|x: Seq<char>|
        x != k ==> #[trigger] after.peers.contains(x) == s.peers.contains(x)
            && after.peers.vals[x] == s.peers.vals[x]
}

/// A peer that is not listed yet is listed last, as connected and heard of
/// just now, and its joining is an event. One that is listed is refused, and
/// nothing changes.
pub proof fn law_peer_is_added(
    m: &mut MembershipManager,
    k: PeerId,
    addr: String,
    now: u128,
    r: Result<(), NetworkError>,
)
    requires
        call_ensures(MembershipManager::add_peer_at, (m, k, addr, now), r),
    ensures
        !old(m)@.peers.contains(k@) ==> {
            &&& r is Ok
            &&& final(m)@.peers.contains(k@)
            &&& final(m)@.peers.vals[k@].peer_id@ == k@
            &&& final(m)@.peers.vals[k@].addr == addr
            &&& final(m)@.peers.vals[k@].status == PeerStatus::Connected
            &&& final(m)@.peers.vals[k@].last_seen == now
            &&& final(m)@.peers.vals[k@].connected_at == now
            &&& final(m)@.peers.vals[k@].rtt_ms is None
            &&& final(m)@.peers.vals[k@].should_reconnect
            &&& final(m)@.peers.keys =~= old(m)@.peers.keys + seq![k@]
            &&& final(m)@.events.last() == EventView::Joined(k@)
            &&& old(m)@.events.len() < 256 ==> final(m)@.events =~= old(m)@.events + seq![
                EventView::Joined(k@),
            ]
        },
        old(m)@.peers.contains(k@) ==> {
            &&& r matches Err(NetworkError::DuplicatePeerId(id)) && id@ == k@
            &&& final(m)@ == old(m)@
        },
        same_but_for(old(m)@, final(m)@, k@),
{
}

/// A listed peer that is removed is listed no more, and its leaving is an
/// event. To remove one that is not listed changes nothing.
pub proof fn law_peer_is_removed(m: &mut MembershipManager, k: &PeerId)
    requires
        call_ensures(MembershipManager::remove_peer, (m, k), ()),
    ensures
        !final(m)@.peers.contains(k@),
        old(m)@.peers.contains(k@) ==> {
            &&& final(m)@.events.last() == EventView::Left(k@)
            &&& old(m)@.events.len() < 256 ==> final(m)@.events =~= old(m)@.events + seq![
                EventView::Left(k@),
            ]
        },
        !old(m)@.peers.contains(k@) ==> final(m)@ == old(m)@,
        same_but_for(old(m)@, final(m)@, k@),
{
}

/// The status of a listed peer is what it was set to, and a change is an
/// event with both statuses. Nothing else in its record changes, and nothing
/// happens where the peer is not listed or the status is the same.
pub proof fn law_status_is_set(m: &mut MembershipManager, k: &PeerId, status: PeerStatus)
    requires
        call_ensures(MembershipManager::update_status, (m, k, status), ()),
    ensures
        final(m)@.peers.contains(k@) == old(m)@.peers.contains(k@),
        final(m)@.peers.keys == old(m)@.peers.keys,
        old(m)@.peers.contains(k@) ==> final(m)@.peers.vals[k@] == (PeerInfo {
            status,
            ..old(m)@.peers.vals[k@]
        }),
        old(m)@.peers.contains(k@) && old(m)@.peers.vals[k@].status != status ==> {
            let e = EventView::StatusChanged {
                peer_id: k@,
                old: old(m)@.peers.vals[k@].status,
                new: status,
            };
            &&& final(m)@.events.last() == e
            &&& old(m)@.events.len() < 256 ==> final(m)@.events =~= old(m)@.events + seq![e]
        },
        !old(m)@.peers.contains(k@) || old(m)@.peers.vals[k@].status == status ==> final(m)@
            == old(m)@,
        same_but_for(old(m)@, final(m)@, k@),
{
}

/// A sign of life of a listed peer is remembered with its time; an answer to
/// a ping also with how long it took, which is the time since the ping and
/// never negative. Neither is an event, nor does it change anything else.
pub proof fn law_signs_of_life_are_remembered(
    m: &mut MembershipManager,
    n: &mut MembershipManager,
    k: &PeerId,
    sent: u64,
    now_ms: u64,
    now: u128,
)
    requires
        call_ensures(MembershipManager::update_last_seen_at, (m, k, now), ()),
        call_ensures(MembershipManager::handle_pong_at, (n, k, sent, now_ms, now), ()),
    ensures
        old(m)@.peers.contains(k@) ==> final(m)@.peers.vals[k@] == (PeerInfo {
            last_seen: now,
            ..old(m)@.peers.vals[k@]
        }),
        !old(m)@.peers.contains(k@) ==> final(m)@ == old(m)@,
        final(m)@.peers.keys == old(m)@.peers.keys,
        final(m)@.peers.contains(k@) == old(m)@.peers.contains(k@),
        final(m)@.events == old(m)@.events,
        same_but_for(old(m)@, final(m)@, k@),
        old(n)@.peers.contains(k@) ==> {
            let info = final(n)@.peers.vals[k@];
            &&& info == (PeerInfo {
                last_seen: now,
                rtt_ms: info.rtt_ms,
                ..old(n)@.peers.vals[k@]
            })
            &&& info.rtt_ms matches Some(rtt) && (sent <= now_ms <= sent + u32::MAX ==> rtt
                == now_ms - sent) && (now_ms < sent ==> rtt == 0)
        },
        !old(n)@.peers.contains(k@) ==> final(n)@ == old(n)@,
        final(n)@.peers.keys == old(n)@.peers.keys,
        final(n)@.peers.contains(k@) == old(n)@.peers.contains(k@),
        final(n)@.events == old(n)@.events,
        same_but_for(old(n)@, final(n)@, k@),
{
}

pub proof fn lemma_names_where(m: MembershipView, p: spec_fn(PeerInfo) -> bool)
    requires
        m.peers.wf(),
    ensures
        forall|k: Seq<char>| #[trigger]
            m.names_where(p).contains(k) <==> m.peers.contains(k) && p(m.peers.vals[k]),
        m.names_where(p).no_duplicates(),
        m.names_where(p).len() <= m.peers.keys.len(),
{
    let keys = m.peers.keys;
    let pred = |x: Seq<char>| p(m.peers.vals[x]);
    keys.lemma_filter_len(pred);
    crate::transport::lemma_filter_no_duplicates(keys, pred);
    assert forall|k: Seq<char>| #[trigger] m.names_where(p).contains(k) <==> m.peers.contains(k)
        && p(m.peers.vals[k]) by {
        if m.peers.contains(k) && p(m.peers.vals[k]) {
            assert(keys.contains(k));
            keys.lemma_filter_contains(pred, keys.index_of(k));
        }
        if keys.filter(pred).contains(k) {
            let i = keys.filter(pred).index_of(k);
            keys.lemma_filter_pred(pred, i);
            keys.lemma_filter_contains_rev(pred, k);
        }
    }
}

/// The list of connected peers names exactly the listed peers that are marked
/// as connected, each of them once, and their count is that of the list.
pub proof fn law_who_counts_as_connected(
    m: &MembershipManager,
    names: Vec<PeerId>,
    count: usize,
    k: Seq<char>,
)
    requires
        m.wf(),
        call_ensures(MembershipManager::get_connected_peers, (m,), names),
        call_ensures(MembershipManager::get_connected_peer_count, (m,), count),
    ensures
        types::ids_view(names@).contains(k) <==> m@.peers.contains(k) && m@.peers.vals[k].status
            == PeerStatus::Connected,
        types::ids_view(names@).no_duplicates(),
        count == names@.len(),
{
    m.law_each_peer_is_listed_once();
    lemma_names_where(m@, |i: PeerInfo| crate::membership::is_connected(i));
    assert(types::ids_view(names@).len() == names@.len());
}

/// The list of all peers holds exactly the records of the listed ones, in the
/// order in which they joined.
pub proof fn law_list_is_complete(m: &MembershipManager, r: Vec<PeerInfo>)
    requires
        m.wf(),
        call_ensures(MembershipManager::get_peer_list, (m,), r),
    ensures
        r@.len() == m@.peers.keys.len(),
        forall|i: int|
            0 <= i < r@.len() ==> #[trigger] r@[i] == m@.peers.vals[m@.peers.keys[i]],
        forall|k: Seq<char>| #[trigger] m@.peers.contains(k) ==> r@.contains(m@.peers.vals[k]),
{
    m.law_each_peer_is_listed_once();
    assert forall|k: Seq<char>| #[trigger] m@.peers.contains(k) implies r@.contains(
        m@.peers.vals[k],
    ) by {
        let i = m@.peers.keys.index_of(k);
        assert(r@[i] == m@.peers.vals[k]);
    }
}

/// Has a peer with this record, connected, been silent for longer than so
/// many heartbeat intervals as the configuration allows? Intervals are
/// milliseconds, the times of the record and `now` nanoseconds.
pub open spec fn is_silent(m: MembershipView, info: PeerInfo, now: u128) -> bool {
    &&& info.status == PeerStatus::Connected
    &&& now > info.last_seen + m.config.heartbeat_interval_ms
        * m.config.heartbeat_timeout_multiplier * 1_000_000
}

pub proof fn lemma_overdue_is_silent(m: MembershipView, now: u128)
    requires
        m.peers.wf(),
    ensures
        forall|k: Seq<char>| #[trigger]
            m.overdue(now).contains(k) <==> m.peers.contains(k) && is_silent(
                m,
                m.peers.vals[k],
                now,
            ),
        m.overdue(now).no_duplicates(),
        m.overdue(now).len() <= m.peers.keys.len(),
{
    let h = m.config.heartbeat_interval_ms;
    let x = m.config.heartbeat_timeout_multiplier;
    assert(h * x >= 0) by (nonlinear_arith)
        requires
            h >= 0,
            x >= 0,
    ;
    lemma_names_where(m, |i: PeerInfo| m.is_overdue(i, now));
}

/// Exactly the connected peers that have been silent for too long have timed
/// out, each of them named once.
pub proof fn law_who_has_timed_out(
    m: &MembershipManager,
    now: u128,
    r: Vec<PeerId>,
    k: Seq<char>,
)
    requires
        m.wf(),
        call_ensures(MembershipManager::check_timeouts_at, (m, now), r),
    ensures
        types::ids_view(r@).contains(k) <==> m@.peers.contains(k) && is_silent(
            m@,
            m@.peers.vals[k],
            now,
        ),
        types::ids_view(r@).no_duplicates(),
{
    m.law_each_peer_is_listed_once();
    lemma_overdue_is_silent(m@, now);
}

} // verus!
