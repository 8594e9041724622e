//! Membership table: which peers are known, in what state they are and when
//! they were last heard of.

use vstd::prelude::*;

use crate::clock::{self, Clock};
use crate::config::NetworkConfig;
use crate::error::NetworkError;
use crate::peer_map::{self, PeerMap, PeerTable};
use crate::types::{self, PeerId, PeerInfo, PeerStatus};

verus! {

/// A change in the membership table.
#[derive(Debug)]
pub enum MembershipEvent {
    Joined(PeerId),
    Left(PeerId),
    StatusChanged { peer_id: PeerId, old: PeerStatus, new: PeerStatus },
}

/// The value of a [`MembershipEvent`].
#[verifier::ext_equal]
pub enum EventView {
    Joined(Seq<char>),
    Left(Seq<char>),
    StatusChanged { peer_id: Seq<char>, old: PeerStatus, new: PeerStatus },
}

impl View for MembershipEvent {
    type V = EventView;

    open spec fn view(&self) -> EventView {
        match *self {
            MembershipEvent::Joined(p) => EventView::Joined(p@),
            MembershipEvent::Left(p) => EventView::Left(p@),
            MembershipEvent::StatusChanged { peer_id, old, new } => EventView::StatusChanged {
                peer_id: peer_id@,
                old,
                new,
            },
        }
    }
}

impl Clone for MembershipEvent {
    fn clone(&self) -> (r: Self)
        ensures
            r == *self,
    {
        match self {
            Self::Joined(p) => Self::Joined(p.clone()),
            Self::Left(p) => Self::Left(p.clone()),
            Self::StatusChanged { peer_id, old, new } => Self::StatusChanged {
                peer_id: peer_id.clone(),
                old: *old,
                new: *new,
            },
        }
    }
}

/// The values of a list of events.
pub open spec fn events_view(e: Seq<MembershipEvent>) -> Seq<EventView> {
    e.map_values(|x: MembershipEvent| x@)
}

/// How many events wait to be handed on at most.
pub const EVENT_CAPACITY: usize = 256;

/// The newest of a sequence of events, as many as there is room for.
pub open spec fn newest(e: Seq<EventView>) -> Seq<EventView> {
    if e.len() <= EVENT_CAPACITY {
        e
    } else {
        e.skip(e.len() - EVENT_CAPACITY)
    }
}

/// What asking for the next event gives.
#[derive(Debug)]
pub enum Received {
    /// The oldest event that waits.
    Event(MembershipEvent),
    /// Events were lost since the last time, because too many waited.
    Lagged,
    /// No event waits.
    Empty,
}

/// The wall clock in milliseconds since the Unix epoch.
pub fn current_timestamp_ms() -> (r: u64)
    ensures
        exists|since_epoch: Option<u128>| r == #[trigger] clock::timestamp(since_epoch),
{
    clock::wall_clock_ms()
}

/// The value of a [`MembershipManager`].
#[verifier::ext_equal]
pub struct MembershipView {
    /// This node's name.
    pub local: Seq<char>,
    pub peers: PeerTable<PeerInfo>,
    pub config: NetworkConfig,
    /// The clock that the times of the records were read from.
    pub clock: Clock,
    /// The changes that were not yet handed on, oldest first.
    pub events: Seq<EventView>,
    /// Were changes lost that nobody was told of yet?
    pub lagged: bool,
}

/// Is this the record of a connected peer?
pub open spec fn is_connected(info: PeerInfo) -> bool {
    info.status == PeerStatus::Connected
}

impl MembershipView {
    /// A table without peers.
    pub open spec fn initial(local: Seq<char>, config: NetworkConfig, clock: Clock) -> Self {
        MembershipView {
            local,
            peers: PeerTable::empty(),
            config,
            clock,
            events: Seq::empty(),
            lagged: false,
        }
    }

    /// The names of the peers whose records satisfy `p`, in the order in
    /// which they joined.
    pub open spec fn names_where(self, p: spec_fn(PeerInfo) -> bool) -> Seq<Seq<char>> {
        self.peers.keys.filter(|k: Seq<char>| p(self.peers.vals[k]))
    }

    /// The names of the connected peers.
    pub open spec fn connected(self) -> Seq<Seq<char>> {
        self.names_where(|i: PeerInfo| is_connected(i))
    }

    /// The time (ns) after which a silent peer has timed out.
    pub open spec fn timeout_ns(self) -> nat {
        (self.config.heartbeat_interval_ms * self.config.heartbeat_timeout_multiplier
            * 1_000_000) as nat
    }

    /// Has a connected peer not been heard of for too long at time `now`?
    pub open spec fn is_overdue(self, info: PeerInfo, now: u128) -> bool {
        is_connected(info) && now - info.last_seen > self.timeout_ns()
    }

    /// The names of the peers that have timed out at time `now`.
    pub open spec fn overdue(self, now: u128) -> Seq<Seq<char>> {
        self.names_where(|i: PeerInfo| self.is_overdue(i, now))
    }

    /// The state with the record `info` for the peer `k`.
    pub open spec fn with_info(self, k: Seq<char>, info: PeerInfo) -> Self {
        MembershipView { peers: self.peers.put(k, info), ..self }
    }

    /// The state with one more event. Where there is no room for it, the
    /// oldest one is lost.
    pub open spec fn with_event(self, e: EventView) -> Self {
        MembershipView {
            events: newest(self.events.push(e)),
            lagged: self.lagged || self.events.len() >= EVENT_CAPACITY,
            ..self
        }
    }

    /// The state with more events, one after the other.
    pub open spec fn with_events(self, events: Seq<EventView>) -> Self
        decreases events.len(),
    {
        if events.len() == 0 {
            self
        } else {
            self.with_events(events.drop_last()).with_event(events.last())
        }
    }

    /// The state after all events were handed on.
    pub open spec fn drained(self) -> Self {
        MembershipView { events: Seq::empty(), lagged: false, ..self }
    }

    /// The state after a peer was removed.
    pub open spec fn removed(self, k: Seq<char>) -> Self {
        if self.peers.contains(k) {
            (MembershipView { peers: self.peers.without(k), ..self }).with_event(EventView::Left(k))
        } else {
            self
        }
    }

    /// The state after a peer's status was set.
    pub open spec fn status_set(self, k: Seq<char>, status: PeerStatus) -> Self {
        if self.peers.contains(k) && self.peers.vals[k].status != status {
            self.with_info(k, PeerInfo { status, ..self.peers.vals[k] }).with_event(
                EventView::StatusChanged {
                    peer_id: k,
                    old: self.peers.vals[k].status,
                    new: status,
                },
            )
        } else {
            self
        }
    }

    /// The state after a sign of life of a peer at time `now`.
    pub open spec fn touched(self, k: Seq<char>, now: u128) -> Self {
        if self.peers.contains(k) {
            self.with_info(k, PeerInfo { last_seen: now, ..self.peers.vals[k] })
        } else {
            self
        }
    }

    /// The state after an answer to a ping: the round trip took `rtt`.
    pub open spec fn answered(self, k: Seq<char>, rtt: u32, now: u128) -> Self {
        if self.peers.contains(k) {
            self.with_info(
                k,
                PeerInfo { rtt_ms: Some(rtt), last_seen: now, ..self.peers.vals[k] },
            )
        } else {
            self
        }
    }

    /// The record of the peer `k`.
    pub open spec fn info(self, k: Seq<char>) -> Option<PeerInfo> {
        self.peers.get(k)
    }
}

/// Keeps track of the known peers.
///
/// Changes are collected as events; whoever drives the node takes them with
/// [`MembershipManager::next_event`] or [`MembershipManager::take_events`]
/// and hands them on. Who is slow to do so loses the oldest ones; the table
/// itself is always complete.
pub struct MembershipManager {
    local_peer_id: PeerId,
    peers: PeerMap<PeerInfo>,
    config: NetworkConfig,
    clock: Clock,
    events: Vec<MembershipEvent>,
    lagged: bool,
}

impl View for MembershipManager {
    type V = MembershipView;

    closed spec fn view(&self) -> MembershipView {
        MembershipView {
            local: self.local_peer_id@,
            peers: self.peers@,
            config: self.config,
            clock: self.clock,
            events: events_view(self.events@),
            lagged: self.lagged,
        }
    }
}

impl MembershipManager {
    /// Is the table of peers well-formed, and is there room for the events?
    pub closed spec fn wf(&self) -> bool {
        &&& self.peers.wf()
        &&& self.events@.len() <= EVENT_CAPACITY
    }

    /// A table without peers.
    pub fn new(local_peer_id: PeerId, config: NetworkConfig) -> (r: Self)
        ensures
            r.wf(),
            exists|clock: Clock|
                r@ == #[trigger] MembershipView::initial(local_peer_id@, config, clock),
    {
        Self::with_clock(local_peer_id, config, Clock::new())
    }

    /// A table without peers that goes by the given clock.
    pub fn with_clock(local_peer_id: PeerId, config: NetworkConfig, clock: Clock) -> (r: Self)
        ensures
            r.wf(),
            r@ == MembershipView::initial(local_peer_id@, config, clock),
    {
        let r = Self {
            local_peer_id,
            peers: PeerMap::new(),
            config,
            clock,
            events: Vec::new(),
            lagged: false,
        };
        assert(r@.events =~= Seq::<EventView>::empty());
        r
    }

    /// This node's name.
    pub fn local_peer_id(&self) -> (r: &PeerId)
        ensures
            r@ == self@.local,
    {
        &self.local_peer_id
    }

    /// In every state no peer is listed twice, and exactly the listed peers
    /// have a record.
    pub proof fn law_each_peer_is_listed_once(&self)
        requires
            self.wf(),
        ensures
            self@.peers.wf(),
    {
        self.peers.lemma_view_wf();
    }

    /// In every state, no more events wait than there is room for.
    pub proof fn law_events_are_bounded(&self)
        requires
            self.wf(),
        ensures
            self@.events.len() <= EVENT_CAPACITY,
    {
    }

    /// Take the oldest event that waits. Where events were lost since the
    /// last time, that is told first.
    pub fn next_event(&mut self) -> (r: Received)
        requires
            old(self).wf(),
        ensures
            final(self).wf(),
            match r {
                Received::Event(e) => {
                    &&& !old(self)@.lagged
                    &&& old(self)@.events.len() > 0
                    &&& e@ == old(self)@.events[0]
                    &&& final(self)@ == (MembershipView {
                        events: old(self)@.events.skip(1),
                        ..old(self)@
                    })
                },
                Received::Lagged => {
                    &&& old(self)@.lagged
                    &&& final(self)@ == (MembershipView { lagged: false, ..old(self)@ })
                },
                Received::Empty => {
                    &&& !old(self)@.lagged
                    &&& old(self)@.events.len() == 0
                    &&& final(self)@ == old(self)@
                },
            },
    {
        if self.lagged {
            self.lagged = false;
            return Received::Lagged;
        }
        if self.events.len() == 0 {
            return Received::Empty;
        }
        let e = self.events.remove(0);
        assert(self@.events =~= old(self)@.events.skip(1));
        Received::Event(e)
    }

    /// Take all events that wait.
    pub fn take_events(&mut self) -> (r: Vec<MembershipEvent>)
        requires
            old(self).wf(),
        ensures
            final(self).wf(),
            events_view(r@) == old(self)@.events,
            final(self)@ == old(self)@.drained(),
    {
        let mut taken: Vec<MembershipEvent> = Vec::new();
        std::mem::swap(&mut taken, &mut self.events);
        self.lagged = false;
        assert(self@.events =~= Seq::<EventView>::empty());
        taken
    }

    fn emit(&mut self, e: MembershipEvent)
        requires
            old(self).wf(),
        ensures
            final(self).wf(),
            final(self)@ == old(self)@.with_event(e@),
    {
        if self.events.len() >= EVENT_CAPACITY {
            self.events.remove(0);
            self.lagged = true;
        }
        self.events.push(e);
        assert(self@.events =~= newest(old(self)@.events.push(e@)));
    }

    /// Add a peer that has connected at time `now`. A peer that is known
    /// already is refused.
    pub fn add_peer_at(&mut self, peer_id: PeerId, addr: String, now: u128) -> (r: Result<
        (),
        NetworkError,
    >)
        requires
            old(self).wf(),
        ensures
            final(self).wf(),
            match r {
                Ok(()) => {
                    &&& !old(self)@.peers.contains(peer_id@)
                    &&& final(self)@ == old(self)@.with_info(
                        peer_id@,
                        (PeerInfo {
                            peer_id,
                            addr,
                            status: PeerStatus::Connected,
                            last_seen: now,
                            rtt_ms: None,
                            connected_at: now,
                            should_reconnect: true,
                        }),
                    ).with_event(EventView::Joined(peer_id@))
                },
                Err(NetworkError::DuplicatePeerId(id)) => {
                    &&& old(self)@.peers.contains(peer_id@)
                    &&& id@ == peer_id@
                    &&& final(self)@ == old(self)@
                },
                Err(_) => false,
            },
    {
        if self.peers.contains(&peer_id) {
            return Err(NetworkError::DuplicatePeerId(peer_id.to_string()));
        }
        let info = PeerInfo::new(peer_id.clone(), addr, now);
        self.peers.insert(peer_id.clone(), info);
        self.emit(MembershipEvent::Joined(peer_id));
        Ok(())
    }

    /// Add a peer that has connected now. A peer that is known already is
    /// refused.
    pub fn add_peer(&mut self, peer_id: PeerId, addr: String) -> (r: Result<(), NetworkError>)
        requires
            old(self).wf(),
        ensures
            final(self).wf(),
            match r {
                Ok(()) => {
                    &&& !old(self)@.peers.contains(peer_id@)
                    &&& exists|now: u128|
                        final(self)@ == #[trigger] old(self)@.with_info(
                            peer_id@,
                            (PeerInfo {
                                peer_id,
                                addr,
                                status: PeerStatus::Connected,
                                last_seen: now,
                                rtt_ms: None,
                                connected_at: now,
                                should_reconnect: true,
                            }),
                        ).with_event(EventView::Joined(peer_id@))
                },
                Err(NetworkError::DuplicatePeerId(id)) => {
                    &&& old(self)@.peers.contains(peer_id@)
                    &&& id@ == peer_id@
                    &&& final(self)@ == old(self)@
                },
                Err(_) => false,
            },
    {
        let now: u128 = self.clock.now();
        self.add_peer_at(peer_id, addr, now)
    }

    /// Remove a peer; nothing happens where it is not known.
    pub fn remove_peer(&mut self, peer_id: &PeerId)
        requires
            old(self).wf(),
        ensures
            final(self).wf(),
            final(self)@ == old(self)@.removed(peer_id@),
    {
        if self.peers.remove(peer_id).is_some() {
            self.emit(MembershipEvent::Left(peer_id.clone()));
        }
    }

    /// Set a peer's status; only a change counts.
    pub fn update_status(&mut self, peer_id: &PeerId, new_status: PeerStatus)
        requires
            old(self).wf(),
        ensures
            final(self).wf(),
            final(self)@ == old(self)@.status_set(peer_id@, new_status),
    {
        let current = match self.peers.get(peer_id) {
            Some(info) => info.status,
            None => {
                return;
            },
        };
        if current != new_status {
            if let Some(info) = self.peers.get_mut(peer_id) {
                info.status = new_status;
            }
            self.emit(
                MembershipEvent::StatusChanged {
                    peer_id: peer_id.clone(),
                    old: current,
                    new: new_status,
                },
            );
        }
    }

    /// Is the peer known?
    pub fn has_peer(&self, peer_id: &PeerId) -> (r: bool)
        requires
            self.wf(),
        ensures
            r == self@.peers.contains(peer_id@),
    {
        self.peers.contains(peer_id)
    }

    /// The records of all peers, in the order in which they joined.
    pub fn get_peer_list(&self) -> (r: Vec<PeerInfo>)
        requires
            self.wf(),
        ensures
            r@ == self@.peers.keys.map_values(|k: Seq<char>| self@.peers.vals[k]),
    {
        let mut list: Vec<PeerInfo> = Vec::new();
        let mut i: usize = 0;
        while i < self.peers.len()
            invariant
                self.wf(),
                i <= self@.peers.len(),
                list@ == self@.peers.keys.take(i as int).map_values(
                    |k: Seq<char>| self@.peers.vals[k],
                ),
            decreases self@.peers.len() - i,
        {
            list.push(self.peers.value_at(i).clone());
            i = i + 1;
        }
        assert(self@.peers.keys.take(i as int) =~= self@.peers.keys);
        list
    }

    /// The names of the connected peers, in the order in which they joined.
    pub fn get_connected_peers(&self) -> (r: Vec<PeerId>)
        requires
            self.wf(),
        ensures
            types::ids_view(r@) == self@.connected(),
    {
        let mut list: Vec<PeerId> = Vec::new();
        let mut i: usize = 0;
        let ghost keys = self@.peers.keys;
        let ghost p = |k: Seq<char>| (|x: PeerInfo| is_connected(x))(self@.peers.vals[k]);
        proof {
            peer_map::lemma_filter_ends(keys, p);
            assert(types::ids_view(list@) =~= Seq::<Seq<char>>::empty());
        }
        while i < self.peers.len()
            invariant
                self.wf(),
                keys == self@.peers.keys,
                p == (|k: Seq<char>| (|x: PeerInfo| is_connected(x))(self@.peers.vals[k])),
                i <= keys.len(),
                types::ids_view(list@) == keys.take(i as int).filter(p),
            decreases keys.len() - i,
        {
            proof {
                peer_map::lemma_filter_step(keys, i as int, p);
            }
            let ghost before = list@;
            if self.peers.value_at(i).status == PeerStatus::Connected {
                list.push(self.peers.key_at(i).clone());
                assert(types::ids_view(list@) =~= types::ids_view(before).push(keys[i as int]));
            }
            i = i + 1;
        }
        proof {
            peer_map::lemma_filter_ends(keys, p);
        }
        list
    }

    /// The last measured round trip time of a peer.
    pub fn get_peer_rtt(&self, peer_id: &PeerId) -> (r: Option<u32>)
        requires
            self.wf(),
        ensures
            r == (match self@.info(peer_id@) {
                Some(info) => info.rtt_ms,
                None => None,
            }),
    {
        match self.peers.get(peer_id) {
            Some(info) => info.rtt_ms,
            None => None,
        }
    }

    /// The status of a peer.
    pub fn get_peer_status(&self, peer_id: &PeerId) -> (r: Option<PeerStatus>)
        requires
            self.wf(),
        ensures
            r == (match self@.info(peer_id@) {
                Some(info) => Some(info.status),
                None => None,
            }),
    {
        match self.peers.get(peer_id) {
            Some(info) => Some(info.status),
            None => None,
        }
    }

    /// How many peers are connected.
    pub fn get_connected_peer_count(&self) -> (r: usize)
        requires
            self.wf(),
        ensures
            r == self@.connected().len(),
    {
        let mut count: usize = 0;
        let mut i: usize = 0;
        let ghost keys = self@.peers.keys;
        let ghost p = |k: Seq<char>| (|x: PeerInfo| is_connected(x))(self@.peers.vals[k]);
        proof {
            peer_map::lemma_filter_ends(keys, p);
        }
        while i < self.peers.len()
            invariant
                self.wf(),
                keys == self@.peers.keys,
                p == (|k: Seq<char>| (|x: PeerInfo| is_connected(x))(self@.peers.vals[k])),
                i <= keys.len(),
                count <= i,
                count == keys.take(i as int).filter(p).len(),
            decreases keys.len() - i,
        {
            proof {
                peer_map::lemma_filter_step(keys, i as int, p);
            }
            if self.peers.value_at(i).status == PeerStatus::Connected {
                count = count + 1;
            }
            i = i + 1;
        }
        proof {
            peer_map::lemma_filter_ends(keys, p);
        }
        count
    }

    /// Take in the answer to a ping that was sent at `sent_timestamp_ms`; the
    /// wall clock shows `now_ms`, the monotonic one `now`.
    pub fn handle_pong_at(
        &mut self,
        peer_id: &PeerId,
        sent_timestamp_ms: u64,
        now_ms: u64,
        now: u128,
    )
        requires
            old(self).wf(),
        ensures
            final(self).wf(),
            final(self)@ == old(self)@.answered(
                peer_id@,
                clock::round_trip(now_ms, sent_timestamp_ms),
                now,
            ),
    {
        let rtt: u32 = clock::round_trip_ms(now_ms, sent_timestamp_ms);
        if let Some(info) = self.peers.get_mut(peer_id) {
            info.rtt_ms = Some(rtt);
            info.last_seen = now;
        }
    }

    /// Take in the answer to a ping that was sent at `sent_timestamp_ms`.
    pub fn handle_pong(&mut self, peer_id: &PeerId, sent_timestamp_ms: u64)
        requires
            old(self).wf(),
        ensures
            final(self).wf(),
            exists|now_ms: u64, now: u128|
                final(self)@ == #[trigger] old(self)@.answered(
                    peer_id@,
                    clock::round_trip(now_ms, sent_timestamp_ms),
                    now,
                ),
    {
        let now_ms: u64 = current_timestamp_ms();
        let now: u128 = self.clock.now();
        self.handle_pong_at(peer_id, sent_timestamp_ms, now_ms, now);
    }

    /// Note a sign of life of a peer at time `now`.
    pub fn update_last_seen_at(&mut self, peer_id: &PeerId, now: u128)
        requires
            old(self).wf(),
        ensures
            final(self).wf(),
            final(self)@ == old(self)@.touched(peer_id@, now),
    {
        if let Some(info) = self.peers.get_mut(peer_id) {
            info.last_seen = now;
        }
    }

    /// Note a sign of life of a peer.
    pub fn update_last_seen(&mut self, peer_id: &PeerId)
        requires
            old(self).wf(),
        ensures
            final(self).wf(),
            exists|now: u128| final(self)@ == #[trigger] old(self)@.touched(peer_id@, now),
    {
        let now: u128 = self.clock.now();
        self.update_last_seen_at(peer_id, now);
    }

    /// The connected peers that were not heard of for too long at time `now`.
    pub fn check_timeouts_at(&self, now: u128) -> (r: Vec<PeerId>)
        requires
            self.wf(),
        ensures
            types::ids_view(r@) == self@.overdue(now),
    {
        let interval: u128 = self.config.heartbeat_interval_ms as u128;
        let multiplier: u128 = self.config.heartbeat_timeout_multiplier as u128;
        assert(interval * multiplier <= u64::MAX * u32::MAX) by (nonlinear_arith)
            requires
                interval <= u64::MAX,
                multiplier <= u32::MAX,
        ;
        let timeout: u128 = interval * multiplier * 1_000_000;
        let mut list: Vec<PeerId> = Vec::new();
        let mut i: usize = 0;
        let ghost keys = self@.peers.keys;
        let ghost p = |k: Seq<char>|
            (|x: PeerInfo| self@.is_overdue(x, now))(self@.peers.vals[k]);
        proof {
            peer_map::lemma_filter_ends(keys, p);
            assert(types::ids_view(list@) =~= Seq::<Seq<char>>::empty());
        }
        while i < self.peers.len()
            invariant
                self.wf(),
                keys == self@.peers.keys,
                timeout == self@.timeout_ns(),
                p == (|k: Seq<char>|
                    (|x: PeerInfo| self@.is_overdue(x, now))(self@.peers.vals[k])),
                i <= keys.len(),
                types::ids_view(list@) == keys.take(i as int).filter(p),
            decreases keys.len() - i,
        {
            proof {
                peer_map::lemma_filter_step(keys, i as int, p);
            }
            let ghost before = list@;
            let info = self.peers.value_at(i);
            if info.status == PeerStatus::Connected && now > info.last_seen && now - info.last_seen
                > timeout {
                list.push(self.peers.key_at(i).clone());
                assert(types::ids_view(list@) =~= types::ids_view(before).push(keys[i as int]));
            }
            i = i + 1;
        }
        proof {
            peer_map::lemma_filter_ends(keys, p);
        }
        list
    }

    /// The connected peers that were not heard of for too long.
    pub fn check_timeouts(&self) -> (r: Vec<PeerId>)
        requires
            self.wf(),
        ensures
            exists|now: u128| types::ids_view(r@) == #[trigger] self@.overdue(now),
    {
        let now: u128 = self.clock.now();
        self.check_timeouts_at(now)
    }
}

// --- laws -------------------------------------------------------------------
/// Removing a peer that was just added restores the table; both changes are
/// reported.
pub proof fn law_remove_undoes_add(s: MembershipView, k: Seq<char>, info: PeerInfo)
    requires
        s.peers.wf(),
        !s.peers.contains(k),
    ensures
        ({
            let after = s.with_info(k, info).with_event(EventView::Joined(k)).removed(k);
            &&& after.peers == s.peers
            &&& after.events == newest(
                s.events.push(EventView::Joined(k)).push(EventView::Left(k)),
            )
        }),
{
    peer_map::law_without_undoes_put(s.peers, k, info);
}

/// Of the events since they were last taken, the newest wait, in their order
/// and as many as there is room for. That some were lost is known exactly
/// where there was no room for all.
pub proof fn law_newest_events_wait(s: MembershipView, events: Seq<EventView>)
    ensures
        s.drained().with_events(events).events == newest(events),
        s.drained().with_events(events).lagged <==> events.len() > EVENT_CAPACITY,
    decreases events.len(),
{
    if events.len() > 0 {
        let before = events.drop_last();
        law_newest_events_wait(s, before);
        assert(newest(newest(before).push(events.last())) =~= newest(events));
    } else {
        assert(newest(events) =~= events);
    }
}

/// Events that are lost change nothing else: the table of peers is the same
/// whatever was reported.
pub proof fn law_lost_events_leave_table_complete(s: MembershipView, events: Seq<EventView>)
    ensures
        s.with_events(events).peers == s.peers,
    decreases events.len(),
{
    if events.len() > 0 {
        law_lost_events_leave_table_complete(s, events.drop_last());
    }
}

/// A peer does not time out within the timeout after its last sign of life.
pub proof fn law_sign_of_life_prevents_timeout(
    s: MembershipView,
    k: Seq<char>,
    seen: u128,
    now: u128,
)
    requires
        now - seen <= s.timeout_ns(),
    ensures
        !s.touched(k, seen).overdue(now).contains(k) || !s.peers.contains(k),
{
    let t = s.touched(k, seen);
    if s.peers.contains(k) && t.overdue(now).contains(k) {
        let p = |x: Seq<char>| (|i: PeerInfo| t.is_overdue(i, now))(t.peers.vals[x]);
        let i = t.overdue(now).index_of(k);
        t.peers.keys.lemma_filter_pred(p, i);
    }
}

/// Only connected peers count as connected, each of them once, and a change
/// of a status is reported with the old and the new one.
pub proof fn law_status_change(s: MembershipView, k: Seq<char>, status: PeerStatus)
    requires
        s.peers.wf(),
        s.peers.contains(k),
    ensures
        s.status_set(k, status).peers.vals[k].status == status,
        s.status_set(k, status).connected().contains(k) <==> status == PeerStatus::Connected,
        s.peers.vals[k].status == status ==> s.status_set(k, status) == s,
        s.peers.vals[k].status != status ==> s.status_set(k, status).events == newest(
            s.events.push(
                EventView::StatusChanged {
                    peer_id: k,
                    old: s.peers.vals[k].status,
                    new: status,
                },
            ),
        ),
{
    let t = s.status_set(k, status);
    let p = |x: Seq<char>| (|i: PeerInfo| is_connected(i))(t.peers.vals[x]);
    let i = t.peers.keys.index_of(k);
    if status == PeerStatus::Connected {
        t.peers.keys.lemma_filter_contains(p, i);
    }
    if t.connected().contains(k) {
        let j = t.connected().index_of(k);
        t.peers.keys.lemma_filter_pred(p, j);
    }
}

} // verus!
