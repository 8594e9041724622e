//! Leader election: terms, votes, heartbeats and manual assignment.

use vstd::prelude::*;

use crate::config::ManualOverrideRecovery;
use crate::membership::{EventView, MembershipEvent, MembershipManager, MembershipView, Received};
use crate::peer_map::PeerMap;
use crate::text;
use crate::types::{self, PeerId};

verus! {

/// The part that a node plays in an election.
#[derive(Clone, Copy, Debug, PartialEq, Eq, Structural)]
pub enum Role {
    Follower,
    Candidate,
    Leader,
}

/// The value of a [`LeaderElection`].
#[verifier::ext_equal]
pub struct ElectionView {
    /// This node's name.
    pub local: Seq<char>,
    pub role: Role,
    pub term: nat,
    /// For whom this node voted in the current term.
    pub voted_for: Option<Seq<char>>,
    pub leader: Option<Seq<char>>,
    /// Who voted for this node in the current term.
    pub votes: Set<Seq<char>>,
    pub auto_election: bool,
    /// Was the leader assigned by hand?
    pub manual_override: bool,
    pub recovery: ManualOverrideRecovery,
    /// The leader changes that were not yet handed on, oldest first.
    pub notices: Seq<Option<Seq<char>>>,
}

/// What can happen to a node in an election.
pub enum ElectionEvent {
    Start { peers: nat },
    VoteRequest { term: nat, candidate: Seq<char> },
    VoteResponse { term: nat, voter: Seq<char>, granted: bool, peers: nat },
    Heartbeat { term: nat, leader: Seq<char> },
    LeaderAssign { term: nat, leader: Seq<char> },
    SetLeader { leader: Seq<char> },
    EnableAutoElection { enable: bool },
    PeerLeft { peer: Seq<char> },
}

/// How many votes a candidate needs among `nodes` nodes: more than half of
/// them, except that of two nodes one suffices.
pub open spec fn majority(nodes: nat) -> nat {
    if nodes <= 2 {
        1
    } else {
        nodes / 2 + 1
    }
}

/// How many notices of a changed leader wait to be handed on at most.
pub const NOTICE_CAPACITY: usize = 16;

/// The notices with one more. Where there is no room for it, it is dropped.
pub open spec fn noted(
    notices: Seq<Option<Seq<char>>>,
    leader: Option<Seq<char>>,
) -> Seq<Option<Seq<char>>> {
    if notices.len() < NOTICE_CAPACITY {
        notices.push(leader)
    } else {
        notices
    }
}

impl ElectionView {
    /// The state with `leader` as the leader; a change is noted.
    pub open spec fn with_leader(self, leader: Option<Seq<char>>) -> Self {
        ElectionView {
            leader,
            notices: if self.leader == leader {
                self.notices
            } else {
                noted(self.notices, leader)
            },
            ..self
        }
    }

    /// The state of a follower in a term that has just begun.
    pub open spec fn in_term(self, term: nat) -> Self {
        ElectionView {
            term,
            voted_for: None,
            role: Role::Follower,
            votes: Set::empty(),
            ..self
        }
    }

    /// The state after winning an election; always noted.
    pub open spec fn elected(self) -> Self {
        ElectionView {
            role: Role::Leader,
            leader: Some(self.local),
            votes: Set::empty(),
            notices: noted(self.notices, Some(self.local)),
            ..self
        }
    }

    /// The state after a leader was assigned by hand in term `term`.
    pub open spec fn assigned(self, term: nat, leader: Seq<char>) -> Self {
        ElectionView {
            term,
            role: if leader == self.local {
                Role::Leader
            } else {
                Role::Follower
            },
            voted_for: None,
            votes: Set::empty(),
            manual_override: true,
            ..self.with_leader(Some(leader))
        }
    }

    /// May this node stand for election?
    pub open spec fn may_stand(self) -> bool {
        self.auto_election && !self.manual_override
    }

    /// Standing for election among `peers` others: a new term, the own vote,
    /// and victory if that is enough.
    pub open spec fn started(self, peers: nat) -> Self {
        if !self.may_stand() {
            self
        } else {
            let candidate = ElectionView {
                term: self.term + 1,
                role: Role::Candidate,
                voted_for: Some(self.local),
                votes: set![self.local],
                ..self
            };
            if majority(1 + peers) <= 1 {
                candidate.elected()
            } else {
                candidate
            }
        }
    }

    /// Is a vote in term `term` given to `candidate`?
    pub open spec fn grants(self, term: nat, candidate: Seq<char>) -> bool {
        term > self.term || (term == self.term && (self.voted_for is None || self.voted_for == Some(
            candidate,
        )))
    }

    /// The state after being asked for a vote.
    pub open spec fn asked(self, term: nat, candidate: Seq<char>) -> Self {
        let now = if term > self.term {
            self.in_term(term)
        } else {
            self
        };
        if self.grants(term, candidate) {
            ElectionView { voted_for: Some(candidate), ..now }
        } else {
            now
        }
    }

    /// Does the answer to a request for a vote count in this state?
    pub open spec fn counts(self, term: nat) -> bool {
        self.role == Role::Candidate && term == self.term
    }

    /// The votes after an answer that counts.
    pub open spec fn votes_with(self, voter: Seq<char>, granted: bool) -> Set<Seq<char>> {
        if granted {
            self.votes.insert(voter)
        } else {
            self.votes
        }
    }

    /// Does this answer decide the election in favor of this node?
    pub open spec fn wins(self, term: nat, voter: Seq<char>, granted: bool, peers: nat) -> bool {
        self.counts(term) && self.votes_with(voter, granted).len() >= majority(1 + peers)
    }

    /// The state after an answer to a request for a vote.
    pub open spec fn answered(
        self,
        term: nat,
        voter: Seq<char>,
        granted: bool,
        peers: nat,
    ) -> Self {
        if term > self.term {
            self.in_term(term)
        } else if self.wins(term, voter, granted, peers) {
            self.elected()
        } else if self.counts(term) {
            ElectionView { votes: self.votes_with(voter, granted), ..self }
        } else {
            self
        }
    }

    /// Is a heartbeat of `leader` in term `term` followed? Not if it is
    /// stale, not against a leader assigned by hand, and by a leader of the
    /// same term only if its own name comes first.
    pub open spec fn follows(self, term: nat, leader: Seq<char>) -> bool {
        &&& term >= self.term
        &&& !(self.manual_override && self.leader is Some && self.leader != Some(leader))
        &&& self.role == Role::Leader && term == self.term ==> text::text_less(self.local, leader)
    }

    /// The state after a heartbeat.
    pub open spec fn heard(self, term: nat, leader: Seq<char>) -> Self {
        if !self.follows(term, leader) {
            self
        } else {
            let follower = if term > self.term {
                self.in_term(term)
            } else if self.role != Role::Follower {
                ElectionView { role: Role::Follower, votes: Set::empty(), ..self }
            } else {
                self
            };
            follower.with_leader(Some(leader))
        }
    }

    /// The state after automatic elections were switched on or off.
    pub open spec fn auto_set(self, enable: bool) -> Self {
        ElectionView {
            auto_election: enable,
            manual_override: self.manual_override && !(enable && self.leader is None),
            ..self
        }
    }

    /// The state after a peer has left.
    pub open spec fn departed(self, peer: Seq<char>) -> Self {
        if self.leader == Some(peer) {
            ElectionView {
                manual_override: self.manual_override && self.recovery
                    == ManualOverrideRecovery::Hold,
                ..self.with_leader(None)
            }
        } else {
            self
        }
    }

    /// The state after an event.
    pub open spec fn after(self, e: ElectionEvent) -> Self {
        match e {
            ElectionEvent::Start { peers } => self.started(peers),
            ElectionEvent::VoteRequest { term, candidate } => self.asked(term, candidate),
            ElectionEvent::VoteResponse { term, voter, granted, peers } => self.answered(
                term,
                voter,
                granted,
                peers,
            ),
            ElectionEvent::Heartbeat { term, leader } => self.heard(term, leader),
            ElectionEvent::LeaderAssign { term, leader } => self.assigned(
                if term > self.term {
                    term
                } else {
                    self.term
                },
                leader,
            ),
            ElectionEvent::SetLeader { leader } => self.assigned(self.term + 1, leader),
            ElectionEvent::EnableAutoElection { enable } => self.auto_set(enable),
            ElectionEvent::PeerLeft { peer } => self.departed(peer),
        }
    }

    /// The state after a sequence of events.
    pub open spec fn after_all(self, events: Seq<ElectionEvent>) -> Self
        decreases events.len(),
    {
        if events.len() == 0 {
            self
        } else {
            self.after_all(events.drop_last()).after(events.last())
        }
    }

    /// What holds of every state that is reached: a leader knows itself as
    /// the leader, votes are collected by a candidate only, which has voted
    /// for itself, and nobody stands against a leader assigned by hand.
    pub open spec fn consistent(self) -> bool {
        &&& self.role == Role::Leader ==> self.leader == Some(self.local)
        &&& self.role != Role::Candidate ==> self.votes == Set::<Seq<char>>::empty()
        &&& self.role == Role::Candidate ==> self.voted_for == Some(self.local)
            && self.votes.contains(self.local) && !self.manual_override
    }
}

/// The state after membership events: only that peers leave matters.
pub open spec fn after_membership(s: ElectionView, events: Seq<EventView>) -> ElectionView
    decreases events.len(),
{
    if events.len() == 0 {
        s
    } else {
        let before = after_membership(s, events.drop_last());
        match events.last() {
            EventView::Left(peer) => before.departed(peer),
            _ => before,
        }
    }
}

/// How many peers there are after membership events, of `count` before.
pub open spec fn count_after(count: nat, events: Seq<EventView>) -> nat
    decreases events.len(),
{
    if events.len() == 0 {
        count
    } else {
        let before = count_after(count, events.drop_last());
        match events.last() {
            EventView::Joined(_) => before + 1,
            EventView::Left(_) => if before > 0 {
                (before - 1) as nat
            } else {
                0
            },
            _ => before,
        }
    }
}

// --- laws -------------------------------------------------------------------
/// The term never decreases, whatever happens.
pub proof fn law_term_never_decreases(s: ElectionView, events: Seq<ElectionEvent>)
    ensures
        s.after_all(events).term >= s.term,
    decreases events.len(),
{
    if events.len() > 0 {
        law_term_never_decreases(s, events.drop_last());
    }
}

/// Once a node has voted in a term, it votes for nobody else in that term:
/// as long as the term stays, requests of other candidates are refused. Only
/// the assignment of a leader by another node makes it forget the vote.
pub proof fn law_one_vote_per_term(
    s: ElectionView,
    candidate: Seq<char>,
    events: Seq<ElectionEvent>,
    other: Seq<char>,
)
    requires
        s.voted_for == Some(candidate),
        forall|i: int| 0 <= i < events.len() ==> !(#[trigger] events[i] is LeaderAssign),
        s.after_all(events).term == s.term,
        other != candidate,
    ensures
        s.after_all(events).voted_for == Some(candidate),
        !s.after_all(events).grants(s.term, other),
    decreases events.len(),
{
    if events.len() > 0 {
        let before = events.drop_last();
        law_term_never_decreases(s, before);
        let mid = s.after_all(before);
        let last = seq![events.last()];
        law_term_never_decreases(mid, last);
        assert(last.drop_last() =~= seq![]);
        assert(mid.after_all(seq![]) == mid);
        assert(mid.after_all(last) == mid.after(events.last()));
        assert forall|i: int| 0 <= i < before.len() implies !(#[trigger] before[i] is LeaderAssign) by {
            assert(before[i] == events[i]);
        }
        assert(!(events[events.len() - 1] is LeaderAssign));
        law_one_vote_per_term(s, candidate, before, other);
    }
}

/// The consistency of the state is kept by every event but one: that this
/// node itself is reported to have left.
pub proof fn law_state_stays_consistent(s: ElectionView, e: ElectionEvent)
    requires
        s.consistent(),
        e != (ElectionEvent::PeerLeft { peer: s.local }),
    ensures
        s.after(e).consistent(),
        s.after(e).local == s.local,
{
}

/// A change of the leader is noted where there is room for the notice, and
/// what was noted before stays.
pub proof fn law_leader_changes_are_noted(s: ElectionView, e: ElectionEvent)
    ensures
        s.notices.is_prefix_of(s.after(e).notices),
        s.after(e).leader != s.leader ==> s.after(e).notices == noted(
            s.notices,
            s.after(e).leader,
        ),
{
}

/// Whatever happens, no more notices wait than there is room for.
pub proof fn law_notices_are_bounded(s: ElectionView, events: Seq<ElectionEvent>)
    requires
        s.notices.len() <= NOTICE_CAPACITY,
    ensures
        s.after_all(events).notices.len() <= NOTICE_CAPACITY,
    decreases events.len(),
{
    if events.len() > 0 {
        law_notices_are_bounded(s, events.drop_last());
    }
}

/// A leader assigned by hand stays the leader until another is assigned or
/// it leaves: no election starts and no other node's heartbeat is followed.
pub proof fn law_assigned_leader_stays(s: ElectionView, e: ElectionEvent)
    requires
        s.consistent(),
        s.manual_override,
        s.leader is Some,
        !(e is LeaderAssign),
        !(e is SetLeader),
        e != (ElectionEvent::PeerLeft { peer: s.leader->0 }),
    ensures
        s.after(e).leader == s.leader,
        s.after(e).manual_override,
        s.after(e).role != Role::Candidate,
        e is Start ==> s.after(e) == s,
        e matches ElectionEvent::Heartbeat { leader, .. } && leader != s.leader->0 ==> s.after(e)
            == s,
{
}

/// When a leader assigned by hand leaves, the override stays or is lifted as
/// the recovery strategy says, and the loss is noted where there is room for
/// the notice. Elections are possible again only if it was lifted.
pub proof fn law_recovery_strategy(s: ElectionView)
    requires
        s.manual_override,
        s.leader is Some,
    ensures
        ({
            let after = s.departed(s.leader->0);
            &&& after.leader is None
            &&& after.notices == noted(s.notices, None)
            &&& after.manual_override <==> s.recovery == ManualOverrideRecovery::Hold
            &&& after.may_stand() <==> s.auto_election && s.recovery
                == ManualOverrideRecovery::AutoElect
        }),
{
}

/// Of two leaders of the same term that hear of each other, exactly the one
/// whose name comes first steps down, and both then have the same leader.
pub proof fn law_split_brain_heals(a: ElectionView, b: ElectionView)
    requires
        a.role == Role::Leader,
        b.role == Role::Leader,
        a.leader == Some(a.local),
        b.leader == Some(b.local),
        a.term == b.term,
        !a.manual_override,
        !b.manual_override,
        a.local != b.local,
    ensures
        ({
            let a2 = a.heard(b.term, b.local);
            let b2 = b.heard(a.term, a.local);
            &&& a2.role == Role::Follower <==> text::text_less(a.local, b.local)
            &&& a2.role == Role::Leader <==> b2.role == Role::Follower
            &&& a2.role == Role::Follower <==> b2.role == Role::Leader
            &&& a2.leader == b2.leader
        }),
{
    text::law_text_order_is_total(a.local, b.local, a.local);
}

/// Two groups of voters that are each large enough to elect a leader of the
/// same nodes have a voter in common, unless there are exactly two nodes.
pub proof fn law_majorities_intersect(
    nodes: Set<Seq<char>>,
    a: Set<Seq<char>>,
    b: Set<Seq<char>>,
)
    requires
        nodes.finite(),
        nodes.len() != 2,
        a.subset_of(nodes),
        b.subset_of(nodes),
        a.len() >= majority(nodes.len()),
        b.len() >= majority(nodes.len()),
    ensures
        exists|v: Seq<char>| a.contains(v) && b.contains(v),
{
    vstd::set_lib::lemma_len_subset(a, nodes);
    vstd::set_lib::lemma_len_subset(b, nodes);
    vstd::set_lib::lemma_set_intersect_union_lens(a, b);
    vstd::set_lib::lemma_len_subset(a + b, nodes);
    let both = a.intersect(b);
    assert(both.len() > 0);
    let v = both.choose();
    assert(both.contains(v));
}

/// If every node gives its vote in a term to one candidate only, no two
/// candidates are elected in that term, unless there are exactly two nodes.
pub proof fn law_one_leader_per_term(
    nodes: Set<Seq<char>>,
    vote: Map<Seq<char>, Seq<char>>,
    a: ElectionView,
    b: ElectionView,
)
    requires
        nodes.finite(),
        nodes.len() != 2,
        a.votes.subset_of(nodes),
        b.votes.subset_of(nodes),
        forall|v: Seq<char>| #[trigger] a.votes.contains(v) ==> vote[v] == a.local,
        forall|v: Seq<char>| #[trigger] b.votes.contains(v) ==> vote[v] == b.local,
        a.votes.len() >= majority(nodes.len()),
        b.votes.len() >= majority(nodes.len()),
    ensures
        a.local == b.local,
{
    law_majorities_intersect(nodes, a.votes, b.votes);
}

// --- the election of a node ---------------------------------------------------
/// A node's side of the leader election.
///
/// Leader changes are collected as notices; whoever drives the node takes
/// them with [`LeaderElection::take_notices`] and hands them on. A notice for
/// which there is no room is dropped.
pub struct LeaderElection {
    local_peer_id: PeerId,
    role: Role,
    current_term: u64,
    voted_for: Option<PeerId>,
    leader_id: Option<PeerId>,
    votes_received: PeerMap<()>,
    auto_election_enabled: bool,
    manual_override: bool,
    recovery: ManualOverrideRecovery,
    notices: Vec<Option<PeerId>>,
}

impl View for LeaderElection {
    type V = ElectionView;

    closed spec fn view(&self) -> ElectionView {
        ElectionView {
            local: self.local_peer_id@,
            role: self.role,
            term: self.current_term as nat,
            voted_for: types::optional_id(self.voted_for),
            leader: types::optional_id(self.leader_id),
            votes: self.votes_received@.vals.dom(),
            auto_election: self.auto_election_enabled,
            manual_override: self.manual_override,
            recovery: self.recovery,
            notices: notices_view(self.notices@),
        }
    }
}

/// The texts of a list of leader changes.
pub open spec fn notices_view(n: Seq<Option<PeerId>>) -> Seq<Option<Seq<char>>> {
    n.map_values(|o: Option<PeerId>| types::optional_id(o))
}

fn names(id: &Option<PeerId>, other: &PeerId) -> (r: bool)
    ensures
        r == (types::optional_id(*id) == Some(other@)),
{
    match id {
        Some(p) => *p == *other,
        None => false,
    }
}

impl LeaderElection {
    /// Is the table of votes well-formed?
    pub closed spec fn wf(&self) -> bool {
        self.votes_received.wf()
    }

    /// A node that follows no leader yet.
    pub fn new(
        local_peer_id: PeerId,
        auto_election_enabled: bool,
        recovery: ManualOverrideRecovery,
    ) -> (r: Self)
        ensures
            r.wf(),
            r@ == (ElectionView {
                local: local_peer_id@,
                role: Role::Follower,
                term: 0,
                voted_for: None,
                leader: None,
                votes: Set::empty(),
                auto_election: auto_election_enabled,
                manual_override: false,
                recovery,
                notices: Seq::empty(),
            }),
            r@.consistent(),
    {
        let r = Self {
            local_peer_id,
            role: Role::Follower,
            current_term: 0,
            voted_for: None,
            leader_id: None,
            votes_received: PeerMap::new(),
            auto_election_enabled,
            manual_override: false,
            recovery,
            notices: Vec::new(),
        };
        assert(r@.votes =~= Set::<Seq<char>>::empty());
        assert(r@.notices =~= Seq::<Option<Seq<char>>>::empty());
        r
    }

    /// The part that this node plays.
    pub fn role(&self) -> (r: Role)
        ensures
            r == self@.role,
    {
        self.role
    }

    /// The current term.
    pub fn current_term(&self) -> (r: u64)
        ensures
            r == self@.term,
    {
        self.current_term
    }

    /// The leader, where one is known.
    pub fn leader_id(&self) -> (r: Option<PeerId>)
        ensures
            types::optional_id(r) == self@.leader,
    {
        match &self.leader_id {
            Some(p) => Some(p.clone()),
            None => None,
        }
    }

    /// Is this node the leader?
    pub fn is_leader(&self) -> (r: bool)
        ensures
            r == (self@.role == Role::Leader),
    {
        self.role == Role::Leader
    }

    /// Are automatic elections switched on?
    pub fn is_auto_election_enabled(&self) -> (r: bool)
        ensures
            r == self@.auto_election,
    {
        self.auto_election_enabled
    }

    /// Was the leader assigned by hand?
    pub fn is_manual_override(&self) -> (r: bool)
        ensures
            r == self@.manual_override,
    {
        self.manual_override
    }

    /// How many votes a candidate needs among `total_nodes` nodes.
    pub fn majority_threshold(total_nodes: usize) -> (r: usize)
        ensures
            r == majority(total_nodes as nat),
    {
        if total_nodes <= 2 {
            1
        } else {
            total_nodes / 2 + 1
        }
    }

    /// How many votes a candidate with `peers` peers needs. The number of
    /// nodes, one more, need not fit in a word.
    fn votes_needed(peers: usize) -> (r: usize)
        ensures
            r == majority((1 + peers) as nat),
    {
        if peers < usize::MAX {
            Self::majority_threshold(1 + peers)
        } else {
            peers / 2 + 2
        }
    }

    /// Take the leader changes that were collected.
    pub fn take_notices(&mut self) -> (r: Vec<Option<PeerId>>)
        requires
            old(self).wf(),
        ensures
            final(self).wf(),
            notices_view(r@) == old(self)@.notices,
            final(self)@ == (ElectionView { notices: Seq::empty(), ..old(self)@ }),
    {
        let mut taken: Vec<Option<PeerId>> = Vec::new();
        std::mem::swap(&mut taken, &mut self.notices);
        assert(self@.notices =~= Seq::<Option<Seq<char>>>::empty());
        taken
    }

    fn note(&mut self, leader: Option<PeerId>)
        requires
            old(self).wf(),
        ensures
            final(self).wf(),
            final(self)@ == (ElectionView {
                notices: noted(old(self)@.notices, types::optional_id(leader)),
                ..old(self)@
            }),
    {
        if self.notices.len() < NOTICE_CAPACITY {
            self.notices.push(leader);
        }
        assert(self@.notices =~= noted(old(self)@.notices, types::optional_id(leader)));
    }

    fn change_leader(&mut self, leader: Option<PeerId>)
        requires
            old(self).wf(),
        ensures
            final(self).wf(),
            final(self)@ == old(self)@.with_leader(types::optional_id(leader)),
    {
        let same = match (&self.leader_id, &leader) {
            (Some(a), Some(b)) => *a == *b,
            (None, None) => true,
            _ => false,
        };
        if same {
            self.leader_id = leader;
        } else {
            let copy = match &leader {
                Some(p) => Some(p.clone()),
                None => None,
            };
            self.leader_id = leader;
            self.note(copy);
        }
    }

    fn clear_votes(&mut self)
        requires
            old(self).wf(),
        ensures
            final(self).wf(),
            final(self)@ == (ElectionView { votes: Set::empty(), ..old(self)@ }),
    {
        self.votes_received.clear();
        assert(self@.votes =~= Set::<Seq<char>>::empty());
    }

    fn add_vote(&mut self, voter: PeerId)
        requires
            old(self).wf(),
        ensures
            final(self).wf(),
            final(self)@ == (ElectionView { votes: old(self)@.votes.insert(voter@), ..old(self)@ }),
    {
        self.votes_received.insert(voter, ());
        assert(self@.votes =~= old(self)@.votes.insert(voter@));
    }

    fn vote_count(&self) -> (r: usize)
        requires
            self.wf(),
        ensures
            r == self@.votes.len(),
    {
        proof {
            self.votes_received.lemma_view_wf();
            crate::peer_map::lemma_len(self.votes_received@);
        }
        self.votes_received.len()
    }

    fn become_leader(&mut self)
        requires
            old(self).wf(),
        ensures
            final(self).wf(),
            final(self)@ == old(self)@.elected(),
    {
        self.role = Role::Leader;
        self.leader_id = Some(self.local_peer_id.clone());
        self.clear_votes();
        let local = self.local_peer_id.clone();
        self.note(Some(local));
    }

    fn begin_term(&mut self, term: u64)
        requires
            old(self).wf(),
        ensures
            final(self).wf(),
            final(self)@ == old(self)@.in_term(term as nat),
    {
        self.current_term = term;
        self.voted_for = None;
        self.role = Role::Follower;
        self.clear_votes();
    }

    /// Stand for election among this many connected peers. The result is the
    /// request for votes to send, if this node stands and the own vote does
    /// not already decide.
    pub fn start_election(&mut self, connected_peer_count: usize) -> (r: Option<(u64, String)>)
        requires
            old(self).wf(),
            old(self)@.may_stand() ==> old(self)@.term < u64::MAX,
        ensures
            final(self).wf(),
            final(self)@ == old(self)@.started(connected_peer_count as nat),
            r is Some <==> old(self)@.may_stand() && final(self)@.role == Role::Candidate,
            r matches Some((term, candidate)) ==> {
                &&& term == final(self)@.term
                &&& candidate@ == final(self)@.local
            },
    {
        if !self.auto_election_enabled || self.manual_override {
            return None;
        }
        self.current_term = self.current_term + 1;
        self.role = Role::Candidate;
        self.voted_for = Some(self.local_peer_id.clone());
        self.clear_votes();
        let local = self.local_peer_id.clone();
        self.add_vote(local);
        assert(self@.votes =~= set![self@.local]);
        let threshold: usize = Self::votes_needed(connected_peer_count);
        assert(set![self@.local].len() == 1);
        if self.vote_count() >= threshold {
            self.become_leader();
            return None;
        }
        Some((self.current_term, self.local_peer_id.to_string()))
    }

    /// Answer a request for a vote: the own term, and whether the vote is
    /// given.
    pub fn handle_request_vote(&mut self, term: u64, candidate_id: &str) -> (r: (u64, bool))
        requires
            old(self).wf(),
        ensures
            final(self).wf(),
            final(self)@ == old(self)@.asked(term as nat, candidate_id@),
            r.0 == final(self)@.term,
            r.1 == old(self)@.grants(term as nat, candidate_id@),
    {
        if term < self.current_term {
            return (self.current_term, false);
        }
        if term > self.current_term {
            self.begin_term(term);
        }
        let candidate = PeerId::new(candidate_id);
        let granted = match &self.voted_for {
            None => true,
            Some(voted) => *voted == candidate,
        };
        if granted {
            self.voted_for = Some(candidate);
        }
        (self.current_term, granted)
    }

    /// Take in the answer to a request for a vote. Does it make this node the
    /// leader?
    pub fn handle_vote_response(
        &mut self,
        term: u64,
        voter_id: &str,
        granted: bool,
        connected_peer_count: usize,
    ) -> (r: bool)
        requires
            old(self).wf(),
        ensures
            final(self).wf(),
            final(self)@ == old(self)@.answered(
                term as nat,
                voter_id@,
                granted,
                connected_peer_count as nat,
            ),
            r == old(self)@.wins(term as nat, voter_id@, granted, connected_peer_count as nat),
    {
        if term > self.current_term {
            self.begin_term(term);
            return false;
        }
        if self.role != Role::Candidate || term != self.current_term {
            return false;
        }
        if granted {
            self.add_vote(PeerId::new(voter_id));
        }
        let threshold: usize = Self::votes_needed(connected_peer_count);
        if self.vote_count() >= threshold {
            self.become_leader();
            return true;
        }
        false
    }

    /// Take in a leader's heartbeat. Is it followed?
    pub fn handle_heartbeat(&mut self, term: u64, leader_id: &str) -> (r: bool)
        requires
            old(self).wf(),
        ensures
            final(self).wf(),
            final(self)@ == old(self)@.heard(term as nat, leader_id@),
            r == old(self)@.follows(term as nat, leader_id@),
    {
        if term < self.current_term {
            return false;
        }
        let leader = PeerId::new(leader_id);
        if self.manual_override && self.leader_id.is_some() && !names(&self.leader_id, &leader) {
            return false;
        }
        if term > self.current_term {
            self.begin_term(term);
        } else {
            if self.role == Role::Leader && !self.local_peer_id.less_than(&leader) {
                return false;
            }
            if self.role != Role::Follower {
                self.role = Role::Follower;
                self.clear_votes();
            }
        }
        self.change_leader(Some(leader));
        true
    }

    fn assign(&mut self, term: u64, leader: PeerId)
        requires
            old(self).wf(),
        ensures
            final(self).wf(),
            final(self)@ == old(self)@.assigned(term as nat, leader@),
    {
        self.current_term = term;
        self.manual_override = true;
        self.role = if leader == self.local_peer_id {
            Role::Leader
        } else {
            Role::Follower
        };
        self.voted_for = None;
        self.clear_votes();
        self.change_leader(Some(leader));
    }

    /// Take in the assignment of a leader by another node.
    pub fn handle_leader_assign(&mut self, term: u64, leader_id: &str, _assigner_id: &str)
        requires
            old(self).wf(),
        ensures
            final(self).wf(),
            final(self)@ == old(self)@.after(
                ElectionEvent::LeaderAssign { term: term as nat, leader: leader_id@ },
            ),
    {
        let term: u64 = if term > self.current_term {
            term
        } else {
            self.current_term
        };
        self.assign(term, PeerId::new(leader_id));
    }

    /// Assign a leader by hand, in a new term. The result is what the other
    /// nodes are told: the term, the leader and this node as the assigner.
    pub fn set_leader(&mut self, leader_id: &PeerId) -> (r: (u64, String, String))
        requires
            old(self).wf(),
            old(self)@.term < u64::MAX,
        ensures
            final(self).wf(),
            final(self)@ == old(self)@.after(ElectionEvent::SetLeader { leader: leader_id@ }),
            r.0 == final(self)@.term,
            r.1@ == leader_id@,
            r.2@ == final(self)@.local,
    {
        let term: u64 = self.current_term + 1;
        self.assign(term, leader_id.clone());
        (term, leader_id.to_string(), self.local_peer_id.to_string())
    }

    /// Switch automatic elections on or off. Switching them on while there is
    /// no leader lifts a manual override.
    pub fn enable_auto_election(&mut self, enable: bool)
        requires
            old(self).wf(),
        ensures
            final(self).wf(),
            final(self)@ == old(self)@.auto_set(enable),
    {
        self.auto_election_enabled = enable;
        if enable && self.leader_id.is_none() {
            self.manual_override = false;
        }
    }

    /// Take in the membership events that wait, and count the peers that they
    /// leave. Where events were lost, nothing is taken in: that is only
    /// acknowledged, and those that wait go on waiting.
    pub fn drain_membership_events(
        &mut self,
        membership: &mut MembershipManager,
        connected_peer_count: &mut usize,
    )
        requires
            old(self).wf(),
            old(membership).wf(),
            old(membership)@.lagged || *old(connected_peer_count) + old(membership)@.events.len()
                <= usize::MAX,
        ensures
            final(self).wf(),
            final(membership).wf(),
            old(membership)@.lagged ==> {
                &&& final(self)@ == old(self)@
                &&& *final(connected_peer_count) == *old(connected_peer_count)
                &&& final(membership)@ == (MembershipView { lagged: false, ..old(membership)@ })
            },
            !old(membership)@.lagged ==> {
                &&& final(self)@ == after_membership(old(self)@, old(membership)@.events)
                &&& *final(connected_peer_count) == count_after(
                    *old(connected_peer_count) as nat,
                    old(membership)@.events,
                )
                &&& final(membership)@ == old(membership)@.drained()
            },
    {
        let ghost start = membership@;
        let ghost views = start.events;
        let ghost mut i: int = 0;
        assert(views.skip(0) =~= views);
        loop
            invariant
                0 <= i <= views.len(),
                start == old(membership)@,
                views == start.events,
                start.lagged ==> i == 0,
                self.wf(),
                membership.wf(),
                membership@ == (MembershipView { events: views.skip(i), ..start }),
                self@ == after_membership(old(self)@, views.take(i)),
                *connected_peer_count == count_after(
                    *old(connected_peer_count) as nat,
                    views.take(i),
                ),
                *connected_peer_count <= *old(connected_peer_count) + i,
                start.lagged || *old(connected_peer_count) + views.len() <= usize::MAX,
            decreases views.len() - i,
        {
            match membership.next_event() {
                Received::Event(event) => {
                    proof {
                        assert(views.take(i + 1).drop_last() =~= views.take(i));
                        assert(views.skip(i).skip(1) =~= views.skip(i + 1));
                        i = i + 1;
                    }
                    match &event {
                        MembershipEvent::Joined(_) => {
                            *connected_peer_count = *connected_peer_count + 1;
                        },
                        MembershipEvent::Left(peer_id) => {
                            if *connected_peer_count > 0 {
                                *connected_peer_count = *connected_peer_count - 1;
                            }
                            self.handle_peer_left(peer_id);
                        },
                        MembershipEvent::StatusChanged { .. } => {},
                    }
                },
                Received::Lagged => {
                    return;
                },
                Received::Empty => {
                    assert(views.take(i) =~= views);
                    return;
                },
            }
        }
    }

    /// Take in that a peer has left. If it was the leader, there is none now.
    pub fn handle_peer_left(&mut self, peer_id: &PeerId)
        requires
            old(self).wf(),
        ensures
            final(self).wf(),
            final(self)@ == old(self)@.departed(peer_id@),
    {
        if names(&self.leader_id, peer_id) {
            if self.recovery == ManualOverrideRecovery::AutoElect {
                self.manual_override = false;
            }
            self.change_leader(None);
        }
    }
}

} // verus!
