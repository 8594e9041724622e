//! Promises of the leader election.

use vstd::prelude::*;

use crate::config::ManualOverrideRecovery;
use crate::leader::{ElectionView, LeaderElection, Role};
use crate::membership::{EventView, MembershipManager};
use crate::text;
use crate::types::{self, PeerId};

verus! {

/// A new node follows nobody, has voted for nobody and is in no election.
pub proof fn law_new_node_follows_nobody(
    local: PeerId,
    auto: bool,
    recovery: ManualOverrideRecovery,
    r: LeaderElection,
)
    requires
        call_ensures(LeaderElection::new, (local, auto, recovery), r),
    ensures
        r@.local == local@,
        r@.role == Role::Follower,
        r@.leader is None,
        r@.voted_for is None,
        r@.votes.len() == 0,
        r@.term == 0,
        r@.auto_election == auto,
        !r@.manual_override,
        r@.recovery == recovery,
        r@.notices.len() == 0,
{
}

/// A heartbeat of an earlier term is not followed, nor is one that speaks
/// against a leader assigned by hand. Of the others a follower or candidate
/// follows all; a leader follows those of a later term, and those of its own
/// term exactly if its own name comes first.
pub proof fn law_which_heartbeats_are_followed(
    e: &mut LeaderElection,
    term: u64,
    leader: &str,
    r: bool,
)
    requires
        call_ensures(LeaderElection::handle_heartbeat, (e, term, leader), r),
    ensures
        term < old(e)@.term ==> !r,
        old(e)@.manual_override && old(e)@.leader is Some && old(e)@.leader != Some(leader@) ==> !r,
        term >= old(e)@.term && (!old(e)@.manual_override || old(e)@.leader is None
            || old(e)@.leader == Some(leader@)) ==> {
            &&& old(e)@.role != Role::Leader ==> r
            &&& term > old(e)@.term ==> r
            &&& term == old(e)@.term && old(e)@.role == Role::Leader ==> (r <==> text::text_less(
                old(e)@.local,
                leader@,
            ))
        },
{
}

/// Who follows a heartbeat is a follower of its sender in its term, whatever
/// it was before, and has given up the votes it collected: votes that come in
/// late do not make it a leader. Who does not follow stays as it is.
pub proof fn law_followed_heartbeat_makes_a_follower(
    e: &mut LeaderElection,
    term: u64,
    leader: &str,
    r: bool,
)
    requires
        call_ensures(LeaderElection::handle_heartbeat, (e, term, leader), r),
    ensures
        r ==> {
            &&& final(e)@.leader == Some(leader@)
            &&& final(e)@.role == Role::Follower
            &&& final(e)@.term == term
        },
        r && old(e)@.role != Role::Follower ==> final(e)@.votes =~= Set::<Seq<char>>::empty(),
        r && term > old(e)@.term ==> final(e)@.votes =~= Set::<Seq<char>>::empty(),
        r && old(e)@.role == Role::Follower && term == old(e)@.term ==> final(e)@.votes
            == old(e)@.votes,
        r && term > old(e)@.term ==> final(e)@.voted_for is None,
        r && term == old(e)@.term ==> final(e)@.voted_for == old(e)@.voted_for,
        !r ==> final(e)@ == old(e)@,
        final(e)@.local == old(e)@.local,
        final(e)@.auto_election == old(e)@.auto_election,
        final(e)@.manual_override == old(e)@.manual_override,
        final(e)@.recovery == old(e)@.recovery,
{
}

/// A candidate that has followed a heartbeat wins nothing by a vote of its
/// term that comes in afterwards.
pub proof fn law_late_vote_elects_nobody(
    e: &mut LeaderElection,
    leader: &str,
    followed: bool,
    f: &mut LeaderElection,
    voter: &str,
    granted: bool,
    peers: usize,
    term: u64,
    won: bool,
)
    requires
        call_ensures(LeaderElection::handle_heartbeat, (e, term, leader), followed),
        followed,
        old(f)@ == final(e)@,
        call_ensures(LeaderElection::handle_vote_response, (f, term, voter, granted, peers), won),
    ensures
        !won,
        final(f)@.role == Role::Follower,
        final(f)@.leader == Some(leader@),
{
}

/// A vote is refused in an earlier term and given in a later one. In the
/// current term it is given exactly to the first who asks, as often as that
/// one asks.
pub proof fn law_which_votes_are_given(
    e: &mut LeaderElection,
    term: u64,
    candidate: &str,
    r: (u64, bool),
)
    requires
        call_ensures(LeaderElection::handle_request_vote, (e, term, candidate), r),
    ensures
        term < old(e)@.term ==> !r.1,
        term > old(e)@.term ==> r.1,
        term == old(e)@.term && old(e)@.voted_for is None ==> r.1,
        term == old(e)@.term && old(e)@.voted_for is Some ==> (r.1 <==> old(e)@.voted_for == Some(
            candidate@,
        )),
        r.1 ==> final(e)@.voted_for == Some(candidate@),
        !r.1 ==> final(e)@ == old(e)@,
{
}

/// Who is asked for a vote answers with its term, which is that of the
/// request if that is later. A later term makes it a follower, which gives up
/// the votes it collected; nothing else changes.
pub proof fn law_vote_request_moves_on_the_term(
    e: &mut LeaderElection,
    term: u64,
    candidate: &str,
    r: (u64, bool),
)
    requires
        call_ensures(LeaderElection::handle_request_vote, (e, term, candidate), r),
    ensures
        r.0 == final(e)@.term,
        term > old(e)@.term ==> {
            &&& final(e)@.term == term
            &&& final(e)@.role == Role::Follower
            &&& final(e)@.votes =~= Set::<Seq<char>>::empty()
        },
        term <= old(e)@.term ==> {
            &&& final(e)@.term == old(e)@.term
            &&& final(e)@.role == old(e)@.role
            &&& final(e)@.votes == old(e)@.votes
        },
        final(e)@.leader == old(e)@.leader,
        final(e)@.manual_override == old(e)@.manual_override,
        final(e)@.auto_election == old(e)@.auto_election,
        final(e)@.notices == old(e)@.notices,
        final(e)@.local == old(e)@.local,
{
}

/// Two requests for a vote in the same term, one after the other, are both
/// granted only if they are of the same candidate.
pub proof fn law_no_second_vote(
    e: &mut LeaderElection,
    f: &mut LeaderElection,
    term: u64,
    a: &str,
    b: &str,
    ra: (u64, bool),
    rb: (u64, bool),
)
    requires
        call_ensures(LeaderElection::handle_request_vote, (e, term, a), ra),
        old(f)@ == final(e)@,
        call_ensures(LeaderElection::handle_request_vote, (f, term, b), rb),
    ensures
        ra.1 && rb.1 ==> a@ == b@,
        ra.1 && a@ == b@ ==> rb.1,
{
}

/// Among `nodes` nodes so many votes are needed that more than half of them
/// have voted, and no more than that; of one or two nodes one suffices.
pub proof fn law_threshold_is_more_than_half(nodes: usize, r: usize)
    requires
        call_ensures(LeaderElection::majority_threshold, (nodes,), r),
    ensures
        nodes > 2 ==> 2 * r > nodes && 2 * (r - 1) <= nodes,
        nodes <= 2 ==> r == 1,
{
}

/// Who stands for election moves on to the next term and votes for itself.
/// With at most one other node that decides it; with more it asks for votes,
/// under its own name and in the new term.
pub proof fn law_standing_for_election(
    e: &mut LeaderElection,
    peers: usize,
    r: Option<(u64, String)>,
)
    requires
        call_ensures(LeaderElection::start_election, (e, peers), r),
        old(e)@.auto_election,
        !old(e)@.manual_override,
    ensures
        final(e)@.term == old(e)@.term + 1,
        final(e)@.voted_for == Some(old(e)@.local),
        final(e)@.local == old(e)@.local,
        peers <= 1 ==> {
            &&& final(e)@.role == Role::Leader
            &&& final(e)@.leader == Some(old(e)@.local)
            &&& r is None
        },
        peers >= 2 ==> {
            &&& final(e)@.role == Role::Candidate
            &&& final(e)@.votes == set![old(e)@.local]
            &&& final(e)@.leader == old(e)@.leader
            &&& r matches Some((term, name)) && term == final(e)@.term && name@ == old(e)@.local
        },
        final(e)@.auto_election,
        !final(e)@.manual_override,
{
}

/// While automatic elections are switched off, or a leader is assigned by
/// hand, nobody stands.
pub proof fn law_nobody_stands_without_permission(
    e: &mut LeaderElection,
    peers: usize,
    r: Option<(u64, String)>,
)
    requires
        call_ensures(LeaderElection::start_election, (e, peers), r),
        !old(e)@.auto_election || old(e)@.manual_override,
    ensures
        r is None,
        final(e)@ == old(e)@,
{
}

/// The voters of a candidate after an answer.
pub open spec fn voters(s: ElectionView, voter: Seq<char>, granted: bool) -> Set<Seq<char>> {
    if granted {
        s.votes.insert(voter)
    } else {
        s.votes
    }
}

/// A candidate counts the answers of its term, each voter once, and leads in
/// that term exactly as soon as more than half of the nodes, this one
/// included, have voted for it. (With one other node a single vote is
/// enough.)
pub proof fn law_candidate_leads_by_majority(
    e: &mut LeaderElection,
    term: u64,
    voter: &str,
    granted: bool,
    peers: usize,
    r: bool,
)
    requires
        call_ensures(LeaderElection::handle_vote_response, (e, term, voter, granted, peers), r),
        old(e)@.role == Role::Candidate,
        term == old(e)@.term,
    ensures
        peers >= 2 ==> (r <==> 2 * voters(old(e)@, voter@, granted).len() > peers + 1),
        peers <= 1 ==> (r <==> voters(old(e)@, voter@, granted).len() >= 1),
        r ==> {
            &&& final(e)@.role == Role::Leader
            &&& final(e)@.leader == Some(old(e)@.local)
            &&& final(e)@.votes.len() == 0
        },
        !r ==> {
            &&& final(e)@.role == Role::Candidate
            &&& final(e)@.leader == old(e)@.leader
            &&& final(e)@.votes =~= voters(old(e)@, voter@, granted)
            &&& final(e)@.notices == old(e)@.notices
        },
        final(e)@.term == old(e)@.term,
        final(e)@.voted_for == old(e)@.voted_for,
        final(e)@.local == old(e)@.local,
        final(e)@.manual_override == old(e)@.manual_override,
        final(e)@.auto_election == old(e)@.auto_election,
{
}

/// Answers that are not of a candidate's own term elect nobody. One of a
/// later term makes a follower of that term; any other changes nothing, nor
/// does one to a node that does not stand.
pub proof fn law_other_answers_elect_nobody(
    e: &mut LeaderElection,
    term: u64,
    voter: &str,
    granted: bool,
    peers: usize,
    r: bool,
)
    requires
        call_ensures(LeaderElection::handle_vote_response, (e, term, voter, granted, peers), r),
        old(e)@.role != Role::Candidate || term != old(e)@.term,
    ensures
        !r,
        term > old(e)@.term ==> {
            &&& final(e)@.term == term
            &&& final(e)@.role == Role::Follower
            &&& final(e)@.votes.len() == 0
            &&& final(e)@.voted_for is None
            &&& final(e)@.leader == old(e)@.leader
            &&& final(e)@.manual_override == old(e)@.manual_override
            &&& final(e)@.auto_election == old(e)@.auto_election
            &&& final(e)@.notices == old(e)@.notices
        },
        term <= old(e)@.term ==> final(e)@ == old(e)@,
{
}

/// What an assignment leaves behind: the assigned node is the leader, and
/// exactly if it is this one this node leads. Votes are forgotten, and the
/// assignment is marked as made by hand.
pub open spec fn is_assigned(s: ElectionView, leader: Seq<char>) -> bool {
    &&& s.leader == Some(leader)
    &&& s.role == Role::Leader <==> leader == s.local
    &&& s.role != Role::Candidate
    &&& s.manual_override
    &&& s.voted_for is None
    &&& s.votes.len() == 0
}

/// After the assignment of a leader, by hand or by another node, exactly the
/// assigned node leads. By hand it begins a new term; of another node it is
/// taken over whatever its term, and the term does not go back.
pub proof fn law_exactly_the_assigned_node_leads(
    e: &mut LeaderElection,
    leader: &PeerId,
    r: (u64, String, String),
    f: &mut LeaderElection,
    term: u64,
    name: &str,
    assigner: &str,
)
    requires
        call_ensures(LeaderElection::set_leader, (e, leader), r),
        call_ensures(LeaderElection::handle_leader_assign, (f, term, name, assigner), ()),
    ensures
        is_assigned(final(e)@, leader@),
        final(e)@.local == old(e)@.local,
        final(e)@.auto_election == old(e)@.auto_election,
        final(e)@.term == old(e)@.term + 1,
        is_assigned(final(f)@, name@),
        final(f)@.local == old(f)@.local,
        final(f)@.auto_election == old(f)@.auto_election,
        term >= old(f)@.term ==> final(f)@.term == term,
        term <= old(f)@.term ==> final(f)@.term == old(f)@.term,
{
}

/// What the other nodes are told of an assignment is enough for them to take
/// it over: they have the same leader then, in a term that is not earlier,
/// and of two nodes at most one leads.
pub proof fn law_assignment_is_taken_over(
    e: &mut LeaderElection,
    leader: &PeerId,
    r: (u64, String, String),
    f: &mut LeaderElection,
    name: &str,
    assigner: &str,
)
    requires
        call_ensures(LeaderElection::set_leader, (e, leader), r),
        r.1@ == name@,
        r.2@ == assigner@,
        call_ensures(LeaderElection::handle_leader_assign, (f, r.0, name, assigner), ()),
        old(e)@.local != old(f)@.local,
    ensures
        final(f)@.leader == final(e)@.leader,
        final(f)@.leader == Some(leader@),
        final(f)@.term >= final(e)@.term,
        r.0 == final(e)@.term,
        assigner@ == old(e)@.local,
        !(final(e)@.role == Role::Leader && final(f)@.role == Role::Leader),
        leader@ == old(f)@.local ==> final(f)@.role == Role::Leader,
        leader@ == old(e)@.local ==> final(e)@.role == Role::Leader,
{
}

/// Switching automatic elections on or off does just that. A manual override
/// is lifted exactly when they are switched on while there is no leader.
pub proof fn law_switching_automatic_elections(e: &mut LeaderElection, enable: bool)
    requires
        call_ensures(LeaderElection::enable_auto_election, (e, enable), ()),
    ensures
        final(e)@.auto_election == enable,
        enable && old(e)@.leader is None ==> !final(e)@.manual_override,
        !enable || old(e)@.leader is Some ==> final(e)@.manual_override
            == old(e)@.manual_override,
        final(e)@.role == old(e)@.role,
        final(e)@.term == old(e)@.term,
        final(e)@.leader == old(e)@.leader,
        final(e)@.voted_for == old(e)@.voted_for,
        final(e)@.votes == old(e)@.votes,
        final(e)@.local == old(e)@.local,
        final(e)@.recovery == old(e)@.recovery,
        final(e)@.notices == old(e)@.notices,
{
}

/// A leader that leaves is the leader no more, and an override by hand is
/// lifted exactly if the node is to elect another then. That any other peer
/// leaves changes nothing.
pub proof fn law_leader_that_leaves(e: &mut LeaderElection, peer: &PeerId)
    requires
        call_ensures(LeaderElection::handle_peer_left, (e, peer), ()),
    ensures
        final(e)@.leader != Some(peer@),
        old(e)@.leader != Some(peer@) ==> final(e)@ == old(e)@,
        old(e)@.leader == Some(peer@) ==> {
            &&& final(e)@.leader is None
            &&& old(e)@.recovery == ManualOverrideRecovery::AutoElect
                ==> !final(e)@.manual_override
            &&& old(e)@.recovery == ManualOverrideRecovery::Hold ==> final(e)@.manual_override
                == old(e)@.manual_override
        },
        final(e)@.role == old(e)@.role,
        final(e)@.term == old(e)@.term,
        final(e)@.voted_for == old(e)@.voted_for,
        final(e)@.votes == old(e)@.votes,
        final(e)@.auto_election == old(e)@.auto_election,
        final(e)@.local == old(e)@.local,
        final(e)@.recovery == old(e)@.recovery,
{
}

/// A change of the leader is noted behind the earlier ones while fewer than
/// sixteen wait, and whoever wins an election is noted as the leader.
pub proof fn law_followed_leader_is_noted(
    e: &mut LeaderElection,
    term: u64,
    leader: &str,
    r: bool,
)
    requires
        call_ensures(LeaderElection::handle_heartbeat, (e, term, leader), r),
    ensures
        r && old(e)@.leader != Some(leader@) && old(e)@.notices.len() < 16 ==> final(e)@.notices
            =~= old(e)@.notices + seq![Some(leader@)],
        old(e)@.leader == Some(leader@) || old(e)@.notices.len() >= 16 ==> final(e)@.notices
            == old(e)@.notices,
{
}

/// The notice of a leader that was elected, assigned or lost.
pub proof fn law_new_or_lost_leader_is_noted(
    e: &mut LeaderElection,
    voter: &str,
    peers: usize,
    f: &mut LeaderElection,
    assigned: &PeerId,
    told: (u64, String, String),
    g: &mut LeaderElection,
    left: &PeerId,
    term: u64,
)
    requires
        call_ensures(LeaderElection::handle_vote_response, (e, term, voter, true, peers), true),
        call_ensures(LeaderElection::set_leader, (f, assigned), told),
        call_ensures(LeaderElection::handle_peer_left, (g, left), ()),
        old(g)@.leader == Some(left@),
        old(e)@.notices.len() < 16,
        old(f)@.notices.len() < 16,
        old(g)@.notices.len() < 16,
    ensures
        final(e)@.notices =~= old(e)@.notices + seq![Some(old(e)@.local)],
        old(f)@.leader != Some(assigned@) ==> final(f)@.notices =~= old(f)@.notices + seq![
            Some(assigned@),
        ],
        final(g)@.notices =~= old(g)@.notices + seq![None::<Seq<char>>],
{
}

/// Taking the notices hands out all that wait, in their order, and leaves
/// none; nothing else changes.
pub proof fn law_notices_are_handed_out_once(
    e: &mut LeaderElection,
    r: Vec<Option<PeerId>>,
)
    requires
        call_ensures(LeaderElection::take_notices, (e,), r),
    ensures
        r@.len() == old(e)@.notices.len(),
        forall|i: int|
            0 <= i < r@.len() ==> types::optional_id(#[trigger] r@[i]) == old(e)@.notices[i],
        final(e)@.notices.len() == 0,
        final(e)@.leader == old(e)@.leader,
        final(e)@.role == old(e)@.role,
        final(e)@.term == old(e)@.term,
        final(e)@.voted_for == old(e)@.voted_for,
        final(e)@.votes == old(e)@.votes,
        final(e)@.manual_override == old(e)@.manual_override,
{
    let n = crate::leader::notices_view(r@);
    assert forall|i: int| 0 <= i < r@.len() implies types::optional_id(#[trigger] r@[i]) == old(
        e,
    )@.notices[i] by {
        assert(n[i] == types::optional_id(r@[i]));
    }
}

proof fn lemma_departures(s: ElectionView, events: Seq<EventView>)
    ensures
        ({
            let after = crate::leader::after_membership(s, events);
            &&& after.leader is None || after.leader == s.leader
            &&& s.leader is Some && events.contains(EventView::Left(s.leader->0))
                ==> after.leader is None
            &&& s.leader is Some && !events.contains(EventView::Left(s.leader->0))
                ==> after.leader == s.leader
            &&& after.role == s.role
            &&& after.term == s.term
            &&& after.local == s.local
        }),
    decreases events.len(),
{
    if events.len() > 0 {
        let before = events.drop_last();
        lemma_departures(s, before);
        if s.leader is Some {
            let left = EventView::Left(s.leader->0);
            if before.contains(left) {
                let i = before.index_of(left);
                assert(events[i] == left);
            }
            if events.contains(left) && !before.contains(left) {
                let i = events.index_of(left);
                if i < before.len() {
                    assert(before[i] == left);
                }
                assert(events.last() == left);
            }
            if events.last() == left {
                assert(events[events.len() - 1] == left);
            }
        }
    }
}

/// How many of the events say that a peer has joined, and how many that one
/// has left.
pub open spec fn arrivals_and_departures(events: Seq<EventView>) -> (nat, nat)
    decreases events.len(),
{
    if events.len() == 0 {
        (0, 0)
    } else {
        let (arrived, left) = arrivals_and_departures(events.drop_last());
        match events.last() {
            EventView::Joined(_) => (arrived + 1, left),
            EventView::Left(_) => (arrived, left + 1),
            EventView::StatusChanged { .. } => (arrived, left),
        }
    }
}

proof fn lemma_count(count: nat, events: Seq<EventView>)
    requires
        arrivals_and_departures(events).1 <= count,
    ensures
        crate::leader::count_after(count, events) == count + arrivals_and_departures(events).0
            - arrivals_and_departures(events).1,
    decreases events.len(),
{
    if events.len() > 0 {
        lemma_count(count, events.drop_last());
    }
}

proof fn lemma_count_bounds(count: nat, events: Seq<EventView>)
    ensures
        crate::leader::count_after(count, events) <= count + arrivals_and_departures(events).0,
        crate::leader::count_after(count, events) + arrivals_and_departures(events).1 >= count
            + arrivals_and_departures(events).0,
    decreases events.len(),
{
    if events.len() > 0 {
        lemma_count_bounds(count, events.drop_last());
    }
}

/// Draining the membership events counts who has arrived and who has left,
/// and forgets the leader exactly if it is among those who left. All events
/// are taken; where some were lost, that is all that is noted.
pub proof fn law_membership_events_are_taken_in(
    e: &mut LeaderElection,
    table: &mut MembershipManager,
    count: &mut usize,
)
    requires
        call_ensures(LeaderElection::drain_membership_events, (e, table, count), ()),
    ensures
        !final(table)@.lagged,
        final(table)@.peers == old(table)@.peers,
        old(table)@.lagged ==> {
            &&& final(e)@ == old(e)@
            &&& *final(count) == *old(count)
            &&& final(table)@.events == old(table)@.events
        },
        !old(table)@.lagged ==> {
            &&& final(table)@.events.len() == 0
            &&& old(e)@.leader matches Some(l) ==> (if old(table)@.events.contains(
                EventView::Left(l),
            ) {
                final(e)@.leader is None
            } else {
                final(e)@.leader == Some(l)
            })
            &&& old(e)@.leader is None ==> final(e)@.leader is None
            &&& arrivals_and_departures(old(table)@.events).1 <= *old(count) ==> *final(count)
                == *old(count) + arrivals_and_departures(old(table)@.events).0
                - arrivals_and_departures(old(table)@.events).1
            &&& *final(count) <= *old(count) + arrivals_and_departures(old(table)@.events).0
            &&& *final(count) + arrivals_and_departures(old(table)@.events).1 >= *old(count)
                + arrivals_and_departures(old(table)@.events).0
        },
        final(e)@.role == old(e)@.role,
        final(e)@.term == old(e)@.term,
{
    let s = old(e)@;
    let events = old(table)@.events;
    lemma_departures(s, events);
    lemma_count_bounds(*old(count) as nat, events);
    if arrivals_and_departures(events).1 <= *old(count) {
        lemma_count(*old(count) as nat, events);
    }
}

} // verus!
