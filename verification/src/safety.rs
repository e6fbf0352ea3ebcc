//! What holds of every run of the state machine.
//!
//! A run is a sequence of events, each a message or a pass over the timers,
//! applied one after the other. The lemmas here speak of the model in
//! [`crate::paxos`], to which the executable transitions are proved equal.

use crate::msg::Message;
use crate::net::{broadcast, Envelope};
use crate::paxos::{leader_of, quorum, votes_for, PaxosState, Vote};
use vstd::arithmetic::div_mod::{lemma_fundamental_div_mod, lemma_fundamental_div_mod_converse};
use vstd::prelude::*;
use vstd::relations::injective_on;
use vstd::set_lib::lemma_map_size;

verus! {

/// What can happen to a node.
pub enum Event {
    /// A message has come in.
    Received(Message),
    /// The timers were looked at.
    Timers { progress_expired: bool, proof_fired: bool },
}

/// Whether `e` may happen in `s`: the progress timer may not run out once the
/// last view that fits in 32 bits is campaigned for.
pub open spec fn admits(s: PaxosState, e: Event) -> bool {
    match e {
        Event::Received(_) => true,
        Event::Timers { progress_expired, .. } => progress_expired ==> s.last_attempted_view
            < u32::MAX,
    }
}

/// The state after `e` has happened in `s`.
pub open spec fn step(s: PaxosState, e: Event) -> PaxosState {
    match e {
        Event::Received(msg) => s.receive(msg).0,
        Event::Timers { progress_expired, proof_fired } => s.tick(progress_expired, proof_fired).0,
    }
}

/// The state after the events have happened, first to last.
pub open spec fn run(s: PaxosState, events: Seq<Event>) -> PaxosState
    decreases events.len(),
{
    if events.len() == 0 {
        s
    } else {
        step(run(s, events.drop_last()), events.last())
    }
}

/// Whether each event may happen in the state that those before it lead to.
pub open spec fn admits_all(s: PaxosState, events: Seq<Event>) -> bool
    decreases events.len(),
{
    events.len() == 0 || (admits_all(s, events.drop_last()) && admits(
        run(s, events.drop_last()),
        events.last(),
    ))
}

/// The nodes that have a vote for `view` among `votes`.
pub open spec fn voters(votes: Set<Vote>, view: u32) -> Set<u32> {
    votes_for(votes, view).map(|v: Vote| v.server_id)
}

/// One event leaves the node in a state that the protocol allows, with the
/// same identity, and takes neither of its two views back.
pub proof fn lemma_step_preserves(s: PaxosState, e: Event)
    requires
        s.wf(),
        admits(s, e),
    ensures
        step(s, e).wf(),
        step(s, e).pid == s.pid,
        step(s, e).size == s.size,
        step(s, e).test_case == s.test_case,
        step(s, e).progress_length == s.progress_length,
        step(s, e).proof_length == s.proof_length,
        step(s, e).current_view >= s.current_view,
        step(s, e).last_attempted_view >= s.last_attempted_view,
{
}

/// A run leaves the node in a state that the protocol allows, with the same
/// identity.
pub proof fn lemma_run_preserves(s: PaxosState, events: Seq<Event>)
    requires
        s.wf(),
        admits_all(s, events),
    ensures
        run(s, events).wf(),
        run(s, events).pid == s.pid,
        run(s, events).size == s.size,
        run(s, events).test_case == s.test_case,
        run(s, events).progress_length == s.progress_length,
        run(s, events).proof_length == s.proof_length,
    decreases events.len(),
{
    if events.len() > 0 {
        lemma_run_preserves(s, events.drop_last());
        lemma_step_preserves(run(s, events.drop_last()), events.last());
    }
}

/// Each timer that has fired is served in the pass, whatever the other one
/// does: the progress timer begins the campaign for the next view and queues
/// its votes, the proof timer queues a proof of the installed view behind
/// them, and a timer that has not fired queues nothing.
pub proof fn lemma_each_fired_timer_is_served(
    s: PaxosState,
    progress_expired: bool,
    proof_fired: bool,
)
    requires
        s.wf(),
        progress_expired ==> s.last_attempted_view < u32::MAX,
    ensures
        ({
            let after = s.tick(progress_expired, proof_fired).0;
            let votes = if progress_expired {
                broadcast(
                    s.size,
                    Message::ViewChange {
                        server_id: s.pid,
                        attempted: (s.last_attempted_view + 1) as u32,
                    },
                )
            } else {
                Seq::<Envelope>::empty()
            };
            let proofs = if proof_fired {
                broadcast(
                    s.size,
                    Message::VCProof { server_id: s.pid, installed: s.current_view },
                )
            } else {
                Seq::<Envelope>::empty()
            };
            &&& after.outgoing == s.outgoing + votes + proofs
            &&& after.current_view == s.current_view
            &&& progress_expired ==> after.last_attempted_view == s.last_attempted_view + 1
                && after.votes == Set::<Vote>::empty()
            &&& !progress_expired ==> after.last_attempted_view == s.last_attempted_view
                && after.votes == s.votes
        }),
{
    let after = s.tick(progress_expired, proof_fired).0;
    let none = Seq::<Envelope>::empty();
    assert(s.outgoing + none =~= s.outgoing);
    assert(after.outgoing + none =~= after.outgoing);
}

/// Where a run may happen, so may each of its beginnings.
pub proof fn lemma_prefix_admitted(s: PaxosState, events: Seq<Event>, i: int)
    requires
        admits_all(s, events),
        0 <= i <= events.len(),
    ensures
        admits_all(s, events.take(i)),
    decreases events.len(),
{
    if i < events.len() {
        lemma_prefix_admitted(s, events.drop_last(), i);
        assert(events.drop_last().take(i) =~= events.take(i));
    } else {
        assert(events.take(i) =~= events);
    }
}

/// The installed view never decreases: of two moments of a run, the later
/// one has the view of the earlier one or a higher one. The same holds of the
/// view campaigned for.
pub proof fn lemma_views_never_decrease(s: PaxosState, events: Seq<Event>, i: int, j: int)
    requires
        s.wf(),
        admits_all(s, events),
        0 <= i <= j <= events.len(),
    ensures
        run(s, events.take(i)).current_view <= run(s, events.take(j)).current_view,
        run(s, events.take(i)).last_attempted_view <= run(s, events.take(j)).last_attempted_view,
    decreases j - i,
{
    if i < j {
        lemma_views_never_decrease(s, events, i, j - 1);
        lemma_prefix_admitted(s, events, j);
        lemma_prefix_admitted(s, events, j - 1);
        assert(events.take(j).drop_last() =~= events.take(j - 1));
        lemma_run_preserves(s, events.take(j - 1));
        lemma_step_preserves(run(s, events.take(j - 1)), events.take(j).last());
    }
}

/// The number of votes for a view is the number of nodes that voted for it.
pub proof fn lemma_votes_count_voters(votes: Set<Vote>, view: u32)
    requires
        votes.finite(),
    ensures
        votes_for(votes, view).finite(),
        voters(votes, view).finite(),
        voters(votes, view).len() == votes_for(votes, view).len(),
        forall|id: u32|
            voters(votes, view).contains(id) <==> votes.contains(
                Vote { server_id: id, attempted: view },
            ),
{
    let for_view = votes_for(votes, view);
    let by_server = |v: Vote| v.server_id;
    assert(injective_on(by_server, for_view)) by {
        assert forall|a: Vote, b: Vote|
            for_view.contains(a) && for_view.contains(b) && #[trigger] by_server(a)
                == #[trigger] by_server(b) implies a == b by {}
    }
    lemma_map_size(for_view, voters(votes, view), by_server);
    assert forall|id: u32|
        voters(votes, view).contains(id) <==> votes.contains(
            Vote { server_id: id, attempted: view },
        ) by {
        let vote = Vote { server_id: id, attempted: view };
        if votes.contains(vote) {
            assert(for_view.contains(vote) && by_server(vote) == id);
        }
    }
}

/// A vote installs a view only with a majority behind it: where a
/// `ViewChange` makes a node install, the view installed is the one that the
/// message names, the node then holds votes for that very view from a
/// majority of distinct nodes, and its scenario does not make it crash.
pub proof fn lemma_install_by_votes_has_quorum(s: PaxosState, server_id: u32, attempted: u32)
    requires
        s.wf(),
    ensures
        ({
            let (after, outcome) = s.receive(Message::ViewChange { server_id, attempted });
            (outcome is Installed || outcome is Finished) ==> {
                &&& attempted == s.last_attempted_view
                &&& after.current_view == attempted
                &&& after.votes == s.votes.insert(Vote { server_id, attempted })
                &&& voters(after.votes, attempted).len() >= quorum(s.size)
                &&& !s.test_case.crashes(s.pid)
            }
        }),
        ({
            let (after, outcome) = s.receive(Message::ViewChange { server_id, attempted });
            after.current_view != s.current_view ==> outcome is Installed || outcome is Finished
        }),
{
    let after = s.receive(Message::ViewChange { server_id, attempted }).0;
    lemma_votes_count_voters(after.votes, attempted);
}

/// A vote short of a majority installs nothing: the node keeps its view and
/// queues no message.
pub proof fn lemma_no_quorum_no_install(s: PaxosState, server_id: u32)
    requires
        s.wf(),
        voters(
            s.votes.insert(Vote { server_id, attempted: s.last_attempted_view }),
            s.last_attempted_view,
        ).len() < quorum(s.size),
    ensures
        ({
            let (after, outcome) = s.receive(
                Message::ViewChange { server_id, attempted: s.last_attempted_view },
            );
            &&& outcome is VotePending
            &&& after.current_view == s.current_view
            &&& after.outgoing == s.outgoing
        }),
{
    lemma_votes_count_voters(
        s.votes.insert(Vote { server_id, attempted: s.last_attempted_view }),
        s.last_attempted_view,
    );
}

/// Whether `e` leaves a campaign for `view` standing: it is neither a vote
/// for a higher view nor the progress timer running out.
pub open spec fn keeps_campaign(e: Event, view: u32) -> bool {
    match e {
        Event::Received(Message::ViewChange { attempted, .. }) => attempted <= view,
        Event::Received(Message::VCProof { .. }) => true,
        Event::Timers { progress_expired, .. } => !progress_expired,
    }
}

/// Whether the vote of node `id` for `view` is among the first `k` events.
pub open spec fn has_voted(events: Seq<Event>, k: int, id: u32, view: u32) -> bool {
    exists|i: int|
        0 <= i < k && i < events.len() && #[trigger] events[i] == Event::Received(
            Message::ViewChange { server_id: id, attempted: view },
        )
}

/// While nothing ends its campaign, a node goes on campaigning for the same
/// view and holds every vote for it that has come in.
proof fn lemma_campaign_collects(s: PaxosState, events: Seq<Event>, k: int)
    requires
        s.wf(),
        0 <= k <= events.len(),
        forall|i: int|
            0 <= i < events.len() ==> keeps_campaign(#[trigger] events[i], s.last_attempted_view),
    ensures
        ({
            let after = run(s, events.take(k));
            &&& after.wf()
            &&& after.pid == s.pid
            &&& after.size == s.size
            &&& after.test_case == s.test_case
            &&& after.last_attempted_view == s.last_attempted_view
            &&& forall|id: u32|
                has_voted(events, k, id, s.last_attempted_view) ==> after.votes.contains(
                    Vote { server_id: id, attempted: s.last_attempted_view },
                )
        }),
    decreases k,
{
    let view = s.last_attempted_view;
    if k > 0 {
        lemma_campaign_collects(s, events, k - 1);
        assert(events.take(k).drop_last() =~= events.take(k - 1));
        assert(events.take(k).last() == events[k - 1]);
        let before = run(s, events.take(k - 1));
        let after = run(s, events.take(k));
        assert(keeps_campaign(events[k - 1], view));
        assert(after == step(before, events[k - 1]));
        assert forall|id: u32| has_voted(events, k, id, view) implies after.votes.contains(
            Vote { server_id: id, attempted: view },
        ) by {
            let i = choose|i: int|
                0 <= i < k && i < events.len() && #[trigger] events[i] == Event::Received(
                    Message::ViewChange { server_id: id, attempted: view },
                );
            if i < k - 1 {
                assert(has_voted(events, k - 1, id, view));
                assert(before.votes.contains(Vote { server_id: id, attempted: view }));
            }
        }
    }
}

/// While nothing ends its campaign, a node has installed the view it
/// campaigns for once the votes of a majority have come in.
proof fn lemma_campaign_installs(s: PaxosState, events: Seq<Event>, senders: Seq<u32>, k: int)
    requires
        s.wf(),
        !s.test_case.crashes(s.pid),
        0 <= k <= events.len(),
        forall|i: int|
            0 <= i < events.len() ==> keeps_campaign(#[trigger] events[i], s.last_attempted_view),
        senders.no_duplicates(),
        senders.len() >= quorum(s.size),
        forall|j: int|
            0 <= j < senders.len() ==> has_voted(
                events,
                k,
                #[trigger] senders[j],
                s.last_attempted_view,
            ),
    ensures
        run(s, events.take(k)).current_view == s.last_attempted_view,
    decreases k,
{
    let view = s.last_attempted_view;
    if k == 0 {
        assert(has_voted(events, k, senders[0], view));
    } else {
        lemma_campaign_collects(s, events, k - 1);
        lemma_campaign_collects(s, events, k);
        assert(events.take(k).drop_last() =~= events.take(k - 1));
        assert(events.take(k).last() == events[k - 1]);
        let before = run(s, events.take(k - 1));
        let after = run(s, events.take(k));
        assert(keeps_campaign(events[k - 1], view));
        assert(after == step(before, events[k - 1]));
        if forall|j: int|
            0 <= j < senders.len() ==> has_voted(events, k - 1, #[trigger] senders[j], view) {
            lemma_campaign_installs(s, events, senders, k - 1);
            lemma_step_preserves(before, events[k - 1]);
        } else {
            let late = choose|j: int|
                0 <= j < senders.len() && !has_voted(events, k - 1, #[trigger] senders[j], view);
            assert(has_voted(events, k, senders[late], view));
            let i = choose|i: int|
                0 <= i < k && i < events.len() && #[trigger] events[i] == Event::Received(
                    Message::ViewChange { server_id: senders[late], attempted: view },
                );
            assert(i == k - 1);
            let recorded = before.record(Vote { server_id: senders[late], attempted: view });
            assert(after == recorded.install_view_if_possible().0);
            assert(after.votes == recorded.votes);
            let held = Seq::new(
                senders.len(),
                |j: int| Vote { server_id: senders[j], attempted: view },
            );
            assert(held.no_duplicates());
            held.unique_seq_to_set();
            assert forall|v: Vote| held.to_set().contains(v) implies votes_for(
                recorded.votes,
                view,
            ).contains(v) by {
                let j = choose|j: int| 0 <= j < held.len() && held[j] == v;
                assert(has_voted(events, k, senders[j], view));
            }
            vstd::set_lib::lemma_len_subset(held.to_set(), votes_for(recorded.votes, view));
        }
    }
}

/// A campaign that a majority votes for installs its view. Let a node
/// campaign for a view, and let events come in of which none ends the
/// campaign: votes for this view or lower ones, proofs, and passes over the
/// timers in which the progress timer has not run out. If the votes for the
/// view of distinct nodes that make a majority are among them, in any order
/// and any number of times, the node has installed the view in the end,
/// unless its scenario makes it crash.
pub proof fn lemma_campaign_with_majority_installs(
    s: PaxosState,
    events: Seq<Event>,
    senders: Seq<u32>,
)
    requires
        s.wf(),
        !s.test_case.crashes(s.pid),
        forall|i: int|
            0 <= i < events.len() ==> keeps_campaign(#[trigger] events[i], s.last_attempted_view),
        senders.no_duplicates(),
        senders.len() >= quorum(s.size),
        forall|j: int|
            0 <= j < senders.len() ==> has_voted(
                events,
                events.len() as int,
                #[trigger] senders[j],
                s.last_attempted_view,
            ),
    ensures
        run(s, events).current_view == s.last_attempted_view,
        run(s, events).last_attempted_view == s.last_attempted_view,
{
    lemma_campaign_installs(s, events, senders, events.len() as int);
    lemma_campaign_collects(s, events, events.len() as int);
    assert(events.take(events.len() as int) =~= events);
}

/// With fewer than half of the nodes down, the next view is installed. Let
/// the progress timer of a node run out, so that it campaigns for the next
/// view, and let the votes for that view of all the nodes that are up come in,
/// among other events that do not end the campaign. If at most
/// `(size - 1) / 2` nodes are down, the node has installed the next view in
/// the end, unless its scenario makes it crash.
pub proof fn lemma_minority_down_next_view_installed(
    s: PaxosState,
    events: Seq<Event>,
    up: Seq<u32>,
    down: nat,
)
    requires
        s.wf(),
        s.last_attempted_view < u32::MAX,
        !s.test_case.crashes(s.pid),
        down <= (s.size - 1) / 2,
        up.no_duplicates(),
        up.len() == s.size - down,
        forall|i: int|
            0 <= i < events.len() ==> keeps_campaign(
                #[trigger] events[i],
                (s.last_attempted_view + 1) as u32,
            ),
        forall|j: int|
            0 <= j < up.len() ==> has_voted(
                events,
                events.len() as int,
                #[trigger] up[j],
                (s.last_attempted_view + 1) as u32,
            ),
    ensures
        run(s.tick(true, false).0, events).current_view == s.last_attempted_view + 1,
{
    let campaigning = s.tick(true, false).0;
    lemma_step_preserves(s, Event::Timers { progress_expired: true, proof_fired: false });
    lemma_survivors_make_quorum(s.size, down);
    lemma_campaign_with_majority_installs(campaigning, events, up);
}

/// Whether `e` can come about while only the nodes in `senders` vote and no
/// view above `installed` has been installed anywhere: a vote is one of
/// theirs, and a proof is of a view up to `installed`.
pub open spec fn from_few(e: Event, senders: Set<u32>, installed: u32) -> bool {
    match e {
        Event::Received(Message::ViewChange { server_id, .. }) => senders.contains(server_id),
        Event::Received(Message::VCProof { installed: view, .. }) => view <= installed,
        Event::Timers { .. } => true,
    }
}

/// Too few voters install nothing: a node that only hears votes of nodes that
/// are no majority, and no proof of a view above its own, keeps the view it
/// has installed, however often its timers fire.
pub proof fn lemma_minority_installs_nothing(
    s: PaxosState,
    events: Seq<Event>,
    senders: Set<u32>,
)
    requires
        s.wf(),
        admits_all(s, events),
        senders.finite(),
        senders.len() < quorum(s.size),
        forall|v: Vote| #[trigger] s.votes.contains(v) ==> senders.contains(v.server_id),
        forall|i: int| 0 <= i < events.len() ==> from_few(#[trigger] events[i], senders, s.current_view),
    ensures
        run(s, events).current_view == s.current_view,
        forall|v: Vote| #[trigger]
            run(s, events).votes.contains(v) ==> senders.contains(v.server_id),
    decreases events.len(),
{
    if events.len() > 0 {
        let earlier = events.drop_last();
        assert forall|i: int| 0 <= i < earlier.len() implies from_few(
            #[trigger] earlier[i],
            senders,
            s.current_view,
        ) by {
            assert(earlier[i] == events[i]);
        }
        lemma_minority_installs_nothing(s, earlier, senders);
        lemma_run_preserves(s, earlier);
        let before = run(s, earlier);
        let last = events.last();
        assert(from_few(events[events.len() - 1], senders, s.current_view));
        if let Event::Received(Message::ViewChange { server_id, attempted }) = last {
            if attempted == before.last_attempted_view {
                let recorded = before.record(Vote { server_id, attempted });
                lemma_votes_count_voters(recorded.votes, attempted);
                assert(voters(recorded.votes, attempted).subset_of(senders));
                vstd::set_lib::lemma_len_subset(voters(recorded.votes, attempted), senders);
            }
        }
    }
}

/// Nodes that have installed the same view in systems of the same size name
/// the same leader, and the leader is one of the nodes where their number fits
/// in 32 bits.
pub proof fn lemma_leader_agreement(a: PaxosState, b: PaxosState)
    requires
        a.wf(),
        b.wf(),
        a.size == b.size,
        a.current_view == b.current_view,
    ensures
        a.leader() == b.leader(),
        a.leader() == leader_of(a.current_view, a.size),
        a.size <= u32::MAX ==> a.leader() < a.size,
{
}

/// Leadership goes round: counted from any view, each node leads one of the
/// next views, as many as there are nodes. The result tells how many views
/// ahead that is.
pub proof fn lemma_every_node_leads(view: u32, size: nat, node: u32) -> (ahead: nat)
    requires
        0 < size <= u32::MAX,
        node < size,
        view + size - 1 <= u32::MAX,
    ensures
        ahead < size,
        leader_of((view + ahead) as u32, size) == node,
{
    let m = size as int;
    let r = view as int % m;
    let q = view as int / m;
    lemma_fundamental_div_mod(view as int, m);
    assert(m * q == q * m) by (nonlinear_arith);
    if node >= r {
        let ahead = (node - r) as nat;
        lemma_fundamental_div_mod_converse(view + ahead, m, q, node as int);
        ahead
    } else {
        let ahead = (node + m - r) as nat;
        assert((q + 1) * m == q * m + m) by (nonlinear_arith);
        lemma_fundamental_div_mod_converse(view + ahead, m, q + 1, node as int);
        ahead
    }
}

/// A vote counts once: to record it a second time changes neither the votes
/// nor the number of voters for any view.
pub proof fn lemma_vote_idempotent(s: PaxosState, vote: Vote, view: u32)
    ensures
        s.record(vote).record(vote) == s.record(vote),
        s.record(vote).record(vote).vote_count() == s.record(vote).vote_count(),
        voters(s.votes.insert(vote).insert(vote), view) == voters(s.votes.insert(vote), view),
{
    assert(s.votes.insert(vote).insert(vote) =~= s.votes.insert(vote));
}

/// A `ViewChange` that comes in twice is counted once: where the first one
/// left the node waiting for more votes, the second one changes nothing.
pub proof fn lemma_repeated_vote_changes_nothing(s: PaxosState, server_id: u32, attempted: u32)
    requires
        s.wf(),
        s.receive(Message::ViewChange { server_id, attempted }).1 is VotePending,
    ensures
        ({
            let msg = Message::ViewChange { server_id, attempted };
            let once = s.receive(msg);
            let twice = once.0.receive(msg);
            twice == once
        }),
{
    let msg = Message::ViewChange { server_id, attempted };
    let once = s.receive(msg);
    let vote = Vote { server_id, attempted };
    assert(once.0.votes.insert(vote) =~= once.0.votes);
    assert(once.0.record(vote) =~= once.0);
}

/// Among `size` nodes of which `crashed` are down, those that are left make a
/// majority exactly when fewer than half of all are down.
pub proof fn lemma_survivors_make_quorum(size: nat, crashed: nat)
    requires
        size > 0,
        crashed <= size,
    ensures
        size - crashed >= quorum(size) <==> crashed <= (size - 1) / 2,
{
}

} // verus!
