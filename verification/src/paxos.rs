//! The view-change state machine of one node.
//!
//! A node holds the view it has installed and the view it campaigns for. It
//! collects `ViewChange` votes for the campaign, installs the view once a
//! majority has voted or a peer proves that it has installed it, and moves on
//! to the next view when its progress timer runs out.
//!
//! The machine does no I/O and ends no process. Each transition queues the
//! messages it sends in the directory and returns an [`Outcome`] that tells
//! the driver what else to do: reset the progress timer, print who leads,
//! stop, or crash.

use crate::msg::{DecodeError, Message};
use crate::net::{broadcast, Envelope, Nodes};
use crate::TestCase;
use vstd::prelude::*;

verus! {

/// A vote of node `server_id` for the view `attempted`.
#[derive(Clone, Copy, Debug, PartialEq, Eq, Structural)]
pub struct Vote {
    pub server_id: u32,
    pub attempted: u32,
}

/// A configuration for constructing a new instance of Paxos.
pub struct PaxosConfig {
    /// the process id of the current node
    pub pid: usize,
    /// all the nodes in the system
    pub nodes: Nodes,
    /// the current test case being executed
    pub test_case: TestCase,
    /// the duration of the progress timer in seconds
    pub progress_timer_length: u64,
    /// the duration of the vc proof timer in seconds
    pub vc_proof_timer_length: u64,
}

/// Why a configuration was refused.
#[derive(Clone, Copy, Debug, PartialEq, Eq, Structural)]
pub enum PaxosError {
    /// The node's index does not fit the 32 bits that a message has for it.
    PidOutOfRange(usize),
    /// The directory is empty, so that no view has a leader.
    EmptyDirectory,
}

/// The news that a view has been installed: who says so, who leads, which view.
#[derive(Clone, Copy, Debug, PartialEq, Eq, Structural)]
pub struct Announcement {
    pub pid: u32,
    pub leader: u32,
    pub view: u32,
}

/// The character that stands for the digit `d`.
pub open spec fn digit(d: nat) -> char
    recommends
        d < 10,
{
    if d == 0 {
        '0'
    } else if d == 1 {
        '1'
    } else if d == 2 {
        '2'
    } else if d == 3 {
        '3'
    } else if d == 4 {
        '4'
    } else if d == 5 {
        '5'
    } else if d == 6 {
        '6'
    } else if d == 7 {
        '7'
    } else if d == 8 {
        '8'
    } else {
        '9'
    }
}

/// The decimal digits of `n`, without leading zeros.
pub open spec fn decimal(n: nat) -> Seq<char>
    decreases n,
{
    if n < 10 {
        seq![digit(n)]
    } else {
        decimal(n / 10).push(digit(n % 10))
    }
}

/// The text of one digit.
fn digit_str(d: u32) -> (text: &'static str)
    requires
        d < 10,
    ensures
        text@ == seq![digit(d as nat)],
{
    proof {
        reveal_strlit("0");
        reveal_strlit("1");
        reveal_strlit("2");
        reveal_strlit("3");
        reveal_strlit("4");
        reveal_strlit("5");
        reveal_strlit("6");
        reveal_strlit("7");
        reveal_strlit("8");
        reveal_strlit("9");
    }
    let text = match d {
        0 => "0",
        1 => "1",
        2 => "2",
        3 => "3",
        4 => "4",
        5 => "5",
        6 => "6",
        7 => "7",
        8 => "8",
        _ => "9",
    };
    assert(text@ =~= seq![digit(d as nat)]);
    text
}

/// Appends the decimal digits of `n` to `out`.
fn append_decimal(out: &mut String, n: u32)
    ensures
        final(out)@ == old(out)@ + decimal(n as nat),
    decreases n,
{
    if n >= 10 {
        append_decimal(out, n / 10);
    }
    out.append(digit_str(n % 10));
    assert(out@ =~= old(out)@ + decimal(n as nat));
}

impl Announcement {
    /// The line that tells of the install:
    /// `<pid>: Server <leader> is the new leader of view <view>`.
    pub open spec fn text(self) -> Seq<char> {
        decimal(self.pid as nat) + ": Server "@ + decimal(self.leader as nat)
            + " is the new leader of view "@ + decimal(self.view as nat)
    }

    /// Writes the line that tells of the install.
    pub fn line(&self) -> (line: String)
        ensures
            line@ == self.text(),
    {
        let mut line = String::new();
        append_decimal(&mut line, self.pid);
        line.append(": Server ");
        append_decimal(&mut line, self.leader);
        line.append(" is the new leader of view ");
        append_decimal(&mut line, self.view);
        line
    }
}

/// What a transition did, and what it leaves for the driver to do.
#[derive(Clone, Copy, Debug, PartialEq, Eq, Structural)]
pub enum Outcome {
    /// A vote for a view below the one campaigned for was dropped.
    Stale,
    /// A proof that does not settle the campaign was dropped.
    Ignored,
    /// A campaign for `view` has begun and its votes are queued. The progress
    /// timer starts anew. Where the proof timer had fired in the same pass, a
    /// proof of the installed view is queued behind the votes.
    ViewChangeStarted { view: u32 },
    /// The vote is recorded; `votes` nodes have voted, which is no majority.
    VotePending { votes: usize },
    /// The view is installed and its proof is queued. The announcement is to
    /// be printed.
    Installed(Announcement),
    /// The view is installed and the scenario ends here: the announcement is
    /// to be printed and the process to stop with success. No proof is queued.
    Finished(Announcement),
    /// The scenario makes this node crash before it installs the view.
    Crashed,
    /// The proof timer fired and a proof of the installed view is queued.
    ProofSent,
    /// What came in bears a tag that names no message. It was dropped and is
    /// to be logged; the node goes on as before.
    Unreadable { tag: u32 },
    /// What came in is no whole frame. Nothing was taken in.
    Incomplete,
}

/// The number of nodes that make a majority among `size`.
pub open spec fn quorum(size: nat) -> nat {
    size / 2 + 1
}

/// The leader of `view` among `size` nodes: the view modulo the number of
/// nodes, or the view itself where that number does not fit in 32 bits.
pub open spec fn leader_of(view: u32, size: nat) -> u32
    recommends
        size > 0,
{
    if size <= u32::MAX {
        (view as nat % size) as u32
    } else {
        view
    }
}

/// The votes among `votes` that are for `view`. No node has two of them, so
/// their number is the number of nodes that voted for `view`.
pub open spec fn votes_for(votes: Set<Vote>, view: u32) -> Set<Vote> {
    votes.filter(|v: Vote| v.attempted == view)
}

/// The state of a node, as the protocol sees it.
#[verifier::ext_equal]
pub struct PaxosState {
    /// this node's index
    pub pid: u32,
    /// the number of nodes
    pub size: nat,
    /// the scenario this node plays
    pub test_case: TestCase,
    /// the time a campaign is given before the next one begins, in seconds
    pub progress_length: u64,
    /// the time between two proofs of the installed view, in seconds
    pub proof_length: u64,
    /// the view this node campaigns for
    pub last_attempted_view: u32,
    /// the view this node has installed
    pub current_view: u32,
    /// the votes collected for the campaign
    pub votes: Set<Vote>,
    /// the messages queued for sending, oldest first
    pub outgoing: Seq<Envelope>,
}

impl PaxosState {
    /// What holds of every state that a node can reach.
    pub open spec fn wf(self) -> bool {
        &&& 0 < self.size <= usize::MAX
        &&& self.votes.finite()
        &&& self.current_view <= self.last_attempted_view
        &&& forall|v: Vote| #[trigger] self.votes.contains(v) ==> v.attempted == self.last_attempted_view
    }

    /// The state a node starts in: view 0 installed, no campaign, no votes.
    pub open spec fn initial(
        pid: u32,
        size: nat,
        test_case: TestCase,
        progress_length: u64,
        proof_length: u64,
        outgoing: Seq<Envelope>,
    ) -> PaxosState {
        PaxosState {
            pid,
            size,
            test_case,
            progress_length,
            proof_length,
            last_attempted_view: 0,
            current_view: 0,
            votes: Set::empty(),
            outgoing,
        }
    }

    /// The leader of the installed view.
    pub open spec fn leader(self) -> u32 {
        leader_of(self.current_view, self.size)
    }

    /// The number of nodes that have voted for the campaign.
    pub open spec fn vote_count(self) -> nat {
        votes_for(self.votes, self.last_attempted_view).len()
    }

    /// The state with `msg` queued once for every node.
    pub open spec fn multicast(self, msg: Message) -> PaxosState {
        PaxosState { outgoing: self.outgoing + broadcast(self.size, msg), ..self }
    }

    /// The state with `vote` among the votes.
    pub open spec fn record(self, vote: Vote) -> PaxosState {
        PaxosState { votes: self.votes.insert(vote), ..self }
    }

    /// Begins the campaign for `new_view`: the votes are dropped and the
    /// node's own `ViewChange` goes to everyone.
    pub open spec fn start_view_change(self, new_view: u32) -> PaxosState
        recommends
            new_view > self.current_view,
    {
        PaxosState { last_attempted_view: new_view, votes: Set::empty(), ..self }.multicast(
            Message::ViewChange { server_id: self.pid, attempted: new_view },
        )
    }

    /// Installs the view campaigned for. Where the scenario ends with this
    /// view, the node stops; else the proof goes to everyone.
    pub open spec fn install_view(self) -> (PaxosState, Outcome)
        recommends
            self.last_attempted_view >= self.current_view,
    {
        let installed = PaxosState { current_view: self.last_attempted_view, ..self };
        let news = Announcement {
            pid: self.pid,
            leader: installed.leader(),
            view: installed.current_view,
        };
        if self.test_case.exits(news.view, news.leader) {
            (installed, Outcome::Finished(news))
        } else {
            (
                installed.multicast(
                    Message::VCProof { server_id: self.pid, installed: installed.current_view },
                ),
                Outcome::Installed(news),
            )
        }
    }

    /// Installs the view campaigned for if a majority has voted for it,
    /// unless the scenario makes the node crash at that point.
    pub open spec fn install_view_if_possible(self) -> (PaxosState, Outcome) {
        if self.vote_count() >= quorum(self.size) {
            if self.test_case.crashes(self.pid) {
                (self, Outcome::Crashed)
            } else {
                self.install_view()
            }
        } else {
            (self, Outcome::VotePending { votes: self.vote_count() as usize })
        }
    }

    /// The node's reaction to a message.
    pub open spec fn receive(self, msg: Message) -> (PaxosState, Outcome) {
        match msg {
            Message::ViewChange { server_id, attempted } => {
                if attempted < self.last_attempted_view {
                    (self, Outcome::Stale)
                } else if attempted > self.last_attempted_view {
                    (
                        self.start_view_change(attempted),
                        Outcome::ViewChangeStarted { view: attempted },
                    )
                } else {
                    self.record(Vote { server_id, attempted }).install_view_if_possible()
                }
            },
            Message::VCProof { server_id, installed } => {
                if installed == self.last_attempted_view && installed > self.current_view {
                    self.install_view()
                } else {
                    (self, Outcome::Ignored)
                }
            },
        }
    }

    /// The node's reaction to what the decoder made of the bytes that came in:
    /// a message is taken in, and anything else leaves the node as it is. An
    /// unknown tag is no reason to stop.
    pub open spec fn deliver(self, frame: Result<Option<Message>, DecodeError>) -> (
        PaxosState,
        Outcome,
    ) {
        match frame {
            Ok(Some(msg)) => self.receive(msg),
            Ok(None) => (self, Outcome::Incomplete),
            Err(DecodeError::UnknownMessageType(tag)) => (self, Outcome::Unreadable { tag }),
        }
    }

    /// The state with a proof of the installed view queued for every node.
    pub open spec fn send_proof(self) -> PaxosState {
        self.multicast(Message::VCProof { server_id: self.pid, installed: self.current_view })
    }

    /// The node's reaction to its timers. Each timer that has fired is served
    /// in the same pass, the progress timer first: where it has run out, the
    /// next view is campaigned for; where the proof timer has fired, a proof
    /// of the installed view goes to everyone, whether or not a campaign has
    /// just begun.
    pub open spec fn tick(self, progress_expired: bool, proof_fired: bool) -> (
        PaxosState,
        Option<Outcome>,
    )
        recommends
            progress_expired ==> self.last_attempted_view < u32::MAX,
    {
        let next = (self.last_attempted_view + 1) as u32;
        if progress_expired && proof_fired {
            (
                self.start_view_change(next).send_proof(),
                Some(Outcome::ViewChangeStarted { view: next }),
            )
        } else if progress_expired {
            (self.start_view_change(next), Some(Outcome::ViewChangeStarted { view: next }))
        } else if proof_fired {
            (self.send_proof(), Some(Outcome::ProofSent))
        } else {
            (self, None)
        }
    }
}

/// The view-change protocol as one node runs it.
pub struct Paxos {
    /// the process id of the current node
    pid: u32,
    /// all the nodes in the system
    nodes: Nodes,
    /// the current test case being executed
    test_case: TestCase,
    /// the length of the progress timer, in seconds
    progress_length: u64,
    /// the length of the vc proof timer, in seconds
    proof_length: u64,
    /// the last view we attempted to install
    last_attempted_view: u32,
    /// the current view that we have installed
    current_view: u32,
    /// all the view change messages received for the attempted view, each once
    view_change_state: Vec<Vote>,
}

impl View for Paxos {
    type V = PaxosState;

    closed spec fn view(&self) -> PaxosState {
        PaxosState {
            pid: self.pid,
            size: self.nodes.spec_len() as nat,
            test_case: self.test_case,
            progress_length: self.progress_length,
            proof_length: self.proof_length,
            last_attempted_view: self.last_attempted_view,
            current_view: self.current_view,
            votes: self.view_change_state@.to_set(),
            outgoing: self.nodes.queued(),
        }
    }
}

/// Counting the votes for `view` one by one: the next vote is new to those
/// before it, and counts where it is for `view`.
proof fn lemma_votes_for_next(s: Seq<Vote>, i: int, view: u32)
    requires
        0 <= i < s.len(),
        s.no_duplicates(),
    ensures
        s.take(i).to_set().finite(),
        votes_for(s.take(i).to_set(), view).finite(),
        !votes_for(s.take(i).to_set(), view).contains(s[i]),
        votes_for(s.take(i + 1).to_set(), view) == if s[i].attempted == view {
            votes_for(s.take(i).to_set(), view).insert(s[i])
        } else {
            votes_for(s.take(i).to_set(), view)
        },
{
    let before = s.take(i);
    let after = s.take(i + 1);
    vstd::seq_lib::seq_to_set_is_finite(before);
    assert(!before.to_set().contains(s[i])) by {
        if before.contains(s[i]) {
            let j = choose|j: int| 0 <= j < before.len() && before[j] == s[i];
            assert(s[j] == s[i]);
        }
    }
    assert(after =~= before.push(s[i]));
    before.lemma_push_to_set_commute(s[i]);
    assert(after.to_set() =~= before.to_set().insert(s[i]));
    if s[i].attempted == view {
        assert(votes_for(after.to_set(), view) =~= votes_for(before.to_set(), view).insert(s[i]));
    } else {
        assert(votes_for(after.to_set(), view) =~= votes_for(before.to_set(), view));
    }
}

impl Paxos {
    /// What every node holds to: it campaigns for no view below the one it has
    /// installed, and holds each vote once, all of them for its campaign.
    pub closed spec fn wf(&self) -> bool {
        &&& self.nodes.spec_len() > 0
        &&& self.current_view <= self.last_attempted_view
        &&& self.view_change_state@.no_duplicates()
        &&& forall|i: int|
            0 <= i < self.view_change_state@.len() ==> (
            #[trigger] self.view_change_state@[i]).attempted == self.last_attempted_view
    }

    /// Whether `r` is what `new` makes of `config`: an index too large for a
    /// message is refused, then an empty directory; any other configuration
    /// gives a node in its initial state, with the queue that the directory
    /// came with.
    pub open spec fn created(config: PaxosConfig, r: Result<Paxos, PaxosError>) -> bool {
        if config.pid > u32::MAX {
            r matches Err(e) && e == PaxosError::PidOutOfRange(config.pid)
        } else if config.nodes.spec_len() == 0 {
            r matches Err(e) && e == PaxosError::EmptyDirectory
        } else {
            &&& r matches Ok(p)
            &&& p@ == PaxosState::initial(
                config.pid as u32,
                config.nodes.spec_len() as nat,
                config.test_case,
                config.progress_timer_length,
                config.vc_proof_timer_length,
                config.nodes.queued(),
            )
            &&& p.wf()
        }
    }

    /// Creates a new instance of Paxos.
    pub fn new(config: PaxosConfig) -> (r: Result<Paxos, PaxosError>)
        ensures
            Self::created(config, r),
    {
        if config.pid > u32::MAX as usize {
            return Err(PaxosError::PidOutOfRange(config.pid));
        }
        if config.nodes.len() == 0 {
            return Err(PaxosError::EmptyDirectory);
        }
        let paxos = Paxos {
            pid: config.pid as u32,
            nodes: config.nodes,
            test_case: config.test_case,
            progress_length: config.progress_timer_length,
            proof_length: config.vc_proof_timer_length,
            last_attempted_view: 0,
            current_view: 0,
            view_change_state: Vec::new(),
        };
        assert(paxos.view_change_state@.to_set() =~= Set::<Vote>::empty());
        Ok(paxos)
    }

    /// This node's index.
    pub fn pid(&self) -> (pid: u32)
        ensures
            pid == self@.pid,
    {
        self.pid
    }

    /// The scenario this node plays.
    pub fn test_case(&self) -> (test_case: TestCase)
        ensures
            test_case == self@.test_case,
    {
        self.test_case
    }

    /// The view this node has installed.
    pub fn current_view(&self) -> (view: u32)
        ensures
            view == self@.current_view,
    {
        self.current_view
    }

    /// The view this node campaigns for.
    pub fn last_attempted_view(&self) -> (view: u32)
        ensures
            view == self@.last_attempted_view,
    {
        self.last_attempted_view
    }

    /// The length of the progress timer, in seconds.
    pub fn progress_length(&self) -> (secs: u64)
        ensures
            secs == self@.progress_length,
    {
        self.progress_length
    }

    /// The length of the proof timer, in seconds.
    pub fn proof_length(&self) -> (secs: u64)
        ensures
            secs == self@.proof_length,
    {
        self.proof_length
    }

    /// The number of nodes in the system.
    pub fn size(&self) -> (n: usize)
        ensures
            n == self@.size,
    {
        self.nodes.len()
    }

    /// Hands the queued messages to the caller and leaves the queue empty.
    pub fn take_outgoing(&mut self) -> (taken: Vec<Envelope>)
        requires
            old(self).wf(),
        ensures
            final(self).wf(),
            taken@ == old(self)@.outgoing,
            final(self)@ == (PaxosState { outgoing: Seq::empty(), ..old(self)@ }),
    {
        self.nodes.take_outgoing()
    }

    /// A node that holds to its rules is in a state that the protocol allows.
    pub proof fn lemma_view_wf(&self)
        requires
            self.wf(),
        ensures
            self@.wf(),
    {
        let s = self.view_change_state@;
        vstd::seq_lib::seq_to_set_is_finite(s);
        assert forall|v: Vote| #[trigger] s.to_set().contains(v) implies v.attempted
            == self.last_attempted_view by {
            let j = choose|j: int| 0 <= j < s.len() && s[j] == v;
            assert(s[j].attempted == self.last_attempted_view);
        }
    }

    /// Computes the id of the current leader according to the installed view
    pub fn current_leader(&self) -> (leader: u32)
        requires
            self.wf(),
        ensures
            leader == self@.leader(),
    {
        let num_nodes = self.nodes.len();
        if num_nodes <= u32::MAX as usize {
            self.current_view % (num_nodes as u32)
        } else {
            // there are more nodes than could possibly fit into the view counter
            self.current_view
        }
    }

    /// The number of votes held for the view campaigned for.
    pub fn vote_count(&self) -> (count: usize)
        requires
            self.wf(),
        ensures
            count == self@.vote_count(),
    {
        let view = self.last_attempted_view;
        let mut count: usize = 0;
        let mut i: usize = 0;
        proof {
            assert(self.view_change_state@.take(0).to_set() =~= Set::<Vote>::empty());
            assert(votes_for(Set::<Vote>::empty(), view) =~= Set::<Vote>::empty());
        }
        while i < self.view_change_state.len()
            invariant
                i <= self.view_change_state@.len(),
                self.view_change_state@.no_duplicates(),
                count <= i,
                count == votes_for(self.view_change_state@.take(i as int).to_set(), view).len(),
            decreases self.view_change_state@.len() - i,
        {
            proof {
                lemma_votes_for_next(self.view_change_state@, i as int, view);
            }
            if self.view_change_state[i].attempted == view {
                count = count + 1;
            }
            i = i + 1;
        }
        proof {
            assert(self.view_change_state@.take(i as int) =~= self.view_change_state@);
        }
        count
    }

    /// Whether the scenario makes this node crash before an install.
    fn test_case_crash_hook(&self) -> (crash: bool)
        ensures
            crash == self@.test_case.crashes(self@.pid),
    {
        self.test_case.should_crash_on_install(self.pid)
    }

    /// Whether the scenario ends with the view that is installed now.
    fn test_case_exit_hook(&self) -> (exit: bool)
        requires
            self.wf(),
        ensures
            exit == self@.test_case.exits(self@.current_view, self@.leader()),
    {
        self.test_case.should_exit_on_view(self.current_view, self.current_leader())
    }

    /// Records `vote`, unless it is held already.
    fn record_vote(&mut self, vote: Vote)
        requires
            old(self).wf(),
            vote.attempted == old(self)@.last_attempted_view,
        ensures
            final(self).wf(),
            final(self)@ == old(self)@.record(vote),
    {
        let mut i: usize = 0;
        while i < self.view_change_state.len()
            invariant
                i <= self.view_change_state@.len(),
                *self == *old(self),
                self.wf(),
                forall|j: int| 0 <= j < i ==> self.view_change_state@[j] != vote,
            decreases self.view_change_state@.len() - i,
        {
            if self.view_change_state[i] == vote {
                proof {
                    assert(self.view_change_state@.to_set().contains(vote));
                    assert(self@.votes.insert(vote) =~= self@.votes);
                }
                return ;
            }
            i = i + 1;
        }
        let ghost before = self.view_change_state@;
        self.view_change_state.push(vote);
        proof {
            before.lemma_push_to_set_commute(vote);
        }
    }

    /// Starts a view change to the given view by sending out view change messages
    /// invariant: a node should only ever try to install larger views than what it has installed
    fn start_view_change(&mut self, new_view: u32)
        requires
            old(self).wf(),
            new_view > old(self)@.current_view,
        ensures
            final(self).wf(),
            final(self)@ == old(self)@.start_view_change(new_view),
    {
        // clear the current view change state
        self.view_change_state.clear();
        // set the last attempted view to this new view
        self.last_attempted_view = new_view;
        // send view change to all the servers
        self.nodes.multicast_send(Message::ViewChange { server_id: self.pid, attempted: new_view });
        proof {
            assert(self.view_change_state@.to_set() =~= Set::<Vote>::empty());
            self.lemma_view_wf();
        }
    }

    /// Installs the last attempted view if we have seen a majority attempting to install it
    fn install_view_if_possible(&mut self) -> (outcome: Outcome)
        requires
            old(self).wf(),
        ensures
            final(self).wf(),
            final(self)@ == old(self)@.install_view_if_possible().0,
            outcome == old(self)@.install_view_if_possible().1,
    {
        proof {
            self.lemma_view_wf();
        }
        let vc_received = self.vote_count();
        // if we have a majority attempting to install the last_attempted_view, then
        if vc_received >= (self.nodes.len() / 2) + 1 {
            // first, ask the scenario whether we should crash
            if self.test_case_crash_hook() {
                return Outcome::Crashed;
            }
            // then, we can go ahead and install the view (since we have no reconciliation phase)
            self.install_view()
        } else {
            Outcome::VotePending { votes: vc_received }
        }
    }

    /// Installs the last attempted view unconditionally
    /// invariant: a view can only be installed with a proof in the form of either view changes from
    /// a majority of nodes or a vc proof message from another node
    fn install_view(&mut self) -> (outcome: Outcome)
        requires
            old(self).wf(),
        ensures
            final(self).wf(),
            final(self)@ == old(self)@.install_view().0,
            outcome == old(self)@.install_view().1,
    {
        // we never install a view that is smaller than the one we already had
        self.current_view = self.last_attempted_view;
        let news = Announcement {
            pid: self.pid,
            leader: self.current_leader(),
            view: self.current_view,
        };
        proof {
            self.lemma_view_wf();
        }
        if self.test_case_exit_hook() {
            return Outcome::Finished(news);
        }
        // send a VC proof immediately (not strictly necessary though)
        self.nodes.multicast_send(
            Message::VCProof { server_id: self.pid, installed: self.current_view },
        );
        proof {
            self.lemma_view_wf();
        }
        Outcome::Installed(news)
    }

    /// Takes in a message from a peer and reacts to it.
    pub fn start_send(&mut self, msg: Message) -> (outcome: Outcome)
        requires
            old(self).wf(),
        ensures
            final(self).wf(),
            final(self)@ == old(self)@.receive(msg).0,
            outcome == old(self)@.receive(msg).1,
            final(self)@.current_view >= old(self)@.current_view,
    {
        proof {
            self.lemma_view_wf();
        }
        match msg {
            Message::ViewChange { server_id, attempted } => {
                // this view change message is stale
                if attempted < self.last_attempted_view {
                    return Outcome::Stale;
                }
                // there's an ongoing view change to a higher view
                if attempted > self.last_attempted_view {
                    self.start_view_change(attempted);
                    return Outcome::ViewChangeStarted { view: attempted };
                }
                // this message is for the view we want to install
                self.record_vote(Vote { server_id, attempted });
                self.install_view_if_possible()
            },
            Message::VCProof { server_id, installed } => {
                if installed == self.last_attempted_view && installed > self.current_view {
                    // someone installed this view before us, so we can too!
                    self.install_view()
                } else {
                    Outcome::Ignored
                }
            },
        }
    }

    /// Takes in what the decoder made of the bytes that came in. A message is
    /// reacted to; an unknown tag or a frame cut short is dropped, with the
    /// node left as it was and free to go on.
    pub fn deliver(&mut self, frame: Result<Option<Message>, DecodeError>) -> (outcome: Outcome)
        requires
            old(self).wf(),
        ensures
            final(self).wf(),
            final(self)@ == old(self)@.deliver(frame).0,
            outcome == old(self)@.deliver(frame).1,
            final(self)@.current_view >= old(self)@.current_view,
            !(frame matches Ok(Some(_))) ==> final(self)@ == old(self)@,
    {
        match frame {
            Ok(Some(msg)) => self.start_send(msg),
            Ok(None) => Outcome::Incomplete,
            Err(DecodeError::UnknownMessageType(tag)) => Outcome::Unreadable { tag },
        }
    }

    /// Reacts to the two timers, of which the driver says whether each has
    /// fired, and serves each that has. `None` says that both are pending and
    /// nothing was done. Where both have fired, the campaign's votes are
    /// queued before the proof, and the outcome tells of the campaign.
    pub fn poll_next(&mut self, progress_expired: bool, proof_fired: bool) -> (outcome: Option<
        Outcome,
    >)
        requires
            old(self).wf(),
            progress_expired ==> old(self)@.last_attempted_view < u32::MAX,
        ensures
            final(self).wf(),
            final(self)@ == old(self)@.tick(progress_expired, proof_fired).0,
            outcome == old(self)@.tick(progress_expired, proof_fired).1,
            final(self)@.current_view == old(self)@.current_view,
            outcome is None <==> !progress_expired && !proof_fired,
    {
        proof {
            self.lemma_view_wf();
        }
        let mut outcome: Option<Outcome> = None;
        // if progress timer expired,
        if progress_expired {
            // then we'll start a view change to the next view
            let new_view = self.last_attempted_view + 1;
            self.start_view_change(new_view);
            outcome = Some(Outcome::ViewChangeStarted { view: new_view });
        }
        // if vc proof timer fired,
        if proof_fired {
            // then we'll multicast a vc proof to everyone
            self.nodes.multicast_send(
                Message::VCProof { server_id: self.pid, installed: self.current_view },
            );
            if !progress_expired {
                outcome = Some(Outcome::ProofSent);
            }
        }
        outcome
    }
}

} // verus!
