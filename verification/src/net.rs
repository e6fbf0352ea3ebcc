//! The peer directory: how many nodes there are, and the queue of messages
//! on their way to them.
//!
//! A node is known here by its index in the member list, the same list in the
//! same order on every node. The driver holds the address that belongs to each
//! index, takes the queue's entries and sends them.

use crate::msg::Message;
use crate::paxos::{Paxos, PaxosConfig, PaxosError};
use crate::TestCase;
use vstd::prelude::*;

verus! {

/// A message on its way to the node with index `target`.
#[derive(Clone, Copy, Debug, PartialEq, Eq, Structural)]
pub struct Envelope {
    pub msg: Message,
    pub target: usize,
}

/// Why a message could not be queued.
#[derive(Clone, Copy, Debug, PartialEq, Eq, Structural)]
pub enum SendError {
    /// The directory has no node with this index.
    InvalidTarget(usize),
}

/// One copy of `msg` for each of `size` nodes, in the order of their indices.
pub open spec fn broadcast(size: nat, msg: Message) -> Seq<Envelope> {
    Seq::new(size, |i: int| Envelope { msg, target: i as usize })
}

/// The directory of the nodes in the system, with the queue of what is to be
/// sent to them.
pub struct Nodes {
    size: usize,
    outgoing: Vec<Envelope>,
}

impl Nodes {
    /// The number of nodes.
    pub closed spec fn spec_len(&self) -> usize {
        self.size
    }

    /// The queue, oldest entry first.
    pub closed spec fn queued(&self) -> Seq<Envelope> {
        self.outgoing@
    }

    /// A directory of `size` nodes with an empty queue.
    pub fn new(size: usize) -> (nodes: Nodes)
        ensures
            nodes.spec_len() == size,
            nodes.queued() == Seq::<Envelope>::empty(),
    {
        Nodes { size, outgoing: Vec::new() }
    }

    /// The number of nodes.
    pub fn len(&self) -> (n: usize)
        ensures
            n == self.spec_len(),
    {
        self.size
    }

    /// Queues `msg` once for every node of the directory, this node included.
    pub fn multicast_send(&mut self, msg: Message)
        ensures
            final(self).spec_len() == old(self).spec_len(),
            final(self).queued() == old(self).queued() + broadcast(
                old(self).spec_len() as nat,
                msg,
            ),
    {
        let mut i: usize = 0;
        while i < self.size
            invariant
                i <= self.size,
                self.size == old(self).size,
                self.outgoing@ == old(self).outgoing@ + broadcast(i as nat, msg),
            decreases self.size - i,
        {
            self.outgoing.push(Envelope { msg, target: i });
            i = i + 1;
        }
    }

    /// Queues `msg` for the node with index `pid` alone.
    pub fn unicast_send(&mut self, pid: usize, msg: Message) -> (r: Result<(), SendError>)
        ensures
            final(self).spec_len() == old(self).spec_len(),
            pid < old(self).spec_len() ==> r == Ok::<(), SendError>(()) && final(self).queued()
                == old(self).queued().push(Envelope { msg, target: pid }),
            pid >= old(self).spec_len() ==> r == Err::<(), SendError>(
                SendError::InvalidTarget(pid),
            ) && final(self).queued() == old(self).queued(),
    {
        if pid < self.size {
            self.outgoing.push(Envelope { msg, target: pid });
            Ok(())
        } else {
            Err(SendError::InvalidTarget(pid))
        }
    }

    /// Hands the queue to the caller and leaves it empty.
    pub fn take_outgoing(&mut self) -> (taken: Vec<Envelope>)
        ensures
            taken@ == old(self).queued(),
            final(self).queued() == Seq::<Envelope>::empty(),
            final(self).spec_len() == old(self).spec_len(),
    {
        let mut taken: Vec<Envelope> = Vec::new();
        core::mem::swap(&mut taken, &mut self.outgoing);
        taken
    }
}

/// The time to wait after a failed lookup of a host's address, in
/// milliseconds.
pub const RESOLVE_RETRY_MILLIS: u64 = 500;

/// The number of failed lookups that a host is forgiven: five minutes' worth.
pub const RESOLVE_MAX_FAILURES: u32 = 2 * 60 * 5;

/// What to do once a failed lookup has been waited out.
#[derive(Clone, Copy, Debug, PartialEq, Eq, Structural)]
pub enum Retry {
    /// Look the host up again.
    Again,
    /// Give up, with the error of the last lookup.
    GiveUp,
}

/// The count of the lookups of one host that have failed.
pub struct Resolver {
    failures: u32,
}

impl Resolver {
    /// The number of lookups that have failed so far.
    pub closed spec fn spec_failures(&self) -> u32 {
        self.failures
    }

    /// A count of no failures.
    pub fn new() -> (resolver: Resolver)
        ensures
            resolver.spec_failures() == 0,
    {
        Resolver { failures: 0 }
    }

    /// The number of lookups that have failed so far.
    pub fn failures(&self) -> (n: u32)
        ensures
            n == self.spec_failures(),
    {
        self.failures
    }

    /// Counts one more failed lookup and says how to go on once
    /// `RESOLVE_RETRY_MILLIS` have passed: the host is given up when more than
    /// `RESOLVE_MAX_FAILURES` lookups have failed. The count stops at the
    /// largest number it can hold.
    pub fn lookup_failed(&mut self) -> (next: Retry)
        ensures
            final(self).spec_failures() == if old(self).spec_failures() < u32::MAX {
                old(self).spec_failures() + 1
            } else {
                u32::MAX as int
            },
            next == if final(self).spec_failures() > RESOLVE_MAX_FAILURES {
                Retry::GiveUp
            } else {
                Retry::Again
            },
    {
        if self.failures < u32::MAX {
            self.failures = self.failures + 1;
        }
        if self.failures > RESOLVE_MAX_FAILURES {
            Retry::GiveUp
        } else {
            Retry::Again
        }
    }
}

/// The index at which `hostname` first occurs in `hosts`, or the length of
/// `hosts` where it does not occur.
pub open spec fn position_of(hosts: Seq<String>, hostname: Seq<char>) -> nat
    decreases hosts.len(),
{
    if hosts.len() == 0 {
        0
    } else if hosts[0]@ == hostname {
        0
    } else {
        1 + position_of(hosts.drop_first(), hostname)
    }
}

/// This node's place in the system: its index and the directory.
pub struct System {
    pid: usize,
    nodes: Nodes,
}

impl System {
    /// This node's index.
    pub closed spec fn spec_pid(&self) -> usize {
        self.pid
    }

    /// The directory.
    pub closed spec fn spec_nodes(&self) -> Nodes {
        self.nodes
    }

    /// Finds this node among `hosts`. Its index is the place where `hostname`
    /// first stands in the list; a name that the list lacks gets the index
    /// behind the last host.
    pub fn from_hosts(hosts: Vec<String>, hostname: &str) -> (system: System)
        ensures
            system.spec_pid() == position_of(hosts@, hostname@),
            system.spec_pid() <= hosts@.len(),
            system.spec_nodes().spec_len() == hosts@.len(),
            system.spec_nodes().queued() == Seq::<Envelope>::empty(),
    {
        let name: String = hostname.to_owned();
        let mut pid: usize = 0;
        proof {
            assert(hosts@.skip(0) =~= hosts@);
        }
        while pid < hosts.len() && hosts[pid] != name
            invariant
                pid <= hosts@.len(),
                name@ == hostname@,
                position_of(hosts@, hostname@) == pid + position_of(
                    hosts@.skip(pid as int),
                    hostname@,
                ),
            decreases hosts@.len() - pid,
        {
            proof {
                let rest = hosts@.skip(pid as int);
                assert(rest[0] == hosts@[pid as int]);
                assert(rest.drop_first() =~= hosts@.skip(pid + 1));
            }
            pid = pid + 1;
        }
        proof {
            let rest = hosts@.skip(pid as int);
            if pid < hosts@.len() {
                assert(rest[0] == hosts@[pid as int]);
            }
        }
        System { pid, nodes: Nodes::new(hosts.len()) }
    }

    /// This node's index.
    pub fn pid(&self) -> (pid: usize)
        ensures
            pid == self.spec_pid(),
    {
        self.pid
    }

    /// The number of nodes in the system.
    pub fn size(&self) -> (n: usize)
        ensures
            n == self.spec_nodes().spec_len(),
    {
        self.nodes.len()
    }

    /// Sets up the protocol for this node: view 0, no campaign, no votes.
    pub fn paxos(
        self,
        test_case: TestCase,
        progress_timer_length: u64,
        vc_proof_timer_length: u64,
    ) -> (r: Result<Paxos, PaxosError>)
        ensures
            Paxos::created(
                PaxosConfig {
                    pid: self.spec_pid(),
                    nodes: self.spec_nodes(),
                    test_case,
                    progress_timer_length,
                    vc_proof_timer_length,
                },
                r,
            ),
    {
        Paxos::new(
            PaxosConfig {
                pid: self.pid,
                nodes: self.nodes,
                test_case,
                progress_timer_length,
                vc_proof_timer_length,
            },
        )
    }
}

} // verus!
