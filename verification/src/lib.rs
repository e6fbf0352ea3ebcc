//! View change for a Paxos-style replicated service: how a fixed set of nodes
//! agrees, by majority, on a growing view number and with it on a leader.
//!
//! The crate holds the protocol's decisions and proves them: the wire format
//! ([`msg`]), the peer directory and its outgoing queue ([`net`]), the state
//! machine ([`paxos`]) and what holds of every run of it ([`safety`]). What is
//! taken on trust of the byte buffers of the `bytes` crate stands in
//! [`buffer`]. Sockets, timers and the process itself belong to the program
//! that drives the machine.

use vstd::prelude::*;

pub mod buffer;
pub mod msg;
pub mod net;
pub mod paxos;
pub mod safety;

verus! {

/// The scenario that a node plays: where it crashes, and when it stops.
///
/// A node that crashes does so when it is about to install a view that a
/// majority voted for. A node stops, with success, right after it has
/// installed the view that its scenario waits for.
#[derive(Clone, Copy, Debug, PartialEq, Eq, Structural)]
pub enum TestCase {
    /// Basic change: start with node 0 as leader (view 0) and change to node 1
    /// (view 1) when the timeout fires. No node crashes.
    NormalCase,
    /// Full rotation: every node leads in turn until node 0 leads again. No
    /// node crashes.
    FullRotation,
    /// Node 1 crashes when it has the votes to install. The others move on to
    /// view 2.
    SingleCrash,
    /// Nodes 1 and 2 crash when they have the votes to install. The others
    /// move on to view 3.
    TwoCrashes,
    /// Nodes 1, 2 and 3 crash when they have the votes to install. With five
    /// nodes the two that are left are no majority, and the protocol blocks.
    ThreeCrashes,
}

/// Why a scenario could not be read.
#[derive(Clone, Copy, Debug, PartialEq, Eq, Structural)]
pub enum ParseTestCaseError {
    /// The text is no number that fits in a byte.
    NotANumber,
    /// The number names no scenario.
    UnknownTestCase(u8),
}

/// What `str::parse::<u8>` makes of a text: the number, or `None` where it
/// refuses the text.
pub uninterp spec fn parsed_u8(s: Seq<char>) -> Option<u8>;

/// Reads a byte from decimal text: `str::parse::<u8>`, its error dropped.
///
/// Trusted: the result depends on the characters of `s` alone.
#[verifier::external_body]
fn parse_u8(s: &str) -> (r: Option<u8>)
    ensures
        r == parsed_u8(s@),
{
    s.parse::<u8>().ok()
}

impl TestCase {
    /// The number that selects the scenario.
    pub open spec fn number(self) -> u8 {
        match self {
            TestCase::NormalCase => 1,
            TestCase::FullRotation => 2,
            TestCase::SingleCrash => 3,
            TestCase::TwoCrashes => 4,
            TestCase::ThreeCrashes => 5,
        }
    }

    /// Whether the node with index `own_index` crashes in this scenario.
    pub open spec fn crashes(self, own_index: u32) -> bool {
        match self {
            TestCase::NormalCase => false,
            TestCase::FullRotation => false,
            TestCase::SingleCrash => own_index == 1,
            TestCase::TwoCrashes => 1 <= own_index <= 2,
            TestCase::ThreeCrashes => 1 <= own_index <= 3,
        }
    }

    /// Whether a node stops once it has installed `view`, led by `leader`.
    pub open spec fn exits(self, view: u32, leader: u32) -> bool {
        match self {
            TestCase::NormalCase => view == 1,
            TestCase::FullRotation => view != 0 && leader == 0,
            TestCase::SingleCrash => view == 2,
            TestCase::TwoCrashes => view == 3,
            TestCase::ThreeCrashes => view == 4,
        }
    }

    /// What a parsed number stands for.
    pub open spec fn of_parsed(p: Option<u8>) -> Result<TestCase, ParseTestCaseError> {
        match p {
            None => Err(ParseTestCaseError::NotANumber),
            Some(n) => if n == 1 {
                Ok(TestCase::NormalCase)
            } else if n == 2 {
                Ok(TestCase::FullRotation)
            } else if n == 3 {
                Ok(TestCase::SingleCrash)
            } else if n == 4 {
                Ok(TestCase::TwoCrashes)
            } else if n == 5 {
                Ok(TestCase::ThreeCrashes)
            } else {
                Err(ParseTestCaseError::UnknownTestCase(n))
            },
        }
    }

    /// The scenario that `n` selects: 1 to 5, in the order of the variants.
    pub fn from_number(n: u8) -> (r: Result<TestCase, ParseTestCaseError>)
        ensures
            r == Self::of_parsed(Some(n)),
            r is Ok <==> 1 <= n <= 5,
            r matches Ok(t) ==> t.number() == n,
    {
        match n {
            1 => Ok(TestCase::NormalCase),
            2 => Ok(TestCase::FullRotation),
            3 => Ok(TestCase::SingleCrash),
            4 => Ok(TestCase::TwoCrashes),
            5 => Ok(TestCase::ThreeCrashes),
            _ => Err(ParseTestCaseError::UnknownTestCase(n)),
        }
    }

    /// Reads a scenario from the decimal text of its number.
    pub fn from_str(s: &str) -> (r: Result<TestCase, ParseTestCaseError>)
        ensures
            r == Self::of_parsed(parsed_u8(s@)),
    {
        match parse_u8(s) {
            None => Err(ParseTestCaseError::NotANumber),
            Some(n) => Self::from_number(n),
        }
    }

    /// Whether the node `own_index` must crash now that it is about to install
    /// a view on the strength of a majority's votes.
    pub fn should_crash_on_install(self, own_index: u32) -> (b: bool)
        ensures
            b == self.crashes(own_index),
    {
        match self {
            TestCase::SingleCrash => own_index == 1,
            TestCase::TwoCrashes => own_index < 3 && own_index > 0,
            TestCase::ThreeCrashes => own_index < 4 && own_index > 0,
            _ => false,
        }
    }

    /// Whether a node must stop, with success, now that it has installed
    /// `view` under `leader`.
    pub fn should_exit_on_view(self, view: u32, leader: u32) -> (b: bool)
        ensures
            b == self.exits(view, leader),
    {
        match self {
            TestCase::NormalCase => view == 1,
            TestCase::FullRotation => view != 0 && leader == 0,
            TestCase::SingleCrash => view == 2,
            TestCase::TwoCrashes => view == 3,
            TestCase::ThreeCrashes => view == 4,
        }
    }
}

impl Default for TestCase {
    fn default() -> (r: TestCase)
        ensures
            r == TestCase::NormalCase,
    {
        TestCase::NormalCase
    }
}

} // verus!
