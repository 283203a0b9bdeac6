//! The tunables of a node. Times are in milliseconds.

use crate::error::Error;
use crate::quorum::Quorum;
use vstd::prelude::*;

verus! {

#[derive(Clone, Copy, Debug, PartialEq, Eq)]
pub struct Options {
    /// The shortest election timeout.
    pub election_timeout_min: u64,
    /// The longest election timeout.
    pub election_timeout_max: u64,
    /// How often a leader sends heartbeats.
    pub heartbeat_interval: u64,
    /// How long a leader may go without hearing a majority before it steps down.
    pub leader_lease: u64,
    pub quorum_policy: Quorum,
}

impl Options {
    /// An election timeout must be drawn from a window of more than one value:
    /// with a single value, nodes time out together and split the vote forever.
    pub open spec fn valid(self) -> bool {
        self.election_timeout_min < self.election_timeout_max
    }

    pub fn is_valid(&self) -> (r: bool)
        ensures
            r == self.valid(),
    {
        self.election_timeout_min < self.election_timeout_max
    }

    pub fn validate(&self) -> (r: Result<(), Error>)
        ensures
            self.valid() ==> r is Ok,
            !self.valid() ==> r == Err::<(), Error>(Error::InvalidOptions),
    {
        if self.is_valid() {
            Ok(())
        } else {
            Err(Error::InvalidOptions)
        }
    }

    /// The number of values in the election timeout window.
    pub open spec fn window(self) -> int {
        self.election_timeout_max - self.election_timeout_min + 1
    }
}

impl Default for Options {
    fn default() -> (o: Options)
        ensures
            o.valid(),
            o.election_timeout_min == 150,
            o.election_timeout_max == 300,
            o.heartbeat_interval == 50,
            o.leader_lease == 300,
            o.quorum_policy == Quorum::Major,
    {
        Options {
            election_timeout_min: 150,
            election_timeout_max: 300,
            heartbeat_interval: 50,
            leader_lease: 300,
            quorum_policy: Quorum::Major,
        }
    }
}

} // verus!
