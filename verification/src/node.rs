//! Identities, roles and the durable part of a node's state.

use vstd::prelude::*;

verus! {

/// A node's identity: the group it belongs to and its number inside the group.
/// Two nodes are peers only if they share `group_id`.
#[derive(Clone, Copy, Debug, PartialEq, Eq, Structural, PartialOrd, Ord, Hash)]
pub struct NodeId {
    pub group_id: u64,
    pub node_id: u64,
}

impl NodeId {
    pub fn new(group_id: u64, node_id: u64) -> (id: NodeId)
        ensures
            id.group_id == group_id,
            id.node_id == node_id,
    {
        NodeId { group_id, node_id }
    }

    /// The total order on identities: by group first, then by number.
    pub open spec fn before(self, other: NodeId) -> bool {
        self.group_id < other.group_id || (self.group_id == other.group_id && self.node_id
            < other.node_id)
    }

    pub fn precedes(&self, other: &NodeId) -> (r: bool)
        ensures
            r == self.before(*other),
    {
        self.group_id < other.group_id || (self.group_id == other.group_id && self.node_id
            < other.node_id)
    }

    pub open spec fn same_group(self, other: NodeId) -> bool {
        self.group_id == other.group_id
    }

    pub fn is_peer_of(&self, other: &NodeId) -> (r: bool)
        ensures
            r == self.same_group(*other),
    {
        self.group_id == other.group_id
    }
}

/// `before` is a strict total order.
pub proof fn node_id_order_is_total(a: NodeId, b: NodeId, c: NodeId)
    ensures
        !a.before(a),
        a.before(b) && b.before(c) ==> a.before(c),
        a.before(b) || b.before(a) || a == b,
        !(a.before(b) && b.before(a)),
{
}

/// A member of the group with the weight its vote carries.
#[derive(Clone, Copy, Debug, PartialEq, Eq, Structural)]
pub struct Member {
    pub id: NodeId,
    pub weight: u64,
}

/// The role a node plays. `Shutdown` is terminal.
#[derive(Clone, Copy, Debug, PartialEq, Eq, Structural, Hash)]
pub enum State {
    Startup,
    Follower,
    PreCandidate,
    Candidate,
    Leader,
    Shutdown,
}

impl State {
    /// The roles in which an election timer runs.
    pub open spec fn timed(self) -> bool {
        self == State::Follower || self == State::PreCandidate || self == State::Candidate
    }

    pub fn is_timed(&self) -> (r: bool)
        ensures
            r == self.timed(),
    {
        match self {
            State::Follower | State::PreCandidate | State::Candidate => true,
            _ => false,
        }
    }
}

/// What must survive a restart: the term and the vote cast in it.
#[derive(Clone, Copy, Debug, PartialEq, Eq)]
pub struct HardState {
    pub current_term: u64,
    pub voted_for: Option<NodeId>,
}

impl HardState {
    pub fn new() -> (hs: HardState)
        ensures
            hs.current_term == 0,
            hs.voted_for.is_none(),
    {
        HardState { current_term: 0, voted_for: None }
    }

    /// The hard state after a higher term was seen: the vote is forgotten.
    pub open spec fn adopted(self, term: u64) -> HardState {
        if term > self.current_term {
            HardState { current_term: term, voted_for: None }
        } else {
            self
        }
    }

    pub fn adopt(&self, term: u64) -> (hs: HardState)
        ensures
            hs == self.adopted(term),
    {
        if term > self.current_term {
            HardState { current_term: term, voted_for: None }
        } else {
            *self
        }
    }

    pub fn same(&self, other: &HardState) -> (r: bool)
        ensures
            r == (*self == *other),
    {
        self.current_term == other.current_term && match (self.voted_for, other.voted_for) {
            (None, None) => true,
            (Some(a), Some(b)) => a == b,
            _ => false,
        }
    }
}

} // verus!
