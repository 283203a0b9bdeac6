//! What a node needs from its surroundings: a disk, a network, an observer.
//! The embedder implements these; nothing is promised of what they return.

use crate::error::Error;
use crate::msg::{Event, HeartbeatRequest, HeartbeatResponse, VoteRequest, VoteResponse};
use crate::node::{HardState, NodeId, State};
use crate::task::TaskSpawner;
use vstd::prelude::*;

verus! {

/// Where the hard state is kept across restarts.
pub trait Storage {
    /// The hard state on disk, or `None` where none was ever saved.
    fn load_hard_state(&self) -> (r: Result<Option<HardState>, Error>);

    /// Saves the hard state. A node acknowledges no vote and no term before
    /// this has returned `Ok`.
    fn save_hard_state(&self, hard_state: &HardState) -> (r: Result<(), Error>);
}

/// The way to the peers. A node calls it from spawned tasks only.
pub trait Transport {
    fn send_heartbeat(&self, peer: NodeId, req: HeartbeatRequest) -> (r: Result<
        HeartbeatResponse,
        Error,
    >);

    fn send_vote_request(&self, peer: NodeId, req: VoteRequest) -> (r: Result<
        VoteResponse,
        Error,
    >);
}

/// A snapshot of a node, for observers.
#[derive(Clone, Copy, Debug, PartialEq, Eq)]
pub struct Metrics {
    pub node_id: NodeId,
    pub state: State,
    pub current_term: u64,
    pub current_leader: Option<NodeId>,
}

/// The observer of a node's life.
pub trait EventHandler {
    /// Called from a spawned task for each event.
    fn handle_event(&self, event: Event) -> (r: Result<(), Error>);

    /// Called by the node itself whenever it enters a role.
    fn report_metrics(&self, metrics: Metrics);
}

/// The types an embedder plugs into a node.
pub trait RaftType {
    type Spawner: TaskSpawner;

    type Storage: Storage;

    type Transport: Transport + Clone + Send + 'static;

    type EventHandler: EventHandler + Clone + Send + 'static;
}

} // verus!
