//! Leader election for a group of nodes, in the Raft family, with weighted
//! votes and a pluggable quorum policy.
//!
//! A node is a [`RaftCore`]: its election state, its intake channel, its
//! clock, and what the embedder plugs in (a disk, a network, an observer, a
//! task spawner). [`RaftCore::run`] drives it through the loops of its roles:
//! [`Startup`], [`Follower`], [`PreCandidate`], [`Candidate`] and [`Leader`].
//!
//! The election rules themselves are a deterministic machine,
//! [`state::CoreState`], which takes the clock's reading and the fate of each
//! write to disk as plain values. What each rule does is written down as
//! mathematics in [`model`], and what follows for every run of a node is
//! proved in [`safety`].

pub mod channel;
pub mod env;
pub mod error;
pub mod membership;
pub mod model;
pub mod msg;
pub mod node;
pub mod options;
pub mod quorum;
pub mod raft;
pub mod safety;
pub mod state;
pub mod task;

pub use crate::channel::{Intake, Message, Reply};
pub use crate::env::{EventHandler, Metrics, RaftType, Storage, Transport};
pub use crate::error::Error;
pub use crate::msg::{Event, HeartbeatRequest, HeartbeatResponse, VoteRequest, VoteResponse};
pub use crate::node::{HardState, Member, NodeId, State};
pub use crate::options::Options;
pub use crate::quorum::{Quorum, QuorumOutcome};
pub use crate::raft::candidate::Candidate;
pub use crate::raft::follower::Follower;
pub use crate::raft::leader::Leader;
pub use crate::raft::pre_candidate::PreCandidate;
pub use crate::raft::startup::Startup;
pub use crate::raft::RaftCore;
pub use crate::task::TaskSpawner;
