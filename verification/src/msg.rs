//! What nodes say to each other, and what a node tells its observers.

use crate::error::Error;
use crate::node::{NodeId, State};
use vstd::prelude::*;

verus! {

#[derive(Clone, Copy, Debug, PartialEq, Eq)]
pub struct HeartbeatRequest {
    pub term: u64,
    pub leader_id: NodeId,
}

#[derive(Clone, Copy, Debug, PartialEq, Eq)]
pub struct HeartbeatResponse {
    /// The node that answers.
    pub from: NodeId,
    pub term: u64,
    pub success: bool,
}

#[derive(Clone, Copy, Debug, PartialEq, Eq)]
pub struct VoteRequest {
    pub term: u64,
    pub candidate_id: NodeId,
    /// A pre-vote asks without binding anyone.
    pub pre_vote: bool,
    /// The weight the candidate believes it carries, for observers.
    pub vote_factor_hint: Option<u64>,
}

#[derive(Clone, Copy, Debug, PartialEq, Eq)]
pub struct VoteResponse {
    /// The node that answers.
    pub from: NodeId,
    pub term: u64,
    pub vote_granted: bool,
    pub pre_vote: bool,
}

/// Why a vote was refused.
#[derive(Clone, Copy, Debug, PartialEq, Eq, Structural)]
pub enum RejectReason {
    StaleTerm,
    WrongGroup,
    NotReady,
    AlreadyVoted,
    LeaderAlive,
    NotPersisted,
}

/// What observers are told.
#[derive(Clone, Copy, Debug, PartialEq, Eq)]
pub enum Event {
    TransitToFollower { term: u64, prev_state: Option<State> },
    TransitToPreCandidate,
    TransitToCandidate { term: u64 },
    TransitToLeader { term: u64 },
    GrantVote { term: u64, candidate: NodeId },
    RejectVote { term: u64, candidate: NodeId, reason: RejectReason },
    LeaderChanged { from: Option<NodeId>, to: Option<NodeId>, term: u64 },
}

/// The event that tells observers how a vote request ended.
pub open spec fn vote_event_of(req: VoteRequest, result: Result<VoteResponse, Error>) -> Event {
    match result {
        Ok(resp) => if resp.vote_granted {
            Event::GrantVote { term: resp.term, candidate: req.candidate_id }
        } else {
            Event::RejectVote {
                term: resp.term,
                candidate: req.candidate_id,
                reason: if req.pre_vote {
                    RejectReason::LeaderAlive
                } else {
                    RejectReason::AlreadyVoted
                },
            }
        },
        Err(e) => Event::RejectVote {
            term: match e {
                Error::StaleTerm { current_term } => current_term,
                _ => req.term,
            },
            candidate: req.candidate_id,
            reason: match e {
                Error::StaleTerm { .. } => RejectReason::StaleTerm,
                Error::WrongGroup => RejectReason::WrongGroup,
                Error::Storage => RejectReason::NotPersisted,
                _ => RejectReason::NotReady,
            },
        },
    }
}

pub fn vote_event(req: &VoteRequest, result: &Result<VoteResponse, Error>) -> (e: Event)
    ensures
        e == vote_event_of(*req, *result),
{
    match result {
        Ok(resp) => {
            if resp.vote_granted {
                Event::GrantVote { term: resp.term, candidate: req.candidate_id }
            } else {
                Event::RejectVote {
                    term: resp.term,
                    candidate: req.candidate_id,
                    reason: if req.pre_vote {
                        RejectReason::LeaderAlive
                    } else {
                        RejectReason::AlreadyVoted
                    },
                }
            }
        },
        Err(e) => {
            let term = match e {
                Error::StaleTerm { current_term } => *current_term,
                _ => req.term,
            };
            let reason = match e {
                Error::StaleTerm { .. } => RejectReason::StaleTerm,
                Error::WrongGroup => RejectReason::WrongGroup,
                Error::Storage => RejectReason::NotPersisted,
                _ => RejectReason::NotReady,
            };
            Event::RejectVote { term, candidate: req.candidate_id, reason }
        },
    }
}

/// The event that tells observers of a new leader, where the leader changed.
pub open spec fn leader_event_of(from: Option<NodeId>, to: Option<NodeId>, term: u64) -> Option<
    Event,
> {
    if from == to {
        None
    } else {
        Some(Event::LeaderChanged { from, to, term })
    }
}

pub fn leader_event(from: Option<NodeId>, to: Option<NodeId>, term: u64) -> (e: Option<Event>)
    ensures
        e == leader_event_of(from, to, term),
{
    let same = match (from, to) {
        (None, None) => true,
        (Some(a), Some(b)) => a == b,
        _ => false,
    };
    if same {
        None
    } else {
        Some(Event::LeaderChanged { from, to, term })
    }
}

/// What a peer's answer to a vote request means to the one that asked. A
/// refusal for a stale term is a vote against, and tells the peer's term;
/// any other failure is no answer.
pub open spec fn vote_answer_of(
    peer: NodeId,
    req: VoteRequest,
    result: Result<VoteResponse, Error>,
) -> Option<VoteResponse> {
    match result {
        Ok(resp) => Some(resp),
        Err(Error::StaleTerm { current_term }) => Some(
            VoteResponse {
                from: peer,
                term: current_term,
                vote_granted: false,
                pre_vote: req.pre_vote,
            },
        ),
        Err(_) => None,
    }
}

pub fn vote_answer(peer: NodeId, req: &VoteRequest, result: Result<VoteResponse, Error>) -> (r:
    Option<VoteResponse>)
    ensures
        r == vote_answer_of(peer, *req, result),
{
    match result {
        Ok(resp) => Some(resp),
        Err(Error::StaleTerm { current_term }) => Some(
            VoteResponse {
                from: peer,
                term: current_term,
                vote_granted: false,
                pre_vote: req.pre_vote,
            },
        ),
        Err(_) => None,
    }
}

/// What a peer's answer to a heartbeat means to the leader that sent it.
pub open spec fn heartbeat_answer_of(
    peer: NodeId,
    result: Result<HeartbeatResponse, Error>,
) -> Option<HeartbeatResponse> {
    match result {
        Ok(resp) => Some(resp),
        Err(Error::StaleTerm { current_term }) => Some(
            HeartbeatResponse { from: peer, term: current_term, success: false },
        ),
        Err(_) => None,
    }
}

pub fn heartbeat_answer(peer: NodeId, result: Result<HeartbeatResponse, Error>) -> (r: Option<
    HeartbeatResponse,
>)
    ensures
        r == heartbeat_answer_of(peer, result),
{
    match result {
        Ok(resp) => Some(resp),
        Err(Error::StaleTerm { current_term }) => Some(
            HeartbeatResponse { from: peer, term: current_term, success: false },
        ),
        Err(_) => None,
    }
}

} // verus!
