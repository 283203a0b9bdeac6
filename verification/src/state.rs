//! A node's election state and the rules that change it. The clock and the
//! fate of each write to disk come in as plain values, so every rule is a
//! function of the state and the message alone.

use crate::error::Error;
use crate::membership::{copy_of, others, same_group, weight_of, without_repetition};
use crate::model::{distinct_ids, CoreView};
use crate::msg::{HeartbeatRequest, HeartbeatResponse, VoteRequest, VoteResponse};
use crate::node::{HardState, Member, NodeId, State};
use crate::options::Options;
use crate::quorum::{Quorum, QuorumOutcome, Tally};
use vstd::prelude::*;

verus! {

/// The right to record the role a node leaves, good for one transition.
/// A loop arms one on entry, so that only its first transition is recorded.
#[derive(Debug)]
pub struct PrevStateSlot {
    armed: bool,
}

impl PrevStateSlot {
    pub closed spec fn armed(&self) -> bool {
        self.armed
    }

    pub fn new() -> (slot: PrevStateSlot)
        ensures
            slot.armed(),
    {
        PrevStateSlot { armed: true }
    }

    pub fn is_armed(&self) -> (r: bool)
        ensures
            r == self.armed(),
    {
        self.armed
    }
}

/// The election state of one node: who it is, whom it knows, what it has on
/// disk, and the role it plays. Its membership never names a node twice and
/// its options are always valid.
#[derive(Debug)]
pub struct CoreState {
    node_id: NodeId,
    members: Vec<Member>,
    options: Options,
    hard_state: HardState,
    state: State,
    prev_state: Option<State>,
    current_leader: Option<NodeId>,
    next_election_timeout: Option<u64>,
    seed: u64,
    preferred: bool,
}

impl View for CoreState {
    type V = CoreView;

    closed spec fn view(&self) -> CoreView {
        CoreView {
            node_id: self.node_id,
            members: self.members@,
            options: self.options,
            hard_state: self.hard_state,
            state: self.state,
            prev_state: self.prev_state,
            current_leader: self.current_leader,
            next_election_timeout: self.next_election_timeout,
            seed: self.seed,
            preferred: self.preferred,
        }
    }
}

impl CoreState {
    #[verifier::type_invariant]
    closed spec fn inv(self) -> bool {
        self@.wf()
    }

    /// A node in `Startup`, at term 0, with no members.
    pub fn new(node_id: NodeId, options: Options) -> (r: Result<CoreState, Error>)
        ensures
            options.valid() ==> r is Ok && r->Ok_0@ == CoreView::initial(node_id, options),
            !options.valid() ==> r is Err && r->Err_0 == Error::InvalidOptions,
    {
        if !options.is_valid() {
            return Err(Error::InvalidOptions);
        }
        Ok(
            CoreState {
                node_id,
                members: Vec::new(),
                options,
                hard_state: HardState::new(),
                state: State::Startup,
                prev_state: None,
                current_leader: None,
                next_election_timeout: None,
                seed: node_id.node_id,
                preferred: false,
            },
        )
    }

    pub fn node_id(&self) -> (r: NodeId)
        ensures
            r == self@.node_id,
    {
        self.node_id
    }

    /// The membership: no identity occurs twice.
    pub fn members(&self) -> (r: &Vec<Member>)
        ensures
            r@ == self@.members,
            distinct_ids(r@),
    {
        proof {
            use_type_invariant(self);
        }
        &self.members
    }

    /// The tunables: always valid.
    pub fn options(&self) -> (r: Options)
        ensures
            r == self@.options,
            r.valid(),
    {
        proof {
            use_type_invariant(self);
        }
        self.options
    }

    pub fn hard_state(&self) -> (r: HardState)
        ensures
            r == self@.hard_state,
    {
        self.hard_state
    }

    pub fn current_term(&self) -> (r: u64)
        ensures
            r == self@.term(),
    {
        self.hard_state.current_term
    }

    pub fn voted_for(&self) -> (r: Option<NodeId>)
        ensures
            r == self@.hard_state.voted_for,
    {
        self.hard_state.voted_for
    }

    pub fn state(&self) -> (r: State)
        ensures
            r == self@.state,
    {
        self.state
    }

    pub fn prev_state(&self) -> (r: Option<State>)
        ensures
            r == self@.prev_state,
    {
        self.prev_state
    }

    pub fn current_leader(&self) -> (r: Option<NodeId>)
        ensures
            r == self@.current_leader,
    {
        self.current_leader
    }

    /// The election deadline, if one is drawn. Draws none.
    pub fn election_deadline(&self) -> (r: Option<u64>)
        ensures
            r == self@.next_election_timeout,
    {
        self.next_election_timeout
    }

    pub fn is_state(&self, state: State) -> (r: bool)
        ensures
            r == (self@.state == state),
    {
        self.state == state
    }

    /// Moves to `new`. See [`CoreView::set_state`].
    pub fn set_state(&mut self, new: State, slot: &mut PrevStateSlot)
        ensures
            (final(self)@, final(slot).armed()) == old(self)@.set_state(new, old(slot).armed()),
    {
        proof {
            use_type_invariant(&*self);
        }
        if self.state == State::Shutdown {
            return ;
        }
        if slot.armed {
            self.prev_state = Some(self.state);
        }
        slot.armed = false;
        self.state = new;
        if !new.is_timed() {
            self.next_election_timeout = None;
        }
    }

    /// Forgets the election deadline, so that the next one is drawn afresh.
    pub fn clear_election_timeout(&mut self)
        ensures
            final(self)@ == (CoreView { next_election_timeout: None, ..old(self)@ }),
    {
        proof {
            use_type_invariant(&*self);
        }
        self.next_election_timeout = None;
    }

    /// The election deadline; draws one if there is none. A deadline is
    /// `now` plus a value of the timeout window, or plus half the shortest
    /// timeout for a preferred candidate's first.
    pub fn next_election_timeout(&mut self, now: u64) -> (deadline: u64)
        ensures
            final(self)@ == old(self)@.with_deadline(now),
            final(self)@.next_election_timeout == Some(deadline),
            old(self)@.next_election_timeout is None && !old(self)@.preferred ==> now
                + old(self)@.options.election_timeout_min <= deadline || deadline == u64::MAX,
            old(self)@.next_election_timeout is None ==> deadline <= now
                + old(self)@.options.election_timeout_max,
    {
        proof {
            use_type_invariant(&*self);
        }
        if let Some(deadline) = self.next_election_timeout {
            return deadline;
        }
        let mixed: u128 = (self.seed as u128) * 6364136223846793005u128 + (now as u128)
            + 1442695040888963407u128;
        let seed: u64 = (mixed % 0x1_0000_0000_0000_0000u128) as u64;
        let min: u64 = self.options.election_timeout_min;
        let interval: u64 = if self.preferred {
            min / 2
        } else {
            let window: u128 = ((self.options.election_timeout_max - min) as u128) + 1;
            let offset: u128 = ((seed / 0x1_0000) as u128) % window;
            min + (offset as u64)
        };
        let deadline: u64 = now.saturating_add(interval);
        self.seed = seed;
        self.preferred = false;
        self.next_election_timeout = Some(deadline);
        deadline
    }

    /// Replaces the tunables; they take effect at the next evaluation.
    pub fn update_options(&mut self, options: Options) -> (r: Result<(), Error>)
        ensures
            (final(self)@, r) == old(self)@.update_options(options),
    {
        proof {
            use_type_invariant(&*self);
        }
        if !options.is_valid() {
            return Err(Error::InvalidOptions);
        }
        self.options = options;
        Ok(())
    }

    /// Draws a fresh election deadline, counted from `now`.
    pub fn reset_election_timeout(&mut self, now: u64)
        ensures
            final(self)@ == old(self)@.rearmed(now),
    {
        proof {
            use_type_invariant(&*self);
        }
        self.next_election_timeout = None;
        self.preferred = false;
        let _ = self.next_election_timeout(now);
    }

    fn step_down(&mut self, term: u64, slot: &mut PrevStateSlot)
        ensures
            (final(self)@, final(slot).armed()) == old(self)@.stepped_down(
                term,
                old(slot).armed(),
            ),
    {
        proof {
            use_type_invariant(&*self);
        }
        if term > self.hard_state.current_term {
            self.hard_state = self.hard_state.adopt(term);
            self.current_leader = None;
            if self.state != State::Follower {
                self.set_state(State::Follower, slot);
            }
        }
    }

    /// Why a message from `sender` is turned away unread, if it is.
    pub fn refusal(&self, sender: &NodeId, term: u64) -> (r: Option<Error>)
        ensures
            r == self@.refusal(*sender, term),
    {
        if self.state == State::Shutdown {
            Some(Error::ChannelDisconnected)
        } else if self.state == State::Startup {
            Some(Error::NotInitialized)
        } else if !sender.is_peer_of(&self.node_id) {
            Some(Error::WrongGroup)
        } else if term < self.hard_state.current_term {
            Some(Error::StaleTerm { current_term: self.hard_state.current_term })
        } else {
            None
        }
    }

    /// The hard state that must be on disk before `req` is accepted, where
    /// accepting it changes the hard state.
    pub fn heartbeat_hard_state(&self, req: &HeartbeatRequest) -> (r: Option<HardState>)
        ensures
            r is Some <==> self@.heartbeat_persists(*req),
            r is Some ==> r->0 == self@.hard_state.adopted(req.term),
    {
        if self.refusal(&req.leader_id, req.term).is_none() && req.term
            > self.hard_state.current_term {
            Some(self.hard_state.adopt(req.term))
        } else {
            None
        }
    }

    /// Handles a heartbeat. A stale one, one from another group, and one that
    /// finds the node not ready are turned away and change nothing. Any other
    /// makes the node a follower of the sender, in the sender's term, with a
    /// fresh election deadline. `persisted` tells whether the hard state of
    /// [`Self::heartbeat_hard_state`] reached the disk.
    pub fn handle_heartbeat(
        &mut self,
        req: &HeartbeatRequest,
        now: u64,
        slot: &mut PrevStateSlot,
        persisted: bool,
    ) -> (r: Result<HeartbeatResponse, Error>)
        ensures
            (final(self)@, final(slot).armed(), r) == old(self)@.heartbeat(
                *req,
                now,
                old(slot).armed(),
                persisted,
            ),
    {
        proof {
            use_type_invariant(&*self);
        }
        if let Some(e) = self.refusal(&req.leader_id, req.term) {
            return Err(e);
        }
        if req.term > self.hard_state.current_term && !persisted {
            return Err(Error::Storage);
        }
        self.hard_state = self.hard_state.adopt(req.term);
        self.current_leader = Some(req.leader_id);
        if self.state != State::Follower {
            self.set_state(State::Follower, slot);
        }
        self.reset_election_timeout(now);
        Ok(HeartbeatResponse { from: self.node_id, term: req.term, success: true })
    }

    fn hard_state_after_vote(&self, req: &VoteRequest) -> (hs: HardState)
        ensures
            hs == self@.hard_state_after_vote(*req),
    {
        let hs = self.hard_state.adopt(req.term);
        let free = match hs.voted_for {
            None => true,
            Some(v) => v == req.candidate_id,
        };
        if free {
            HardState { current_term: hs.current_term, voted_for: Some(req.candidate_id) }
        } else {
            hs
        }
    }

    /// The hard state that must be on disk before `req` is answered, where
    /// answering it changes the hard state. A pre-vote never does.
    pub fn vote_hard_state(&self, req: &VoteRequest) -> (r: Option<HardState>)
        ensures
            r is Some <==> self@.vote_persists(*req),
            r is Some ==> r->0 == self@.hard_state_after_vote(*req),
            req.pre_vote ==> r is None,
    {
        if self.refusal(&req.candidate_id, req.term).is_some() || req.pre_vote {
            return None;
        }
        let hs = self.hard_state_after_vote(req);
        if hs.same(&self.hard_state) {
            None
        } else {
            Some(hs)
        }
    }

    /// Whether a pre-vote would be granted at `now`.
    pub fn grants_pre_vote(&self, now: u64) -> (r: bool)
        ensures
            r == self@.pre_vote_granted(now),
    {
        match self.current_leader {
            None => true,
            Some(_) => match self.next_election_timeout {
                Some(deadline) => now.saturating_add(self.options.heartbeat_interval)
                    >= deadline,
                None => false,
            },
        }
    }

    /// Handles a vote request. A pre-vote is answered from what the node
    /// knows and changes nothing. A real vote adopts a higher term, and is
    /// granted where the node's vote in that term is free or was cast for the
    /// same candidate; a granted vote draws a fresh election deadline.
    /// `persisted` tells whether the hard state of [`Self::vote_hard_state`]
    /// reached the disk: if not, the vote is denied and nothing changes.
    pub fn handle_vote_request(
        &mut self,
        req: &VoteRequest,
        now: u64,
        slot: &mut PrevStateSlot,
        persisted: bool,
    ) -> (r: Result<VoteResponse, Error>)
        ensures
            (final(self)@, final(slot).armed(), r) == old(self)@.vote(
                *req,
                now,
                old(slot).armed(),
                persisted,
            ),
            req.pre_vote ==> final(self)@ == old(self)@,
    {
        proof {
            use_type_invariant(&*self);
        }
        if let Some(e) = self.refusal(&req.candidate_id, req.term) {
            return Err(e);
        }
        if req.pre_vote {
            return Ok(
                VoteResponse {
                    from: self.node_id,
                    term: self.hard_state.current_term,
                    vote_granted: self.grants_pre_vote(now),
                    pre_vote: true,
                },
            );
        }
        let hs = self.hard_state_after_vote(req);
        if !hs.same(&self.hard_state) && !persisted {
            return Err(Error::Storage);
        }
        let granted = match hs.voted_for {
            Some(v) => v == req.candidate_id,
            None => false,
        };
        self.step_down(req.term, slot);
        self.hard_state = hs;
        if granted {
            self.reset_election_timeout(now);
        }
        Ok(
            VoteResponse {
                from: self.node_id,
                term: hs.current_term,
                vote_granted: granted,
                pre_vote: false,
            },
        )
    }

    /// The election timer fired. A follower forgets its leader and becomes a
    /// pre-candidate; in any other role nothing happens.
    pub fn election_timeout(&mut self, slot: &mut PrevStateSlot)
        ensures
            (final(self)@, final(slot).armed()) == old(self)@.election_timeout(
                old(slot).armed(),
            ),
    {
        proof {
            use_type_invariant(&*self);
        }
        if self.state == State::Follower {
            self.set_state(State::PreCandidate, slot);
            self.current_leader = None;
        }
    }

    /// Leaves for `Shutdown`, for good.
    pub fn shutdown(&mut self, slot: &mut PrevStateSlot)
        ensures
            (final(self)@, final(slot).armed()) == old(self)@.set_state(
                State::Shutdown,
                old(slot).armed(),
            ),
    {
        self.set_state(State::Shutdown, slot);
    }

    /// The error for an `Initialize` that comes after the first: it carries
    /// the membership in force.
    pub fn init_rejection(&self) -> (e: Error)
        ensures
            (e matches Error::AlreadyInitialized { members } && members@ == self@.members),
    {
        Error::AlreadyInitialized { members: copy_of(&self.members) }
    }

    /// Takes the membership and becomes a follower. Only a node in `Startup`
    /// does; one that was initialized before answers with the membership it
    /// has. `stored` is the hard state found on disk, if any; `persisted`
    /// tells whether the node's own reached the disk where none was found.
    pub fn initialize(
        &mut self,
        members: &Vec<Member>,
        force_leader_hint: bool,
        stored: Option<HardState>,
        persisted: bool,
        slot: &mut PrevStateSlot,
    ) -> (r: Result<(), Error>)
        ensures
            (final(self)@, final(slot).armed()) == old(self)@.initialize(
                members@,
                force_leader_hint,
                stored,
                persisted,
                old(slot).armed(),
            ),
            old(self)@.state == State::Startup || old(self)@.state == State::Shutdown ==> r == (
            match old(self)@.init_refusal(members@, stored, persisted) {
                Some(e) => Err::<(), Error>(e),
                None => Ok::<(), Error>(()),
            }),
            old(self)@.state != State::Startup && old(self)@.state != State::Shutdown ==> (
            r matches Err(Error::AlreadyInitialized { members: m }) && m@ == old(self)@.members),
    {
        proof {
            use_type_invariant(&*self);
        }
        if self.state == State::Shutdown {
            return Err(Error::ChannelDisconnected);
        }
        if self.state != State::Startup {
            return Err(self.init_rejection());
        }
        if !same_group(members, self.node_id.group_id) {
            return Err(Error::WrongGroup);
        }
        if stored.is_none() && !persisted {
            return Err(Error::Storage);
        }
        self.members = without_repetition(members);
        if let Some(hs) = stored {
            if hs.current_term > self.hard_state.current_term || (hs.current_term
                == self.hard_state.current_term && self.hard_state.voted_for.is_none()) {
                self.hard_state = hs;
            }
        }
        self.preferred = force_leader_hint;
        self.set_state(State::Follower, slot);
        Ok(())
    }

    /// The weight the node carries in its own group, if it is a member.
    pub fn own_weight(&self) -> (r: Option<u64>)
        ensures
            r == self@.own_weight(),
    {
        weight_of(&self.members, &self.node_id)
    }

    /// The other members, in the order of the membership.
    pub fn peers(&self) -> (r: Vec<NodeId>)
        ensures
            r@ == self@.peers(),
    {
        others(&self.members, &self.node_id)
    }

    /// The request to send for votes.
    pub fn vote_request(&self, pre_vote: bool) -> (r: VoteRequest)
        ensures
            r == self@.vote_request(pre_vote),
    {
        VoteRequest {
            term: if pre_vote {
                self.hard_state.current_term.saturating_add(1)
            } else {
                self.hard_state.current_term
            },
            candidate_id: self.node_id,
            pre_vote,
            vote_factor_hint: self.own_weight(),
        }
    }

    /// The heartbeat to send.
    pub fn heartbeat_request(&self) -> (r: HeartbeatRequest)
        ensures
            r == self@.heartbeat_request(),
    {
        HeartbeatRequest { term: self.hard_state.current_term, leader_id: self.node_id }
    }

    fn decide(&mut self, tally: &mut Tally, now: u64, slot: &mut PrevStateSlot) -> (r:
        QuorumOutcome)
        ensures
            (final(self)@, final(tally)@, final(slot).armed(), r) == old(self)@.decide(
                old(tally)@,
                now,
                old(slot).armed(),
            ),
    {
        proof {
            use_type_invariant(&*self);
        }
        let outcome = tally.evaluate(&self.options.quorum_policy, &self.members);
        match outcome {
            QuorumOutcome::Granted => {
                if self.state == State::PreCandidate {
                    self.set_state(State::Candidate, slot);
                    *tally = Tally::new();
                } else {
                    self.set_state(State::Leader, slot);
                    self.current_leader = Some(self.node_id);
                }
            },
            QuorumOutcome::Rejected => {
                self.set_state(State::Follower, slot);
                self.reset_election_timeout(now);
            },
            QuorumOutcome::Pending => {},
        }
        outcome
    }

    /// Opens a pre-vote round: a fresh deadline, an empty tally but for the
    /// node's own voice, and the decision if that voice is enough.
    pub fn start_pre_vote(&mut self, tally: &mut Tally, now: u64, slot: &mut PrevStateSlot) -> (r:
        QuorumOutcome)
        ensures
            (final(self)@, final(tally)@, final(slot).armed(), r) == old(self)@.pre_vote_started(
                now,
                old(slot).armed(),
            ),
            final(self)@.hard_state == old(self)@.hard_state,
    {
        *tally = Tally::new();
        if self.state != State::PreCandidate {
            return QuorumOutcome::Pending;
        }
        tally.record(self.node_id, true);
        self.reset_election_timeout(now);
        self.decide(tally, now, slot)
    }

    /// Counts an answer to a pre-vote and decides. Only a pre-candidate
    /// counts; the hard state is never touched.
    pub fn handle_pre_vote_response(
        &mut self,
        tally: &mut Tally,
        resp: &VoteResponse,
        now: u64,
        slot: &mut PrevStateSlot,
    ) -> (r: QuorumOutcome)
        ensures
            (final(self)@, final(tally)@, final(slot).armed(), r) == old(self)@.pre_vote_response(
                old(tally)@,
                *resp,
                now,
                old(slot).armed(),
            ),
            final(self)@.hard_state == old(self)@.hard_state,
    {
        if self.state != State::PreCandidate || !resp.pre_vote || !resp.from.is_peer_of(
            &self.node_id,
        ) {
            return QuorumOutcome::Pending;
        }
        tally.record(resp.from, resp.vote_granted);
        self.decide(tally, now, slot)
    }

    /// A pre-vote round ran out of time: a pre-candidate backs off to
    /// follower, with a fresh election deadline.
    pub fn round_timeout(&mut self, now: u64, slot: &mut PrevStateSlot)
        ensures
            (final(self)@, final(slot).armed()) == old(self)@.round_timeout(
                now,
                old(slot).armed(),
            ),
    {
        if self.state == State::PreCandidate {
            self.set_state(State::Follower, slot);
            self.reset_election_timeout(now);
        }
    }

    /// The hard state that must be on disk before a candidate opens an
    /// election, if it can open one.
    pub fn election_hard_state(&self) -> (r: Option<HardState>)
        ensures
            r is Some <==> self@.election_persists(),
            r is Some ==> r->0 == self@.election_hard_state(),
    {
        if self.state == State::Candidate && self.hard_state.current_term < u64::MAX {
            Some(
                HardState {
                    current_term: self.hard_state.current_term + 1,
                    voted_for: Some(self.node_id),
                },
            )
        } else {
            None
        }
    }

    /// Opens an election: the next term, the node's vote for itself, a fresh
    /// deadline, and the decision if that vote is enough. `persisted` tells
    /// whether the hard state of [`Self::election_hard_state`] reached the
    /// disk; if not, or if no term is left, the candidate backs off.
    pub fn start_election(
        &mut self,
        tally: &mut Tally,
        now: u64,
        slot: &mut PrevStateSlot,
        persisted: bool,
    ) -> (r: QuorumOutcome)
        ensures
            (final(self)@, final(tally)@, final(slot).armed(), r) == old(self)@.election_started(
                now,
                old(slot).armed(),
                persisted,
            ),
    {
        proof {
            use_type_invariant(&*self);
        }
        *tally = Tally::new();
        if self.state != State::Candidate {
            return QuorumOutcome::Pending;
        }
        if self.hard_state.current_term == u64::MAX || !persisted {
            self.set_state(State::Follower, slot);
            self.reset_election_timeout(now);
            return QuorumOutcome::Rejected;
        }
        tally.record(self.node_id, true);
        self.hard_state = HardState {
            current_term: self.hard_state.current_term + 1,
            voted_for: Some(self.node_id),
        };
        self.current_leader = None;
        self.reset_election_timeout(now);
        self.decide(tally, now, slot)
    }

    /// The hard state that must be on disk before an answer from a higher
    /// term is taken in by a candidate or a leader.
    pub fn response_hard_state(&self, from: &NodeId, term: u64) -> (r: Option<HardState>)
        ensures
            r is Some <==> self@.response_persists(*from, term),
            r is Some ==> r->0 == self@.hard_state.adopted(term),
    {
        if (self.state == State::Candidate || self.state == State::Leader) && from.is_peer_of(
            &self.node_id,
        ) && term > self.hard_state.current_term {
            Some(self.hard_state.adopt(term))
        } else {
            None
        }
    }

    /// Takes in an answer to a candidate's request and decides. `persisted`
    /// tells whether the hard state of [`Self::response_hard_state`] reached
    /// the disk, where the answer comes from a higher term.
    pub fn handle_vote_response(
        &mut self,
        tally: &mut Tally,
        resp: &VoteResponse,
        now: u64,
        slot: &mut PrevStateSlot,
        persisted: bool,
    ) -> (r: QuorumOutcome)
        ensures
            (final(self)@, final(tally)@, final(slot).armed(), r) == old(self)@.vote_response(
                old(tally)@,
                *resp,
                now,
                old(slot).armed(),
                persisted,
            ),
    {
        if self.state != State::Candidate || !resp.from.is_peer_of(&self.node_id) {
            return QuorumOutcome::Pending;
        }
        if resp.term > self.hard_state.current_term {
            if persisted {
                self.step_down(resp.term, slot);
                self.reset_election_timeout(now);
                return QuorumOutcome::Rejected;
            }
            return QuorumOutcome::Pending;
        }
        if resp.pre_vote || resp.term < self.hard_state.current_term {
            return QuorumOutcome::Pending;
        }
        tally.record(resp.from, resp.vote_granted);
        self.decide(tally, now, slot)
    }

    /// Takes in an answer to a leader's heartbeat: one from a higher term
    /// ends the leadership.
    pub fn handle_heartbeat_response(
        &mut self,
        resp: &HeartbeatResponse,
        now: u64,
        slot: &mut PrevStateSlot,
        persisted: bool,
    )
        ensures
            (final(self)@, final(slot).armed()) == old(self)@.heartbeat_response(
                *resp,
                now,
                old(slot).armed(),
                persisted,
            ),
    {
        if self.state == State::Leader && resp.from.is_peer_of(&self.node_id) && resp.term
            > self.hard_state.current_term && persisted {
            self.step_down(resp.term, slot);
            self.reset_election_timeout(now);
        }
    }

    /// A leader that has lost touch with the majority gives up.
    pub fn lease_expired(&mut self, now: u64, slot: &mut PrevStateSlot)
        ensures
            (final(self)@, final(slot).armed()) == old(self)@.lease_expired(
                now,
                old(slot).armed(),
            ),
    {
        proof {
            use_type_invariant(&*self);
        }
        if self.state == State::Leader {
            self.set_state(State::Follower, slot);
            self.current_leader = None;
            self.reset_election_timeout(now);
        }
    }

    /// The end of a lease. `heard` holds the peers that answered a
    /// heartbeat while it ran; it is emptied for the next lease. A leader
    /// that, counting itself, did not hear from a strict majority of the
    /// group's weight becomes a follower.
    pub fn check_lease(&mut self, heard: &mut Tally, now: u64, slot: &mut PrevStateSlot)
        ensures
            (final(self)@, final(slot).armed()) == old(self)@.lease_checked(
                old(heard)@,
                now,
                old(slot).armed(),
            ),
            final(heard)@ == crate::quorum::TallyView::empty(),
    {
        heard.record(self.node_id, true);
        let none: Vec<NodeId> = Vec::new();
        let outcome = crate::quorum::evaluate(&Quorum::Major, &self.members, heard.granted(),
            &none);
        *heard = Tally::new();
        if self.options.leader_lease > 0 {
            match outcome {
                QuorumOutcome::Granted => {},
                _ => {
                    self.lease_expired(now, slot);
                },
            }
        }
    }
}

} // verus!
