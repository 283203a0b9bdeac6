//! The core context: a node's election state together with its intake, its
//! clock and what the embedder plugged in. Every state loop borrows it.

pub mod candidate;
pub mod follower;
pub mod leader;
pub mod pre_candidate;
pub mod startup;

use crate::channel::{another, recv, recv_deadline, send, Clock, Intake, Message};
use crate::env::{EventHandler, Metrics, RaftType, Storage, Transport};
use crate::error::Error;
use crate::membership::same_group;
use crate::model::{all_in_group, follows, heartbeat_handled, vote_handled, CoreView};
use crate::msg::{
    heartbeat_answer, leader_event, vote_answer, vote_event, Event, HeartbeatRequest,
    HeartbeatResponse, VoteRequest, VoteResponse,
};
use crate::node::{HardState, Member, NodeId, State};
use crate::options::Options;
use crate::quorum::{QuorumOutcome, Tally};
use crate::raft::candidate::Candidate;
use crate::raft::follower::Follower;
use crate::raft::leader::Leader;
use crate::raft::pre_candidate::PreCandidate;
use crate::raft::startup::Startup;
use crate::safety::{apply, node, runs_keep, runs_on, runs_to, runs_to_itself, stepped, Input};
use crate::state::{CoreState, PrevStateSlot};
use crate::task::{spawn_outcome, TaskSpawner};
use vstd::prelude::*;

verus! {

/// How many messages a loop takes in before it hands the node back to the
/// dispatcher, which enters the loop of the role it finds.
pub const LOOP_BUDGET: u64 = 0xffff_ffff_ffff_ffff;

/// A node: its election state, its intake and clock, and what the embedder
/// plugged in. Its view is the election state.
pub struct RaftCore<T: RaftType> {
    state: CoreState,
    clock: Clock,
    msg_tx: crossbeam_channel::Sender<Message>,
    msg_rx: crossbeam_channel::Receiver<Message>,
    spawner: T::Spawner,
    storage: T::Storage,
    transport: T::Transport,
    event_handler: T::EventHandler,
}

impl<T: RaftType> View for RaftCore<T> {
    type V = CoreView;

    closed spec fn view(&self) -> CoreView {
        self.state@
    }
}

/// Hands an event to the observer and reports on the intake what became of it.
fn deliver_event<H: EventHandler>(
    handler: H,
    tx: crossbeam_channel::Sender<Message>,
    event: Event,
    term: u64,
) {
    let error = match handler.handle_event(event) {
        Ok(()) => None,
        Err(e) => Some(e),
    };
    let _ = send(&tx, Message::EventHandlingResult { event, error, term });
}

/// Asks one peer for its vote and reports the answer on the intake.
fn request_vote<R: Transport>(
    transport: R,
    tx: crossbeam_channel::Sender<Message>,
    peer: NodeId,
    req: VoteRequest,
) {
    let result = transport.send_vote_request(peer, req);
    if let Some(resp) = vote_answer(peer, &req, result) {
        let _ = send(&tx, Message::VoteResponse(resp));
    }
}

/// Sends one peer a heartbeat and reports the answer on the intake.
fn beat<R: Transport>(
    transport: R,
    tx: crossbeam_channel::Sender<Message>,
    peer: NodeId,
    req: HeartbeatRequest,
) {
    let result = transport.send_heartbeat(peer, req);
    if let Some(resp) = heartbeat_answer(peer, result) {
        let _ = send(&tx, Message::HeartbeatResponse(resp));
    }
}

impl<T: RaftType> RaftCore<T> {
    /// A node in `Startup`, at term 0, with no members. `msg_rx` is its
    /// intake; `msg_tx` is a sender of the same channel, on which spawned
    /// tasks report back.
    pub fn new(
        node_id: NodeId,
        options: Options,
        spawner: T::Spawner,
        storage: T::Storage,
        transport: T::Transport,
        event_handler: T::EventHandler,
        msg_tx: crossbeam_channel::Sender<Message>,
        msg_rx: crossbeam_channel::Receiver<Message>,
    ) -> (r: Result<RaftCore<T>, Error>)
        ensures
            options.valid() ==> r is Ok && r->Ok_0@ == CoreView::initial(node_id, options),
            !options.valid() ==> r is Err && r->Err_0 == Error::InvalidOptions,
    {
        match CoreState::new(node_id, options) {
            Ok(state) => Ok(
                RaftCore {
                    state,
                    clock: Clock::new(),
                    msg_tx,
                    msg_rx,
                    spawner,
                    storage,
                    transport,
                    event_handler,
                },
            ),
            Err(e) => Err(e),
        }
    }

    pub fn node_id(&self) -> (r: NodeId)
        ensures
            r == self@.node_id,
    {
        self.state.node_id()
    }

    pub fn state(&self) -> (r: State)
        ensures
            r == self@.state,
    {
        self.state.state()
    }

    pub fn prev_state(&self) -> (r: Option<State>)
        ensures
            r == self@.prev_state,
    {
        self.state.prev_state()
    }

    pub fn current_term(&self) -> (r: u64)
        ensures
            r == self@.term(),
    {
        self.state.current_term()
    }

    pub fn current_leader(&self) -> (r: Option<NodeId>)
        ensures
            r == self@.current_leader,
    {
        self.state.current_leader()
    }

    pub fn hard_state(&self) -> (r: HardState)
        ensures
            r == self@.hard_state,
    {
        self.state.hard_state()
    }

    pub fn members(&self) -> (r: &Vec<Member>)
        ensures
            r@ == self@.members,
    {
        self.state.members()
    }

    pub fn options(&self) -> (r: Options)
        ensures
            r == self@.options,
            r.valid(),
    {
        self.state.options()
    }

    /// The snapshot that observers get.
    pub fn metrics(&self) -> (m: Metrics)
        ensures
            m == (Metrics {
                node_id: self@.node_id,
                state: self@.state,
                current_term: self@.term(),
                current_leader: self@.current_leader,
            }),
    {
        Metrics {
            node_id: self.state.node_id(),
            state: self.state.state(),
            current_term: self.state.current_term(),
            current_leader: self.state.current_leader(),
        }
    }

    pub fn is_state(&self, state: State) -> (r: bool)
        ensures
            r == (self@.state == state),
    {
        self.state.is_state(state)
    }

    /// Moves to `new`. See [`CoreView::set_state`].
    pub fn set_state(&mut self, new: State, slot: &mut PrevStateSlot)
        ensures
            stepped(
                node(old(self)@, old(slot).armed()),
                node(final(self)@, final(slot).armed()),
            ),
            (final(self)@, final(slot).armed()) == old(self)@.set_state(new, old(slot).armed()),
    {
        let before = self.metrics();
        self.state.set_state(new, slot);
        assert(apply(
            node(old(self)@, old(slot).armed()),
            Input::SetState { new },
        ) == node(self@, slot.armed())) by {
            reveal(apply);
        }
        self.observe(&before);
    }

    /// Forgets the election deadline.
    pub fn clear_election_timeout(&mut self)
        ensures
            final(self)@ == (CoreView { next_election_timeout: None, ..old(self)@ }),
    {
        self.state.clear_election_timeout();
    }

    /// The election deadline, on the node's clock; draws one from the
    /// current reading if there is none.
    pub fn next_election_timeout(&mut self) -> (deadline: u64)
        ensures
            exists|now: u64| final(self)@ == #[trigger] old(self)@.with_deadline(now),
            final(self)@.next_election_timeout == Some(deadline),
    {
        let now = self.clock.now();
        let deadline = self.state.next_election_timeout(now);
        assert(self@ == old(self)@.with_deadline(now));
        deadline
    }

    /// Replaces the tunables; they take effect at the next evaluation.
    pub fn update_options(&mut self, options: Options) -> (r: Result<(), Error>)
        ensures
            (final(self)@, r) == old(self)@.update_options(options),
    {
        self.state.update_options(options)
    }

    /// Saves a hard state, where there is one to save.
    fn persist(&self, hard_state: Option<HardState>) -> (saved: bool)
        ensures
            hard_state is None ==> saved,
    {
        match hard_state {
            Some(hs) => self.storage.save_hard_state(&hs).is_ok(),
            None => true,
        }
    }

    /// Dispatches an event to the observer through the spawner. A refusal
    /// is reported and is no reason to stop.
    pub fn spawn_event_handling_task(&self, event: Event) -> (r: Result<(), Error>)
        ensures
            r is Err ==> r == Err::<(), Error>(Error::TaskSpawn),
    {
        let handler = self.event_handler.clone();
        let tx = another(&self.msg_tx);
        let term = self.state.current_term();
        let task = move || { deliver_event(handler, tx, event, term) };
        spawn_outcome(self.spawner.spawn("raft-event".to_string(), task))
    }

    /// Tells the observer what changed since the snapshot `before` was
    /// taken: a new leader as an event, and a new role, term or leader as a
    /// fresh snapshot.
    pub fn observe(&self, before: &Metrics) {
        let after = self.metrics();
        let led = leader_event(before.current_leader, after.current_leader, after.current_term);
        let moved = before.state != after.state || before.current_term != after.current_term
            || led.is_some();
        if let Some(event) = led {
            let _ = self.spawn_event_handling_task(event);
        }
        if moved {
            self.event_handler.report_metrics(after);
        }
    }

    /// Shows the observer where the node stands.
    pub fn report_metrics(&self) {
        self.event_handler.report_metrics(self.metrics());
    }

    /// Handles a heartbeat, at the clock's reading, saving the hard state
    /// first where the heartbeat brings a new term.
    /// See [`CoreView::heartbeat`].
    pub fn handle_heartbeat(&mut self, req: &HeartbeatRequest, slot: &mut PrevStateSlot) -> (r:
        Result<HeartbeatResponse, Error>)
        ensures
            stepped(
                node(old(self)@, old(slot).armed()),
                node(final(self)@, final(slot).armed()),
            ),
            heartbeat_handled(
                old(self)@,
                *req,
                old(slot).armed(),
                final(self)@,
                final(slot).armed(),
                r,
            ),
    {
        let before = self.metrics();
        let persisted = self.persist(self.state.heartbeat_hard_state(req));
        let now = self.clock.now();
        let r = self.state.handle_heartbeat(req, now, slot, persisted);
        assert(apply(
            node(old(self)@, old(slot).armed()),
            Input::Heartbeat { req: *req, now, persisted },
        ) == node(self@, slot.armed())) by {
            reveal(apply);
        }
        assert(old(self)@.heartbeat(*req, now, old(slot).armed(), persisted) == (
            self@,
            slot.armed(),
            r,
        ));
        self.observe(&before);
        r
    }

    /// Handles a vote request, at the clock's reading, saving the hard state
    /// first where the request changes it. See [`CoreView::vote`].
    pub fn handle_vote_request(&mut self, req: &VoteRequest, slot: &mut PrevStateSlot) -> (r:
        Result<VoteResponse, Error>)
        ensures
            stepped(
                node(old(self)@, old(slot).armed()),
                node(final(self)@, final(slot).armed()),
            ),
            vote_handled(
                old(self)@,
                *req,
                old(slot).armed(),
                final(self)@,
                final(slot).armed(),
                r,
            ),
    {
        let before = self.metrics();
        let persisted = self.persist(self.state.vote_hard_state(req));
        let now = self.clock.now();
        let r = self.state.handle_vote_request(req, now, slot, persisted);
        assert(apply(
            node(old(self)@, old(slot).armed()),
            Input::VoteRequest { req: *req, now, persisted },
        ) == node(self@, slot.armed())) by {
            reveal(apply);
        }
        assert(old(self)@.vote(*req, now, old(slot).armed(), persisted) == (
            self@,
            slot.armed(),
            r,
        ));
        let _ = self.spawn_event_handling_task(vote_event(req, &r));
        self.observe(&before);
        r
    }

    /// The error for an `Initialize` that comes after the first: it carries
    /// the membership in force.
    pub fn init_rejection(&self) -> (e: Error)
        ensures
            (e matches Error::AlreadyInitialized { members } && members@ == self@.members),
    {
        self.state.init_rejection()
    }

    /// Answers an `Initialize` that comes after the first with the
    /// membership in force.
    pub fn reject_init_with_members(&self, tx: &crossbeam_channel::Sender<Result<(), Error>>) {
        let _ = send(tx, Err(self.init_rejection()));
    }

    /// Waits on the intake until `deadline` on the node's clock, or without
    /// limit where there is none, or none that the machine's clock reaches.
    pub fn recv(&self, deadline: Option<u64>) -> Intake {
        let until = match deadline {
            Some(at) => self.clock.at(at),
            None => None,
        };
        match until {
            Some(instant) => recv_deadline(&self.msg_rx, instant),
            None => recv(&self.msg_rx),
        }
    }

    /// The election timer fired. See [`CoreView::election_timeout`].
    pub fn election_timeout(&mut self, slot: &mut PrevStateSlot)
        ensures
            stepped(
                node(old(self)@, old(slot).armed()),
                node(final(self)@, final(slot).armed()),
            ),
            (final(self)@, final(slot).armed()) == old(self)@.election_timeout(
                old(slot).armed(),
            ),
    {
        let before = self.metrics();
        self.state.election_timeout(slot);
        assert(apply(
            node(old(self)@, old(slot).armed()),
            Input::ElectionTimeout,
        ) == node(self@, slot.armed())) by {
            reveal(apply);
        }
        self.observe(&before);
    }

    /// The reading of the node's clock.
    pub fn now(&self) -> u64 {
        self.clock.now()
    }

    /// Leaves for `Shutdown`, for good.
    pub fn shutdown(&mut self, slot: &mut PrevStateSlot)
        ensures
            stepped(
                node(old(self)@, old(slot).armed()),
                node(final(self)@, final(slot).armed()),
            ),
            (final(self)@, final(slot).armed()) == old(self)@.set_state(
                State::Shutdown,
                old(slot).armed(),
            ),
    {
        let before = self.metrics();
        self.state.shutdown(slot);
        assert(apply(
            node(old(self)@, old(slot).armed()),
            Input::SetState { new: State::Shutdown },
        ) == node(self@, slot.armed())) by {
            reveal(apply);
        }
        self.observe(&before);
    }

    /// Takes the membership, as a node in `Startup` does: the hard state is
    /// loaded from the disk, or the node's own saved where the disk holds
    /// none, and the node becomes a follower. See [`CoreView::initialize`].
    ///
    /// A node that has shut down answers `ChannelDisconnected`, one that was
    /// initialized before answers with the membership it has, and members of
    /// another group are turned away with `WrongGroup`: the disk is not
    /// asked then. Where the disk is asked and fails, the answer is
    /// `Storage`. Whatever the error, nothing changes.
    pub fn initialize(
        &mut self,
        members: &Vec<Member>,
        force_leader_hint: bool,
        slot: &mut PrevStateSlot,
    ) -> (r: Result<(), Error>)
        ensures
            stepped(
                node(old(self)@, old(slot).armed()),
                node(final(self)@, final(slot).armed()),
            ),
            old(self)@.state == State::Shutdown ==> r == Err::<(), Error>(
                Error::ChannelDisconnected,
            ),
            old(self)@.state != State::Startup && old(self)@.state != State::Shutdown ==> (
            r matches Err(Error::AlreadyInitialized { members: m }) && m@ == old(self)@.members),
            old(self)@.state == State::Startup && !all_in_group(
                members@,
                old(self)@.node_id.group_id,
            ) ==> r == Err::<(), Error>(Error::WrongGroup),
            old(self)@.state == State::Startup && all_in_group(
                members@,
                old(self)@.node_id.group_id,
            ) ==> r is Ok || r == Err::<(), Error>(Error::Storage),
            r is Err ==> final(self)@ == old(self)@ && final(slot).armed() == old(slot).armed(),
            r is Ok ==> exists|stored: Option<HardState>|
                (final(self)@, final(slot).armed()) == #[trigger] old(self)@.initialize(
                    members@,
                    force_leader_hint,
                    stored,
                    true,
                    old(slot).armed(),
                ) && old(self)@.init_refusal(members@, stored, true) is None,
    {
        if !self.state.is_state(State::Startup) {
            return self.state.initialize(members, force_leader_hint, None, true, slot);
        }
        if !same_group(members, self.state.node_id().group_id) {
            return Err(Error::WrongGroup);
        }
        let stored = match self.storage.load_hard_state() {
            Ok(stored) => stored,
            Err(_) => {
                return Err(Error::Storage);
            },
        };
        let persisted = match stored {
            Some(_) => true,
            None => self.persist(Some(self.state.hard_state())),
        };
        if !persisted {
            return Err(Error::Storage);
        }
        let before = self.metrics();
        let r = self.state.initialize(members, force_leader_hint, stored, true, slot);
        assert(apply(
            node(old(self)@, old(slot).armed()),
            Input::Initialize { members: members@, force_leader_hint, stored, persisted: true },
        ) == node(self@, slot.armed())) by {
            reveal(apply);
        }
        assert((self@, slot.armed()) == old(self)@.initialize(
            members@,
            force_leader_hint,
            stored,
            true,
            old(slot).armed(),
        ));
        self.observe(&before);
        r
    }

    /// Asks every peer for its vote, each from a task of its own. Returns
    /// how many tasks the spawner took.
    pub fn spawn_vote_requests(&self, pre_vote: bool) -> (spawned: usize)
        ensures
            spawned <= self@.peers().len(),
    {
        let req = self.state.vote_request(pre_vote);
        let peers = self.state.peers();
        let mut spawned: usize = 0;
        let mut i: usize = 0;
        while i < peers.len()
            invariant
                i <= peers.len(),
                spawned <= i,
            decreases peers.len() - i,
        {
            let peer = peers[i];
            let transport = self.transport.clone();
            let tx = another(&self.msg_tx);
            let task = move || { request_vote(transport, tx, peer, req) };
            if spawn_outcome(self.spawner.spawn("raft-vote".to_string(), task)).is_ok() {
                spawned = spawned + 1;
            }
            i = i + 1;
        }
        spawned
    }

    /// Sends every peer a heartbeat, each from a task of its own. Returns
    /// how many tasks the spawner took.
    pub fn spawn_heartbeats(&self) -> (spawned: usize)
        ensures
            spawned <= self@.peers().len(),
    {
        let req = self.state.heartbeat_request();
        let peers = self.state.peers();
        let mut spawned: usize = 0;
        let mut i: usize = 0;
        while i < peers.len()
            invariant
                i <= peers.len(),
                spawned <= i,
            decreases peers.len() - i,
        {
            let peer = peers[i];
            let transport = self.transport.clone();
            let tx = another(&self.msg_tx);
            let task = move || { beat(transport, tx, peer, req) };
            if spawn_outcome(self.spawner.spawn("raft-heartbeat".to_string(), task)).is_ok() {
                spawned = spawned + 1;
            }
            i = i + 1;
        }
        spawned
    }

    /// Opens a pre-vote round at the clock's reading.
    /// See [`CoreView::pre_vote_started`].
    pub fn start_pre_vote(&mut self, tally: &mut Tally, slot: &mut PrevStateSlot) -> (r:
        QuorumOutcome)
        ensures
            stepped(
                node(old(self)@, old(slot).armed()),
                node(final(self)@, final(slot).armed()),
            ),
            exists|now: u64|
                (final(self)@, final(tally)@, final(slot).armed(), r)
                    == #[trigger] old(self)@.pre_vote_started(now, old(slot).armed()),
    {
        let before = self.metrics();
        let now = self.clock.now();
        let r = self.state.start_pre_vote(tally, now, slot);
        assert(apply(
            node(old(self)@, old(slot).armed()),
            Input::PreVoteStarted { now },
        ) == node(self@, slot.armed())) by {
            reveal(apply);
        }
        assert((self@, tally@, slot.armed(), r) == old(self)@.pre_vote_started(
            now,
            old(slot).armed(),
        ));
        self.observe(&before);
        r
    }

    /// Counts an answer to a pre-vote. See [`CoreView::pre_vote_response`].
    pub fn handle_pre_vote_response(
        &mut self,
        tally: &mut Tally,
        resp: &VoteResponse,
        slot: &mut PrevStateSlot,
    ) -> (r: QuorumOutcome)
        ensures
            stepped(
                node(old(self)@, old(slot).armed()),
                node(final(self)@, final(slot).armed()),
            ),
            exists|now: u64|
                (final(self)@, final(tally)@, final(slot).armed(), r)
                    == #[trigger] old(self)@.pre_vote_response(old(tally)@, *resp, now,
                    old(slot).armed()),
    {
        let before = self.metrics();
        let now = self.clock.now();
        let r = self.state.handle_pre_vote_response(tally, resp, now, slot);
        assert(apply(
            node(old(self)@, old(slot).armed()),
            Input::PreVoteResponse { tally: old(tally)@, resp: *resp, now },
        ) == node(self@, slot.armed())) by {
            reveal(apply);
        }
        assert((self@, tally@, slot.armed(), r) == old(self)@.pre_vote_response(
            old(tally)@,
            *resp,
            now,
            old(slot).armed(),
        ));
        self.observe(&before);
        r
    }

    /// A pre-vote round ran out of time. See [`CoreView::round_timeout`].
    pub fn round_timeout(&mut self, slot: &mut PrevStateSlot)
        ensures
            stepped(
                node(old(self)@, old(slot).armed()),
                node(final(self)@, final(slot).armed()),
            ),
            exists|now: u64|
                (final(self)@, final(slot).armed()) == #[trigger] old(self)@.round_timeout(
                    now,
                    old(slot).armed(),
                ),
    {
        let before = self.metrics();
        let now = self.clock.now();
        self.state.round_timeout(now, slot);
        assert(apply(
            node(old(self)@, old(slot).armed()),
            Input::RoundTimeout { now },
        ) == node(self@, slot.armed())) by {
            reveal(apply);
        }
        assert((self@, slot.armed()) == old(self)@.round_timeout(now, old(slot).armed()));
        self.observe(&before);
    }

    /// Opens an election at the clock's reading, with the new hard state
    /// saved first. The caller tells the observer.
    /// See [`CoreView::election_started`].
    pub fn start_election(&mut self, tally: &mut Tally, slot: &mut PrevStateSlot) -> (r:
        QuorumOutcome)
        ensures
            stepped(
                node(old(self)@, old(slot).armed()),
                node(final(self)@, final(slot).armed()),
            ),
            exists|now: u64, persisted: bool|
                (final(self)@, final(tally)@, final(slot).armed(), r)
                    == #[trigger] old(self)@.election_started(now, old(slot).armed(), persisted),
    {
        let persisted = self.persist(self.state.election_hard_state());
        let now = self.clock.now();
        let r = self.state.start_election(tally, now, slot, persisted);
        assert(apply(
            node(old(self)@, old(slot).armed()),
            Input::ElectionStarted { now, persisted },
        ) == node(self@, slot.armed())) by {
            reveal(apply);
        }
        assert((self@, tally@, slot.armed(), r) == old(self)@.election_started(
            now,
            old(slot).armed(),
            persisted,
        ));
        r
    }

    /// Takes in an answer to a vote request, with the hard state saved
    /// first where the answer brings a higher term.
    /// See [`CoreView::vote_response`].
    pub fn handle_vote_response(
        &mut self,
        tally: &mut Tally,
        resp: &VoteResponse,
        slot: &mut PrevStateSlot,
    ) -> (r: QuorumOutcome)
        ensures
            stepped(
                node(old(self)@, old(slot).armed()),
                node(final(self)@, final(slot).armed()),
            ),
            exists|now: u64, persisted: bool|
                (final(self)@, final(tally)@, final(slot).armed(), r)
                    == #[trigger] old(self)@.vote_response(old(tally)@, *resp, now,
                    old(slot).armed(), persisted),
    {
        let before = self.metrics();
        let persisted = self.persist(self.state.response_hard_state(&resp.from, resp.term));
        let now = self.clock.now();
        let r = self.state.handle_vote_response(tally, resp, now, slot, persisted);
        assert(apply(
            node(old(self)@, old(slot).armed()),
            Input::VoteResponse { tally: old(tally)@, resp: *resp, now, persisted },
        ) == node(self@, slot.armed())) by {
            reveal(apply);
        }
        assert((self@, tally@, slot.armed(), r) == old(self)@.vote_response(
            old(tally)@,
            *resp,
            now,
            old(slot).armed(),
            persisted,
        ));
        self.observe(&before);
        r
    }

    /// Takes in an answer to a heartbeat, with the hard state saved first
    /// where the answer brings a higher term.
    /// See [`CoreView::heartbeat_response`].
    pub fn handle_heartbeat_response(&mut self, resp: &HeartbeatResponse, slot: &mut PrevStateSlot)
        ensures
            stepped(
                node(old(self)@, old(slot).armed()),
                node(final(self)@, final(slot).armed()),
            ),
            exists|now: u64, persisted: bool|
                (final(self)@, final(slot).armed()) == #[trigger] old(self)@.heartbeat_response(
                    *resp,
                    now,
                    old(slot).armed(),
                    persisted,
                ),
    {
        let before = self.metrics();
        let persisted = self.persist(self.state.response_hard_state(&resp.from, resp.term));
        let now = self.clock.now();
        self.state.handle_heartbeat_response(resp, now, slot, persisted);
        assert(apply(
            node(old(self)@, old(slot).armed()),
            Input::HeartbeatResponse { resp: *resp, now, persisted },
        ) == node(self@, slot.armed())) by {
            reveal(apply);
        }
        assert((self@, slot.armed()) == old(self)@.heartbeat_response(
            *resp,
            now,
            old(slot).armed(),
            persisted,
        ));
        self.observe(&before);
    }

    /// The end of a lease. See [`CoreView::lease_checked`].
    pub fn check_lease(&mut self, heard: &mut Tally, slot: &mut PrevStateSlot)
        ensures
            stepped(
                node(old(self)@, old(slot).armed()),
                node(final(self)@, final(slot).armed()),
            ),
            exists|now: u64|
                (final(self)@, final(slot).armed()) == #[trigger] old(self)@.lease_checked(
                    old(heard)@,
                    now,
                    old(slot).armed(),
                ),
            final(heard)@ == crate::quorum::TallyView::empty(),
    {
        let before = self.metrics();
        let now = self.clock.now();
        self.state.check_lease(heard, now, slot);
        assert(apply(
            node(old(self)@, old(slot).armed()),
            Input::LeaseChecked { heard: old(heard)@, now },
        ) == node(self@, slot.armed())) by {
            reveal(apply);
        }
        assert((self@, slot.armed()) == old(self)@.lease_checked(
            old(heard)@,
            now,
            old(slot).armed(),
        ));
        self.observe(&before);
    }

    /// Runs the node: the loop of the role it is in, then the loop of the
    /// role that one left it in, and so on until `Shutdown`.
    ///
    /// Whatever arrives, the term does not go back and a vote cast in the
    /// term stays.
    ///
    /// After [`LOOP_BUDGET`] loops the node gives up its turn, whatever its
    /// role.
    pub fn run(&mut self)
        ensures
            runs_to(old(self)@, final(self)@),
            follows(old(self)@, final(self)@),
    {
        proof {
            runs_to_itself(self@);
        }
        let mut budget: u64 = LOOP_BUDGET;
        while !self.is_state(State::Shutdown) && budget > 0
            invariant
                runs_to(old(self)@, self@),
            decreases budget,
        {
            budget = budget - 1;
            let ghost before = self@;
            match self.state() {
                State::Startup => Startup::new(self).run(),
                State::Follower => Follower::new(self).run(),
                State::PreCandidate => PreCandidate::new(self).run(),
                State::Candidate => Candidate::new(self).run(),
                State::Leader => Leader::new(self).run(),
                State::Shutdown => {},
            }
            proof {
                runs_on(old(self)@, before, self@);
            }
        }
        proof {
            runs_keep(old(self)@, self@);
        }
    }
}

} // verus!
