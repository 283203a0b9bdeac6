//! The follower loop.

use crate::channel::{Intake, Message, Reply};
use crate::env::RaftType;
use crate::error::Error;
use crate::model::{follows, heartbeat_handled, vote_handled};
use crate::msg::Event;
use crate::node::State;
use crate::raft::{RaftCore, LOOP_BUDGET};
use crate::safety::{
    cleared_is_step, drawn_is_step, loop_begins, loop_goes_on, loop_keeps, loop_runs_to, node,
    options_is_step, stepped, within_loop,
};
use crate::state::PrevStateSlot;
use vstd::prelude::*;

verus! {

pub struct Follower<'a, T: RaftType> {
    pub core: &'a mut RaftCore<T>,
}

impl<'a, T: RaftType> Follower<'a, T> {
    #[inline]
    pub fn new(core: &'a mut RaftCore<T>) -> (r: Self)
        ensures
            *r.core == *old(core),
            *final(r.core) == *final(core),
    {
        Self { core }
    }

    /// What a follower does with what its intake hands it: it answers
    /// heartbeats and vote requests by the node's rules, takes new options,
    /// turns a later `Initialize` away, and drops answers to requests of an
    /// earlier role. When the election timer fires it becomes a
    /// pre-candidate; a shutdown message or a closed intake ends the node.
    pub fn on_intake(core: &mut RaftCore<T>, intake: Intake, slot: &mut PrevStateSlot) -> (reply:
        Reply)
        ensures
            stepped(
                node(old(core)@, old(slot).armed()),
                node(final(core)@, final(slot).armed()),
            ),
            (match intake {
                Intake::Message(Message::Heartbeat { req, tx }) => reply matches Reply::Heartbeat {
                    tx: to,
                    result,
                } && to == tx && heartbeat_handled(
                    old(core)@,
                    req,
                    old(slot).armed(),
                    final(core)@,
                    final(slot).armed(),
                    result,
                ),
                Intake::Message(Message::VoteRequest { req, tx }) => reply matches Reply::Vote {
                    tx: to,
                    result,
                } && to == tx && vote_handled(
                    old(core)@,
                    req,
                    old(slot).armed(),
                    final(core)@,
                    final(slot).armed(),
                    result,
                ),
                Intake::Message(
                    Message::UpdateOptions { options, tx },
                ) => reply matches Reply::Done {
                    tx: to,
                    result,
                } && to == tx && (final(core)@, result) == old(core)@.update_options(options)
                    && final(slot).armed() == old(slot).armed(),
                Intake::Message(Message::Initialize { tx, .. }) => reply matches Reply::Done {
                    tx: to,
                    result: Err(Error::AlreadyInitialized { members }),
                } && to == tx && members@ == old(core)@.members && final(core)@ == old(core)@
                    && final(slot).armed() == old(slot).armed(),
                Intake::Message(Message::Shutdown) | Intake::Disconnected => reply is Nothing && (
                    final(core)@,
                    final(slot).armed(),
                ) == old(core)@.set_state(State::Shutdown, old(slot).armed()),
                Intake::Timeout => reply is Nothing && (final(core)@, final(slot).armed())
                    == old(core)@.election_timeout(old(slot).armed()),
                _ => reply is Nothing && final(core)@ == old(core)@ && final(slot).armed()
                    == old(slot).armed(),
            }),
    {
        match intake {
            Intake::Message(msg) => match msg {
                Message::Heartbeat { req, tx } => {
                    let result = core.handle_heartbeat(&req, slot);
                    Reply::Heartbeat { tx, result }
                },
                Message::HeartbeatResponse(_) => {
                    // an answer to a heartbeat this node sent in an earlier role
                    Reply::Nothing
                },
                Message::VoteRequest { req, tx } => {
                    let result = core.handle_vote_request(&req, slot);
                    Reply::Vote { tx, result }
                },
                Message::VoteResponse(_) => {
                    // an answer to a vote request of an earlier role
                    Reply::Nothing
                },
                Message::Initialize { tx, .. } => {
                    Reply::Done { tx, result: Err(core.init_rejection()) }
                },
                Message::UpdateOptions { options, tx } => {
                    let result = core.update_options(options);
                    proof {
                        options_is_step(old(core)@, options, slot.armed());
                    }
                    Reply::Done { tx, result }
                },
                Message::Shutdown => {
                    core.shutdown(slot);
                    Reply::Nothing
                },
                Message::EventHandlingResult { .. } => Reply::Nothing,
            },
            Intake::Timeout => {
                core.election_timeout(slot);
                Reply::Nothing
            },
            Intake::Disconnected => {
                core.shutdown(slot);
                Reply::Nothing
            },
        }
    }

    /// Runs a follower until it stops being one: it answers heartbeats and
    /// vote requests, and when the election timer fires it forgets its
    /// leader and becomes a pre-candidate. A shutdown message, or an intake
    /// that nobody can write to any more, ends the node.
    ///
    /// Whatever arrives, the term does not go back, a vote cast in the term
    /// stays, the membership stays, and the role left is recorded once: when
    /// the node leaves, its previous role reads `Follower`.
    ///
    /// After [`LOOP_BUDGET`] messages the loop gives up its turn, whatever
    /// the role.
    pub fn run(self)
        requires
            old(self.core)@.state == State::Follower,
        ensures
            loop_runs_to(old(self.core)@, final(self.core)@),
            follows(old(self.core)@, final(self.core)@),
            final(self.core)@.members == old(self.core)@.members,
            final(self.core)@.state == State::Follower || final(self.core)@.state
                == State::PreCandidate || final(self.core)@.state == State::Shutdown,
            final(self.core)@.state == State::Follower ==> final(self.core)@.prev_state
                == old(self.core)@.prev_state,
            final(self.core)@.state != State::Follower ==> final(self.core)@.prev_state == Some(
                State::Follower,
            ),
            final(self.core)@.state == State::PreCandidate ==> final(self.core)@.current_leader
                is None,
    {
        let core = self.core;
        // The slot makes sure that the previous role is recorded at most once.
        let mut slot = PrevStateSlot::new();
        proof {
            loop_begins(core@);
            cleared_is_step(core@, true);
        }
        let ghost entered = node(core@, true);
        core.clear_election_timeout();
        proof {
            loop_goes_on(old(self.core)@, entered, node(core@, true));
        }
        let _ = core.spawn_event_handling_task(
            Event::TransitToFollower { term: core.current_term(), prev_state: core.prev_state() },
        );
        core.report_metrics();

        let mut budget: u64 = LOOP_BUDGET;
        while core.is_state(State::Follower) && budget > 0
            invariant
                within_loop(old(self.core)@, node(core@, slot.armed())),
                core@.members == old(self.core)@.members,
                slot.armed() ==> core@.state == State::Follower && core@.prev_state
                    == old(self.core)@.prev_state,
                !slot.armed() ==> core@.prev_state == Some(State::Follower) && (core@.state
                    == State::Shutdown || (core@.state == State::PreCandidate
                    && core@.current_leader is None)),
            decreases budget,
        {
            budget = budget - 1;
            let ghost before = node(core@, slot.armed());
            let election_timeout = core.next_election_timeout();
            let ghost drawn = node(core@, slot.armed());
            proof {
                drawn_is_step(before.core, core@, slot.armed());
                loop_goes_on(old(self.core)@, before, drawn);
            }
            let intake = core.recv(Some(election_timeout));
            Self::on_intake(core, intake, &mut slot).send();
            proof {
                loop_goes_on(old(self.core)@, drawn, node(core@, slot.armed()));
            }
        }
        proof {
            loop_keeps(old(self.core)@, node(core@, slot.armed()));
        }
    }
}

} // verus!
