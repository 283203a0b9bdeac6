//! The leader loop: heartbeats, and an ear for who still answers.

use crate::channel::{Intake, Message, Reply};
use crate::env::RaftType;
use crate::error::Error;
use crate::model::{follows, heartbeat_handled, vote_handled};
use crate::msg::Event;
use crate::node::State;
use crate::quorum::Tally;
use crate::raft::{RaftCore, LOOP_BUDGET};
use crate::safety::{
    cleared_is_step, loop_begins, loop_goes_on, loop_keeps, loop_runs_to, node,
    options_is_step, stepped, within_loop,
};
use crate::state::PrevStateSlot;
use vstd::prelude::*;

verus! {

pub struct Leader<'a, T: RaftType> {
    pub core: &'a mut RaftCore<T>,
}

impl<'a, T: RaftType> Leader<'a, T> {
    #[inline]
    pub fn new(core: &'a mut RaftCore<T>) -> (r: Self)
        ensures
            *r.core == *old(core),
            *final(r.core) == *final(core),
    {
        Self { core }
    }

    /// What a leader does with what its intake hands it: it notes who
    /// answered its heartbeat in its term, gives way to an answer from a
    /// higher term, and answers heartbeats and vote requests by the node's
    /// rules.
    pub fn on_intake(
        core: &mut RaftCore<T>,
        heard: &mut Tally,
        intake: Intake,
        slot: &mut PrevStateSlot,
    ) -> (reply: Reply)
        ensures
            stepped(
                node(old(core)@, old(slot).armed()),
                node(final(core)@, final(slot).armed()),
            ),
            (match intake {
                Intake::Message(Message::Heartbeat { req, tx }) => reply matches Reply::Heartbeat {
                    tx: to,
                    result,
                } && to == tx && heartbeat_handled(
                    old(core)@,
                    req,
                    old(slot).armed(),
                    final(core)@,
                    final(slot).armed(),
                    result,
                ) && final(heard)@ == old(heard)@,
                Intake::Message(Message::VoteRequest { req, tx }) => reply matches Reply::Vote {
                    tx: to,
                    result,
                } && to == tx && vote_handled(
                    old(core)@,
                    req,
                    old(slot).armed(),
                    final(core)@,
                    final(slot).armed(),
                    result,
                ) && final(heard)@ == old(heard)@,
                Intake::Message(
                    Message::UpdateOptions { options, tx },
                ) => reply matches Reply::Done {
                    tx: to,
                    result,
                } && to == tx && (final(core)@, result) == old(core)@.update_options(options)
                    && final(slot).armed() == old(slot).armed() && final(heard)@ == old(heard)@,
                Intake::Message(Message::Initialize { tx, .. }) => reply matches Reply::Done {
                    tx: to,
                    result: Err(Error::AlreadyInitialized { members }),
                } && to == tx && members@ == old(core)@.members && final(core)@ == old(core)@
                    && final(slot).armed() == old(slot).armed() && final(heard)@ == old(heard)@,
                Intake::Message(Message::Shutdown) | Intake::Disconnected => reply is Nothing && (
                    final(core)@,
                    final(slot).armed(),
                ) == old(core)@.set_state(State::Shutdown, old(slot).armed()) && final(heard)@
                    == old(heard)@,
                Intake::Message(Message::HeartbeatResponse(resp)) => reply is Nothing
                    && final(heard)@ == (if resp.success && resp.term == old(core)@.term() {
                    old(heard)@.record(resp.from, true)
                } else {
                    old(heard)@
                }) && exists|now: u64, persisted: bool|
                    (final(core)@, final(slot).armed())
                        == #[trigger] old(core)@.heartbeat_response(resp, now, old(slot).armed(),
                        persisted),
                _ => reply is Nothing && final(core)@ == old(core)@ && final(slot).armed()
                    == old(slot).armed() && final(heard)@ == old(heard)@,
            }),
    {
        match intake {
            Intake::Message(msg) => match msg {
                Message::Heartbeat { req, tx } => {
                    let result = core.handle_heartbeat(&req, slot);
                    Reply::Heartbeat { tx, result }
                },
                Message::HeartbeatResponse(resp) => {
                    if resp.success && resp.term == core.current_term() {
                        heard.record(resp.from, true);
                    }
                    core.handle_heartbeat_response(&resp, slot);
                    Reply::Nothing
                },
                Message::VoteRequest { req, tx } => {
                    let result = core.handle_vote_request(&req, slot);
                    Reply::Vote { tx, result }
                },
                Message::VoteResponse(_) => Reply::Nothing,
                Message::Initialize { tx, .. } => {
                    Reply::Done { tx, result: Err(core.init_rejection()) }
                },
                Message::UpdateOptions { options, tx } => {
                    let result = core.update_options(options);
                    proof {
                        options_is_step(old(core)@, options, slot.armed());
                    }
                    Reply::Done { tx, result }
                },
                Message::Shutdown => {
                    core.shutdown(slot);
                    Reply::Nothing
                },
                Message::EventHandlingResult { .. } => Reply::Nothing,
            },
            Intake::Timeout => Reply::Nothing,
            Intake::Disconnected => {
                core.shutdown(slot);
                Reply::Nothing
            },
        }
    }

    /// Runs a leader: it sends every peer a heartbeat once per heartbeat
    /// interval, and keeps track of who answers. An answer or a request
    /// from a higher term makes it a follower, and so does a lease during
    /// which it did not hear from a majority.
    ///
    /// Whatever arrives, the term does not go back, a vote cast in the term
    /// stays, the membership stays, and the role left is recorded once.
    ///
    /// After [`LOOP_BUDGET`] messages the loop gives up its turn, whatever
    /// the role.
    pub fn run(self)
        requires
            old(self.core)@.state == State::Leader,
        ensures
            loop_runs_to(old(self.core)@, final(self.core)@),
            follows(old(self.core)@, final(self.core)@),
            final(self.core)@.members == old(self.core)@.members,
            final(self.core)@.state == State::Leader || final(self.core)@.state
                == State::Follower || final(self.core)@.state == State::Shutdown,
            final(self.core)@.state == State::Leader ==> final(self.core)@.prev_state
                == old(self.core)@.prev_state,
            final(self.core)@.state != State::Leader ==> final(self.core)@.prev_state == Some(
                State::Leader,
            ),
    {
        let core = self.core;
        let mut slot = PrevStateSlot::new();
        let mut heard = Tally::new();
        proof {
            loop_begins(core@);
            cleared_is_step(core@, true);
        }
        let ghost entered = node(core@, true);
        core.clear_election_timeout();
        proof {
            loop_goes_on(old(self.core)@, entered, node(core@, true));
        }
        let _ = core.spawn_event_handling_task(
            Event::TransitToLeader { term: core.current_term() },
        );
        core.report_metrics();

        let entered: u64 = core.now();
        let mut beat_at: u64 = entered;
        let mut lease_at: u64 = entered.saturating_add(core.options().leader_lease);
        let mut budget: u64 = LOOP_BUDGET;
        while core.is_state(State::Leader) && budget > 0
            invariant
                within_loop(old(self.core)@, node(core@, slot.armed())),
                core@.members == old(self.core)@.members,
                slot.armed() ==> core@.state == State::Leader && core@.prev_state
                    == old(self.core)@.prev_state,
                !slot.armed() ==> core@.prev_state == Some(State::Leader) && (core@.state
                    == State::Shutdown || core@.state == State::Follower),
            decreases budget,
        {
            budget = budget - 1;
            let now: u64 = core.now();
            if now >= lease_at {
                let ghost before = node(core@, slot.armed());
                core.check_lease(&mut heard, &mut slot);
                proof {
                    loop_goes_on(old(self.core)@, before, node(core@, slot.armed()));
                }
                lease_at = now.saturating_add(core.options().leader_lease);
            }
            if core.is_state(State::Leader) {
                if now >= beat_at {
                    let _ = core.spawn_heartbeats();
                    beat_at = now.saturating_add(core.options().heartbeat_interval);
                }
                let wake_at: u64 = if beat_at < lease_at {
                    beat_at
                } else {
                    lease_at
                };
                let ghost before = node(core@, slot.armed());
                let intake = core.recv(Some(wake_at));
                Self::on_intake(core, &mut heard, intake, &mut slot).send();
                proof {
                    loop_goes_on(old(self.core)@, before, node(core@, slot.armed()));
                }
            }
        }
        proof {
            loop_keeps(old(self.core)@, node(core@, slot.armed()));
        }
    }
}

} // verus!
