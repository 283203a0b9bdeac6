//! The startup loop.

use crate::channel::{Intake, Message, Reply};
use crate::env::RaftType;
use crate::model::{follows, heartbeat_handled, vote_handled};
use crate::node::{HardState, State};
use crate::raft::{RaftCore, LOOP_BUDGET};
use crate::safety::{
    loop_begins, loop_goes_on, loop_keeps, loop_runs_to, node,
    options_is_step, stepped, within_loop,
};
use crate::state::PrevStateSlot;
use vstd::prelude::*;

verus! {

pub struct Startup<'a, T: RaftType> {
    pub core: &'a mut RaftCore<T>,
}

impl<'a, T: RaftType> Startup<'a, T> {
    #[inline]
    pub fn new(core: &'a mut RaftCore<T>) -> (r: Self)
        ensures
            *r.core == *old(core),
            *final(r.core) == *final(core),
    {
        Self { core }
    }

    /// What a node in startup does with what its intake hands it: it takes
    /// its members and new options, answers heartbeats and vote requests by
    /// the node's rules, which is with `NotInitialized`, and drops the rest.
    /// A shutdown message or a closed intake ends it.
    pub fn on_intake(core: &mut RaftCore<T>, intake: Intake, slot: &mut PrevStateSlot) -> (reply:
        Reply)
        ensures
            stepped(
                node(old(core)@, old(slot).armed()),
                node(final(core)@, final(slot).armed()),
            ),
            (match intake {
                Intake::Message(Message::Heartbeat { req, tx }) => reply matches Reply::Heartbeat {
                    tx: to,
                    result,
                } && to == tx && heartbeat_handled(
                    old(core)@,
                    req,
                    old(slot).armed(),
                    final(core)@,
                    final(slot).armed(),
                    result,
                ),
                Intake::Message(Message::VoteRequest { req, tx }) => reply matches Reply::Vote {
                    tx: to,
                    result,
                } && to == tx && vote_handled(
                    old(core)@,
                    req,
                    old(slot).armed(),
                    final(core)@,
                    final(slot).armed(),
                    result,
                ),
                Intake::Message(
                    Message::Initialize { members, force_leader_hint, tx },
                ) => reply matches Reply::Done { tx: to, result } && to == tx && ((final(core)@
                    == old(core)@ && final(slot).armed() == old(slot).armed() && result is Err) || (
                exists|stored: Option<HardState>|
                    (final(core)@, final(slot).armed()) == #[trigger] old(core)@.initialize(
                        members@,
                        force_leader_hint,
                        stored,
                        true,
                        old(slot).armed(),
                    ) && old(core)@.init_refusal(members@, stored, true) is None && result is Ok)),
                Intake::Message(
                    Message::UpdateOptions { options, tx },
                ) => reply matches Reply::Done {
                    tx: to,
                    result,
                } && to == tx && (final(core)@, result) == old(core)@.update_options(options)
                    && final(slot).armed() == old(slot).armed(),
                Intake::Message(Message::Shutdown) | Intake::Disconnected => reply is Nothing && (
                    final(core)@,
                    final(slot).armed(),
                ) == old(core)@.set_state(State::Shutdown, old(slot).armed()),
                _ => reply is Nothing && final(core)@ == old(core)@ && final(slot).armed()
                    == old(slot).armed(),
            }),
    {
        match intake {
            Intake::Message(msg) => match msg {
                Message::Heartbeat { req, tx } => {
                    let result = core.handle_heartbeat(&req, slot);
                    Reply::Heartbeat { tx, result }
                },
                Message::VoteRequest { req, tx } => {
                    let result = core.handle_vote_request(&req, slot);
                    Reply::Vote { tx, result }
                },
                Message::Initialize { members, force_leader_hint, tx } => {
                    let result = core.initialize(&members, force_leader_hint, slot);
                    Reply::Done { tx, result }
                },
                Message::UpdateOptions { options, tx } => {
                    let result = core.update_options(options);
                    proof {
                        options_is_step(old(core)@, options, slot.armed());
                    }
                    Reply::Done { tx, result }
                },
                Message::Shutdown => {
                    core.shutdown(slot);
                    Reply::Nothing
                },
                Message::HeartbeatResponse(_) => Reply::Nothing,
                Message::VoteResponse(_) => Reply::Nothing,
                Message::EventHandlingResult { .. } => Reply::Nothing,
            },
            Intake::Timeout => Reply::Nothing,
            Intake::Disconnected => {
                core.shutdown(slot);
                Reply::Nothing
            },
        }
    }

    /// Runs a node that has not been given its membership: it runs no timer
    /// and takes part in nothing. Heartbeats and vote requests are answered
    /// with `NotInitialized`. `Initialize` makes it a follower; a shutdown
    /// message, or an intake that nobody can write to any more, ends it.
    ///
    /// After [`LOOP_BUDGET`] messages the loop gives up its turn, whatever
    /// the role.
    pub fn run(self)
        requires
            old(self.core)@.state == State::Startup,
        ensures
            loop_runs_to(old(self.core)@, final(self.core)@),
            follows(old(self.core)@, final(self.core)@),
            final(self.core)@.state == State::Startup || final(self.core)@.state
                == State::Follower || final(self.core)@.state == State::Shutdown,
            final(self.core)@.state == State::Startup ==> final(self.core)@.prev_state
                == old(self.core)@.prev_state && final(self.core)@.hard_state
                == old(self.core)@.hard_state,
            final(self.core)@.state != State::Startup ==> final(self.core)@.prev_state == Some(
                State::Startup,
            ),
    {
        let core = self.core;
        let mut slot = PrevStateSlot::new();
        proof {
            loop_begins(core@);
        }
        core.report_metrics();

        let mut budget: u64 = LOOP_BUDGET;
        while core.is_state(State::Startup) && budget > 0
            invariant
                within_loop(old(self.core)@, node(core@, slot.armed())),
                slot.armed() ==> core@.state == State::Startup && core@.prev_state
                    == old(self.core)@.prev_state && core@.hard_state == old(self.core)@.hard_state,
                !slot.armed() ==> core@.prev_state == Some(State::Startup) && (core@.state
                    == State::Shutdown || core@.state == State::Follower),
            decreases budget,
        {
            budget = budget - 1;
            let ghost before = node(core@, slot.armed());
            let intake = core.recv(None);
            Self::on_intake(core, intake, &mut slot).send();
            proof {
                loop_goes_on(old(self.core)@, before, node(core@, slot.armed()));
            }
        }
        proof {
            loop_keeps(old(self.core)@, node(core@, slot.armed()));
        }
    }
}

} // verus!
