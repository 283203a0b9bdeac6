//! The pre-candidate loop: a probe of the group before the term is raised.

use crate::channel::{Intake, Message, Reply};
use crate::env::RaftType;
use crate::error::Error;
use crate::model::{follows, heartbeat_handled, vote_handled};
use crate::msg::Event;
use crate::node::State;
use crate::quorum::Tally;
use crate::raft::{RaftCore, LOOP_BUDGET};
use crate::safety::{
    drawn_is_step, loop_begins, loop_goes_on, loop_keeps, loop_runs_to, node,
    options_is_step, stepped, within_loop,
};
use crate::state::PrevStateSlot;
use vstd::prelude::*;

verus! {

pub struct PreCandidate<'a, T: RaftType> {
    pub core: &'a mut RaftCore<T>,
}

impl<'a, T: RaftType> PreCandidate<'a, T> {
    #[inline]
    pub fn new(core: &'a mut RaftCore<T>) -> (r: Self)
        ensures
            *r.core == *old(core),
            *final(r.core) == *final(core),
    {
        Self { core }
    }

    /// What a pre-candidate does with what its intake hands it: it counts
    /// the answers to its pre-vote and decides, and it answers heartbeats
    /// and vote requests by the node's rules. When the round runs out of
    /// time it backs off to follower.
    pub fn on_intake(
        core: &mut RaftCore<T>,
        tally: &mut Tally,
        intake: Intake,
        slot: &mut PrevStateSlot,
    ) -> (reply: Reply)
        ensures
            stepped(
                node(old(core)@, old(slot).armed()),
                node(final(core)@, final(slot).armed()),
            ),
            (match intake {
                Intake::Message(Message::Heartbeat { req, tx }) => reply matches Reply::Heartbeat {
                    tx: to,
                    result,
                } && to == tx && heartbeat_handled(
                    old(core)@,
                    req,
                    old(slot).armed(),
                    final(core)@,
                    final(slot).armed(),
                    result,
                ) && final(tally)@ == old(tally)@,
                Intake::Message(Message::VoteRequest { req, tx }) => reply matches Reply::Vote {
                    tx: to,
                    result,
                } && to == tx && vote_handled(
                    old(core)@,
                    req,
                    old(slot).armed(),
                    final(core)@,
                    final(slot).armed(),
                    result,
                ) && final(tally)@ == old(tally)@,
                Intake::Message(
                    Message::UpdateOptions { options, tx },
                ) => reply matches Reply::Done {
                    tx: to,
                    result,
                } && to == tx && (final(core)@, result) == old(core)@.update_options(options)
                    && final(slot).armed() == old(slot).armed() && final(tally)@ == old(tally)@,
                Intake::Message(Message::Initialize { tx, .. }) => reply matches Reply::Done {
                    tx: to,
                    result: Err(Error::AlreadyInitialized { members }),
                } && to == tx && members@ == old(core)@.members && final(core)@ == old(core)@
                    && final(slot).armed() == old(slot).armed() && final(tally)@ == old(tally)@,
                Intake::Message(Message::Shutdown) | Intake::Disconnected => reply is Nothing && (
                    final(core)@,
                    final(slot).armed(),
                ) == old(core)@.set_state(State::Shutdown, old(slot).armed()) && final(tally)@
                    == old(tally)@,
                Intake::Message(Message::VoteResponse(resp)) => reply is Nothing && exists|now: u64|
                    {
                        let o = #[trigger] old(core)@.pre_vote_response(
                            old(tally)@,
                            resp,
                            now,
                            old(slot).armed(),
                        );
                        (final(core)@, final(tally)@, final(slot).armed()) == (o.0, o.1, o.2)
                    },
                Intake::Timeout => reply is Nothing && final(tally)@ == old(tally)@ && exists|
                    now: u64,
                |
                    (final(core)@, final(slot).armed()) == #[trigger] old(core)@.round_timeout(
                        now,
                        old(slot).armed(),
                    ),
                _ => reply is Nothing && final(core)@ == old(core)@ && final(slot).armed()
                    == old(slot).armed() && final(tally)@ == old(tally)@,
            }),
    {
        match intake {
            Intake::Message(msg) => match msg {
                Message::Heartbeat { req, tx } => {
                    let result = core.handle_heartbeat(&req, slot);
                    Reply::Heartbeat { tx, result }
                },
                Message::HeartbeatResponse(_) => Reply::Nothing,
                Message::VoteRequest { req, tx } => {
                    let result = core.handle_vote_request(&req, slot);
                    Reply::Vote { tx, result }
                },
                Message::VoteResponse(resp) => {
                    let _ = core.handle_pre_vote_response(tally, &resp, slot);
                    Reply::Nothing
                },
                Message::Initialize { tx, .. } => {
                    Reply::Done { tx, result: Err(core.init_rejection()) }
                },
                Message::UpdateOptions { options, tx } => {
                    let result = core.update_options(options);
                    proof {
                        options_is_step(old(core)@, options, slot.armed());
                    }
                    Reply::Done { tx, result }
                },
                Message::Shutdown => {
                    core.shutdown(slot);
                    Reply::Nothing
                },
                Message::EventHandlingResult { .. } => Reply::Nothing,
            },
            Intake::Timeout => {
                core.round_timeout(slot);
                Reply::Nothing
            },
            Intake::Disconnected => {
                core.shutdown(slot);
                Reply::Nothing
            },
        }
    }

    /// Runs a pre-candidate: it asks every peer whether it would vote for
    /// it in the next term, without raising its own. Granted by a quorum, it
    /// becomes a candidate; rejected, or out of time, it goes back to
    /// follower. A heartbeat from a leader makes it a follower too.
    ///
    /// Whatever arrives, the term does not go back, a vote cast in the term
    /// stays, the membership stays, and the role left is recorded once.
    ///
    /// After [`LOOP_BUDGET`] messages the loop gives up its turn, whatever
    /// the role.
    pub fn run(self)
        requires
            old(self.core)@.state == State::PreCandidate,
        ensures
            loop_runs_to(old(self.core)@, final(self.core)@),
            follows(old(self.core)@, final(self.core)@),
            final(self.core)@.members == old(self.core)@.members,
            final(self.core)@.state == State::PreCandidate || final(self.core)@.state
                == State::Candidate || final(self.core)@.state == State::Follower
                    || final(self.core)@.state == State::Shutdown,
            final(self.core)@.state == State::PreCandidate ==> final(self.core)@.prev_state
                == old(self.core)@.prev_state,
            final(self.core)@.state != State::PreCandidate ==> final(self.core)@.prev_state
                == Some(State::PreCandidate),
    {
        let core = self.core;
        let mut slot = PrevStateSlot::new();
        let mut tally = Tally::new();
        let _ = core.spawn_event_handling_task(Event::TransitToPreCandidate);
        core.report_metrics();

        proof {
            loop_begins(core@);
        }
        let _ = core.start_pre_vote(&mut tally, &mut slot);
        proof {
            loop_goes_on(old(self.core)@, node(old(self.core)@, true), node(core@, slot.armed()));
        }
        if core.is_state(State::PreCandidate) {
            let _ = core.spawn_vote_requests(true);
        }
        let mut budget: u64 = LOOP_BUDGET;
        while core.is_state(State::PreCandidate) && budget > 0
            invariant
                within_loop(old(self.core)@, node(core@, slot.armed())),
                core@.members == old(self.core)@.members,
                slot.armed() ==> core@.state == State::PreCandidate && core@.prev_state
                    == old(self.core)@.prev_state,
                !slot.armed() ==> core@.prev_state == Some(State::PreCandidate) && (core@.state
                    == State::Shutdown || core@.state == State::Follower || core@.state
                    == State::Candidate),
            decreases budget,
        {
            budget = budget - 1;
            let ghost before = node(core@, slot.armed());
            let round_timeout = core.next_election_timeout();
            let ghost drawn = node(core@, slot.armed());
            proof {
                drawn_is_step(before.core, core@, slot.armed());
                loop_goes_on(old(self.core)@, before, drawn);
            }
            let intake = core.recv(Some(round_timeout));
            Self::on_intake(core, &mut tally, intake, &mut slot).send();
            proof {
                loop_goes_on(old(self.core)@, drawn, node(core@, slot.armed()));
            }
        }
        proof {
            loop_keeps(old(self.core)@, node(core@, slot.armed()));
        }
    }
}

} // verus!
