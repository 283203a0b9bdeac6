//! The election rules as mathematics: a node's state as a plain value, and
//! each rule as a function from the state before to the state after.

use crate::error::Error;
use crate::msg::{HeartbeatRequest, HeartbeatResponse, VoteRequest, VoteResponse};
use crate::node::{HardState, Member, NodeId, State};
use crate::options::Options;
use crate::quorum::{granted_by, Quorum, QuorumOutcome, TallyView};
use vstd::prelude::*;

verus! {

/// A node's state, as the contracts see it.
pub struct CoreView {
    pub node_id: NodeId,
    pub members: Seq<Member>,
    pub options: Options,
    pub hard_state: HardState,
    pub state: State,
    /// The role the node had before the first transition of the latest loop.
    pub prev_state: Option<State>,
    pub current_leader: Option<NodeId>,
    /// The instant at which the election timer fires, once one is drawn.
    pub next_election_timeout: Option<u64>,
    /// The state of the generator that spreads the election timeouts.
    pub seed: u64,
    /// Whether the next timeout drawn is the short one of a preferred candidate.
    pub preferred: bool,
}

/// No two members share an identity.
pub open spec fn distinct_ids(members: Seq<Member>) -> bool {
    forall|i: int, j: int| 0 <= i < j < members.len() ==> members[i].id != members[j].id
}

pub open spec fn has_id(members: Seq<Member>, id: NodeId) -> bool {
    exists|i: int| 0 <= i < members.len() && #[trigger] members[i].id == id
}

/// The first `n` entries of `members` without those whose identity came before.
pub open spec fn distinct_upto(members: Seq<Member>, n: nat) -> Seq<Member>
    decreases n,
{
    if n == 0 {
        Seq::empty()
    } else {
        let kept = distinct_upto(members, (n - 1) as nat);
        if has_id(kept, members[n - 1].id) {
            kept
        } else {
            kept.push(members[n - 1])
        }
    }
}

/// `members` with each identity kept once, at its first occurrence.
pub open spec fn distinct(members: Seq<Member>) -> Seq<Member> {
    distinct_upto(members, members.len())
}

pub open spec fn all_in_group(members: Seq<Member>, group_id: u64) -> bool {
    forall|i: int| 0 <= i < members.len() ==> (#[trigger] members[i]).id.group_id == group_id
}

/// Whether `i` is where `id` first occurs in `members`.
pub open spec fn first_at(members: Seq<Member>, id: NodeId, i: int) -> bool {
    &&& 0 <= i < members.len()
    &&& members[i].id == id
    &&& forall|j: int| 0 <= j < i ==> members[j].id != id
}

/// The weight that `id` carries among `members`, if it is one of them: that
/// of its first entry.
pub open spec fn weight_in(members: Seq<Member>, id: NodeId) -> Option<u64> {
    if exists|i: int| first_at(members, id, i) {
        Some(members[choose|i: int| first_at(members, id, i)].weight)
    } else {
        None
    }
}

/// The identities of those among the first `n` members that are not `me`.
pub open spec fn peers_upto(members: Seq<Member>, me: NodeId, n: nat) -> Seq<NodeId>
    decreases n,
{
    if n == 0 {
        Seq::empty()
    } else {
        let before = peers_upto(members, me, (n - 1) as nat);
        if members[n - 1].id == me {
            before
        } else {
            before.push(members[n - 1].id)
        }
    }
}

/// The hard state a node starts from: the one found on disk, unless the
/// node's own is newer.
pub open spec fn resumed(own: HardState, stored: Option<HardState>) -> HardState {
    match stored {
        Some(hs) => if hs.current_term > own.current_term || (hs.current_term
            == own.current_term && own.voted_for is None) {
            hs
        } else {
            own
        },
        None => own,
    }
}

pub open spec fn saturating_sum(a: u64, b: u64) -> u64 {
    if a + b > u64::MAX {
        u64::MAX
    } else {
        (a + b) as u64
    }
}

/// The generator's next state. The clock is mixed in, so that nodes that
/// start alike drift apart.
pub open spec fn next_seed(seed: u64, now: u64) -> u64 {
    ((seed * 6364136223846793005 + now + 1442695040888963407) % 0x1_0000_0000_0000_0000) as u64
}

/// The election timeout that a generator state stands for: a value of the
/// window `[election_timeout_min, election_timeout_max]`.
pub open spec fn interval_of(options: Options, seed: u64) -> u64 {
    (options.election_timeout_min + ((seed / 0x1_0000) as int) % options.window()) as u64
}

impl CoreView {
    pub open spec fn wf(self) -> bool {
        &&& self.options.valid()
        &&& distinct_ids(self.members)
    }

    pub open spec fn term(self) -> u64 {
        self.hard_state.current_term
    }

    /// The state a node is created in.
    pub open spec fn initial(node_id: NodeId, options: Options) -> CoreView {
        CoreView {
            node_id,
            members: Seq::empty(),
            options,
            hard_state: HardState { current_term: 0, voted_for: None },
            state: State::Startup,
            prev_state: None,
            current_leader: None,
            next_election_timeout: None,
            seed: node_id.node_id,
            preferred: false,
        }
    }

    /// A transition to `new`. With the slot armed, the role left is recorded.
    /// The slot is spent either way. A role without a timer has no deadline.
    /// Nothing leaves `Shutdown`.
    pub open spec fn set_state(self, new: State, armed: bool) -> (CoreView, bool) {
        if self.state == State::Shutdown {
            (self, armed)
        } else {
            (
                CoreView {
                    state: new,
                    prev_state: if armed {
                        Some(self.state)
                    } else {
                        self.prev_state
                    },
                    next_election_timeout: if new.timed() {
                        self.next_election_timeout
                    } else {
                        None
                    },
                    ..self
                },
                false,
            )
        }
    }

    /// The state with an election deadline: the one it has, or a new one.
    pub open spec fn with_deadline(self, now: u64) -> CoreView {
        if self.next_election_timeout is Some {
            self
        } else {
            let seed = next_seed(self.seed, now);
            let interval = if self.preferred {
                self.options.election_timeout_min / 2
            } else {
                interval_of(self.options, seed)
            };
            CoreView {
                next_election_timeout: Some(saturating_sum(now, interval)),
                seed,
                preferred: false,
                ..self
            }
        }
    }

    /// The state with a fresh election deadline, counted from `now`.
    pub open spec fn rearmed(self, now: u64) -> CoreView {
        CoreView { next_election_timeout: None, preferred: false, ..self }.with_deadline(now)
    }

    /// The election timer has all but run out: no heartbeat can be due before it fires.
    pub open spec fn near_expiry(self, now: u64) -> bool {
        self.next_election_timeout matches Some(deadline) && now
            + self.options.heartbeat_interval >= deadline
    }

    /// The state after a higher term was seen: the vote and the leader are
    /// forgotten and the node is a follower.
    pub open spec fn stepped_down(self, term: u64, armed: bool) -> (CoreView, bool) {
        if term > self.term() {
            let c = CoreView {
                hard_state: self.hard_state.adopted(term),
                current_leader: None,
                ..self
            };
            if c.state != State::Follower {
                c.set_state(State::Follower, armed)
            } else {
                (c, armed)
            }
        } else {
            (self, armed)
        }
    }

    /// Why a message from `sender` is turned away before its content is looked at.
    pub open spec fn refusal(self, sender: NodeId, term: u64) -> Option<Error> {
        if self.state == State::Shutdown {
            Some(Error::ChannelDisconnected)
        } else if self.state == State::Startup {
            Some(Error::NotInitialized)
        } else if !sender.same_group(self.node_id) {
            Some(Error::WrongGroup)
        } else if term < self.term() {
            Some(Error::StaleTerm { current_term: self.term() })
        } else {
            None
        }
    }

    /// Whether a heartbeat changes what must be on disk before it is answered.
    pub open spec fn heartbeat_persists(self, req: HeartbeatRequest) -> bool {
        self.refusal(req.leader_id, req.term) is None && req.term > self.term()
    }

    /// A heartbeat. `persisted` says whether the hard state could be saved,
    /// where it had to be.
    pub open spec fn heartbeat(
        self,
        req: HeartbeatRequest,
        now: u64,
        armed: bool,
        persisted: bool,
    ) -> (CoreView, bool, Result<HeartbeatResponse, Error>) {
        if let Some(e) = self.refusal(req.leader_id, req.term) {
            (self, armed, Err(e))
        } else if req.term > self.term() && !persisted {
            (self, armed, Err(Error::Storage))
        } else {
            let c = CoreView {
                hard_state: self.hard_state.adopted(req.term),
                current_leader: Some(req.leader_id),
                ..self
            };
            let (c, armed) = if c.state != State::Follower {
                c.set_state(State::Follower, armed)
            } else {
                (c, armed)
            };
            (
                c.rearmed(now),
                armed,
                Ok(HeartbeatResponse { from: self.node_id, term: req.term, success: true }),
            )
        }
    }

    /// Whether a pre-vote is granted: the node knows no leader, or has all but
    /// given up on the one it knows.
    pub open spec fn pre_vote_granted(self, now: u64) -> bool {
        self.current_leader is None || self.near_expiry(now)
    }

    /// The hard state after a real vote request: the term adopted, the vote
    /// cast where it is free or was cast for the same candidate.
    pub open spec fn hard_state_after_vote(self, req: VoteRequest) -> HardState {
        let hs = self.hard_state.adopted(req.term);
        if hs.voted_for is None || hs.voted_for == Some(req.candidate_id) {
            HardState { voted_for: Some(req.candidate_id), ..hs }
        } else {
            hs
        }
    }

    /// Whether a vote request changes what must be on disk before it is answered.
    pub open spec fn vote_persists(self, req: VoteRequest) -> bool {
        &&& self.refusal(req.candidate_id, req.term) is None
        &&& !req.pre_vote
        &&& self.hard_state_after_vote(req) != self.hard_state
    }

    /// A vote request. A pre-vote changes nothing.
    pub open spec fn vote(self, req: VoteRequest, now: u64, armed: bool, persisted: bool) -> (
        CoreView,
        bool,
        Result<VoteResponse, Error>,
    ) {
        if let Some(e) = self.refusal(req.candidate_id, req.term) {
            (self, armed, Err(e))
        } else if req.pre_vote {
            (
                self,
                armed,
                Ok(
                    VoteResponse {
                        from: self.node_id,
                        term: self.term(),
                        vote_granted: self.pre_vote_granted(now),
                        pre_vote: true,
                    },
                ),
            )
        } else if self.vote_persists(req) && !persisted {
            (self, armed, Err(Error::Storage))
        } else {
            let hs = self.hard_state_after_vote(req);
            let granted = hs.voted_for == Some(req.candidate_id);
            let (c, armed) = self.stepped_down(req.term, armed);
            let c = CoreView { hard_state: hs, ..c };
            (
                if granted {
                    c.rearmed(now)
                } else {
                    c
                },
                armed,
                Ok(
                    VoteResponse {
                        from: self.node_id,
                        term: hs.current_term,
                        vote_granted: granted,
                        pre_vote: false,
                    },
                ),
            )
        }
    }

    /// The election timer fired on a follower: it knows no leader any more
    /// and probes the group.
    pub open spec fn election_timeout(self, armed: bool) -> (CoreView, bool) {
        if self.state == State::Follower {
            let (c, armed) = self.set_state(State::PreCandidate, armed);
            (CoreView { current_leader: None, ..c }, armed)
        } else {
            (self, armed)
        }
    }

    /// New tunables. A window of one value is turned away.
    pub open spec fn update_options(self, options: Options) -> (CoreView, Result<(), Error>) {
        if options.valid() {
            (CoreView { options, ..self }, Ok(()))
        } else {
            (self, Err(Error::InvalidOptions))
        }
    }

    /// Why an `Initialize` is refused by a node that has not been initialized
    /// or has shut down.
    pub open spec fn init_refusal(
        self,
        members: Seq<Member>,
        stored: Option<HardState>,
        persisted: bool,
    ) -> Option<Error> {
        if self.state == State::Shutdown {
            Some(Error::ChannelDisconnected)
        } else if self.state != State::Startup {
            None
        } else if !all_in_group(members, self.node_id.group_id) {
            Some(Error::WrongGroup)
        } else if stored is None && !persisted {
            Some(Error::Storage)
        } else {
            None
        }
    }

    /// The membership arrives. `stored` is the hard state found on disk, if
    /// any; `persisted` says whether the node's own could be saved where none
    /// was found. Only a node in `Startup` takes it.
    pub open spec fn initialize(
        self,
        members: Seq<Member>,
        force_leader_hint: bool,
        stored: Option<HardState>,
        persisted: bool,
        armed: bool,
    ) -> (CoreView, bool) {
        if self.state == State::Startup && self.init_refusal(members, stored, persisted) is None {
            CoreView {
                members: distinct(members),
                hard_state: resumed(self.hard_state, stored),
                preferred: force_leader_hint,
                ..self
            }.set_state(State::Follower, armed)
        } else {
            (self, armed)
        }
    }

    /// The weight the node carries in its own group, if it is a member.
    pub open spec fn own_weight(self) -> Option<u64> {
        weight_in(self.members, self.node_id)
    }

    /// The other members, in the order of the membership.
    pub open spec fn peers(self) -> Seq<NodeId> {
        peers_upto(self.members, self.node_id, self.members.len())
    }

    /// The request a node sends for votes. A pre-vote asks for the term the
    /// node would start; the node's own term stays.
    pub open spec fn vote_request(self, pre_vote: bool) -> VoteRequest {
        VoteRequest {
            term: if pre_vote {
                saturating_sum(self.term(), 1)
            } else {
                self.term()
            },
            candidate_id: self.node_id,
            pre_vote,
            vote_factor_hint: self.own_weight(),
        }
    }

    pub open spec fn heartbeat_request(self) -> HeartbeatRequest {
        HeartbeatRequest { term: self.term(), leader_id: self.node_id }
    }

    /// What the votes counted so far decide. Granted moves a pre-candidate on
    /// to candidate, with the tally cleared of the pre-votes, and a candidate
    /// to leader; rejected sends either back to follower with a fresh
    /// election deadline; pending changes nothing.
    pub open spec fn decide(self, tally: TallyView, now: u64, armed: bool) -> (
        CoreView,
        TallyView,
        bool,
        QuorumOutcome,
    ) {
        match tally.outcome(self.options.quorum_policy, self.members) {
            QuorumOutcome::Granted => if self.state == State::PreCandidate {
                let (c, armed) = self.set_state(State::Candidate, armed);
                (c, TallyView::empty(), armed, QuorumOutcome::Granted)
            } else {
                let (c, armed) = self.set_state(State::Leader, armed);
                (
                    CoreView { current_leader: Some(self.node_id), ..c },
                    tally,
                    armed,
                    QuorumOutcome::Granted,
                )
            },
            QuorumOutcome::Rejected => {
                let (c, armed) = self.set_state(State::Follower, armed);
                (c.rearmed(now), tally, armed, QuorumOutcome::Rejected)
            },
            QuorumOutcome::Pending => (self, tally, armed, QuorumOutcome::Pending),
        }
    }

    /// A pre-candidate opens a round: a fresh deadline, and its own voice.
    pub open spec fn pre_vote_started(self, now: u64, armed: bool) -> (
        CoreView,
        TallyView,
        bool,
        QuorumOutcome,
    ) {
        if self.state != State::PreCandidate {
            (self, TallyView::empty(), armed, QuorumOutcome::Pending)
        } else {
            self.rearmed(now).decide(TallyView::empty().record(self.node_id, true), now, armed)
        }
    }

    /// An answer to a pre-vote. It is counted by a pre-candidate only, and
    /// never touches the hard state.
    pub open spec fn pre_vote_response(
        self,
        tally: TallyView,
        resp: VoteResponse,
        now: u64,
        armed: bool,
    ) -> (CoreView, TallyView, bool, QuorumOutcome) {
        if self.state != State::PreCandidate || !resp.pre_vote || !resp.from.same_group(
            self.node_id,
        ) {
            (self, tally, armed, QuorumOutcome::Pending)
        } else {
            self.decide(tally.record(resp.from, resp.vote_granted), now, armed)
        }
    }

    /// A pre-vote round ran out of time: the pre-candidate backs off.
    pub open spec fn round_timeout(self, now: u64, armed: bool) -> (CoreView, bool) {
        if self.state == State::PreCandidate {
            let (c, armed) = self.set_state(State::Follower, armed);
            (c.rearmed(now), armed)
        } else {
            (self, armed)
        }
    }

    /// Whether a candidate can open an election: there is a next term.
    pub open spec fn election_persists(self) -> bool {
        self.state == State::Candidate && self.term() < u64::MAX
    }

    /// The hard state of a candidate in its election: the next term, and its
    /// vote for itself.
    pub open spec fn election_hard_state(self) -> HardState {
        HardState { current_term: (self.term() + 1) as u64, voted_for: Some(self.node_id) }
    }

    /// A candidate opens an election. Where the hard state cannot be saved,
    /// or no term is left, it backs off instead.
    pub open spec fn election_started(self, now: u64, armed: bool, persisted: bool) -> (
        CoreView,
        TallyView,
        bool,
        QuorumOutcome,
    ) {
        if self.state != State::Candidate {
            (self, TallyView::empty(), armed, QuorumOutcome::Pending)
        } else if !self.election_persists() || !persisted {
            let (c, armed) = self.set_state(State::Follower, armed);
            (c.rearmed(now), TallyView::empty(), armed, QuorumOutcome::Rejected)
        } else {
            let c = CoreView {
                hard_state: self.election_hard_state(),
                current_leader: None,
                ..self
            };
            c.rearmed(now).decide(TallyView::empty().record(self.node_id, true), now, armed)
        }
    }

    /// Whether an answer makes a candidate or a leader adopt a higher term,
    /// which must be on disk first.
    pub open spec fn response_persists(self, from: NodeId, term: u64) -> bool {
        &&& self.state == State::Candidate || self.state == State::Leader
        &&& from.same_group(self.node_id)
        &&& term > self.term()
    }

    /// An answer to a candidate's request. One from a higher term ends the
    /// candidacy; one from this election is counted; any other is dropped.
    pub open spec fn vote_response(
        self,
        tally: TallyView,
        resp: VoteResponse,
        now: u64,
        armed: bool,
        persisted: bool,
    ) -> (CoreView, TallyView, bool, QuorumOutcome) {
        if self.state != State::Candidate || !resp.from.same_group(self.node_id) {
            (self, tally, armed, QuorumOutcome::Pending)
        } else if resp.term > self.term() {
            if persisted {
                let (c, armed) = self.stepped_down(resp.term, armed);
                (c.rearmed(now), tally, armed, QuorumOutcome::Rejected)
            } else {
                (self, tally, armed, QuorumOutcome::Pending)
            }
        } else if resp.pre_vote || resp.term < self.term() {
            (self, tally, armed, QuorumOutcome::Pending)
        } else {
            self.decide(tally.record(resp.from, resp.vote_granted), now, armed)
        }
    }

    /// An answer to a leader's heartbeat. One from a higher term ends the
    /// leadership; any other changes nothing.
    pub open spec fn heartbeat_response(
        self,
        resp: HeartbeatResponse,
        now: u64,
        armed: bool,
        persisted: bool,
    ) -> (CoreView, bool) {
        if self.state == State::Leader && self.response_persists(resp.from, resp.term)
            && persisted {
            let (c, armed) = self.stepped_down(resp.term, armed);
            (c.rearmed(now), armed)
        } else {
            (self, armed)
        }
    }

    /// Whether the peers in `heard`, with the node itself, carry a strict
    /// majority of the group's weight.
    pub open spec fn in_touch(self, heard: TallyView) -> bool {
        granted_by(Quorum::Major, self.members, heard.record(self.node_id, true).granted)
    }

    /// The end of a lease: a leader that did not hear from a majority while
    /// it ran gives up. A lease of zero is never checked.
    pub open spec fn lease_checked(self, heard: TallyView, now: u64, armed: bool) -> (
        CoreView,
        bool,
    ) {
        if self.options.leader_lease > 0 && !self.in_touch(heard) {
            self.lease_expired(now, armed)
        } else {
            (self, armed)
        }
    }

    /// A leader that has lost touch with the majority gives up.
    pub open spec fn lease_expired(self, now: u64, armed: bool) -> (CoreView, bool) {
        if self.state == State::Leader {
            let (c, armed) = self.set_state(State::Follower, armed);
            (CoreView { current_leader: None, ..c }.rearmed(now), armed)
        } else {
            (self, armed)
        }
    }
}

/// What every rule keeps: the node's identity, a term that does not go
/// back, and within a term the vote that was cast.
pub open spec fn follows(pre: CoreView, post: CoreView) -> bool {
    &&& post.node_id == pre.node_id
    &&& post.term() >= pre.term()
    &&& post.term() == pre.term() && pre.hard_state.voted_for is Some
        ==> post.hard_state.voted_for == pre.hard_state.voted_for
}

/// A heartbeat was handled at some reading of the clock; the disk was asked
/// only where the heartbeat called for it, and may have failed then.
pub open spec fn heartbeat_handled(
    pre: CoreView,
    req: HeartbeatRequest,
    armed: bool,
    post: CoreView,
    armed_after: bool,
    r: Result<HeartbeatResponse, Error>,
) -> bool {
    exists|now: u64, persisted: bool|
        (persisted || pre.heartbeat_persists(req)) && #[trigger] pre.heartbeat(
            req,
            now,
            armed,
            persisted,
        ) == (post, armed_after, r)
}

/// A vote request was handled at some reading of the clock; the disk was
/// asked only where the request called for it, and may have failed then.
pub open spec fn vote_handled(
    pre: CoreView,
    req: VoteRequest,
    armed: bool,
    post: CoreView,
    armed_after: bool,
    r: Result<VoteResponse, Error>,
) -> bool {
    exists|now: u64, persisted: bool|
        (persisted || pre.vote_persists(req)) && #[trigger] pre.vote(req, now, armed, persisted)
            == (post, armed_after, r)
}

pub proof fn lemma_distinct_upto(members: Seq<Member>, n: nat)
    requires
        n <= members.len(),
    ensures
        distinct_ids(distinct_upto(members, n)),
        distinct_upto(members, n).len() <= n,
        forall|i: int|
            0 <= i < n ==> has_id(distinct_upto(members, n), (#[trigger] members[i]).id),
        forall|k: int|
            0 <= k < distinct_upto(members, n).len() ==> exists|i: int|
                0 <= i < n && members[i] == #[trigger] distinct_upto(members, n)[k],
    decreases n,
{
    if n > 0 {
        lemma_distinct_upto(members, (n - 1) as nat);
        let kept = distinct_upto(members, (n - 1) as nat);
        let out = distinct_upto(members, n);
        let last = members[n - 1];
        if has_id(kept, last.id) {
            assert forall|i: int| 0 <= i < n implies has_id(out, (#[trigger] members[i]).id) by {}
        } else {
            assert(out[kept.len() as int] == last);
            assert forall|i: int| 0 <= i < n implies has_id(out, (#[trigger] members[i]).id) by {
                if i < n - 1 {
                    let k = choose|k: int| 0 <= k < kept.len() && kept[k].id == members[i].id;
                    assert(out[k].id == members[i].id);
                } else {
                    assert(out[kept.len() as int].id == members[i].id);
                }
            }
            assert forall|k: int| 0 <= k < out.len() implies exists|i: int|
                0 <= i < n && members[i] == #[trigger] out[k] by {
                if k < kept.len() {
                    assert(out[k] == kept[k]);
                    let i = choose|i: int| 0 <= i < n - 1 && members[i] == kept[k];
                    assert(members[i] == out[k]);
                } else {
                    assert(members[n - 1] == out[k]);
                }
            }
        }
    }
}

} // verus!
