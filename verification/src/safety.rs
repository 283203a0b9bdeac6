//! What holds of every run of a node: a run is any sequence of the rules
//! of [`CoreView`], applied one after the other.

use crate::model::{follows, CoreView};
use crate::msg::{HeartbeatRequest, HeartbeatResponse, VoteRequest, VoteResponse};
use crate::node::{HardState, Member, NodeId, State};
use crate::options::Options;
use crate::quorum::{
    count_upto, granted_by, outcome, rejected_by, total_upto, total_weight, weight_upto, Quorum,
    TallyView,
};
use vstd::prelude::*;

verus! {

/// A node in the middle of a loop: its state, and whether the loop's right
/// to record the previous role is still unused.
pub struct Node {
    pub core: CoreView,
    pub armed: bool,
}

/// One application of a rule.
#[allow(inconsistent_fields)]
pub enum Input {
    /// A loop is entered: its slot is armed.
    LoopEntered,
    SetState { new: State },
    ClearDeadline,
    DrawDeadline { now: u64 },
    UpdateOptions { options: Options },
    Initialize {
        members: Seq<Member>,
        force_leader_hint: bool,
        stored: Option<HardState>,
        persisted: bool,
    },
    Heartbeat { req: HeartbeatRequest, now: u64, persisted: bool },
    VoteRequest { req: VoteRequest, now: u64, persisted: bool },
    ElectionTimeout,
    PreVoteStarted { now: u64 },
    PreVoteResponse { tally: TallyView, resp: VoteResponse, now: u64 },
    RoundTimeout { now: u64 },
    ElectionStarted { now: u64, persisted: bool },
    VoteResponse { tally: TallyView, resp: VoteResponse, now: u64, persisted: bool },
    HeartbeatResponse { resp: HeartbeatResponse, now: u64, persisted: bool },
    LeaseChecked { heard: TallyView, now: u64 },
}

/// The node after one application of a rule.
#[verifier::opaque]
pub open spec fn apply(n: Node, input: Input) -> Node {
    match input {
        Input::LoopEntered => Node { armed: true, ..n },
        Input::SetState { new } => {
            let (core, armed) = n.core.set_state(new, n.armed);
            Node { core, armed }
        },
        Input::ClearDeadline => Node {
            core: CoreView { next_election_timeout: None, ..n.core },
            ..n
        },
        Input::DrawDeadline { now } => Node { core: n.core.with_deadline(now), ..n },
        Input::UpdateOptions { options } => Node { core: n.core.update_options(options).0, ..n },
        Input::Initialize { members, force_leader_hint, stored, persisted } => {
            let (core, armed) = n.core.initialize(
                members,
                force_leader_hint,
                stored,
                persisted,
                n.armed,
            );
            Node { core, armed }
        },
        Input::Heartbeat { req, now, persisted } => {
            let (core, armed, _) = n.core.heartbeat(req, now, n.armed, persisted);
            Node { core, armed }
        },
        Input::VoteRequest { req, now, persisted } => {
            let (core, armed, _) = n.core.vote(req, now, n.armed, persisted);
            Node { core, armed }
        },
        Input::ElectionTimeout => {
            let (core, armed) = n.core.election_timeout(n.armed);
            Node { core, armed }
        },
        Input::PreVoteStarted { now } => {
            let (core, _, armed, _) = n.core.pre_vote_started(now, n.armed);
            Node { core, armed }
        },
        Input::PreVoteResponse { tally, resp, now } => {
            let (core, _, armed, _) = n.core.pre_vote_response(tally, resp, now, n.armed);
            Node { core, armed }
        },
        Input::RoundTimeout { now } => {
            let (core, armed) = n.core.round_timeout(now, n.armed);
            Node { core, armed }
        },
        Input::ElectionStarted { now, persisted } => {
            let (core, _, armed, _) = n.core.election_started(now, n.armed, persisted);
            Node { core, armed }
        },
        Input::VoteResponse { tally, resp, now, persisted } => {
            let (core, _, armed, _) = n.core.vote_response(tally, resp, now, n.armed, persisted);
            Node { core, armed }
        },
        Input::HeartbeatResponse { resp, now, persisted } => {
            let (core, armed) = n.core.heartbeat_response(resp, now, n.armed, persisted);
            Node { core, armed }
        },
        Input::LeaseChecked { heard, now } => {
            let (core, armed) = n.core.lease_checked(heard, now, n.armed);
            Node { core, armed }
        },
    }
}

/// The node after the first `n` of `inputs`.
pub open spec fn after(start: Node, inputs: Seq<Input>, n: nat) -> Node
    decreases n,
{
    if n == 0 {
        start
    } else {
        apply(after(start, inputs, (n - 1) as nat), inputs[n - 1])
    }
}

/// No rule lowers the term, and within a term no rule takes back or changes
/// a vote that was cast.
pub proof fn step_keeps_term_and_vote(n: Node, input: Input)
    ensures
        apply(n, input).core.node_id == n.core.node_id,
        apply(n, input).core.term() >= n.core.term(),
        apply(n, input).core.term() == n.core.term() && n.core.hard_state.voted_for is Some
            ==> apply(n, input).core.hard_state.voted_for == n.core.hard_state.voted_for,
{
    reveal(apply);
}

/// Along any run of a node the term never decreases.
pub proof fn term_is_monotonic(start: Node, inputs: Seq<Input>, i: nat, j: nat)
    requires
        i <= j <= inputs.len(),
    ensures
        after(start, inputs, i).core.term() <= after(start, inputs, j).core.term(),
    decreases j,
{
    if i < j {
        term_is_monotonic(start, inputs, i, (j - 1) as nat);
        step_keeps_term_and_vote(after(start, inputs, (j - 1) as nat), inputs[j - 1]);
    }
}

/// Along any run of a node, two votes found cast in the same term are one
/// vote: within a term a node votes for at most one candidate.
pub proof fn vote_is_unique_in_term(start: Node, inputs: Seq<Input>, i: nat, j: nat)
    requires
        i <= j <= inputs.len(),
        after(start, inputs, i).core.term() == after(start, inputs, j).core.term(),
        after(start, inputs, i).core.hard_state.voted_for is Some,
    ensures
        after(start, inputs, j).core.hard_state.voted_for == after(
            start,
            inputs,
            i,
        ).core.hard_state.voted_for,
    decreases j,
{
    if i < j {
        let before = after(start, inputs, (j - 1) as nat);
        term_is_monotonic(start, inputs, i, (j - 1) as nat);
        step_keeps_term_and_vote(before, inputs[j - 1]);
        vote_is_unique_in_term(start, inputs, i, (j - 1) as nat);
    }
}

/// A rule changes the recorded previous role only by spending the slot, and
/// only entering a loop arms the slot again.
pub proof fn step_spends_slot(n: Node, input: Input)
    ensures
        apply(n, input).core.prev_state != n.core.prev_state ==> n.armed && !apply(
            n,
            input,
        ).armed,
        !(input is LoopEntered) && !n.armed ==> !apply(n, input).armed,
{
    reveal(apply);
}

proof fn slot_stays_spent(start: Node, inputs: Seq<Input>, i: nat, j: nat)
    requires
        i <= j <= inputs.len(),
        forall|k: int| i <= k < j ==> !(inputs[k] is LoopEntered),
        !after(start, inputs, i).armed,
    ensures
        !after(start, inputs, j).armed,
    decreases j,
{
    if i < j {
        slot_stays_spent(start, inputs, i, (j - 1) as nat);
        step_spends_slot(after(start, inputs, (j - 1) as nat), inputs[j - 1]);
    }
}

/// Within one loop, that is along a run in which no loop is entered, the
/// recorded previous role changes in at most one step.
pub proof fn prev_state_is_written_once(start: Node, inputs: Seq<Input>, i: nat, j: nat)
    requires
        i < j < inputs.len(),
        forall|k: int| 0 <= k < inputs.len() ==> !(inputs[k] is LoopEntered),
        after(start, inputs, i + 1).core.prev_state != after(start, inputs, i).core.prev_state,
    ensures
        after(start, inputs, j + 1).core.prev_state == after(start, inputs, j).core.prev_state,
{
    step_spends_slot(after(start, inputs, i), inputs[i as int]);
    slot_stays_spent(start, inputs, i + 1, j);
    step_spends_slot(after(start, inputs, j), inputs[j as int]);
}

/// No rule leaves `Shutdown`.
pub proof fn shutdown_is_terminal(n: Node, input: Input)
    requires
        n.core.state == State::Shutdown,
    ensures
        apply(n, input).core.state == State::Shutdown,
{
    reveal(apply);
}

/// A pre-vote changes nothing on the node that answers it and asks for
/// nothing to be saved; and nothing a pre-candidate does with the answers
/// touches its hard state.
pub proof fn pre_vote_is_pure(
    c: CoreView,
    tally: TallyView,
    req: VoteRequest,
    resp: VoteResponse,
    now: u64,
    armed: bool,
    persisted: bool,
)
    ensures
        req.pre_vote ==> c.vote(req, now, armed, persisted).0 == c && !c.vote_persists(req),
        c.pre_vote_started(now, armed).0.hard_state == c.hard_state,
        c.pre_vote_response(tally, resp, now, armed).0.hard_state == c.hard_state,
        c.round_timeout(now, armed).0.hard_state == c.hard_state,
{
}

/// The evaluator's three answers: granted exactly where the policy's
/// condition for it holds, rejected where only the condition against holds,
/// pending where neither does.
pub proof fn outcome_is_correct(
    policy: Quorum,
    members: Seq<Member>,
    granted: Seq<NodeId>,
    rejected: Seq<NodeId>,
)
    ensures
        outcome(policy, members, granted, rejected) is Granted <==> granted_by(
            policy,
            members,
            granted,
        ),
        outcome(policy, members, granted, rejected) is Rejected <==> !granted_by(
            policy,
            members,
            granted,
        ) && rejected_by(policy, members, rejected),
        outcome(policy, members, granted, rejected) is Pending <==> !granted_by(
            policy,
            members,
            granted,
        ) && !rejected_by(policy, members, rejected),
{
}

/// A vote request that is replayed right after it was answered gets the same
/// answer, whatever the clock reads the second time. Two replays are left
/// out: that of a request whose hard state could not be saved at first and
/// can be now, and that of a pre-vote to a node that has given up on its
/// leader in between, or has not yet at first.
pub proof fn replayed_vote_request_same_response(
    c: CoreView,
    req: VoteRequest,
    now: u64,
    later: u64,
    armed: bool,
    persisted: bool,
    persisted_later: bool,
)
    requires
        c.vote_persists(req) && !persisted ==> !persisted_later,
        req.pre_vote && c.refusal(req.candidate_id, req.term) is None ==> c.pre_vote_granted(
            later,
        ) == c.pre_vote_granted(now),
    ensures
        ({
            let (c1, armed1, r1) = c.vote(req, now, armed, persisted);
            c1.vote(req, later, armed1, persisted_later).2 == r1
        }),
{
}

/// A heartbeat that is replayed right after it was answered gets the same
/// answer, whatever the clock reads the second time. One replay is left
/// out: that of a heartbeat whose term could not be saved at first and can
/// be now.
pub proof fn replayed_heartbeat_same_response(
    c: CoreView,
    req: HeartbeatRequest,
    now: u64,
    later: u64,
    armed: bool,
    persisted: bool,
    persisted_later: bool,
)
    requires
        c.heartbeat_persists(req) && !persisted ==> !persisted_later,
    ensures
        ({
            let (c1, armed1, r1) = c.heartbeat(req, now, armed, persisted);
            c1.heartbeat(req, later, armed1, persisted_later).2 == r1
        }),
{
}

/// A policy that asks for more than half of what there is: `Major` always,
/// `Any(k)` and `AnyWeighted(w)` where `k` or `w` is more than half.
pub open spec fn exclusive(policy: Quorum, members: Seq<Member>) -> bool {
    match policy {
        Quorum::Major => true,
        Quorum::Any(k) => 2 * k > members.len(),
        Quorum::AnyWeighted(w) => 2 * w > total_weight(members),
    }
}

proof fn lemma_disjoint_voters(members: Seq<Member>, a: Seq<NodeId>, b: Seq<NodeId>, n: nat)
    requires
        n <= members.len(),
        forall|i: int|
            0 <= i < n ==> !(a.contains(#[trigger] members[i].id) && b.contains(members[i].id)),
    ensures
        weight_upto(members, a, n) + weight_upto(members, b, n) <= total_upto(members, n),
        count_upto(members, a, n) + count_upto(members, b, n) <= n,
    decreases n,
{
    if n > 0 {
        lemma_disjoint_voters(members, a, b, (n - 1) as nat);
        assert(!(a.contains(members[n - 1].id) && b.contains(members[n - 1].id)));
    }
}

/// Whether some member is in both sets of voters.
pub open spec fn share_a_member(members: Seq<Member>, a: Seq<NodeId>, b: Seq<NodeId>) -> bool {
    exists|i: int|
        0 <= i < members.len() && a.contains(#[trigger] members[i].id) && b.contains(
            members[i].id,
        )
}

/// A policy and a membership under which any two quorums share a member.
pub open spec fn intersecting(policy: Quorum, members: Seq<Member>) -> bool {
    forall|a: Seq<NodeId>, b: Seq<NodeId>|
        #[trigger] granted_by(policy, members, a) && #[trigger] granted_by(policy, members, b)
            ==> share_a_member(members, a, b)
}

/// Under an exclusive policy any two quorums share a member. `Major` is
/// always exclusive.
pub proof fn exclusive_policies_intersect(policy: Quorum, members: Seq<Member>)
    requires
        exclusive(policy, members),
    ensures
        intersecting(policy, members),
        exclusive(Quorum::Major, members),
{
    assert forall|a: Seq<NodeId>, b: Seq<NodeId>|
        #[trigger] granted_by(policy, members, a) && #[trigger] granted_by(
            policy,
            members,
            b,
        ) implies share_a_member(members, a, b) by {
        if !share_a_member(members, a, b) {
            lemma_disjoint_voters(members, a, b, members.len());
            assert(false);
        }
    }
}

/// The tally a rule leaves behind, where the rule counts votes.
pub open spec fn tally_after(n: Node, input: Input) -> TallyView {
    match input {
        Input::PreVoteStarted { now } => n.core.pre_vote_started(now, n.armed).1,
        Input::PreVoteResponse { tally, resp, now } => n.core.pre_vote_response(
            tally,
            resp,
            now,
            n.armed,
        ).1,
        Input::ElectionStarted { now, persisted } => n.core.election_started(
            now,
            n.armed,
            persisted,
        ).1,
        Input::VoteResponse { tally, resp, now, persisted } => n.core.vote_response(
            tally,
            resp,
            now,
            n.armed,
            persisted,
        ).1,
        _ => TallyView::empty(),
    }
}

/// A node becomes leader only as a candidate whose counted votes make a
/// quorum. (A bare `set_state` is the loops' own tool and stands outside.)
pub proof fn leader_needs_quorum(n: Node, input: Input)
    requires
        !(input is SetState),
        n.core.state != State::Leader,
        apply(n, input).core.state == State::Leader,
    ensures
        n.core.state == State::Candidate,
        input is ElectionStarted || input is VoteResponse,
        granted_by(
            apply(n, input).core.options.quorum_policy,
            apply(n, input).core.members,
            tally_after(n, input).granted,
        ),
        apply(n, input).core.current_leader == Some(n.core.node_id),
{
    reveal(apply);
}

/// No pre-vote is taken for a vote: the tally of a pre-candidate that
/// becomes candidate is empty.
pub proof fn no_pre_vote_is_carried_over(
    c: CoreView,
    tally: TallyView,
    resp: VoteResponse,
    now: u64,
    armed: bool,
)
    requires
        c.state == State::PreCandidate,
    ensures
        c.pre_vote_started(now, armed).0.state == State::Candidate ==> c.pre_vote_started(
            now,
            armed,
        ).1 == TallyView::empty(),
        c.pre_vote_response(tally, resp, now, armed).0.state == State::Candidate
            ==> c.pre_vote_response(tally, resp, now, armed).1 == TallyView::empty(),
{
}

/// What a candidate counts in favour is its own vote, cast when it opened
/// the election, or an answer that grants a real vote in the candidate's
/// term, or was in the tally before.
pub proof fn candidate_counts_votes_of_its_term(
    c: CoreView,
    tally: TallyView,
    resp: VoteResponse,
    now: u64,
    armed: bool,
    persisted: bool,
    v: NodeId,
)
    requires
        c.state == State::Candidate,
    ensures
        c.election_started(now, armed, persisted).1.granted.contains(v) ==> v == c.node_id
            && c.election_started(now, armed, persisted).0.hard_state.voted_for == Some(v),
        c.vote_response(tally, resp, now, armed, persisted).1.granted.contains(v)
            ==> tally.granted.contains(v) || (resp.from == v && resp.vote_granted
            && !resp.pre_vote && resp.term == c.term()),
{
    let started = TallyView::empty().record(c.node_id, true);
    assert(started.granted.len() == 1);
    assert(started.granted[0] == c.node_id);
    assert(!TallyView::empty().granted.contains(v));
    let counted = c.vote_response(tally, resp, now, armed, persisted).1;
    if counted.granted.contains(v) && !tally.granted.contains(v) {
        assert(counted == tally.record(resp.from, resp.vote_granted));
        let i = choose|i: int| 0 <= i < counted.granted.len() && counted.granted[i] == v;
        if i < tally.granted.len() {
            assert(tally.granted[i] == v);
        }
    }
}

/// A real vote that is granted is the vote on record: in the term of the
/// request, for its candidate.
pub proof fn granted_vote_is_cast(
    c: CoreView,
    req: VoteRequest,
    now: u64,
    armed: bool,
    persisted: bool,
)
    requires
        !req.pre_vote,
        c.vote(req, now, armed, persisted).2 matches Ok(resp) && resp.vote_granted,
    ensures
        c.vote(req, now, armed, persisted).0.hard_state == (HardState {
            current_term: req.term,
            voted_for: Some(req.candidate_id),
        }),
        c.vote(req, now, armed, persisted).2->Ok_0.term == req.term,
{
}

/// In one term at most one node can be leader, among nodes that share a
/// membership and a policy under which any two quorums share a member.
/// `cast` holds, for the term, the one candidate that each voter voted
/// for; `x` and `y` are nodes whose counted votes, `a` and `b`, each make a
/// quorum.
pub proof fn at_most_one_leader_per_term(
    policy: Quorum,
    members: Seq<Member>,
    cast: Map<NodeId, NodeId>,
    x: NodeId,
    a: Seq<NodeId>,
    y: NodeId,
    b: Seq<NodeId>,
)
    requires
        intersecting(policy, members),
        granted_by(policy, members, a),
        granted_by(policy, members, b),
        forall|v: NodeId| a.contains(v) ==> cast.contains_key(v) && cast[v] == x,
        forall|v: NodeId| b.contains(v) ==> cast.contains_key(v) && cast[v] == y,
    ensures
        x == y,
{
    assert(share_a_member(members, a, b));
    let i = choose|i: int|
        0 <= i < members.len() && a.contains(#[trigger] members[i].id) && b.contains(
            members[i].id,
        );
    assert(cast[members[i].id] == x);
    assert(cast[members[i].id] == y);
}

/// One rule was applied, or none.
pub open spec fn stepped(pre: Node, post: Node) -> bool {
    post == pre || exists|input: Input| !(input is LoopEntered) && #[trigger] apply(pre, input)
        == post
}

/// `end` is where a loop can be that was entered in the state `start`: a
/// run of rules leads there from `start`, with the slot armed at the outset
/// and never again.
pub open spec fn within_loop(start: CoreView, end: Node) -> bool {
    exists|inputs: Seq<Input>|
        (forall|k: int| 0 <= k < inputs.len() ==> !(#[trigger] inputs[k] is LoopEntered))
            && #[trigger] after(Node { core: start, armed: true }, inputs, inputs.len()) == end
}

/// `end` is where a node can be that was in `start`: a run of rules leads
/// there.
pub open spec fn reaches(start: Node, end: Node) -> bool {
    exists|inputs: Seq<Input>| #[trigger] after(start, inputs, inputs.len()) == end
}

proof fn lemma_after_prefix(start: Node, inputs: Seq<Input>, longer: Seq<Input>, n: nat)
    requires
        n <= inputs.len() <= longer.len(),
        forall|k: int| 0 <= k < inputs.len() ==> inputs[k] == longer[k],
    ensures
        after(start, inputs, n) == after(start, longer, n),
    decreases n,
{
    if n > 0 {
        lemma_after_prefix(start, inputs, longer, (n - 1) as nat);
    }
}

proof fn lemma_after_concat(start: Node, first: Seq<Input>, second: Seq<Input>, n: nat)
    requires
        n <= second.len(),
    ensures
        after(start, first + second, first.len() + n) == after(
            after(start, first, first.len()),
            second,
            n,
        ),
    decreases n,
{
    if n == 0 {
        lemma_after_prefix(start, first, first + second, first.len());
    } else {
        lemma_after_concat(start, first, second, (n - 1) as nat);
        assert((first + second)[first.len() + n - 1] == second[n - 1]);
    }
}

/// A loop that has done nothing yet is where it was entered.
pub proof fn loop_begins(start: CoreView)
    ensures
        within_loop(start, Node { core: start, armed: true }),
{
    let inputs = Seq::<Input>::empty();
    assert(after(Node { core: start, armed: true }, inputs, inputs.len()) == Node {
        core: start,
        armed: true,
    });
}

/// A loop that applies one more rule is still within the loop.
pub proof fn loop_goes_on(start: CoreView, mid: Node, end: Node)
    requires
        within_loop(start, mid),
        stepped(mid, end),
    ensures
        within_loop(start, end),
{
    if end != mid {
        let first = Node { core: start, armed: true };
        let inputs = choose|inputs: Seq<Input>|
            (forall|k: int| 0 <= k < inputs.len() ==> !(#[trigger] inputs[k] is LoopEntered))
                && #[trigger] after(first, inputs, inputs.len()) == mid;
        let input = choose|input: Input|
            !(input is LoopEntered) && #[trigger] apply(mid, input) == end;
        let longer = inputs.push(input);
        lemma_after_prefix(first, inputs, longer, inputs.len());
        assert(after(first, longer, longer.len()) == end);
    }
}

/// A node is where it is.
pub proof fn reaches_itself(start: Node)
    ensures
        reaches(start, start),
{
    let inputs = Seq::<Input>::empty();
    assert(after(start, inputs, inputs.len()) == start);
}

/// A node that was reached, and then ran a loop, was reached.
pub proof fn reaches_through_loop(start: Node, mid: Node, end: Node)
    requires
        reaches(start, mid),
        within_loop(mid.core, end),
    ensures
        reaches(start, end),
{
    let first = choose|inputs: Seq<Input>| #[trigger]
        after(start, inputs, inputs.len()) == mid;
    let second = choose|inputs: Seq<Input>|
        (forall|k: int| 0 <= k < inputs.len() ==> !(#[trigger] inputs[k] is LoopEntered))
            && #[trigger] after(Node { core: mid.core, armed: true }, inputs, inputs.len()) == end;
    let entered = first.push(Input::LoopEntered);
    lemma_after_prefix(start, first, entered, first.len());
    assert(apply(mid, Input::LoopEntered) == Node { core: mid.core, armed: true }) by {
        reveal(apply);
    }
    assert(after(start, entered, entered.len()) == Node { core: mid.core, armed: true });
    lemma_after_concat(start, entered, second, second.len());
    let all = entered + second;
    assert(after(start, all, all.len()) == end);
}

/// What holds at every point of a loop: the identity stays, the term has
/// not gone back, a vote cast in the term stands, and the previous role is
/// the one found at the outset for as long as the slot is armed.
pub proof fn loop_keeps(start: CoreView, end: Node)
    requires
        within_loop(start, end),
    ensures
        follows(start, end.core),
        end.armed ==> end.core.prev_state == start.prev_state,
        start.state == State::Shutdown ==> end.core.state == State::Shutdown,
{
    let first = Node { core: start, armed: true };
    let inputs = choose|inputs: Seq<Input>|
        (forall|k: int| 0 <= k < inputs.len() ==> !(#[trigger] inputs[k] is LoopEntered))
            && #[trigger] after(first, inputs, inputs.len()) == end;
    lemma_run_keeps(first, inputs, inputs.len());
    term_is_monotonic(first, inputs, 0, inputs.len());
    if end.core.term() == start.term() && start.hard_state.voted_for is Some {
        vote_is_unique_in_term(first, inputs, 0, inputs.len());
    }
}

proof fn lemma_run_keeps(start: Node, inputs: Seq<Input>, n: nat)
    requires
        n <= inputs.len(),
        forall|k: int| 0 <= k < inputs.len() ==> !(#[trigger] inputs[k] is LoopEntered),
    ensures
        after(start, inputs, n).core.node_id == start.core.node_id,
        after(start, inputs, n).armed ==> start.armed && after(start, inputs, n).core.prev_state
            == start.core.prev_state,
        start.core.state == State::Shutdown ==> after(start, inputs, n).core.state
            == State::Shutdown,
    decreases n,
{
    if n > 0 {
        let before = after(start, inputs, (n - 1) as nat);
        lemma_run_keeps(start, inputs, (n - 1) as nat);
        step_spends_slot(before, inputs[n - 1]);
        step_keeps_term_and_vote(before, inputs[n - 1]);
        if before.core.state == State::Shutdown {
            shutdown_is_terminal(before, inputs[n - 1]);
        }
    }
}

/// What holds of a node wherever a run of rules has taken it.
pub proof fn run_keeps(start: Node, end: Node)
    requires
        reaches(start, end),
    ensures
        follows(start.core, end.core),
        start.core.state == State::Shutdown ==> end.core.state == State::Shutdown,
{
    let inputs = choose|inputs: Seq<Input>| #[trigger]
        after(start, inputs, inputs.len()) == end;
    term_is_monotonic(start, inputs, 0, inputs.len());
    if end.core.term() == start.core.term() && start.core.hard_state.voted_for is Some {
        vote_is_unique_in_term(start, inputs, 0, inputs.len());
    }
    lemma_run_stays(start, inputs, inputs.len());
}

proof fn lemma_run_stays(start: Node, inputs: Seq<Input>, n: nat)
    requires
        n <= inputs.len(),
    ensures
        after(start, inputs, n).core.node_id == start.core.node_id,
        start.core.state == State::Shutdown ==> after(start, inputs, n).core.state
            == State::Shutdown,
    decreases n,
{
    if n > 0 {
        let before = after(start, inputs, (n - 1) as nat);
        lemma_run_stays(start, inputs, (n - 1) as nat);
        step_keeps_term_and_vote(before, inputs[n - 1]);
        if before.core.state == State::Shutdown {
            shutdown_is_terminal(before, inputs[n - 1]);
        }
    }
}

/// The node in the state `core`, with the slot armed or not.
pub open spec fn node(core: CoreView, armed: bool) -> Node {
    Node { core, armed }
}

/// Forgetting the election deadline is a rule.
pub proof fn cleared_is_step(pre: CoreView, armed: bool)
    ensures
        stepped(node(pre, armed), node(CoreView { next_election_timeout: None, ..pre }, armed)),
{
    assert(apply(node(pre, armed), Input::ClearDeadline) == node(
        CoreView { next_election_timeout: None, ..pre },
        armed,
    )) by {
        reveal(apply);
    }
}

/// Drawing the election deadline is a rule.
pub proof fn drawn_is_step(pre: CoreView, post: CoreView, armed: bool)
    requires
        exists|now: u64| post == #[trigger] pre.with_deadline(now),
    ensures
        stepped(node(pre, armed), node(post, armed)),
{
    let now = choose|now: u64| post == #[trigger] pre.with_deadline(now);
    assert(apply(node(pre, armed), Input::DrawDeadline { now }) == node(post, armed)) by {
        reveal(apply);
    }
}

/// Taking new options is a rule.
pub proof fn options_is_step(pre: CoreView, options: Options, armed: bool)
    ensures
        stepped(node(pre, armed), node(pre.update_options(options).0, armed)),
{
    assert(apply(node(pre, armed), Input::UpdateOptions { options }) == node(
        pre.update_options(options).0,
        armed,
    )) by {
        reveal(apply);
    }
}

/// A loop entered in `start` can have left the node in `end`.
pub open spec fn loop_runs_to(start: CoreView, end: CoreView) -> bool {
    exists|armed: bool| within_loop(start, #[trigger] node(end, armed))
}

/// A node that was in `start` can be in `end`.
pub open spec fn runs_to(start: CoreView, end: CoreView) -> bool {
    exists|before: bool, armed: bool| #[trigger] reaches(node(start, before), node(end, armed))
}

/// A node that has done nothing is where it was.
pub proof fn runs_to_itself(start: CoreView)
    ensures
        runs_to(start, start),
{
    reaches_itself(node(start, true));
}

/// Loop after loop, a node runs on.
pub proof fn runs_on(start: CoreView, mid: CoreView, end: CoreView)
    requires
        runs_to(start, mid),
        loop_runs_to(mid, end),
    ensures
        runs_to(start, end),
{
    let (before, armed) = choose|before: bool, armed: bool| #[trigger]
        reaches(node(start, before), node(mid, armed));
    let spent = choose|spent: bool| within_loop(mid, #[trigger] node(end, spent));
    reaches_through_loop(node(start, before), node(mid, armed), node(end, spent));
}

/// Wherever a node runs to, its identity stays, its term has not gone
/// back, a vote cast in the term stands, and `Shutdown` is not left.
pub proof fn runs_keep(start: CoreView, end: CoreView)
    requires
        runs_to(start, end),
    ensures
        follows(start, end),
        start.state == State::Shutdown ==> end.state == State::Shutdown,
{
    let (before, armed) = choose|before: bool, armed: bool| #[trigger]
        reaches(node(start, before), node(end, armed));
    run_keeps(node(start, before), node(end, armed));
}

} // verus!
