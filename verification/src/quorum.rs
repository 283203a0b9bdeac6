//! The quorum evaluator: from the votes seen so far to granted, rejected or
//! still pending, under the policy in force.

use crate::node::{Member, NodeId};
use vstd::prelude::*;

verus! {

/// When a set of voters is enough to decide.
#[derive(Clone, Copy, Debug, PartialEq, Eq, Structural)]
pub enum Quorum {
    /// A strict majority of the members' total weight.
    Major,
    /// At least this many distinct voters, whatever their weight.
    Any(u64),
    /// Voters whose weights add up to at least this much.
    AnyWeighted(u64),
}

#[derive(Clone, Copy, Debug, PartialEq, Eq, Structural)]
pub enum QuorumOutcome {
    Granted,
    Rejected,
    Pending,
}

/// The weight of those among the first `n` members that are in `voters`.
pub open spec fn weight_upto(members: Seq<Member>, voters: Seq<NodeId>, n: nat) -> nat
    decreases n,
{
    if n == 0 {
        0
    } else {
        weight_upto(members, voters, (n - 1) as nat) + if voters.contains(members[n - 1].id) {
            members[n - 1].weight as nat
        } else {
            0
        }
    }
}

/// How many of the first `n` members are in `voters`.
pub open spec fn count_upto(members: Seq<Member>, voters: Seq<NodeId>, n: nat) -> nat
    decreases n,
{
    if n == 0 {
        0
    } else {
        count_upto(members, voters, (n - 1) as nat) + if voters.contains(members[n - 1].id) {
            1nat
        } else {
            0
        }
    }
}

/// The weight of the first `n` members.
pub open spec fn total_upto(members: Seq<Member>, n: nat) -> nat
    decreases n,
{
    if n == 0 {
        0
    } else {
        total_upto(members, (n - 1) as nat) + members[n - 1].weight as nat
    }
}

/// The weight of the members that are in `voters`. Voters that are no members
/// carry no weight.
pub open spec fn voters_weight(members: Seq<Member>, voters: Seq<NodeId>) -> nat {
    weight_upto(members, voters, members.len())
}

/// The number of members that are in `voters`.
pub open spec fn voters_count(members: Seq<Member>, voters: Seq<NodeId>) -> nat {
    count_upto(members, voters, members.len())
}

pub open spec fn total_weight(members: Seq<Member>) -> nat {
    total_upto(members, members.len())
}

/// The policy's condition for a decision in favour.
pub open spec fn granted_by(policy: Quorum, members: Seq<Member>, granted: Seq<NodeId>) -> bool {
    match policy {
        Quorum::Major => voters_weight(members, granted) * 2 > total_weight(members),
        Quorum::Any(k) => voters_count(members, granted) >= k,
        Quorum::AnyWeighted(w) => voters_weight(members, granted) >= w,
    }
}

/// The policy's condition for a decision against: those that have not
/// rejected can no longer reach the quorum.
pub open spec fn rejected_by(policy: Quorum, members: Seq<Member>, rejected: Seq<NodeId>) -> bool {
    match policy {
        Quorum::Major => (total_weight(members) - voters_weight(members, rejected)) * 2
            <= total_weight(members),
        Quorum::Any(k) => members.len() - voters_count(members, rejected) < k,
        Quorum::AnyWeighted(w) => total_weight(members) - voters_weight(members, rejected) < w,
    }
}

/// The outcome of an evaluation. Where both conditions hold, granted wins.
pub open spec fn outcome(
    policy: Quorum,
    members: Seq<Member>,
    granted: Seq<NodeId>,
    rejected: Seq<NodeId>,
) -> QuorumOutcome {
    if granted_by(policy, members, granted) {
        QuorumOutcome::Granted
    } else if rejected_by(policy, members, rejected) {
        QuorumOutcome::Rejected
    } else {
        QuorumOutcome::Pending
    }
}

pub proof fn lemma_upto_bounds(members: Seq<Member>, voters: Seq<NodeId>, n: nat)
    requires
        n <= members.len(),
    ensures
        weight_upto(members, voters, n) <= total_upto(members, n),
        count_upto(members, voters, n) <= n,
        total_upto(members, n) <= n * u64::MAX,
    decreases n,
{
    if n > 0 {
        lemma_upto_bounds(members, voters, (n - 1) as nat);
        assert(n * u64::MAX == (n - 1) * u64::MAX + u64::MAX) by (nonlinear_arith);
    }
}

/// Whether `id` occurs in `voters`.
pub fn contains_id(voters: &Vec<NodeId>, id: &NodeId) -> (r: bool)
    ensures
        r == voters@.contains(*id),
{
    let mut i: usize = 0;
    while i < voters.len()
        invariant
            i <= voters.len(),
            forall|j: int| 0 <= j < i ==> voters@[j] != *id,
        decreases voters.len() - i,
    {
        if voters[i] == *id {
            return true;
        }
        i = i + 1;
    }
    false
}

/// Evaluates the votes seen so far under `policy`.
pub fn evaluate(
    policy: &Quorum,
    members: &Vec<Member>,
    granted: &Vec<NodeId>,
    rejected: &Vec<NodeId>,
) -> (r: QuorumOutcome)
    ensures
        r == outcome(*policy, members@, granted@, rejected@),
        r is Granted <==> granted_by(*policy, members@, granted@),
        r is Pending <==> !granted_by(*policy, members@, granted@) && !rejected_by(
            *policy,
            members@,
            rejected@,
        ),
{
    let mut total: u128 = 0;
    let mut granted_weight: u128 = 0;
    let mut rejected_weight: u128 = 0;
    let mut granted_count: usize = 0;
    let mut rejected_count: usize = 0;
    let mut i: usize = 0;
    while i < members.len()
        invariant
            i <= members.len(),
            total == total_upto(members@, i as nat),
            granted_weight == weight_upto(members@, granted@, i as nat),
            rejected_weight == weight_upto(members@, rejected@, i as nat),
            granted_count == count_upto(members@, granted@, i as nat),
            rejected_count == count_upto(members@, rejected@, i as nat),
        decreases members.len() - i,
    {
        proof {
            lemma_upto_bounds(members@, granted@, (i + 1) as nat);
            lemma_upto_bounds(members@, rejected@, (i + 1) as nat);
            assert((i + 1) * u64::MAX <= u128::MAX) by (nonlinear_arith)
                requires
                    i + 1 <= u64::MAX,
            ;
        }
        let m = &members[i];
        total = total + (m.weight as u128);
        if contains_id(granted, &m.id) {
            granted_weight = granted_weight + (m.weight as u128);
            granted_count = granted_count + 1;
        }
        if contains_id(rejected, &m.id) {
            rejected_weight = rejected_weight + (m.weight as u128);
            rejected_count = rejected_count + 1;
        }
        i = i + 1;
    }
    proof {
        lemma_upto_bounds(members@, granted@, members@.len());
        lemma_upto_bounds(members@, rejected@, members@.len());
    }
    let is_granted = match policy {
        Quorum::Major => granted_weight > total - granted_weight,
        Quorum::Any(k) => granted_count as u64 >= *k,
        Quorum::AnyWeighted(w) => granted_weight >= *w as u128,
    };
    if is_granted {
        return QuorumOutcome::Granted;
    }
    let is_rejected = match policy {
        Quorum::Major => total - rejected_weight <= rejected_weight,
        Quorum::Any(k) => ((members.len() - rejected_count) as u64) < *k,
        Quorum::AnyWeighted(w) => total - rejected_weight < *w as u128,
    };
    if is_rejected {
        QuorumOutcome::Rejected
    } else {
        QuorumOutcome::Pending
    }
}

/// The answers a candidate has collected in one round, as the contracts see them.
pub struct TallyView {
    pub granted: Seq<NodeId>,
    pub rejected: Seq<NodeId>,
}

impl TallyView {
    pub open spec fn empty() -> TallyView {
        TallyView { granted: Seq::empty(), rejected: Seq::empty() }
    }

    pub open spec fn answered(self, from: NodeId) -> bool {
        self.granted.contains(from) || self.rejected.contains(from)
    }

    /// The tally with one more answer. A voter's first answer stands.
    pub open spec fn record(self, from: NodeId, granted: bool) -> TallyView {
        if self.answered(from) {
            self
        } else if granted {
            TallyView { granted: self.granted.push(from), ..self }
        } else {
            TallyView { rejected: self.rejected.push(from), ..self }
        }
    }

    pub open spec fn outcome(self, policy: Quorum, members: Seq<Member>) -> QuorumOutcome {
        outcome(policy, members, self.granted, self.rejected)
    }

    /// Nobody is counted on both sides.
    pub open spec fn consistent(self) -> bool {
        forall|id: NodeId| !(self.granted.contains(id) && self.rejected.contains(id))
    }
}

/// The answers a candidate has collected in one round.
#[derive(Debug)]
pub struct Tally {
    granted: Vec<NodeId>,
    rejected: Vec<NodeId>,
}

impl View for Tally {
    type V = TallyView;

    closed spec fn view(&self) -> TallyView {
        TallyView { granted: self.granted@, rejected: self.rejected@ }
    }
}

impl Tally {
    pub fn new() -> (t: Tally)
        ensures
            t@ == TallyView::empty(),
    {
        Tally { granted: Vec::new(), rejected: Vec::new() }
    }

    pub fn granted(&self) -> (r: &Vec<NodeId>)
        ensures
            r@ == self@.granted,
    {
        &self.granted
    }

    pub fn rejected(&self) -> (r: &Vec<NodeId>)
        ensures
            r@ == self@.rejected,
    {
        &self.rejected
    }

    /// Records the answer of `from`, unless it has answered before.
    pub fn record(&mut self, from: NodeId, granted: bool)
        ensures
            final(self)@ == old(self)@.record(from, granted),
    {
        if contains_id(&self.granted, &from) || contains_id(&self.rejected, &from) {
            return ;
        }
        if granted {
            self.granted.push(from);
        } else {
            self.rejected.push(from);
        }
    }

    pub fn evaluate(&self, policy: &Quorum, members: &Vec<Member>) -> (r: QuorumOutcome)
        ensures
            r == self@.outcome(*policy, members@),
    {
        evaluate(policy, members, &self.granted, &self.rejected)
    }
}

/// No voter is ever counted on both sides: recording an answer keeps a
/// tally consistent, and the empty tally is.
pub proof fn recording_keeps_sides_apart(t: TallyView, from: NodeId, granted: bool)
    requires
        t.consistent(),
    ensures
        t.record(from, granted).consistent(),
        TallyView::empty().consistent(),
{
    let r = t.record(from, granted);
    assert forall|id: NodeId| !(r.granted.contains(id) && r.rejected.contains(id)) by {
        if r.granted.contains(id) && r.rejected.contains(id) {
            if !t.answered(from) {
                if granted {
                    let i = choose|i: int| 0 <= i < r.granted.len() && r.granted[i] == id;
                    if i < t.granted.len() {
                        assert(t.granted[i] == id);
                    }
                } else {
                    let i = choose|i: int| 0 <= i < r.rejected.len() && r.rejected[i] == id;
                    if i < t.rejected.len() {
                        assert(t.rejected[i] == id);
                    }
                }
            }
        }
    }
}

} // verus!
