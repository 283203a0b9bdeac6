//! The members of a group, as a list without repetition.

use crate::model::{
    all_in_group, distinct, distinct_ids, distinct_upto, has_id, first_at, lemma_distinct_upto,
    peers_upto, weight_in,
};
use crate::node::{Member, NodeId};
use vstd::prelude::*;

verus! {

/// Whether `id` is the identity of one of `members`.
pub fn is_member(members: &Vec<Member>, id: &NodeId) -> (r: bool)
    ensures
        r == has_id(members@, *id),
{
    let mut i: usize = 0;
    while i < members.len()
        invariant
            i <= members.len(),
            forall|j: int| 0 <= j < i ==> members@[j].id != *id,
        decreases members.len() - i,
    {
        if members[i].id == *id {
            return true;
        }
        i = i + 1;
    }
    false
}

/// The weight of the member `id`, if there is one.
pub fn weight_of(members: &Vec<Member>, id: &NodeId) -> (r: Option<u64>)
    ensures
        r == weight_in(members@, *id),
{
    let mut i: usize = 0;
    while i < members.len()
        invariant
            i <= members.len(),
            forall|j: int| 0 <= j < i ==> members@[j].id != *id,
        decreases members.len() - i,
    {
        if members[i].id == *id {
            proof {
                assert(first_at(members@, *id, i as int));
                let k = choose|k: int| first_at(members@, *id, k);
                assert(k == i);
            }
            return Some(members[i].weight);
        }
        i = i + 1;
    }
    proof {
        assert forall|k: int| !first_at(members@, *id, k) by {}
    }
    None
}

/// Whether every one of `members` belongs to the group `group_id`.
pub fn same_group(members: &Vec<Member>, group_id: u64) -> (r: bool)
    ensures
        r == all_in_group(members@, group_id),
{
    let mut i: usize = 0;
    while i < members.len()
        invariant
            i <= members.len(),
            forall|j: int| 0 <= j < i ==> (#[trigger] members@[j]).id.group_id == group_id,
        decreases members.len() - i,
    {
        if members[i].id.group_id != group_id {
            return false;
        }
        i = i + 1;
    }
    true
}

/// `members` with each identity kept once, at its first occurrence.
pub fn without_repetition(members: &Vec<Member>) -> (out: Vec<Member>)
    ensures
        out@ == distinct(members@),
        distinct_ids(out@),
{
    let mut out: Vec<Member> = Vec::new();
    let mut i: usize = 0;
    while i < members.len()
        invariant
            i <= members.len(),
            out@ == distinct_upto(members@, i as nat),
        decreases members.len() - i,
    {
        if !is_member(&out, &members[i].id) {
            out.push(members[i]);
        }
        i = i + 1;
    }
    proof {
        lemma_distinct_upto(members@, members@.len());
    }
    out
}

/// The identities of the members other than `me`, in order.
pub fn others(members: &Vec<Member>, me: &NodeId) -> (out: Vec<NodeId>)
    ensures
        out@ == peers_upto(members@, *me, members@.len()),
{
    let mut out: Vec<NodeId> = Vec::new();
    let mut i: usize = 0;
    while i < members.len()
        invariant
            i <= members.len(),
            out@ == peers_upto(members@, *me, i as nat),
        decreases members.len() - i,
    {
        if members[i].id != *me {
            out.push(members[i].id);
        }
        i = i + 1;
    }
    out
}

/// A copy of `members`.
pub fn copy_of(members: &Vec<Member>) -> (out: Vec<Member>)
    ensures
        out@ == members@,
{
    let mut out: Vec<Member> = Vec::new();
    let mut i: usize = 0;
    while i < members.len()
        invariant
            i <= members.len(),
            out@ == members@.take(i as int),
        decreases members.len() - i,
    {
        out.push(members[i]);
        assert(members@.take(i + 1) == members@.take(i as int).push(members@[i as int]));
        i = i + 1;
    }
    assert(members@.take(members@.len() as int) == members@);
    out
}

} // verus!
