use tender::node::{Member, NodeId};
use tender::quorum::{evaluate, QuorumOutcome, Tally};
use tender::{Quorum, State};

fn id(n: u64) -> NodeId {
    NodeId::new(1000, n)
}

fn weighted() -> Vec<Member> {
    vec![
        Member { id: id(1001), weight: 1 },
        Member { id: id(1002), weight: 1 },
        Member { id: id(1003), weight: 0 },
    ]
}

#[test]
fn major_needs_more_than_half_of_the_weight() {
    let members = weighted();
    assert_eq!(evaluate(&Quorum::Major, &members, &vec![id(1001)], &vec![]), QuorumOutcome::Pending);
    assert_eq!(
        evaluate(&Quorum::Major, &members, &vec![id(1001), id(1002)], &vec![]),
        QuorumOutcome::Granted
    );
    assert_eq!(
        evaluate(&Quorum::Major, &members, &vec![id(1002), id(1003)], &vec![]),
        QuorumOutcome::Pending
    );
}

#[test]
fn major_is_rejected_once_half_the_weight_is_lost() {
    let members = weighted();
    assert_eq!(
        evaluate(&Quorum::Major, &members, &vec![id(1001)], &vec![id(1002)]),
        QuorumOutcome::Rejected
    );
    assert_eq!(
        evaluate(&Quorum::Major, &members, &vec![id(1001)], &vec![id(1003)]),
        QuorumOutcome::Pending
    );
}

#[test]
fn any_counts_voters_whatever_their_weight() {
    let members = weighted();
    assert_eq!(
        evaluate(&Quorum::Any(3), &members, &vec![id(1002), id(1003)], &vec![]),
        QuorumOutcome::Pending
    );
    assert_eq!(
        evaluate(&Quorum::Any(3), &members, &vec![id(1001), id(1002), id(1003)], &vec![]),
        QuorumOutcome::Granted
    );
    assert_eq!(
        evaluate(&Quorum::Any(3), &members, &vec![id(1002)], &vec![id(1001)]),
        QuorumOutcome::Rejected
    );
    assert_eq!(
        evaluate(&Quorum::Any(2), &members, &vec![id(1002), id(1003)], &vec![]),
        QuorumOutcome::Granted
    );
}

#[test]
fn any_weighted_adds_up_the_granted_weights() {
    let members = vec![
        Member { id: id(1), weight: 5 },
        Member { id: id(2), weight: 3 },
        Member { id: id(3), weight: 2 },
    ];
    assert_eq!(
        evaluate(&Quorum::AnyWeighted(7), &members, &vec![id(1)], &vec![]),
        QuorumOutcome::Pending
    );
    assert_eq!(
        evaluate(&Quorum::AnyWeighted(7), &members, &vec![id(1), id(3)], &vec![]),
        QuorumOutcome::Granted
    );
    assert_eq!(
        evaluate(&Quorum::AnyWeighted(7), &members, &vec![id(3)], &vec![id(1)]),
        QuorumOutcome::Rejected
    );
}

#[test]
fn granted_wins_where_both_conditions_hold() {
    let members = weighted();
    assert_eq!(
        evaluate(&Quorum::Major, &members, &vec![id(1001), id(1002)], &vec![id(1001), id(1002)]),
        QuorumOutcome::Granted
    );
}

#[test]
fn voters_outside_the_membership_carry_nothing() {
    let members = weighted();
    assert_eq!(
        evaluate(&Quorum::Any(2), &members, &vec![id(1001), id(7), NodeId::new(9, 1002)], &vec![]),
        QuorumOutcome::Pending
    );
}

#[test]
fn an_empty_group_under_major_is_rejected() {
    assert_eq!(evaluate(&Quorum::Major, &vec![], &vec![], &vec![]), QuorumOutcome::Rejected);
    assert_eq!(evaluate(&Quorum::Any(0), &vec![], &vec![], &vec![]), QuorumOutcome::Granted);
}

#[test]
fn tally_keeps_the_first_answer_of_a_voter() {
    let mut tally = Tally::new();
    tally.record(id(1001), true);
    tally.record(id(1001), false);
    tally.record(id(1002), false);
    tally.record(id(1002), true);
    assert_eq!(tally.granted(), &vec![id(1001)]);
    assert_eq!(tally.rejected(), &vec![id(1002)]);
    assert_eq!(tally.evaluate(&Quorum::Major, &weighted()), QuorumOutcome::Rejected);
}

#[test]
fn node_ids_are_ordered_by_group_then_number() {
    assert_ne!(State::Startup, State::Shutdown);
    assert_eq!(Quorum::Any(3), Quorum::Any(3));
    assert!(NodeId::new(1, 9).precedes(&NodeId::new(2, 0)));
    assert!(NodeId::new(1, 1).precedes(&NodeId::new(1, 2)));
    assert!(!NodeId::new(1, 2).precedes(&NodeId::new(1, 2)));
    assert!(NodeId::new(1, 9) < NodeId::new(2, 0));
    assert!(NodeId::new(1, 1) < NodeId::new(1, 2));
    assert!(NodeId::new(1, 1).is_peer_of(&NodeId::new(1, 2)));
    assert!(!NodeId::new(1, 1).is_peer_of(&NodeId::new(2, 1)));
}
