use tender::error::Error;
use tender::msg::{HeartbeatRequest, HeartbeatResponse, VoteRequest, VoteResponse};
use tender::node::{HardState, Member, NodeId, State};
use tender::options::Options;
use tender::quorum::{Quorum, QuorumOutcome, Tally};
use tender::state::{CoreState, PrevStateSlot};

fn id(n: u64) -> NodeId {
    NodeId::new(1000, n)
}

fn weighted() -> Vec<Member> {
    vec![
        Member { id: id(1001), weight: 1 },
        Member { id: id(1002), weight: 1 },
        Member { id: id(1003), weight: 0 },
    ]
}

fn startup(n: u64) -> CoreState {
    CoreState::new(id(n), Options::default()).unwrap()
}

fn follower(n: u64) -> CoreState {
    let mut node = startup(n);
    let mut slot = PrevStateSlot::new();
    node.initialize(&weighted(), false, None, true, &mut slot).unwrap();
    node
}

fn heartbeat(term: u64, leader: u64) -> HeartbeatRequest {
    HeartbeatRequest { term, leader_id: id(leader) }
}

fn vote(term: u64, candidate: u64) -> VoteRequest {
    VoteRequest { term, candidate_id: id(candidate), pre_vote: false, vote_factor_hint: None }
}

fn pre_vote(term: u64, candidate: u64) -> VoteRequest {
    VoteRequest { term, candidate_id: id(candidate), pre_vote: true, vote_factor_hint: None }
}

fn answer(from: u64, term: u64, granted: bool, pre_vote: bool) -> VoteResponse {
    VoteResponse { from: id(from), term, vote_granted: granted, pre_vote }
}

#[test]
fn a_new_node_is_passive() {
    let node = startup(1001);
    assert_eq!(node.node_id(), id(1001));
    assert_eq!(node.state(), State::Startup);
    assert!(node.is_state(State::Startup));
    assert_eq!(node.current_term(), 0);
    assert_eq!(node.voted_for(), None);
    assert_eq!(node.hard_state(), HardState { current_term: 0, voted_for: None });
    assert_eq!(node.current_leader(), None);
    assert_eq!(node.prev_state(), None);
    assert_eq!(node.election_deadline(), None);
    assert!(node.members().is_empty());
    assert_eq!(node.options(), Options::default());
}

#[test]
fn a_window_of_one_value_is_rejected() {
    let fixed = Options { election_timeout_min: 100, election_timeout_max: 100, ..Options::default() };
    let inverted = Options { election_timeout_min: 200, election_timeout_max: 100, ..Options::default() };
    assert!(!fixed.is_valid());
    assert_eq!(fixed.validate(), Err(Error::InvalidOptions));
    assert_eq!(inverted.validate(), Err(Error::InvalidOptions));
    assert_eq!(Options::default().validate(), Ok(()));
    assert_eq!(CoreState::new(id(1), fixed).err(), Some(Error::InvalidOptions));
    let mut node = startup(1001);
    assert_eq!(node.update_options(inverted), Err(Error::InvalidOptions));
    assert_eq!(node.options(), Options::default());
}

#[test]
fn update_options_replaces_the_tunables() {
    let mut node = follower(1001);
    let options = Options {
        election_timeout_min: 10,
        election_timeout_max: 20,
        heartbeat_interval: 5,
        leader_lease: 0,
        quorum_policy: Quorum::Any(3),
    };
    assert_eq!(node.update_options(options), Ok(()));
    assert_eq!(node.options(), options);
    let deadline = node.next_election_timeout(0);
    assert!((10..=20).contains(&deadline));
}

#[test]
fn startup_refuses_heartbeats_and_votes() {
    let mut node = startup(1001);
    let mut slot = PrevStateSlot::new();
    assert_eq!(node.handle_heartbeat(&heartbeat(1, 1002), 0, &mut slot, true), Err(Error::NotInitialized));
    assert_eq!(node.handle_vote_request(&vote(1, 1002), 0, &mut slot, true), Err(Error::NotInitialized));
    assert_eq!(node.handle_vote_request(&pre_vote(1, 1002), 0, &mut slot, true), Err(Error::NotInitialized));
    assert_eq!(node.state(), State::Startup);
    assert_eq!(node.current_term(), 0);
    assert!(slot.is_armed());
}

#[test]
fn initialize_records_each_member_once_and_makes_a_follower() {
    let mut node = startup(1001);
    let mut slot = PrevStateSlot::new();
    let members = vec![
        Member { id: id(1001), weight: 1 },
        Member { id: id(1002), weight: 1 },
        Member { id: id(1001), weight: 9 },
        Member { id: id(1003), weight: 0 },
        Member { id: id(1002), weight: 7 },
    ];
    assert_eq!(node.initialize(&members, false, None, true, &mut slot), Ok(()));
    assert_eq!(node.members(), &weighted());
    assert_eq!(node.state(), State::Follower);
    assert_eq!(node.prev_state(), Some(State::Startup));
    assert!(!slot.is_armed());
    assert_eq!(node.current_term(), 0);
    assert_eq!(node.own_weight(), Some(1));
    assert_eq!(node.peers(), vec![id(1002), id(1003)]);
}

#[test]
fn initialize_refuses_members_of_another_group() {
    let mut node = startup(1001);
    let mut slot = PrevStateSlot::new();
    let members = vec![Member { id: id(1001), weight: 1 }, Member { id: NodeId::new(2000, 1002), weight: 1 }];
    assert_eq!(node.initialize(&members, false, None, true, &mut slot), Err(Error::WrongGroup));
    assert_eq!(node.state(), State::Startup);
    assert!(node.members().is_empty());
    assert!(slot.is_armed());
}

#[test]
fn initialize_resumes_from_the_stored_hard_state() {
    let mut node = startup(1003);
    let mut slot = PrevStateSlot::new();
    let stored = HardState { current_term: 7, voted_for: Some(id(1002)) };
    assert_eq!(node.initialize(&weighted(), false, Some(stored), false, &mut slot), Ok(()));
    assert_eq!(node.hard_state(), stored);
    assert_eq!(node.state(), State::Follower);
    // the vote of term 7 stands
    let r = node.handle_vote_request(&vote(7, 1001), 0, &mut slot, true);
    assert_eq!(r, Ok(answer(1003, 7, false, false)));
}

#[test]
fn initialize_fails_where_nothing_is_stored_and_nothing_can_be_saved() {
    let mut node = startup(1001);
    let mut slot = PrevStateSlot::new();
    assert_eq!(node.initialize(&weighted(), true, None, false, &mut slot), Err(Error::Storage));
    assert_eq!(node.state(), State::Startup);
    assert!(node.members().is_empty());
}

#[test]
fn a_second_initialize_gets_the_members_back() {
    let mut node = follower(1001);
    let mut slot = PrevStateSlot::new();
    let other = vec![Member { id: id(5), weight: 1 }];
    assert_eq!(
        node.initialize(&other, true, None, true, &mut slot),
        Err(Error::AlreadyInitialized { members: weighted() })
    );
    assert_eq!(node.init_rejection(), Error::AlreadyInitialized { members: weighted() });
    assert_eq!(node.members(), &weighted());
    assert!(slot.is_armed());
}

#[test]
fn the_election_deadline_is_drawn_once_from_the_window() {
    let mut node = follower(1001);
    assert_eq!(node.election_deadline(), None);
    assert_eq!(node.next_election_timeout(1000), 1262);
    assert_eq!(node.election_deadline(), Some(1262));
    // it stays until it is cleared
    assert_eq!(node.next_election_timeout(5000), 1262);
    node.clear_election_timeout();
    assert_eq!(node.election_deadline(), None);
    assert_eq!(node.next_election_timeout(2000), 2247);
    let mut second = follower(1002);
    assert_eq!(second.next_election_timeout(1000), 1215);
    let mut third = follower(1003);
    assert_eq!(third.next_election_timeout(1000), 1159);
}

#[test]
fn every_deadline_lies_in_the_window() {
    let mut node = follower(1002);
    let mut now = 0u64;
    for _ in 0..500 {
        node.reset_election_timeout(now);
        let deadline = node.election_deadline().unwrap();
        assert!(deadline >= now + 150 && deadline <= now + 300);
        now = deadline;
    }
}

#[test]
fn a_deadline_past_the_end_of_time_saturates() {
    let mut node = follower(1001);
    assert_eq!(node.next_election_timeout(u64::MAX - 10), u64::MAX);
}

#[test]
fn a_preferred_candidate_waits_half_the_shortest_timeout_once() {
    let mut node = startup(1001);
    let mut slot = PrevStateSlot::new();
    node.initialize(&weighted(), true, None, true, &mut slot).unwrap();
    assert_eq!(node.next_election_timeout(1000), 1075);
    node.clear_election_timeout();
    let next = node.next_election_timeout(2000);
    assert!(next >= 2150 && next <= 2300);
}

#[test]
fn a_heartbeat_makes_a_follower_of_the_leader() {
    let mut node = follower(1002);
    let mut slot = PrevStateSlot::new();
    assert_eq!(node.heartbeat_hard_state(&heartbeat(3, 1001)), Some(HardState { current_term: 3, voted_for: None }));
    let r = node.handle_heartbeat(&heartbeat(3, 1001), 1000, &mut slot, true);
    assert_eq!(r, Ok(HeartbeatResponse { from: id(1002), term: 3, success: true }));
    assert_eq!(node.current_term(), 3);
    assert_eq!(node.current_leader(), Some(id(1001)));
    assert_eq!(node.state(), State::Follower);
    assert_eq!(node.election_deadline(), Some(1215));
    assert!(slot.is_armed());
    // the same term again needs no write to disk
    assert_eq!(node.heartbeat_hard_state(&heartbeat(3, 1001)), None);
}

#[test]
fn a_stale_heartbeat_is_rejected_and_changes_nothing() {
    let mut node = follower(1002);
    let mut slot = PrevStateSlot::new();
    node.handle_heartbeat(&heartbeat(5, 1001), 1000, &mut slot, true).unwrap();
    let deadline = node.election_deadline();
    assert_eq!((node.state(), node.current_term(), node.current_leader()), (State::Follower, 5, Some(id(1001))));
    let r = node.handle_heartbeat(&heartbeat(4, 1003), 2000, &mut slot, true);
    assert_eq!(r, Err(Error::StaleTerm { current_term: 5 }));
    assert_eq!(node.current_leader(), Some(id(1001)));
    assert_eq!(node.election_deadline(), deadline);
    assert_eq!(node.current_term(), 5);
    assert_eq!(node.state(), State::Follower);
}

#[test]
fn a_replayed_heartbeat_gets_the_same_answer() {
    let mut node = follower(1002);
    let mut slot = PrevStateSlot::new();
    let first = node.handle_heartbeat(&heartbeat(2, 1001), 1000, &mut slot, true);
    let second = node.handle_heartbeat(&heartbeat(2, 1001), 1100, &mut slot, false);
    assert_eq!(first, Ok(HeartbeatResponse { from: id(1002), term: 2, success: true }));
    assert_eq!(second, first);
}

#[test]
fn a_heartbeat_from_another_group_is_turned_away() {
    let mut node = follower(1002);
    let mut slot = PrevStateSlot::new();
    let req = HeartbeatRequest { term: 9, leader_id: NodeId::new(2000, 1001) };
    assert_eq!(node.handle_heartbeat(&req, 1000, &mut slot, true), Err(Error::WrongGroup));
    assert_eq!(node.current_term(), 0);
    assert_eq!(node.current_leader(), None);
    let req = VoteRequest { term: 9, candidate_id: NodeId::new(2000, 1001), pre_vote: false, vote_factor_hint: None };
    assert_eq!(node.handle_vote_request(&req, 1000, &mut slot, true), Err(Error::WrongGroup));
    assert_eq!(node.current_term(), 0);
}

#[test]
fn a_new_term_that_cannot_be_saved_is_not_adopted() {
    let mut node = follower(1002);
    let mut slot = PrevStateSlot::new();
    assert_eq!(node.handle_heartbeat(&heartbeat(3, 1001), 1000, &mut slot, false), Err(Error::Storage));
    assert_eq!(node.current_term(), 0);
    assert_eq!(node.current_leader(), None);
    assert_eq!(node.election_deadline(), None);
    assert_eq!(node.vote_hard_state(&vote(3, 1001)), Some(HardState { current_term: 3, voted_for: Some(id(1001)) }));
    assert_eq!(node.handle_vote_request(&vote(3, 1001), 1000, &mut slot, false), Err(Error::Storage));
    assert_eq!(node.hard_state(), HardState { current_term: 0, voted_for: None });
}

#[test]
fn a_heartbeat_makes_a_candidate_step_down() {
    let mut node = follower(1002);
    let mut slot = PrevStateSlot::new();
    node.election_timeout(&mut slot);
    let mut slot = PrevStateSlot::new();
    node.set_state(State::Candidate, &mut slot);
    let mut slot = PrevStateSlot::new();
    let r = node.handle_heartbeat(&heartbeat(0, 1001), 1000, &mut slot, true);
    assert_eq!(r, Ok(HeartbeatResponse { from: id(1002), term: 0, success: true }));
    assert_eq!(node.state(), State::Follower);
    assert_eq!(node.prev_state(), Some(State::Candidate));
    assert!(!slot.is_armed());
}

#[test]
fn a_vote_is_cast_once_per_term() {
    let mut node = follower(1003);
    let mut slot = PrevStateSlot::new();
    let first = node.handle_vote_request(&vote(1, 1001), 1000, &mut slot, true);
    assert_eq!(first, Ok(answer(1003, 1, true, false)));
    assert_eq!(node.hard_state(), HardState { current_term: 1, voted_for: Some(id(1001)) });
    assert_eq!(node.election_deadline(), Some(1159));
    let other = node.handle_vote_request(&vote(1, 1002), 1010, &mut slot, true);
    assert_eq!(other, Ok(answer(1003, 1, false, false)));
    assert_eq!(node.voted_for(), Some(id(1001)));
    assert_eq!(node.election_deadline(), Some(1159));
    // a replay of the first request gets the first answer, and needs no disk
    assert_eq!(node.vote_hard_state(&vote(1, 1001)), None);
    let replay = node.handle_vote_request(&vote(1, 1001), 1020, &mut slot, false);
    assert_eq!(replay, first);
    let replay = node.handle_vote_request(&vote(1, 1002), 1020, &mut slot, false);
    assert_eq!(replay, other);
    // a higher term frees the vote
    let next = node.handle_vote_request(&vote(2, 1002), 1030, &mut slot, true);
    assert_eq!(next, Ok(answer(1003, 2, true, false)));
    assert_eq!(node.hard_state(), HardState { current_term: 2, voted_for: Some(id(1002)) });
}

#[test]
fn a_stale_vote_request_is_rejected() {
    let mut node = follower(1003);
    let mut slot = PrevStateSlot::new();
    node.handle_heartbeat(&heartbeat(5, 1001), 1000, &mut slot, true).unwrap();
    assert_eq!(node.handle_vote_request(&vote(4, 1002), 1000, &mut slot, true), Err(Error::StaleTerm { current_term: 5 }));
    assert_eq!(node.handle_vote_request(&pre_vote(4, 1002), 1000, &mut slot, true), Err(Error::StaleTerm { current_term: 5 }));
    assert_eq!(node.voted_for(), None);
}

#[test]
fn a_vote_request_of_a_higher_term_forgets_the_leader() {
    let mut node = follower(1003);
    let mut slot = PrevStateSlot::new();
    node.handle_heartbeat(&heartbeat(1, 1001), 1000, &mut slot, true).unwrap();
    let r = node.handle_vote_request(&vote(2, 1002), 1100, &mut slot, true);
    assert_eq!(r, Ok(answer(1003, 2, true, false)));
    assert_eq!(node.current_leader(), None);
    assert_eq!(node.state(), State::Follower);
    assert!(slot.is_armed());
}

#[test]
fn a_pre_vote_changes_nothing() {
    let mut node = follower(1003);
    let mut slot = PrevStateSlot::new();
    let before = (node.hard_state(), node.state(), node.current_leader(), node.election_deadline());
    assert_eq!(node.vote_hard_state(&pre_vote(1, 1002)), None);
    let r = node.handle_vote_request(&pre_vote(1, 1002), 1000, &mut slot, false);
    assert_eq!(r, Ok(answer(1003, 0, true, true)));
    assert_eq!((node.hard_state(), node.state(), node.current_leader(), node.election_deadline()), before);
    assert!(slot.is_armed());
    // even one of a far higher term
    let r = node.handle_vote_request(&pre_vote(90, 1002), 1000, &mut slot, false);
    assert_eq!(r, Ok(answer(1003, 0, true, true)));
    assert_eq!(node.current_term(), 0);
}

#[test]
fn a_pre_vote_is_granted_only_without_a_live_leader() {
    let mut node = follower(1003);
    let mut slot = PrevStateSlot::new();
    node.handle_heartbeat(&heartbeat(1, 1001), 1000, &mut slot, true).unwrap();
    assert_eq!(node.election_deadline(), Some(1159));
    assert!(!node.grants_pre_vote(1000));
    assert_eq!(node.handle_vote_request(&pre_vote(2, 1002), 1000, &mut slot, true), Ok(answer(1003, 1, false, true)));
    // one heartbeat interval before the deadline the leader is given up
    assert!(!node.grants_pre_vote(1108));
    assert!(node.grants_pre_vote(1109));
    assert_eq!(node.handle_vote_request(&pre_vote(2, 1002), 1109, &mut slot, true), Ok(answer(1003, 1, true, true)));
    assert_eq!(node.current_term(), 1);
    assert_eq!(node.voted_for(), None);
}

#[test]
fn an_election_timeout_makes_a_follower_probe() {
    let mut node = follower(1002);
    let mut slot = PrevStateSlot::new();
    node.handle_heartbeat(&heartbeat(1, 1001), 1000, &mut slot, true).unwrap();
    node.election_timeout(&mut slot);
    assert_eq!(node.state(), State::PreCandidate);
    assert_eq!(node.current_leader(), None);
    assert_eq!(node.prev_state(), Some(State::Follower));
    assert_eq!(node.current_term(), 1);
    // in any other role the timer means nothing
    let mut slot = PrevStateSlot::new();
    node.election_timeout(&mut slot);
    assert_eq!(node.state(), State::PreCandidate);
    assert!(slot.is_armed());
}

#[test]
fn the_previous_role_is_recorded_once_per_slot() {
    let mut node = follower(1002);
    let mut slot = PrevStateSlot::new();
    assert!(slot.is_armed());
    node.set_state(State::PreCandidate, &mut slot);
    assert_eq!(node.prev_state(), Some(State::Follower));
    assert!(!slot.is_armed());
    node.set_state(State::Candidate, &mut slot);
    node.set_state(State::Leader, &mut slot);
    assert_eq!(node.state(), State::Leader);
    assert_eq!(node.prev_state(), Some(State::Follower));
    let mut fresh = PrevStateSlot::new();
    node.set_state(State::Follower, &mut fresh);
    assert_eq!(node.prev_state(), Some(State::Leader));
}

#[test]
fn a_role_without_a_timer_has_no_deadline() {
    let mut node = follower(1002);
    let mut slot = PrevStateSlot::new();
    node.next_election_timeout(1000);
    node.set_state(State::Candidate, &mut slot);
    assert_eq!(node.election_deadline(), Some(1215));
    node.set_state(State::Leader, &mut slot);
    assert_eq!(node.election_deadline(), None);
}

#[test]
fn nothing_leaves_shutdown() {
    let mut node = follower(1002);
    let mut slot = PrevStateSlot::new();
    node.shutdown(&mut slot);
    assert_eq!(node.state(), State::Shutdown);
    assert_eq!(node.prev_state(), Some(State::Follower));
    let mut slot = PrevStateSlot::new();
    node.set_state(State::Follower, &mut slot);
    assert_eq!(node.state(), State::Shutdown);
    assert!(slot.is_armed());
    assert_eq!(node.handle_heartbeat(&heartbeat(3, 1001), 0, &mut slot, true), Err(Error::ChannelDisconnected));
    assert_eq!(node.handle_vote_request(&vote(3, 1001), 0, &mut slot, true), Err(Error::ChannelDisconnected));
    assert_eq!(node.initialize(&weighted(), false, None, true, &mut slot), Err(Error::ChannelDisconnected));
    node.election_timeout(&mut slot);
    let mut tally = Tally::new();
    assert_eq!(node.start_election(&mut tally, 0, &mut slot, true), QuorumOutcome::Pending);
    assert_eq!(node.state(), State::Shutdown);
    assert_eq!(node.current_term(), 0);
}

#[test]
fn the_requests_a_node_sends() {
    let mut node = follower(1002);
    let mut slot = PrevStateSlot::new();
    node.handle_heartbeat(&heartbeat(4, 1001), 0, &mut slot, true).unwrap();
    assert_eq!(
        node.vote_request(true),
        VoteRequest { term: 5, candidate_id: id(1002), pre_vote: true, vote_factor_hint: Some(1) }
    );
    assert_eq!(
        node.vote_request(false),
        VoteRequest { term: 4, candidate_id: id(1002), pre_vote: false, vote_factor_hint: Some(1) }
    );
    assert_eq!(node.heartbeat_request(), HeartbeatRequest { term: 4, leader_id: id(1002) });
    assert_eq!(node.current_term(), 4);
    let outsider = {
        let mut n = startup(1009);
        n.initialize(&weighted(), false, None, true, &mut PrevStateSlot::new()).unwrap();
        n
    };
    assert_eq!(outsider.own_weight(), None);
    assert_eq!(outsider.vote_request(true).vote_factor_hint, None);
    assert_eq!(outsider.peers(), vec![id(1001), id(1002), id(1003)]);
}
