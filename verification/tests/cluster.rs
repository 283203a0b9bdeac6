use tender::msg::{heartbeat_answer, vote_answer, HeartbeatRequest};
use tender::node::{Member, NodeId, State};
use tender::options::Options;
use tender::quorum::{Quorum, Tally};
use tender::state::{CoreState, PrevStateSlot};

const GROUP: u64 = 1000;

fn id(n: u64) -> NodeId {
    NodeId::new(GROUP, n)
}

struct Peer {
    core: CoreState,
    up: bool,
}

/// A group of nodes on one clock, with a network that delivers at once to
/// every node that is up.
struct Cluster {
    peers: Vec<Peer>,
    members: Vec<Member>,
    now: u64,
}

impl Cluster {
    fn new(weights: &[u64], policy: Quorum) -> Cluster {
        let options = Options { quorum_policy: policy, ..Options::default() };
        let members: Vec<Member> =
            weights.iter().enumerate().map(|(i, w)| Member { id: id(1001 + i as u64), weight: *w }).collect();
        let peers = members.iter().map(|m| Peer { core: CoreState::new(m.id, options).unwrap(), up: true }).collect();
        Cluster { peers, members, now: 0 }
    }

    fn index(&self, n: u64) -> usize {
        (n - 1001) as usize
    }

    fn init(&mut self, hinted: u64) {
        let members = self.members.clone();
        for peer in self.peers.iter_mut() {
            let hint = peer.core.node_id() == id(hinted);
            peer.core.initialize(&members, hint, None, true, &mut PrevStateSlot::new()).unwrap();
        }
    }

    fn observe(&self, n: u64) -> (State, u64, Option<NodeId>) {
        let core = &self.peers[self.index(n)].core;
        (core.state(), core.current_term(), core.current_leader())
    }

    fn disable(&mut self, n: u64) {
        let i = self.index(n);
        self.peers[i].up = false;
    }

    fn set_policy(&mut self, policy: Quorum) {
        for peer in self.peers.iter_mut() {
            let options = Options { quorum_policy: policy, ..peer.core.options() };
            peer.core.update_options(options).unwrap();
        }
    }

    /// The election deadline of a node, drawn now if it has none.
    fn deadline(&mut self, n: u64) -> u64 {
        let (i, now) = (self.index(n), self.now);
        self.peers[i].core.next_election_timeout(now)
    }

    /// The election timer of follower `n` fires.
    fn time_out(&mut self, n: u64) {
        self.now = self.deadline(n).max(self.now);
        let i = self.index(n);
        self.peers[i].core.election_timeout(&mut PrevStateSlot::new());
    }

    /// Pre-candidate or candidate `n` asks every other node that is up, and
    /// takes in the answers until it is decided.
    fn ask(&mut self, n: u64, pre_vote: bool, tally: &mut Tally, slot: &mut PrevStateSlot) {
        let me = self.index(n);
        let req = self.peers[me].core.vote_request(pre_vote);
        for i in 0..self.peers.len() {
            if i == me || !self.peers[i].up {
                continue;
            }
            let peer_id = self.peers[i].core.node_id();
            let result = self.peers[i].core.handle_vote_request(&req, self.now, &mut PrevStateSlot::new(), true);
            if let Some(resp) = vote_answer(peer_id, &req, result) {
                let core = &mut self.peers[me].core;
                if pre_vote {
                    core.handle_pre_vote_response(tally, &resp, self.now, slot);
                } else {
                    core.handle_vote_response(tally, &resp, self.now, slot, true);
                }
            }
        }
    }

    /// Leader `n` sends a round of heartbeats.
    fn beat(&mut self, n: u64) {
        let me = self.index(n);
        let req = self.peers[me].core.heartbeat_request();
        for i in 0..self.peers.len() {
            if i == me || !self.peers[i].up {
                continue;
            }
            let peer_id = self.peers[i].core.node_id();
            let result = self.peers[i].core.handle_heartbeat(&req, self.now, &mut PrevStateSlot::new(), true);
            if let Some(resp) = heartbeat_answer(peer_id, result) {
                self.peers[me].core.handle_heartbeat_response(&resp, self.now, &mut PrevStateSlot::new(), true);
            }
        }
    }

    /// Pre-candidate `n` plays out what follows: the pre-vote round, and
    /// the election and the first heartbeats where it gets that far.
    fn campaign(&mut self, n: u64) -> State {
        let me = self.index(n);
        assert_eq!(self.peers[me].core.state(), State::PreCandidate);
        let mut tally = Tally::new();
        let mut slot = PrevStateSlot::new();
        let now = self.now;
        self.peers[me].core.start_pre_vote(&mut tally, now, &mut slot);
        if self.peers[me].core.is_state(State::PreCandidate) {
            self.ask(n, true, &mut tally, &mut slot);
        }
        if self.peers[me].core.is_state(State::Candidate) {
            let mut slot = PrevStateSlot::new();
            self.peers[me].core.start_election(&mut tally, now, &mut slot, true);
            if self.peers[me].core.is_state(State::Candidate) {
                self.ask(n, false, &mut tally, &mut slot);
            }
        }
        if self.peers[me].core.is_state(State::Leader) {
            self.beat(n);
        }
        self.peers[me].core.state()
    }

    /// The pre-vote round of `n` runs out of time, and later its election
    /// timer fires again.
    fn back_off_and_time_out(&mut self, n: u64) {
        let i = self.index(n);
        self.now = self.deadline(n).max(self.now);
        let now = self.now;
        self.peers[i].core.round_timeout(now, &mut PrevStateSlot::new());
        assert_eq!(self.peers[i].core.state(), State::Follower);
        self.time_out(n);
    }
}

fn elected(weights: &[u64], policy: Quorum) -> Cluster {
    let mut cluster = Cluster::new(weights, policy);
    cluster.init(1001);
    cluster.time_out(1001);
    assert_eq!(cluster.campaign(1001), State::Leader);
    cluster
}

#[test]
fn nodes_stay_passive_until_they_are_initialized() {
    let mut cluster = Cluster::new(&[1, 1, 0], Quorum::Major);
    cluster.now = 1000;
    for n in [1001, 1002, 1003] {
        assert_eq!(cluster.observe(n), (State::Startup, 0, None));
        let i = cluster.index(n);
        cluster.peers[i].core.election_timeout(&mut PrevStateSlot::new());
        assert_eq!(cluster.observe(n), (State::Startup, 0, None));
        assert_eq!(cluster.peers[i].core.election_deadline(), None);
    }
}

#[test]
fn the_hinted_node_wins_the_first_election() {
    let mut cluster = Cluster::new(&[1, 1, 0], Quorum::Major);
    cluster.init(1001);
    for n in [1001, 1002, 1003] {
        assert_eq!(cluster.observe(n), (State::Follower, 0, None));
    }
    // the hinted node's timer fires before any other can
    assert_eq!(cluster.deadline(1001), 75);
    assert!(cluster.deadline(1002) >= 150);
    assert!(cluster.deadline(1003) >= 150);
    cluster.time_out(1001);
    assert_eq!(cluster.now, 75);
    assert_eq!(cluster.campaign(1001), State::Leader);
    assert_eq!(cluster.observe(1001), (State::Leader, 1, Some(id(1001))));
    assert_eq!(cluster.observe(1002), (State::Follower, 1, Some(id(1001))));
    assert_eq!(cluster.observe(1003), (State::Follower, 1, Some(id(1001))));
}

#[test]
fn a_lost_leader_is_replaced_in_the_next_term() {
    let mut cluster = elected(&[1, 1, 1], Quorum::Major);
    cluster.disable(1001);
    cluster.time_out(1003);
    cluster.time_out(1002);
    assert_eq!(cluster.campaign(1002), State::Leader);
    assert_eq!(cluster.observe(1002), (State::Leader, 2, Some(id(1002))));
    assert_eq!(cluster.observe(1003), (State::Follower, 2, Some(id(1002))));
}

#[test]
fn a_follower_that_still_trusts_its_leader_grants_no_pre_vote() {
    let mut cluster = elected(&[1, 1, 1], Quorum::Major);
    cluster.disable(1001);
    let (first, second) = (1002, 1003);
    // the other follower heard from the leader a moment ago
    cluster.now = cluster.deadline(first) - 1;
    let beat = HeartbeatRequest { term: 1, leader_id: id(1001) };
    let (i, now) = (cluster.index(second), cluster.now);
    cluster.peers[i].core.handle_heartbeat(&beat, now, &mut PrevStateSlot::new(), true).unwrap();
    cluster.time_out(first);
    assert_eq!(cluster.campaign(first), State::PreCandidate);
    assert_eq!(cluster.observe(first), (State::PreCandidate, 1, None));
    assert_eq!(cluster.observe(second), (State::Follower, 1, Some(id(1001))));
}

#[test]
fn without_the_heavy_peer_a_weighted_majority_is_out_of_reach() {
    let mut cluster = elected(&[1, 1, 0], Quorum::Major);
    cluster.disable(1001);
    cluster.time_out(1003);
    cluster.time_out(1002);
    assert_eq!(cluster.campaign(1002), State::PreCandidate);
    assert_eq!(cluster.campaign(1003), State::PreCandidate);
    assert_eq!(cluster.observe(1002), (State::PreCandidate, 1, None));
    assert_eq!(cluster.observe(1003), (State::PreCandidate, 1, None));
}

#[test]
fn a_node_without_a_quorum_probes_and_keeps_its_term() {
    let mut cluster = elected(&[1, 1, 1], Quorum::Major);
    cluster.disable(1001);
    cluster.time_out(1003);
    cluster.time_out(1002);
    assert_eq!(cluster.campaign(1002), State::Leader);
    assert_eq!(cluster.observe(1003), (State::Follower, 2, Some(id(1002))));
    cluster.disable(1002);
    cluster.time_out(1003);
    assert_eq!(cluster.campaign(1003), State::PreCandidate);
    assert_eq!(cluster.observe(1003), (State::PreCandidate, 2, None));
    // round after round, the term stays
    for _ in 0..20 {
        cluster.back_off_and_time_out(1003);
        assert_eq!(cluster.campaign(1003), State::PreCandidate);
        assert_eq!(cluster.observe(1003), (State::PreCandidate, 2, None));
    }
}

#[test]
fn a_quorum_of_all_three_blocks_the_election_once_one_is_gone() {
    let mut cluster = elected(&[1, 1, 0], Quorum::Any(3));
    assert_eq!(cluster.observe(1001), (State::Leader, 1, Some(id(1001))));
    assert_eq!(cluster.observe(1002), (State::Follower, 1, Some(id(1001))));
    assert_eq!(cluster.observe(1003), (State::Follower, 1, Some(id(1001))));
    cluster.disable(1001);
    cluster.time_out(1003);
    cluster.time_out(1002);
    assert_eq!(cluster.campaign(1002), State::PreCandidate);
    assert_eq!(cluster.campaign(1003), State::PreCandidate);
    assert_eq!(cluster.observe(1002), (State::PreCandidate, 1, None));
    assert_eq!(cluster.observe(1003), (State::PreCandidate, 1, None));
}

#[test]
fn a_relaxed_policy_unblocks_the_election() {
    let mut cluster = elected(&[1, 1, 1], Quorum::Any(3));
    cluster.disable(1001);
    cluster.time_out(1003);
    cluster.time_out(1002);
    assert_eq!(cluster.campaign(1002), State::PreCandidate);
    assert_eq!(cluster.observe(1002), (State::PreCandidate, 1, None));
    assert_eq!(cluster.observe(1003), (State::PreCandidate, 1, None));
    cluster.set_policy(Quorum::Major);
    cluster.back_off_and_time_out(1002);
    assert_eq!(cluster.campaign(1002), State::Leader);
    assert_eq!(cluster.observe(1002), (State::Leader, 2, Some(id(1002))));
    assert_eq!(cluster.observe(1003), (State::Follower, 2, Some(id(1002))));
}

#[test]
fn the_term_never_goes_back_and_a_vote_stands_for_its_term() {
    let mut cluster = elected(&[1, 1, 1], Quorum::Major);
    let mut seen: Vec<(u64, Option<NodeId>)> = Vec::new();
    let watch = 1003;
    let mut note = |cluster: &Cluster, seen: &mut Vec<(u64, Option<NodeId>)>| {
        seen.push((cluster.observe(watch).1, cluster.peers[2].core.voted_for()));
    };
    note(&cluster, &mut seen);
    cluster.disable(1001);
    cluster.time_out(1003);
    note(&cluster, &mut seen);
    cluster.time_out(1002);
    cluster.campaign(1002);
    note(&cluster, &mut seen);
    cluster.beat(1002);
    note(&cluster, &mut seen);
    cluster.disable(1002);
    cluster.time_out(1003);
    cluster.campaign(1003);
    note(&cluster, &mut seen);
    for pair in seen.windows(2) {
        assert!(pair[0].0 <= pair[1].0);
        if pair[0].0 == pair[1].0 && pair[0].1.is_some() {
            assert_eq!(pair[0].1, pair[1].1);
        }
    }
    assert_eq!(seen.last(), Some(&(2, Some(id(1002)))));
}

#[test]
fn two_candidates_of_one_term_cannot_both_win() {
    let mut cluster = Cluster::new(&[1, 1, 1], Quorum::Major);
    cluster.init(1001);
    cluster.time_out(1001);
    cluster.time_out(1002);
    // both pass the pre-vote, and both stand in term 1
    for n in [1001, 1002] {
        let i = cluster.index(n);
        cluster.peers[i].core.set_state(State::Candidate, &mut PrevStateSlot::new());
    }
    let (mut t1, mut t2) = (Tally::new(), Tally::new());
    let (mut s1, mut s2) = (PrevStateSlot::new(), PrevStateSlot::new());
    let now = cluster.now;
    cluster.peers[0].core.start_election(&mut t1, now, &mut s1, true);
    cluster.peers[1].core.start_election(&mut t2, now, &mut s2, true);
    cluster.ask(1001, false, &mut t1, &mut s1);
    cluster.ask(1002, false, &mut t2, &mut s2);
    assert_eq!(cluster.observe(1001), (State::Leader, 1, Some(id(1001))));
    assert_eq!(cluster.observe(1002), (State::Follower, 1, None));
    assert_eq!(cluster.peers[1].core.voted_for(), Some(id(1002)));
    assert_eq!(cluster.peers[2].core.voted_for(), Some(id(1001)));
}
