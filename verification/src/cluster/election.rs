//! The bully election of a leader among the cluster's nodes: the decisions,
//! as transitions from a state and an event to a new state and the messages
//! to send.
use vstd::prelude::*;

verus! {

/// Where this node stands in the election.
#[derive(Debug, Clone, Copy, PartialEq, Eq, Structural)]
pub enum ElectionStatus {
    /// Not running an election.
    Idle,
    /// Called an election and waits for a higher node to answer.
    WaitingOk { round: u64 },
    /// A higher node answered; waits for the new leader to announce itself.
    WaitingLeader { round: u64 },
    /// This node is the leader.
    Leader { round: u64 },
}

/// Asks this node to start an election of the given round.
#[derive(Debug, Clone, Copy, PartialEq, Eq, Structural)]
pub struct CallElection {
    pub round: u64,
}

/// The wait for an answer to the election of `round` is over.
#[derive(Debug, Clone, Copy, PartialEq, Eq, Structural)]
pub struct TimeoutForWaitingOk {
    pub round: u64,
}

/// The wait for the leader of the election of `round` is over.
#[derive(Debug, Clone, Copy, PartialEq, Eq, Structural)]
pub struct TimeoutForWaitingLeader {
    pub round: u64,
}

/// A node joined.
#[derive(Debug, Clone, Copy, PartialEq, Eq, Structural)]
pub struct RegisterPeerEM {
    pub id: u32,
}

/// A node left.
#[derive(Debug, Clone, Copy, PartialEq, Eq, Structural)]
pub struct EMUntrack {
    pub id: u32,
}

/// The election messages between nodes.
#[derive(Debug, Clone, Copy, PartialEq, Eq, Structural)]
pub enum ElectionMessage {
    Election { from: u32, round: u64 },
    ElectionOk { from: u32, round: u64 },
    ImLeader { from: u32, round: u64 },
}

/// What the election asks the node to do.
#[derive(Debug, Clone, Copy, PartialEq, Eq, Structural)]
pub enum ElectionAction {
    /// Send `msg` to node `to`.
    Send { to: u32, msg: ElectionMessage },
    /// Send `msg` back to the node that sent the message being handled.
    Reply { msg: ElectionMessage },
    /// Handle `TimeoutForWaitingOk` once the wait for answers is over.
    StartOkTimer { round: u64 },
    /// Handle `TimeoutForWaitingLeader` once the wait for the leader is over.
    StartLeaderTimer { round: u64 },
    /// Call an election of this round.
    CallElection { round: u64 },
    /// Call an election of a fresh round.
    RestartElection,
    /// Tell the rest of the node who the leader is.
    NewLeader { peer_id: u32 },
}

/// The election state of one node.
pub struct ElectionManager {
    id: u32,
    leader: Option<u32>,
    election_status: ElectionStatus,
    round: u64,
    peers: Vec<u32>,
}

/// The election state as mathematical values.
pub struct ElectionView {
    pub id: u32,
    pub leader: Option<u32>,
    pub status: ElectionStatus,
    /// The highest round known, of this node or another.
    pub round: u64,
    /// The known nodes, in the order they joined.
    pub peers: Seq<u32>,
}

/// The round of a status that has one.
pub open spec fn status_round(s: ElectionStatus) -> Option<u64> {
    match s {
        ElectionStatus::Idle => None,
        ElectionStatus::WaitingOk { round } => Some(round),
        ElectionStatus::WaitingLeader { round } => Some(round),
        ElectionStatus::Leader { round } => Some(round),
    }
}

/// The consistency of an election state: a running election is the one of
/// the current round, a leader is known while leading and none while an
/// election runs, and each peer is listed once.
pub open spec fn election_wf(v: ElectionView) -> bool {
    &&& v.peers.no_duplicates()
    &&& status_round(v.status) matches Some(r) ==> r == v.round
    &&& v.status is Leader ==> v.leader == Some(v.id)
    &&& (v.status is WaitingOk || v.status is WaitingLeader) ==> v.leader is None
}

/// The peers above `id`.
pub open spec fn higher_than(id: u32) -> spec_fn(u32) -> bool {
    |p: u32| p > id
}

/// The peers other than `id`.
pub open spec fn other_than(id: u32) -> spec_fn(u32) -> bool {
    |p: u32| p != id
}

/// One message of the given kind to each peer kept by `keep`.
pub open spec fn sends_to(peers: Seq<u32>, keep: spec_fn(u32) -> bool, msg: ElectionMessage) -> Seq<ElectionAction>
    decreases peers.len(),
{
    if peers.len() == 0 {
        seq![]
    } else {
        let r = sends_to(peers.drop_last(), keep, msg);
        if keep(peers.last()) {
            r.push(ElectionAction::Send { to: peers.last(), msg })
        } else {
            r
        }
    }
}

/// The effect of `CallElection`: a round no newer than the known one is
/// ignored; otherwise the node forgets the leader, takes the round, asks
/// every higher node and waits for answers.
pub open spec fn call_election_step(v: ElectionView, round: u64) -> (ElectionView, Seq<ElectionAction>) {
    if round <= v.round {
        (v, seq![])
    } else {
        (
            ElectionView { leader: None, round, status: ElectionStatus::WaitingOk { round }, ..v },
            sends_to(v.peers, higher_than(v.id), ElectionMessage::Election { from: v.id, round }).push(
                ElectionAction::StartOkTimer { round },
            ),
        )
    }
}

/// The effect of the end of the wait for answers: if the node still waits
/// for answers in that round, nobody higher answered, so it leads and
/// announces it to every other node.
pub open spec fn ok_timeout_step(v: ElectionView, round: u64) -> (ElectionView, Seq<ElectionAction>) {
    if v.status == (ElectionStatus::WaitingOk { round }) {
        (
            ElectionView { leader: Some(v.id), round, status: ElectionStatus::Leader { round }, ..v },
            seq![ElectionAction::NewLeader { peer_id: v.id }] + sends_to(
                v.peers,
                other_than(v.id),
                ElectionMessage::ImLeader { from: v.id, round },
            ),
        )
    } else {
        (v, seq![])
    }
}

/// The effect of the end of the wait for the leader: if no leader came in
/// that round, a new election starts.
pub open spec fn leader_timeout_step(v: ElectionView, round: u64) -> (ElectionView, Seq<ElectionAction>) {
    if v.status == (ElectionStatus::WaitingLeader { round }) {
        (v, seq![ElectionAction::RestartElection])
    } else {
        (v, seq![])
    }
}

/// The effect of a message from another node.
pub open spec fn message_step(v: ElectionView, msg: ElectionMessage) -> (ElectionView, Seq<ElectionAction>) {
    match msg {
        ElectionMessage::Election { from, round } => if v.leader == Some(v.id) {
            (v, seq![ElectionAction::Reply { msg: ElectionMessage::ImLeader { from: v.id, round } }])
        } else if v.round < round {
            (
                v,
                seq![
                    ElectionAction::Reply { msg: ElectionMessage::ElectionOk { from: v.id, round } },
                    ElectionAction::CallElection { round },
                ],
            )
        } else {
            (v, seq![ElectionAction::Reply { msg: ElectionMessage::ElectionOk { from: v.id, round } }])
        },
        ElectionMessage::ImLeader { from, round } => if round < v.round {
            (v, seq![])
        } else {
            (
                ElectionView { leader: Some(from), round, status: ElectionStatus::Idle, ..v },
                seq![ElectionAction::NewLeader { peer_id: from }],
            )
        },
        ElectionMessage::ElectionOk { from, round } => if round == v.round && v.status == (ElectionStatus::WaitingOk { round }) {
            (
                ElectionView { status: ElectionStatus::WaitingLeader { round }, ..v },
                seq![ElectionAction::StartLeaderTimer { round }],
            )
        } else {
            (v, seq![])
        },
    }
}

impl View for ElectionManager {
    type V = ElectionView;

    closed spec fn view(&self) -> ElectionView {
        ElectionView {
            id: self.id,
            leader: self.leader,
            status: self.election_status,
            round: self.round,
            peers: self.peers@,
        }
    }
}

impl ElectionManager {
    /// A node that knows no leader, no round and no peer.
    pub fn new(id: u32) -> (r: Self)
        ensures
            election_wf(r@),
            r@ == (ElectionView { id, leader: None, status: ElectionStatus::Idle, round: 0, peers: seq![] }),
    {
        let r = ElectionManager { id, leader: None, election_status: ElectionStatus::Idle, round: 0, peers: Vec::new() };
        assert(r@.peers =~= seq![]);
        r
    }

    /// The leader this node knows.
    pub fn leader(&self) -> (r: Option<u32>)
        ensures
            r == self@.leader,
    {
        self.leader
    }

    /// The highest round this node knows.
    pub fn round(&self) -> (r: u64)
        ensures
            r == self@.round,
    {
        self.round
    }

    /// Where this node stands in the election.
    pub fn status(&self) -> (r: ElectionStatus)
        ensures
            r == self@.status,
    {
        self.election_status
    }

    fn sends(&self, higher_only: bool, msg: ElectionMessage) -> (r: Vec<ElectionAction>)
        ensures
            higher_only ==> r@ == sends_to(self@.peers, higher_than(self@.id), msg),
            !higher_only ==> r@ == sends_to(self@.peers, other_than(self@.id), msg),
    {
        let ghost keep = if higher_only {
            higher_than(self@.id)
        } else {
            other_than(self@.id)
        };
        let mut r: Vec<ElectionAction> = Vec::new();
        let mut i: usize = 0;
        while i < self.peers.len()
            invariant
                i <= self.peers@.len(),
                keep == (if higher_only {
                    higher_than(self@.id)
                } else {
                    other_than(self@.id)
                }),
                r@ == sends_to(self.peers@.take(i as int), keep, msg),
            decreases self.peers.len() - i,
        {
            let p = self.peers[i];
            assert(self.peers@.take(i + 1).drop_last() =~= self.peers@.take(i as int));
            assert(self.peers@.take(i + 1).last() == p);
            let chosen = if higher_only {
                p > self.id
            } else {
                p != self.id
            };
            if chosen {
                r.push(ElectionAction::Send { to: p, msg });
            }
            i = i + 1;
        }
        assert(self.peers@.take(i as int) =~= self.peers@);
        r
    }

    /// Handles `CallElection`.
    pub fn call_election(&mut self, msg: CallElection) -> (r: Vec<ElectionAction>)
        requires
            election_wf(old(self)@),
        ensures
            election_wf(final(self)@),
            (final(self)@, r@) == call_election_step(old(self)@, msg.round),
    {
        let round = msg.round;
        if round <= self.round {
            return Vec::new();
        }
        let mut r = self.sends(true, ElectionMessage::Election { from: self.id, round });
        self.leader = None;
        self.round = round;
        self.election_status = ElectionStatus::WaitingOk { round };
        r.push(ElectionAction::StartOkTimer { round });
        r
    }

    /// Handles the end of the wait for answers to the election of `msg.round`.
    pub fn timeout_for_waiting_ok(&mut self, msg: TimeoutForWaitingOk) -> (r: Vec<ElectionAction>)
        requires
            election_wf(old(self)@),
        ensures
            election_wf(final(self)@),
            (final(self)@, r@) == ok_timeout_step(old(self)@, msg.round),
    {
        let round = msg.round;
        let waiting = match self.election_status {
            ElectionStatus::WaitingOk { round: r } => r == round,
            _ => false,
        };
        if !waiting {
            return Vec::new();
        }
        self.become_leader(round)
    }

    fn become_leader(&mut self, round: u64) -> (r: Vec<ElectionAction>)
        requires
            election_wf(old(self)@),
            old(self)@.status == (ElectionStatus::WaitingOk { round }),
        ensures
            election_wf(final(self)@),
            (final(self)@, r@) == ok_timeout_step(old(self)@, round),
    {
        let mut sends = self.sends(false, ElectionMessage::ImLeader { from: self.id, round });
        let ghost sent = sends@;
        let mut out: Vec<ElectionAction> = Vec::new();
        out.push(ElectionAction::NewLeader { peer_id: self.id });
        out.append(&mut sends);
        assert(out@ =~= seq![ElectionAction::NewLeader { peer_id: self@.id }] + sent);
        self.leader = Some(self.id);
        self.round = round;
        self.election_status = ElectionStatus::Leader { round };
        out
    }

    /// Handles the end of the wait for the leader of the election of `msg.round`.
    pub fn timeout_for_waiting_leader(&mut self, msg: TimeoutForWaitingLeader) -> (r: Vec<ElectionAction>)
        requires
            election_wf(old(self)@),
        ensures
            election_wf(final(self)@),
            (final(self)@, r@) == leader_timeout_step(old(self)@, msg.round),
    {
        let status = self.election_status;
        match status {
            ElectionStatus::WaitingLeader { round: r } if r == msg.round => {
                let mut out = Vec::new();
                out.push(ElectionAction::RestartElection);
                assert(out@ =~= seq![ElectionAction::RestartElection]);
                out
            },
            _ => Vec::new(),
        }
    }

    fn answer_election(&self, from: u32, round: u64) -> (r: Vec<ElectionAction>)
        ensures
            (self@, r@) == message_step(self@, ElectionMessage::Election { from, round }),
    {
        let id = self.id;
        let leader = self.leader;
        let known_round = self.round;
        let mut out: Vec<ElectionAction> = Vec::new();
        let leads = match leader {
            Some(l) => l == id,
            None => false,
        };
        if leads {
            out.push(ElectionAction::Reply { msg: ElectionMessage::ImLeader { from: id, round } });
            assert(out@ =~= seq![ElectionAction::Reply { msg: ElectionMessage::ImLeader { from: id, round } }]);
            return out;
        }
        out.push(ElectionAction::Reply { msg: ElectionMessage::ElectionOk { from: id, round } });
        if known_round < round {
            out.push(ElectionAction::CallElection { round });
            assert(out@ =~= seq![
                ElectionAction::Reply { msg: ElectionMessage::ElectionOk { from: id, round } },
                ElectionAction::CallElection { round },
            ]);
        } else {
            assert(out@ =~= seq![ElectionAction::Reply { msg: ElectionMessage::ElectionOk { from: id, round } }]);
        }
        out
    }

    /// Handles an election message from another node.
    pub fn handle_message(&mut self, msg: ElectionMessage) -> (r: Vec<ElectionAction>)
        requires
            election_wf(old(self)@),
        ensures
            election_wf(final(self)@),
            (final(self)@, r@) == message_step(old(self)@, msg),
    {
        match msg {
            ElectionMessage::ImLeader { from, round } => self.accept_leader(from, round),
            ElectionMessage::ElectionOk { from, round } => self.accept_ok(from, round),
            ElectionMessage::Election { from, round } => self.answer_election(from, round),
        }
    }

    fn accept_leader(&mut self, from: u32, round: u64) -> (r: Vec<ElectionAction>)
        requires
            election_wf(old(self)@),
        ensures
            election_wf(final(self)@),
            (final(self)@, r@) == message_step(old(self)@, ElectionMessage::ImLeader { from, round }),
    {
        let mut out: Vec<ElectionAction> = Vec::new();
        if round < self.round {
            return out;
        }
        self.leader = Some(from);
        self.round = round;
        self.election_status = ElectionStatus::Idle;
        out.push(ElectionAction::NewLeader { peer_id: from });
        assert(out@ =~= seq![ElectionAction::NewLeader { peer_id: from }]);
        out
    }

    fn accept_ok(&mut self, from: u32, round: u64) -> (r: Vec<ElectionAction>)
        requires
            election_wf(old(self)@),
        ensures
            election_wf(final(self)@),
            (final(self)@, r@) == message_step(old(self)@, ElectionMessage::ElectionOk { from, round }),
    {
        let mut out: Vec<ElectionAction> = Vec::new();
        if round != self.round {
            return out;
        }
        let waiting = match self.election_status {
            ElectionStatus::WaitingOk { round: r } => r == round,
            _ => false,
        };
        if waiting {
            self.election_status = ElectionStatus::WaitingLeader { round };
            out.push(ElectionAction::StartLeaderTimer { round });
            assert(out@ =~= seq![ElectionAction::StartLeaderTimer { round }]);
        }
        out
    }

    /// Handles `RegisterPeerEM`: a node that is not known yet is added.
    #[verifier::loop_isolation(false)]
    pub fn register_peer(&mut self, msg: RegisterPeerEM)
        requires
            election_wf(old(self)@),
        ensures
            election_wf(final(self)@),
            final(self)@ == (ElectionView {
                peers: if old(self)@.peers.contains(msg.id) {
                    old(self)@.peers
                } else {
                    old(self)@.peers.push(msg.id)
                },
                ..old(self)@
            }),
    {
        let mut i: usize = 0;
        while i < self.peers.len()
            invariant
                i <= self.peers@.len(),
                forall|k: int| 0 <= k < i ==> self.peers@[k] != msg.id,
            decreases self.peers.len() - i,
        {
            if self.peers[i] == msg.id {
                return;
            }
            i = i + 1;
        }
        self.peers.push(msg.id);
    }

    /// Handles `EMUntrack`: the node is forgotten.
    pub fn untrack(&mut self, msg: EMUntrack)
        requires
            election_wf(old(self)@),
        ensures
            election_wf(final(self)@),
            final(self)@ == (ElectionView { peers: without_peer(old(self)@.peers, msg.id), ..old(self)@ }),
    {
        let ghost old_peers = self.peers@;
        let mut kept: Vec<u32> = Vec::new();
        let mut i: usize = 0;
        while i < self.peers.len()
            invariant
                i <= self.peers@.len(),
                self.peers@ == old_peers,
                old_peers.no_duplicates(),
                kept@ == without_peer(old_peers.take(i as int), msg.id),
                kept@.no_duplicates(),
                forall|x: u32| kept@.contains(x) ==> old_peers.take(i as int).contains(x),
            decreases self.peers.len() - i,
        {
            let p = self.peers[i];
            let ghost k0 = kept@;
            proof {
                assert(old_peers.take(i + 1).drop_last() =~= old_peers.take(i as int));
                assert(old_peers.take(i + 1).last() == p);
                assert(!old_peers.take(i as int).contains(p)) by {
                    if old_peers.take(i as int).contains(p) {
                        let j = choose|j: int| 0 <= j < i && #[trigger] old_peers.take(i as int)[j] == p;
                        assert(old_peers[j] == old_peers[i as int]);
                    }
                }
            }
            if p != msg.id {
                kept.push(p);
                proof {
                    assert(!k0.contains(p));
                    assert(kept@ =~= k0.push(p));
                }
            }
            proof {
                assert forall|x: u32| kept@.contains(x) implies old_peers.take(i + 1).contains(x) by {
                    let j = choose|j: int| 0 <= j < kept@.len() && #[trigger] kept@[j] == x;
                    if j < k0.len() {
                        assert(k0[j] == x);
                        assert(k0.contains(x));
                        assert(old_peers.take(i as int).contains(x));
                        let t = choose|t: int| 0 <= t < i && #[trigger] old_peers.take(i as int)[t] == x;
                        assert(old_peers.take(i + 1)[t] == x);
                    } else {
                        assert(old_peers.take(i + 1)[i as int] == x);
                    }
                }
            }
            i = i + 1;
        }
        assert(old_peers.take(i as int) =~= old_peers);
        self.peers = kept;
    }
}

/// `peers` without `id`.
pub open spec fn without_peer(peers: Seq<u32>, id: u32) -> Seq<u32>
    decreases peers.len(),
{
    if peers.len() == 0 {
        peers
    } else {
        let r = without_peer(peers.drop_last(), id);
        if peers.last() != id {
            r.push(peers.last())
        } else {
            r
        }
    }
}

/// No event makes a node forget a newer round: the known round never
/// decreases.
pub proof fn law_round_never_decreases(v: ElectionView, call: u64, ok: u64, leader: u64, msg: ElectionMessage)
    ensures
        call_election_step(v, call).0.round >= v.round,
        ok_timeout_step(v, ok).0.round >= v.round || !election_wf(v),
        leader_timeout_step(v, leader).0.round == v.round,
        message_step(v, msg).0.round >= v.round,
{
}

/// Every election message is answered: by `ImLeader` when this node leads,
/// else by `ElectionOk`, and a newer round makes this node run its own
/// election.
pub proof fn law_election_is_answered(v: ElectionView, from: u32, round: u64)
    ensures
        ({
            let out = message_step(v, ElectionMessage::Election { from, round }).1;
            &&& out.len() >= 1
            &&& v.leader == Some(v.id) ==> out[0] == ElectionAction::Reply { msg: ElectionMessage::ImLeader { from: v.id, round } }
            &&& v.leader != Some(v.id) ==> out[0] == ElectionAction::Reply { msg: ElectionMessage::ElectionOk { from: v.id, round } }
            &&& (v.leader != Some(v.id) && v.round < round) ==> out.contains(ElectionAction::CallElection { round })
            &&& message_step(v, ElectionMessage::Election { from, round }).0 == v
        }),
{
    let out = message_step(v, ElectionMessage::Election { from, round }).1;
    if v.leader != Some(v.id) && v.round < round {
        assert(out[1] == ElectionAction::CallElection { round });
    }
}

/// An announcement of an older round than the known one changes nothing.
pub proof fn law_stale_leader_ignored(v: ElectionView, from: u32, round: u64)
    requires
        round < v.round,
    ensures
        message_step(v, ElectionMessage::ImLeader { from, round }) == (v, Seq::<ElectionAction>::empty()),
{
}

/// A node that waits for answers and gets none becomes the leader of that
/// round and tells the rest of the node first.
pub proof fn law_unanswered_election_wins(v: ElectionView, round: u64)
    requires
        v.status == (ElectionStatus::WaitingOk { round }),
    ensures
        ok_timeout_step(v, round).0.leader == Some(v.id),
        ok_timeout_step(v, round).0.status == (ElectionStatus::Leader { round }),
        ok_timeout_step(v, round).1[0] == (ElectionAction::NewLeader { peer_id: v.id }),
{
}

/// Each peer that `keep` admits gets the message, and only those do.
proof fn lemma_sends_to_reach(peers: Seq<u32>, keep: spec_fn(u32) -> bool, msg: ElectionMessage)
    ensures
        forall|p: u32| peers.contains(p) && keep(p) ==> #[trigger] sends_to(peers, keep, msg).contains(
            ElectionAction::Send { to: p, msg },
        ),
        forall|a: ElectionAction| #[trigger] sends_to(peers, keep, msg).contains(a) ==> (a matches ElectionAction::Send { to, msg: m }
            && m == msg && peers.contains(to) && keep(to)),
    decreases peers.len(),
{
    if peers.len() > 0 {
        let init = peers.drop_last();
        lemma_sends_to_reach(init, keep, msg);
        let r = sends_to(init, keep, msg);
        assert forall|p: u32| peers.contains(p) && keep(p) implies #[trigger] sends_to(peers, keep, msg).contains(
            ElectionAction::Send { to: p, msg },
        ) by {
            let i = choose|i: int| 0 <= i < peers.len() && peers[i] == p;
            if i < peers.len() - 1 {
                assert(init[i] == p);
                assert(init.contains(p));
                assert(r.contains(ElectionAction::Send { to: p, msg }));
                let j = choose|j: int| 0 <= j < r.len() && r[j] == ElectionAction::Send { to: p, msg };
                if keep(peers.last()) {
                    assert(r.push(ElectionAction::Send { to: peers.last(), msg })[j] == r[j]);
                }
            } else {
                assert(keep(peers.last()));
                assert(r.push(ElectionAction::Send { to: peers.last(), msg })[r.len() as int] == ElectionAction::Send { to: p, msg });
            }
        }
        assert forall|a: ElectionAction| #[trigger] sends_to(peers, keep, msg).contains(a) implies (a matches ElectionAction::Send { to, msg: m }
            && m == msg && peers.contains(to) && keep(to)) by {
            let out = sends_to(peers, keep, msg);
            let j = choose|j: int| 0 <= j < out.len() && out[j] == a;
            if keep(peers.last()) && j == r.len() {
                assert(peers[peers.len() - 1] == peers.last());
            } else {
                assert(out[j] == r[j]);
                assert(r.contains(a));
                if let ElectionAction::Send { to, msg: m } = a {
                    let k = choose|k: int| 0 <= k < init.len() && init[k] == to;
                    assert(peers[k] == to);
                }
            }
        }
    }
}

/// A node that wins its election announces itself, with the round it won,
/// to every other node it knows, and sends nothing else but the news of its
/// own leadership.
pub proof fn law_winner_announces_to_every_peer(v: ElectionView, round: u64)
    requires
        v.status == (ElectionStatus::WaitingOk { round }),
    ensures
        forall|p: u32| v.peers.contains(p) && p != v.id ==> #[trigger] ok_timeout_step(v, round).1.contains(
            ElectionAction::Send { to: p, msg: ElectionMessage::ImLeader { from: v.id, round } },
        ),
        forall|a: ElectionAction| #[trigger] ok_timeout_step(v, round).1.contains(a) ==> a == (ElectionAction::NewLeader {
            peer_id: v.id,
        }) || (a matches ElectionAction::Send { to, msg } && to != v.id && v.peers.contains(to) && msg
            == (ElectionMessage::ImLeader { from: v.id, round })),
{
    let msg = ElectionMessage::ImLeader { from: v.id, round };
    let s = sends_to(v.peers, other_than(v.id), msg);
    let out = ok_timeout_step(v, round).1;
    lemma_sends_to_reach(v.peers, other_than(v.id), msg);
    assert(out == seq![ElectionAction::NewLeader { peer_id: v.id }] + s);
    assert forall|p: u32| v.peers.contains(p) && p != v.id implies #[trigger] out.contains(
        ElectionAction::Send { to: p, msg },
    ) by {
        assert(s.contains(ElectionAction::Send { to: p, msg }));
        let j = choose|j: int| 0 <= j < s.len() && s[j] == ElectionAction::Send { to: p, msg };
        assert(out[j + 1] == s[j]);
    }
    assert forall|a: ElectionAction| #[trigger] out.contains(a) implies a == (ElectionAction::NewLeader {
        peer_id: v.id,
    }) || (a matches ElectionAction::Send { to, msg: m } && to != v.id && v.peers.contains(to) && m == msg) by {
        let j = choose|j: int| 0 <= j < out.len() && out[j] == a;
        if j > 0 {
            assert(out[j] == s[j - 1]);
            assert(s.contains(a));
        }
    }
}

/// An election asks every higher node it knows, and only those.
pub proof fn law_election_asks_every_higher_peer(v: ElectionView, round: u64)
    requires
        round > v.round,
    ensures
        forall|p: u32| v.peers.contains(p) && p > v.id ==> #[trigger] call_election_step(v, round).1.contains(
            ElectionAction::Send { to: p, msg: ElectionMessage::Election { from: v.id, round } },
        ),
        forall|p: u32, m: ElectionMessage| #[trigger] call_election_step(v, round).1.contains(
            ElectionAction::Send { to: p, msg: m },
        ) ==> p > v.id && v.peers.contains(p),
{
    let msg = ElectionMessage::Election { from: v.id, round };
    let s = sends_to(v.peers, higher_than(v.id), msg);
    let out = call_election_step(v, round).1;
    lemma_sends_to_reach(v.peers, higher_than(v.id), msg);
    assert forall|p: u32| v.peers.contains(p) && p > v.id implies #[trigger] out.contains(
        ElectionAction::Send { to: p, msg },
    ) by {
        assert(s.contains(ElectionAction::Send { to: p, msg }));
        let j = choose|j: int| 0 <= j < s.len() && s[j] == ElectionAction::Send { to: p, msg };
        assert(out[j] == s[j]);
    }
    assert forall|p: u32, m: ElectionMessage| #[trigger] out.contains(ElectionAction::Send { to: p, msg: m }) implies p
        > v.id && v.peers.contains(p) by {
        let j = choose|j: int| 0 <= j < out.len() && out[j] == ElectionAction::Send { to: p, msg: m };
        if j < s.len() {
            assert(out[j] == s[j]);
            assert(s.contains(ElectionAction::Send { to: p, msg: m }));
        }
    }
}

} // verus!
