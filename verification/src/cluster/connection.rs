//! The connections a node holds, by role, and who it takes as leader.
use vstd::prelude::*;
use std::collections::HashMap;
use crate::cluster::messages::Role;
use crate::cluster::election::{EMUntrack, RegisterPeerEM};
use crate::cluster::heartbeat::{HBTrack, HBUntrack};

verus! {

broadcast use vstd::std_specs::hash::group_hash_axioms;

/// The node that leads from now on.
#[derive(Debug, Clone, Copy, PartialEq, Eq, Structural)]
pub struct SetNewLeader {
    pub peer_id: u32,
}

/// A connection became known, with its peer's id and role.
pub struct RegisterPeer<A> {
    pub id: u32,
    pub address: A,
    pub role: Role,
}

/// A node of the cluster stopped answering.
#[derive(Debug, Clone, Copy, PartialEq, Eq, Structural)]
pub struct PeerDown {
    pub id: u32,
}

/// A heartbeat came from a node without a connection.
#[derive(Debug, Clone, Copy, PartialEq, Eq, Structural)]
pub struct NewPeerDetectedFromHB {
    pub peer_id: u32,
}

/// What the connection manager asks the node to do.
pub enum ConnectionAction<A> {
    /// Close this connection.
    Shutdown(A),
    /// Tell the transaction manager that the node `id` joined, with its
    /// connection (`peer(id)`).
    RegisterToTransactions { id: u32 },
    /// Tell the transaction manager that a node went down.
    PeerDownToTransactions(PeerDown),
    /// Tell the election manager that a node joined.
    RegisterToElection(RegisterPeerEM),
    /// Tell the election manager that a node left.
    UntrackToElection(EMUntrack),
    /// Ask the election manager for an election of a fresh round.
    CallElection,
    /// Tell the failure detector to track a peer.
    TrackToHeartbeat(HBTrack),
    /// Tell the failure detector to stop tracking a node.
    UntrackToHeartbeat(HBUntrack),
}

/// The connections as mathematical values.
pub struct ConnectionView<A> {
    pub id: u32,
    pub leader: Option<u32>,
    pub peers: Map<u32, A>,
    pub stations: Map<u32, A>,
    pub proxies: Map<u32, A>,
    /// Whether the failure detector, the election manager and the
    /// transaction manager are known yet.
    pub has_heartbeat: bool,
    pub has_election: bool,
    pub has_transactions: bool,
}

/// What registering a peer tells the managers: a node of the cluster to the
/// election manager and to the transaction manager, each one known; every
/// peer to the failure detector, if known.
pub open spec fn register_actions<A>(has_election: bool, has_transactions: bool, has_heartbeat: bool, id: u32, role: Role) -> Seq<ConnectionAction<A>> {
    (if role == Role::Internode && has_election {
        seq![ConnectionAction::<A>::RegisterToElection(RegisterPeerEM { id })]
    } else {
        seq![]
    }) + (if role == Role::Internode && has_transactions {
        seq![ConnectionAction::<A>::RegisterToTransactions { id }]
    } else {
        seq![]
    }) + (if has_heartbeat {
        seq![ConnectionAction::<A>::TrackToHeartbeat(HBTrack { id, role })]
    } else {
        seq![]
    })
}

/// What a node going down tells, in order: the transaction manager; the
/// node's connection is closed; the failure detector; the election manager,
/// which also calls an election when the node led. A manager that is not
/// known is not told.
pub open spec fn peer_down_actions<A>(v: ConnectionView<A>, id: u32) -> Seq<ConnectionAction<A>> {
    (if v.has_transactions {
        seq![ConnectionAction::<A>::PeerDownToTransactions(PeerDown { id })]
    } else {
        seq![]
    }) + (if v.peers.contains_key(id) {
        seq![ConnectionAction::Shutdown(v.peers[id])]
    } else {
        seq![]
    }) + (if v.has_heartbeat {
        seq![ConnectionAction::<A>::UntrackToHeartbeat(HBUntrack { id })]
    } else {
        seq![]
    }) + (if v.has_election {
        seq![ConnectionAction::<A>::UntrackToElection(EMUntrack { id })] + if v.leader == Some(id) {
            seq![ConnectionAction::<A>::CallElection]
        } else {
            seq![]
        }
    } else {
        seq![]
    })
}

/// The connections of one node.
pub struct ConnectionManager<A> {
    id: u32,
    leader: Option<u32>,
    active_peers: HashMap<u32, A>,
    active_stations: HashMap<u32, A>,
    active_proxies: HashMap<u32, A>,
    has_heartbeat: bool,
    has_election: bool,
    has_transactions: bool,
}

impl<A> View for ConnectionManager<A> {
    type V = ConnectionView<A>;

    closed spec fn view(&self) -> ConnectionView<A> {
        ConnectionView {
            id: self.id,
            leader: self.leader,
            peers: self.active_peers@,
            stations: self.active_stations@,
            proxies: self.active_proxies@,
            has_heartbeat: self.has_heartbeat,
            has_election: self.has_election,
            has_transactions: self.has_transactions,
        }
    }
}

impl<A> ConnectionManager<A> {
    /// A node with no connection and no leader.
    pub fn new(id: u32) -> (r: Self)
        ensures
            r@ == (ConnectionView::<A> {
                id,
                leader: None,
                peers: Map::empty(),
                stations: Map::empty(),
                proxies: Map::empty(),
                has_heartbeat: false,
                has_election: false,
                has_transactions: false,
            }),
    {
        ConnectionManager {
            id,
            leader: None,
            active_peers: HashMap::new(),
            active_stations: HashMap::new(),
            active_proxies: HashMap::new(),
            has_heartbeat: false,
            has_election: false,
            has_transactions: false,
        }
    }

    /// The leader this node takes.
    pub fn leader(&self) -> (r: Option<u32>)
        ensures
            r == self@.leader,
    {
        self.leader
    }

    /// Records a connection under its role, replacing an older one of the
    /// same peer, and tells the managers: a node of the cluster to the
    /// election and transaction managers, every peer to the failure detector.
    pub fn register_peer(&mut self, msg: RegisterPeer<A>) -> (r: Vec<ConnectionAction<A>>)
        ensures
            match msg.role {
                Role::Internode => final(self)@ == (ConnectionView {
                    peers: old(self)@.peers.insert(msg.id, msg.address),
                    ..old(self)@
                }),
                Role::Station => final(self)@ == (ConnectionView {
                    stations: old(self)@.stations.insert(msg.id, msg.address),
                    ..old(self)@
                }),
                Role::Proxy => final(self)@ == (ConnectionView {
                    proxies: old(self)@.proxies.insert(msg.id, msg.address),
                    ..old(self)@
                }),
            },
            r@ == register_actions::<A>(old(self)@.has_election, old(self)@.has_transactions, old(self)@.has_heartbeat, msg.id, msg.role),
    {
        let id = msg.id;
        let role = msg.role;
        match msg.role {
            Role::Internode => {
                self.active_peers.insert(msg.id, msg.address);
            },
            Role::Station => {
                self.active_stations.insert(msg.id, msg.address);
            },
            Role::Proxy => {
                self.active_proxies.insert(msg.id, msg.address);
            },
        }
        let mut r: Vec<ConnectionAction<A>> = Vec::new();
        if role == Role::Internode {
            if self.has_election {
                r.push(ConnectionAction::RegisterToElection(RegisterPeerEM { id }));
            }
            if self.has_transactions {
                r.push(ConnectionAction::RegisterToTransactions { id });
            }
        }
        if self.has_heartbeat {
            r.push(ConnectionAction::TrackToHeartbeat(HBTrack { id, role }));
        }
        proof {
            let a = if role == Role::Internode && self.has_election { seq![ConnectionAction::<A>::RegisterToElection(RegisterPeerEM { id })] } else { seq![] };
            let b = if role == Role::Internode && self.has_transactions { seq![ConnectionAction::<A>::RegisterToTransactions { id }] } else { seq![] };
            let c = if self.has_heartbeat { seq![ConnectionAction::<A>::TrackToHeartbeat(HBTrack { id, role })] } else { seq![] };
            assert(r@ =~= a + b + c);
        }
        r
    }

    /// A node went down. The transaction manager is told; its connection, if
    /// any, is dropped and returned to be closed; the failure detector and
    /// the election manager are told; and when the node led and the election
    /// manager is known, the leader is forgotten and an election is called.
    pub fn peer_down(&mut self, msg: PeerDown) -> (r: Vec<ConnectionAction<A>>)
        ensures
            final(self)@.peers == old(self)@.peers.remove(msg.id),
            final(self)@.stations == old(self)@.stations,
            final(self)@.proxies == old(self)@.proxies,
            final(self)@.id == old(self)@.id,
            final(self)@.has_heartbeat == old(self)@.has_heartbeat,
            final(self)@.has_election == old(self)@.has_election,
            final(self)@.has_transactions == old(self)@.has_transactions,
            old(self)@.has_election && old(self)@.leader == Some(msg.id) ==> final(self)@.leader is None,
            !(old(self)@.has_election && old(self)@.leader == Some(msg.id)) ==> final(self)@.leader == old(self)@.leader,
            r@ == peer_down_actions(old(self)@, msg.id),
    {
        let id = msg.id;
        let mut r: Vec<ConnectionAction<A>> = Vec::new();
        if self.has_transactions {
            r.push(ConnectionAction::PeerDownToTransactions(PeerDown { id }));
        }
        let closed = self.active_peers.remove(&id);
        match closed {
            Some(a) => r.push(ConnectionAction::Shutdown(a)),
            None => {},
        }
        if self.has_heartbeat {
            r.push(ConnectionAction::UntrackToHeartbeat(HBUntrack { id }));
        }
        if self.has_election {
            r.push(ConnectionAction::UntrackToElection(EMUntrack { id }));
            let led = match self.leader {
                Some(l) => l == id,
                None => false,
            };
            if led {
                self.leader = None;
                r.push(ConnectionAction::CallElection);
            }
        }
        proof {
            let v = old(self)@;
            let a = if v.has_transactions { seq![ConnectionAction::<A>::PeerDownToTransactions(PeerDown { id })] } else { seq![] };
            let b = if v.peers.contains_key(id) { seq![ConnectionAction::Shutdown(v.peers[id])] } else { seq![] };
            let c = if v.has_heartbeat { seq![ConnectionAction::<A>::UntrackToHeartbeat(HBUntrack { id })] } else { seq![] };
            let d = if v.has_election {
                seq![ConnectionAction::<A>::UntrackToElection(EMUntrack { id })] + if v.leader == Some(id) { seq![ConnectionAction::<A>::CallElection] } else { seq![] }
            } else {
                seq![]
            };
            assert(r@ =~= a + b + c + d);
        }
        r
    }

    /// The failure detector is known from now on.
    pub fn set_heartbeat_addr(&mut self)
        ensures
            final(self)@ == (ConnectionView { has_heartbeat: true, ..old(self)@ }),
    {
        self.has_heartbeat = true;
    }

    /// The election manager is known from now on.
    pub fn set_election_manager_addr(&mut self)
        ensures
            final(self)@ == (ConnectionView { has_election: true, ..old(self)@ }),
    {
        self.has_election = true;
    }

    /// The transaction manager is known from now on.
    pub fn set_transaction_manager_addr(&mut self)
        ensures
            final(self)@ == (ConnectionView { has_transactions: true, ..old(self)@ }),
    {
        self.has_transactions = true;
    }

    /// Whether to connect to a node detected by its heartbeat: only to a
    /// lower node, and only without a connection to it already.
    pub fn should_dial(&self, msg: NewPeerDetectedFromHB) -> (r: bool)
        ensures
            r == (self@.id > msg.peer_id && !self@.peers.contains_key(msg.peer_id)),
    {
        !(self.id <= msg.peer_id || self.active_peers.contains_key(&msg.peer_id))
    }

    /// Takes `msg.peer_id` as leader.
    pub fn set_new_leader(&mut self, msg: SetNewLeader)
        ensures
            final(self)@ == (ConnectionView { leader: Some(msg.peer_id), ..old(self)@ }),
    {
        self.leader = Some(msg.peer_id);
    }

    /// The connection to node `id`, if any.
    pub fn peer(&self, id: u32) -> (r: Option<&A>)
        ensures
            self@.peers.contains_key(id) ==> r == Some(&self@.peers[id]),
            !self@.peers.contains_key(id) ==> r is None,
    {
        self.active_peers.get(&id)
    }
}


/// How many nodes a node dials at start-up: every node numbered from 1 up
/// to the cluster's size that is below it.
pub open spec fn lower_nodes(num_nodes: u32, current_id: u32) -> nat {
    if current_id == 0 {
        0
    } else if num_nodes < current_id - 1 {
        num_nodes as nat
    } else {
        (current_id - 1) as nat
    }
}

/// The nodes to connect to: the ones given, or else every node numbered from
/// 1 to `num_nodes` below `current_id`, in increasing order.
pub fn peers_to_dial(num_nodes: u32, current_id: u32, given: Option<Vec<u32>>) -> (r: Vec<u32>)
    ensures
        given matches Some(g) ==> r@ == g@,
        given is None ==> r@ == Seq::new(lower_nodes(num_nodes, current_id), |i: int| (i + 1) as u32),
{
    match given {
        Some(g) => g,
        None => {
            let mut r: Vec<u32> = Vec::new();
            let mut id: u32 = 1;
            let ghost n = lower_nodes(num_nodes, current_id);
            while id <= num_nodes && id < current_id
                invariant
                    1 <= id,
                    id - 1 <= n,
                    n == lower_nodes(num_nodes, current_id),
                    r@ == Seq::new((id - 1) as nat, |i: int| (i + 1) as u32),
                decreases num_nodes - id + 1,
            {
                r.push(id);
                assert(r@ =~= Seq::new(id as nat, |i: int| (i + 1) as u32));
                id = id + 1;
            }
            assert(id - 1 == n);
            r
        },
    }
}

} // verus!
