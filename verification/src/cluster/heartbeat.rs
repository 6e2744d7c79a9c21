//! The failure detector: periodic pings, counted misses, and the nodes that
//! are declared down.
use vstd::prelude::*;
use crate::cluster::messages::Role;

verus! {

/// Who a ping goes to.
#[derive(Debug, Clone, Copy, PartialEq, Eq, Structural)]
pub enum PingTarget {
    /// A node of the cluster not discovered yet.
    Seed(u32),
    /// A tracked node of the cluster.
    Peer(u32),
    Station(u32),
    Proxy(u32),
}

/// What the failure detector asks the node to do.
#[derive(Debug, Clone, Copy, PartialEq, Eq, Structural)]
pub enum HeartbeatAction {
    /// Send a heartbeat.
    Ping(PingTarget),
    /// The node missed too many heartbeats.
    PeerDown(u32),
    /// A heartbeat came from a node that is not tracked.
    NewPeerDetected(u32),
}

/// Start tracking a peer of some role.
#[derive(Debug, Clone, Copy, PartialEq, Eq, Structural)]
pub struct HBTrack {
    pub id: u32,
    pub role: Role,
}

/// Stop tracking a node of the cluster.
#[derive(Debug, Clone, Copy, PartialEq, Eq, Structural)]
pub struct HBUntrack {
    pub id: u32,
}

/// The failure detector's state as mathematical values.
pub struct HeartbeatView {
    pub id: u32,
    pub discovery_rounds_left: u32,
    pub seed_peers: Seq<u32>,
    /// Tracked nodes of the cluster with their heartbeats missed in a row.
    pub peers: Seq<(u32, u32)>,
    pub stations: Seq<u32>,
    pub proxies: Seq<u32>,
    pub hb_misses_allowed: u32,
}

/// The failure detector of one node.
pub struct HeartbeatManager {
    id: u32,
    discovery_rounds_left: u32,
    seed_peers: Vec<u32>,
    peers: Vec<(u32, u32)>,
    stations: Vec<u32>,
    proxies: Vec<u32>,
    hb_misses_allowed: u32,
}

/// The ids of the tracked nodes.
pub open spec fn peer_ids(p: Seq<(u32, u32)>) -> Seq<u32> {
    p.map_values(|e: (u32, u32)| e.0)
}

/// The nodes of a cluster of `num_nodes` nodes (ids `1..=num_nodes`) above `id`.
pub open spec fn seeds_above(id: u32, num_nodes: u32) -> Seq<u32> {
    Seq::new((if num_nodes > id { num_nodes - id } else { 0 }) as nat, |i: int| (id + 1 + i) as u32)
}

/// One ping to each id.
pub open spec fn pings(ids: Seq<u32>, kind: spec_fn(u32) -> PingTarget) -> Seq<HeartbeatAction> {
    ids.map_values(|i: u32| HeartbeatAction::Ping(kind(i)))
}

pub open spec fn seed_target() -> spec_fn(u32) -> PingTarget {
    |i: u32| PingTarget::Seed(i)
}

pub open spec fn peer_target() -> spec_fn(u32) -> PingTarget {
    |i: u32| PingTarget::Peer(i)
}

pub open spec fn station_target() -> spec_fn(u32) -> PingTarget {
    |i: u32| PingTarget::Station(i)
}

pub open spec fn proxy_target() -> spec_fn(u32) -> PingTarget {
    |i: u32| PingTarget::Proxy(i)
}

/// The pings of a discovery round, and the rounds left after it.
pub open spec fn discovery_step(v: HeartbeatView) -> (u32, Seq<HeartbeatAction>) {
    if v.discovery_rounds_left == 0 {
        (0, seq![])
    } else {
        (
            (v.discovery_rounds_left - 1) as u32,
            pings(v.seed_peers, seed_target()) + pings(v.stations, station_target()),
        )
    }
}

/// A miss count after one more miss.
pub open spec fn bumped(m: u32) -> u32 {
    if m == u32::MAX {
        m
    } else {
        (m + 1) as u32
    }
}

/// The tracked nodes after one more miss each, keeping those still under
/// the allowed misses.
pub open spec fn survivors(p: Seq<(u32, u32)>, allowed: u32) -> Seq<(u32, u32)>
    decreases p.len(),
{
    if p.len() == 0 {
        p
    } else {
        let r = survivors(p.drop_last(), allowed);
        let b = bumped(p.last().1);
        if b >= allowed {
            r
        } else {
            r.push((p.last().0, b))
        }
    }
}

/// The tracked nodes that reach the allowed misses with one more miss.
pub open spec fn downs(p: Seq<(u32, u32)>, allowed: u32) -> Seq<HeartbeatAction>
    decreases p.len(),
{
    if p.len() == 0 {
        seq![]
    } else {
        let r = downs(p.drop_last(), allowed);
        if bumped(p.last().1) >= allowed {
            r.push(HeartbeatAction::PeerDown(p.last().0))
        } else {
            r
        }
    }
}

/// The effect of a heartbeat period: a discovery round, a ping to every
/// proxy, station and tracked node, one more miss for each tracked node, and
/// the nodes that reach the allowed misses are dropped and reported down.
pub open spec fn tick_step(v: HeartbeatView) -> (HeartbeatView, Seq<HeartbeatAction>) {
    let (left, discovery) = discovery_step(v);
    (
        HeartbeatView {
            discovery_rounds_left: left,
            peers: survivors(v.peers, v.hb_misses_allowed),
            ..v
        },
        discovery + pings(v.proxies, proxy_target()) + pings(v.stations, station_target()) + pings(
            peer_ids(v.peers),
            peer_target(),
        ) + downs(v.peers, v.hb_misses_allowed),
    )
}

/// The state is consistent: each node is tracked once.
pub open spec fn heartbeat_wf(v: HeartbeatView) -> bool {
    &&& peer_ids(v.peers).no_duplicates()
    &&& v.stations.no_duplicates()
    &&& v.proxies.no_duplicates()
}

impl View for HeartbeatManager {
    type V = HeartbeatView;

    closed spec fn view(&self) -> HeartbeatView {
        HeartbeatView {
            id: self.id,
            discovery_rounds_left: self.discovery_rounds_left,
            seed_peers: self.seed_peers@,
            peers: self.peers@,
            stations: self.stations@,
            proxies: self.proxies@,
            hb_misses_allowed: self.hb_misses_allowed,
        }
    }
}

fn push_pings(out: &mut Vec<HeartbeatAction>, ids: &Vec<u32>, kind: u8, Ghost(k): Ghost<spec_fn(u32) -> PingTarget>)
    requires
        kind == 0 ==> k == seed_target(),
        kind == 1 ==> k == peer_target(),
        kind == 2 ==> k == station_target(),
        kind >= 3 ==> k == proxy_target(),
    ensures
        final(out)@ == old(out)@ + pings(ids@, k),
{
    let ghost start = out@;
    let mut i: usize = 0;
    while i < ids.len()
        invariant
            i <= ids@.len(),
            kind == 0 ==> k == seed_target(),
            kind == 1 ==> k == peer_target(),
            kind == 2 ==> k == station_target(),
            kind >= 3 ==> k == proxy_target(),
            out@ == start + pings(ids@.take(i as int), k),
        decreases ids.len() - i,
    {
        let id = ids[i];
        let t = if kind == 0 {
            PingTarget::Seed(id)
        } else if kind == 1 {
            PingTarget::Peer(id)
        } else if kind == 2 {
            PingTarget::Station(id)
        } else {
            PingTarget::Proxy(id)
        };
        out.push(HeartbeatAction::Ping(t));
        assert(pings(ids@.take(i + 1), k) =~= pings(ids@.take(i as int), k).push(HeartbeatAction::Ping(k(id))));
        i = i + 1;
    }
    assert(ids@.take(i as int) =~= ids@);
}

fn contains_id(v: &Vec<u32>, id: u32) -> (r: bool)
    ensures
        r == v@.contains(id),
{
    let mut i: usize = 0;
    while i < v.len()
        invariant
            i <= v@.len(),
            forall|k: int| 0 <= k < i ==> v@[k] != id,
        decreases v.len() - i,
    {
        if v[i] == id {
            return true;
        }
        i = i + 1;
    }
    false
}

fn find_peer(v: &Vec<(u32, u32)>, id: u32) -> (r: Option<usize>)
    ensures
        r matches Some(i) ==> i < v@.len() && v@[i as int].0 == id,
        r is None ==> !peer_ids(v@).contains(id),
{
    let mut i: usize = 0;
    while i < v.len()
        invariant
            i <= v@.len(),
            forall|k: int| 0 <= k < i ==> v@[k].0 != id,
        decreases v.len() - i,
    {
        if v[i].0 == id {
            return Some(i);
        }
        i = i + 1;
    }
    proof {
        if peer_ids(v@).contains(id) {
            let k = choose|k: int| 0 <= k < peer_ids(v@).len() && #[trigger] peer_ids(v@)[k] == id;
            assert(v@[k].0 == id);
        }
    }
    None
}

impl HeartbeatManager {
    /// The failure detector of node `id` in a cluster of `num_nodes` nodes:
    /// it discovers the nodes above it during `discovery_rounds` periods and
    /// reports a node down after `hb_misses_allowed` periods without news.
    pub fn new(id: u32, num_nodes: u32, discovery_rounds: u32, hb_misses_allowed: u32) -> (r: Self)
        ensures
            heartbeat_wf(r@),
            r@ == (HeartbeatView {
                id,
                discovery_rounds_left: discovery_rounds,
                seed_peers: seeds_above(id, num_nodes),
                peers: seq![],
                stations: seq![],
                proxies: seq![],
                hb_misses_allowed,
            }),
    {
        let mut seed_peers: Vec<u32> = Vec::new();
        let mut p: u32 = id;
        while p < num_nodes
            invariant
                id <= p <= num_nodes || (num_nodes <= id && p == id),
                seed_peers@ == seeds_above(id, num_nodes).take((p - id) as int),
            decreases num_nodes - p,
        {
            p = p + 1;
            seed_peers.push(p);
            assert(seed_peers@ =~= seeds_above(id, num_nodes).take((p - id) as int));
        }
        assert(seed_peers@ =~= seeds_above(id, num_nodes));
        let r = HeartbeatManager {
            id,
            discovery_rounds_left: discovery_rounds,
            seed_peers,
            peers: Vec::new(),
            stations: Vec::new(),
            proxies: Vec::new(),
            hb_misses_allowed,
        };
        assert(r@.peers =~= seq![]);
        assert(r@.stations =~= seq![]);
        assert(r@.proxies =~= seq![]);
        r
    }

    /// A discovery round: while rounds are left, pings the nodes above this
    /// one and the stations.
    pub fn send_discovery_round(&mut self) -> (r: Vec<HeartbeatAction>)
        ensures
            final(self)@ == (HeartbeatView { discovery_rounds_left: discovery_step(old(self)@).0, ..old(self)@ }),
            r@ == discovery_step(old(self)@).1,
    {
        let mut out: Vec<HeartbeatAction> = Vec::new();
        if self.discovery_rounds_left == 0 {
            let r = self.discovery_rounds_left;
            self.discovery_rounds_left = r;
            assert(out@ =~= seq![]);
            return out;
        }
        push_pings(&mut out, &self.seed_peers, 0, Ghost(seed_target()));
        push_pings(&mut out, &self.stations, 2, Ghost(station_target()));
        assert(out@ =~= pings(self.seed_peers@, seed_target()) + pings(self.stations@, station_target()));
        self.discovery_rounds_left = self.discovery_rounds_left - 1;
        out
    }

    /// A heartbeat period.
    pub fn tick(&mut self) -> (r: Vec<HeartbeatAction>)
        requires
            heartbeat_wf(old(self)@),
        ensures
            heartbeat_wf(final(self)@),
            (final(self)@, r@) == tick_step(old(self)@),
    {
        let ghost v = self@;
        let mut out = self.send_discovery_round();
        push_pings(&mut out, &self.proxies, 3, Ghost(proxy_target()));
        push_pings(&mut out, &self.stations, 2, Ghost(station_target()));
        let ghost peers = self.peers@;
        let mut kept: Vec<(u32, u32)> = Vec::new();
        let mut down: Vec<HeartbeatAction> = Vec::new();
        let ghost before_peer_pings = out@;
        let mut i: usize = 0;
        while i < self.peers.len()
            invariant
                i <= peers.len(),
                self.peers@ == peers,
                peer_ids(peers).no_duplicates(),
                out@ == before_peer_pings + pings(peer_ids(peers).take(i as int), peer_target()),
                kept@ == survivors(peers.take(i as int), self.hb_misses_allowed),
                down@ == downs(peers.take(i as int), self.hb_misses_allowed),
                peer_ids(kept@).no_duplicates(),
                forall|x: u32| peer_ids(kept@).contains(x) ==> peer_ids(peers.take(i as int)).contains(x),
            decreases peers.len() - i,
        {
            let (id, misses) = self.peers[i];
            out.push(HeartbeatAction::Ping(PingTarget::Peer(id)));
            proof {
                assert(peer_ids(peers).take(i + 1) =~= peer_ids(peers).take(i as int).push(id));
                assert(peer_ids(peers.take(i as int)) =~= peer_ids(peers).take(i as int));
                assert(peers.take(i + 1).drop_last() =~= peers.take(i as int));
                assert(peers.take(i + 1).last() == (id, misses));
                assert(pings(peer_ids(peers).take(i + 1), peer_target()) =~= pings(
                    peer_ids(peers).take(i as int),
                    peer_target(),
                ).push(HeartbeatAction::Ping(PingTarget::Peer(id))));
                assert(!peer_ids(peers.take(i as int)).contains(id)) by {
                    if peer_ids(peers.take(i as int)).contains(id) {
                        let j = choose|j: int| 0 <= j < i && #[trigger] peer_ids(peers.take(i as int))[j] == id;
                        assert(peer_ids(peers)[j] == peer_ids(peers)[i as int]);
                    }
                }
            }
            let b = if misses == u32::MAX {
                misses
            } else {
                misses + 1
            };
            let ghost k0 = kept@;
            if b >= self.hb_misses_allowed {
                down.push(HeartbeatAction::PeerDown(id));
            } else {
                kept.push((id, b));
                proof {
                    assert(peer_ids(kept@) =~= peer_ids(k0).push(id));
                    assert(!peer_ids(k0).contains(id));
                }
            }
            proof {
                assert forall|x: u32| peer_ids(kept@).contains(x) implies peer_ids(peers.take(i + 1)).contains(x) by {
                    let j = choose|j: int| 0 <= j < peer_ids(kept@).len() && #[trigger] peer_ids(kept@)[j] == x;
                    if j < k0.len() {
                        assert(peer_ids(k0)[j] == x);
                        assert(peer_ids(k0).contains(x));
                        assert(peer_ids(peers.take(i as int)).contains(x));
                        let t = choose|t: int| 0 <= t < i && #[trigger] peer_ids(peers.take(i as int))[t] == x;
                        assert(peer_ids(peers.take(i + 1))[t] == x);
                    } else {
                        assert(peer_ids(peers.take(i + 1))[i as int] == x);
                    }
                }
            }
            i = i + 1;
        }
        proof {
            assert(peers.take(i as int) =~= peers);
            assert(peer_ids(peers).take(i as int) =~= peer_ids(peers));
        }
        out.append(&mut down);
        self.peers = kept;
        out
    }

    /// A heartbeat from node `from`: a tracked node's misses go back to zero;
    /// an untracked one is reported; this node's own heartbeats are ignored.
    pub fn heartbeat_received(&mut self, from: u32) -> (r: Option<HeartbeatAction>)
        requires
            heartbeat_wf(old(self)@),
        ensures
            heartbeat_wf(final(self)@),
            from == old(self)@.id ==> r is None && final(self)@ == old(self)@,
            from != old(self)@.id && peer_ids(old(self)@.peers).contains(from) ==> r is None && exists|i: int|
                0 <= i < old(self)@.peers.len() && old(self)@.peers[i].0 == from && final(self)@ == (HeartbeatView {
                    peers: old(self)@.peers.update(i, (from, 0)),
                    ..old(self)@
                }),
            from != old(self)@.id && !peer_ids(old(self)@.peers).contains(from) ==> r == Some(HeartbeatAction::NewPeerDetected(from))
                && final(self)@ == old(self)@,
    {
        if from == self.id {
            return None;
        }
        let found = find_peer(&self.peers, from);
        match found {
            Some(i) => {
                let ghost before = self.peers@;
                assert(peer_ids(before)[i as int] == from);
                self.peers.set(i, (from, 0));
                proof {
                    assert(peer_ids(self.peers@) =~= peer_ids(before));
                }
                None
            },
            None => {
                Some(HeartbeatAction::NewPeerDetected(from))
            },
        }
    }

    /// Starts tracking a node: a node of the cluster (never this one) starts
    /// with no misses, and is reset if already tracked; a station or proxy is
    /// added once.
    pub fn track(&mut self, msg: HBTrack)
        requires
            heartbeat_wf(old(self)@),
        ensures
            heartbeat_wf(final(self)@),
            match msg.role {
                Role::Internode => if msg.id == old(self)@.id {
                    final(self)@ == old(self)@
                } else if peer_ids(old(self)@.peers).contains(msg.id) {
                    exists|i: int|
                        0 <= i < old(self)@.peers.len() && old(self)@.peers[i].0 == msg.id && final(self)@ == (HeartbeatView {
                            peers: old(self)@.peers.update(i, (msg.id, 0)),
                            ..old(self)@
                        })
                } else {
                    final(self)@ == (HeartbeatView { peers: old(self)@.peers.push((msg.id, 0)), ..old(self)@ })
                },
                Role::Station => final(self)@ == (HeartbeatView {
                    stations: if old(self)@.stations.contains(msg.id) {
                        old(self)@.stations
                    } else {
                        old(self)@.stations.push(msg.id)
                    },
                    ..old(self)@
                }),
                Role::Proxy => final(self)@ == (HeartbeatView {
                    proxies: if old(self)@.proxies.contains(msg.id) {
                        old(self)@.proxies
                    } else {
                        old(self)@.proxies.push(msg.id)
                    },
                    ..old(self)@
                }),
            },
    {
        match msg.role {
            Role::Internode => {
                if msg.id == self.id {
                    return;
                }
                let found = find_peer(&self.peers, msg.id);
                match found {
                    Some(i) => {
                        let ghost before = self.peers@;
                        assert(peer_ids(before)[i as int] == msg.id);
                        self.peers.set(i, (msg.id, 0));
                        assert(peer_ids(self.peers@) =~= peer_ids(before));
                    },
                    None => {
                        let ghost before = self.peers@;
                        self.peers.push((msg.id, 0));
                        assert(peer_ids(self.peers@) =~= peer_ids(before).push(msg.id));
                    },
                }
            },
            Role::Station => {
                if !contains_id(&self.stations, msg.id) {
                    self.stations.push(msg.id);
                }
            },
            Role::Proxy => {
                if !contains_id(&self.proxies, msg.id) {
                    self.proxies.push(msg.id);
                }
            },
        }
    }

    /// Stops tracking node `msg.id`.
    pub fn untrack(&mut self, msg: HBUntrack)
        requires
            heartbeat_wf(old(self)@),
        ensures
            heartbeat_wf(final(self)@),
            !peer_ids(final(self)@.peers).contains(msg.id),
            final(self)@ == (HeartbeatView { peers: final(self)@.peers, ..old(self)@ }),
            forall|x: u32| x != msg.id ==> (peer_ids(final(self)@.peers).contains(x) <==> peer_ids(old(self)@.peers).contains(x)),
            forall|i: int| 0 <= i < final(self)@.peers.len() ==> old(self)@.peers.contains(#[trigger] final(self)@.peers[i]),
    {
        match find_peer(&self.peers, msg.id) {
            Some(i) => {
                let ghost before = self.peers@;
                let _ = self.peers.remove(i);
                proof {
                    assert(peer_ids(self.peers@) =~= peer_ids(before).remove(i as int));
                    assert forall|x: u32| x != msg.id implies (peer_ids(self.peers@).contains(x) <==> peer_ids(before).contains(x)) by {
                        if peer_ids(before).contains(x) {
                            let j = choose|j: int| 0 <= j < peer_ids(before).len() && #[trigger] peer_ids(before)[j] == x;
                            if j < i {
                                assert(peer_ids(self.peers@)[j] == x);
                            } else {
                                assert(j != i);
                                assert(peer_ids(self.peers@)[j - 1] == x);
                            }
                        }
                        if peer_ids(self.peers@).contains(x) {
                            let j = choose|j: int| 0 <= j < peer_ids(self.peers@).len() && #[trigger] peer_ids(self.peers@)[j] == x;
                            if j < i {
                                assert(peer_ids(before)[j] == x);
                            } else {
                                assert(peer_ids(before)[j + 1] == x);
                            }
                        }
                    }
                    assert(!peer_ids(self.peers@).contains(msg.id)) by {
                        if peer_ids(self.peers@).contains(msg.id) {
                            let j = choose|j: int| 0 <= j < peer_ids(self.peers@).len() && #[trigger] peer_ids(self.peers@)[j] == msg.id;
                            if j < i {
                                assert(peer_ids(before)[j] == peer_ids(before)[i as int]);
                            } else {
                                assert(peer_ids(before)[j + 1] == peer_ids(before)[i as int]);
                            }
                        }
                    }
                    assert forall|k: int| 0 <= k < self.peers@.len() implies before.contains(#[trigger] self.peers@[k]) by {
                        if k < i {
                            assert(before[k] == self.peers@[k]);
                        } else {
                            assert(before[k + 1] == self.peers@[k]);
                        }
                    }
                }
            },
            None => {
                proof {
                    assert forall|k: int| 0 <= k < self.peers@.len() implies old(self)@.peers.contains(#[trigger] self.peers@[k]) by {
                        assert(old(self)@.peers[k] == self.peers@[k]);
                    }
                }
            },
        }
    }
}

/// After a heartbeat period every node still tracked is under the allowed
/// misses, a tracked node is reported down exactly when one more miss brings
/// it to the allowed misses, and every other tracked node stays tracked with
/// one more miss.
pub proof fn law_tick_drops_exhausted(p: Seq<(u32, u32)>, allowed: u32)
    requires
        peer_ids(p).no_duplicates(),
    ensures
        forall|i: int| 0 <= i < survivors(p, allowed).len() ==> (#[trigger] survivors(p, allowed)[i]).1 < allowed,
        forall|i: int|
            0 <= i < p.len() ==> (bumped((#[trigger] p[i]).1) >= allowed <==> downs(p, allowed).contains(
                HeartbeatAction::PeerDown(p[i].0),
            )),
        forall|i: int|
            0 <= i < p.len() && bumped((#[trigger] p[i]).1) < allowed ==> survivors(p, allowed).contains(
                (p[i].0, bumped(p[i].1)),
            ),
    decreases p.len(),
{
    if p.len() > 0 {
        let q = p.drop_last();
        let last = p.last();
        assert(peer_ids(q) =~= peer_ids(p).drop_last());
        assert(peer_ids(q).no_duplicates());
        assert(!peer_ids(q).contains(last.0)) by {
            if peer_ids(q).contains(last.0) {
                let j = choose|j: int| 0 <= j < peer_ids(q).len() && #[trigger] peer_ids(q)[j] == last.0;
                assert(peer_ids(p)[j] == peer_ids(p)[p.len() - 1]);
            }
        }
        law_tick_drops_exhausted(q, allowed);
        let r = survivors(q, allowed);
        let d = downs(q, allowed);
        assert forall|i: int| 0 <= i < survivors(p, allowed).len() implies (#[trigger] survivors(p, allowed)[i]).1 < allowed by {
            if i < r.len() {
                assert(survivors(p, allowed)[i] == r[i]);
            }
        }
        assert forall|i: int| 0 <= i < p.len() && bumped((#[trigger] p[i]).1) < allowed implies survivors(p, allowed).contains(
            (p[i].0, bumped(p[i].1)),
        ) by {
            if i < q.len() {
                assert(q[i] == p[i]);
                let j = choose|j: int| 0 <= j < r.len() && #[trigger] r[j] == (q[i].0, bumped(q[i].1));
                assert(survivors(p, allowed)[j] == r[j]);
            } else {
                assert(survivors(p, allowed).last() == (p[i].0, bumped(p[i].1)));
            }
        }
        assert forall|i: int|
            0 <= i < p.len() implies (bumped((#[trigger] p[i]).1) >= allowed <==> downs(p, allowed).contains(
                HeartbeatAction::PeerDown(p[i].0),
            )) by {
            if i < q.len() {
                assert(q[i] == p[i]);
                assert(p[i].0 != last.0) by {
                    assert(peer_ids(p)[i] == p[i].0);
                    assert(peer_ids(p)[p.len() - 1] == last.0);
                }
                if bumped(last.1) >= allowed {
                    assert(downs(p, allowed) == d.push(HeartbeatAction::PeerDown(last.0)));
                    if downs(p, allowed).contains(HeartbeatAction::PeerDown(p[i].0)) {
                        let j = choose|j: int| 0 <= j < downs(p, allowed).len() && #[trigger] downs(p, allowed)[j] == HeartbeatAction::PeerDown(p[i].0);
                        if j < d.len() {
                            assert(d[j] == downs(p, allowed)[j]);
                            assert(d.contains(HeartbeatAction::PeerDown(p[i].0)));
                        }
                    }
                    if d.contains(HeartbeatAction::PeerDown(p[i].0)) {
                        let j = choose|j: int| 0 <= j < d.len() && #[trigger] d[j] == HeartbeatAction::PeerDown(p[i].0);
                        assert(downs(p, allowed)[j] == d[j]);
                    }
                }
            } else {
                if bumped(last.1) >= allowed {
                    assert(downs(p, allowed).last() == HeartbeatAction::PeerDown(last.0));
                } else {
                    assert(downs(p, allowed) == d);
                    lemma_downs_from(q, allowed, last.0);
                }
            }
        }
    }
}

/// Every node reported down was tracked.
proof fn lemma_downs_from(p: Seq<(u32, u32)>, allowed: u32, x: u32)
    requires
        !peer_ids(p).contains(x),
    ensures
        !downs(p, allowed).contains(HeartbeatAction::PeerDown(x)),
    decreases p.len(),
{
    if p.len() > 0 {
        let q = p.drop_last();
        assert(peer_ids(q) =~= peer_ids(p).drop_last());
        assert(!peer_ids(q).contains(x)) by {
            if peer_ids(q).contains(x) {
                let j = choose|j: int| 0 <= j < peer_ids(q).len() && #[trigger] peer_ids(q)[j] == x;
                assert(peer_ids(p)[j] == x);
            }
        }
        lemma_downs_from(q, allowed, x);
        assert(peer_ids(p)[p.len() - 1] == p.last().0);
        if downs(p, allowed).contains(HeartbeatAction::PeerDown(x)) {
            let j = choose|j: int| 0 <= j < downs(p, allowed).len() && #[trigger] downs(p, allowed)[j] == HeartbeatAction::PeerDown(x);
            if j < downs(q, allowed).len() {
                assert(downs(q, allowed)[j] == downs(p, allowed)[j]);
            }
        }
    }
}

/// A node whose heartbeat arrived just before a period survives it when
/// more than one miss is allowed.
pub proof fn law_heartbeat_keeps_alive(p: Seq<(u32, u32)>, i: int, allowed: u32)
    requires
        0 <= i < p.len(),
        allowed > 1,
        peer_ids(p).no_duplicates(),
    ensures
        survivors(p.update(i, (p[i].0, 0)), allowed).contains((p[i].0, 1)),
{
    let q = p.update(i, (p[i].0, 0));
    assert(peer_ids(q) =~= peer_ids(p));
    law_tick_drops_exhausted(q, allowed);
    assert(q[i] == (p[i].0, 0u32));
    assert(bumped(0) == 1);
}


/// The failure detector after `n` periods in which no heartbeat arrives
/// and nothing is tracked or untracked.
pub open spec fn after_ticks(v: HeartbeatView, n: nat) -> HeartbeatView
    decreases n,
{
    if n == 0 {
        v
    } else {
        tick_step(after_ticks(v, (n - 1) as nat)).0
    }
}

/// What the `n`-th of those periods asks (counting from 1).
pub open spec fn actions_of_tick(v: HeartbeatView, n: nat) -> Seq<HeartbeatAction> {
    tick_step(after_ticks(v, (n - 1) as nat)).1
}

proof fn lemma_pings_no_down(ids: Seq<u32>, kind: spec_fn(u32) -> PingTarget, y: u32)
    ensures
        !pings(ids, kind).contains(HeartbeatAction::PeerDown(y)),
{
    if pings(ids, kind).contains(HeartbeatAction::PeerDown(y)) {
        let j = choose|j: int| 0 <= j < pings(ids, kind).len() && pings(ids, kind)[j] == HeartbeatAction::PeerDown(y);
        assert(pings(ids, kind)[j] == HeartbeatAction::Ping(kind(ids[j])));
    }
}

proof fn lemma_concat_contains<A>(a: Seq<A>, b: Seq<A>, x: A)
    ensures
        (a + b).contains(x) <==> (a.contains(x) || b.contains(x)),
{
    if (a + b).contains(x) {
        let j = choose|j: int| 0 <= j < (a + b).len() && (a + b)[j] == x;
        if j < a.len() {
            assert(a[j] == x);
        } else {
            assert(b[j - a.len()] == x);
        }
    }
    if a.contains(x) {
        let j = choose|j: int| 0 <= j < a.len() && a[j] == x;
        assert((a + b)[j] == x);
    }
    if b.contains(x) {
        let j = choose|j: int| 0 <= j < b.len() && b[j] == x;
        assert((a + b)[j + a.len()] == x);
    }
}

/// A period reports a node down exactly when its misses run out then.
proof fn lemma_tick_downs(v: HeartbeatView, y: u32)
    ensures
        tick_step(v).1.contains(HeartbeatAction::PeerDown(y)) <==> downs(v.peers, v.hb_misses_allowed).contains(
            HeartbeatAction::PeerDown(y),
        ),
{
    let x = HeartbeatAction::PeerDown(y);
    let d = discovery_step(v).1;
    let a = pings(v.proxies, proxy_target());
    let b = pings(v.stations, station_target());
    let c = pings(peer_ids(v.peers), peer_target());
    lemma_pings_no_down(v.seed_peers, seed_target(), y);
    lemma_pings_no_down(v.stations, station_target(), y);
    lemma_pings_no_down(v.proxies, proxy_target(), y);
    lemma_pings_no_down(peer_ids(v.peers), peer_target(), y);
    lemma_concat_contains(pings(v.seed_peers, seed_target()), pings(v.stations, station_target()), x);
    assert(!d.contains(x));
    lemma_concat_contains(d, a, x);
    lemma_concat_contains(d + a, b, x);
    lemma_concat_contains(d + a + b, c, x);
    lemma_concat_contains(d + a + b + c, downs(v.peers, v.hb_misses_allowed), x);
}

/// The nodes kept by a period are nodes tracked before it, each once, with
/// one more miss.
proof fn lemma_survivors(p: Seq<(u32, u32)>, allowed: u32)
    requires
        peer_ids(p).no_duplicates(),
    ensures
        peer_ids(survivors(p, allowed)).no_duplicates(),
        forall|y: u32| peer_ids(survivors(p, allowed)).contains(y) ==> peer_ids(p).contains(y),
    decreases p.len(),
{
    if p.len() > 0 {
        let q = p.drop_last();
        assert(peer_ids(q) =~= peer_ids(p).drop_last());
        lemma_survivors(q, allowed);
        let r = survivors(q, allowed);
        let last = p.last();
        assert(peer_ids(p)[p.len() - 1] == last.0);
        assert forall|y: u32| peer_ids(q).contains(y) implies peer_ids(p).contains(y) by {
            let j = choose|j: int| 0 <= j < peer_ids(q).len() && peer_ids(q)[j] == y;
            assert(peer_ids(p)[j] == y);
        }
        if bumped(last.1) < allowed {
            let r2 = r.push((last.0, bumped(last.1)));
            assert(peer_ids(r2) =~= peer_ids(r).push(last.0));
            assert(!peer_ids(r).contains(last.0)) by {
                if peer_ids(r).contains(last.0) {
                    assert(peer_ids(q).contains(last.0));
                    let j = choose|j: int| 0 <= j < peer_ids(q).len() && peer_ids(q)[j] == last.0;
                    assert(peer_ids(p)[j] == peer_ids(p)[p.len() - 1]);
                }
            }
            assert forall|y: u32| peer_ids(r2).contains(y) implies peer_ids(p).contains(y) by {
                let j = choose|j: int| 0 <= j < peer_ids(r2).len() && peer_ids(r2)[j] == y;
                if j < peer_ids(r).len() {
                    assert(peer_ids(r)[j] == y);
                }
            }
        }
    }
}

/// A tracked node that is not heard from stays tracked, one more miss each
/// period, until its misses run out: with `m` misses and `k` allowed, it is
/// still tracked after each of the first `k - m - 1` periods, period `k - m`
/// reports it down and drops it, no earlier period reports it, and no later
/// one does either.
pub proof fn law_silent_node_dropped_once(v: HeartbeatView, i: int)
    requires
        heartbeat_wf(v),
        0 <= i < v.peers.len(),
        v.peers[i].1 < v.hb_misses_allowed,
    ensures
        ({
            let p = v.peers[i].0;
            let m = v.peers[i].1;
            let n = (v.hb_misses_allowed - m) as nat;
            &&& forall|t: nat| t < n ==> #[trigger] after_ticks(v, t).peers.contains((p, (m + t) as u32))
            &&& actions_of_tick(v, n).contains(HeartbeatAction::PeerDown(p))
            &&& !peer_ids(after_ticks(v, n).peers).contains(p)
            &&& forall|t: nat| 1 <= t && t != n ==> !(#[trigger] actions_of_tick(v, t)).contains(HeartbeatAction::PeerDown(p))
        }),
{
    let p = v.peers[i].0;
    let m = v.peers[i].1;
    let k = v.hb_misses_allowed;
    let n = (k - m) as nat;
    assert(peer_ids(v.peers)[i] == p);
    // Along the way: the state keeps its allowed misses and distinct ids.
    assert forall|t: nat| #[trigger] after_ticks(v, t).hb_misses_allowed == k && peer_ids(after_ticks(v, t).peers).no_duplicates() by {
        lemma_after_ticks_wf(v, t);
    }
    // Tracked with m + t misses for t < n.
    assert forall|t: nat| t < n implies #[trigger] after_ticks(v, t).peers.contains((p, (m + t) as u32)) by {
        lemma_tracked_until(v, i, t);
    }
    // The periods before n do not report p.
    assert forall|t: nat| 1 <= t < n implies !(#[trigger] actions_of_tick(v, t)).contains(HeartbeatAction::PeerDown(p)) by {
        let w = after_ticks(v, (t - 1) as nat);
        lemma_tracked_until(v, i, (t - 1) as nat);
        let j = choose|j: int| 0 <= j < w.peers.len() && w.peers[j] == (p, (m + t - 1) as u32);
        lemma_after_ticks_wf(v, (t - 1) as nat);
        law_tick_drops_exhausted(w.peers, k);
        assert(w.peers[j].0 == p);
        assert(bumped(w.peers[j].1) == m + t);
        lemma_tick_downs(w, p);
    }
    // Period n reports p and drops it.
    let w = after_ticks(v, (n - 1) as nat);
    lemma_tracked_until(v, i, (n - 1) as nat);
    lemma_after_ticks_wf(v, (n - 1) as nat);
    let j = choose|j: int| 0 <= j < w.peers.len() && w.peers[j] == (p, (m + n - 1) as u32);
    law_tick_drops_exhausted(w.peers, k);
    assert(w.peers[j].0 == p);
    assert(bumped(w.peers[j].1) == k);
    lemma_tick_downs(w, p);
    assert(after_ticks(v, n) == tick_step(w).0);
    assert(!peer_ids(after_ticks(v, n).peers).contains(p)) by {
        lemma_survivors(w.peers, k);
        if peer_ids(survivors(w.peers, k)).contains(p) {
            lemma_survivor_entry(w.peers, k, p);
            let a = choose|a: int| 0 <= a < w.peers.len() && w.peers[a].0 == p && bumped(w.peers[a].1) < k;
            assert(peer_ids(w.peers)[a] == peer_ids(w.peers)[j]);
        }
    }
    // Later periods do not report p: it is never tracked again.
    assert forall|t: nat| t > n implies !(#[trigger] actions_of_tick(v, t)).contains(HeartbeatAction::PeerDown(p)) by {
        lemma_stays_untracked(v, n, (t - 1) as nat, p);
        let u = after_ticks(v, (t - 1) as nat);
        lemma_downs_from(u.peers, k, p);
        lemma_after_ticks_wf(v, (t - 1) as nat);
        lemma_tick_downs(u, p);
    }
}

proof fn lemma_after_ticks_wf(v: HeartbeatView, t: nat)
    requires
        heartbeat_wf(v),
    ensures
        after_ticks(v, t).hb_misses_allowed == v.hb_misses_allowed,
        peer_ids(after_ticks(v, t).peers).no_duplicates(),
    decreases t,
{
    if t > 0 {
        lemma_after_ticks_wf(v, (t - 1) as nat);
        lemma_survivors(after_ticks(v, (t - 1) as nat).peers, v.hb_misses_allowed);
    }
}

proof fn lemma_tracked_until(v: HeartbeatView, i: int, t: nat)
    requires
        heartbeat_wf(v),
        0 <= i < v.peers.len(),
        v.peers[i].1 + t < v.hb_misses_allowed,
    ensures
        after_ticks(v, t).peers.contains((v.peers[i].0, (v.peers[i].1 + t) as u32)),
    decreases t,
{
    if t == 0 {
        assert(v.peers[i] == (v.peers[i].0, (v.peers[i].1 + 0) as u32));
    } else {
        lemma_tracked_until(v, i, (t - 1) as nat);
        let w = after_ticks(v, (t - 1) as nat);
        lemma_after_ticks_wf(v, (t - 1) as nat);
        let j = choose|j: int| 0 <= j < w.peers.len() && w.peers[j] == (v.peers[i].0, (v.peers[i].1 + t - 1) as u32);
        law_tick_drops_exhausted(w.peers, v.hb_misses_allowed);
        assert(bumped(w.peers[j].1) == v.peers[i].1 + t);
    }
}

proof fn lemma_survivor_entry(p: Seq<(u32, u32)>, allowed: u32, y: u32)
    requires
        peer_ids(survivors(p, allowed)).contains(y),
    ensures
        exists|a: int| 0 <= a < p.len() && p[a].0 == y && bumped(p[a].1) < allowed,
    decreases p.len(),
{
    if p.len() > 0 {
        let q = p.drop_last();
        let r = survivors(q, allowed);
        let last = p.last();
        if bumped(last.1) < allowed && last.0 == y {
            assert(p[p.len() - 1] == last);
        } else {
            if bumped(last.1) < allowed {
                let r2 = r.push((last.0, bumped(last.1)));
                assert(peer_ids(r2) =~= peer_ids(r).push(last.0));
                let j = choose|j: int| 0 <= j < peer_ids(r2).len() && peer_ids(r2)[j] == y;
                assert(j < peer_ids(r).len());
                assert(peer_ids(r)[j] == y);
            }
            lemma_survivor_entry(q, allowed, y);
            let a = choose|a: int| 0 <= a < q.len() && q[a].0 == y && bumped(q[a].1) < allowed;
            assert(p[a] == q[a]);
        }
    }
}

proof fn lemma_stays_untracked(v: HeartbeatView, n: nat, t: nat, y: u32)
    requires
        heartbeat_wf(v),
        n <= t,
        !peer_ids(after_ticks(v, n).peers).contains(y),
    ensures
        !peer_ids(after_ticks(v, t).peers).contains(y),
    decreases t - n,
{
    if t > n {
        lemma_stays_untracked(v, n, (t - 1) as nat, y);
        lemma_after_ticks_wf(v, (t - 1) as nat);
        lemma_survivors(after_ticks(v, (t - 1) as nat).peers, v.hb_misses_allowed);
    }
}

} // verus!
