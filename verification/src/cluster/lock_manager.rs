//! The leader's per-enterprise locks: a queue of transactions waiting for
//! each enterprise, and the transaction that holds each lock.
use vstd::prelude::*;
use std::collections::{HashMap, VecDeque};

verus! {

broadcast use {vstd::std_specs::hash::group_hash_axioms, vstd::std_specs::vecdeque::group_vec_dequeue_axioms};

/// A transaction waiting for the lock of an enterprise. `owner` is where
/// the grant is sent; `None` means this node itself.
#[derive(Debug, Clone)]
pub struct Pending<O> {
    pub owner: Option<O>,
    pub owner_id: u32,
    pub transaction_id: String,
    pub enterprise_id: u32,
    pub got_lock: bool,
}

/// The state of the locks as mathematical values.
pub struct LockView<O> {
    /// The waiting transactions of each enterprise, oldest first.
    pub pendings: Map<u32, Seq<Pending<O>>>,
    /// The enterprises that have a queue, in the order their queues were made.
    pub order: Seq<u32>,
    /// The transaction that holds each enterprise's lock.
    pub current: Map<u32, Seq<char>>,
}

/// The locks of the enterprises.
pub struct LockManager<O> {
    pendings: HashMap<u32, VecDeque<Pending<O>>>,
    order: Vec<u32>,
    current_transactions: HashMap<u32, String>,
}

impl<O> View for LockManager<O> {
    type V = LockView<O>;

    closed spec fn view(&self) -> LockView<O> {
        LockView {
            pendings: self.pendings@.map_values(|q: VecDeque<Pending<O>>| q@),
            order: self.order@,
            current: self.current_transactions@.map_values(|t: String| t@),
        }
    }
}

/// `q` without the transactions of `peer_id`.
pub open spec fn without_owner<O>(q: Seq<Pending<O>>, peer_id: u32) -> Seq<Pending<O>>
    decreases q.len(),
{
    if q.len() == 0 {
        q
    } else {
        let r = without_owner(q.drop_last(), peer_id);
        if q.last().owner_id != peer_id {
            r.push(q.last())
        } else {
            r
        }
    }
}

/// The front of `e`'s queue was granted to `peer_id`.
pub open spec fn granted_to<O>(v: LockView<O>, e: u32, peer_id: u32) -> bool {
    &&& v.pendings.contains_key(e)
    &&& v.pendings[e].len() > 0
    &&& v.pendings[e][0].got_lock
    &&& v.pendings[e][0].owner_id == peer_id
}

impl<O> LockManager<O> {
    /// The order lists each enterprise with a queue once.
    pub closed spec fn wf(&self) -> bool {
        &&& self.order@.no_duplicates()
        &&& self.order@.to_set() == self.pendings@.dom()
    }

    /// No queue and no lock.
    pub fn new() -> (r: Self)
        ensures
            r.wf(),
            r@.pendings == Map::<u32, Seq<Pending<O>>>::empty(),
            r@.order == Seq::<u32>::empty(),
            r@.current == Map::<u32, Seq<char>>::empty(),
    {
        let r = Self { pendings: HashMap::new(), order: Vec::new(), current_transactions: HashMap::new() };
        assert(r@.pendings =~= Map::empty());
        assert(r@.current =~= Map::empty());
        assert(r.order@.to_set() =~= Set::empty());
        r
    }

    /// Queues `pending` behind the transactions already waiting for the
    /// lock of `enterprise_id`.
    pub fn add_pending(&mut self, enterprise_id: u32, pending: Pending<O>)
        requires
            old(self).wf(),
        ensures
            final(self).wf(),
            final(self)@.current == old(self)@.current,
            final(self)@.pendings == old(self)@.pendings.insert(
                enterprise_id,
                if old(self)@.pendings.contains_key(enterprise_id) {
                    old(self)@.pendings[enterprise_id].push(pending)
                } else {
                    seq![pending]
                },
            ),
            old(self)@.pendings.contains_key(enterprise_id) ==> final(self)@.order == old(self)@.order,
            !old(self)@.pendings.contains_key(enterprise_id) ==> final(self)@.order == old(self)@.order.push(enterprise_id),
    {
        let ghost before = self.pendings@;
        match self.pendings.remove(&enterprise_id) {
            Some(mut q) => {
                q.push_back(pending);
                self.pendings.insert(enterprise_id, q);
                assert(self.pendings@ =~= before.insert(enterprise_id, q));
                assert(self@.pendings =~= before.map_values(|q: VecDeque<Pending<O>>| q@).insert(enterprise_id, q@));
            },
            None => {
                let mut q = VecDeque::new();
                q.push_back(pending);
                self.pendings.insert(enterprise_id, q);
                let ghost old_order = self.order@;
                self.order.push(enterprise_id);
                proof {
                    assert(self@.pendings =~= before.map_values(|q: VecDeque<Pending<O>>| q@).insert(enterprise_id, q@));
                    assert(q@ =~= seq![pending]);
                    crate::shard_processor::lemma_push_to_set(old_order, enterprise_id);
                    assert(self.order@.to_set() =~= self.pendings@.dom());
                    assert(!old_order.contains(enterprise_id)) by {
                        if old_order.contains(enterprise_id) {
                            assert(old_order.to_set().contains(enterprise_id));
                        }
                    }
                }
            },
        }
    }

    /// Whether `enterprise_id` has a queue (possibly empty).
    pub fn has_pending(&self, enterprise_id: &u32) -> (r: bool)
        ensures
            r == self@.pendings.contains_key(*enterprise_id),
    {
        self.pendings.contains_key(enterprise_id)
    }

    /// Removes and returns the oldest waiting transaction of `enterprise_id`.
    pub fn pop_pending(&mut self, enterprise_id: &u32) -> (r: Option<Pending<O>>)
        requires
            old(self).wf(),
        ensures
            final(self).wf(),
            final(self)@.current == old(self)@.current,
            final(self)@.order == old(self)@.order,
            if old(self)@.pendings.contains_key(*enterprise_id) && old(self)@.pendings[*enterprise_id].len() > 0 {
                &&& r == Some(old(self)@.pendings[*enterprise_id][0])
                &&& final(self)@.pendings == old(self)@.pendings.insert(
                    *enterprise_id,
                    old(self)@.pendings[*enterprise_id].drop_first(),
                )
            } else {
                r is None && final(self)@.pendings == old(self)@.pendings
            },
    {
        let ghost before = self.pendings@;
        match self.pendings.remove(enterprise_id) {
            Some(mut q) => {
                let r = q.pop_front();
                self.pendings.insert(*enterprise_id, q);
                proof {
                    assert(self@.pendings =~= before.map_values(|q: VecDeque<Pending<O>>| q@).insert(*enterprise_id, q@));
                    if r is None {
                        assert(self@.pendings =~= before.map_values(|q: VecDeque<Pending<O>>| q@));
                    }
                    assert(self.pendings@.dom() =~= before.dom());
                }
                r
            },
            None => {
                assert(self.pendings@ =~= before);
                None
            },
        }
    }

    /// The oldest waiting transaction of `enterprise_id`.
    pub fn peek_pending(&self, enterprise_id: &u32) -> (r: Option<&Pending<O>>)
        ensures
            if self@.pendings.contains_key(*enterprise_id) && self@.pendings[*enterprise_id].len() > 0 {
                r == Some(&self@.pendings[*enterprise_id][0])
            } else {
                r is None
            },
    {
        match self.pendings.get(enterprise_id) {
            Some(q) => if q.len() > 0 {
                Some(&q[0])
            } else {
                None
            },
            None => None,
        }
    }

    /// Marks the oldest waiting transaction of `enterprise_id` as granted;
    /// `true` when there was one that had not been granted yet.
    pub fn grant_front(&mut self, enterprise_id: &u32) -> (r: bool)
        requires
            old(self).wf(),
        ensures
            final(self).wf(),
            final(self)@.current == old(self)@.current,
            final(self)@.order == old(self)@.order,
            r == (old(self)@.pendings.contains_key(*enterprise_id) && old(self)@.pendings[*enterprise_id].len() > 0
                && !old(self)@.pendings[*enterprise_id][0].got_lock),
            r ==> final(self)@.pendings == old(self)@.pendings.insert(
                *enterprise_id,
                old(self)@.pendings[*enterprise_id].update(
                    0,
                    Pending { got_lock: true, ..old(self)@.pendings[*enterprise_id][0] },
                ),
            ),
            !r ==> final(self)@.pendings == old(self)@.pendings,
    {
        let ghost before = self.pendings@;
        match self.pendings.remove(enterprise_id) {
            Some(mut q) => {
                let granted = q.len() > 0 && !q[0].got_lock;
                if granted {
                    let ghost q0 = q@;
                    match q.pop_front() {
                        Some(mut front) => {
                            front.got_lock = true;
                            q.push_front(front);
                            assert(q@ =~= q0.update(0, Pending { got_lock: true, ..q0[0] }));
                        },
                        None => {},
                    }
                }
                self.pendings.insert(*enterprise_id, q);
                proof {
                    assert(self@.pendings =~= before.map_values(|q: VecDeque<Pending<O>>| q@).insert(*enterprise_id, q@));
                    if !granted {
                        assert(self@.pendings =~= before.map_values(|q: VecDeque<Pending<O>>| q@));
                    }
                    assert(self.pendings@.dom() =~= before.dom());
                }
                granted
            },
            None => {
                assert(self.pendings@ =~= before);
                false
            },
        }
    }

    /// Removes the oldest waiting transaction of `enterprise_id` when it is
    /// `transaction_id`; `true` when it was.
    pub fn release_front(&mut self, enterprise_id: &u32, transaction_id: &String) -> (r: bool)
        requires
            old(self).wf(),
        ensures
            final(self).wf(),
            final(self)@.current == old(self)@.current,
            final(self)@.order == old(self)@.order,
            r == (old(self)@.pendings.contains_key(*enterprise_id) && old(self)@.pendings[*enterprise_id].len() > 0
                && old(self)@.pendings[*enterprise_id][0].transaction_id@ == transaction_id@),
            r ==> final(self)@.pendings == old(self)@.pendings.insert(
                *enterprise_id,
                old(self)@.pendings[*enterprise_id].drop_first(),
            ),
            !r ==> final(self)@.pendings == old(self)@.pendings,
    {
        let matches = match self.peek_pending(enterprise_id) {
            Some(p) => p.transaction_id == *transaction_id,
            None => false,
        };
        if matches {
            let _ = self.pop_pending(enterprise_id);
        }
        matches
    }

    /// Whether a transaction holds the lock of `enterprise_id`.
    pub fn is_locked(&self, enterprise_id: &u32) -> (r: bool)
        ensures
            r == self@.current.contains_key(*enterprise_id),
    {
        self.current_transactions.contains_key(enterprise_id)
    }

    /// Gives the lock of `enterprise_id` to `transaction_id`.
    pub fn grant_lock(&mut self, enterprise_id: u32, transaction_id: String)
        requires
            old(self).wf(),
        ensures
            final(self).wf(),
            final(self)@.pendings == old(self)@.pendings,
            final(self)@.order == old(self)@.order,
            final(self)@.current == old(self)@.current.insert(enterprise_id, transaction_id@),
    {
        let ghost before = self.current_transactions@;
        self.current_transactions.insert(enterprise_id, transaction_id);
        assert(self@.current =~= before.map_values(|t: String| t@).insert(enterprise_id, transaction_id@));
    }

    /// Frees the lock of `enterprise_id`, returning the transaction that held it.
    pub fn release_lock(&mut self, enterprise_id: &u32) -> (r: Option<String>)
        requires
            old(self).wf(),
        ensures
            final(self).wf(),
            final(self)@.pendings == old(self)@.pendings,
            final(self)@.order == old(self)@.order,
            final(self)@.current == old(self)@.current.remove(*enterprise_id),
            old(self)@.current.contains_key(*enterprise_id) ==> (r matches Some(t) && t@ == old(self)@.current[*enterprise_id]),
            !old(self)@.current.contains_key(*enterprise_id) ==> r is None,
    {
        let ghost before = self.current_transactions@;
        let r = self.current_transactions.remove(enterprise_id);
        assert(self@.current =~= before.map_values(|t: String| t@).remove(*enterprise_id));
        r
    }

    /// Forgets every queue and every lock.
    pub fn clear(&mut self)
        ensures
            final(self).wf(),
            final(self)@.pendings == Map::<u32, Seq<Pending<O>>>::empty(),
            final(self)@.order == Seq::<u32>::empty(),
            final(self)@.current == Map::<u32, Seq<char>>::empty(),
    {
        self.current_transactions.clear();
        self.pendings.clear();
        self.order.clear();
        assert(self@.pendings =~= Map::empty());
        assert(self@.current =~= Map::empty());
        assert(self.order@.to_set() =~= Set::empty());
    }

    /// Whether `transaction_id` holds the lock of `enterprise_id`.
    pub fn is_transaction_locked(&self, enterprise_id: u32, transaction_id: &String) -> (r: bool)
        ensures
            r == (self@.current.contains_key(enterprise_id) && self@.current[enterprise_id] == transaction_id@),
    {
        match self.current_transactions.get(&enterprise_id) {
            Some(current) => *current == *transaction_id,
            None => false,
        }
    }
}

impl<O> LockManager<O> {
    /// `q` without the transactions of `peer_id`.
    fn remove_owner(q: VecDeque<Pending<O>>, peer_id: u32) -> (r: VecDeque<Pending<O>>)
        ensures
            r@ == without_owner(q@, peer_id),
    {
        let ghost qs = q@;
        let mut q = q;
        let n = q.len();
        let mut r: VecDeque<Pending<O>> = VecDeque::new();
        let mut i: usize = 0;
        while q.len() > 0
            invariant
                n == qs.len(),
                i + q@.len() == qs.len(),
                q@ == qs.subrange(i as int, qs.len() as int),
                r@ == without_owner(qs.take(i as int), peer_id),
            decreases q@.len(),
        {
            let ghost before = q@;
            match q.pop_front() {
                Some(p) => {
                    assert(p == qs[i as int]);
                    assert(qs.take(i + 1).drop_last() =~= qs.take(i as int));
                    assert(qs.take(i + 1).last() == qs[i as int]);
                    if p.owner_id != peer_id {
                        r.push_back(p);
                    }
                    i = i + 1;
                    assert(q@ =~= qs.subrange(i as int, qs.len() as int));
                },
                None => {},
            }
        }
        assert(qs.take(qs.len() as int) =~= qs);
        r
    }

    /// The enterprises whose lock was granted to `peer_id` (its transaction
    /// is at the front of their queue and was granted), and removes every
    /// transaction of `peer_id` from every queue.
    pub fn get_locks_granted_to(&mut self, peer_id: u32) -> (r: Vec<u32>)
        requires
            old(self).wf(),
        ensures
            final(self).wf(),
            final(self)@.current == old(self)@.current,
            final(self)@.order == old(self)@.order,
            final(self)@.pendings.dom() == old(self)@.pendings.dom(),
            forall|e: u32| #[trigger] final(self)@.pendings.contains_key(e) ==> final(self)@.pendings[e] == without_owner(
                old(self)@.pendings[e],
                peer_id,
            ),
            r@.no_duplicates(),
            forall|e: u32| r@.contains(e) <==> granted_to(old(self)@, e, peer_id),
    {
        let ghost old_p = self@.pendings;
        let ghost ord = self.order@;
        let mut granted: Vec<u32> = Vec::new();
        let mut k: usize = 0;
        while k < self.order.len()
            invariant
                self.wf(),
                self.order@ == ord,
                ord.no_duplicates(),
                k <= ord.len(),
                self@.current == old(self)@.current,
                old_p == old(self)@.pendings,
                ord == old(self)@.order,
                self@.pendings.dom() == old_p.dom(),
                forall|e: u32| #[trigger] self@.pendings.contains_key(e) ==> self@.pendings[e] == if ord.take(k as int).contains(e) {
                    without_owner(old_p[e], peer_id)
                } else {
                    old_p[e]
                },
                granted@.no_duplicates(),
                forall|e: u32| granted@.contains(e) <==> (ord.take(k as int).contains(e) && granted_to(old(self)@, e, peer_id)),
            decreases ord.len() - k,
        {
            let e = self.order[k];
            assert(ord.take(k + 1) =~= ord.take(k as int).push(e));
            assert(!ord.take(k as int).contains(e)) by {
                if ord.take(k as int).contains(e) {
                    let j = choose|j: int| 0 <= j < k && #[trigger] ord.take(k as int)[j] == e;
                    assert(ord[j] == ord[k as int]);
                }
            }
            assert(ord.to_set().contains(e));
            assert(self@.pendings.contains_key(e));
            assert(self@.pendings[e] == old_p[e]);
            let ghost before = self.pendings@;
            let q = match self.pendings.remove(&e) {
                Some(q) => q,
                None => {
                    assert(false);
                    VecDeque::new()
                },
            };
            assert(q@ == old_p[e]);
            if q.len() > 0 && q[0].got_lock && q[0].owner_id == peer_id {
                let ghost g0 = granted@;
                proof {
                    assert(granted_to(old(self)@, e, peer_id));
                    assert(!g0.contains(e));
                }
                granted.push(e);
                assert(granted@ =~= g0.push(e));
                proof {
                    assert(ord.take(k + 1)[k as int] == e);
                    assert forall|x: u32| granted@.contains(x) <==> (ord.take(k + 1).contains(x) && granted_to(old(self)@, x, peer_id)) by {
                        if x == e {
                            assert(granted@[g0.len() as int] == x);
                        } else {
                            if granted@.contains(x) {
                                let j = choose|j: int| 0 <= j < granted@.len() && #[trigger] granted@[j] == x;
                                assert(g0[j] == x);
                                assert(g0.contains(x));
                                let i = choose|i: int| 0 <= i < k && #[trigger] ord.take(k as int)[i] == x;
                                assert(ord.take(k + 1)[i] == x);
                            }
                            if ord.take(k + 1).contains(x) && granted_to(old(self)@, x, peer_id) {
                                assert(ord.take(k as int).contains(x)) by {
                                    let j = choose|j: int| 0 <= j < k + 1 && #[trigger] ord.take(k + 1)[j] == x;
                                    assert(ord.take(k as int)[j] == x);
                                }
                                assert(g0.contains(x));
                                let j = choose|j: int| 0 <= j < g0.len() && #[trigger] g0[j] == x;
                                assert(granted@[j] == x);
                            }
                        }
                    }
                }
            } else {
                proof {
                    assert forall|x: u32| granted@.contains(x) <==> (ord.take(k + 1).contains(x) && granted_to(old(self)@, x, peer_id)) by {
                        if ord.take(k + 1).contains(x) && x != e {
                            let j = choose|j: int| 0 <= j < k + 1 && #[trigger] ord.take(k + 1)[j] == x;
                            assert(ord.take(k as int)[j] == x);
                        }
                        if granted@.contains(x) {
                            assert(ord.take(k as int).contains(x));
                            let j = choose|j: int| 0 <= j < k && #[trigger] ord.take(k as int)[j] == x;
                            assert(ord.take(k + 1)[j] == x);
                        }
                    }
                }
            }
            let q2 = Self::remove_owner(q, peer_id);
            self.pendings.insert(e, q2);
            proof {
                assert(self.pendings@ =~= before.insert(e, q2));
                assert(self.pendings@.dom() =~= before.dom());
                assert forall|x: u32| #[trigger] self@.pendings.contains_key(x) implies self@.pendings[x] == if ord.take(k + 1).contains(x) {
                    without_owner(old_p[x], peer_id)
                } else {
                    old_p[x]
                } by {
                    if x != e {
                        assert(ord.take(k + 1).contains(x) == ord.take(k as int).contains(x)) by {
                            if ord.take(k + 1).contains(x) {
                                let j = choose|j: int| 0 <= j < k + 1 && #[trigger] ord.take(k + 1)[j] == x;
                                assert(ord.take(k as int)[j] == x);
                            }
                            if ord.take(k as int).contains(x) {
                                let j = choose|j: int| 0 <= j < k && #[trigger] ord.take(k as int)[j] == x;
                                assert(ord.take(k + 1)[j] == x);
                            }
                        }
                    } else {
                        assert(ord.take(k + 1)[k as int] == e);
                    }
                }
            }
            k = k + 1;
        }
        proof {
            assert(ord.take(k as int) =~= ord);
            assert forall|e: u32| granted_to(old(self)@, e, peer_id) implies ord.contains(e) by {
                assert(old(self).pendings@.dom().contains(e));
                assert(ord.to_set().contains(e));
            }
        }
        granted
    }
}

/// A lock given to a transaction is held by it until it is released, and
/// releasing it gives that transaction back and frees the lock.
pub proof fn law_release_returns_grant<O>(v: LockView<O>, e: u32, t: Seq<char>)
    ensures
        v.current.insert(e, t).contains_key(e),
        v.current.insert(e, t)[e] == t,
        !v.current.insert(e, t).remove(e).contains_key(e),
{
}


/// Only the oldest request of a queue can hold the grant.
pub open spec fn granted_only_at_front<O>(q: Seq<Pending<O>>) -> bool {
    forall|i: int| 0 < i < q.len() ==> !(#[trigger] q[i]).got_lock
}

proof fn lemma_without_owner_front<O>(q: Seq<Pending<O>>, peer_id: u32)
    requires
        granted_only_at_front(q),
    ensures
        granted_only_at_front(without_owner(q, peer_id)),
    decreases q.len(),
{
    if q.len() > 0 {
        let init = q.drop_last();
        assert forall|i: int| 0 < i < init.len() implies !(#[trigger] init[i]).got_lock by {
            assert(init[i] == q[i]);
        }
        lemma_without_owner_front(init, peer_id);
        let w = without_owner(init, peer_id);
        if q.last().owner_id != peer_id {
            assert forall|i: int| 0 < i < w.push(q.last()).len() implies !(#[trigger] w.push(q.last())[i]).got_lock by {
                if i < w.len() {
                    assert(w.push(q.last())[i] == w[i]);
                } else {
                    assert(q.len() - 1 > 0 || w.len() == 0);
                }
            }
        }
    }
}

/// The lock of an enterprise goes only to the oldest waiting transaction:
/// queueing a request that holds nothing, granting the front, releasing the
/// front and dropping a node's requests all leave every later request
/// without the grant.
pub proof fn law_grant_only_at_front<O>(q: Seq<Pending<O>>, p: Pending<O>, peer_id: u32)
    requires
        granted_only_at_front(q),
        !p.got_lock,
    ensures
        granted_only_at_front(q.push(p)),
        granted_only_at_front(seq![p]),
        q.len() > 0 ==> granted_only_at_front(q.update(0, Pending { got_lock: true, ..q[0] })),
        q.len() > 0 ==> granted_only_at_front(q.drop_first()),
        granted_only_at_front(without_owner(q, peer_id)),
{
    assert forall|i: int| 0 < i < q.push(p).len() implies !(#[trigger] q.push(p)[i]).got_lock by {
        if i < q.len() {
            assert(q.push(p)[i] == q[i]);
        }
    }
    if q.len() > 0 {
        let g = q.update(0, Pending { got_lock: true, ..q[0] });
        assert forall|i: int| 0 < i < g.len() implies !(#[trigger] g[i]).got_lock by {
            assert(g[i] == q[i]);
        }
    }
    if q.len() > 0 {
        assert forall|i: int| 0 < i < q.drop_first().len() implies !(#[trigger] q.drop_first()[i]).got_lock by {
            assert(q.drop_first()[i] == q[i + 1]);
        }
    }
    lemma_without_owner_front(q, peer_id);
}

} // verus!
