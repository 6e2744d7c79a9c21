//! The transactions of one node: the ids it gives them, the locks it asks
//! the leader for, and what it does once an update is decided. Each handler
//! is a transition from the node's state and a message to the new state and
//! the messages to send.
use vstd::prelude::*;
use std::collections::HashMap;
use crate::cluster::lock_manager::{LockManager, LockView, Pending};
use crate::cluster::locks::{AcquireLock, LockGranted, NextLock, ReleaseLock};
use crate::cluster::messages::{
    same_update, CardViewResponse, Create, EnterpriseViewResponse, InternodeResponse, InternodeSelect, RequestData,
    SendBroadcastOfSetOwnData, SetOwnData, Select, TransactionResponse, Update,
};
use crate::cluster::repository_manager::RepositoryFault;
use crate::cluster::transaction_decisions::{
    card_update_outcome, card_view_for_update, enterprise_update_outcome, enterprise_view_for_update,
    payment_outcome_from, payment_view,
};
use crate::cluster::registry::{as_map, keys_of, lemma_lookup_all, lookup, Registry};
use crate::cluster::transaction_with_id::{InternodeSelectWithId, SelectWithId, UpdateWithId};
use crate::text::{decimal, is_digit, lemma_decimal_digits, lemma_decimal_injective, push_decimal, push_str};

verus! {

broadcast use vstd::std_specs::hash::group_hash_axioms;

/// What a transaction does.
#[derive(Debug, Clone)]
pub enum TransactionType {
    Create(Create),
    Update(Update),
    Select(Select),
    RequestData(RequestData),
    InternodeSelect(InternodeSelect),
}

/// A transaction and the connection that asked for it.
pub struct Transaction<O> {
    pub owner: O,
    pub transaction: TransactionType,
    pub id: Option<String>,
    pub initial_leader: Option<u32>,
}

/// Data that another node sent for one of this node's transactions.
#[derive(Debug, Clone)]
pub struct TransactionResponseFromInternode {
    pub original_id: String,
    pub response: InternodeResponse,
}

/// A node's connection joined.
pub struct RegisterPeerTM<O> {
    pub id: u32,
    pub addr: O,
}

/// An update that waits for its lock or for its outcome.
pub struct PendingUpdate<O> {
    pub owner: O,
    pub update: Update,
    /// The leader when the update began, or when a new leader came.
    pub initial_leader: Option<u32>,
}

/// A message for the node's repository.
#[derive(Debug, Clone)]
pub enum ToRepository {
    Create(Create),
    SelectWithId(SelectWithId),
    InternodeSelectWithId(InternodeSelectWithId),
    UpdateWithId(UpdateWithId),
    SetOwnData(SetOwnData),
}

/// A message for another node.
#[derive(Debug, Clone)]
pub enum ToPeer {
    Create(Create),
    AcquireLock(AcquireLock),
    ReleaseLock(ReleaseLock),
    LockGranted(LockGranted),
    Broadcast(SendBroadcastOfSetOwnData),
    RequestData(RequestData),
}

/// A message that the transaction manager sends to itself.
pub enum ToSelf<O> {
    UpdateWithId(UpdateWithId),
    Pending(Pending<O>),
    NextLock(NextLock),
    LockGranted(LockGranted),
    ReleaseLock(ReleaseLock),
    Broadcast(SendBroadcastOfSetOwnData),
}

/// What the transaction manager asks the node to do.
#[allow(inconsistent_fields)]
pub enum TmAction<O> {
    Repository(ToRepository),
    /// Send to the node `peer_id`, through its connection.
    Peer { peer_id: u32, msg: ToPeer },
    /// Send to the connection that the oldest request for the lock of
    /// `enterprise_id` came on (see `requester`).
    ToRequester { enterprise_id: u32, msg: ToPeer },
    /// Send to every connected node; when `skip_self`, not to this node.
    AllPeers { skip_self: bool, msg: ToPeer },
    Myself(ToSelf<O>),
    /// Answer a transaction's owner.
    Reply { to: O, response: TransactionResponse },
    /// Pass an answer to the owner of the query `transaction_id`.
    ForwardToSelectOwner { transaction_id: String, response: InternodeResponse },
}

/// The id of an update: the update's own id, `'+'` and the update count.
pub open spec fn update_id(base: Seq<char>, n: nat) -> Seq<char> {
    base + "+"@ + decimal(n)
}

/// The id of a query of a client: `'+'` and the query count.
pub open spec fn select_id(n: nat) -> Seq<char> {
    "+"@ + decimal(n)
}

/// The id of a query asked by another node.
pub open spec fn internode_id(original: Seq<char>, n: nat) -> Seq<char> {
    original + "*internode*"@ + decimal(n)
}

/// The state of a transaction manager.
pub struct TmView<O> {
    pub id: u32,
    pub leader: Option<u32>,
    /// The owners of the queries that wait for an answer, by transaction.
    pub selects: Seq<(Seq<char>, O)>,
    /// The updates that wait for a lock or an outcome, by transaction.
    pub updates: Seq<(Seq<char>, PendingUpdate<O>)>,
    pub select_counter: u32,
    pub update_counter: u32,
    pub locks: LockView<O>,
    pub peers: Map<u32, O>,
}

/// The transactions of one node.
pub struct TransactionManager<O> {
    id: u32,
    leader: Option<u32>,
    selects: Registry<O>,
    updates: Registry<PendingUpdate<O>>,
    select_counter: u32,
    update_counter: u32,
    lock_manager: LockManager<O>,
    active_peers: HashMap<u32, O>,
}

impl<O> View for TransactionManager<O> {
    type V = TmView<O>;

    closed spec fn view(&self) -> TmView<O> {
        TmView {
            id: self.id,
            leader: self.leader,
            selects: self.selects@,
            updates: self.updates@,
            select_counter: self.select_counter,
            update_counter: self.update_counter,
            locks: self.lock_manager@,
            peers: self.active_peers@,
        }
    }
}

/// Every lock this node holds belongs to one of its waiting updates, an
/// update of that lock's enterprise.
pub open spec fn locks_held_by_updates<O>(v: TmView<O>) -> bool {
    forall|e: u32| #[trigger]
        v.locks.current.contains_key(e) ==> {
            &&& lookup(v.updates, v.locks.current[e]) is Some
            &&& lookup(v.updates, v.locks.current[e])->0.update.spec_enterprise_id() == e
        }
}

/// Every waiting update has an id that this node gave out: its count is
/// below the update count.
pub open spec fn update_ids_issued<O>(v: TmView<O>) -> bool {
    forall|i: int| 0 <= i < v.updates.len() ==> issued_id(#[trigger] keys_of(v.updates)[i], v.update_counter as nat)
}

/// `k` is the id of an update given out while the update count was below
/// `counter`.
pub open spec fn issued_id(k: Seq<char>, counter: nat) -> bool {
    exists|b: Seq<char>, n: nat| #![trigger update_id(b, n)] n < counter && k == update_id(b, n)
}

/// Two update ids with different counts differ, whatever their prefixes.
pub proof fn lemma_update_id_count(b: Seq<char>, n: nat, c: Seq<char>, m: nat)
    requires
        update_id(b, n) == update_id(c, m),
    ensures
        n == m,
{
    reveal_strlit("+");
    let s = update_id(b, n);
    let d = decimal(n);
    let e = decimal(m);
    lemma_decimal_digits(n);
    lemma_decimal_digits(m);
    assert(s == update_id(c, m));
    assert(s.len() == b.len() + 1 + d.len());
    assert(s.len() == c.len() + 1 + e.len());
    assert(s[b.len() as int] == '+');
    assert(s[c.len() as int] == '+');
    if d.len() < e.len() {
        let p = b.len() as int;
        assert(p >= c.len() + 1);
        assert(s[p] == e[p - c.len() - 1]);
        assert(is_digit(e[p - c.len() - 1]));
    } else if e.len() < d.len() {
        let p = c.len() as int;
        assert(p >= b.len() + 1);
        assert(s[p] == d[p - b.len() - 1]);
        assert(is_digit(d[p - b.len() - 1]));
    } else {
        assert(d =~= s.subrange(s.len() - d.len(), s.len() as int));
        assert(e =~= s.subrange(s.len() - e.len(), s.len() as int));
        lemma_decimal_injective(n, m);
    }
}

impl<O> TransactionManager<O> {
    /// The registries keep each transaction once, and each held lock belongs
    /// to a waiting update.
    pub closed spec fn wf(&self) -> bool {
        &&& self.selects.wf()
        &&& self.updates.wf()
        &&& self.lock_manager.wf()
        &&& locks_held_by_updates(self@)
        &&& update_ids_issued(self@)
    }

    /// A node with no transaction, no lock, no peer and no leader.
    pub fn new(id: u32) -> (r: Self)
        ensures
            r.wf(),
            r@.id == id,
            r@.leader is None,
            r@.selects == Seq::<(Seq<char>, O)>::empty(),
            r@.updates == Seq::<(Seq<char>, PendingUpdate<O>)>::empty(),
            r@.select_counter == 0,
            r@.update_counter == 0,
            r@.locks.pendings == Map::<u32, Seq<Pending<O>>>::empty(),
            r@.locks.current == Map::<u32, Seq<char>>::empty(),
            r@.locks.order == Seq::<u32>::empty(),
            r@.peers == Map::<u32, O>::empty(),
    {
        TransactionManager {
            id,
            leader: None,
            selects: Registry::new(),
            updates: Registry::new(),
            select_counter: 0,
            update_counter: 0,
            lock_manager: LockManager::new(),
            active_peers: HashMap::new(),
        }
    }

    /// The leader this node takes.
    pub fn leader(&self) -> (r: Option<u32>)
        ensures
            r == self@.leader,
    {
        self.leader
    }

    /// How many updates were given an id.
    pub fn update_counter(&self) -> (r: u32)
        ensures
            r == self@.update_counter,
    {
        self.update_counter
    }

    /// How many queries were given an id.
    pub fn select_counter(&self) -> (r: u32)
        ensures
            r == self@.select_counter,
    {
        self.select_counter
    }

    /// The connections to the other nodes.
    pub fn peers(&self) -> (r: &HashMap<u32, O>)
        ensures
            r@ == self@.peers,
    {
        &self.active_peers
    }

    /// The connection that the oldest request for the lock of
    /// `enterprise_id` came on; `None` when there is no request, or it is
    /// this node's own.
    pub fn requester(&self, enterprise_id: u32) -> (r: Option<&O>)
        ensures
            match self@.locks.pendings.get(enterprise_id) {
                Some(q) => if q.len() > 0 {
                    match q[0].owner {
                        Some(o) => r == Some(&o),
                        None => r is None,
                    }
                } else {
                    r is None
                },
                None => r is None,
            },
    {
        match self.lock_manager.peek_pending(&enterprise_id) {
            Some(front) => match &front.owner {
                Some(o) => Some(o),
                None => None,
            },
            None => None,
        }
    }

    /// Whether the update `transaction_id` waits here.
    pub fn has_update(&self, transaction_id: &str) -> (r: bool)
        requires
            self.wf(),
        ensures
            r == (lookup(self@.updates, transaction_id@) is Some),
    {
        self.updates.contains(transaction_id)
    }

    /// The owner of the query `transaction_id`, if it waits here.
    pub fn select_owner(&self, transaction_id: &str) -> (r: Option<&O>)
        requires
            self.wf(),
        ensures
            match lookup(self@.selects, transaction_id@) {
                Some(o) => r == Some(&o),
                None => r is None,
            },
    {
        self.selects.get(transaction_id)
    }

    /// An enterprise is created: its repository here and every other node
    /// are told.
    pub fn handle_create(&self, create: Create) -> (r: Vec<TmAction<O>>)
        ensures
            r.len() == 2,
            r[0] matches TmAction::Repository(ToRepository::Create(c)) && c.enterprise_id == create.enterprise_id
                && c.enterprise_limit == create.enterprise_limit && c.card_limits@ == create.card_limits@,
            r[1] matches TmAction::AllPeers { skip_self, msg: ToPeer::Create(c) } && skip_self && c == create,
    {
        let mut r: Vec<TmAction<O>> = Vec::new();
        r.push(TmAction::Repository(ToRepository::Create(create.duplicate())));
        r.push(TmAction::AllPeers { skip_self: true, msg: ToPeer::Create(create) });
        r
    }

    /// A client's update: it gets the id `{base_id}+{count}`, waits here
    /// with the current leader, and goes on to ask for its lock.
    pub fn handle_update(&mut self, owner: O, update: Update, base_id: &str) -> (r: TmAction<O>)
        requires
            old(self).wf(),
            old(self)@.update_counter < u32::MAX,
        ensures
            final(self).wf(),
            final(self)@ == (TmView {
                updates: final(self)@.updates,
                update_counter: (old(self)@.update_counter + 1) as u32,
                ..old(self)@
            }),
            lookup(old(self)@.updates, update_id(base_id@, old(self)@.update_counter as nat)) is None,
            as_map(final(self)@.updates) == as_map(old(self)@.updates).insert(
                update_id(base_id@, old(self)@.update_counter as nat),
                PendingUpdate { owner, update, initial_leader: old(self)@.leader },
            ),
            r matches TmAction::Myself(ToSelf::UpdateWithId(u)) && u.initial_leader == old(self)@.leader
                && u.transaction_id@ == update_id(base_id@, old(self)@.update_counter as nat) && same_update(
                u.update,
                update,
            ),
    {
        let mut id = String::new();
        push_str(&mut id, base_id);
        push_str(&mut id, "+");
        push_decimal(&mut id, self.update_counter as u64);
        self.update_counter = self.update_counter + 1;
        let copy = update.duplicate();
        let key = id.clone();
        let ghost before = self@;
        let ghost c = old(self)@.update_counter as nat;
        proof {
            lemma_lookup_all(before.updates);
            if lookup(before.updates, key@) is Some {
                let i = choose|i: int| 0 <= i < before.updates.len() && (#[trigger] before.updates[i]).0 == key@;
                assert(keys_of(before.updates)[i] == key@);
                assert(before.updates == old(self)@.updates);
                assert(issued_id(keys_of(old(self)@.updates)[i], c));
                let (b, n) = choose|b: Seq<char>, n: nat|
                    #![trigger update_id(b, n)]
                    n < c && keys_of(old(self)@.updates)[i] == update_id(b, n);
                lemma_update_id_count(b, n, base_id@, c);
            }
            assert(key@ == update_id(base_id@, c));
            assert(lookup(before.updates, key@) is None);
        }
        self.updates.insert(key, PendingUpdate { owner, update, initial_leader: self.leader });
        proof {
            assert forall|e: u32| #[trigger] self@.locks.current.contains_key(e) implies {
                &&& lookup(self@.updates, self@.locks.current[e]) is Some
                &&& lookup(self@.updates, self@.locks.current[e])->0.update.spec_enterprise_id() == e
            } by {
                let t = self@.locks.current[e];
                assert(lookup(before.updates, t) is Some);
                assert(as_map(before.updates).contains_key(t));
                assert(as_map(self@.updates).contains_key(t));
                assert(t != key@);
                assert(as_map(self@.updates)[t] == as_map(before.updates)[t]);
            }
            assert forall|i: int| 0 <= i < self@.updates.len() implies issued_id(
                #[trigger] keys_of(self@.updates)[i],
                self@.update_counter as nat,
            ) by {
                if i < before.updates.len() {
                    assert(keys_of(self@.updates)[i] == keys_of(before.updates)[i]);
                    assert(issued_id(keys_of(old(self)@.updates)[i], c));
                    let (b, n) = choose|b: Seq<char>, n: nat|
                        #![trigger update_id(b, n)]
                        n < c && keys_of(old(self)@.updates)[i] == update_id(b, n);
                    assert(n < self@.update_counter && keys_of(self@.updates)[i] == update_id(b, n));
                } else {
                    assert(keys_of(self@.updates) == keys_of(before.updates).push(update_id(base_id@, c)));
                    assert(keys_of(self@.updates).len() == self@.updates.len());
                    assert(keys_of(before.updates).len() == before.updates.len());
                    assert(i == keys_of(before.updates).len());
                    assert(keys_of(self@.updates)[i] == update_id(base_id@, c));
                }
            }
        }
        TmAction::Myself(ToSelf::UpdateWithId(UpdateWithId { initial_leader: self.leader, transaction_id: id, update: copy }))
    }
}


/// The lock request for the update `tid` of enterprise `e`: to the leader
/// when it is another connected node, to this node itself when it leads,
/// and none while there is no leader.
pub open spec fn lock_request_for<O>(v: TmView<O>, e: u32, tid: Seq<char>, a: Option<TmAction<O>>) -> bool {
    match v.leader {
        Some(l) => if v.peers.contains_key(l) {
            a matches Some(TmAction::Peer { peer_id, msg: ToPeer::AcquireLock(m) }) && peer_id == l && m.from == v.id
                && m.transaction_id@ == tid && m.enterprise_id == e
        } else if v.id == l {
            a matches Some(TmAction::Myself(ToSelf::Pending(p))) && p.owner is None && p.owner_id == v.id
                && p.transaction_id@ == tid && p.enterprise_id == e && !p.got_lock
        } else {
            a is None
        },
        None => a is None,
    }
}

/// The state with only the lock view changed.
pub open spec fn with_locks<O>(v: TmView<O>, locks: LockView<O>) -> TmView<O> {
    TmView { locks, ..v }
}

impl<O> TransactionManager<O> {
    /// A client's query: it gets the id `+{count}`, its owner waits for the
    /// answer, and the repository is asked.
    pub fn handle_select(&mut self, owner: O, select: Select) -> (r: TmAction<O>)
        requires
            old(self).wf(),
            old(self)@.select_counter < u32::MAX,
        ensures
            final(self).wf(),
            final(self)@ == (TmView {
                selects: final(self)@.selects,
                select_counter: (old(self)@.select_counter + 1) as u32,
                ..old(self)@
            }),
            as_map(final(self)@.selects) == as_map(old(self)@.selects).insert(
                select_id(old(self)@.select_counter as nat),
                owner,
            ),
            r matches TmAction::Repository(ToRepository::SelectWithId(m)) && m.transaction_id@ == select_id(
                old(self)@.select_counter as nat,
            ) && m.select == select,
    {
        let mut id = String::new();
        push_str(&mut id, "+");
        push_decimal(&mut id, self.select_counter as u64);
        self.select_counter = self.select_counter + 1;
        let key = id.clone();
        self.selects.insert(key, owner);
        TmAction::Repository(ToRepository::SelectWithId(SelectWithId { transaction_id: id, select }))
    }

    /// Another node asks for data: the query gets the id
    /// `{original}*internode*{count}`, its owner waits for the answer, and
    /// the repository is asked under that id.
    pub fn handle_request_data(&mut self, owner: O, request: RequestData) -> (r: TmAction<O>)
        requires
            old(self).wf(),
            old(self)@.select_counter < u32::MAX,
        ensures
            final(self).wf(),
            final(self)@ == (TmView {
                selects: final(self)@.selects,
                select_counter: (old(self)@.select_counter + 1) as u32,
                ..old(self)@
            }),
            as_map(final(self)@.selects) == as_map(old(self)@.selects).insert(
                internode_id(request.original_id@, old(self)@.select_counter as nat),
                owner,
            ),
            r matches TmAction::Repository(ToRepository::InternodeSelectWithId(m)) && m.transaction_id@
                == internode_id(request.original_id@, old(self)@.select_counter as nat) && m.initial_leader
                == request.initial_leader && exists|t: String|
                t@ == internode_id(request.original_id@, old(self)@.select_counter as nat) && m.select
                    == #[trigger] request.select.with_transaction_id(t),
    {
        let RequestData { from: _, original_id, select, initial_leader } = request;
        let mut id = String::new();
        push_str(&mut id, original_id.as_str());
        push_str(&mut id, "*internode*");
        push_decimal(&mut id, self.select_counter as u64);
        self.select_counter = self.select_counter + 1;
        let mut select = select;
        let ghost before = select;
        let inner = id.clone();
        let ghost inner_id = inner;
        select.update_transaction_id(inner);
        let key = id.clone();
        self.selects.insert(key, owner);
        assert(select == before.with_transaction_id(inner_id));
        TmAction::Repository(
            ToRepository::InternodeSelectWithId(InternodeSelectWithId { transaction_id: id, select, initial_leader }),
        )
    }

    /// A query that this node's repository cannot answer goes to every
    /// connected node.
    pub fn handle_internode_select(&self, msg: InternodeSelect) -> (r: TmAction<O>)
        ensures
            r matches TmAction::AllPeers { skip_self, msg: ToPeer::RequestData(m) } && !skip_self && m.from
                == self@.id && m.original_id@ == msg.spec_transaction_id() && m.initial_leader
                == msg.spec_initial_leader() && m.select == msg,
    {
        let original_id = msg.get_transaction_id().clone();
        let initial_leader = msg.get_initial_leader();
        TmAction::AllPeers {
            skip_self: false,
            msg: ToPeer::RequestData(RequestData { from: self.id, original_id, select: msg, initial_leader }),
        }
    }

    /// An update with its id asks for the lock of its enterprise.
    pub fn handle_update_with_id(&self, msg: UpdateWithId) -> (r: Option<TmAction<O>>)
        ensures
            lock_request_for(self@, msg.update.spec_enterprise_id(), msg.transaction_id@, r),
    {
        let enterprise_id = msg.update.get_enterprise_id();
        match self.leader {
            Some(leader) => {
                if self.active_peers.contains_key(&leader) {
                    Some(
                        TmAction::Peer {
                            peer_id: leader,
                            msg: ToPeer::AcquireLock(
                                AcquireLock { from: self.id, transaction_id: msg.transaction_id, enterprise_id },
                            ),
                        },
                    )
                } else if self.id == leader {
                    Some(
                        TmAction::Myself(
                            ToSelf::Pending(
                                Pending {
                                    owner: None,
                                    owner_id: self.id,
                                    transaction_id: msg.transaction_id,
                                    enterprise_id,
                                    got_lock: false,
                                },
                            ),
                        ),
                    )
                } else {
                    None
                }
            },
            None => None,
        }
    }

    /// The leader queues a request for a lock; when the front of the queue
    /// has no lock yet, it goes on to grant it.
    pub fn handle_pending(&mut self, msg: Pending<O>) -> (r: Option<TmAction<O>>)
        requires
            old(self).wf(),
        ensures
            final(self).wf(),
            final(self)@ == with_locks(old(self)@, final(self)@.locks),
            final(self)@.locks.current == old(self)@.locks.current,
            old(self)@.locks.pendings.contains_key(msg.enterprise_id) ==> final(self)@.locks.order == old(self)@.locks.order,
            !old(self)@.locks.pendings.contains_key(msg.enterprise_id) ==> final(self)@.locks.order == old(self)@.locks.order.push(
                msg.enterprise_id,
            ),
            final(self)@.locks.pendings == old(self)@.locks.pendings.insert(
                msg.enterprise_id,
                if old(self)@.locks.pendings.contains_key(msg.enterprise_id) {
                    old(self)@.locks.pendings[msg.enterprise_id].push(msg)
                } else {
                    seq![msg]
                },
            ),
            !final(self)@.locks.pendings[msg.enterprise_id][0].got_lock ==> r == Some(
                TmAction::<O>::Myself(ToSelf::NextLock(NextLock { enterprise_id: msg.enterprise_id })),
            ),
            final(self)@.locks.pendings[msg.enterprise_id][0].got_lock ==> r is None,
    {
        let enterprise_id = msg.enterprise_id;
        self.lock_manager.add_pending(enterprise_id, msg);
        let free = match self.lock_manager.peek_pending(&enterprise_id) {
            Some(front) => !front.got_lock,
            None => false,
        };
        if free {
            Some(TmAction::Myself(ToSelf::NextLock(NextLock { enterprise_id })))
        } else {
            None
        }
    }

    /// The leader grants the lock of an enterprise to the oldest waiting
    /// transaction, unless it holds it already: the connection the request
    /// came on is told (that request stays at the front of the queue, so
    /// `requester` gives it), or this node itself when it asked.
    pub fn handle_next_lock(&mut self, msg: NextLock) -> (r: Option<TmAction<O>>)
        requires
            old(self).wf(),
        ensures
            final(self).wf(),
            final(self)@ == with_locks(old(self)@, final(self)@.locks),
            final(self)@.locks.current == old(self)@.locks.current,
            final(self)@.locks.order == old(self)@.locks.order,
            ({
                let e = msg.enterprise_id;
                let q = old(self)@.locks.pendings[e];
                if old(self)@.locks.pendings.contains_key(e) && q.len() > 0 && !q[0].got_lock {
                    &&& final(self)@.locks.pendings == old(self)@.locks.pendings.insert(
                        e,
                        q.update(0, Pending { got_lock: true, ..q[0] }),
                    )
                    &&& q[0].owner is Some ==> (r matches Some(TmAction::ToRequester { enterprise_id, msg: ToPeer::LockGranted(g) })
                        && enterprise_id == e && g.enterprise_id == q[0].enterprise_id && g.transaction_id@
                        == q[0].transaction_id@)
                    &&& q[0].owner is None ==> (r matches Some(TmAction::Myself(ToSelf::LockGranted(g)))
                        && g.enterprise_id == q[0].enterprise_id && g.transaction_id@ == q[0].transaction_id@)
                } else {
                    final(self)@.locks.pendings == old(self)@.locks.pendings && r is None
                }
            }),
    {
        let e = msg.enterprise_id;
        if !self.lock_manager.grant_front(&e) {
            return None;
        }
        match self.lock_manager.peek_pending(&e) {
            Some(front) => {
                let grant = LockGranted {
                    enterprise_id: front.enterprise_id,
                    transaction_id: front.transaction_id.clone(),
                };
                if front.owner.is_some() {
                    Some(TmAction::ToRequester { enterprise_id: e, msg: ToPeer::LockGranted(grant) })
                } else {
                    Some(TmAction::Myself(ToSelf::LockGranted(grant)))
                }
            },
            None => None,
        }
    }

    /// The lock that the leader granted to an update of this node: unless
    /// the update's enterprise is locked here already, the lock is taken and
    /// the update goes to the repository.
    pub fn handle_lock_granted(&mut self, msg: LockGranted) -> (r: Option<TmAction<O>>)
        requires
            old(self).wf(),
            lookup(old(self)@.updates, msg.transaction_id@) is Some,
        ensures
            final(self).wf(),
            final(self)@ == with_locks(old(self)@, final(self)@.locks),
            final(self)@.locks.pendings == old(self)@.locks.pendings,
            final(self)@.locks.order == old(self)@.locks.order,
            ({
                let u = lookup(old(self)@.updates, msg.transaction_id@)->0;
                let e = u.update.spec_enterprise_id();
                if old(self)@.locks.current.contains_key(e) {
                    final(self)@.locks.current == old(self)@.locks.current && r is None
                } else {
                    &&& final(self)@.locks.current == old(self)@.locks.current.insert(e, msg.transaction_id@)
                    &&& r matches Some(TmAction::Repository(ToRepository::UpdateWithId(m)))
                    &&& m.initial_leader == u.initial_leader
                    &&& m.transaction_id == msg.transaction_id
                    &&& same_update(m.update, u.update)
                }
            }),
    {
        let (enterprise_id, initial_leader, update) = match self.updates.get(msg.transaction_id.as_str()) {
            Some(tr) => (tr.update.get_enterprise_id(), tr.initial_leader, tr.update.duplicate()),
            None => {
                return None;
            },
        };
        if self.lock_manager.is_locked(&enterprise_id) {
            return None;
        }
        let ghost before = self@;
        self.lock_manager.grant_lock(enterprise_id, msg.transaction_id.clone());
        proof {
            assert forall|e: u32| #[trigger] self@.locks.current.contains_key(e) implies lookup(
                self@.updates,
                self@.locks.current[e],
            ) is Some by {
                if e != enterprise_id {
                    assert(before.locks.current.contains_key(e));
                }
            }
        }
        Some(
            TmAction::Repository(
                ToRepository::UpdateWithId(
                    UpdateWithId { initial_leader, transaction_id: msg.transaction_id, update },
                ),
            ),
        )
    }

    /// A transaction gives back the lock of an enterprise: when it is the
    /// front of the queue it leaves it, and the lock goes on to the next.
    pub fn handle_release_lock(&mut self, msg: ReleaseLock) -> (r: Option<TmAction<O>>)
        requires
            old(self).wf(),
        ensures
            final(self).wf(),
            final(self)@ == with_locks(old(self)@, final(self)@.locks),
            final(self)@.locks.current == old(self)@.locks.current,
            final(self)@.locks.order == old(self)@.locks.order,
            ({
                let e = msg.enterprise_id;
                let q = old(self)@.locks.pendings[e];
                if old(self)@.locks.pendings.contains_key(e) && q.len() > 0 && q[0].transaction_id@
                    == msg.transaction_id@ {
                    final(self)@.locks.pendings == old(self)@.locks.pendings.insert(e, q.drop_first()) && r == Some(
                        TmAction::<O>::Myself(ToSelf::NextLock(NextLock { enterprise_id: e })),
                    )
                } else {
                    final(self)@.locks.pendings == old(self)@.locks.pendings && r is None
                }
            }),
    {
        let e = msg.enterprise_id;
        if self.lock_manager.release_front(&e, &msg.transaction_id) {
            Some(TmAction::Myself(ToSelf::NextLock(NextLock { enterprise_id: e })))
        } else {
            None
        }
    }
}


/// The lock request that a new leader `l` gets for the waiting update
/// `entry`: through the connection to `l` when there is one, else as a
/// request queued at this node.
pub open spec fn relock_request<O>(v: TmView<O>, l: u32, entry: (Seq<char>, PendingUpdate<O>), a: TmAction<O>) -> bool {
    if v.peers.contains_key(l) {
        a matches TmAction::Peer { peer_id, msg: ToPeer::AcquireLock(m) } && peer_id == l && m.from == v.id
            && m.transaction_id@ == entry.0 && m.enterprise_id == entry.1.update.spec_enterprise_id()
    } else {
        a matches TmAction::Myself(ToSelf::Pending(p)) && p.owner is None && p.owner_id == v.id && p.transaction_id@
            == entry.0 && p.enterprise_id == entry.1.update.spec_enterprise_id() && !p.got_lock
    }
}

impl<O> TransactionManager<O> {
    /// A new leader: every lock and queue is forgotten, and each waiting
    /// update, now under that leader, asks it for its lock again.
    pub fn handle_set_new_leader(&mut self, peer_id: u32) -> (r: Vec<TmAction<O>>)
        requires
            old(self).wf(),
        ensures
            final(self).wf(),
            final(self)@.leader == Some(peer_id),
            final(self)@.id == old(self)@.id,
            final(self)@.selects == old(self)@.selects,
            final(self)@.select_counter == old(self)@.select_counter,
            final(self)@.update_counter == old(self)@.update_counter,
            final(self)@.peers == old(self)@.peers,
            final(self)@.locks.pendings == Map::<u32, Seq<Pending<O>>>::empty(),
            final(self)@.locks.current == Map::<u32, Seq<char>>::empty(),
            final(self)@.locks.order == Seq::<u32>::empty(),
            final(self)@.updates.len() == old(self)@.updates.len(),
            forall|i: int|
                0 <= i < old(self)@.updates.len() ==> #[trigger] final(self)@.updates[i] == (
                    old(self)@.updates[i].0,
                    PendingUpdate { initial_leader: Some(peer_id), ..old(self)@.updates[i].1 },
                ),
            r.len() == old(self)@.updates.len(),
            forall|i: int|
                0 <= i < r.len() ==> relock_request(old(self)@, peer_id, old(self)@.updates[i], #[trigger] r[i]),
    {
        self.leader = Some(peer_id);
        self.lock_manager.clear();
        let ghost start = self@;
        let has_leader_peer = self.active_peers.contains_key(&peer_id);
        let mut r: Vec<TmAction<O>> = Vec::new();
        let mut i: usize = 0;
        while i < self.updates.len()
            invariant
                self.updates.wf(),
                self.lock_manager.wf(),
                self@.locks == start.locks,
                self@.id == start.id,
                self@.leader == Some(peer_id),
                self@.selects == start.selects,
                self@.select_counter == start.select_counter,
                self@.update_counter == start.update_counter,
                self@.peers == start.peers,
                start.updates == old(self)@.updates,
                start.peers == old(self)@.peers,
                start.id == old(self)@.id,
                has_leader_peer == old(self)@.peers.contains_key(peer_id),
                i <= self@.updates.len(),
                self@.updates.len() == start.updates.len(),
                forall|j: int|
                    0 <= j < i ==> #[trigger] self@.updates[j] == (
                        start.updates[j].0,
                        PendingUpdate { initial_leader: Some(peer_id), ..start.updates[j].1 },
                    ),
                forall|j: int| i <= j < self@.updates.len() ==> #[trigger] self@.updates[j] == start.updates[j],
                r.len() == i,
                forall|j: int| 0 <= j < i ==> relock_request(old(self)@, peer_id, start.updates[j], #[trigger] r[j]),
            decreases self@.updates.len() - i,
        {
            let (key, value) = self.updates.entry(i);
            let tid = key.clone();
            let enterprise_id = value.update.get_enterprise_id();
            let ghost before = self@.updates;
            let v = self.updates.value_mut(i);
            v.initial_leader = Some(peer_id);
            proof {
                assert(keys_of(self@.updates) =~= keys_of(before));
                assert forall|a: int, b: int| 0 <= a < b < self@.updates.len() implies #[trigger] self@.updates[a].0
                    != #[trigger] self@.updates[b].0 by {
                    assert(self@.updates[a].0 == before[a].0);
                    assert(self@.updates[b].0 == before[b].0);
                }
            }
            if has_leader_peer {
                r.push(
                    TmAction::Peer {
                        peer_id,
                        msg: ToPeer::AcquireLock(AcquireLock { from: self.id, transaction_id: tid, enterprise_id }),
                    },
                );
            } else {
                r.push(
                    TmAction::Myself(
                        ToSelf::Pending(
                            Pending { owner: None, owner_id: self.id, transaction_id: tid, enterprise_id, got_lock: false },
                        ),
                    ),
                );
            }
            i = i + 1;
        }
        proof {
            assert(keys_of(self@.updates) =~= keys_of(old(self)@.updates)) by {
                assert forall|j: int| 0 <= j < self@.updates.len() implies keys_of(self@.updates)[j] == keys_of(
                    old(self)@.updates,
                )[j] by {
                    assert(self@.updates[j].0 == start.updates[j].0);
                }
            }
            assert forall|j: int| 0 <= j < self@.updates.len() implies issued_id(
                #[trigger] keys_of(self@.updates)[j],
                self@.update_counter as nat,
            ) by {
                assert(keys_of(self@.updates)[j] == keys_of(old(self)@.updates)[j]);
            }
        }
        r
    }

    /// A node joined: its connection is kept, unless one is kept already.
    pub fn handle_register_peer(&mut self, msg: RegisterPeerTM<O>)
        requires
            old(self).wf(),
        ensures
            final(self).wf(),
            final(self)@ == (TmView {
                peers: if old(self)@.peers.contains_key(msg.id) {
                    old(self)@.peers
                } else {
                    old(self)@.peers.insert(msg.id, msg.addr)
                },
                ..old(self)@
            }),
    {
        if !self.active_peers.contains_key(&msg.id) {
            self.active_peers.insert(msg.id, msg.addr);
        }
    }
}


/// Where a transaction gives back the lock of enterprise `e`: to the leader
/// through its connection, to this node itself when it leads, and nowhere
/// while there is no leader.
pub open spec fn release_for<O>(v: TmView<O>, e: u32, tid: Seq<char>, a: Option<TmAction<O>>) -> bool {
    match v.leader {
        Some(l) => if v.peers.contains_key(l) {
            a matches Some(TmAction::Peer { peer_id, msg: ToPeer::ReleaseLock(m) }) && peer_id == l && m.enterprise_id
                == e && m.transaction_id@ == tid
        } else if v.id == l {
            a matches Some(TmAction::Myself(ToSelf::ReleaseLock(m))) && m.enterprise_id == e && m.transaction_id@
                == tid
        } else {
            a is None
        },
        None => a is None,
    }
}

/// Whether the lock of `e` is given back somewhere.
pub open spec fn releases_to_leader<O>(v: TmView<O>) -> bool {
    match v.leader {
        Some(l) => v.peers.contains_key(l) || v.id == l,
        None => false,
    }
}

/// The enterprise whose lock an action passes on.
pub open spec fn next_lock_of<O>(a: TmAction<O>) -> Option<u32> {
    match a {
        TmAction::Myself(ToSelf::NextLock(n)) => Some(n.enterprise_id),
        _ => None,
    }
}

impl<O> TransactionManager<O> {
    fn release_action(&self, enterprise_id: u32, transaction_id: String) -> (r: Option<TmAction<O>>)
        ensures
            release_for(self@, enterprise_id, transaction_id@, r),
            r is Some <==> releases_to_leader(self@),
    {
        match self.leader {
            Some(leader) => {
                if self.active_peers.contains_key(&leader) {
                    Some(
                        TmAction::Peer {
                            peer_id: leader,
                            msg: ToPeer::ReleaseLock(ReleaseLock { enterprise_id, transaction_id }),
                        },
                    )
                } else if self.id == leader {
                    Some(TmAction::Myself(ToSelf::ReleaseLock(ReleaseLock { enterprise_id, transaction_id })))
                } else {
                    None
                }
            },
            None => None,
        }
    }

    /// An update was decided. The lock of its enterprise is freed here. When
    /// this node held it, the update stops waiting: when the decision is to
    /// be written, it goes to every other node and to the repository; a
    /// payment's owner learns the result; and the lock goes back to the
    /// leader. A node that no longer held the lock does nothing more.
    pub fn handle_broadcast(&mut self, msg: SendBroadcastOfSetOwnData) -> (r: Vec<TmAction<O>>)
        requires
            old(self).wf(),
        ensures
            final(self).wf(),
            ({
                let e = msg.command.enterprise_id;
                let v = old(self)@;
                &&& final(self)@.locks.current == v.locks.current.remove(e)
                &&& final(self)@.locks.pendings == v.locks.pendings
                &&& final(self)@.locks.order == v.locks.order
                &&& final(self)@ == (TmView { locks: final(self)@.locks, updates: final(self)@.updates, ..v })
                &&& if v.locks.current.contains_key(e) {
                    let t = v.locks.current[e];
                    let u = lookup(v.updates, t)->0;
                    let b: int = if msg.do_broadcast { 2 } else { 0 };
                    let p: int = if u.update is Payment { 1 } else { 0 };
                    &&& as_map(final(self)@.updates) == as_map(v.updates).remove(t)
                    &&& r.len() == b + p + if releases_to_leader(v) { 1int } else { 0 }
                    &&& msg.do_broadcast ==> (r[0] matches TmAction::AllPeers { skip_self, msg: ToPeer::Broadcast(m) }
                        && skip_self && m == msg)
                    &&& msg.do_broadcast ==> r[1] == TmAction::<O>::Repository(ToRepository::SetOwnData(msg.command))
                    &&& u.update is Payment ==> (r[b] matches TmAction::Reply {
                        to,
                        response: TransactionResponse::TransactionResultResponse { transaction_id, result },
                    } && to == u.owner && transaction_id@ == t && result == msg.result)
                    &&& releases_to_leader(v) ==> release_for(v, e, t, Some(r[b + p]))
                } else {
                    final(self)@.updates == v.updates && r.len() == 0
                }
            }),
    {
        let enterprise_id = msg.command.enterprise_id;
        let ghost v = self@;
        let removed = self.lock_manager.release_lock(&enterprise_id);
        let mut r: Vec<TmAction<O>> = Vec::new();
        match removed {
            Some(id) => {
                let ghost t = id@;
                if msg.do_broadcast {
                    r.push(TmAction::AllPeers { skip_self: true, msg: ToPeer::Broadcast(msg) });
                    r.push(TmAction::Repository(ToRepository::SetOwnData(msg.command)));
                }
                proof {
                    assert(v.locks.current.contains_key(enterprise_id));
                }
                let entry = self.updates.remove(id.as_str());
                proof {
                    assert forall|e: u32| #[trigger] self@.locks.current.contains_key(e) implies {
                        &&& lookup(self@.updates, self@.locks.current[e]) is Some
                        &&& lookup(self@.updates, self@.locks.current[e])->0.update.spec_enterprise_id() == e
                    } by {
                        let t2 = self@.locks.current[e];
                        assert(v.locks.current.contains_key(e));
                        assert(t2 != t);
                        assert(as_map(v.updates).contains_key(t2));
                        assert(as_map(self@.updates).contains_key(t2));
                        assert(as_map(self@.updates)[t2] == as_map(v.updates)[t2]);
                    }
                    assert forall|j: int| 0 <= j < self@.updates.len() implies issued_id(
                        #[trigger] keys_of(self@.updates)[j],
                        self@.update_counter as nat,
                    ) by {
                        let k = keys_of(self@.updates)[j];
                        assert(keys_of(self@.updates).to_set().contains(k));
                        assert(keys_of(v.updates).to_set().contains(k));
                        let i = choose|i: int| 0 <= i < keys_of(v.updates).len() && keys_of(v.updates)[i] == k;
                        assert(issued_id(keys_of(v.updates)[i], v.update_counter as nat));
                    }
                }
                match entry {
                    Some(pending) => {
                        let PendingUpdate { owner, update, initial_leader: _ } = pending;
                        let is_payment = match update {
                            Update::Payment { .. } => true,
                            _ => false,
                        };
                        if is_payment {
                            r.push(
                                TmAction::Reply {
                                    to: owner,
                                    response: TransactionResponse::TransactionResultResponse {
                                        transaction_id: id.clone(),
                                        result: msg.result,
                                    },
                                },
                            );
                        }
                    },
                    None => {},
                }
                match self.release_action(enterprise_id, id) {
                    Some(a) => r.push(a),
                    None => {},
                }
            },
            None => {
                proof {
                    assert forall|e: u32| #[trigger] self@.locks.current.contains_key(e) implies {
                        &&& lookup(self@.updates, self@.locks.current[e]) is Some
                        &&& lookup(self@.updates, self@.locks.current[e])->0.update.spec_enterprise_id() == e
                    } by {
                        assert(v.locks.current.contains_key(e));
                    }
                }
            },
        }
        r
    }

    /// A node went down: its connection is dropped, its requests leave every
    /// queue, and each lock it had been granted goes on to the next.
    pub fn handle_peer_down(&mut self, peer_id: u32) -> (r: Vec<TmAction<O>>)
        requires
            old(self).wf(),
        ensures
            final(self).wf(),
            final(self)@ == (TmView { peers: old(self)@.peers.remove(peer_id), locks: final(self)@.locks, ..old(self)@ }),
            final(self)@.locks.current == old(self)@.locks.current,
            final(self)@.locks.order == old(self)@.locks.order,
            final(self)@.locks.pendings.dom() == old(self)@.locks.pendings.dom(),
            forall|e: u32| #[trigger] final(self)@.locks.pendings.contains_key(e) ==> final(self)@.locks.pendings[e]
                == crate::cluster::lock_manager::without_owner(old(self)@.locks.pendings[e], peer_id),
            forall|i: int| 0 <= i < r.len() ==> #[trigger] next_lock_of(r[i]) is Some,
            forall|i: int, j: int| 0 <= i < j < r.len() ==> #[trigger] next_lock_of(r[i]) != #[trigger] next_lock_of(r[j]),
            forall|e: u32| crate::cluster::lock_manager::granted_to(old(self)@.locks, e, peer_id) <==> exists|i: int|
                0 <= i < r.len() && #[trigger] next_lock_of(r[i]) == Some(e),
    {
        self.active_peers.remove(&peer_id);
        let granted = self.lock_manager.get_locks_granted_to(peer_id);
        let mut r: Vec<TmAction<O>> = Vec::new();
        let mut i: usize = 0;
        while i < granted.len()
            invariant
                i <= granted.len(),
                r.len() == i,
                forall|j: int| 0 <= j < i ==> #[trigger] next_lock_of(r[j]) == Some(granted@[j]),
            decreases granted.len() - i,
        {
            r.push(TmAction::Myself(ToSelf::NextLock(NextLock { enterprise_id: granted[i] })));
            i = i + 1;
        }
        proof {
            assert forall|a: int, b: int| 0 <= a < b < r.len() implies #[trigger] next_lock_of(r[a])
                != #[trigger] next_lock_of(r[b]) by {
                assert(granted@[a] != granted@[b]);
            }
            assert forall|e: u32| crate::cluster::lock_manager::granted_to(old(self)@.locks, e, peer_id) implies exists|
                k: int,
            | 0 <= k < r.len() && #[trigger] next_lock_of(r[k]) == Some(e) by {
                assert(granted@.contains(e));
                let k = choose|k: int| 0 <= k < granted@.len() && granted@[k] == e;
                assert(next_lock_of(r[k]) == Some(e));
            }
            assert forall|e: u32| (exists|k: int| 0 <= k < r.len() && #[trigger] next_lock_of(r[k]) == Some(e)) implies crate::cluster::lock_manager::granted_to(
                old(self)@.locks,
                e,
                peer_id,
            ) by {
                let k = choose|k: int| 0 <= k < r.len() && #[trigger] next_lock_of(r[k]) == Some(e);
                assert(granted@[k] == e);
                assert(granted@.contains(e));
            }
        }
        r
    }
}


/// The self-message for an update's decision, if there is one.
pub open spec fn decided<O>(
    outcome: Result<Option<SendBroadcastOfSetOwnData>, RepositoryFault>,
) -> Result<Option<TmAction<O>>, RepositoryFault> {
    match outcome {
        Ok(Some(b)) => Ok(Some(TmAction::Myself(ToSelf::Broadcast(b)))),
        Ok(None) => Ok(None),
        Err(f) => Err(f),
    }
}

/// What data from another node does for the transaction `t`: an answer
/// without data is dropped; a query's answer goes to its owner; the data an
/// update waited for decides it (`Err` when its arithmetic overflows).
pub open spec fn internode_outcome<O>(
    v: TmView<O>,
    t: Seq<char>,
    response: InternodeResponse,
) -> Result<Option<TmAction<O>>, RepositoryFault> {
    if !response.spec_has_data() {
        Ok(None)
    } else {
        match response {
            InternodeResponse::CardViewResponse { .. } => match lookup(v.selects, t) {
                Some(o) => Ok(Some(TmAction::Reply { to: o, response: response.spec_to_tr()->0 })),
                None => Ok(None),
            },
            InternodeResponse::EnterpriseViewResponse { .. } => match lookup(v.selects, t) {
                Some(o) => Ok(Some(TmAction::Reply { to: o, response: response.spec_to_tr()->0 })),
                None => Ok(None),
            },
            InternodeResponse::CardViewForUpdateResponse { response: data, initial_leader, .. } => match lookup(
                v.updates,
                t,
            ) {
                Some(u) => decided(card_update_outcome(u.update, data->0, initial_leader)),
                None => Ok(None),
            },
            InternodeResponse::EnterpriseViewForUpdateResponse { response: data, initial_leader, .. } => match lookup(
                v.updates,
                t,
            ) {
                Some(u) => decided(enterprise_update_outcome(u.update, data->0, initial_leader)),
                None => Ok(None),
            },
            InternodeResponse::PaymentViewResponse { response: data, initial_leader, .. } => match lookup(
                v.updates,
                t,
            ) {
                Some(u) => decided(payment_outcome_from(u.update, data->0, initial_leader)),
                None => Ok(None),
            },
        }
    }
}

/// Whether data from another node answers a query that waits here.
pub open spec fn answers_select(response: InternodeResponse) -> bool {
    &&& response.spec_has_data()
    &&& (response is CardViewResponse || response is EnterpriseViewResponse)
}

impl<O> TransactionManager<O> {
    /// The repository answered a query about a card: its owner gets the
    /// answer, and the query stops waiting.
    pub fn handle_card_view_response(&mut self, msg: CardViewResponse) -> (r: Option<TmAction<O>>)
        requires
            old(self).wf(),
        ensures
            final(self).wf(),
            final(self)@ == (TmView { selects: final(self)@.selects, ..old(self)@ }),
            as_map(final(self)@.selects) == as_map(old(self)@.selects).remove(msg.transaction_id@),
            match lookup(old(self)@.selects, msg.transaction_id@) {
                Some(o) => r == Some(
                    TmAction::Reply {
                        to: o,
                        response: TransactionResponse::CardViewResponse {
                            card_id: msg.card_id,
                            enterprise_id: msg.enterprise_id,
                            transaction_id: msg.transaction_id,
                            response: msg.response,
                        },
                    },
                ),
                None => r is None,
            },
    {
        let owner = self.selects.remove(msg.transaction_id.as_str());
        match owner {
            Some(o) => Some(TmAction::Reply { to: o, response: msg.to_tr() }),
            None => None,
        }
    }

    /// The repository answered a query about an enterprise: its owner gets
    /// the answer, and the query stops waiting.
    pub fn handle_enterprise_view_response(&mut self, msg: EnterpriseViewResponse) -> (r: Option<TmAction<O>>)
        requires
            old(self).wf(),
        ensures
            final(self).wf(),
            final(self)@ == (TmView { selects: final(self)@.selects, ..old(self)@ }),
            as_map(final(self)@.selects) == as_map(old(self)@.selects).remove(msg.transaction_id@),
            match lookup(old(self)@.selects, msg.transaction_id@) {
                Some(o) => r == Some(
                    TmAction::Reply {
                        to: o,
                        response: TransactionResponse::EnterpriseViewResponse {
                            transaction_id: msg.transaction_id,
                            response: msg.data,
                        },
                    },
                ),
                None => r is None,
            },
    {
        let owner = self.selects.remove(msg.transaction_id.as_str());
        match owner {
            Some(o) => Some(TmAction::Reply { to: o, response: msg.to_tr() }),
            None => None,
        }
    }

    /// The repository answered a query that another node asked: the answer
    /// goes to that query's owner, which keeps waiting here.
    pub fn handle_internode_response(&self, msg: InternodeResponse) -> (r: TmAction<O>)
        requires
            self.wf(),
            lookup(self@.selects, msg.spec_transaction_id()) is Some,
        ensures
            r matches TmAction::ForwardToSelectOwner { transaction_id, response } && transaction_id@
                == msg.spec_transaction_id() && response == msg,
    {
        let transaction_id = msg.get_transaction_id().clone();
        TmAction::ForwardToSelectOwner { transaction_id, response: msg }
    }

    /// Data that another node sent for one of this node's transactions.
    pub fn handle_response_from_internode(&mut self, msg: TransactionResponseFromInternode) -> (r: Result<
        Option<TmAction<O>>,
        RepositoryFault,
    >)
        requires
            old(self).wf(),
        ensures
            final(self).wf(),
            r == internode_outcome(old(self)@, msg.original_id@, msg.response),
            answers_select(msg.response) && lookup(old(self)@.selects, msg.original_id@) is Some ==> {
                &&& final(self)@ == (TmView { selects: final(self)@.selects, ..old(self)@ })
                &&& as_map(final(self)@.selects) == as_map(old(self)@.selects).remove(msg.original_id@)
            },
            !(answers_select(msg.response) && lookup(old(self)@.selects, msg.original_id@) is Some) ==> final(self)@
                == old(self)@,
    {
        let TransactionResponseFromInternode { original_id, response } = msg;
        if !response.check_if_data_is_valid() {
            return Ok(None);
        }
        let ghost whole = response;
        match response {
            InternodeResponse::CardViewResponse { .. } | InternodeResponse::EnterpriseViewResponse { .. } => {
                if self.selects.contains(original_id.as_str()) {
                    let owner = self.selects.remove(original_id.as_str());
                    match (owner, response.to_tr()) {
                        (Some(o), Some(tr)) => Ok(Some(TmAction::Reply { to: o, response: tr })),
                        _ => Ok(None),
                    }
                } else {
                    Ok(None)
                }
            },
            InternodeResponse::CardViewForUpdateResponse { response: data, initial_leader, .. } => {
                match (self.updates.get(original_id.as_str()), data) {
                    (Some(u), Some(d)) => match card_view_for_update(&u.update, d, initial_leader) {
                        Ok(Some(b)) => Ok(Some(TmAction::Myself(ToSelf::Broadcast(b)))),
                        Ok(None) => Ok(None),
                        Err(f) => Err(f),
                    },
                    _ => Ok(None),
                }
            },
            InternodeResponse::EnterpriseViewForUpdateResponse { response: data, initial_leader, .. } => {
                match (self.updates.get(original_id.as_str()), data) {
                    (Some(u), Some(d)) => match enterprise_view_for_update(&u.update, d, initial_leader) {
                        Ok(Some(b)) => Ok(Some(TmAction::Myself(ToSelf::Broadcast(b)))),
                        Ok(None) => Ok(None),
                        Err(f) => Err(f),
                    },
                    _ => Ok(None),
                }
            },
            InternodeResponse::PaymentViewResponse { response: data, initial_leader, .. } => {
                match (self.updates.get(original_id.as_str()), data) {
                    (Some(u), Some(d)) => match payment_view(&u.update, d, initial_leader) {
                        Ok(Some(b)) => Ok(Some(TmAction::Myself(ToSelf::Broadcast(b)))),
                        Ok(None) => Ok(None),
                        Err(f) => Err(f),
                    },
                    _ => Ok(None),
                }
            },
        }
    }
}


impl<O> TransactionManager<O> {
    /// A transaction from a connection: a creation is passed on, an update
    /// or a query gets its id and waits, a request of another node gets its
    /// id and waits; anything else is ignored. `base_id` is the update's own
    /// id, which its id begins with.
    pub fn handle_transaction(&mut self, msg: Transaction<O>, base_id: &str) -> (r: Vec<TmAction<O>>)
        requires
            old(self).wf(),
            msg.transaction is Update ==> old(self)@.update_counter < u32::MAX,
            (msg.transaction is Select || msg.transaction is RequestData) ==> old(self)@.select_counter < u32::MAX,
        ensures
            final(self).wf(),
            match msg.transaction {
                TransactionType::Create(c) => final(self)@ == old(self)@ && r.len() == 2 && (r[0] matches TmAction::Repository(
                    ToRepository::Create(d),
                ) && d.enterprise_id == c.enterprise_id && d.enterprise_limit == c.enterprise_limit
                    && d.card_limits@ == c.card_limits@) && (r[1] matches TmAction::AllPeers {
                    skip_self,
                    msg: ToPeer::Create(d),
                } && skip_self && d == c),
                TransactionType::Update(u) => {
                    let id = update_id(base_id@, old(self)@.update_counter as nat);
                    &&& final(self)@ == (TmView {
                        updates: final(self)@.updates,
                        update_counter: (old(self)@.update_counter + 1) as u32,
                        ..old(self)@
                    })
                    &&& lookup(old(self)@.updates, id) is None
                    &&& as_map(final(self)@.updates) == as_map(old(self)@.updates).insert(
                        id,
                        PendingUpdate { owner: msg.owner, update: u, initial_leader: old(self)@.leader },
                    )
                    &&& r.len() == 1
                    &&& r[0] matches TmAction::Myself(ToSelf::UpdateWithId(w)) && w.initial_leader == old(self)@.leader
                        && w.transaction_id@ == id && same_update(w.update, u)
                },
                TransactionType::Select(q) => {
                    &&& final(self)@ == (TmView {
                        selects: final(self)@.selects,
                        select_counter: (old(self)@.select_counter + 1) as u32,
                        ..old(self)@
                    })
                    &&& as_map(final(self)@.selects) == as_map(old(self)@.selects).insert(
                        select_id(old(self)@.select_counter as nat),
                        msg.owner,
                    )
                    &&& r.len() == 1
                    &&& r[0] matches TmAction::Repository(ToRepository::SelectWithId(m)) && m.transaction_id@
                        == select_id(old(self)@.select_counter as nat) && m.select == q
                },
                TransactionType::RequestData(req) => {
                    let id = internode_id(req.original_id@, old(self)@.select_counter as nat);
                    &&& final(self)@ == (TmView {
                        selects: final(self)@.selects,
                        select_counter: (old(self)@.select_counter + 1) as u32,
                        ..old(self)@
                    })
                    &&& as_map(final(self)@.selects) == as_map(old(self)@.selects).insert(id, msg.owner)
                    &&& r.len() == 1
                    &&& r[0] matches TmAction::Repository(ToRepository::InternodeSelectWithId(m)) && m.transaction_id@
                        == id && m.initial_leader == req.initial_leader && exists|t: String|
                        t@ == id && m.select == #[trigger] req.select.with_transaction_id(t)
                },
                TransactionType::InternodeSelect(_) => final(self)@ == old(self)@ && r.len() == 0,
            },
    {
        let Transaction { owner, transaction, id: _, initial_leader: _ } = msg;
        let mut r: Vec<TmAction<O>> = Vec::new();
        match transaction {
            TransactionType::Create(create) => {
                r = self.handle_create(create);
            },
            TransactionType::Update(update) => {
                r.push(self.handle_update(owner, update, base_id));
            },
            TransactionType::Select(select) => {
                r.push(self.handle_select(owner, select));
            },
            TransactionType::RequestData(request) => {
                r.push(self.handle_request_data(owner, request));
            },
            TransactionType::InternodeSelect(_) => {},
        }
        r
    }

    /// Another node passed on the creation of an enterprise: this node's
    /// repository creates it too.
    pub fn handle_internode_create(&self, create: Create) -> (r: TmAction<O>)
        ensures
            r matches TmAction::Repository(ToRepository::Create(c)) && c == create,
    {
        TmAction::Repository(ToRepository::Create(create))
    }

    /// Another node passed on a write: this node's repository applies it.
    pub fn handle_set_own_data(&self, data: SetOwnData) -> (r: TmAction<O>)
        ensures
            r == TmAction::<O>::Repository(ToRepository::SetOwnData(data)),
    {
        TmAction::Repository(ToRepository::SetOwnData(data))
    }

    /// Every lock that this node holds belongs to one of its waiting
    /// updates, an update of the lock's enterprise; and every waiting update
    /// has an id that this node gave out and will not give out again.
    pub proof fn law_locks_belong_to_waiting_updates(&self)
        requires
            self.wf(),
        ensures
            locks_held_by_updates(self@),
            update_ids_issued(self@),
    {
    }
}

} // verus!
