use anime_cluster::cluster::lock_manager::{LockManager, Pending};
use anime_cluster::cluster::locks::{LockGranted, NextLock, ReleaseLock};
use anime_cluster::cluster::messages::{
    PaymentType, ProtocolMessage, Role, SendBroadcastOfSetOwnData, SetOwnData, TransactionResponse, Update,
    UpdateRegister, UpdateType,
};
use anime_cluster::cluster::server_peer::{PeerStep, ServerPeer};
use anime_cluster::cluster::transaction_manager::{
    RegisterPeerTM, TmAction, ToPeer, ToRepository, ToSelf, Transaction, TransactionManager, TransactionType,
};
use anime_cluster::cluster::transaction_with_id::UpdateWithId;

fn payment(cost: u32) -> Update {
    Update::Payment { payment_id: "pay".to_string(), enterprise_id: 7, card_id: 3, cost, transaction_type: PaymentType::ForcePayment }
}

fn pending(owner: Option<u32>, owner_id: u32, tid: &str) -> Pending<u32> {
    Pending { owner, owner_id, transaction_id: tid.to_string(), enterprise_id: 7, got_lock: false }
}

#[test]
fn lock_queue_grants_the_front_once() {
    let mut lm: LockManager<u32> = LockManager::new();
    lm.add_pending(7, pending(None, 1, "a"));
    lm.add_pending(7, pending(Some(9), 2, "b"));
    assert!(lm.grant_front(&7));
    assert!(!lm.grant_front(&7));
    assert!(!lm.release_front(&7, &"b".to_string()));
    assert!(lm.release_front(&7, &"a".to_string()));
    assert_eq!(lm.peek_pending(&7).unwrap().transaction_id, "b");
    assert!(lm.grant_front(&7));
    assert_eq!(lm.get_locks_granted_to(2), vec![7]);
    assert!(!lm.has_pending(&7) || lm.peek_pending(&7).is_none());
}

#[test]
fn locks_are_held_and_released_by_transaction() {
    let mut lm: LockManager<u32> = LockManager::new();
    lm.grant_lock(7, "t1".to_string());
    assert!(lm.is_locked(&7));
    assert!(lm.is_transaction_locked(7, &"t1".to_string()));
    assert!(!lm.is_transaction_locked(7, &"t2".to_string()));
    assert_eq!(lm.release_lock(&7), Some("t1".to_string()));
    assert!(!lm.is_locked(&7));
    assert_eq!(lm.release_lock(&7), None);
}

#[test]
fn update_gets_an_id_and_asks_for_its_lock() {
    let mut tm: TransactionManager<u32> = TransactionManager::new(1);
    let a = tm.handle_update(100, payment(5), "pay");
    let msg = match a {
        TmAction::Myself(ToSelf::UpdateWithId(m)) => m,
        _ => panic!("the update goes on to ask for its lock"),
    };
    assert_eq!(msg.transaction_id, "pay+0");
    assert!(tm.has_update("pay+0"));
    assert_eq!(tm.update_counter(), 1);
    assert!(tm.handle_update_with_id(msg).is_none());
}

#[test]
fn leader_grants_its_own_update_and_decides_it() {
    let mut tm: TransactionManager<u32> = TransactionManager::new(1);
    tm.handle_set_new_leader(1);
    let msg = match tm.handle_update(100, payment(5), "pay") {
        TmAction::Myself(ToSelf::UpdateWithId(m)) => m,
        _ => panic!("update with id"),
    };
    let p = match tm.handle_update_with_id(msg) {
        Some(TmAction::Myself(ToSelf::Pending(p))) => p,
        _ => panic!("the leader queues its own request"),
    };
    assert_eq!(p.transaction_id, "pay+0");
    assert_eq!(p.enterprise_id, 7);
    let next = match tm.handle_pending(p) {
        Some(TmAction::Myself(ToSelf::NextLock(n))) => n,
        _ => panic!("a free lock goes on to be granted"),
    };
    assert_eq!(next, NextLock { enterprise_id: 7 });
    let granted = match tm.handle_next_lock(next) {
        Some(TmAction::Myself(ToSelf::LockGranted(g))) => g,
        _ => panic!("the grant goes to this node"),
    };
    assert!(tm.handle_next_lock(NextLock { enterprise_id: 7 }).is_none());
    match tm.handle_lock_granted(granted) {
        Some(TmAction::Repository(ToRepository::UpdateWithId(u))) => {
            assert_eq!(u.transaction_id, "pay+0");
            assert_eq!(u.initial_leader, Some(1));
        }
        _ => panic!("the update goes to the repository"),
    }
    let decision = SendBroadcastOfSetOwnData {
        command: SetOwnData {
            enterprise_id: 7,
            data: UpdateRegister::CardLimitOrUsage { card_id: 3, card_limit: 10, card_usage: 5, enterprise_limit: 10, enterprise_usage: 5 },
        },
        initial_leader: Some(1),
        result: true,
        do_broadcast: true,
    };
    let out = tm.handle_broadcast(decision);
    assert_eq!(out.len(), 4);
    assert!(matches!(out[0], TmAction::AllPeers { skip_self: true, msg: ToPeer::Broadcast(_) }));
    assert!(matches!(out[1], TmAction::Repository(ToRepository::SetOwnData(_))));
    match &out[2] {
        TmAction::Reply { to, response: TransactionResponse::TransactionResultResponse { transaction_id, result } } => {
            assert_eq!(*to, 100);
            assert_eq!(transaction_id, "pay+0");
            assert!(*result);
        }
        _ => panic!("the payment's owner learns the result"),
    }
    match &out[3] {
        TmAction::Myself(ToSelf::ReleaseLock(r)) => assert_eq!(r.transaction_id, "pay+0"),
        _ => panic!("the lock goes back to the leader"),
    }
    assert!(!tm.has_update("pay+0"));
    assert_eq!(
        tm.handle_release_lock(ReleaseLock { transaction_id: "pay+0".to_string(), enterprise_id: 7 }).is_some(),
        true
    );
}

#[test]
fn lock_is_asked_of_a_remote_leader() {
    let mut tm: TransactionManager<u32> = TransactionManager::new(1);
    tm.handle_register_peer(RegisterPeerTM { id: 2, addr: 20 });
    tm.handle_set_new_leader(2);
    let msg = UpdateWithId {
        initial_leader: Some(2),
        transaction_id: "x+0".to_string(),
        update: Update::EnterpriseLimitUpdate { enterprise_id: 4, limit: 1, update_type: UpdateType::SetValue },
    };
    match tm.handle_update_with_id(msg) {
        Some(TmAction::Peer { peer_id, msg: ToPeer::AcquireLock(m) }) => {
            assert_eq!(peer_id, 2);
            assert_eq!(m.from, 1);
            assert_eq!(m.enterprise_id, 4);
            assert_eq!(m.transaction_id, "x+0");
        }
        _ => panic!("the request goes to the leader"),
    }
}

#[test]
fn grant_to_a_remote_request_goes_to_its_connection() {
    let mut tm: TransactionManager<u32> = TransactionManager::new(1);
    tm.handle_pending(pending(Some(50), 2, "r+0"));
    match tm.handle_next_lock(NextLock { enterprise_id: 7 }) {
        Some(TmAction::ToRequester { enterprise_id, msg: ToPeer::LockGranted(g) }) => {
            assert_eq!(enterprise_id, 7);
            assert_eq!(g.transaction_id, "r+0");
        }
        _ => panic!("the grant goes to the connection that asked"),
    }
    assert_eq!(tm.requester(7), Some(&50));
    assert_eq!(tm.requester(8), None);
    let downs = tm.handle_peer_down(2);
    assert_eq!(downs.len(), 1);
    assert!(matches!(downs[0], TmAction::Myself(ToSelf::NextLock(NextLock { enterprise_id: 7 }))));
}

#[test]
fn query_ids_count_up() {
    let mut tm: TransactionManager<u32> = TransactionManager::new(1);
    let r = tm.handle_transaction(
        Transaction {
            owner: 5,
            transaction: TransactionType::Select(anime_cluster::cluster::messages::Select::EnterpriseView { enterprise_id: 1 }),
            id: None,
            initial_leader: None,
        },
        "",
    );
    match &r[0] {
        TmAction::Repository(ToRepository::SelectWithId(m)) => assert_eq!(m.transaction_id, "+0"),
        _ => panic!("the query goes to the repository"),
    }
    assert_eq!(tm.select_counter(), 1);
    assert_eq!(tm.select_owner("+0"), Some(&5));
}

#[test]
fn lock_granted_twice_is_taken_once() {
    let mut tm: TransactionManager<u32> = TransactionManager::new(1);
    tm.handle_update(100, payment(5), "pay");
    tm.handle_update(101, payment(6), "pay");
    assert!(tm.handle_lock_granted(LockGranted { transaction_id: "pay+0".to_string(), enterprise_id: 7 }).is_some());
    assert!(tm.handle_lock_granted(LockGranted { transaction_id: "pay+1".to_string(), enterprise_id: 7 }).is_none());
}

#[test]
fn server_peer_greets_and_routes() {
    let mut sp = ServerPeer::new(4);
    match sp.handle_message(ProtocolMessage::StartUp { from: 2, role: Role::Internode }, 0u32) {
        PeerStep::Register { id, role, reply: ProtocolMessage::FirstMsg { from, data } } => {
            assert_eq!(id, 2);
            assert_eq!(role, Role::Internode);
            assert_eq!(from, 4);
            assert_eq!(data, "Hello from Server Peer 4, StartUp msg from Internode: 2 received ");
        }
        _ => panic!("a start-up registers the connection"),
    }
    assert_eq!(sp.get_role(), Some(Role::Internode));
    match sp.handle_message(
        ProtocolMessage::AcquireLock { transaction_id: "t".to_string(), enterprise_id: 7, from: 2 },
        11u32,
    ) {
        PeerStep::Pending(p) => {
            assert_eq!(p.owner, Some(11));
            assert_eq!(p.owner_id, 2);
            assert!(!p.got_lock);
        }
        _ => panic!("a lock request is queued"),
    }
    assert!(matches!(sp.handle_message(ProtocolMessage::FirstMsg { from: 2, data: "hi".to_string() }, 0u32), PeerStep::Nothing));
}

#[test]
fn outgoing_decision_is_sent_as_its_write() {
    let command = SetOwnData { enterprise_id: 1, data: UpdateRegister::EnterpriseLimit { limit: 5, usage: 1 } };
    let msg = ServerPeer::outgoing(ToPeer::Broadcast(SendBroadcastOfSetOwnData {
        command,
        initial_leader: None,
        result: true,
        do_broadcast: true,
    }));
    match msg {
        ProtocolMessage::InternodeSetOwnData(c) => assert_eq!(c, command),
        _ => panic!("a decision travels as its write"),
    }
}

#[test]
fn lock_request_sent_is_read_back_as_pending() {
    let sent = ServerPeer::outgoing(ToPeer::AcquireLock(anime_cluster::cluster::locks::AcquireLock {
        from: 3,
        transaction_id: "q+2".to_string(),
        enterprise_id: 8,
    }));
    let mut sp = ServerPeer::new(1);
    match sp.handle_message(sent, 77u32) {
        PeerStep::Pending(p) => {
            assert_eq!(p.owner, Some(77));
            assert_eq!(p.owner_id, 3);
            assert_eq!(p.transaction_id, "q+2");
            assert_eq!(p.enterprise_id, 8);
            assert!(!p.got_lock);
        }
        _ => panic!("a lock request is read back as a queued request"),
    }
    let grant = ServerPeer::outgoing(ToPeer::LockGranted(LockGranted { transaction_id: "q+2".to_string(), enterprise_id: 8 }));
    match sp.handle_message(grant, 77u32) {
        PeerStep::LockGranted(g) => assert_eq!((g.transaction_id.as_str(), g.enterprise_id), ("q+2", 8)),
        _ => panic!("a grant is read back as a grant"),
    }
}

#[test]
fn new_leader_asks_again_for_every_waiting_update() {
    let mut tm: TransactionManager<u32> = TransactionManager::new(1);
    tm.handle_update(100, payment(5), "a");
    tm.handle_update(101, payment(6), "b");
    tm.handle_register_peer(RegisterPeerTM { id: 4, addr: 40 });
    let out = tm.handle_set_new_leader(4);
    assert_eq!(out.len(), 2);
    for (a, tid) in out.iter().zip(["a+0", "b+1"]) {
        match a {
            TmAction::Peer { peer_id, msg: ToPeer::AcquireLock(m) } => {
                assert_eq!(*peer_id, 4);
                assert_eq!(m.transaction_id, tid);
                assert_eq!(m.enterprise_id, 7);
            }
            _ => panic!("each waiting update asks the new leader"),
        }
    }
    assert_eq!(tm.leader(), Some(4));
}
