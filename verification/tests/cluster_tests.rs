use anime_cluster::cluster::messages::{CardViewResponseData, PaymentViewResponseInfo};
use anime_cluster::cluster::transaction_decisions::{card_view_for_update, payment_view};
use anime_cluster::cluster::connection::{peers_to_dial, ConnectionAction, ConnectionManager, NewPeerDetectedFromHB, PeerDown, RegisterPeer, SetNewLeader};
use anime_cluster::cluster::election::{CallElection, ElectionAction, ElectionManager, ElectionMessage, ElectionStatus, RegisterPeerEM, TimeoutForWaitingLeader, TimeoutForWaitingOk};
use anime_cluster::cluster::heartbeat::{HBTrack, HeartbeatAction, HeartbeatManager, PingTarget};
use anime_cluster::cluster::messages::{
    Create, EnterpriseViewResponseData, PaymentType, Role, Select, SendBroadcastOfSetOwnData, SetOwnData, Update,
    UpdateRegister, UpdateType,
};
use anime_cluster::cluster::repository_manager::{RepositoryFault, RepositoryManager, SelectOutcome, UpdateOutcome};
use anime_cluster::cluster::spending_info::SpendingInfoRegister;
use anime_cluster::cluster::transaction_with_id::{SelectWithId, UpdateWithId};

fn create(enterprise_id: u32, limit: u32, cards: Vec<(u32, u32)>) -> Create {
    Create { enterprise_id, enterprise_limit: limit, card_limits: cards }
}

fn payment(enterprise_id: u32, card_id: u32, cost: u32) -> Update {
    Update::Payment {
        payment_id: "p1".to_string(),
        enterprise_id,
        card_id,
        cost,
        transaction_type: PaymentType::PaymentVerification,
    }
}

#[test]
fn spending_register_tracks_usage_and_limit() {
    let mut r = SpendingInfoRegister::new(5, Some(100));
    r.increase_usage(30);
    assert_eq!(r.get_current_usage(), 30);
    r.increment_limit(50);
    assert_eq!(r.get_limit(), Some(150));
    r.decrement_limit(20);
    assert_eq!(r.get_limit(), Some(130));
    r.set_usage(7);
    assert_eq!(r.get_current_usage(), 7);
    r.set_limit(None);
    assert_eq!(r.get_limit(), None);
    assert_eq!(r.get_card_id(), 5);
}

#[test]
fn repository_answers_queries_on_its_enterprises() {
    let mut m = RepositoryManager::new();
    m.handle_create(&create(1, 1000, vec![(10, 300), (11, 200)]));
    match m.handle_select(SelectWithId { transaction_id: "+0".to_string(), select: Select::CardView { enterprise_id: 1, card_id: 10 } }) {
        SelectOutcome::CardView(r) => {
            let d = r.response.unwrap();
            assert_eq!(d.card_limit, Some(300));
            assert_eq!(d.card_usage, 0);
            assert_eq!(d.enterprise_limit, Some(1000));
        }
        _ => panic!("the card is known here"),
    }
    match m.handle_select(SelectWithId { transaction_id: "+1".to_string(), select: Select::EnterpriseView { enterprise_id: 1 } }) {
        SelectOutcome::EnterpriseView(r) => {
            assert_eq!(r.data, Some(EnterpriseViewResponseData { usage: 0, limit: 1000 }));
        }
        _ => panic!("the enterprise is known here"),
    }
    match m.handle_select(SelectWithId { transaction_id: "+2".to_string(), select: Select::EnterpriseView { enterprise_id: 9 } }) {
        SelectOutcome::Forward(_) => {}
        _ => panic!("an unknown enterprise is asked of the other nodes"),
    }
}

#[test]
fn payment_within_limits_is_accepted_and_written() {
    let mut m = RepositoryManager::new();
    m.handle_create(&create(1, 100, vec![(10, 50)]));
    let msg = UpdateWithId { initial_leader: Some(2), transaction_id: "p1+0".to_string(), update: payment(1, 10, 40) };
    let decided = match m.handle_update(msg) {
        Ok(UpdateOutcome::Decided(Some(b))) => b,
        _ => panic!("the payment is decided here"),
    };
    assert!(decided.result);
    assert!(decided.do_broadcast);
    assert_eq!(
        decided.command.data,
        UpdateRegister::CardLimitOrUsage { card_id: 10, card_limit: 50, card_usage: 40, enterprise_limit: 100, enterprise_usage: 40 }
    );
    m.handle_set_own_data(decided.command);
    let msg = UpdateWithId { initial_leader: Some(2), transaction_id: "p1+1".to_string(), update: payment(1, 10, 20) };
    match m.handle_update(msg) {
        Ok(UpdateOutcome::Decided(Some(b))) => {
            assert!(!b.result);
            assert!(!b.do_broadcast);
        }
        _ => panic!("the payment is decided here"),
    }
}

#[test]
fn update_of_unknown_card_is_refused() {
    let mut m = RepositoryManager::new();
    m.handle_create(&create(1, 100, vec![(10, 50)]));
    let msg = UpdateWithId { initial_leader: None, transaction_id: "x+0".to_string(), update: payment(1, 99, 1) };
    assert!(matches!(m.handle_update(msg), Err(RepositoryFault::CardNotFound)));
}

#[test]
fn enterprise_limit_change_is_decided() {
    let mut m = RepositoryManager::new();
    m.handle_create(&create(1, 100, vec![]));
    let up = Update::EnterpriseLimitUpdate { enterprise_id: 1, limit: 25, update_type: UpdateType::Increment };
    match m.handle_update(UpdateWithId { initial_leader: None, transaction_id: "e+0".to_string(), update: up }) {
        Ok(UpdateOutcome::Decided(Some(b))) => {
            assert_eq!(b.command, SetOwnData { enterprise_id: 1, data: UpdateRegister::EnterpriseLimit { limit: 125, usage: 0 } });
        }
        _ => panic!("decided here"),
    }
    let down = Update::EnterpriseLimitUpdate { enterprise_id: 1, limit: 101, update_type: UpdateType::Decrement };
    assert!(matches!(
        m.handle_update(UpdateWithId { initial_leader: None, transaction_id: "e+1".to_string(), update: down }),
        Err(RepositoryFault::OutOfRange)
    ));
}

#[test]
fn broadcast_decision_carries_its_fields() {
    let b = SendBroadcastOfSetOwnData {
        command: SetOwnData { enterprise_id: 3, data: UpdateRegister::EnterpriseLimit { limit: 1, usage: 0 } },
        initial_leader: None,
        result: true,
        do_broadcast: false,
    };
    assert_eq!(b.command.enterprise_id, 3);
}

#[test]
fn election_without_higher_nodes_makes_this_node_leader() {
    let mut em = ElectionManager::new(3);
    em.register_peer(RegisterPeerEM { id: 1 });
    em.register_peer(RegisterPeerEM { id: 2 });
    let a = em.call_election(CallElection { round: 1 });
    assert_eq!(a, vec![ElectionAction::StartOkTimer { round: 1 }]);
    let b = em.timeout_for_waiting_ok(TimeoutForWaitingOk { round: 1 });
    assert_eq!(b[0], ElectionAction::NewLeader { peer_id: 3 });
    assert_eq!(em.leader(), Some(3));
    assert_eq!(em.status(), ElectionStatus::Leader { round: 1 });
}

#[test]
fn election_asks_higher_nodes_and_waits_for_the_leader() {
    let mut em = ElectionManager::new(1);
    em.register_peer(RegisterPeerEM { id: 2 });
    em.register_peer(RegisterPeerEM { id: 3 });
    let a = em.call_election(CallElection { round: 4 });
    assert_eq!(
        a,
        vec![
            ElectionAction::Send { to: 2, msg: ElectionMessage::Election { from: 1, round: 4 } },
            ElectionAction::Send { to: 3, msg: ElectionMessage::Election { from: 1, round: 4 } },
            ElectionAction::StartOkTimer { round: 4 },
        ]
    );
    let b = em.handle_message(ElectionMessage::ElectionOk { from: 3, round: 4 });
    assert_eq!(b, vec![ElectionAction::StartLeaderTimer { round: 4 }]);
    let c = em.timeout_for_waiting_leader(TimeoutForWaitingLeader { round: 4 });
    assert_eq!(c, vec![ElectionAction::RestartElection]);
    let d = em.handle_message(ElectionMessage::ImLeader { from: 3, round: 4 });
    assert_eq!(d, vec![ElectionAction::NewLeader { peer_id: 3 }]);
    assert_eq!(em.leader(), Some(3));
}

#[test]
fn stale_leader_announcement_is_ignored() {
    let mut em = ElectionManager::new(1);
    em.call_election(CallElection { round: 5 });
    assert_eq!(em.handle_message(ElectionMessage::ImLeader { from: 2, round: 3 }), vec![]);
    assert_eq!(em.round(), 5);
}

#[test]
fn election_from_lower_node_is_answered() {
    let mut em = ElectionManager::new(5);
    let a = em.handle_message(ElectionMessage::Election { from: 2, round: 7 });
    assert_eq!(
        a,
        vec![
            ElectionAction::Reply { msg: ElectionMessage::ElectionOk { from: 5, round: 7 } },
            ElectionAction::CallElection { round: 7 },
        ]
    );
}

#[test]
fn heartbeat_discovers_then_reports_silent_nodes() {
    let mut hb = HeartbeatManager::new(1, 3, 1, 2);
    let first = hb.send_discovery_round();
    assert_eq!(first, vec![HeartbeatAction::Ping(PingTarget::Seed(2)), HeartbeatAction::Ping(PingTarget::Seed(3))]);
    assert_eq!(hb.send_discovery_round(), vec![]);
    hb.track(HBTrack { id: 2, role: Role::Internode });
    let t1 = hb.tick();
    assert_eq!(t1, vec![HeartbeatAction::Ping(PingTarget::Peer(2))]);
    let t2 = hb.tick();
    assert_eq!(t2, vec![HeartbeatAction::Ping(PingTarget::Peer(2)), HeartbeatAction::PeerDown(2)]);
    assert_eq!(hb.tick(), vec![]);
}

#[test]
fn heartbeat_resets_misses_and_reports_new_nodes() {
    let mut hb = HeartbeatManager::new(1, 1, 0, 2);
    hb.track(HBTrack { id: 2, role: Role::Internode });
    hb.tick();
    assert_eq!(hb.heartbeat_received(2), None);
    assert_eq!(hb.tick(), vec![HeartbeatAction::Ping(PingTarget::Peer(2))]);
    assert_eq!(hb.heartbeat_received(9), Some(HeartbeatAction::NewPeerDetected(9)));
    assert_eq!(hb.heartbeat_received(1), None);
}

#[test]
fn nodes_dial_the_lower_nodes() {
    assert_eq!(peers_to_dial(5, 3, None), vec![1, 2]);
    assert_eq!(peers_to_dial(2, 4, None), vec![1, 2]);
    assert_eq!(peers_to_dial(5, 1, None), Vec::<u32>::new());
    assert_eq!(peers_to_dial(5, 3, Some(vec![4])), vec![4]);
}

#[test]
fn connections_by_role_and_leader_down() {
    let mut cm: ConnectionManager<&str> = ConnectionManager::new(3);
    cm.set_heartbeat_addr();
    cm.set_election_manager_addr();
    cm.set_transaction_manager_addr();
    let reg = cm.register_peer(RegisterPeer { id: 1, address: "a", role: Role::Internode });
    assert_eq!(reg.len(), 3);
    assert!(matches!(reg[0], ConnectionAction::RegisterToElection(RegisterPeerEM { id: 1 })));
    assert!(matches!(reg[1], ConnectionAction::RegisterToTransactions { id: 1 }));
    assert!(matches!(reg[2], ConnectionAction::TrackToHeartbeat(HBTrack { id: 1, role: Role::Internode })));
    cm.register_peer(RegisterPeer { id: 1, address: "b", role: Role::Internode });
    assert_eq!(cm.peer(1), Some(&"b"));
    let station = cm.register_peer(RegisterPeer { id: 8, address: "s", role: Role::Station });
    assert_eq!(station.len(), 1);
    cm.set_new_leader(SetNewLeader { peer_id: 1 });
    assert_eq!(cm.leader(), Some(1));
    let out = cm.peer_down(PeerDown { id: 1 });
    assert_eq!(out.len(), 5);
    assert!(matches!(out[0], ConnectionAction::PeerDownToTransactions(PeerDown { id: 1 })));
    assert!(matches!(out[1], ConnectionAction::Shutdown("b")));
    assert!(matches!(out[2], ConnectionAction::UntrackToHeartbeat(_)));
    assert!(matches!(out[3], ConnectionAction::UntrackToElection(_)));
    assert!(matches!(out[4], ConnectionAction::CallElection));
    assert_eq!(cm.leader(), None);
    assert!(cm.should_dial(NewPeerDetectedFromHB { peer_id: 2 }));
    assert!(!cm.should_dial(NewPeerDetectedFromHB { peer_id: 4 }));
}

#[test]
fn leader_down_without_election_manager_keeps_the_leader() {
    let mut cm: ConnectionManager<&str> = ConnectionManager::new(3);
    cm.register_peer(RegisterPeer { id: 1, address: "a", role: Role::Internode });
    cm.set_new_leader(SetNewLeader { peer_id: 1 });
    let out = cm.peer_down(PeerDown { id: 1 });
    assert_eq!(out.len(), 1);
    assert_eq!(cm.leader(), Some(1));
}

#[test]
fn written_registers_are_read_back() {
    let mut m = RepositoryManager::new();
    m.handle_create(&create(2, 80, vec![(5, 30)]));
    m.handle_set_own_data(SetOwnData {
        enterprise_id: 2,
        data: UpdateRegister::CardLimitOrUsage { card_id: 5, card_limit: 45, card_usage: 12, enterprise_limit: 90, enterprise_usage: 12 },
    });
    match m.handle_select(SelectWithId { transaction_id: "+0".to_string(), select: Select::CardView { enterprise_id: 2, card_id: 5 } }) {
        SelectOutcome::CardView(r) => {
            let d = r.response.unwrap();
            assert_eq!((d.card_limit, d.card_usage, d.enterprise_limit, d.enterprise_usage), (Some(45), 12, Some(90), 12));
        }
        _ => panic!("the card is known here"),
    }
    m.handle_set_own_data(SetOwnData { enterprise_id: 2, data: UpdateRegister::EnterpriseLimit { limit: 200, usage: 15 } });
    match m.handle_select(SelectWithId { transaction_id: "+1".to_string(), select: Select::EnterpriseView { enterprise_id: 2 } }) {
        SelectOutcome::EnterpriseView(r) => assert_eq!(r.data, Some(EnterpriseViewResponseData { usage: 15, limit: 200 })),
        _ => panic!("the enterprise is known here"),
    }
}

#[test]
fn card_limit_increase_past_the_range_is_refused() {
    let up = Update::CardLimitUpdate { enterprise_id: 1, card_id: 2, limit: 10, update_type: UpdateType::Increment };
    let data = CardViewResponseData { enterprise_usage: 0, enterprise_limit: Some(5), card_usage: 0, card_limit: Some(u32::MAX - 3) };
    assert!(matches!(card_view_for_update(&up, data, None), Err(RepositoryFault::OutOfRange)));
    let down = Update::CardLimitUpdate { enterprise_id: 1, card_id: 2, limit: 10, update_type: UpdateType::Decrement };
    let data = CardViewResponseData { enterprise_usage: 0, enterprise_limit: None, card_usage: 1, card_limit: Some(4) };
    match card_view_for_update(&down, data, Some(3)) {
        Ok(Some(b)) => assert_eq!(
            b.command.data,
            UpdateRegister::CardLimitOrUsage { card_id: 2, card_limit: 0, card_usage: 1, enterprise_limit: 0, enterprise_usage: 0 }
        ),
        _ => panic!("a decrease stops at zero"),
    }
}

#[test]
fn payment_from_fetched_data_is_checked_against_limits() {
    let info = PaymentViewResponseInfo { card_limit: Some(10), card_usage: 8, enterprise_limit: None, enterprise_usage: 8 };
    match payment_view(&payment(1, 2, 3), info, None) {
        Ok(Some(b)) => {
            assert!(!b.result);
            assert!(!b.do_broadcast);
        }
        _ => panic!("decided"),
    }
    let forced = Update::Payment { payment_id: "f".to_string(), enterprise_id: 1, card_id: 2, cost: 3, transaction_type: PaymentType::ForcePayment };
    match payment_view(&forced, info, None) {
        Ok(Some(b)) => assert!(b.result && b.do_broadcast),
        _ => panic!("decided"),
    }
}
