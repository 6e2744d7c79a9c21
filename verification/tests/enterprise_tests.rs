use anime_cluster::cluster::messages::{CardViewResponseData, ProtocolMessage, Role, Select, TransactionResponse, Update, UpdateType};
use anime_cluster::enterprise::admin::{AdminCommand, AdminInput, ParseCommandError};
use anime_cluster::enterprise::config::{CardConfig, EnterpriseConfig, ProxyConfig};
use anime_cluster::enterprise::enterprise::{Enterprise, Incoming};
use anime_cluster::enterprise::logger::{LogEvent, Logger};
use anime_cluster::enterprise::proxy::{next_node, node_address};

fn config() -> EnterpriseConfig {
    EnterpriseConfig {
        id: 9,
        balance: 500,
        cards: vec![CardConfig { id: 1, limit: 100 }, CardConfig { id: 2, limit: 50 }, CardConfig { id: 1, limit: 70 }],
    }
}

#[test]
fn commands_are_parsed() {
    assert_eq!(AdminInput::parse_command("enterprise view").unwrap(), AdminCommand::EnterpriseView {});
    assert_eq!(AdminInput::parse_command("card view 12").unwrap(), AdminCommand::CardView { card_id: 12 });
    assert_eq!(
        AdminInput::parse_command("card add 3 40").unwrap(),
        AdminCommand::UpdateCardLimit { card_id: 3, limit: 40, update_type: UpdateType::Increment }
    );
    assert_eq!(
        AdminInput::parse_command("  enterprise   set 900 ").unwrap(),
        AdminCommand::UpdateEnterpriseLimit { limit: 900, update_type: UpdateType::SetValue }
    );
}

#[test]
fn command_errors_say_why() {
    assert!(matches!(AdminInput::parse_command(""), Err(ParseCommandError::Empty)));
    match AdminInput::parse_command("fly away") {
        Err(ParseCommandError::UnknownCommand(l)) => assert_eq!(l, "fly away"),
        _ => panic!("unknown"),
    }
    match AdminInput::parse_command("card view x") {
        Err(ParseCommandError::InvalidArguments(m)) => assert_eq!(m, "Card ID must be a number."),
        _ => panic!("bad card"),
    }
    match AdminInput::parse_command("card mul 1 2") {
        Err(ParseCommandError::InvalidArguments(m)) => assert_eq!(m, "Invalid update type 'mul'"),
        _ => panic!("bad op"),
    }
    match AdminInput::parse_command("enterprise sub -5") {
        Err(ParseCommandError::InvalidArguments(m)) => assert_eq!(m, "Limit must be a positive number."),
        _ => panic!("bad limit"),
    }
}

#[test]
fn log_lines_are_formatted() {
    let logger = Logger;
    assert_eq!(
        logger.format(&LogEvent::Transaction { card_id: 3, amount: 250, station_id: 8 }),
        Some("[PROXY] Card 3 - Amount 250 - Station 8".to_string())
    );
    assert_eq!(
        logger.format(&LogEvent::CardView { card_id: 1, usage: 0, limit: 100 }),
        Some("[ADMIN] Card 1 - Usage: 0 - Limit: 100".to_string())
    );
    assert_eq!(
        logger.format(&LogEvent::EnterpriseView { usage: 10, limit: 20 }),
        Some("[ADMIN] Enterprise - Usage: 10 - Limit: 20".to_string())
    );
    assert_eq!(logger.format(&LogEvent::FirstMsg { from: 1, data: "x".to_string() }), None);
}

#[test]
fn proxy_settings_are_read() {
    let c = ProxyConfig::from_values("localhost".to_string(), "7000", "8000", "5").unwrap();
    assert_eq!(c.host, "localhost");
    assert_eq!(c.proxy_port, 7000);
    assert_eq!(c.internode_port, 8000);
    assert_eq!(c.node_count, 5);
    assert!(ProxyConfig::from_values("h".to_string(), "70x", "8000", "5").is_none());
}

#[test]
fn enterprise_sends_nothing_before_its_proxy() {
    let e = Enterprise::new(config());
    assert!(e.handle_admin_command(AdminCommand::EnterpriseView {}).is_none());
}

#[test]
fn enterprise_announces_itself_with_its_cards() {
    let mut e = Enterprise::new(config());
    let msgs = e.set_proxy_addr();
    assert_eq!(msgs.len(), 2);
    match &msgs[0] {
        ProtocolMessage::StartUp { from, role } => {
            assert_eq!(*from, 9);
            assert_eq!(*role, Role::Proxy);
        }
        _ => panic!("start-up first"),
    }
    match &msgs[1] {
        ProtocolMessage::EnterpriseCreate { enterprise_id, enterprise_balance, card_limits } => {
            assert_eq!(*enterprise_id, 9);
            assert_eq!(*enterprise_balance, 500);
            let mut last: std::collections::HashMap<u32, u32> = std::collections::HashMap::new();
            for (id, limit) in card_limits {
                last.insert(*id, *limit);
            }
            assert_eq!(last.len(), 2);
            assert_eq!(last[&1], 70);
            assert_eq!(last[&2], 50);
        }
        _ => panic!("creation second"),
    }
}

#[test]
fn enterprise_commands_become_messages() {
    let mut e = Enterprise::new(config());
    e.set_proxy_addr();
    match e.handle_admin_command(AdminCommand::CardView { card_id: 5 }) {
        Some(ProtocolMessage::Select(s)) => assert_eq!(s, Select::CardView { enterprise_id: 9, card_id: 5 }),
        _ => panic!("a card query"),
    }
    match e.handle_admin_command(AdminCommand::UpdateCardLimit { card_id: 2, limit: 10, update_type: UpdateType::Decrement }) {
        Some(ProtocolMessage::Update(Update::CardLimitUpdate { enterprise_id, card_id, limit, update_type })) => {
            assert_eq!((enterprise_id, card_id, limit, update_type), (9, 2, 10, UpdateType::Decrement));
        }
        _ => panic!("a card update"),
    }
    assert!(e.handle_admin_command(AdminCommand::UpdateCardLimit { card_id: 3, limit: 10, update_type: UpdateType::Decrement }).is_none());
    assert!(e.has_card(1));
    assert!(!e.has_card(3));
}

#[test]
fn enterprise_logs_what_comes_back() {
    let e = Enterprise::new(config());
    let card = ProtocolMessage::TransactionResponse(TransactionResponse::CardViewResponse {
        card_id: 1,
        enterprise_id: 9,
        transaction_id: "+0".to_string(),
        response: Some(CardViewResponseData { enterprise_usage: 5, enterprise_limit: Some(9), card_usage: 4, card_limit: None }),
    });
    match e.handle_incoming(card, 0) {
        Incoming::Log(LogEvent::CardView { card_id, usage, limit }) => assert_eq!((card_id, usage, limit), (1, 4, 0)),
        _ => panic!("a card view is logged"),
    }
    let pay = ProtocolMessage::Update(Update::Payment {
        payment_id: "p".to_string(),
        enterprise_id: 9,
        card_id: 1,
        cost: 30,
        transaction_type: anime_cluster::cluster::messages::PaymentType::ForcePayment,
    });
    match e.handle_incoming(pay, 6) {
        Incoming::Log(LogEvent::Transaction { card_id, amount, station_id }) => assert_eq!((card_id, amount, station_id), (1, 30, 6)),
        _ => panic!("a payment is logged"),
    }
    let empty = ProtocolMessage::TransactionResponse(TransactionResponse::EnterpriseViewResponse { transaction_id: "+1".to_string(), response: None });
    assert!(matches!(e.handle_incoming(empty, 0), Incoming::Quiet));
    assert!(matches!(e.handle_incoming(ProtocolMessage::Select(Select::EnterpriseView { enterprise_id: 9 }), 0), Incoming::Unknown));
}

#[test]
fn enterprise_settings_are_read_from_toml() {
    let text = "id = 4\nbalance = 1200\n\n[[cards]]\nid = 7\nlimit = 300\n\n[[cards]]\nid = 2\nlimit = 50\n";
    let c = EnterpriseConfig::from_toml(text).unwrap();
    assert_eq!(c.id, 4);
    assert_eq!(c.balance, 1200);
    assert_eq!(c.cards, vec![CardConfig { id: 7, limit: 300 }, CardConfig { id: 2, limit: 50 }]);
}

#[test]
fn enterprise_settings_without_a_balance_are_refused() {
    let text = "id = 4\n\n[[cards]]\nid = 7\nlimit = 300\n";
    assert!(EnterpriseConfig::from_toml(text).is_none());
    assert!(EnterpriseConfig::from_toml("id = = 4").is_none());
}

#[test]
fn proxy_tries_the_nodes_in_turn() {
    assert_eq!(next_node(1, 3), 2);
    assert_eq!(next_node(2, 3), 3);
    assert_eq!(next_node(3, 3), 1);
    assert_eq!(next_node(1, 1), 1);
    assert_eq!(node_address("127.0.0.1", 9000, 2), "127.0.0.1:9002");
}
