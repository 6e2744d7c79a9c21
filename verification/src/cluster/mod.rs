pub mod messages;
pub mod registry;
pub mod spending_info;
pub mod repository;
pub mod transaction_with_id;
pub mod repository_manager;
pub mod lock_manager;
pub mod locks;
pub mod transaction_decisions;
pub mod election;
pub mod heartbeat;
pub mod connection;
pub mod transaction_manager;
pub mod server_peer;
