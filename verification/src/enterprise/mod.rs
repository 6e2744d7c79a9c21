pub mod admin;
pub mod config;
pub mod logger;
pub mod enterprise;
pub mod proxy;
