//! Control-plane logic of a high-availability PostgreSQL cluster manager.

pub mod agent_clients;
pub mod api;
pub mod backup;
pub mod big_endian;
pub mod calendar;
pub mod cli;
pub mod clock;
pub mod config;
pub mod failover;
pub mod metrics_registry;
pub mod node_monitor;
pub mod numerals;
pub mod ops;
pub mod proxy;
pub mod raft;
pub mod server;
pub mod switchover;
pub mod table;
pub mod text;
pub mod tls;
