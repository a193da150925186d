//! Proxy layer: PostgreSQL wire protocol proxy with connection pooling
//! and read/write routing.

pub mod backend;
pub mod connection;
pub mod encode;
pub mod health;
pub mod laws;
pub mod passthrough;
pub mod pool;
pub mod protocol;
pub mod router;
pub mod routing_laws;
pub mod scan;
pub mod session;
pub mod ssl;
pub mod wire_laws;
