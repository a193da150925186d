//! The replicated cluster state and the commands that change it.

pub mod commands;
pub mod laws;
pub mod network;
pub mod state_machine;
pub mod storage;
pub mod timing;
pub mod topology;
pub mod types;
pub mod watch;

pub use topology::{ClusterTopology, NodeRole};
pub use watch::{TopologySender, TopologyWatch};
