//! Verified core of a LAN peer-to-peer discovery and messaging service.
//!
//! Peers advertise themselves on the local network, verify each other by
//! protocol/agent identity, exchange user profiles, track liveness and send
//! short chat messages.  This crate holds the verified logic: the registry of
//! verified nodes, the health tracker, the chat session layer, the wire
//! codecs and the engine state machine that multiplexes them.  Network and
//! file I/O live outside, in thin unverified glue that hands this crate
//! plain values.

pub mod agent;
pub mod bridge;
pub mod bytes;
pub mod codec;
pub mod config;
pub mod engine;
pub mod health;
pub mod identity;
pub mod json;
pub mod logging;
pub mod manager;
pub mod message;
pub mod node;
pub mod ui;
pub mod user_info;
pub mod wire;

pub use config::{MdnsConfig, ServiceInfo};
pub use engine::{DiscoveryEvent as ManagedDiscoveryEvent, Engine};
pub use health::{HealthCheckConfig, HealthStatus, NodeHealth};
pub use manager::{ChatEvent, ChatManager, ChatSession};
pub use message::{ChatError, ChatMessage, MessageAck, TextMessage, TypingIndicator};
pub use node::{NodeManager, NodeManagerConfig, VerifiedNode};
pub use user_info::UserInfo;

use vstd::prelude::*;

verus! {

/// Errors of the discovery service.
#[derive(Debug, Clone)]
pub enum MdnsError {
    /// An I/O failure, with a description.
    Io(Vec<u8>),
    /// Building or driving the network stack failed, with a description.
    SwarmBuild(Vec<u8>),
    /// The service was stopped.
    Stopped,
}

} // verus!
