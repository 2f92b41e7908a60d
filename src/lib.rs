//! A peer-to-peer content distribution client: content-addressed fingerprints,
//! the decisions of the engine that correlates protocol queries with callers,
//! and the text protocol of the gateway.

pub mod client;
pub mod engine;
pub mod fingerprint;
pub mod gateway;
pub mod node;

pub use client::Command;
pub use engine::{Engine, EngineAction, FetchError, OverlayEvent};
pub use fingerprint::Fingerprint;
pub use node::{boxpeer_dir, NodeType, PeerInfo};
