//! An anti-entropy gossip engine: a record store that summarises its
//! membership with a bloom filter, a peer-client capability for exchanging
//! those summaries, and a gossiper that runs periodic reconciliation rounds
//! until it is told to stop.

pub mod bloom;
pub mod client;
pub mod errors;
pub mod gossip;
pub mod record;
pub mod store;

pub use client::{Client, LoopbackClient, NoOpClient};
pub use errors::{ConfigError, SetError, TransportError};
pub use gossip::{Config, Directive, GossipEvent, Gossiper, Phase};
pub use record::{Gossipable, Id, Record};
pub use store::RecordSet;
