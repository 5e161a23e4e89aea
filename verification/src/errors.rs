use vstd::prelude::*;

verus! {

/// Failures of the local record store.
#[derive(Clone, Copy, Debug, PartialEq, Eq, Structural)]
pub enum SetError {
    /// The record's payload failed the store's validation checks.
    SerializationError,
    /// A bounded store is full and cannot admit another record.
    CapacityError,
    /// The store could not build a membership summary.
    FilterBuildError,
}

/// Invalid construction parameters for a gossiper.
#[derive(Clone, Copy, Debug, PartialEq, Eq, Structural)]
pub enum ConfigError {
    /// The gossip period must be strictly positive.
    ZeroFrequency,
}

/// Per-call failures of the peer client; never fatal to the client itself.
#[derive(Clone, Copy, Debug, PartialEq, Eq, Structural)]
pub enum TransportError {
    /// No peer is connected, so delivery could not even be attempted.
    NoPeers,
    /// The underlying transport failed to send.
    SendFailed,
    /// No peer answered before the transport's deadline.
    Timeout,
}

} // verus!
