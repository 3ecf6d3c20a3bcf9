use vstd::prelude::*;

verus! {

/// Everything that can go wrong around the bridge, each case carrying a
/// human-readable description.
#[derive(Debug, PartialEq, Eq)]
pub enum BridgeError {
    ConfigError(String),
    NetworkError(String),
    ConnectionFailed(String),
    InvalidNodeId(String),
    RequestFailed(String),
    ResponseParseError(String),
    GossipError(String),
    ServiceRegistryError(String),
    HttpBridgeError(String),
    BackendError(String),
    SerializationError(String),
    IoError(String),
    IrohError(String),
    TimeoutError(String),
}

} // verus!
