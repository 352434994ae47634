//! Errors of the overlay core.
use vstd::prelude::*;

verus! {

/// Everything that can go wrong inside the overlay core. Transport and
/// cryptographic failures raised by the surrounding runtime are mapped onto
/// these as well.
#[derive(Clone, Copy, Debug, PartialEq, Eq, Structural)]
pub enum Error {
    /// The receiving node is not the next hop the envelope names.
    InvalidNextHop,
    /// Two adjacent entries of a relay path are equal.
    InvalidRelayPath,
    /// A REPORT's return path does not end at the consuming node.
    InvalidRelayDestination,
    /// The envelope's TTL reached zero before its destination.
    ExpiredRelay,
    /// The local ring state names no node to forward to.
    MessageHandlerMissNextNode,
    /// An `AlreadyConnected` report arrived, but no such transport is
    /// registered.
    MessageHandlerMissTransportAlreadyConnected,
    /// A `ConnectNodeReport` arrived at its origin, but the pending
    /// transport for the answering node is gone.
    MessageHandlerMissTransportConnectedNode,
    /// The swarm table holds no transport for the identifier.
    SwarmMissAddressInTable,
    /// No pending transport carries the named handle.
    SwarmPendingTransNotFound,
    /// Closing a transport that was to be replaced failed.
    SwarmToClosePrevTransport,
    /// No fresh transport handle can be minted.
    InvalidTransportUuid,
    /// A signature did not match the claimed signer.
    VerifySignatureFailed,
    /// A secret key could not be parsed or used for signing.
    Libsecp256k1SecretKeyParse,
    /// Recovering the signer of a message failed.
    Libsecp256k1Recover,
    /// A wire payload could not be decoded.
    Deserialize,
    /// The cache holds no entry under the key.
    RedisMiss,
    /// The cache returned a value of an unexpected kind.
    RedisInvalidKind,
}

} // verus!
