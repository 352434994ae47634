//! A Chord-style structured overlay node: 160-bit ring identifiers, the
//! peer ring state with its stabilization rules, the source-routed relay
//! envelope carried by every overlay message, the swarm registry binding
//! identifiers to live transports, and the signatures that authenticate
//! envelope origins.

pub mod chord;
pub mod codec;
pub mod did;
pub mod ecc;
pub mod err;
pub mod handlers;
pub mod message;
pub mod relay;
pub mod session;
pub mod stabilization;
pub mod storage;
pub mod successor;
pub mod swarm;
