//! Settlement bridge client for an EVM-compatible destination chain.
//!
//! A Byzantine-fault-tolerant source chain pushes authenticated state and
//! asset-transfer messages into a treasury contract deployed on an
//! independent destination chain.  Trust is rooted in a light client
//! embedded in the treasury contract, fed by headers and finalization
//! proofs relayed by this client; replay protection comes from a monotonic
//! per-contract sequence number.
//!
//! The crate verifies the protocol core: the address codec, the wire
//! encoding of bridge messages, the client-side sequence pre-check, and a
//! model of the destination treasury's state machine against which the
//! protocol's invariants are proved.  RPC transport, wallet derivation and
//! transaction signing are not part of this library.

pub mod adapter;
pub mod chain;
pub mod executor;
pub mod lightclient;
pub mod codec;
pub mod errors;
pub mod treasury;
pub mod types;
pub mod wire;
