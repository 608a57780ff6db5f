//! Decision logic of the Abacus off-chain agents.
//!
//! An outbox on the origin chain commits messages to a Merkle accumulator.
//! Validators sign checkpoints of that accumulator. The agents here bring
//! each message, with a proof of its inclusion under a checkpoint that a
//! quorum of validators signed, to the inbox on its destination chain.
//!
//! The library decides and computes; it performs no input or output. Where
//! work alternates with waiting on a store, a chain or a timer, the library
//! is a state machine: it names the next action, and takes what came of it.
//!
//! - `primitives`, `hashing`, `message`, `checkpoint`: the data and its
//!   encodings and hashes.
//! - `merkle_spec`, `accumulator`: the accumulator and its inclusion proofs.
//! - `store`: the byte layout of the store's views.
//! - `prover_sync`: from stored messages to stored proofs.
//! - `multisig`, `fetcher`: from validators' signatures to the newest
//!   checkpoint with a quorum.
//! - `processor`, `submitter`: from a destination's next nonce to a
//!   delivery at its inbox.
//! - `validator_manager`: the arguments of a delivery.
//! - `settings`, `parsing`, `relayer`, `agent`, `metrics`: what the agents
//!   are made of.

pub mod primitives;
pub mod hashing;
pub mod message;
pub mod checkpoint;
pub mod merkle_spec;
pub mod accumulator;
pub mod store;
pub mod prover_sync;
pub mod multisig;
pub mod fetcher;
pub mod processor;
pub mod submitter;
pub mod validator_manager;
pub mod parsing;
pub mod settings;
pub mod relayer;
pub mod agent;
pub mod metrics;
