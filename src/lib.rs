//! A Secret Santa protocol among mutually distrusting participants.
//!
//! The protocol engine is a state machine guarded by a global phase: participants enter,
//! choose one another and reveal themselves to whoever chose them. Every
//! accepted action becomes a transaction in an append-only record store, and
//! the participant registry is a deterministic fold over those transactions.
//! The record store, the proof system and the network are driven from outside
//! the library: the engine hands out encoded records and takes back what the
//! store reported.

pub mod error;
pub mod encryption;
pub mod phase;
pub mod bytes;
pub mod registry;
pub mod transaction;
pub mod codec;
pub mod hexadecimal;
pub mod keys;
pub mod proofs;
pub mod storage;
pub mod engine;

pub use codec::{decode, encode};
pub use encryption::{decrypt, encrypt};
pub use engine::{PendingRecord, SecretSantaProtocol};
pub use error::Error;
pub use keys::{DHKeyExchange, KeyPair};
pub use phase::Phase;
pub use registry::{Participant, Registry, RegistryEvent};
pub use storage::{confirmation_step, PollStep, StoreOutcome, MAX_ATTEMPTS};
pub use transaction::{
    ChoiceTransaction, EnterTransaction, ProofType, RecordType, RevealTransaction, Transaction,
    ZKProof,
};
