//! Driver for a layered singleton object protocol on a UTXO-style ledger.
//!
//! The ledger stores only programs (puzzles) and their serialized spends.
//! This crate constructs the nested puzzle/solution pair for an intended
//! state transition, and reconstructs the resulting logical object state
//! from a previously recorded spend by re-executing the inner puzzles and
//! classifying the effects they emit.

pub mod intbytes;
pub mod node;
pub mod codec;
pub mod hashing;
pub mod curry;
pub mod coin;
pub mod conditions;
pub mod runner;
pub mod merkle;
pub mod errors;
pub mod memos;
pub mod puzzles;
pub mod metadata;
pub mod datastore;
pub mod launcher;
pub mod cat;
