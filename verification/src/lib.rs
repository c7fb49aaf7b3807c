//! Core of a minimal blockchain node: content-addressed transactions,
//! cryptographically linked blocks, an append-only chain rooted at a fixed
//! genesis block, and an orchestrator that accepts transactions, commits
//! blocks and notifies registered observers.

pub mod bytes;
pub mod crypto;
pub mod hash;
pub mod address;
pub mod signature;
pub mod transaction;
pub mod block;
pub mod chain;
pub mod blockchain;
pub mod codec;
