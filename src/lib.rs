//! Block validation, macro-epoch synchronisation and hash-time-locked contract rules of a
//! proof-of-stake chain node.

pub mod policy;
pub mod bytes;
pub mod crypto;
pub mod hashes;
pub mod transaction;
pub mod htlc;
pub mod block;
pub mod chain;
pub mod sync;
pub mod genesis;
