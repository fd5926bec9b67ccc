//! An append-only ledger of hash-linked blocks.
//!
//! Every block after the first carries the hash of its predecessor and a
//! SHA-256 digest of its own contents, so that the sequence is
//! tamper-evident. The contracts are stated over sequences of [`block::BlockView`].

pub mod decimal;
pub mod digest;
pub mod block;
pub mod ledger;
pub mod clock;
