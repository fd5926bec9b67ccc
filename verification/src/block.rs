//! One entry of the ledger.

use vstd::prelude::*;
use crate::digest::{block_digest, compute_digest, is_digest_text};

verus! {

/// What a block holds, as mathematical values.
pub struct BlockView {
    /// Position of the block in the ledger, 0 for the first block.
    pub index: nat,
    /// The `hash` of the block before it.
    pub previous_hash: Seq<char>,
    /// Milliseconds since the Unix epoch at which the block was made.
    pub timestamp: nat,
    /// The payload, which the ledger never interprets.
    pub data: Seq<char>,
    /// The digest that was stored with the block.
    pub hash: Seq<char>,
}

impl BlockView {
    /// The digest of the block's first four fields.
    pub open spec fn digest(self) -> Seq<char> {
        block_digest(self.index, self.previous_hash, self.timestamp, self.data)
    }

    /// The same block with `hash` as its stored digest.
    pub open spec fn with_hash(self, hash: Seq<char>) -> BlockView {
        BlockView { hash, ..self }
    }

    /// Whether the stored digest is the digest of the other four fields.
    pub open spec fn is_sealed(self) -> bool {
        self.hash == self.digest()
    }
}

/// The digest is a function of the four fields it is computed over: blocks
/// that agree on them have the same digest, whatever hash is stored with them.
pub proof fn lemma_digest_deterministic(a: BlockView, b: BlockView)
    requires
        a.index == b.index,
        a.previous_hash == b.previous_hash,
        a.timestamp == b.timestamp,
        a.data == b.data,
    ensures
        a.digest() == b.digest(),
{
}

/// One entry of the ledger. Its fields are set once, when the block is made.
#[derive(Debug)]
pub struct Block {
    index: u64,
    previous_hash: String,
    timestamp: u128,
    data: String,
    hash: String,
}

impl View for Block {
    type V = BlockView;

    closed spec fn view(&self) -> BlockView {
        BlockView {
            index: self.index as nat,
            previous_hash: self.previous_hash@,
            timestamp: self.timestamp as nat,
            data: self.data@,
            hash: self.hash@,
        }
    }
}

impl Block {
    /// A block with the given fields; `hash` is stored as it is given.
    pub fn new(index: u64, previous_hash: String, timestamp: u128, data: String, hash: String) -> (block: Block)
        ensures
            block@ == (BlockView {
                index: index as nat,
                previous_hash: previous_hash@,
                timestamp: timestamp as nat,
                data: data@,
                hash: hash@,
            }),
    {
        Block { index, previous_hash, timestamp, data, hash }
    }

    /// The digest of the block's first four fields; the stored `hash` is not read.
    pub fn hash(&self) -> (digest: String)
        ensures
            digest@ == self@.digest(),
            is_digest_text(digest@),
    {
        compute_digest(self.index, self.previous_hash.as_str(), self.timestamp, self.data.as_str())
    }

    /// A block with the given first four fields and their digest as its `hash`.
    pub fn sealed(index: u64, previous_hash: String, timestamp: u128, data: String) -> (block: Block)
        ensures
            block@ == (BlockView {
                index: index as nat,
                previous_hash: previous_hash@,
                timestamp: timestamp as nat,
                data: data@,
                hash: block_digest(index as nat, previous_hash@, timestamp as nat, data@),
            }),
            is_digest_text(block@.hash),
    {
        let hash = compute_digest(index, previous_hash.as_str(), timestamp, data.as_str());
        Block { index, previous_hash, timestamp, data, hash }
    }

    /// The block's position in the ledger.
    pub fn index(&self) -> (index: u64)
        ensures
            index == self@.index,
    {
        self.index
    }

    /// The `hash` of the block before this one.
    pub fn previous_hash(&self) -> (previous_hash: &str)
        ensures
            previous_hash@ == self@.previous_hash,
    {
        self.previous_hash.as_str()
    }

    /// Milliseconds since the Unix epoch at which the block was made.
    pub fn timestamp(&self) -> (timestamp: u128)
        ensures
            timestamp == self@.timestamp,
    {
        self.timestamp
    }

    /// The payload.
    pub fn data(&self) -> (data: &str)
        ensures
            data@ == self@.data,
    {
        self.data.as_str()
    }

    /// The digest that is stored with the block.
    pub fn stored_hash(&self) -> (hash: &str)
        ensures
            hash@ == self@.hash,
    {
        self.hash.as_str()
    }

}

impl PartialEq for Block {
    fn eq(&self, other: &Block) -> (equal: bool) {
        self.index == other.index && self.previous_hash == other.previous_hash && self.timestamp
            == other.timestamp && self.data == other.data && self.hash == other.hash
    }
}

impl vstd::std_specs::cmp::PartialEqSpecImpl for Block {
    open spec fn obeys_eq_spec() -> bool {
        true
    }

    open spec fn eq_spec(&self, other: &Block) -> bool {
        self@ == other@
    }
}

impl Clone for Block {
    fn clone(&self) -> (copy: Block)
        ensures
            copy@ == self@,
    {
        Block {
            index: self.index,
            previous_hash: self.previous_hash.clone(),
            timestamp: self.timestamp,
            data: self.data.clone(),
            hash: self.hash.clone(),
        }
    }
}

} // verus!
