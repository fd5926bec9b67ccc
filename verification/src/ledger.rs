//! The ledger: a sequence of blocks that only grows, each linked to the one before.

use vstd::prelude::*;
use vstd::string::*;
use crate::block::{Block, BlockView};
use crate::clock::now_millis;
use crate::digest::{block_digest, digest_text, is_digest_text, lemma_hex_lower_shape, sha256};
use vstd::utf8::encode_utf8;

verus! {

/// The text that stands for "no predecessor": the first block carries it as
/// its `previous_hash`, and as its `hash`, which is not a digest.
pub open spec fn sentinel() -> Seq<char> {
    seq!['0']
}

/// The payload of the first block.
pub open spec fn genesis_data() -> Seq<char> {
    "Genesis block"@
}

/// The first block of a ledger that was started at `timestamp`.
pub open spec fn genesis_block(timestamp: nat) -> BlockView {
    BlockView {
        index: 0,
        previous_hash: sentinel(),
        timestamp,
        data: genesis_data(),
        hash: sentinel(),
    }
}

/// The block that follows `last`, holding `payload` and made at `timestamp`.
pub open spec fn next_block(last: BlockView, payload: Seq<char>, timestamp: nat) -> BlockView {
    let unsealed = BlockView {
        index: last.index + 1,
        previous_hash: last.hash,
        timestamp,
        data: payload,
        hash: Seq::empty(),
    };
    unsealed.with_hash(unsealed.digest())
}

/// The chain after one more block, holding `payload` and made at `timestamp`.
pub open spec fn extend(chain: Seq<BlockView>, payload: Seq<char>, timestamp: nat) -> Seq<BlockView>
    recommends
        chain.len() > 0,
{
    chain.push(next_block(chain.last(), payload, timestamp))
}

/// Whether the block at position `i` follows the block before it: its index
/// is one more, it carries that block's hash, and its own hash is the digest
/// of its contents.
pub open spec fn linked_at(chain: Seq<BlockView>, i: int) -> bool
    recommends
        1 <= i < chain.len(),
{
    &&& chain[i].index == chain[i - 1].index + 1
    &&& chain[i].previous_hash == chain[i - 1].hash
    &&& chain[i].is_sealed()
}

/// Whether `chain` is linked: a first block at index 0 with the sentinel for
/// both hashes, and after it blocks that each follow the block before them.
pub open spec fn is_linked(chain: Seq<BlockView>) -> bool {
    &&& chain.len() >= 1
    &&& chain[0].index == 0
    &&& chain[0].previous_hash == sentinel()
    &&& chain[0].hash == sentinel()
    &&& forall|i: int| 1 <= i < chain.len() ==> #[trigger] linked_at(chain, i)
}

/// Whether `chain` is what a ledger may hold: it is linked, and the hash of
/// every block after the first has the shape of a digest.
pub open spec fn is_chain(chain: Seq<BlockView>) -> bool {
    &&& is_linked(chain)
    &&& forall|i: int| 1 <= i < chain.len() ==> is_digest_text(#[trigger] chain[i].hash)
}

/// An append-only sequence of blocks. It always holds its first block.
pub struct Ledger {
    blocks: Vec<Block>,
}

impl View for Ledger {
    type V = Seq<BlockView>;

    closed spec fn view(&self) -> Seq<BlockView> {
        self.blocks@.map_values(|b: Block| b@)
    }
}

impl Ledger {
    /// The invariant of a ledger: its blocks form a chain, linked and with a
    /// digest as the hash of every block after the first.
    pub open spec fn wf(&self) -> bool {
        is_chain(self@)
    }

    /// A ledger that holds only its first block, made at `timestamp`.
    pub fn new(timestamp: u128) -> (ledger: Ledger)
        ensures
            ledger.wf(),
            ledger@ == seq![genesis_block(timestamp as nat)],
    {
        proof {
            reveal_strlit("0");
        }
        let genesis = Block::new(
            0,
            String::from_str("0"),
            timestamp,
            String::from_str("Genesis block"),
            String::from_str("0"),
        );
        assert("0"@ =~= sentinel());
        let mut blocks: Vec<Block> = Vec::new();
        blocks.push(genesis);
        let ledger = Ledger { blocks };
        assert(ledger@ =~= seq![genesis_block(timestamp as nat)]);
        ledger
    }

    /// Number of blocks in the ledger, the first block included.
    pub fn len(&self) -> (n: usize)
        ensures
            n == self@.len(),
    {
        self.blocks.len()
    }

    /// The newest block.
    pub fn last(&self) -> (block: &Block)
        requires
            self.wf(),
        ensures
            block@ == self@.last(),
    {
        &self.blocks[self.blocks.len() - 1]
    }

    /// Appends a block that holds `payload` and was made at `timestamp`, and
    /// returns a copy of it.
    pub fn append_at(&mut self, payload: String, timestamp: u128) -> (block: Block)
        requires
            old(self).wf(),
        ensures
            final(self).wf(),
            final(self)@ == extend(old(self)@, payload@, timestamp as nat),
            final(self)@.len() == old(self)@.len() + 1,
            old(self)@.is_prefix_of(final(self)@),
            block@ == next_block(old(self)@.last(), payload@, timestamp as nat),
            is_digest_text(block@.hash),
    {
        let n = self.len();
        let last = self.last();
        proof {
            lemma_chain_indices(self@);
            assert(last@.index == n - 1);
        }
        let index = last.index() + 1;
        let previous_hash = last.stored_hash().to_owned();
        let block = Block::sealed(index, previous_hash, timestamp, payload);
        let copy = block.clone();
        self.blocks.push(block);
        proof {
            assert(copy@ == next_block(old(self)@.last(), payload@, timestamp as nat));
            assert(self@ =~= extend(old(self)@, payload@, timestamp as nat));
            lemma_extend_chain(old(self)@, payload@, timestamp as nat);
        }
        copy
    }

    /// Appends a block for `payload` where `reading` holds a clock reading,
    /// and leaves the ledger as it is where it holds none.
    pub fn append_reading(&mut self, payload: String, reading: Option<u128>) -> (block: Option<Block>)
        requires
            old(self).wf(),
        ensures
            final(self).wf(),
            match reading {
                Some(timestamp) => {
                    &&& block is Some
                    &&& block->0@ == next_block(old(self)@.last(), payload@, timestamp as nat)
                    &&& is_digest_text(block->0@.hash)
                    &&& final(self)@ == extend(old(self)@, payload@, timestamp as nat)
                    &&& final(self)@.len() == old(self)@.len() + 1
                },
                None => block is None && final(self)@ == old(self)@,
            },
            old(self)@.is_prefix_of(final(self)@),
    {
        match reading {
            Some(timestamp) => Some(self.append_at(payload, timestamp)),
            None => None,
        }
    }

    /// Appends a block that holds `payload`, stamped with the system clock's
    /// reading, and returns a copy of it. Returns `None`, and leaves the
    /// ledger as it is, where the clock stands before the Unix epoch.
    pub fn append(&mut self, payload: String) -> (block: Option<Block>)
        requires
            old(self).wf(),
        ensures
            final(self).wf(),
            match block {
                Some(b) => {
                    &&& b@ == next_block(old(self)@.last(), payload@, b@.timestamp)
                    &&& is_digest_text(b@.hash)
                    &&& final(self)@ == extend(old(self)@, payload@, b@.timestamp)
                    &&& final(self)@.len() == old(self)@.len() + 1
                },
                None => final(self)@ == old(self)@,
            },
            old(self)@.is_prefix_of(final(self)@),
    {
        let reading = now_millis();
        self.append_reading(payload, reading)
    }

    /// A copy of every block, in order, the first block first.
    pub fn snapshot(&self) -> (blocks: Vec<Block>)
        ensures
            blocks@.map_values(|b: Block| b@) == self@,
    {
        let mut blocks: Vec<Block> = Vec::new();
        let n = self.blocks.len();
        let mut i: usize = 0;
        while i < n
            invariant
                n == self.blocks.len(),
                i <= n,
                blocks@.len() == i,
                forall|k: int| 0 <= k < i ==> (#[trigger] blocks@[k])@ == self.blocks@[k]@,
            decreases n - i,
        {
            blocks.push(self.blocks[i].clone());
            i += 1;
        }
        assert(blocks@.map_values(|b: Block| b@) =~= self@);
        blocks
    }
}

/// The chain after one block for each entry of `entries`, in order; an entry
/// is a payload and the time at which its block is made.
pub open spec fn extend_all(chain: Seq<BlockView>, entries: Seq<(Seq<char>, nat)>) -> Seq<BlockView>
    decreases entries.len(),
{
    if entries.len() == 0 {
        chain
    } else {
        extend(extend_all(chain, entries.drop_last()), entries.last().0, entries.last().1)
    }
}

/// A fresh ledger holds exactly one block, at index 0, with the sentinel as
/// its previous hash and as its hash, and is a chain.
pub proof fn lemma_genesis(timestamp: nat)
    ensures
        seq![genesis_block(timestamp)].len() == 1,
        seq![genesis_block(timestamp)][0].index == 0,
        seq![genesis_block(timestamp)][0].previous_hash == seq!['0'],
        seq![genesis_block(timestamp)][0].hash == seq!['0'],
        is_chain(seq![genesis_block(timestamp)]),
{
}

/// In a linked chain every block's index is its position.
pub proof fn lemma_chain_indices(chain: Seq<BlockView>)
    requires
        is_linked(chain),
    ensures
        forall|i: int| 0 <= i < chain.len() ==> (#[trigger] chain[i]).index == i,
{
    assert forall|i: int| 0 <= i < chain.len() implies (#[trigger] chain[i]).index == i by {
        lemma_index_at(chain, i);
    }
}

proof fn lemma_index_at(chain: Seq<BlockView>, i: int)
    requires
        is_linked(chain),
        0 <= i < chain.len(),
    ensures
        chain[i].index == i,
    decreases i,
{
    if i > 0 {
        lemma_index_at(chain, i - 1);
        assert(linked_at(chain, i));
    }
}

/// In a linked chain every block after the first has its position as its
/// index, carries the hash of the block before it, and stores the digest of
/// its own contents.
pub proof fn lemma_chain_linkage(chain: Seq<BlockView>, i: int)
    requires
        is_linked(chain),
        1 <= i < chain.len(),
    ensures
        chain[i].index == i,
        chain[i].index == chain[i - 1].index + 1,
        chain[i].previous_hash == chain[i - 1].hash,
        chain[i].hash == chain[i].digest(),
{
    lemma_chain_indices(chain);
    assert(linked_at(chain, i));
}

/// In a chain the hash of every block after the first is the digest of that
/// block, 64 lowercase hex digits; the hash of the first block is the
/// sentinel, which is the digest of no block, its own included.
pub proof fn lemma_chain_hashes(chain: Seq<BlockView>, i: int)
    requires
        is_chain(chain),
        0 <= i < chain.len(),
    ensures
        i > 0 ==> chain[i].hash == chain[i].digest() && is_digest_text(chain[i].hash),
        i == 0 ==> chain[i].hash == seq!['0'] && chain[i].hash != chain[i].digest(),
        !is_digest_text(seq!['0']),
{
    if i > 0 {
        assert(linked_at(chain, i));
    } else {
        lemma_sentinel_is_no_digest(chain[0].index, chain[0].previous_hash, chain[0].timestamp, chain[0].data);
    }
}

/// The sentinel is the digest of no block: a digest has an even number of
/// characters, the sentinel has one.
pub proof fn lemma_sentinel_is_no_digest(
    index: nat,
    previous_hash: Seq<char>,
    timestamp: nat,
    data: Seq<char>,
)
    ensures
        block_digest(index, previous_hash, timestamp, data) != sentinel(),
{
    lemma_hex_lower_shape(sha256(encode_utf8(digest_text(index, previous_hash, timestamp, data))));
}

/// No two blocks of a linked chain have the same index.
pub proof fn lemma_indices_distinct(chain: Seq<BlockView>, i: int, j: int)
    requires
        is_linked(chain),
        0 <= i < chain.len(),
        0 <= j < chain.len(),
        i != j,
    ensures
        chain[i].index != chain[j].index,
{
    lemma_chain_indices(chain);
}

/// One more block keeps a linked chain linked, makes it longer by exactly
/// one, and leaves every earlier block as it was.
pub proof fn lemma_extend(chain: Seq<BlockView>, payload: Seq<char>, timestamp: nat)
    requires
        is_linked(chain),
    ensures
        is_linked(extend(chain, payload, timestamp)),
        extend(chain, payload, timestamp).len() == chain.len() + 1,
        chain.is_prefix_of(extend(chain, payload, timestamp)),
        extend(chain, payload, timestamp).last().data == payload,
        extend(chain, payload, timestamp).last().timestamp == timestamp,
{
    let longer = extend(chain, payload, timestamp);
    assert forall|i: int| 1 <= i < longer.len() implies #[trigger] linked_at(longer, i) by {
        if i < chain.len() {
            assert(linked_at(chain, i));
        }
    }
}

/// One more block keeps a chain a chain, where the new block's digest has
/// the shape of a digest.
pub proof fn lemma_extend_chain(chain: Seq<BlockView>, payload: Seq<char>, timestamp: nat)
    requires
        is_chain(chain),
        is_digest_text(next_block(chain.last(), payload, timestamp).hash),
    ensures
        is_chain(extend(chain, payload, timestamp)),
{
    lemma_extend(chain, payload, timestamp);
    let longer = extend(chain, payload, timestamp);
    assert forall|i: int| 1 <= i < longer.len() implies is_digest_text(#[trigger] longer[i].hash) by {
        if i < chain.len() {
            assert(longer[i] == chain[i]);
        }
    }
}

/// Any number of appends, one after the other, keep a linked chain linked,
/// make it longer by one block each, and leave every earlier block as it was.
pub proof fn lemma_extend_all(chain: Seq<BlockView>, entries: Seq<(Seq<char>, nat)>)
    requires
        is_linked(chain),
    ensures
        is_linked(extend_all(chain, entries)),
        extend_all(chain, entries).len() == chain.len() + entries.len(),
        chain.is_prefix_of(extend_all(chain, entries)),
    decreases entries.len(),
{
    if entries.len() > 0 {
        let before = extend_all(chain, entries.drop_last());
        lemma_extend_all(chain, entries.drop_last());
        lemma_extend(before, entries.last().0, entries.last().1);
    }
}

/// Any number of appends, one after the other, keep a chain a chain, where
/// the hash of each new block has the shape of a digest.
pub proof fn lemma_extend_all_chain(chain: Seq<BlockView>, entries: Seq<(Seq<char>, nat)>)
    requires
        is_chain(chain),
        forall|i: int|
            chain.len() <= i < chain.len() + entries.len() ==> is_digest_text(
                #[trigger] extend_all(chain, entries)[i].hash,
            ),
    ensures
        is_chain(extend_all(chain, entries)),
{
    lemma_extend_all(chain, entries);
    let longer = extend_all(chain, entries);
    assert forall|i: int| 1 <= i < longer.len() implies is_digest_text(#[trigger] longer[i].hash) by {
        if i < chain.len() {
            assert(longer[i] == chain[i]);
        }
    }
}

/// After `n` appends to a fresh ledger, one after the other, the block at
/// every position `i` from 1 to `n` has index `i` and carries the hash of the
/// block at position `i - 1` as its previous hash.
pub proof fn lemma_appends_linked(timestamp: nat, entries: Seq<(Seq<char>, nat)>, i: int)
    requires
        1 <= i <= entries.len(),
    ensures
        extend_all(seq![genesis_block(timestamp)], entries).len() == 1 + entries.len(),
        extend_all(seq![genesis_block(timestamp)], entries)[i].previous_hash == extend_all(
            seq![genesis_block(timestamp)],
            entries,
        )[i - 1].hash,
        extend_all(seq![genesis_block(timestamp)], entries)[i].index == i,
{
    let start = seq![genesis_block(timestamp)];
    lemma_genesis(timestamp);
    lemma_extend_all(start, entries);
    lemma_chain_linkage(extend_all(start, entries), i);
}

/// After `n` appends to a fresh ledger the block at position `i`, from 1 to
/// `n`, holds the payload and the time of the `i`-th append.
pub proof fn lemma_appends_in_order(timestamp: nat, entries: Seq<(Seq<char>, nat)>, i: int)
    requires
        1 <= i <= entries.len(),
    ensures
        extend_all(seq![genesis_block(timestamp)], entries)[i].data == entries[i - 1].0,
        extend_all(seq![genesis_block(timestamp)], entries)[i].timestamp == entries[i - 1].1,
        extend_all(seq![genesis_block(timestamp)], entries)[0] == genesis_block(timestamp),
    decreases entries.len(),
{
    let start = seq![genesis_block(timestamp)];
    let before = extend_all(start, entries.drop_last());
    lemma_genesis(timestamp);
    lemma_extend_all(start, entries.drop_last());
    lemma_extend(before, entries.last().0, entries.last().1);
    if i < entries.len() {
        lemma_appends_in_order(timestamp, entries.drop_last(), i);
    }
}

} // verus!
