use vstd::prelude::*;
use crate::hashing::sha256_hex_of;
use crate::hashing::sha256_hex;
use crate::numfmt::dec_chars;
use crate::numfmt::u64_to_string;
use crate::numfmt::u128_to_string;
use crate::clock::now_millis;

verus! {

/// The hash a block of this family records: SHA-256 in hexadecimal
/// over the concatenated decimal index, decimal timestamp, previous
/// hash and data.
pub open spec fn simple_block_hash_of(
    index: u64,
    timestamp: u128,
    previous_hash: Seq<char>,
    data: Seq<char>,
) -> Seq<char> {
    sha256_hex_of(dec_chars(index as nat) + dec_chars(timestamp as nat) + previous_hash + data)
}

/// A block holding payload data, hash-linked to its predecessor.
#[derive(Debug)]
pub struct Block {
    pub index: u64,
    pub timestamp: u128,
    pub previous_hash: String,
    pub hash: String,
    pub data: String,
}

/// A chain of these blocks is valid when every block after the first
/// records the hash of its own fields and links to its predecessor.
pub open spec fn simple_chain_valid(blocks: Seq<Block>) -> bool {
    forall|i: int|
        1 <= i < blocks.len() ==> (#[trigger] blocks[i]).hash_consistent()
            && blocks[i].previous_hash@ == blocks[i - 1].hash@
}

impl Block {
    /// A block's recorded hash is consistent with its own fields.
    pub open spec fn hash_consistent(&self) -> bool {
        self.hash@ == simple_block_hash_of(
            self.index,
            self.timestamp,
            self.previous_hash@,
            self.data@,
        )
    }

    /// Creates a block over `data`, stamped with the current time and
    /// hashed over all its fields.
    pub fn new(index: u64, previous_hash: String, data: String) -> (block: Block)
        ensures
            block.index == index,
            block.previous_hash@ == previous_hash@,
            block.data@ == data@,
            block.hash_consistent(),
    {
        let timestamp = now_millis();
        let hash = Block::calculate_hash(index, timestamp, previous_hash.as_str(), data.as_str());
        Block { index, timestamp, previous_hash, hash, data }
    }

    /// Computes the hash that a block with these fields records.
    pub fn calculate_hash(index: u64, timestamp: u128, previous_hash: &str, data: &str) -> (r:
        String)
        ensures
            r@ == simple_block_hash_of(index, timestamp, previous_hash@, data@),
    {
        let mut message = String::new();
        let index_text = u64_to_string(index);
        message.append(index_text.as_str());
        let timestamp_text = u128_to_string(timestamp);
        message.append(timestamp_text.as_str());
        message.append(previous_hash);
        message.append(data);
        proof {
            assert(message@ =~= dec_chars(index as nat) + dec_chars(timestamp as nat)
                + previous_hash@ + data@);
        }
        sha256_hex(message.as_str())
    }
}

} // verus!
