use vstd::prelude::*;
use crate::hashing::sha256_hex_of;
use crate::hashing::sha256_hex;
use crate::numfmt::dec_chars;
use crate::numfmt::u64_to_string;
use crate::numfmt::u128_to_string;
use crate::clock::now_millis;

verus! {

/// The hash a block of this chain records: SHA-256 in hexadecimal over
/// the concatenated decimal index, decimal timestamp, data and
/// previous hash.
pub open spec fn block_hash_of(
    index: u32,
    timestamp: u128,
    data: Seq<char>,
    previous_hash: Seq<char>,
) -> Seq<char> {
    sha256_hex_of(dec_chars(index as nat) + dec_chars(timestamp as nat) + data + previous_hash)
}

/// A block of the linear hash chain: payload data linked to its
/// predecessor by hash.
#[derive(Debug)]
pub struct Block {
    pub index: u32,
    pub timestamp: u128,
    pub data: String,
    pub hash: String,
    pub previous_hash: String,
}

impl Block {
    /// A block's recorded hash is consistent with its own fields.
    pub open spec fn hash_consistent(&self) -> bool {
        self.hash@ == block_hash_of(self.index, self.timestamp, self.data@, self.previous_hash@)
    }

    /// Creates a block over `data`, stamped with the current time and
    /// hashed over all its fields.
    pub fn new(index: u32, data: String, previous_hash: String) -> (block: Block)
        ensures
            block.index == index,
            block.data@ == data@,
            block.previous_hash@ == previous_hash@,
            block.hash_consistent(),
    {
        let timestamp = now_millis();
        let hash = hash_fields(index, timestamp, data.as_str(), previous_hash.as_str());
        Block { index, timestamp, data, hash, previous_hash }
    }

    /// Recomputes the hash of this block's current fields.
    pub fn calculate_hash(&self) -> (r: String)
        ensures
            r@ == block_hash_of(self.index, self.timestamp, self.data@, self.previous_hash@),
    {
        hash_fields(self.index, self.timestamp, self.data.as_str(), self.previous_hash.as_str())
    }
}

fn hash_fields(index: u32, timestamp: u128, data: &str, previous_hash: &str) -> (r: String)
    ensures
        r@ == block_hash_of(index, timestamp, data@, previous_hash@),
{
    let mut message = String::new();
    let index_text = u64_to_string(index as u64);
    message.append(index_text.as_str());
    let timestamp_text = u128_to_string(timestamp);
    message.append(timestamp_text.as_str());
    message.append(data);
    message.append(previous_hash);
    proof {
        assert(message@ =~= dec_chars(index as nat) + dec_chars(timestamp as nat) + data@
            + previous_hash@);
    }
    sha256_hex(message.as_str())
}

} // verus!
