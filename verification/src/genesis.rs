use vstd::prelude::*;
use crate::block::Block;

verus! {

/// Creates the first block of a hash chain from the given seed values.
pub fn create_genesis_block(index: u32, data: String, hash: String) -> (block: Block)
    ensures
        block.index == index,
        block.data@ == data@,
        block.previous_hash@ == hash@,
        block.hash_consistent(),
{
    Block::new(index, data, hash)
}

} // verus!
