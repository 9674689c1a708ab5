use vstd::prelude::*;
use crate::base::block::Block;
use crate::base::block::simple_chain_valid;

verus! {

/// A linear chain that records one transaction hash per block.
pub struct MainChain {
    pub blocks: Vec<Block>,
}

impl MainChain {
    /// Creates a chain holding only the genesis block.
    pub fn new() -> (main_chain: MainChain)
        ensures
            main_chain.blocks@.len() == 1,
            main_chain.blocks@[0].index == 0,
            main_chain.blocks@[0].previous_hash@ == "0"@,
            main_chain.blocks@[0].data@ == "Genesis Block"@,
            main_chain.blocks@[0].hash_consistent(),
    {
        let genesis_block = Block::new(0, String::from_str("0"), String::from_str("Genesis Block"));
        let mut blocks = Vec::new();
        blocks.push(genesis_block);
        MainChain { blocks }
    }

    /// Appends a block recording `transaction_hash`, linked to the
    /// current last block.
    pub fn add_transaction_hash(&mut self, transaction_hash: String)
        requires
            old(self).blocks@.len() >= 1,
            old(self).blocks@.last().index < u64::MAX,
        ensures
            final(self).blocks@.len() == old(self).blocks@.len() + 1,
            final(self).blocks@.take(old(self).blocks@.len() as int) == old(self).blocks@,
            final(self).blocks@.last().index == old(self).blocks@.last().index + 1,
            final(self).blocks@.last().data@ == transaction_hash@,
            final(self).blocks@.last().previous_hash@ == old(self).blocks@.last().hash@,
            final(self).blocks@.last().hash_consistent(),
    {
        let last = self.blocks.len() - 1;
        let index = self.blocks[last].index + 1;
        let previous_hash = self.blocks[last].hash.clone();
        let new_block = Block::new(index, previous_hash, transaction_hash);
        self.blocks.push(new_block);
        proof {
            assert(final(self).blocks@.take(old(self).blocks@.len() as int) =~= old(self).blocks@);
        }
    }

    /// Checks the whole chain: every block's recorded hash matches its
    /// fields and every link points at the predecessor's hash.
    pub fn is_valid(&self) -> (r: bool)
        ensures
            r == simple_chain_valid(self.blocks@),
    {
        let mut i: usize = 1;
        while i < self.blocks.len()
            invariant
                1 <= i,
                forall|j: int|
                    1 <= j < i ==> (#[trigger] self.blocks@[j]).hash_consistent()
                        && self.blocks@[j].previous_hash@ == self.blocks@[j - 1].hash@,
            decreases self.blocks@.len() - i,
        {
            let current_block = &self.blocks[i];
            let previous_block = &self.blocks[i - 1];
            let expected = Block::calculate_hash(
                current_block.index,
                current_block.timestamp,
                current_block.previous_hash.as_str(),
                current_block.data.as_str(),
            );
            if !(current_block.hash == expected) {
                return false;
            }
            if !(current_block.previous_hash == previous_block.hash) {
                return false;
            }
            i = i + 1;
        }
        true
    }
}

} // verus!
