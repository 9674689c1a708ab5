use vstd::prelude::*;
use crate::block::Block;
use crate::genesis::create_genesis_block;

verus! {

/// A chain is valid when every block after the first records the hash
/// of its own fields and links to its predecessor's hash.
pub open spec fn spec_chain_valid(chain: Seq<Block>) -> bool {
    forall|i: int|
        1 <= i < chain.len() ==> (#[trigger] chain[i]).hash_consistent() && chain[i].previous_hash@
            == chain[i - 1].hash@
}

/// A linear chain of hash-linked blocks, rooted in a genesis block.
#[derive(Debug)]
pub struct Blockchain {
    pub chain: Vec<Block>,
}

impl Blockchain {
    /// Creates a chain holding only the genesis block.
    pub fn new() -> (blockchain: Blockchain)
        ensures
            blockchain.chain@.len() == 1,
            blockchain.chain@[0].index == 0,
            blockchain.chain@[0].data@ == "Genesis block"@,
            blockchain.chain@[0].previous_hash@ == "000000000"@,
            blockchain.chain@[0].hash_consistent(),
    {
        let mut blockchain = Blockchain { chain: Vec::new() };
        blockchain.add_genesis_block();
        blockchain
    }

    fn add_genesis_block(&mut self)
        requires
            old(self).chain@.len() == 0,
        ensures
            final(self).chain@.len() == 1,
            final(self).chain@[0].index == 0,
            final(self).chain@[0].data@ == "Genesis block"@,
            final(self).chain@[0].previous_hash@ == "000000000"@,
            final(self).chain@[0].hash_consistent(),
    {
        let genesis_block = create_genesis_block(
            0,
            String::from_str("Genesis block"),
            String::from_str("000000000"),
        );
        self.chain.push(genesis_block);
    }

    /// Appends a block over `data`, linked to the current last block.
    pub fn add_block(&mut self, data: String)
        requires
            old(self).chain@.len() >= 1,
            old(self).chain@.len() <= u32::MAX,
        ensures
            final(self).chain@.len() == old(self).chain@.len() + 1,
            final(self).chain@.take(old(self).chain@.len() as int) == old(self).chain@,
            final(self).chain@.last().index == old(self).chain@.len(),
            final(self).chain@.last().data@ == data@,
            final(self).chain@.last().previous_hash@ == old(self).chain@.last().hash@,
            final(self).chain@.last().hash_consistent(),
    {
        let previous_hash = self.chain[self.chain.len() - 1].hash.clone();
        let index = self.chain.len() as u32;
        let new_block = Block::new(index, data, previous_hash);
        self.chain.push(new_block);
        proof {
            assert(final(self).chain@.take(old(self).chain@.len() as int) =~= old(self).chain@);
        }
    }

    /// Checks the whole chain: every block's recorded hash matches its
    /// fields and every link points at the predecessor's hash.
    pub fn is_valid(&self) -> (r: bool)
        ensures
            r == spec_chain_valid(self.chain@),
    {
        let mut i: usize = 1;
        while i < self.chain.len()
            invariant
                1 <= i,
                forall|j: int|
                    1 <= j < i ==> (#[trigger] self.chain@[j]).hash_consistent()
                        && self.chain@[j].previous_hash@ == self.chain@[j - 1].hash@,
            decreases self.chain@.len() - i,
        {
            let current_block = &self.chain[i];
            let previous_block = &self.chain[i - 1];
            let expected = current_block.calculate_hash();
            if !(current_block.hash == expected) {
                return false;
            }
            if !(current_block.previous_hash == previous_block.hash) {
                return false;
            }
            i = i + 1;
        }
        true
    }
}

} // verus!
