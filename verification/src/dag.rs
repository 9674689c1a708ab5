use vstd::prelude::*;
use crate::errors::LedgerError;
use crate::crypto::sig_valid;
use crate::crypto::canonical_msg;
use crate::crypto::canonical_message;
use crate::crypto::KeyPairWrapper;
use crate::pool::UserPool;
use crate::strutil::str_eq;
use crate::strutil::clone_string_vec;
use crate::strutil::clone_bytes;
use crate::numfmt::dec_chars;
use crate::numfmt::u64_to_string;
use crate::numfmt::lemma_dec_chars_injective;

verus! {

/// How many transactions one block may carry.
pub const MAX_TRANSACTIONS_PER_BLOCK: usize = 5;

/// A transfer as the global ledger records it.
#[derive(Debug)]
pub struct BlockTransaction {
    pub id: String,
    pub sender: String,
    pub receiver: String,
    pub amount: u64,
    pub signature: Vec<u8>,
    pub timestamp: u64,
}

/// Whether two records carry the same transfer, field for field.
pub open spec fn same_block_tx(a: BlockTransaction, b: BlockTransaction) -> bool {
    &&& a.id@ == b.id@
    &&& a.sender@ == b.sender@
    &&& a.receiver@ == b.receiver@
    &&& a.amount == b.amount
    &&& a.signature@ == b.signature@
    &&& a.timestamp == b.timestamp
}

impl Clone for BlockTransaction {
    /// Clones the record, keeping every field's content.
    fn clone(&self) -> (res: Self)
        ensures
            same_block_tx(res, *self),
    {
        BlockTransaction {
            id: self.id.clone(),
            sender: self.sender.clone(),
            receiver: self.receiver.clone(),
            amount: self.amount,
            signature: clone_bytes(&self.signature),
            timestamp: self.timestamp,
        }
    }
}

impl BlockTransaction {
    /// Creates a record with the given fields.
    pub fn new(
        id: String,
        sender: String,
        receiver: String,
        amount: u64,
        signature: Vec<u8>,
        timestamp: u64,
    ) -> (tx: BlockTransaction)
        ensures
            tx.id == id,
            tx.sender == sender,
            tx.receiver == receiver,
            tx.amount == amount,
            tx.signature == signature,
            tx.timestamp == timestamp,
    {
        BlockTransaction { id, sender, receiver, amount, signature, timestamp }
    }

    /// Whether the pool knows the sender and the signature verifies
    /// over the canonical message under the sender's current key.
    pub open spec fn committable(&self, pool: UserPool) -> bool {
        &&& pool.spec_has_user(self.sender@)
        &&& sig_valid(
            pool.spec_user(self.sender@).public_key@,
            canonical_msg(self.id@, self.sender@, self.receiver@, self.amount, self.timestamp),
            self.signature@,
        )
    }
}

/// A committed block: a batch of transfers with edges to the blocks
/// that were the tips when it was committed.
#[derive(Debug)]
pub struct Block {
    pub id: String,
    pub transactions: Vec<BlockTransaction>,
    pub parent_ids: Vec<String>,
    pub child_ids: Vec<String>,
}

/// Whether a list of id strings holds the given id.
pub open spec fn ids_contain(ids: Seq<String>, id: Seq<char>) -> bool {
    exists|k: int| 0 <= k < ids.len() && (#[trigger] ids[k])@ == id
}

/// Scans a list of id strings for the given id.
pub fn ids_contain_exec(ids: &Vec<String>, id: &str) -> (r: bool)
    ensures
        r == ids_contain(ids@, id@),
{
    let mut k: usize = 0;
    while k < ids.len()
        invariant
            k <= ids@.len(),
            forall|j: int| 0 <= j < k ==> (#[trigger] ids@[j])@ != id@,
        decreases ids@.len() - k,
    {
        if str_eq(ids[k].as_str(), id) {
            return true;
        }
        k = k + 1;
    }
    false
}

/// Whether some block in the list carries the given id.
pub open spec fn blocks_contain(blocks: Seq<Block>, id: Seq<char>) -> bool {
    exists|i: int| 0 <= i < blocks.len() && (#[trigger] blocks[i]).id@ == id
}

/// The `p`-th parent that block `i` lists stands strictly earlier in
/// the block order and lists block `i` back as a child.
pub open spec fn parent_edge_target(blocks: Seq<Block>, i: int, p: int) -> bool {
    exists|j: int|
        0 <= j < i && (#[trigger] blocks[j]).id@ == blocks[i].parent_ids@[p]@ && ids_contain(
            blocks[j].child_ids@,
            blocks[i].id@,
        )
}

/// Every listed parent stands strictly earlier in the block order and
/// lists the block back as a child.
pub open spec fn parent_edges_ok(blocks: Seq<Block>) -> bool {
    forall|i: int, p: int|
        #![trigger parent_edge_target(blocks, i, p)]
        0 <= i < blocks.len() && 0 <= p < blocks[i].parent_ids@.len() ==> parent_edge_target(
            blocks,
            i,
            p,
        )
}

/// The `c`-th child that block `i` lists stands strictly later in the
/// block order and lists block `i` back as a parent.
pub open spec fn child_edge_target(blocks: Seq<Block>, i: int, c: int) -> bool {
    exists|j: int|
        i < j < blocks.len() && (#[trigger] blocks[j]).id@ == blocks[i].child_ids@[c]@
            && ids_contain(blocks[j].parent_ids@, blocks[i].id@)
}

/// Every listed child stands strictly later in the block order and
/// lists the block back as a parent.
pub open spec fn child_edges_ok(blocks: Seq<Block>) -> bool {
    forall|i: int, c: int|
        #![trigger child_edge_target(blocks, i, c)]
        0 <= i < blocks.len() && 0 <= c < blocks[i].child_ids@.len() ==> child_edge_target(
            blocks,
            i,
            c,
        )
}

/// How many blocks a batch of this many transfers packs into.
pub open spec fn spec_num_blocks(total: nat) -> int {
    ((total + 4) / 5) as int
}

/// The id of the `k`-th block of a batch committed at `height`: the
/// height alone for a single block, else `height.k` with `k` counted
/// from one.
pub open spec fn spec_block_id(height: u64, total: nat, k: int) -> Seq<char> {
    if total <= 5 {
        dec_chars(height as nat)
    } else {
        dec_chars(height as nat) + "."@ + dec_chars((k + 1) as nat)
    }
}

/// The first record with the given id in a block's list, scanning
/// front to back.
pub open spec fn spec_find_tx_in(txs: Seq<BlockTransaction>, id: Seq<char>) -> Option<
    BlockTransaction,
>
    decreases txs.len(),
{
    if txs.len() == 0 {
        None
    } else if txs[0].id@ == id {
        Some(txs[0])
    } else {
        spec_find_tx_in(txs.drop_first(), id)
    }
}

/// The first committed record with the given id, scanning the blocks
/// in commit order and each block's list front to back.
pub open spec fn spec_find_tx(blocks: Seq<Block>, id: Seq<char>) -> Option<BlockTransaction>
    decreases blocks.len(),
{
    if blocks.len() == 0 {
        None
    } else {
        match spec_find_tx_in(blocks[0].transactions@, id) {
            Some(tx) => Some(tx),
            None => spec_find_tx(blocks.drop_first(), id),
        }
    }
}

/// A found record stands somewhere in the lists that were searched.
proof fn lemma_find_tx_in_witness(txs: Seq<BlockTransaction>, id: Seq<char>)
    requires
        spec_find_tx_in(txs, id) is Some,
    ensures
        exists|j: int|
            0 <= j < txs.len() && #[trigger] txs[j] == spec_find_tx_in(txs, id)->0,
    decreases txs.len(),
{
    if txs.len() > 0 && txs[0].id@ != id {
        lemma_find_tx_in_witness(txs.drop_first(), id);
        let j = choose|j: int|
            0 <= j < txs.drop_first().len() && #[trigger] txs.drop_first()[j] == spec_find_tx_in(
                txs.drop_first(),
                id,
            )->0;
        assert(txs[j + 1] == txs.drop_first()[j]);
    }
}

/// A found record stands in some committed block.
pub proof fn lemma_find_tx_witness(blocks: Seq<Block>, id: Seq<char>)
    requires
        spec_find_tx(blocks, id) is Some,
    ensures
        exists|i: int, j: int|
            0 <= i < blocks.len() && 0 <= j < (#[trigger] blocks[i]).transactions@.len() && (
            #[trigger] blocks[i].transactions@[j]) == spec_find_tx(blocks, id)->0,
    decreases blocks.len(),
{
    if blocks.len() > 0 {
        if spec_find_tx_in(blocks[0].transactions@, id) is Some {
            lemma_find_tx_in_witness(blocks[0].transactions@, id);
            let j = choose|j: int|
                0 <= j < blocks[0].transactions@.len() && #[trigger] blocks[0].transactions@[j]
                    == spec_find_tx_in(blocks[0].transactions@, id)->0;
            assert(blocks[0].transactions@[j] == spec_find_tx(blocks, id)->0);
        } else {
            lemma_find_tx_witness(blocks.drop_first(), id);
            let rest = blocks.drop_first();
            let (i, j) = choose|i: int, j: int|
                0 <= i < rest.len() && 0 <= j < (#[trigger] rest[i]).transactions@.len() && (
                #[trigger] rest[i].transactions@[j]) == spec_find_tx(rest, id)->0;
            assert(blocks[i + 1] == rest[i]);
            assert(blocks[i + 1].transactions@[j] == spec_find_tx(blocks, id)->0);
        }
    }
}

/// The global ledger: committed blocks in commit order, the current
/// tips, and the height of the latest commit.
#[derive(Debug)]
pub struct DAG {
    pub blocks: Vec<Block>,
    pub tips: Vec<String>,
    pub current_height: u64,
}

impl DAG {
    /// Whether a block with this id exists.
    pub open spec fn spec_has_block(&self, id: Seq<char>) -> bool {
        blocks_contain(self.blocks@, id)
    }

    /// The position of the block with this id.
    pub open spec fn spec_block_index(&self, id: Seq<char>) -> int {
        choose|i: int| 0 <= i < self.blocks@.len() && (#[trigger] self.blocks@[i]).id@ == id
    }

    /// The block with this id.
    pub open spec fn spec_block(&self, id: Seq<char>) -> Block {
        self.blocks@[self.spec_block_index(id)]
    }

    /// Whether some committed block carries a transfer with this id.
    pub open spec fn spec_has_tx(&self, id: Seq<char>) -> bool {
        exists|i: int, j: int|
            0 <= i < self.blocks@.len() && 0 <= j < (#[trigger] self.blocks@[i]).transactions@.len()
                && (#[trigger] self.blocks@[i].transactions@[j]).id@ == id
    }

    /// The structure every ledger keeps. Block ids never repeat; the
    /// tips are exactly the ids of the blocks without children, each
    /// listed once; and every edge joins a block to a strictly earlier
    /// parent, listed on both sides, so the graph is acyclic.
    pub open spec fn wf(&self) -> bool {
        let blocks = self.blocks@;
        let tips = self.tips@;
        &&& forall|i: int, j: int|
            #![trigger blocks[i], blocks[j]]
            0 <= i < j < blocks.len() ==> blocks[i].id@ != blocks[j].id@
        &&& forall|i: int, j: int|
            #![trigger tips[i], tips[j]]
            0 <= i < j < tips.len() ==> tips[i]@ != tips[j]@
        &&& forall|i: int|
            #![trigger blocks[i]]
            0 <= i < blocks.len() ==> (blocks[i].child_ids@.len() == 0 <==> ids_contain(
                tips,
                blocks[i].id@,
            ))
        &&& forall|k: int| 0 <= k < tips.len() ==> blocks_contain(blocks, (#[trigger] tips[k])@)
        &&& parent_edges_ok(blocks)
        &&& child_edges_ok(blocks)
    }

    /// Creates a ledger holding only the genesis block, with id `1`,
    /// no transfers and no parents, as the single tip at height one.
    pub fn new() -> (dag: DAG)
        ensures
            dag.blocks@.len() == 1,
            dag.blocks@[0].id@ == "1"@,
            dag.blocks@[0].transactions@.len() == 0,
            dag.blocks@[0].parent_ids@.len() == 0,
            dag.blocks@[0].child_ids@.len() == 0,
            dag.tips@.len() == 1,
            dag.tips@[0]@ == "1"@,
            dag.current_height == 1,
            dag.wf(),
    {
        let genesis_block = Block {
            id: String::from_str("1"),
            transactions: Vec::new(),
            parent_ids: Vec::new(),
            child_ids: Vec::new(),
        };
        let mut blocks = Vec::new();
        blocks.push(genesis_block);
        let mut tips = Vec::new();
        tips.push(String::from_str("1"));
        let dag = DAG { blocks, tips, current_height: 1 };
        proof {
            assert(dag.tips@[0]@ == dag.blocks@[0].id@);
            assert(ids_contain(dag.tips@, dag.blocks@[0].id@));
        }
        dag
    }

    /// Finds the position of the first block with this id.
    pub fn find_block_index(&self, id: &str) -> (r: Option<usize>)
        ensures
            r is Some <==> self.spec_has_block(id@),
            r is Some ==> 0 <= r->0 < self.blocks@.len() && self.blocks@[r->0 as int].id@ == id@,
    {
        let mut i: usize = 0;
        while i < self.blocks.len()
            invariant
                i <= self.blocks@.len(),
                forall|j: int| 0 <= j < i ==> (#[trigger] self.blocks@[j]).id@ != id@,
            decreases self.blocks@.len() - i,
        {
            if str_eq(self.blocks[i].id.as_str(), id) {
                return Some(i);
            }
            i = i + 1;
        }
        None
    }

    /// Whether a block with this id has been committed.
    pub fn contains_block_id(&self, id: &str) -> (r: bool)
        ensures
            r == self.spec_has_block(id@),
    {
        let mut i: usize = 0;
        while i < self.blocks.len()
            invariant
                i <= self.blocks@.len(),
                forall|j: int| 0 <= j < i ==> (#[trigger] self.blocks@[j]).id@ != id@,
            decreases self.blocks@.len() - i,
        {
            if str_eq(self.blocks[i].id.as_str(), id) {
                return true;
            }
            i = i + 1;
        }
        false
    }

    /// Finds a committed transfer by id and returns a copy of the
    /// first record carrying it, in block order.
    pub fn get_transaction(&self, transaction_id: &str) -> (r: Option<BlockTransaction>)
        ensures
            r is Some <==> spec_find_tx(self.blocks@, transaction_id@) is Some,
            r is Some <==> self.spec_has_tx(transaction_id@),
            r is Some ==> same_block_tx(r->0, spec_find_tx(self.blocks@, transaction_id@)->0)
                && r->0.id@ == transaction_id@,
    {
        let ghost all_blocks = self.blocks@;
        let mut i: usize = 0;
        proof {
            assert(all_blocks.skip(0) =~= all_blocks);
        }
        while i < self.blocks.len()
            invariant
                all_blocks == self.blocks@,
                i <= all_blocks.len(),
                spec_find_tx(all_blocks, transaction_id@) == spec_find_tx(
                    all_blocks.skip(i as int),
                    transaction_id@,
                ),
                forall|a: int, b: int|
                    0 <= a < i && 0 <= b < (#[trigger] all_blocks[a]).transactions@.len() ==> (
                    #[trigger] all_blocks[a].transactions@[b]).id@ != transaction_id@,
            decreases all_blocks.len() - i,
        {
            let block = &self.blocks[i];
            let ghost block_txs = block.transactions@;
            let mut j: usize = 0;
            proof {
                assert(block_txs.skip(0) =~= block_txs);
            }
            while j < block.transactions.len()
                invariant
                    block == &self.blocks[i as int],
                    i < all_blocks.len(),
                    all_blocks == self.blocks@,
                    block_txs == block.transactions@,
                    j <= block_txs.len(),
                    spec_find_tx(all_blocks, transaction_id@) == spec_find_tx(
                        all_blocks.skip(i as int),
                        transaction_id@,
                    ),
                    spec_find_tx_in(block_txs, transaction_id@) == spec_find_tx_in(
                        block_txs.skip(j as int),
                        transaction_id@,
                    ),
                    forall|b: int|
                        0 <= b < j ==> (#[trigger] block_txs[b]).id@ != transaction_id@,
                decreases block_txs.len() - j,
            {
                let ghost rest = block_txs.skip(j as int);
                proof {
                    assert(rest[0] == block_txs[j as int]);
                    assert(rest.drop_first() =~= block_txs.skip(j as int + 1));
                }
                if str_eq(block.transactions[j].id.as_str(), transaction_id) {
                    let found = block.transactions[j].clone();
                    proof {
                        assert(spec_find_tx_in(block_txs, transaction_id@) == Some(
                            block_txs[j as int],
                        ));
                        let outer = all_blocks.skip(i as int);
                        assert(outer[0] == all_blocks[i as int]);
                        assert(spec_find_tx(outer, transaction_id@) == Some(block_txs[j as int]));
                    }
                    return Some(found);
                }
                j = j + 1;
            }
            proof {
                assert(block_txs.skip(block_txs.len() as int) =~= Seq::<BlockTransaction>::empty());
                assert(spec_find_tx_in(block_txs, transaction_id@) is None);
                let outer = all_blocks.skip(i as int);
                assert(outer[0] == all_blocks[i as int]);
                assert(outer.drop_first() =~= all_blocks.skip(i as int + 1));
                assert(spec_find_tx(outer, transaction_id@) == spec_find_tx(
                    all_blocks.skip(i as int + 1),
                    transaction_id@,
                ));
            }
            i = i + 1;
        }
        proof {
            assert(all_blocks.skip(all_blocks.len() as int) =~= Seq::<Block>::empty());
        }
        None
    }
}


/// What a successful commit of a non-empty batch does to the ledger:
/// the height advances by one; the batch is split in order into chunks
/// of up to five; each chunk becomes a new block whose parents are the
/// previous tips; the previous tips' blocks list every new block as a
/// child; and the new blocks' ids are the new tips.
pub open spec fn spec_committed(pre: DAG, post: DAG, txs: Seq<BlockTransaction>) -> bool {
    let total = txs.len();
    let num_blocks = spec_num_blocks(total);
    let height = post.current_height;
    let old_len = pre.blocks@.len() as int;
    &&& post.current_height == pre.current_height + 1
    &&& post.blocks@.len() == old_len + num_blocks
    &&& forall|i: int|
        #![trigger post.blocks@[i]]
        0 <= i < old_len ==> {
            let old_block = pre.blocks@[i];
            let new_block = post.blocks@[i];
            &&& new_block.id == old_block.id
            &&& new_block.transactions == old_block.transactions
            &&& new_block.parent_ids == old_block.parent_ids
            &&& (old_block.child_ids@.len() == 0 ==> new_block.child_ids@.len() == num_blocks
                && forall|k: int|
                    0 <= k < num_blocks ==> (#[trigger] new_block.child_ids@[k])@ == spec_block_id(
                        height,
                        total,
                        k,
                    ))
            &&& (old_block.child_ids@.len() > 0 ==> new_block.child_ids == old_block.child_ids)
        }
    &&& forall|k: int|
        #![trigger post.blocks@[old_len + k]]
        0 <= k < num_blocks ==> {
            let block = post.blocks@[old_len + k];
            &&& block.id@ == spec_block_id(height, total, k)
            &&& block.transactions@.len() == (if k == num_blocks - 1 {
                total - 5 * k
            } else {
                5
            })
            &&& forall|j: int|
                0 <= j < block.transactions@.len() ==> same_block_tx(
                    #[trigger] block.transactions@[j],
                    txs[5 * k + j],
                )
            &&& block.parent_ids@.len() == pre.tips@.len()
            &&& forall|p: int|
                0 <= p < pre.tips@.len() ==> (#[trigger] block.parent_ids@[p])@ == pre.tips@[p]@
            &&& block.child_ids@.len() == 0
        }
    &&& post.tips@.len() == num_blocks
    &&& forall|k: int|
        0 <= k < num_blocks ==> (#[trigger] post.tips@[k])@ == spec_block_id(height, total, k)
}

/// Distinct chunks of one batch get distinct block ids.
proof fn lemma_block_id_injective(height: u64, total: nat, k1: int, k2: int)
    requires
        0 <= k1 < k2 < spec_num_blocks(total),
    ensures
        spec_block_id(height, total, k1) != spec_block_id(height, total, k2),
{
    assert(total > 5);
    let stem = dec_chars(height as nat) + "."@;
    let id1 = spec_block_id(height, total, k1);
    let id2 = spec_block_id(height, total, k2);
    lemma_dec_chars_injective((k1 + 1) as nat, (k2 + 1) as nat);
    if id1 == id2 {
        let tail1 = dec_chars((k1 + 1) as nat);
        let tail2 = dec_chars((k2 + 1) as nat);
        assert(id1.len() == stem.len() + tail1.len());
        assert(id2.len() == stem.len() + tail2.len());
        assert(tail1 =~= tail2) by {
            assert(tail1.len() == tail2.len());
            assert forall|i: int| 0 <= i < tail1.len() implies tail1[i] == tail2[i] by {
                assert(id1[stem.len() + i] == tail1[i]);
                assert(id2[stem.len() + i] == tail2[i]);
            }
        }
        assert(false);
    }
}

/// A committed ledger keeps its structure: when the batch's block ids
/// were fresh, every well-formedness clause carries over to the new
/// ledger.
#[verifier::rlimit(100)]
proof fn lemma_commit_preserves_wf(pre: DAG, post: DAG, txs: Seq<BlockTransaction>)
    requires
        pre.wf(),
        txs.len() > 0,
        spec_committed(pre, post, txs),
        forall|k: int|
            0 <= k < spec_num_blocks(txs.len()) ==> !blocks_contain(
                pre.blocks@,
                spec_block_id(post.current_height, txs.len(), k),
            ),
    ensures
        post.wf(),
{
    let blocks = post.blocks@;
    let tips = post.tips@;
    let old_blocks = pre.blocks@;
    let old_len = old_blocks.len() as int;
    let total = txs.len();
    let num_blocks = spec_num_blocks(total);
    let height = post.current_height;

    // Block ids never repeat.
    assert forall|i: int, j: int|
        #![trigger blocks[i], blocks[j]]
        0 <= i < j < blocks.len() implies blocks[i].id@ != blocks[j].id@ by {
        if j < old_len {
            assert(blocks[i].id == old_blocks[i].id);
            assert(blocks[j].id == old_blocks[j].id);
            assert(old_blocks[i].id@ != old_blocks[j].id@);
        } else if i < old_len {
            let k = j - old_len;
            assert(blocks[old_len + k].id@ == spec_block_id(height, total, k));
            assert(!blocks_contain(old_blocks, spec_block_id(height, total, k)));
            assert(blocks[i].id == old_blocks[i].id);
        } else {
            let k1 = i - old_len;
            let k2 = j - old_len;
            assert(blocks[old_len + k1].id@ == spec_block_id(height, total, k1));
            assert(blocks[old_len + k2].id@ == spec_block_id(height, total, k2));
            lemma_block_id_injective(height, total, k1, k2);
        }
    }

    // Tips never repeat.
    assert forall|i: int, j: int|
        #![trigger tips[i], tips[j]]
        0 <= i < j < tips.len() implies tips[i]@ != tips[j]@ by {
        lemma_block_id_injective(height, total, i, j);
    }

    // Tips are exactly the childless blocks.
    assert forall|i: int|
        #![trigger blocks[i]]
        0 <= i < blocks.len() implies (blocks[i].child_ids@.len() == 0 <==> ids_contain(
        tips,
        blocks[i].id@,
    )) by {
        if i < old_len {
            assert(blocks[i].id == old_blocks[i].id);
            if old_blocks[i].child_ids@.len() == 0 {
                assert(blocks[i].child_ids@.len() == num_blocks);
            } else {
                assert(blocks[i].child_ids == old_blocks[i].child_ids);
            }
            assert(blocks[i].child_ids@.len() > 0);
            if ids_contain(tips, blocks[i].id@) {
                let k = choose|k: int| 0 <= k < tips.len() && (#[trigger] tips[k])@
                    == blocks[i].id@;
                assert(blocks[i].id@ == spec_block_id(height, total, k));
                assert(blocks_contain(old_blocks, spec_block_id(height, total, k)));
                assert(false);
            }
        } else {
            let k = i - old_len;
            assert(blocks[old_len + k].child_ids@.len() == 0);
            assert(tips[k]@ == spec_block_id(height, total, k));
            assert(blocks[old_len + k].id@ == spec_block_id(height, total, k));
            assert(ids_contain(tips, blocks[i].id@));
        }
    }

    // Every tip names a block.
    assert forall|k: int| 0 <= k < tips.len() implies blocks_contain(
        blocks,
        (#[trigger] tips[k])@,
    ) by {
        assert(blocks[old_len + k].id@ == spec_block_id(height, total, k));
        assert(tips[k]@ == spec_block_id(height, total, k));
    }

    // Parent edges point backwards and are mirrored.
    assert forall|i: int, p: int|
        #![trigger parent_edge_target(blocks, i, p)]
        0 <= i < blocks.len() && 0 <= p < blocks[i].parent_ids@.len() implies parent_edge_target(
        blocks,
        i,
        p,
    ) by {
        if i < old_len {
            assert(blocks[i].parent_ids == old_blocks[i].parent_ids);
            assert(blocks[i].id == old_blocks[i].id);
            assert(old_blocks[i].parent_ids@[p] == blocks[i].parent_ids@[p]);
            assert(parent_edge_target(old_blocks, i, p));
            let j = choose|j: int|
                0 <= j < i && (#[trigger] old_blocks[j]).id@ == old_blocks[i].parent_ids@[p]@
                    && ids_contain(old_blocks[j].child_ids@, old_blocks[i].id@);
            assert(old_blocks[j].child_ids@.len() > 0);
            assert(blocks[j].child_ids == old_blocks[j].child_ids);
            assert(blocks[j].id == old_blocks[j].id);
            assert(blocks[j].id@ == blocks[i].parent_ids@[p]@);
            assert(ids_contain(blocks[j].child_ids@, blocks[i].id@));
            assert(parent_edge_target(blocks, i, p));
        } else {
            // A new block's parents are the previous tips.
            let k = i - old_len;
            assert(blocks[old_len + k].parent_ids@.len() == pre.tips@.len());
            assert(blocks[old_len + k].parent_ids@[p]@ == pre.tips@[p]@);
            assert(blocks_contain(old_blocks, pre.tips@[p]@));
            let j = choose|j: int|
                0 <= j < old_len && (#[trigger] old_blocks[j]).id@ == pre.tips@[p]@;
            assert(ids_contain(pre.tips@, old_blocks[j].id@));
            assert(old_blocks[j].child_ids@.len() == 0);
            assert(blocks[j].child_ids@.len() == num_blocks);
            assert(blocks[j].child_ids@[k]@ == spec_block_id(height, total, k));
            assert(blocks[j].id == old_blocks[j].id);
            assert(blocks[j].id@ == blocks[i].parent_ids@[p]@);
            assert(blocks[old_len + k].id@ == spec_block_id(height, total, k));
            assert(ids_contain(blocks[j].child_ids@, blocks[i].id@));
            assert(parent_edge_target(blocks, i, p));
        }
    }

    // Child edges point forwards and are mirrored.
    assert forall|i: int, c: int|
        #![trigger child_edge_target(blocks, i, c)]
        0 <= i < blocks.len() && 0 <= c < blocks[i].child_ids@.len() implies child_edge_target(
        blocks,
        i,
        c,
    ) by {
        if i < old_len {
            assert(blocks[i].id == old_blocks[i].id);
            if old_blocks[i].child_ids@.len() == 0 {
                // A previous tip: its children are the new blocks.
                assert(blocks[i].child_ids@.len() == num_blocks);
                assert(blocks[i].child_ids@[c]@ == spec_block_id(height, total, c));
                assert(blocks[old_len + c].id@ == spec_block_id(height, total, c));
                assert(ids_contain(pre.tips@, old_blocks[i].id@));
                let p = choose|p: int|
                    0 <= p < pre.tips@.len() && (#[trigger] pre.tips@[p])@ == old_blocks[i].id@;
                assert(blocks[old_len + c].parent_ids@.len() == pre.tips@.len());
                assert(blocks[old_len + c].parent_ids@[p]@ == pre.tips@[p]@);
                assert(ids_contain(blocks[old_len + c].parent_ids@, blocks[i].id@));
                assert(old_len + c < blocks.len());
                assert(child_edge_target(blocks, i, c));
            } else {
                assert(blocks[i].child_ids == old_blocks[i].child_ids);
                assert(old_blocks[i].child_ids@[c] == blocks[i].child_ids@[c]);
                assert(child_edge_target(old_blocks, i, c));
                let j = choose|j: int|
                    i < j < old_len && (#[trigger] old_blocks[j]).id@
                        == old_blocks[i].child_ids@[c]@ && ids_contain(
                        old_blocks[j].parent_ids@,
                        old_blocks[i].id@,
                    );
                assert(blocks[j].id == old_blocks[j].id);
                assert(blocks[j].parent_ids == old_blocks[j].parent_ids);
                assert(ids_contain(blocks[j].parent_ids@, blocks[i].id@));
                assert(child_edge_target(blocks, i, c));
            }
        } else {
            let k = i - old_len;
            assert(blocks[old_len + k].child_ids@.len() == 0);
        }
    }

    assert(forall|i: int, j: int|
        #![trigger blocks[i], blocks[j]]
        0 <= i < j < blocks.len() ==> blocks[i].id@ != blocks[j].id@);
    assert(forall|i: int, j: int|
        #![trigger tips[i], tips[j]]
        0 <= i < j < tips.len() ==> tips[i]@ != tips[j]@);
    assert(forall|i: int|
        #![trigger blocks[i]]
        0 <= i < blocks.len() ==> (blocks[i].child_ids@.len() == 0 <==> ids_contain(
            tips,
            blocks[i].id@,
        )));
    assert(forall|k: int| 0 <= k < tips.len() ==> blocks_contain(blocks, (#[trigger] tips[k])@));
    assert(parent_edges_ok(blocks));
    assert(child_edges_ok(blocks));
}


impl DAG {
    /// Commits a batch of transfers atomically. Every signature is
    /// verified against the sender's current key first; any failure, or
    /// a block id that is already taken, leaves the ledger untouched.
    /// On success the batch is packed into blocks of up to five
    /// transfers under the previous tips, exactly as `spec_committed`
    /// says.
    #[verifier::rlimit(100)]
    pub fn add_transactions(&mut self, transactions: Vec<BlockTransaction>, user_pool: &UserPool) -> (r: Result<(), LedgerError>)
        requires
            old(self).wf(),
            user_pool.wf(),
            old(self).current_height < u64::MAX,
        ensures
            r is Ok <==> (forall|t: int|
                0 <= t < transactions@.len() ==> (#[trigger] transactions@[t]).committable(
                    *user_pool,
                )) && (forall|k: int|
                0 <= k < spec_num_blocks(transactions@.len()) ==> !old(self).spec_has_block(
                    #[trigger] spec_block_id(
                        (old(self).current_height + 1) as u64,
                        transactions@.len(),
                        k,
                    ),
                )),
            r is Err ==> *final(self) == *old(self),
            r is Err ==> r->Err_0 == LedgerError::UnknownUser || r->Err_0
                == LedgerError::BadSignature || r->Err_0 == LedgerError::DuplicateTransaction,
            r is Err && r->Err_0 == LedgerError::UnknownUser ==> exists|t: int|
                0 <= t < transactions@.len() && !user_pool.spec_has_user(
                    (#[trigger] transactions@[t]).sender@,
                ),
            r is Err && r->Err_0 == LedgerError::BadSignature ==> exists|t: int|
                0 <= t < transactions@.len() && !(#[trigger] transactions@[t]).committable(
                    *user_pool,
                ),
            r is Err && r->Err_0 == LedgerError::DuplicateTransaction ==> exists|k: int|
                0 <= k < spec_num_blocks(transactions@.len()) && old(self).spec_has_block(
                    #[trigger] spec_block_id(
                        (old(self).current_height + 1) as u64,
                        transactions@.len(),
                        k,
                    ),
                ),
            r is Ok && transactions@.len() == 0 ==> *final(self) == *old(self),
            r is Ok && transactions@.len() > 0 ==> spec_committed(
                *old(self),
                *final(self),
                transactions@,
            ) && final(self).wf(),
    {
        if transactions.is_empty() {
            return Ok(());
        }
        // First pass: verify every signature; fail without any change.
        let mut t: usize = 0;
        while t < transactions.len()
            invariant
                user_pool.wf(),
                t <= transactions@.len(),
                forall|u: int|
                    0 <= u < t ==> (#[trigger] transactions@[u]).committable(*user_pool),
            decreases transactions@.len() - t,
        {
            let tx = &transactions[t];
            let sender_public_key = match user_pool.get_user_public_key(tx.sender.as_str()) {
                Some(key) => key,
                None => {
                    return Err(LedgerError::UnknownUser);
                },
            };
            let message = canonical_message(
                tx.id.as_str(),
                tx.sender.as_str(),
                tx.receiver.as_str(),
                tx.amount,
                tx.timestamp,
            );
            match KeyPairWrapper::verify(&sender_public_key, message.as_str(), &tx.signature) {
                Ok(()) => {},
                Err(_) => {
                    proof {
                        assert(!transactions@[t as int].committable(*user_pool));
                    }
                    return Err(LedgerError::BadSignature);
                },
            }
            t = t + 1;
        }
        let total = transactions.len();
        let num_blocks = total / MAX_TRANSACTIONS_PER_BLOCK + (if total
            % MAX_TRANSACTIONS_PER_BLOCK == 0 {
            0
        } else {
            1
        });
        proof {
            assert(num_blocks == spec_num_blocks(total as nat));
            assert(5 * num_blocks >= total);
            assert(5 * (num_blocks - 1) < total);
        }
        let next_height = self.current_height + 1;
        // Compute the new block ids and insist they are fresh.
        let mut new_ids: Vec<String> = Vec::new();
        let mut k: usize = 0;
        while k < num_blocks
            invariant
                k <= num_blocks,
                new_ids@.len() == k,
                total == transactions@.len(),
                total > 0,
                num_blocks == spec_num_blocks(total as nat),
                old(self).current_height < u64::MAX,
                next_height == old(self).current_height + 1,
                *self == *old(self),
                forall|kk: int|
                    0 <= kk < k ==> (#[trigger] new_ids@[kk])@ == spec_block_id(
                        next_height,
                        total as nat,
                        kk,
                    ),
                forall|kk: int|
                    0 <= kk < k ==> !old(self).spec_has_block(
                        spec_block_id(next_height, total as nat, kk),
                    ),
            decreases num_blocks - k,
        {
            let block_id: String = if num_blocks == 1 {
                u64_to_string(next_height)
            } else {
                let mut stem = u64_to_string(next_height);
                stem.append(".");
                let suffix = u64_to_string((k as u64) + 1);
                stem.append(suffix.as_str());
                stem
            };
            proof {
                assert(total <= 5 <==> num_blocks == 1);
                assert(block_id@ =~= spec_block_id(next_height, total as nat, k as int));
            }
            if self.contains_block_id(block_id.as_str()) {
                proof {
                    assert(old(self).spec_has_block(
                        spec_block_id(
                            (old(self).current_height + 1) as u64,
                            transactions@.len(),
                            k as int,
                        ),
                    ));
                }
                return Err(LedgerError::DuplicateTransaction);
            }
            new_ids.push(block_id);
            k = k + 1;
        }
        // Second pass: pack the batch into blocks under the old tips.
        let parent_snapshot = clone_string_vec(&self.tips);
        self.tips = clone_string_vec(&new_ids);
        self.current_height = next_height;
        let old_len = self.blocks.len();
        let mut k: usize = 0;
        while k < num_blocks
            invariant
                k <= num_blocks,
                total == transactions@.len(),
                total > 0,
                num_blocks == spec_num_blocks(total as nat),
                next_height == old(self).current_height + 1,
                old_len == old(self).blocks@.len(),
                self.current_height == next_height,
                self.tips@.len() == num_blocks,
                forall|kk: int| 0 <= kk < num_blocks ==> self.tips@[kk] == new_ids@[kk],
                new_ids@.len() == num_blocks,
                forall|kk: int|
                    0 <= kk < num_blocks ==> (#[trigger] new_ids@[kk])@ == spec_block_id(
                        next_height,
                        total as nat,
                        kk,
                    ),
                parent_snapshot@ == old(self).tips@,
                self.blocks@.len() == old_len + k,
                forall|i: int|
                    0 <= i < old_len ==> #[trigger] self.blocks@[i] == old(self).blocks@[i],
                forall|kk: int|
                    #![trigger self.blocks@[old_len + kk]]
                    0 <= kk < k ==> {
                        let block = self.blocks@[old_len + kk];
                        &&& block.id == new_ids@[kk]
                        &&& block.transactions@.len() == (if kk == num_blocks - 1 {
                            total - 5 * kk
                        } else {
                            5int
                        })
                        &&& forall|j: int|
                            0 <= j < block.transactions@.len() ==> same_block_tx(
                                #[trigger] block.transactions@[j],
                                transactions@[5 * kk + j],
                            )
                        &&& block.parent_ids@ == old(self).tips@
                        &&& block.child_ids@.len() == 0
                    },
            decreases num_blocks - k,
        {
            let start = k * MAX_TRANSACTIONS_PER_BLOCK;
            proof {
                assert(start < total);
            }
            let end = if total - start > MAX_TRANSACTIONS_PER_BLOCK {
                start + MAX_TRANSACTIONS_PER_BLOCK
            } else {
                total
            };
            let mut chunk: Vec<BlockTransaction> = Vec::new();
            let mut j = start;
            while j < end
                invariant
                    start <= j <= end,
                    end <= total,
                    total == transactions@.len(),
                    chunk@.len() == j - start,
                    forall|b: int|
                        0 <= b < chunk@.len() ==> same_block_tx(
                            #[trigger] chunk@[b],
                            transactions@[start + b],
                        ),
                decreases end - j,
            {
                chunk.push(transactions[j].clone());
                j = j + 1;
            }
            let block = Block {
                id: new_ids[k].clone(),
                transactions: chunk,
                parent_ids: clone_string_vec(&parent_snapshot),
                child_ids: Vec::new(),
            };
            self.blocks.push(block);
            proof {
                assert(end - start == (if k as int == num_blocks - 1 {
                    total - 5 * (k as int)
                } else {
                    5int
                }));
            }
            k = k + 1;
        }
        // Third pass: the old tips take every new block as a child.
        let ghost mid_blocks = self.blocks@;
        let mut i: usize = 0;
        while i < old_len
            invariant
                i <= old_len,
                old_len <= self.blocks@.len(),
                self.blocks@.len() == mid_blocks.len(),
                self.current_height == next_height,
                self.tips@.len() == num_blocks,
                new_ids@.len() == num_blocks,
                forall|kk: int| 0 <= kk < num_blocks ==> self.tips@[kk] == new_ids@[kk],
                forall|j: int| i <= j < self.blocks@.len() ==> #[trigger] self.blocks@[j] == mid_blocks[j],
                forall|j: int|
                    #![trigger self.blocks@[j]]
                    0 <= j < i ==> {
                        let mid = mid_blocks[j];
                        let cur = self.blocks@[j];
                        &&& cur.id == mid.id
                        &&& cur.transactions == mid.transactions
                        &&& cur.parent_ids == mid.parent_ids
                        &&& (mid.child_ids@.len() == 0 ==> cur.child_ids@ == new_ids@)
                        &&& (mid.child_ids@.len() > 0 ==> cur.child_ids == mid.child_ids)
                    },
            decreases old_len - i,
        {
            let mut scratch = Block {
                id: String::new(),
                transactions: Vec::new(),
                parent_ids: Vec::new(),
                child_ids: Vec::new(),
            };
            self.blocks.set_and_swap(i, &mut scratch);
            if scratch.child_ids.is_empty() {
                let mut children = clone_string_vec(&new_ids);
                scratch.child_ids.append(&mut children);
            }
            self.blocks.set_and_swap(i, &mut scratch);
            i = i + 1;
        }
        proof {
            let pre = *old(self);
            let post = *self;
            let txs = transactions@;
            let height = post.current_height;
            assert forall|idx: int|
                #![trigger post.blocks@[idx]]
                0 <= idx < pre.blocks@.len() implies {
                let old_block = pre.blocks@[idx];
                let new_block = post.blocks@[idx];
                &&& new_block.id == old_block.id
                &&& new_block.transactions == old_block.transactions
                &&& new_block.parent_ids == old_block.parent_ids
                &&& (old_block.child_ids@.len() == 0 ==> new_block.child_ids@.len()
                    == spec_num_blocks(txs.len()) && forall|kc: int|
                        0 <= kc < spec_num_blocks(txs.len()) ==> (
                        #[trigger] new_block.child_ids@[kc])@ == spec_block_id(
                            height,
                            txs.len(),
                            kc,
                        ))
                &&& (old_block.child_ids@.len() > 0 ==> new_block.child_ids
                    == old_block.child_ids)
            } by {
                assert(mid_blocks[idx] == pre.blocks@[idx]);
            }
            assert forall|kk: int|
                #![trigger post.blocks@[pre.blocks@.len() + kk]]
                0 <= kk < spec_num_blocks(txs.len()) implies {
                let block = post.blocks@[pre.blocks@.len() + kk];
                &&& block.id@ == spec_block_id(height, txs.len(), kk)
                &&& block.transactions@.len() == (if kk == spec_num_blocks(txs.len()) - 1 {
                    txs.len() - 5 * kk
                } else {
                    5int
                })
                &&& forall|j: int|
                    0 <= j < block.transactions@.len() ==> same_block_tx(
                        #[trigger] block.transactions@[j],
                        txs[5 * kk + j],
                    )
                &&& block.parent_ids@.len() == pre.tips@.len()
                &&& forall|p: int|
                    0 <= p < pre.tips@.len() ==> (#[trigger] block.parent_ids@[p])@
                        == pre.tips@[p]@
                &&& block.child_ids@.len() == 0
            } by {
                assert(post.blocks@[old_len + kk] == mid_blocks[old_len + kk]);
            }
            assert(post.current_height == pre.current_height + 1);
            assert(total as nat == txs.len());
            assert(height == next_height);
            assert(post.blocks@.len() == pre.blocks@.len() + spec_num_blocks(txs.len()));
            assert(post.tips@.len() == spec_num_blocks(txs.len()));
            assert forall|kz: int| 0 <= kz < spec_num_blocks(txs.len()) implies (
                #[trigger] post.tips@[kz])@ == spec_block_id(height, txs.len(), kz) by {
                assert(post.tips@[kz] == new_ids@[kz]);
                assert(new_ids@[kz]@ == spec_block_id(next_height, total as nat, kz));
            }
            assert(spec_committed(pre, post, txs));
            lemma_commit_preserves_wf(pre, post, txs);
        }
        Ok(())
    }
}


/// Block `i` is a listed parent of block `j`.
pub open spec fn spec_parent_edge(dag: DAG, i: int, j: int) -> bool {
    &&& 0 <= i < dag.blocks@.len()
    &&& 0 <= j < dag.blocks@.len()
    &&& ids_contain(dag.blocks@[j].parent_ids@, dag.blocks@[i].id@)
}

/// In a well-formed ledger every parent edge joins a block to one that
/// stands strictly earlier in the commit order.
pub proof fn lemma_parent_edge_orders(dag: DAG, i: int, j: int)
    requires
        dag.wf(),
        spec_parent_edge(dag, i, j),
    ensures
        i < j,
{
    let blocks = dag.blocks@;
    let p = choose|p: int|
        0 <= p < blocks[j].parent_ids@.len() && (#[trigger] blocks[j].parent_ids@[p])@
            == blocks[i].id@;
    assert(parent_edge_target(blocks, j, p));
    let w = choose|w: int|
        0 <= w < j && (#[trigger] blocks[w]).id@ == blocks[j].parent_ids@[p]@ && ids_contain(
            blocks[w].child_ids@,
            blocks[j].id@,
        );
    if w != i {
        assert(blocks[w].id@ == blocks[i].id@);
        if w < i {
            assert(blocks[w].id@ != blocks[i].id@);
        } else {
            assert(blocks[i].id@ != blocks[w].id@);
        }
        assert(false);
    }
}

/// Following parent edges strictly ascends the commit order, so no run
/// of parent edges ever returns to a block: the ledger stays acyclic.
pub proof fn lemma_dag_acyclic(dag: DAG, path: Seq<int>)
    requires
        dag.wf(),
        path.len() >= 2,
        forall|n: int|
            0 <= n < path.len() - 1 ==> spec_parent_edge(dag, #[trigger] path[n], path[n + 1]),
    ensures
        path.first() < path.last(),
    decreases path.len(),
{
    lemma_parent_edge_orders(dag, path[0], path[1]);
    if path.len() > 2 {
        let rest = path.drop_first();
        assert forall|n: int|
            0 <= n < rest.len() - 1 implies spec_parent_edge(
            dag,
            #[trigger] rest[n],
            rest[n + 1],
        ) by {
            assert(rest[n] == path[n + 1]);
            assert(rest[n + 1] == path[n + 2]);
            assert(spec_parent_edge(dag, path[n + 1], path[n + 2]));
        }
        lemma_dag_acyclic(dag, rest);
        assert(rest.first() == path[1]);
        assert(rest.last() == path.last());
    }
}


/// A singleton batch whose transfer is committable and whose block id
/// is free always commits.
pub proof fn lemma_single_batch_commits(batch: Seq<BlockTransaction>, pool: UserPool, pre: DAG)
    requires
        batch.len() == 1,
        batch[0].committable(pool),
        pre.current_height < u64::MAX,
        !pre.spec_has_block(dec_chars((pre.current_height + 1) as nat)),
    ensures
        forall|t: int| 0 <= t < batch.len() ==> (#[trigger] batch[t]).committable(pool),
        forall|k: int|
            0 <= k < spec_num_blocks(batch.len()) ==> !pre.spec_has_block(
                #[trigger] spec_block_id((pre.current_height + 1) as u64, batch.len(), k),
            ),
{
    assert(spec_num_blocks(batch.len()) == 1);
    assert forall|k: int| 0 <= k < spec_num_blocks(batch.len()) implies !pre.spec_has_block(
        #[trigger] spec_block_id((pre.current_height + 1) as u64, batch.len(), k),
    ) by {
        assert(spec_block_id((pre.current_height + 1) as u64, batch.len(), k) == dec_chars(
            (pre.current_height + 1) as nat,
        ));
    }
}

/// What committing a singleton batch leaves: one new block at the next
/// height, alone at the tip, carrying exactly that transfer.
pub proof fn lemma_single_committed(pre: DAG, post: DAG, batch: Seq<BlockTransaction>)
    requires
        spec_committed(pre, post, batch),
        batch.len() == 1,
    ensures
        post.current_height == pre.current_height + 1,
        post.blocks@.len() == pre.blocks@.len() + 1,
        post.blocks@.last().transactions@.len() == 1,
        same_block_tx(post.blocks@.last().transactions@[0], batch[0]),
        post.blocks@.last().id@ == dec_chars(post.current_height as nat),
        post.blocks@.last().parent_ids@.len() == pre.tips@.len(),
        forall|p: int|
            0 <= p < pre.tips@.len() ==> (#[trigger] post.blocks@.last().parent_ids@[p])@
                == pre.tips@[p]@,
        post.blocks@.last().child_ids@.len() == 0,
        post.tips@.len() == 1,
        post.tips@[0]@ == dec_chars(post.current_height as nat),
        post.spec_has_tx(batch[0].id@),
{
    assert(spec_num_blocks(batch.len()) == 1);
    let old_len = pre.blocks@.len() as int;
    assert(post.blocks@.last() == post.blocks@[old_len + 0]);
    assert(post.blocks@[old_len + 0].id@ == spec_block_id(post.current_height, batch.len(), 0));
    assert(spec_block_id(post.current_height, batch.len(), 0) == dec_chars(
        post.current_height as nat,
    ));
    assert(post.tips@[0]@ == spec_block_id(post.current_height, batch.len(), 0));
    assert(same_block_tx(post.blocks@[old_len + 0].transactions@[0], batch[0]));
    assert(post.spec_has_tx(batch[0].id@)) by {
        assert(post.blocks@[old_len + 0].transactions@[0].id@ == batch[0].id@);
    }
}

} // verus!
