use vstd::prelude::*;
use crate::errors::LedgerError;
use crate::crypto::KeyPairWrapper;
use crate::local_chain::LocalDAG;
use crate::local_chain::Transaction;
use crate::local_chain::balance_after;
use crate::pool::User;
use crate::pool::UserPool;
use crate::pool::PendingTransaction;
use crate::pool::Wallet;
use crate::dag::DAG;
use crate::dag::Block;
use crate::dag::BlockTransaction;
use crate::dag::same_block_tx;
use crate::engine::same_pending;
use crate::strutil::str_eq;
use crate::strutil::clone_bytes;
use crate::strutil::clone_string_vec;

verus! {

/// Whether two chains hold the same records, field for field, under
/// the same head pointer.
pub open spec fn chain_alike(a: LocalDAG, b: LocalDAG) -> bool {
    &&& a.transactions@.len() == b.transactions@.len()
    &&& forall|i: int|
        #![trigger b.transactions@[i]]
        0 <= i < a.transactions@.len() ==> {
            let x = a.transactions@[i];
            let y = b.transactions@[i];
            &&& y.id == x.id
            &&& y.sender == x.sender
            &&& y.receiver == x.receiver
            &&& y.amount == x.amount
            &&& y.parent_id == x.parent_id
            &&& y.child_ids@ == x.child_ids@
            &&& y.signature@ == x.signature@
            &&& y.timestamp == x.timestamp
        }
    &&& b.latest_transaction_id == a.latest_transaction_id
}

/// Chains that hold the same records keep the same structure, replay
/// to the same balances, and hold the same ids.
pub proof fn lemma_chain_alike(a: LocalDAG, b: LocalDAG)
    requires
        chain_alike(a, b),
    ensures
        a.wf() ==> b.wf(),
        forall|owner: Seq<char>, init: int|
            #[trigger] balance_after(b.transactions@, owner, init) == balance_after(
                a.transactions@,
                owner,
                init,
            ),
        forall|id: Seq<char>| #[trigger] b.spec_contains_id(id) == a.spec_contains_id(id),
{
    if a.wf() {
        assert forall|i: int, j: int|
            #![trigger b.transactions@[i], b.transactions@[j]]
            0 <= i < j < b.transactions@.len() implies b.transactions@[i].id@
            != b.transactions@[j].id@ by {
            assert(a.transactions@[i].id@ != a.transactions@[j].id@);
        }
        assert forall|i: int|
            0 <= i < b.transactions@.len() implies #[trigger] crate::local_chain::chain_link_ok(
            b.transactions@,
            i,
        ) by {
            assert(crate::local_chain::chain_link_ok(a.transactions@, i));
            assert(b.transactions@[i].parent_id == a.transactions@[i].parent_id);
            assert(b.transactions@[i].child_ids@ == a.transactions@[i].child_ids@);
            if i > 0 {
                assert(b.transactions@[i - 1].id == a.transactions@[i - 1].id);
            }
            if i < b.transactions@.len() - 1 {
                assert(b.transactions@[i + 1].id == a.transactions@[i + 1].id);
            }
        }
    }
    assert forall|owner: Seq<char>, init: int|
        #[trigger] balance_after(b.transactions@, owner, init) == balance_after(
            a.transactions@,
            owner,
            init,
        ) by {
        crate::local_chain::lemma_balance_alike(a.transactions@, b.transactions@, owner, init);
    }
    assert forall|id: Seq<char>| #[trigger] b.spec_contains_id(id) == a.spec_contains_id(id) by {
        if a.spec_contains_id(id) {
            let i = choose|i: int|
                0 <= i < a.transactions@.len() && (#[trigger] a.transactions@[i]).id@ == id;
            assert(b.transactions@[i].id@ == id);
        }
        if b.spec_contains_id(id) {
            let i = choose|i: int|
                0 <= i < b.transactions@.len() && (#[trigger] b.transactions@[i]).id@ == id;
            assert(a.transactions@[i].id@ == id);
        }
    }
}

/// Copies a chain record for record.
pub fn clone_chain(chain: &LocalDAG) -> (r: LocalDAG)
    ensures
        chain_alike(*chain, r),
{
    let mut transactions: Vec<Transaction> = Vec::new();
    let mut i: usize = 0;
    while i < chain.transactions.len()
        invariant
            i <= chain.transactions@.len(),
            transactions@.len() == i,
            forall|j: int|
                #![trigger transactions@[j]]
                0 <= j < i ==> {
                    let x = chain.transactions@[j];
                    let y = transactions@[j];
                    &&& y.id == x.id
                    &&& y.sender == x.sender
                    &&& y.receiver == x.receiver
                    &&& y.amount == x.amount
                    &&& y.parent_id == x.parent_id
                    &&& y.child_ids@ == x.child_ids@
                    &&& y.signature@ == x.signature@
                    &&& y.timestamp == x.timestamp
                },
        decreases chain.transactions@.len() - i,
    {
        transactions.push(chain.transactions[i].clone());
        i = i + 1;
    }
    let latest_transaction_id = match &chain.latest_transaction_id {
        Some(latest) => Some(latest.clone()),
        None => None,
    };
    LocalDAG { transactions, latest_transaction_id }
}

/// A user as the snapshot keeps them: everything but the private key
/// material, which is never persisted.
#[derive(Debug)]
pub struct UserSnapshot {
    pub name: String,
    pub wallet_balance: u64,
    pub initial_balance: u64,
    pub public_key: Vec<u8>,
    pub local_dag: LocalDAG,
}

/// The pool as persisted: users without key material, and the pending
/// table in full.
#[derive(Debug)]
pub struct PoolSnapshot {
    pub users: Vec<UserSnapshot>,
    pub pending_transactions: Vec<PendingTransaction>,
}

/// Whether a snapshot records exactly this pool's users and pending
/// table.
pub open spec fn pool_matches_snapshot(pool: UserPool, s: PoolSnapshot) -> bool {
    &&& s.users@.len() == pool.users@.len()
    &&& forall|i: int|
        #![trigger s.users@[i]]
        0 <= i < pool.users@.len() ==> {
            let user = pool.users@[i];
            let record = s.users@[i];
            &&& record.name == user.name
            &&& record.wallet_balance == user.wallet.balance
            &&& record.initial_balance == user.initial_balance
            &&& record.public_key@ == user.public_key@
            &&& chain_alike(user.local_dag, record.local_dag)
        }
    &&& s.pending_transactions@.len() == pool.pending_transactions@.len()
    &&& forall|i: int|
        0 <= i < pool.pending_transactions@.len() ==> same_pending(
            #[trigger] s.pending_transactions@[i],
            pool.pending_transactions@[i],
        )
}

fn clone_pending_list(pending: &Vec<PendingTransaction>) -> (r: Vec<PendingTransaction>)
    ensures
        r@.len() == pending@.len(),
        forall|i: int|
            0 <= i < pending@.len() ==> same_pending(#[trigger] r@[i], pending@[i]),
{
    let mut r: Vec<PendingTransaction> = Vec::new();
    let mut i: usize = 0;
    while i < pending.len()
        invariant
            i <= pending@.len(),
            r@.len() == i,
            forall|j: int| 0 <= j < i ==> same_pending(#[trigger] r@[j], pending@[j]),
        decreases pending@.len() - i,
    {
        r.push(pending[i].clone());
        i = i + 1;
    }
    r
}

/// Writes the pool out as a snapshot: every user keeps their name,
/// balances, public key and history; the key material stays behind.
pub fn pool_to_snapshot(pool: &UserPool) -> (s: PoolSnapshot)
    ensures
        pool_matches_snapshot(*pool, s),
{
    let mut users: Vec<UserSnapshot> = Vec::new();
    let mut i: usize = 0;
    while i < pool.users.len()
        invariant
            i <= pool.users@.len(),
            users@.len() == i,
            forall|j: int|
                #![trigger users@[j]]
                0 <= j < i ==> {
                    let user = pool.users@[j];
                    let record = users@[j];
                    &&& record.name == user.name
                    &&& record.wallet_balance == user.wallet.balance
                    &&& record.initial_balance == user.initial_balance
                    &&& record.public_key@ == user.public_key@
                    &&& chain_alike(user.local_dag, record.local_dag)
                },
        decreases pool.users@.len() - i,
    {
        let user = &pool.users[i];
        users.push(
            UserSnapshot {
                name: user.name.clone(),
                wallet_balance: user.wallet.balance,
                initial_balance: user.initial_balance,
                public_key: clone_bytes(&user.public_key),
                local_dag: clone_chain(&user.local_dag),
            },
        );
        i = i + 1;
    }
    let pending_transactions = clone_pending_list(&pool.pending_transactions);
    PoolSnapshot { users, pending_transactions }
}

/// Reads a snapshot back into a live pool. The users come back with
/// their names, balances, public keys and histories, but without key
/// material: until a key is provisioned again, signing for them fails
/// while verification against their stored public keys still works.
pub fn pool_from_snapshot(s: &PoolSnapshot) -> (pool: UserPool)
    ensures
        pool.users@.len() == s.users@.len(),
        forall|i: int|
            #![trigger pool.users@[i]]
            0 <= i < s.users@.len() ==> {
                let record = s.users@[i];
                let user = pool.users@[i];
                &&& user.name == record.name
                &&& user.wallet.balance == record.wallet_balance
                &&& user.initial_balance == record.initial_balance
                &&& user.public_key@ == record.public_key@
                &&& user.key_pair_wrapper.pkcs8_bytes@ == Seq::<u8>::empty()
                &&& chain_alike(record.local_dag, user.local_dag)
            },
        pool.pending_transactions@.len() == s.pending_transactions@.len(),
        forall|i: int|
            0 <= i < s.pending_transactions@.len() ==> same_pending(
                #[trigger] pool.pending_transactions@[i],
                s.pending_transactions@[i],
            ),
{
    let mut users: Vec<User> = Vec::new();
    let mut i: usize = 0;
    while i < s.users.len()
        invariant
            i <= s.users@.len(),
            users@.len() == i,
            forall|j: int|
                #![trigger users@[j]]
                0 <= j < i ==> {
                    let record = s.users@[j];
                    let user = users@[j];
                    &&& user.name == record.name
                    &&& user.wallet.balance == record.wallet_balance
                    &&& user.initial_balance == record.initial_balance
                    &&& user.public_key@ == record.public_key@
                    &&& user.key_pair_wrapper.pkcs8_bytes@ == Seq::<u8>::empty()
                    &&& chain_alike(record.local_dag, user.local_dag)
                },
        decreases s.users@.len() - i,
    {
        let record = &s.users[i];
        users.push(
            User {
                name: record.name.clone(),
                wallet: Wallet { balance: record.wallet_balance },
                public_key: clone_bytes(&record.public_key),
                key_pair_wrapper: KeyPairWrapper::missing(),
                local_dag: clone_chain(&record.local_dag),
                initial_balance: record.initial_balance,
            },
        );
        i = i + 1;
    }
    let pending_transactions = clone_pending_list(&s.pending_transactions);
    UserPool { users, pending_transactions }
}

/// Reloading a snapshot of a well-formed, balanced pool gives back a
/// well-formed, balanced pool: every balance, history and pending
/// proposal reads as before; only the signing material is gone.
pub proof fn lemma_pool_round_trip(pool: UserPool, s: PoolSnapshot, restored: UserPool)
    requires
        pool.wf(),
        pool.balanced(),
        pool_matches_snapshot(pool, s),
        restored.users@.len() == s.users@.len(),
        forall|i: int|
            #![trigger restored.users@[i]]
            0 <= i < s.users@.len() ==> {
                let record = s.users@[i];
                let user = restored.users@[i];
                &&& user.name == record.name
                &&& user.wallet.balance == record.wallet_balance
                &&& user.initial_balance == record.initial_balance
                &&& user.public_key@ == record.public_key@
                &&& chain_alike(record.local_dag, user.local_dag)
            },
        restored.pending_transactions@.len() == s.pending_transactions@.len(),
        forall|i: int|
            0 <= i < s.pending_transactions@.len() ==> same_pending(
                #[trigger] restored.pending_transactions@[i],
                s.pending_transactions@[i],
            ),
    ensures
        restored.wf(),
        restored.balanced(),
        forall|i: int|
            #![trigger restored.users@[i]]
            0 <= i < pool.users@.len() ==> restored.users@[i].name == pool.users@[i].name
                && restored.users@[i].wallet.balance == pool.users@[i].wallet.balance
                && restored.users@[i].public_key@ == pool.users@[i].public_key@ && chain_alike(
                pool.users@[i].local_dag,
                restored.users@[i].local_dag,
            ),
{
    assert forall|i: int|
        #![trigger restored.users@[i]]
        0 <= i < pool.users@.len() implies restored.users@[i].name == pool.users@[i].name
        && restored.users@[i].wallet.balance == pool.users@[i].wallet.balance
        && restored.users@[i].public_key@ == pool.users@[i].public_key@ && chain_alike(
        pool.users@[i].local_dag,
        restored.users@[i].local_dag,
    ) by {
        assert(s.users@[i].name == pool.users@[i].name);
    }
    assert forall|i: int, j: int|
        #![trigger restored.users@[i], restored.users@[j]]
        0 <= i < j < restored.users@.len() implies restored.users@[i].name@
        != restored.users@[j].name@ by {
        assert(pool.users@[i].name@ != pool.users@[j].name@);
        assert(restored.users@[i].name == pool.users@[i].name);
        assert(restored.users@[j].name == pool.users@[j].name);
    }
    assert forall|i: int, j: int|
        #![trigger restored.pending_transactions@[i], restored.pending_transactions@[j]]
        0 <= i < j < restored.pending_transactions@.len() implies restored.pending_transactions@[i].id@
        != restored.pending_transactions@[j].id@ by {
        assert(pool.pending_transactions@[i].id@ != pool.pending_transactions@[j].id@);
        assert(same_pending(s.pending_transactions@[i], pool.pending_transactions@[i]));
        assert(same_pending(s.pending_transactions@[j], pool.pending_transactions@[j]));
        assert(same_pending(restored.pending_transactions@[i], s.pending_transactions@[i]));
        assert(same_pending(restored.pending_transactions@[j], s.pending_transactions@[j]));
    }
    assert forall|i: int| 0 <= i < restored.users@.len() implies (
        #[trigger] restored.users@[i]).wf() by {
        assert(pool.users@[i].wf());
        lemma_chain_alike(pool.users@[i].local_dag, restored.users@[i].local_dag);
    }
    assert forall|i: int| 0 <= i < restored.users@.len() implies (
        #[trigger] restored.users@[i]).balanced() by {
        assert(pool.users@[i].balanced());
        lemma_chain_alike(pool.users@[i].local_dag, restored.users@[i].local_dag);
        assert(restored.users@[i].name@ == pool.users@[i].name@);
    }
}

/// Whether two blocks carry the same content, field for field.
pub open spec fn block_alike(a: Block, b: Block) -> bool {
    &&& b.id == a.id
    &&& b.transactions@.len() == a.transactions@.len()
    &&& forall|j: int|
        0 <= j < a.transactions@.len() ==> same_block_tx(
            #[trigger] b.transactions@[j],
            a.transactions@[j],
        )
    &&& b.parent_ids@ == a.parent_ids@
    &&& b.child_ids@ == a.child_ids@
}

/// The ledger as persisted: blocks, tips and height, in full.
#[derive(Debug)]
pub struct DagSnapshot {
    pub blocks: Vec<Block>,
    pub tips: Vec<String>,
    pub current_height: u64,
}

/// Whether a snapshot records exactly this ledger.
pub open spec fn dag_matches_snapshot(dag: DAG, s: DagSnapshot) -> bool {
    &&& s.blocks@.len() == dag.blocks@.len()
    &&& forall|i: int|
        0 <= i < dag.blocks@.len() ==> block_alike(dag.blocks@[i], #[trigger] s.blocks@[i])
    &&& s.tips@ == dag.tips@
    &&& s.current_height == dag.current_height
}

fn clone_block_list(blocks: &Vec<Block>) -> (r: Vec<Block>)
    ensures
        r@.len() == blocks@.len(),
        forall|i: int| 0 <= i < blocks@.len() ==> block_alike(blocks@[i], #[trigger] r@[i]),
{
    let mut r: Vec<Block> = Vec::new();
    let mut i: usize = 0;
    while i < blocks.len()
        invariant
            i <= blocks@.len(),
            r@.len() == i,
            forall|j: int| 0 <= j < i ==> block_alike(blocks@[j], #[trigger] r@[j]),
        decreases blocks@.len() - i,
    {
        let block = &blocks[i];
        let mut transactions: Vec<BlockTransaction> = Vec::new();
        let mut j: usize = 0;
        while j < block.transactions.len()
            invariant
                j <= block.transactions@.len(),
                transactions@.len() == j,
                forall|b: int|
                    0 <= b < j ==> same_block_tx(
                        #[trigger] transactions@[b],
                        block.transactions@[b],
                    ),
            decreases block.transactions@.len() - j,
        {
            transactions.push(block.transactions[j].clone());
            j = j + 1;
        }
        r.push(
            Block {
                id: block.id.clone(),
                transactions,
                parent_ids: clone_string_vec(&block.parent_ids),
                child_ids: clone_string_vec(&block.child_ids),
            },
        );
        i = i + 1;
    }
    r
}

/// Writes the ledger out as a snapshot.
pub fn dag_to_snapshot(dag: &DAG) -> (s: DagSnapshot)
    ensures
        dag_matches_snapshot(*dag, s),
{
    DagSnapshot {
        blocks: clone_block_list(&dag.blocks),
        tips: clone_string_vec(&dag.tips),
        current_height: dag.current_height,
    }
}

/// Reads a snapshot back into a live ledger.
pub fn dag_from_snapshot(s: &DagSnapshot) -> (dag: DAG)
    ensures
        s.blocks@.len() == dag.blocks@.len(),
        forall|i: int|
            0 <= i < s.blocks@.len() ==> block_alike(s.blocks@[i], #[trigger] dag.blocks@[i]),
        dag.tips@ == s.tips@,
        dag.current_height == s.current_height,
{
    DAG {
        blocks: clone_block_list(&s.blocks),
        tips: clone_string_vec(&s.tips),
        current_height: s.current_height,
    }
}

/// Reloading a snapshot of a well-formed ledger gives back a
/// well-formed ledger with the same blocks, tips, height and committed
/// transfers.
pub proof fn lemma_dag_round_trip(dag: DAG, s: DagSnapshot, restored: DAG)
    requires
        dag.wf(),
        dag_matches_snapshot(dag, s),
        s.blocks@.len() == restored.blocks@.len(),
        forall|i: int|
            0 <= i < s.blocks@.len() ==> block_alike(s.blocks@[i], #[trigger] restored.blocks@[i]),
        restored.tips@ == s.tips@,
        restored.current_height == s.current_height,
    ensures
        restored.wf(),
        restored.current_height == dag.current_height,
        forall|id: Seq<char>| #[trigger] restored.spec_has_tx(id) == dag.spec_has_tx(id),
{
    let a = dag.blocks@;
    let b = restored.blocks@;
    assert forall|i: int| #![trigger b[i]] 0 <= i < a.len() implies block_alike(a[i], b[i]) by {
        assert(block_alike(a[i], s.blocks@[i]));
        assert(block_alike(s.blocks@[i], b[i]));
        assert forall|j: int|
            0 <= j < a[i].transactions@.len() implies same_block_tx(
            #[trigger] b[i].transactions@[j],
            a[i].transactions@[j],
        ) by {
            assert(same_block_tx(s.blocks@[i].transactions@[j], a[i].transactions@[j]));
            assert(same_block_tx(b[i].transactions@[j], s.blocks@[i].transactions@[j]));
        }
    }
    assert forall|i: int, j: int|
        #![trigger b[i], b[j]]
        0 <= i < j < b.len() implies b[i].id@ != b[j].id@ by {
        assert(block_alike(a[i], b[i]));
        assert(block_alike(a[j], b[j]));
        assert(a[i].id@ != a[j].id@);
    }
    assert forall|i: int|
        #![trigger b[i]]
        0 <= i < b.len() implies (b[i].child_ids@.len() == 0 <==> crate::dag::ids_contain(
        restored.tips@,
        b[i].id@,
    )) by {
        assert(block_alike(a[i], b[i]));
        assert(a[i].child_ids@.len() == 0 <==> crate::dag::ids_contain(dag.tips@, a[i].id@));
        assert(restored.tips@ == dag.tips@);
    }
    assert forall|k: int| 0 <= k < restored.tips@.len() implies crate::dag::blocks_contain(
        b,
        (#[trigger] restored.tips@[k])@,
    ) by {
        assert(crate::dag::blocks_contain(a, dag.tips@[k]@));
        let i = choose|i: int| 0 <= i < a.len() && (#[trigger] a[i]).id@ == dag.tips@[k]@;
        assert(block_alike(a[i], b[i]));
        assert(b[i].id@ == restored.tips@[k]@);
    }
    assert forall|i: int, p: int|
        #![trigger crate::dag::parent_edge_target(b, i, p)]
        0 <= i < b.len() && 0 <= p < b[i].parent_ids@.len() implies crate::dag::parent_edge_target(
        b,
        i,
        p,
    ) by {
        assert(block_alike(a[i], b[i]));
        assert(crate::dag::parent_edge_target(a, i, p));
        let j = choose|j: int|
            0 <= j < i && (#[trigger] a[j]).id@ == a[i].parent_ids@[p]@ && crate::dag::ids_contain(
                a[j].child_ids@,
                a[i].id@,
            );
        assert(block_alike(a[j], b[j]));
        assert(b[j].id@ == b[i].parent_ids@[p]@);
        assert(crate::dag::ids_contain(b[j].child_ids@, b[i].id@));
    }
    assert forall|i: int, c: int|
        #![trigger crate::dag::child_edge_target(b, i, c)]
        0 <= i < b.len() && 0 <= c < b[i].child_ids@.len() implies crate::dag::child_edge_target(
        b,
        i,
        c,
    ) by {
        assert(block_alike(a[i], b[i]));
        assert(crate::dag::child_edge_target(a, i, c));
        let j = choose|j: int|
            i < j < a.len() && (#[trigger] a[j]).id@ == a[i].child_ids@[c]@
                && crate::dag::ids_contain(a[j].parent_ids@, a[i].id@);
        assert(block_alike(a[j], b[j]));
        assert(b[j].id@ == b[i].child_ids@[c]@);
        assert(crate::dag::ids_contain(b[j].parent_ids@, b[i].id@));
    }
    assert forall|id: Seq<char>| #[trigger] restored.spec_has_tx(id) == dag.spec_has_tx(id) by {
        if dag.spec_has_tx(id) {
            let (i, j) = choose|i: int, j: int|
                0 <= i < a.len() && 0 <= j < (#[trigger] a[i]).transactions@.len() && (
                #[trigger] a[i].transactions@[j]).id@ == id;
            assert(block_alike(a[i], b[i]));
            assert(b[i].transactions@[j].id@ == id);
        }
        if restored.spec_has_tx(id) {
            let (i, j) = choose|i: int, j: int|
                0 <= i < b.len() && 0 <= j < (#[trigger] b[i]).transactions@.len() && (
                #[trigger] b[i].transactions@[j]).id@ == id;
            assert(block_alike(a[i], b[i]));
            assert(a[i].transactions@[j].id@ == id);
        }
    }
}


fn check_chain_entry(chain: &LocalDAG, i: usize) -> (r: bool)
    requires
        i < chain.transactions@.len(),
    ensures
        r == crate::local_chain::chain_link_ok(chain.transactions@, i as int),
{
    let n = chain.transactions.len();
    let tx = &chain.transactions[i];
    if i == 0 {
        if tx.parent_id.is_some() {
            return false;
        }
    } else {
        match &tx.parent_id {
            None => {
                return false;
            },
            Some(parent) => {
                if !str_eq(parent.as_str(), chain.transactions[i - 1].id.as_str()) {
                    return false;
                }
            },
        }
    }
    if i < n - 1 {
        if tx.child_ids.len() != 1 {
            return false;
        }
        if !str_eq(tx.child_ids[0].as_str(), chain.transactions[i + 1].id.as_str()) {
            return false;
        }
    } else {
        if tx.child_ids.len() != 0 {
            return false;
        }
    }
    true
}

fn check_id_fresh_after(chain: &LocalDAG, i: usize) -> (r: bool)
    requires
        i < chain.transactions@.len(),
    ensures
        r == forall|b: int|
            i < b < chain.transactions@.len() ==> chain.transactions@[i as int].id@ != (
            #[trigger] chain.transactions@[b]).id@,
{
    let n = chain.transactions.len();
    let mut j: usize = i + 1;
    while j < n
        invariant
            n == chain.transactions@.len(),
            i < j,
            forall|b: int|
                i < b < j ==> chain.transactions@[i as int].id@ != (
                #[trigger] chain.transactions@[b]).id@,
        decreases n - j,
    {
        if str_eq(chain.transactions[i].id.as_str(), chain.transactions[j].id.as_str()) {
            return false;
        }
        j = j + 1;
    }
    true
}

/// Checks whether a chain, as loaded, keeps the line structure the
/// library maintains: an exact gate for state read back from disk.
#[verifier::rlimit(100)]
pub fn check_chain(chain: &LocalDAG) -> (r: Result<(), LedgerError>)
    ensures
        r is Ok <==> chain.wf(),
{
    let n = chain.transactions.len();
    match &chain.latest_transaction_id {
        None => {
            if n != 0 {
                return Err(LedgerError::BrokenChain);
            }
        },
        Some(latest) => {
            if n == 0 {
                return Err(LedgerError::BrokenChain);
            }
            if !str_eq(latest.as_str(), chain.transactions[n - 1].id.as_str()) {
                return Err(LedgerError::BrokenChain);
            }
        },
    }
    let mut i: usize = 0;
    while i < n
        invariant
            n == chain.transactions@.len(),
            i <= n,
            n > 0 ==> chain.latest_transaction_id is Some && chain.latest_transaction_id->0@
                == chain.transactions@.last().id@,
            n == 0 ==> chain.latest_transaction_id is None,
            forall|a: int|
                0 <= a < i ==> forall|b: int|
                    a < b < n ==> (#[trigger] chain.transactions@[a]).id@ != (
                    #[trigger] chain.transactions@[b]).id@,
            forall|a: int|
                0 <= a < i ==> #[trigger] crate::local_chain::chain_link_ok(
                    chain.transactions@,
                    a,
                ),
        decreases n - i,
    {
        if !check_id_fresh_after(chain, i) {
            proof {
                if chain.wf() {
                    let b = choose|b: int|
                        i < b < n && chain.transactions@[i as int].id@ == (
                        #[trigger] chain.transactions@[b]).id@;
                    assert(chain.transactions@[i as int].id@ != chain.transactions@[b].id@);
                }
            }
            return Err(LedgerError::DuplicateTransaction);
        }
        if !check_chain_entry(chain, i) {
            proof {
                if chain.wf() {
                    assert(crate::local_chain::chain_link_ok(chain.transactions@, i as int));
                }
            }
            return Err(LedgerError::BrokenChain);
        }
        i = i + 1;
    }
    proof {
        let txs = chain.transactions@;
        assert forall|a: int, b: int|
            #![trigger txs[a], txs[b]]
            0 <= a < b < txs.len() implies txs[a].id@ != txs[b].id@ by {}
        assert(chain.wf());
    }
    Ok(())
}

/// One registry position is sound: the name never repeats later and
/// the user's history keeps its chain shape.
#[verifier::opaque]
pub open spec fn user_entry_sound(pool: UserPool, i: int) -> bool {
    &&& forall|b: int|
        i < b < pool.users@.len() ==> pool.users@[i].name@ != (#[trigger] pool.users@[b]).name@
    &&& pool.users@[i].wf()
}

/// One pending position is sound: the id never repeats later.
pub open spec fn pending_entry_sound(pool: UserPool, i: int) -> bool {
    forall|b: int|
        i < b < pool.pending_transactions@.len() ==> pool.pending_transactions@[i].id@ != (
        #[trigger] pool.pending_transactions@[b]).id@
}

fn check_name_fresh_after(pool: &UserPool, i: usize) -> (r: bool)
    requires
        i < pool.users@.len(),
    ensures
        r == forall|b: int|
            i < b < pool.users@.len() ==> pool.users@[i as int].name@ != (
            #[trigger] pool.users@[b]).name@,
{
    let n = pool.users.len();
    let mut j: usize = i + 1;
    while j < n
        invariant
            n == pool.users@.len(),
            i < j,
            forall|b: int|
                i < b < j ==> pool.users@[i as int].name@ != (#[trigger] pool.users@[b]).name@,
        decreases n - j,
    {
        if str_eq(pool.users[i].name.as_str(), pool.users[j].name.as_str()) {
            return false;
        }
        j = j + 1;
    }
    true
}

#[verifier::rlimit(100)]
#[verifier::spinoff_prover]
fn check_user_entry(pool: &UserPool, i: usize) -> (r: Result<(), LedgerError>)
    requires
        i < pool.users@.len(),
    ensures
        r is Ok <==> user_entry_sound(*pool, i as int),
{
    if !check_name_fresh_after(pool, i) {
        proof {
            reveal(user_entry_sound);
            assert(!user_entry_sound(*pool, i as int));
        }
        return Err(LedgerError::UserExists);
    }
    let user = &pool.users[i];
    proof {
        assert(*user == pool.users@[i as int]);
    }
    let chain_result = check_chain(&user.local_dag);
    match chain_result {
        Ok(()) => {
            proof {
                reveal(user_entry_sound);
                assert(user.local_dag.wf());
                assert(pool.users@[i as int].wf());
                assert(user_entry_sound(*pool, i as int));
            }
            Ok(())
        },
        Err(e) => {
            proof {
                reveal(user_entry_sound);
                assert(!user.local_dag.wf());
                assert(!pool.users@[i as int].wf());
                assert(!user_entry_sound(*pool, i as int));
            }
            Err(e)
        },
    }
}

#[verifier::rlimit(100)]
fn check_pending_entry(pool: &UserPool, i: usize) -> (r: bool)
    requires
        i < pool.pending_transactions@.len(),
    ensures
        r == pending_entry_sound(*pool, i as int),
{
    let n = pool.pending_transactions.len();
    let mut j: usize = i + 1;
    while j < n
        invariant
            n == pool.pending_transactions@.len(),
            i < j,
            forall|b: int|
                i < b < j ==> pool.pending_transactions@[i as int].id@ != (
                #[trigger] pool.pending_transactions@[b]).id@,
        decreases n - j,
    {
        if str_eq(
            pool.pending_transactions[i].id.as_str(),
            pool.pending_transactions[j].id.as_str(),
        ) {
            return false;
        }
        j = j + 1;
    }
    true
}

/// Checks whether a pool, as loaded, keeps the registry structure the
/// library maintains: unique names, unique pending ids, and every
/// history a sound chain.
#[verifier::rlimit(100)]
pub fn check_pool(pool: &UserPool) -> (r: Result<(), LedgerError>)
    ensures
        r is Ok <==> pool.wf(),
{
    let user_count = pool.users.len();
    let mut i: usize = 0;
    while i < user_count
        invariant
            user_count == pool.users@.len(),
            i <= user_count,
            forall|a: int| 0 <= a < i ==> #[trigger] user_entry_sound(*pool, a),
        decreases user_count - i,
    {
        match check_user_entry(pool, i) {
            Ok(()) => {},
            Err(e) => {
                proof {
                    reveal(user_entry_sound);
                    if pool.wf() {
                        assert forall|b: int|
                            i < b < pool.users@.len() implies pool.users@[i as int].name@ != (
                        #[trigger] pool.users@[b]).name@ by {
                            assert(pool.users@[i as int].name@ != pool.users@[b].name@);
                        }
                        assert(pool.users@[i as int].wf());
                        assert(user_entry_sound(*pool, i as int));
                    }
                }
                return Err(e);
            },
        }
        i = i + 1;
    }
    let pending_count = pool.pending_transactions.len();
    let mut i: usize = 0;
    while i < pending_count
        invariant
            pending_count == pool.pending_transactions@.len(),
            i <= pending_count,
            forall|a: int| 0 <= a < user_count ==> #[trigger] user_entry_sound(*pool, a),
            user_count == pool.users@.len(),
            forall|a: int| 0 <= a < i ==> #[trigger] pending_entry_sound(*pool, a),
        decreases pending_count - i,
    {
        if !check_pending_entry(pool, i) {
            proof {
                if pool.wf() {
                    assert forall|b: int|
                        i < b < pool.pending_transactions@.len()
                            implies pool.pending_transactions@[i as int].id@ != (
                    #[trigger] pool.pending_transactions@[b]).id@ by {
                        assert(pool.pending_transactions@[i as int].id@
                            != pool.pending_transactions@[b].id@);
                    }
                    assert(pending_entry_sound(*pool, i as int));
                }
            }
            return Err(LedgerError::DuplicateTransaction);
        }
        i = i + 1;
    }
    proof {
        reveal(user_entry_sound);
        assert forall|a: int, b: int|
            #![trigger pool.users@[a], pool.users@[b]]
            0 <= a < b < pool.users@.len() implies pool.users@[a].name@
            != pool.users@[b].name@ by {
            assert(user_entry_sound(*pool, a));
        }
        assert forall|a: int, b: int|
            #![trigger pool.pending_transactions@[a], pool.pending_transactions@[b]]
            0 <= a < b < pool.pending_transactions@.len()
            implies pool.pending_transactions@[a].id@ != pool.pending_transactions@[b].id@ by {
            assert(pending_entry_sound(*pool, a));
        }
        assert forall|a: int| 0 <= a < pool.users@.len() implies (
            #[trigger] pool.users@[a]).wf() by {
            assert(user_entry_sound(*pool, a));
        }
    }
    Ok(())
}


fn check_block_id_fresh_after(dag: &DAG, i: usize) -> (r: bool)
    requires
        i < dag.blocks@.len(),
    ensures
        r == forall|b: int|
            i < b < dag.blocks@.len() ==> dag.blocks@[i as int].id@ != (
            #[trigger] dag.blocks@[b]).id@,
{
    let n = dag.blocks.len();
    let mut j: usize = i + 1;
    while j < n
        invariant
            n == dag.blocks@.len(),
            i < j,
            forall|b: int|
                i < b < j ==> dag.blocks@[i as int].id@ != (#[trigger] dag.blocks@[b]).id@,
        decreases n - j,
    {
        if str_eq(dag.blocks[i].id.as_str(), dag.blocks[j].id.as_str()) {
            return false;
        }
        j = j + 1;
    }
    true
}

fn check_tip_fresh_after(dag: &DAG, i: usize) -> (r: bool)
    requires
        i < dag.tips@.len(),
    ensures
        r == forall|b: int|
            i < b < dag.tips@.len() ==> dag.tips@[i as int]@ != (#[trigger] dag.tips@[b])@,
{
    let n = dag.tips.len();
    let mut j: usize = i + 1;
    while j < n
        invariant
            n == dag.tips@.len(),
            i < j,
            forall|b: int| i < b < j ==> dag.tips@[i as int]@ != (#[trigger] dag.tips@[b])@,
        decreases n - j,
    {
        if str_eq(dag.tips[i].as_str(), dag.tips[j].as_str()) {
            return false;
        }
        j = j + 1;
    }
    true
}

fn check_parents_of(dag: &DAG, i: usize) -> (r: bool)
    requires
        i < dag.blocks@.len(),
    ensures
        r ==> forall|p: int|
            0 <= p < dag.blocks@[i as int].parent_ids@.len()
                ==> #[trigger] crate::dag::parent_edge_target(dag.blocks@, i as int, p),
{
    let parent_count = dag.blocks[i].parent_ids.len();
    let mut p: usize = 0;
    while p < parent_count
        invariant
            i < dag.blocks@.len(),
            parent_count == dag.blocks@[i as int].parent_ids@.len(),
            p <= parent_count,
            forall|q: int|
                0 <= q < p ==> #[trigger] crate::dag::parent_edge_target(dag.blocks@, i as int, q),
        decreases parent_count - p,
    {
        let j = match dag.find_block_index(dag.blocks[i].parent_ids[p].as_str()) {
            Some(j) => j,
            None => {
                return false;
            },
        };
        if !(j < i) {
            return false;
        }
        if !crate::dag::ids_contain_exec(&dag.blocks[j].child_ids, dag.blocks[i].id.as_str()) {
            return false;
        }
        proof {
            assert(dag.blocks@[j as int].id@ == dag.blocks@[i as int].parent_ids@[p as int]@);
            assert(crate::dag::parent_edge_target(dag.blocks@, i as int, p as int));
        }
        p = p + 1;
    }
    true
}

fn check_children_of(dag: &DAG, i: usize) -> (r: bool)
    requires
        i < dag.blocks@.len(),
    ensures
        r ==> forall|c: int|
            0 <= c < dag.blocks@[i as int].child_ids@.len()
                ==> #[trigger] crate::dag::child_edge_target(dag.blocks@, i as int, c),
{
    let child_count = dag.blocks[i].child_ids.len();
    let mut c: usize = 0;
    while c < child_count
        invariant
            i < dag.blocks@.len(),
            child_count == dag.blocks@[i as int].child_ids@.len(),
            c <= child_count,
            forall|q: int|
                0 <= q < c ==> #[trigger] crate::dag::child_edge_target(dag.blocks@, i as int, q),
        decreases child_count - c,
    {
        let j = match dag.find_block_index(dag.blocks[i].child_ids[c].as_str()) {
            Some(j) => j,
            None => {
                return false;
            },
        };
        if !(j > i) {
            return false;
        }
        if !crate::dag::ids_contain_exec(&dag.blocks[j].parent_ids, dag.blocks[i].id.as_str()) {
            return false;
        }
        proof {
            assert(dag.blocks@[j as int].id@ == dag.blocks@[i as int].child_ids@[c as int]@);
            assert(crate::dag::child_edge_target(dag.blocks@, i as int, c as int));
        }
        c = c + 1;
    }
    true
}

/// Checks that a ledger, as loaded, keeps the structure the library
/// maintains: a sound gate for state read back from disk.
#[verifier::rlimit(100)]
pub fn check_dag(dag: &DAG) -> (r: Result<(), LedgerError>)
    ensures
        r is Ok ==> dag.wf(),
{
    let block_count = dag.blocks.len();
    let tip_count = dag.tips.len();
    let mut i: usize = 0;
    while i < block_count
        invariant
            block_count == dag.blocks@.len(),
            i <= block_count,
            forall|a: int|
                0 <= a < i ==> forall|b: int|
                    a < b < block_count ==> (#[trigger] dag.blocks@[a]).id@ != (
                    #[trigger] dag.blocks@[b]).id@,
        decreases block_count - i,
    {
        if !check_block_id_fresh_after(dag, i) {
            return Err(LedgerError::DuplicateTransaction);
        }
        i = i + 1;
    }
    let mut i: usize = 0;
    while i < tip_count
        invariant
            tip_count == dag.tips@.len(),
            i <= tip_count,
            forall|a: int|
                0 <= a < i ==> forall|b: int|
                    a < b < tip_count ==> (#[trigger] dag.tips@[a])@ != (
                    #[trigger] dag.tips@[b])@,
        decreases tip_count - i,
    {
        if !check_tip_fresh_after(dag, i) {
            return Err(LedgerError::DuplicateTransaction);
        }
        i = i + 1;
    }
    let mut i: usize = 0;
    while i < block_count
        invariant
            block_count == dag.blocks@.len(),
            i <= block_count,
            forall|a: int|
                0 <= a < i ==> ((#[trigger] dag.blocks@[a]).child_ids@.len() == 0
                    <==> crate::dag::ids_contain(dag.tips@, dag.blocks@[a].id@)),
        decreases block_count - i,
    {
        let childless = dag.blocks[i].child_ids.len() == 0;
        let listed = crate::dag::ids_contain_exec(&dag.tips, dag.blocks[i].id.as_str());
        if childless != listed {
            return Err(LedgerError::BrokenChain);
        }
        i = i + 1;
    }
    let mut k: usize = 0;
    while k < tip_count
        invariant
            tip_count == dag.tips@.len(),
            k <= tip_count,
            forall|a: int|
                0 <= a < k ==> crate::dag::blocks_contain(dag.blocks@, (#[trigger] dag.tips@[a])@),
        decreases tip_count - k,
    {
        if !dag.contains_block_id(dag.tips[k].as_str()) {
            return Err(LedgerError::BrokenChain);
        }
        k = k + 1;
    }
    let mut i: usize = 0;
    while i < block_count
        invariant
            block_count == dag.blocks@.len(),
            i <= block_count,
            forall|a: int, p: int|
                #![trigger crate::dag::parent_edge_target(dag.blocks@, a, p)]
                0 <= a < i && 0 <= p < dag.blocks@[a].parent_ids@.len()
                    ==> crate::dag::parent_edge_target(dag.blocks@, a, p),
            forall|a: int, c: int|
                #![trigger crate::dag::child_edge_target(dag.blocks@, a, c)]
                0 <= a < i && 0 <= c < dag.blocks@[a].child_ids@.len()
                    ==> crate::dag::child_edge_target(dag.blocks@, a, c),
        decreases block_count - i,
    {
        if !check_parents_of(dag, i) {
            return Err(LedgerError::BrokenChain);
        }
        if !check_children_of(dag, i) {
            return Err(LedgerError::BrokenChain);
        }
        i = i + 1;
    }
    proof {
        let blocks = dag.blocks@;
        let tips = dag.tips@;
        assert forall|a: int, b: int|
            #![trigger blocks[a], blocks[b]]
            0 <= a < b < blocks.len() implies blocks[a].id@ != blocks[b].id@ by {}
        assert forall|a: int, b: int|
            #![trigger tips[a], tips[b]]
            0 <= a < b < tips.len() implies tips[a]@ != tips[b]@ by {}
        assert(crate::dag::parent_edges_ok(blocks));
        assert(crate::dag::child_edges_ok(blocks));
    }
    Ok(())
}

/// Checks that one user's wallet agrees with their replayed history:
/// a sound gate for state read back from disk.
fn check_user_balance(user: &User) -> (r: bool)
    ensures
        r ==> user.balanced(),
{
    let txs = &user.local_dag.transactions;
    let mut current: i128 = user.initial_balance as i128;
    let mut i: usize = 0;
    while i < txs.len()
        invariant
            txs == &user.local_dag.transactions,
            i <= txs@.len(),
            current as int == balance_after(txs@.take(i as int), user.name@, user.initial_balance as int),
        decreases txs@.len() - i,
    {
        let ghost before = txs@.take(i as int);
        let ghost after = txs@.take(i as int + 1);
        proof {
            assert(after.drop_last() =~= before);
            assert(after.last() == txs@[i as int]);
        }
        if str_eq(txs[i].sender.as_str(), user.name.as_str()) {
            current = match current.checked_sub(txs[i].amount as i128) {
                Some(updated) => updated,
                None => {
                    return false;
                },
            };
        }
        if str_eq(txs[i].receiver.as_str(), user.name.as_str()) {
            current = match current.checked_add(txs[i].amount as i128) {
                Some(updated) => updated,
                None => {
                    return false;
                },
            };
        }
        i = i + 1;
    }
    proof {
        assert(txs@.take(txs@.len() as int) =~= txs@);
    }
    current == user.wallet.balance as i128
}

/// Checks that every wallet agrees with its owner's replayed history:
/// a sound gate for state read back from disk.
pub fn check_balances(pool: &UserPool) -> (r: bool)
    ensures
        r ==> pool.balanced(),
{
    let mut i: usize = 0;
    while i < pool.users.len()
        invariant
            i <= pool.users@.len(),
            forall|a: int| 0 <= a < i ==> (#[trigger] pool.users@[a]).balanced(),
        decreases pool.users@.len() - i,
    {
        if !check_user_balance(&pool.users[i]) {
            return false;
        }
        i = i + 1;
    }
    true
}

} // verus!
