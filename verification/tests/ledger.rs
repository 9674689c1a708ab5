use dag_ledger::crypto::{canonical_message, KeyPairWrapper};
use dag_ledger::dag::{Block, BlockTransaction, DAG};
use dag_ledger::engine::{
    confirm_transaction, finalize_transaction, pending_transactions_for, process_transactions,
    propose_transaction, register_user, reject_transaction, verify_transaction,
};
use dag_ledger::errors::LedgerError;
use dag_ledger::local_chain::Transaction;
use dag_ledger::pool::{PendingTransaction, UserPool};
use dag_ledger::local_chain::LocalDAG;
use dag_ledger::snapshot::{check_balances, check_chain, check_dag, check_pool, dag_from_snapshot, dag_to_snapshot, pool_from_snapshot, pool_to_snapshot};

fn two_user_node(alice_balance: u64, bob_balance: u64) -> (UserPool, DAG) {
    let mut pool = UserPool::new();
    register_user(&mut pool, "alice", alice_balance).unwrap();
    register_user(&mut pool, "bob", bob_balance).unwrap();
    (pool, DAG::new())
}

fn balance_of(pool: &UserPool, name: &str) -> u64 {
    pool.get_user(name).unwrap().get_balance()
}

fn block_by_id<'a>(dag: &'a DAG, id: &str) -> &'a Block {
    dag.blocks.iter().find(|b| b.id == id).unwrap()
}

#[test]
fn single_transfer_happy_path() {
    let (mut pool, mut dag) = two_user_node(100, 0);
    let tx_id = propose_transaction(&mut pool, "TOKEN", "alice", "bob", 40).unwrap();
    confirm_transaction(&mut pool, &mut dag, "bob", &tx_id).unwrap();

    assert_eq!(balance_of(&pool, "alice"), 60);
    assert_eq!(balance_of(&pool, "bob"), 40);
    assert_eq!(dag.current_height, 2);
    assert_eq!(dag.blocks.len(), 2);
    assert!(dag.contains_block_id("1"));
    assert!(dag.contains_block_id("2"));
    let block = block_by_id(&dag, "2");
    assert_eq!(block.transactions.len(), 1);
    assert_eq!(block.transactions[0].id, tx_id);
    assert_eq!(dag.tips.len(), 1);
    assert_eq!(dag.tips[0], "2");
}

#[test]
fn batch_split_at_block_capacity() {
    let (mut pool, mut dag) = two_user_node(100, 0);
    let tuples: Vec<(String, String, String, u64)> = (0..6)
        .map(|_| {
            (
                String::from("TOKEN"),
                String::from("alice"),
                String::from("bob"),
                1,
            )
        })
        .collect();
    let outcomes = process_transactions(&mut pool, tuples);
    assert_eq!(outcomes.len(), 6);
    for outcome in &outcomes {
        let id = outcome.as_ref().unwrap().clone();
        confirm_transaction(&mut pool, &mut dag, "bob", &id).unwrap();
    }
    assert_eq!(dag.current_height, 7);
    for height in 2..=7u64 {
        let block = block_by_id(&dag, &height.to_string());
        assert_eq!(block.transactions.len(), 1);
    }
    let previous_tips = dag.tips.clone();
    assert_eq!(previous_tips, vec![String::from("7")]);

    // Commit six transfers in one batch straight through the ledger API.
    let mut batch = Vec::new();
    for n in 0..6u64 {
        let id = format!("batch-{}", n);
        let message = canonical_message(&id, "alice", "bob", 1, 1000 + n);
        let signature = pool
            .get_user("alice")
            .unwrap()
            .key_pair_wrapper
            .sign(&message)
            .unwrap();
        batch.push(BlockTransaction::new(
            id,
            String::from("alice"),
            String::from("bob"),
            1,
            signature,
            1000 + n,
        ));
    }
    dag.add_transactions(batch, &pool).unwrap();
    assert_eq!(dag.current_height, 8);
    let first = block_by_id(&dag, "8.1");
    let second = block_by_id(&dag, "8.2");
    assert_eq!(first.transactions.len(), 5);
    assert_eq!(second.transactions.len(), 1);
    assert_eq!(first.parent_ids, previous_tips);
    assert_eq!(second.parent_ids, previous_tips);
    assert_eq!(dag.tips, vec![String::from("8.1"), String::from("8.2")]);
}

#[test]
fn signature_tampering_drops_the_proposal() {
    let (mut pool, mut dag) = two_user_node(100, 0);
    let tx_id = propose_transaction(&mut pool, "TOKEN", "alice", "bob", 10).unwrap();
    let byte = pool.pending_transactions[0].signature[0];
    pool.pending_transactions[0].signature[0] = if byte == 0 { 1 } else { 0 };

    let outcome = confirm_transaction(&mut pool, &mut dag, "bob", &tx_id);
    assert_eq!(outcome, Err(LedgerError::BadSignature));
    assert_eq!(balance_of(&pool, "alice"), 100);
    assert_eq!(balance_of(&pool, "bob"), 0);
    // The known hazard: the dropped proposal is not restored.
    assert!(pending_transactions_for(&pool, "bob").is_empty());
    assert_eq!(
        confirm_transaction(&mut pool, &mut dag, "bob", &tx_id),
        Err(LedgerError::TxNotFound)
    );
}

#[test]
fn double_spend_guard() {
    let (mut pool, mut dag) = two_user_node(10, 0);
    let first = propose_transaction(&mut pool, "TOKEN", "alice", "bob", 8).unwrap();
    let second = propose_transaction(&mut pool, "TOKEN", "alice", "bob", 8).unwrap();
    assert_ne!(first, second);

    confirm_transaction(&mut pool, &mut dag, "bob", &first).unwrap();
    assert_eq!(balance_of(&pool, "alice"), 2);
    assert_eq!(balance_of(&pool, "bob"), 8);

    let outcome = confirm_transaction(&mut pool, &mut dag, "bob", &second);
    assert_eq!(outcome, Err(LedgerError::InsufficientBalance));
    assert_eq!(balance_of(&pool, "alice"), 2);
    assert_eq!(balance_of(&pool, "bob"), 8);
}

#[test]
fn reject_path() {
    let (mut pool, mut dag) = two_user_node(100, 0);
    let tx_id = propose_transaction(&mut pool, "TOKEN", "alice", "bob", 25).unwrap();
    reject_transaction(&mut pool, "bob", &tx_id).unwrap();

    assert_eq!(balance_of(&pool, "alice"), 100);
    assert_eq!(balance_of(&pool, "bob"), 0);
    assert!(dag.get_transaction(&tx_id).is_none());
    assert!(pending_transactions_for(&pool, "bob").is_empty());
}

#[test]
fn persistence_round_trip() {
    let (mut pool, mut dag) = two_user_node(100, 0);
    let tx_id = propose_transaction(&mut pool, "TOKEN", "alice", "bob", 40).unwrap();
    confirm_transaction(&mut pool, &mut dag, "bob", &tx_id).unwrap();

    let pool_snapshot = pool_to_snapshot(&pool);
    let dag_snapshot = dag_to_snapshot(&dag);
    let restored_pool = pool_from_snapshot(&pool_snapshot);
    let restored_dag = dag_from_snapshot(&dag_snapshot);

    assert_eq!(balance_of(&restored_pool, "alice"), 60);
    let record = restored_dag.get_transaction(&tx_id).unwrap();
    assert_eq!(record.sender, "alice");
    assert_eq!(record.receiver, "bob");
    assert_eq!(record.amount, 40);
    assert!(verify_transaction(&restored_pool, &restored_dag, &tx_id).is_ok());
    assert!(restored_pool
        .get_user("alice")
        .unwrap()
        .validate_local_dag(&restored_pool)
        .is_ok());
    assert_eq!(restored_dag.current_height, 2);
    assert_eq!(restored_dag.tips, vec![String::from("2")]);
}

#[test]
fn reloaded_user_cannot_sign() {
    let (mut pool, mut dag) = two_user_node(100, 0);
    let tx_id = propose_transaction(&mut pool, "TOKEN", "alice", "bob", 40).unwrap();
    confirm_transaction(&mut pool, &mut dag, "bob", &tx_id).unwrap();

    let mut restored_pool = pool_from_snapshot(&pool_to_snapshot(&pool));
    let outcome = propose_transaction(&mut restored_pool, "TOKEN", "alice", "bob", 1);
    assert_eq!(outcome, Err(LedgerError::SignError));
}

#[test]
fn unsupported_transaction_type_is_rejected() {
    let (mut pool, _dag) = two_user_node(100, 0);
    let outcome = propose_transaction(&mut pool, "COIN", "alice", "bob", 1);
    assert_eq!(outcome, Err(LedgerError::UnsupportedTxType));
}

#[test]
fn unknown_user_is_rejected() {
    let (mut pool, _dag) = two_user_node(100, 0);
    let outcome = propose_transaction(&mut pool, "TOKEN", "alice", "carol", 1);
    assert_eq!(outcome, Err(LedgerError::UnknownUser));
}

#[test]
fn duplicate_user_is_rejected() {
    let mut pool = UserPool::new();
    register_user(&mut pool, "alice", 100).unwrap();
    assert_eq!(
        register_user(&mut pool, "alice", 5),
        Err(LedgerError::UserExists)
    );
}

#[test]
fn confirm_unknown_transaction_fails() {
    let (mut pool, mut dag) = two_user_node(100, 0);
    assert_eq!(
        confirm_transaction(&mut pool, &mut dag, "bob", "no-such-id"),
        Err(LedgerError::TxNotFound)
    );
}

#[test]
fn confirm_by_wrong_user_keeps_the_proposal() {
    let (mut pool, mut dag) = two_user_node(100, 0);
    let tx_id = propose_transaction(&mut pool, "TOKEN", "alice", "bob", 10).unwrap();
    assert_eq!(
        confirm_transaction(&mut pool, &mut dag, "alice", &tx_id),
        Err(LedgerError::NotYours)
    );
    assert_eq!(pending_transactions_for(&pool, "bob").len(), 1);
    confirm_transaction(&mut pool, &mut dag, "bob", &tx_id).unwrap();
    assert_eq!(balance_of(&pool, "bob"), 10);
}

#[test]
fn receiver_overflow_is_rejected() {
    let (mut pool, mut dag) = two_user_node(10, u64::MAX);
    let tx_id = propose_transaction(&mut pool, "TOKEN", "alice", "bob", 1).unwrap();
    let outcome = confirm_transaction(&mut pool, &mut dag, "bob", &tx_id);
    assert_eq!(outcome, Err(LedgerError::BalanceOverflow));
    assert_eq!(balance_of(&pool, "alice"), 10);
    assert_eq!(balance_of(&pool, "bob"), u64::MAX);
}

#[test]
fn self_transfer_is_rejected_at_finalization() {
    let (mut pool, mut dag) = two_user_node(10, 0);
    let id = String::from("self-1");
    let message = canonical_message(&id, "alice", "alice", 1, 7);
    let signature = pool
        .get_user("alice")
        .unwrap()
        .key_pair_wrapper
        .sign(&message)
        .unwrap();
    let pending = PendingTransaction {
        id,
        sender: String::from("alice"),
        receiver: String::from("alice"),
        amount: 1,
        signature,
        timestamp: 7,
    };
    assert_eq!(
        finalize_transaction(&mut pool, &mut dag, pending),
        Err(LedgerError::DuplicateTransaction)
    );
    assert_eq!(balance_of(&pool, "alice"), 10);
}

#[test]
fn mismatched_records_are_detected() {
    let (mut pool, mut dag) = two_user_node(10, 0);
    // Forge a committed transfer whose two local records disagree.
    dag.blocks[0].transactions.push(BlockTransaction::new(
        String::from("forged"),
        String::from("alice"),
        String::from("bob"),
        5,
        vec![1, 2, 3],
        9,
    ));
    let alice = pool.get_user_mut("alice").unwrap();
    alice
        .local_dag
        .add_transaction(
            String::from("forged"),
            String::from("alice"),
            String::from("bob"),
            5,
            vec![1, 2, 3],
            9,
        )
        .unwrap();
    let bob = pool.get_user_mut("bob").unwrap();
    bob.local_dag
        .add_transaction(
            String::from("forged"),
            String::from("alice"),
            String::from("bob"),
            6,
            vec![1, 2, 3],
            9,
        )
        .unwrap();
    assert_eq!(
        verify_transaction(&pool, &dag, "forged"),
        Err(LedgerError::HashMismatch)
    );
}

#[test]
fn verified_transfer_cross_checks() {
    let (mut pool, mut dag) = two_user_node(100, 0);
    let tx_id = propose_transaction(&mut pool, "TOKEN", "alice", "bob", 40).unwrap();
    confirm_transaction(&mut pool, &mut dag, "bob", &tx_id).unwrap();
    assert!(verify_transaction(&pool, &dag, &tx_id).is_ok());
    assert_eq!(
        verify_transaction(&pool, &dag, "missing"),
        Err(LedgerError::TxNotFound)
    );
}

#[test]
fn validation_replays_the_history() {
    let (mut pool, mut dag) = two_user_node(100, 0);
    let tx_id = propose_transaction(&mut pool, "TOKEN", "alice", "bob", 40).unwrap();
    confirm_transaction(&mut pool, &mut dag, "bob", &tx_id).unwrap();
    assert!(pool
        .get_user("alice")
        .unwrap()
        .validate_local_dag(&pool)
        .is_ok());

    // Tampering with a recorded amount breaks the recorded signature.
    let alice = pool.get_user_mut("alice").unwrap();
    alice.local_dag.transactions[0].amount = 99;
    assert_eq!(
        pool.get_user("alice").unwrap().validate_local_dag(&pool),
        Err(LedgerError::BadSignature)
    );
}

#[test]
fn pending_view_filters_by_receiver() {
    let (mut pool, _dag) = two_user_node(100, 50);
    let to_bob = propose_transaction(&mut pool, "TOKEN", "alice", "bob", 1).unwrap();
    let to_alice = propose_transaction(&mut pool, "TOKEN", "bob", "alice", 2).unwrap();
    let for_bob = pending_transactions_for(&pool, "bob");
    assert_eq!(for_bob.len(), 1);
    assert_eq!(for_bob[0].id, to_bob);
    let for_alice = pending_transactions_for(&pool, "alice");
    assert_eq!(for_alice.len(), 1);
    assert_eq!(for_alice[0].id, to_alice);
}

#[test]
fn proposal_moves_no_balance() {
    let (mut pool, _dag) = two_user_node(100, 0);
    let _tx_id = propose_transaction(&mut pool, "TOKEN", "alice", "bob", 40).unwrap();
    assert_eq!(balance_of(&pool, "alice"), 100);
    assert_eq!(balance_of(&pool, "bob"), 0);
}

#[test]
fn local_chain_links_records_in_order() {
    let (mut pool, mut dag) = two_user_node(100, 0);
    let first = propose_transaction(&mut pool, "TOKEN", "alice", "bob", 1).unwrap();
    confirm_transaction(&mut pool, &mut dag, "bob", &first).unwrap();
    let second = propose_transaction(&mut pool, "TOKEN", "alice", "bob", 2).unwrap();
    confirm_transaction(&mut pool, &mut dag, "bob", &second).unwrap();

    let chain = &pool.get_user("alice").unwrap().local_dag;
    assert_eq!(chain.transactions.len(), 2);
    assert_eq!(chain.transactions[0].parent_id, None);
    assert_eq!(chain.transactions[0].child_ids, vec![second.clone()]);
    assert_eq!(chain.transactions[1].parent_id, Some(first.clone()));
    assert!(chain.transactions[1].child_ids.is_empty());
    assert_eq!(chain.latest_transaction_id, Some(second.clone()));

    // Both parties' records of one transfer hash identically.
    let bob_chain = &pool.get_user("bob").unwrap().local_dag;
    let alice_record = chain.get_transaction_by_id(&first).unwrap();
    let bob_record = bob_chain.get_transaction_by_id(&first).unwrap();
    assert_eq!(alice_record.compute_hash(), bob_record.compute_hash());
}

#[test]
fn commit_failure_changes_nothing() {
    let (mut pool, mut dag) = two_user_node(100, 0);
    let blocks_before = dag.blocks.len();
    let tips_before = dag.tips.clone();
    let height_before = dag.current_height;
    let batch = vec![BlockTransaction::new(
        String::from("bad"),
        String::from("carol"),
        String::from("bob"),
        1,
        vec![1],
        5,
    )];
    assert_eq!(
        dag.add_transactions(batch, &pool),
        Err(LedgerError::UnknownUser)
    );
    assert_eq!(dag.blocks.len(), blocks_before);
    assert_eq!(dag.tips, tips_before);
    assert_eq!(dag.current_height, height_before);
}

#[test]
fn chain_dump_lists_records() {
    let mut chain = dag_ledger::local_chain::LocalDAG::new();
    chain
        .add_transaction(
            String::from("x"),
            String::from("a"),
            String::from("b"),
            1,
            vec![1, 2],
            2,
        )
        .unwrap();
    assert_eq!(
        chain.get_dag_as_string(),
        "Transaction ID: x, Sender: a, Receiver: b, Amount: 1, Timestamp: 2, Signature: [1, 2], Parent: None, Children: []\n"
    );
    chain
        .add_transaction(
            String::from("y"),
            String::from("b"),
            String::from("a"),
            3,
            vec![],
            4,
        )
        .unwrap();
    let text = chain.get_dag_as_string();
    let first_line = "Transaction ID: x, Sender: a, Receiver: b, Amount: 1, Timestamp: 2, Signature: [1, 2], Parent: None, Children: [\"y\"]\n";
    let second_line = "  Transaction ID: y, Sender: b, Receiver: a, Amount: 3, Timestamp: 4, Signature: [], Parent: Some(\"x\"), Children: []\n";
    assert_eq!(text, format!("{}{}", first_line, second_line));
}

#[test]
fn duplicate_chain_append_is_refused() {
    let mut chain = dag_ledger::local_chain::LocalDAG::new();
    chain
        .add_transaction(
            String::from("x"),
            String::from("a"),
            String::from("b"),
            1,
            vec![],
            2,
        )
        .unwrap();
    assert_eq!(
        chain.add_transaction(
            String::from("x"),
            String::from("a"),
            String::from("b"),
            1,
            vec![],
            2,
        ),
        Err(LedgerError::DuplicateTransaction)
    );
    assert_eq!(chain.transactions.len(), 1);
}

#[test]
fn content_hash_matches_recomputation() {
    let record = Transaction::new(
        String::from("x"),
        String::from("a"),
        String::from("b"),
        3,
        None,
        vec![9],
        7,
    );
    let mut input: Vec<u8> = Vec::new();
    input.extend_from_slice("x".as_bytes());
    input.extend_from_slice("a".as_bytes());
    input.extend_from_slice("b".as_bytes());
    input.extend_from_slice(&3u64.to_le_bytes());
    input.extend_from_slice(&7u64.to_le_bytes());
    input.extend_from_slice(&[9]);
    let expected: Vec<u8> = <sha2::Sha256 as sha2::Digest>::digest(&input).to_vec();
    assert_eq!(record.compute_hash(), expected);
}

#[test]
fn structural_check_guards_reloaded_state() {
    let (mut pool, mut dag) = two_user_node(100, 0);
    let tx_id = propose_transaction(&mut pool, "TOKEN", "alice", "bob", 40).unwrap();
    confirm_transaction(&mut pool, &mut dag, "bob", &tx_id).unwrap();
    assert!(check_pool(&pool).is_ok());

    // A first record that claims a parent breaks the line.
    let mut broken = LocalDAG::new();
    broken.transactions.push(Transaction::new(
        String::from("x"),
        String::from("a"),
        String::from("b"),
        1,
        Some(String::from("ghost-parent")),
        vec![],
        2,
    ));
    broken.latest_transaction_id = Some(String::from("x"));
    assert_eq!(check_chain(&broken), Err(LedgerError::BrokenChain));

    // A pending table with a repeated id is refused too.
    let mut forged_pool = UserPool::new();
    for _ in 0..2 {
        forged_pool.pending_transactions.push(PendingTransaction {
            id: String::from("dup"),
            sender: String::from("a"),
            receiver: String::from("b"),
            amount: 1,
            signature: vec![],
            timestamp: 0,
        });
    }
    assert_eq!(check_pool(&forged_pool), Err(LedgerError::DuplicateTransaction));
}

#[test]
fn batch_judges_each_tuple_alone() {
    let (mut pool, _dag) = two_user_node(100, 0);
    let tuples: Vec<(String, String, String, u64)> = vec![
        (
            String::from("COIN"),
            String::from("alice"),
            String::from("bob"),
            1,
        ),
        (
            String::from("TOKEN"),
            String::from("alice"),
            String::from("carol"),
            1,
        ),
        (
            String::from("TOKEN"),
            String::from("alice"),
            String::from("bob"),
            1000,
        ),
        (
            String::from("TOKEN"),
            String::from("alice"),
            String::from("bob"),
            7,
        ),
    ];
    let outcomes = process_transactions(&mut pool, tuples);
    assert_eq!(outcomes[0], Err(LedgerError::UnsupportedTxType));
    assert_eq!(outcomes[1], Err(LedgerError::UnknownUser));
    assert_eq!(outcomes[2], Err(LedgerError::InsufficientBalance));
    let id = outcomes[3].as_ref().unwrap();
    let pending = pending_transactions_for(&pool, "bob");
    assert_eq!(pending.len(), 1);
    assert_eq!(&pending[0].id, id);
    assert_eq!(pending[0].amount, 7);
    assert_eq!(balance_of(&pool, "alice"), 100);
}

#[test]
fn dangling_parent_fails_validation() {
    let (mut pool, _dag) = two_user_node(100, 0);
    let id = String::from("stray");
    let message = canonical_message(&id, "alice", "bob", 1, 5);
    let signature = pool
        .get_user("alice")
        .unwrap()
        .key_pair_wrapper
        .sign(&message)
        .unwrap();
    let alice = pool.get_user_mut("alice").unwrap();
    alice.local_dag.transactions.push(Transaction::new(
        id.clone(),
        String::from("alice"),
        String::from("bob"),
        1,
        Some(String::from("ghost-parent")),
        signature,
        5,
    ));
    alice.local_dag.latest_transaction_id = Some(id);
    let outcome = pool
        .get_user("alice")
        .unwrap()
        .local_dag
        .validate_transactions("alice", &[], &pool);
    assert_eq!(outcome, Err(LedgerError::BrokenChain));
}

#[test]
fn reloaded_state_passes_every_gate() {
    let (mut pool, mut dag) = two_user_node(100, 0);
    let tx_id = propose_transaction(&mut pool, "TOKEN", "alice", "bob", 40).unwrap();
    confirm_transaction(&mut pool, &mut dag, "bob", &tx_id).unwrap();

    let restored_pool = pool_from_snapshot(&pool_to_snapshot(&pool));
    let restored_dag = dag_from_snapshot(&dag_to_snapshot(&dag));
    assert!(check_pool(&restored_pool).is_ok());
    assert!(check_balances(&restored_pool));
    assert!(check_dag(&restored_dag).is_ok());

    // A ledger whose tips disagree with its blocks is refused.
    let mut forged_dag = dag_from_snapshot(&dag_to_snapshot(&dag));
    forged_dag.tips.push(String::from("1"));
    assert_eq!(check_dag(&forged_dag), Err(LedgerError::BrokenChain));

    // A wallet that disagrees with its history is refused.
    let mut forged_pool = pool_from_snapshot(&pool_to_snapshot(&pool));
    forged_pool.users[0].wallet.balance = 1;
    assert!(!check_balances(&forged_pool));
}
