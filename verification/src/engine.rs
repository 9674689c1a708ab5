use vstd::prelude::*;
use crate::errors::LedgerError;
use crate::crypto::sig_valid;
use crate::crypto::signature_of;
use crate::crypto::pkcs8_parses;
use crate::crypto::canonical_msg;
use crate::crypto::canonical_message;
use crate::crypto::KeyPairWrapper;
use crate::pool::User;
use crate::pool::UserPool;
use crate::pool::PendingTransaction;
use crate::dag::DAG;
use crate::dag::BlockTransaction;
use crate::dag::spec_committed;
use crate::numfmt::dec_chars;
use crate::numfmt::u64_to_string;
use crate::strutil::str_eq;
use crate::strutil::bytes_eq;
use crate::strutil::clone_bytes;
use crate::clock::now_seconds;

verus! {

/// Relies on uuid's `Uuid::new_v4` and its hyphenated rendering: a
/// fresh random identifier, 36 characters long. Randomness decides the
/// value, so nothing more is promised of it.
#[verifier::external_body]
pub(crate) fn fresh_uuid() -> (r: String)
    ensures
        r@.len() == 36,
{
    uuid::Uuid::new_v4().to_string()
}

/// Registers a new user with a fresh key pair and an opening balance.
pub fn register_user(pool: &mut UserPool, name: &str, initial_balance: u64) -> (r: Result<
    (),
    LedgerError,
>)
    requires
        old(pool).wf(),
        old(pool).balanced(),
    ensures
        r == Err::<(), LedgerError>(LedgerError::UserExists) <==> old(pool).spec_has_user(name@),
        r is Err ==> *final(pool) == *old(pool) && (r->Err_0 == LedgerError::UserExists || r->Err_0
            == LedgerError::CryptoInitError),
        r is Ok ==> {
            let user = final(pool).users@.last();
            &&& final(pool).users@.len() == old(pool).users@.len() + 1
            &&& forall|i: int|
                0 <= i < old(pool).users@.len() ==> #[trigger] final(pool).users@[i] == old(
                    pool,
                ).users@[i]
            &&& final(pool).pending_transactions == old(pool).pending_transactions
            &&& user.name@ == name@
            &&& user.wallet.balance == initial_balance
            &&& user.initial_balance == initial_balance
            &&& user.local_dag.transactions@.len() == 0
            &&& pkcs8_parses(user.key_pair_wrapper.pkcs8_bytes@)
            &&& user.public_key@ == crate::crypto::public_key_of(user.key_pair_wrapper.pkcs8_bytes@)
            &&& final(pool).wf()
            &&& final(pool).balanced()
            &&& final(pool).spec_has_user(name@)
        },
{
    if pool.user_exists(name) {
        return Err(LedgerError::UserExists);
    }
    let user = match User::new(String::from_str(name), initial_balance) {
        Ok(user) => user,
        Err(e) => {
            return Err(e);
        },
    };
    pool.add_user(user);
    proof {
        assert(final(pool).users@.last().name@ == name@);
        assert forall|i: int| 0 <= i < final(pool).users@.len() implies (
            #[trigger] final(pool).users@[i]).balanced() by {
            if i < old(pool).users@.len() {
                assert(final(pool).users@[i] == old(pool).users@[i]);
            }
        }
    }
    Ok(())
}

/// Everything the proposal step checks, in the order it checks it:
/// only TOKEN transfers are supported, both parties must be
/// registered, the sender's balance must cover the amount (an advisory
/// check only; finalization decides), and the sender's stored key
/// material must parse so the proposal can be signed.
pub open spec fn spec_propose_check(
    pool: UserPool,
    tx_type: Seq<char>,
    sender: Seq<char>,
    receiver: Seq<char>,
    amount: u64,
) -> Result<(), LedgerError> {
    if tx_type != "TOKEN"@ {
        Err(LedgerError::UnsupportedTxType)
    } else if !(pool.spec_has_user(sender) && pool.spec_has_user(receiver)) {
        Err(LedgerError::UnknownUser)
    } else if pool.spec_user(sender).wallet.balance < amount {
        Err(LedgerError::InsufficientBalance)
    } else if !pkcs8_parses(pool.spec_user(sender).key_pair_wrapper.pkcs8_bytes@) {
        Err(LedgerError::SignError)
    } else {
        Ok(())
    }
}

/// Pools with the same registry agree on user lookups.
proof fn lemma_same_users_views(pool_a: UserPool, pool_b: UserPool, name: Seq<char>)
    requires
        pool_a.users == pool_b.users,
    ensures
        pool_a.spec_has_user(name) == pool_b.spec_has_user(name),
        pool_a.spec_has_user(name) ==> pool_a.spec_user(name) == pool_b.spec_user(name),
{
    assert(pool_a.users@ == pool_b.users@);
    assert(pool_a.spec_user_index(name) == pool_b.spec_user_index(name));
}

/// Pools with the same registry judge a proposal alike.
proof fn lemma_propose_check_same_users(
    pool_a: UserPool,
    pool_b: UserPool,
    tx_type: Seq<char>,
    sender: Seq<char>,
    receiver: Seq<char>,
    amount: u64,
)
    requires
        pool_a.users == pool_b.users,
    ensures
        spec_propose_check(pool_a, tx_type, sender, receiver, amount) == spec_propose_check(
            pool_b,
            tx_type,
            sender,
            receiver,
            amount,
        ),
{
    lemma_same_users_views(pool_a, pool_b, sender);
    lemma_same_users_views(pool_a, pool_b, receiver);
}

/// Whether the pending table of `pool` records, under `id`, exactly
/// the proposal of the given tuple, signed with the sender's key as
/// `base` stores it.
pub open spec fn spec_tuple_recorded(
    pool: UserPool,
    base: UserPool,
    data: (String, String, String, u64),
    id: Seq<char>,
) -> bool {
    let pending = pool.spec_pending(id);
    &&& pending.id@ == id
    &&& pending.sender@ == data.1@
    &&& pending.receiver@ == data.2@
    &&& pending.amount == data.3
    &&& pending.signature@ == signature_of(
        base.spec_user(data.1@).key_pair_wrapper.pkcs8_bytes@,
        canonical_msg(id, data.1@, data.2@, data.3, pending.timestamp),
    )
}

/// What one batch entry's outcome means, judged against the registry
/// of `base` (the batch does not change it): the outcome is exactly
/// what the proposal checks say; a succeeded entry's id is pending in
/// `post`; and where no later entry of the batch succeeded under the
/// same id, the pending record under it is that entry's proposal.
pub open spec fn spec_batch_entry_ok(
    base: UserPool,
    post: UserPool,
    data: Seq<(String, String, String, u64)>,
    results: Seq<Result<String, LedgerError>>,
    j: int,
) -> bool {
    &&& (results[j] is Ok <==> spec_propose_check(
        base,
        data[j].0@,
        data[j].1@,
        data[j].2@,
        data[j].3,
    ) is Ok)
    &&& (results[j] is Err ==> results[j]->Err_0 == spec_propose_check(
        base,
        data[j].0@,
        data[j].1@,
        data[j].2@,
        data[j].3,
    )->Err_0)
    &&& (results[j] is Ok ==> post.spec_has_pending(results[j]->Ok_0@))
    &&& (results[j] is Ok && (forall|later: int|
        j < later < results.len() && (#[trigger] results[later]) is Ok ==> results[later]->Ok_0@
            != results[j]->Ok_0@) ==> spec_tuple_recorded(post, base, data[j], results[j]->Ok_0@))
}

/// Proposes one transfer with a caller-supplied id and timestamp: the
/// deterministic core of the proposal step. The sender signs the
/// canonical message; on success the signed proposal sits in the
/// pending table and no balance has moved.
pub fn propose_transaction_with(
    pool: &mut UserPool,
    tx_type: &str,
    sender: &str,
    receiver: &str,
    amount: u64,
    transaction_id: String,
    timestamp: u64,
) -> (r: Result<(), LedgerError>)
    requires
        old(pool).wf(),
    ensures
        r is Err ==> *final(pool) == *old(pool),
        r == Err::<(), LedgerError>(LedgerError::UnsupportedTxType) <==> tx_type@ != "TOKEN"@,
        r == Err::<(), LedgerError>(LedgerError::UnknownUser) <==> tx_type@ == "TOKEN"@ && !(old(
            pool,
        ).spec_has_user(sender@) && old(pool).spec_has_user(receiver@)),
        r == Err::<(), LedgerError>(LedgerError::InsufficientBalance) <==> tx_type@ == "TOKEN"@
            && old(pool).spec_has_user(sender@) && old(pool).spec_has_user(receiver@) && old(
            pool,
        ).spec_user(sender@).wallet.balance < amount,
        r == Err::<(), LedgerError>(LedgerError::SignError) <==> tx_type@ == "TOKEN"@ && old(
            pool,
        ).spec_has_user(sender@) && old(pool).spec_has_user(receiver@) && old(pool).spec_user(
            sender@,
        ).wallet.balance >= amount && !pkcs8_parses(
            old(pool).spec_user(sender@).key_pair_wrapper.pkcs8_bytes@,
        ),
        r is Ok <==> tx_type@ == "TOKEN"@ && old(pool).spec_has_user(sender@) && old(
            pool,
        ).spec_has_user(receiver@) && old(pool).spec_user(sender@).wallet.balance >= amount
            && pkcs8_parses(old(pool).spec_user(sender@).key_pair_wrapper.pkcs8_bytes@),
        r.is_err() == spec_propose_check(*old(pool), tx_type@, sender@, receiver@, amount).is_err(),
        r is Err ==> r->Err_0 == spec_propose_check(
            *old(pool),
            tx_type@,
            sender@,
            receiver@,
            amount,
        )->Err_0,
        r is Ok ==> {
            let pending = final(pool).spec_pending(transaction_id@);
            &&& final(pool).users == old(pool).users
            &&& final(pool).wf()
            &&& final(pool).spec_has_pending(transaction_id@)
            &&& pending.id@ == transaction_id@
            &&& pending.sender@ == sender@
            &&& pending.receiver@ == receiver@
            &&& pending.amount == amount
            &&& pending.timestamp == timestamp
            &&& pending.signature@ == signature_of(
                old(pool).spec_user(sender@).key_pair_wrapper.pkcs8_bytes@,
                canonical_msg(transaction_id@, sender@, receiver@, amount, timestamp),
            )
            &&& sig_valid(
                old(pool).spec_user(sender@).public_key@,
                canonical_msg(transaction_id@, sender@, receiver@, amount, timestamp),
                pending.signature@,
            ) || old(pool).spec_user(sender@).public_key@ != crate::crypto::public_key_of(
                old(pool).spec_user(sender@).key_pair_wrapper.pkcs8_bytes@,
            )
            &&& forall|other: Seq<char>|
                #[trigger] old(pool).spec_has_pending(other) ==> final(pool).spec_has_pending(
                    other,
                )
            &&& forall|other: Seq<char>|
                #[trigger] old(pool).spec_has_pending(other) && other != transaction_id@
                    ==> final(pool).spec_pending(other) == old(pool).spec_pending(other)
        },
{
    if !str_eq(tx_type, "TOKEN") {
        return Err(LedgerError::UnsupportedTxType);
    }
    if !pool.user_exists(sender) || !pool.user_exists(receiver) {
        return Err(LedgerError::UnknownUser);
    }
    let message = canonical_message(transaction_id.as_str(), sender, receiver, amount, timestamp);
    let signature = {
        let user = match pool.get_user(sender) {
            Some(user) => user,
            None => {
                proof {
                    assert(false);
                }
                return Err(LedgerError::UnknownUser);
            },
        };
        if user.wallet.balance < amount {
            return Err(LedgerError::InsufficientBalance);
        }
        match user.key_pair_wrapper.sign(message.as_str()) {
            Ok(signature) => signature,
            Err(_) => {
                return Err(LedgerError::SignError);
            },
        }
    };
    let pending_tx = PendingTransaction {
        id: transaction_id,
        sender: String::from_str(sender),
        receiver: String::from_str(receiver),
        amount,
        signature,
        timestamp,
    };
    pool.add_pending(pending_tx);
    proof {
        let id_view = final(pool).spec_pending_index(pending_tx.id@);
        assert(final(pool).spec_pending(pending_tx.id@).id@ == pending_tx.id@);
    }
    Ok(())
}

/// Proposes one transfer: assigns a fresh id and the current time,
/// signs the canonical message with the sender's key, and records the
/// proposal as pending. Balances do not move at proposal time.
pub fn propose_transaction(
    pool: &mut UserPool,
    tx_type: &str,
    sender: &str,
    receiver: &str,
    amount: u64,
) -> (r: Result<String, LedgerError>)
    requires
        old(pool).wf(),
    ensures
        r is Err ==> *final(pool) == *old(pool),
        r.is_err() == spec_propose_check(*old(pool), tx_type@, sender@, receiver@, amount).is_err(),
        r is Err ==> r->Err_0 == spec_propose_check(
            *old(pool),
            tx_type@,
            sender@,
            receiver@,
            amount,
        )->Err_0,
        r is Ok <==> tx_type@ == "TOKEN"@ && old(pool).spec_has_user(sender@) && old(
            pool,
        ).spec_has_user(receiver@) && old(pool).spec_user(sender@).wallet.balance >= amount
            && pkcs8_parses(old(pool).spec_user(sender@).key_pair_wrapper.pkcs8_bytes@),
        r is Ok ==> {
            let pending = final(pool).spec_pending(r->Ok_0@);
            &&& final(pool).users == old(pool).users
            &&& final(pool).wf()
            &&& final(pool).spec_has_pending(r->Ok_0@)
            &&& pending.id@ == r->Ok_0@
            &&& pending.sender@ == sender@
            &&& pending.receiver@ == receiver@
            &&& pending.amount == amount
            &&& pending.signature@ == signature_of(
                old(pool).spec_user(sender@).key_pair_wrapper.pkcs8_bytes@,
                canonical_msg(pending.id@, sender@, receiver@, amount, pending.timestamp),
            )
            &&& forall|other: Seq<char>|
                #[trigger] old(pool).spec_has_pending(other) ==> final(pool).spec_has_pending(
                    other,
                )
            &&& forall|other: Seq<char>|
                #[trigger] old(pool).spec_has_pending(other) && other != r->Ok_0@
                    ==> final(pool).spec_pending(other) == old(pool).spec_pending(other)
        },
{
    let transaction_id = fresh_uuid();
    let timestamp = now_seconds();
    match propose_transaction_with(
        pool,
        tx_type,
        sender,
        receiver,
        amount,
        transaction_id.clone(),
        timestamp,
    ) {
        Ok(()) => Ok(transaction_id),
        Err(e) => Err(e),
    }
}

/// Proposes a whole batch in order, one outcome per tuple: the type,
/// the two parties, and the amount. Each tuple is judged on its own —
/// a failing tuple changes nothing and does not stop the ones after
/// it — and no tuple moves a balance. A succeeded tuple's proposal
/// sits in the pending table under the returned id; where a later
/// tuple draws the same id, the later proposal stands.
#[verifier::rlimit(100)]
pub fn process_transactions(
    pool: &mut UserPool,
    transactions_data: Vec<(String, String, String, u64)>,
) -> (r: Vec<Result<String, LedgerError>>)
    requires
        old(pool).wf(),
    ensures
        r@.len() == transactions_data@.len(),
        final(pool).wf(),
        final(pool).users == old(pool).users,
        forall|other: Seq<char>|
            #[trigger] old(pool).spec_has_pending(other) ==> final(pool).spec_has_pending(other),
        forall|k: int|
            0 <= k < r@.len() ==> #[trigger] spec_batch_entry_ok(
                *old(pool),
                *final(pool),
                transactions_data@,
                r@,
                k,
            ),
{
    let mut results: Vec<Result<String, LedgerError>> = Vec::new();
    let mut k: usize = 0;
    while k < transactions_data.len()
        invariant
            k <= transactions_data@.len(),
            results@.len() == k,
            pool.wf(),
            pool.users == old(pool).users,
            forall|other: Seq<char>|
                #[trigger] old(pool).spec_has_pending(other) ==> pool.spec_has_pending(other),
            forall|j: int|
                0 <= j < k ==> #[trigger] spec_batch_entry_ok(
                    *old(pool),
                    *pool,
                    transactions_data@,
                    results@,
                    j,
                ),
        decreases transactions_data@.len() - k,
    {
        let ghost pool_before = *pool;
        let ghost results_before = results@;
        let entry = &transactions_data[k];
        let outcome = propose_transaction(
            pool,
            entry.0.as_str(),
            entry.1.as_str(),
            entry.2.as_str(),
            entry.3,
        );
        proof {
            lemma_propose_check_same_users(
                pool_before,
                *old(pool),
                entry.0@,
                entry.1@,
                entry.2@,
                entry.3,
            );
            if outcome is Ok {
                lemma_same_users_views(pool_before, *old(pool), entry.1@);
            }
        }
        results.push(outcome);
        k = k + 1;
        proof {
            assert forall|j: int|
                0 <= j < k implies #[trigger] spec_batch_entry_ok(
                *old(pool),
                *pool,
                transactions_data@,
                results@,
                j,
            ) by {
                if j == k - 1 {
                    assert(spec_batch_entry_ok(
                        *old(pool),
                        *pool,
                        transactions_data@,
                        results@,
                        j,
                    ));
                } else {
                    assert(spec_batch_entry_ok(
                        *old(pool),
                        pool_before,
                        transactions_data@,
                        results_before,
                        j,
                    ));
                    assert(results@[j] == results_before[j]);
                    if results@[j] is Ok {
                        let id = results@[j]->Ok_0@;
                        if forall|later: int|
                            j < later < results@.len() && (#[trigger] results@[later]) is Ok
                                ==> results@[later]->Ok_0@ != id {
                            assert forall|later: int|
                                j < later < results_before.len() && (
                                #[trigger] results_before[later]) is Ok
                                    implies results_before[later]->Ok_0@ != id by {
                                assert(results@[later] == results_before[later]);
                            }
                            assert(spec_tuple_recorded(
                                pool_before,
                                *old(pool),
                                transactions_data@[j],
                                id,
                            ));
                            if outcome is Ok {
                                assert(results@[k - 1]->Ok_0@ != id);
                                assert(pool.spec_pending(id) == pool_before.spec_pending(id));
                            } else {
                                assert(*pool == pool_before);
                            }
                            assert(spec_tuple_recorded(*pool, *old(pool), transactions_data@[j], id));
                        }
                    }
                }
            }
        }
    }
    results
}

/// Everything the finalization step checks, in the order it checks it:
/// the sender must be known, the signature must verify under their
/// current key, the receiver must be known and different from the
/// sender, the sender's balance must cover the amount, the receiver's
/// wallet must be able to hold it, the id must be new to both
/// histories, and the next block id must be free.
pub open spec fn spec_finalize_check(pool: UserPool, dag: DAG, tx: PendingTransaction) -> Result<
    (),
    LedgerError,
> {
    if !pool.spec_has_user(tx.sender@) {
        Err(LedgerError::UnknownUser)
    } else if !sig_valid(
        pool.spec_user(tx.sender@).public_key@,
        canonical_msg(tx.id@, tx.sender@, tx.receiver@, tx.amount, tx.timestamp),
        tx.signature@,
    ) {
        Err(LedgerError::BadSignature)
    } else if !pool.spec_has_user(tx.receiver@) {
        Err(LedgerError::UnknownUser)
    } else if pool.spec_user(tx.sender@).wallet.balance < tx.amount {
        Err(LedgerError::InsufficientBalance)
    } else if tx.sender@ == tx.receiver@ {
        Err(LedgerError::DuplicateTransaction)
    } else if pool.spec_user(tx.receiver@).wallet.balance + tx.amount > u64::MAX {
        Err(LedgerError::BalanceOverflow)
    } else if pool.spec_user(tx.sender@).local_dag.spec_contains_id(tx.id@) || pool.spec_user(
        tx.receiver@,
    ).local_dag.spec_contains_id(tx.id@) {
        Err(LedgerError::DuplicateTransaction)
    } else if dag.spec_has_block(dec_chars((dag.current_height + 1) as nat)) {
        Err(LedgerError::DuplicateTransaction)
    } else {
        Ok(())
    }
}

/// What a successful finalization leaves behind: the sender debited,
/// the receiver credited, the same record at the head of both
/// histories with one content hash, the pending table untouched, and
/// the transfer committed to the ledger in a fresh block at the next
/// height.
pub open spec fn spec_finalized(
    pre_pool: UserPool,
    post_pool: UserPool,
    pre_dag: DAG,
    post_dag: DAG,
    tx: PendingTransaction,
) -> bool {
    &&& spec_confirmed(pre_pool, post_pool, pre_dag, post_dag, tx)
    &&& post_pool.pending_transactions == pre_pool.pending_transactions
}

/// The balance, history and ledger effects of a finalized transfer,
/// leaving open what happened to the pending table.
pub open spec fn spec_confirmed(
    pre_pool: UserPool,
    post_pool: UserPool,
    pre_dag: DAG,
    post_dag: DAG,
    tx: PendingTransaction,
) -> bool {
    let sender_chain = post_pool.spec_user(tx.sender@).local_dag.transactions@;
    let receiver_chain = post_pool.spec_user(tx.receiver@).local_dag.transactions@;
    &&& post_pool.wf()
    &&& post_pool.balanced()
    &&& post_pool.spec_user(tx.sender@).wallet.balance == pre_pool.spec_user(
        tx.sender@,
    ).wallet.balance - tx.amount
    &&& post_pool.spec_user(tx.receiver@).wallet.balance == pre_pool.spec_user(
        tx.receiver@,
    ).wallet.balance + tx.amount
    &&& sender_chain.last().id@ == tx.id@
    &&& receiver_chain.last().id@ == tx.id@
    &&& sender_chain.last().spec_content_hash() == receiver_chain.last().spec_content_hash()
    &&& post_pool.spec_user(tx.sender@).local_dag.spec_contains_id(tx.id@)
    &&& post_pool.spec_user(tx.receiver@).local_dag.spec_contains_id(tx.id@)
    &&& post_dag.wf()
    &&& post_dag.current_height == pre_dag.current_height + 1
    &&& post_dag.blocks@.len() == pre_dag.blocks@.len() + 1
    &&& post_dag.blocks@.last().id@ == dec_chars(post_dag.current_height as nat)
    &&& post_dag.blocks@.last().transactions@.len() == 1
    &&& post_dag.blocks@.last().transactions@[0].id@ == tx.id@
    &&& post_dag.blocks@.last().transactions@[0].sender@ == tx.sender@
    &&& post_dag.blocks@.last().transactions@[0].receiver@ == tx.receiver@
    &&& post_dag.blocks@.last().transactions@[0].amount == tx.amount
    &&& post_dag.blocks@.last().transactions@[0].signature@ == tx.signature@
    &&& post_dag.blocks@.last().transactions@[0].timestamp == tx.timestamp
    &&& post_dag.blocks@.last().parent_ids@.len() == pre_dag.tips@.len()
    &&& forall|p: int|
        0 <= p < pre_dag.tips@.len() ==> (#[trigger] post_dag.blocks@.last().parent_ids@[p])@
            == pre_dag.tips@[p]@
    &&& post_dag.tips@.len() == 1
    &&& post_dag.tips@[0]@ == dec_chars(post_dag.current_height as nat)
    &&& post_dag.spec_has_tx(tx.id@)
    &&& forall|i: int|
        #![trigger post_dag.blocks@[i]]
        0 <= i < pre_dag.blocks@.len() ==> {
            let old_block = pre_dag.blocks@[i];
            let new_block = post_dag.blocks@[i];
            &&& new_block.id == old_block.id
            &&& new_block.transactions == old_block.transactions
            &&& new_block.parent_ids == old_block.parent_ids
            &&& (old_block.child_ids@.len() > 0 ==> new_block.child_ids == old_block.child_ids)
            &&& (old_block.child_ids@.len() == 0 ==> new_block.child_ids@.len() == 1
                && new_block.child_ids@[0]@ == dec_chars(post_dag.current_height as nat))
        }
    &&& post_pool.users@.len() == pre_pool.users@.len()
    &&& forall|i: int|
        #![trigger post_pool.users@[i]]
        0 <= i < pre_pool.users@.len() ==> post_pool.users@[i].name == pre_pool.users@[i].name
            && post_pool.users@[i].public_key == pre_pool.users@[i].public_key
            && post_pool.users@[i].key_pair_wrapper == pre_pool.users@[i].key_pair_wrapper
            && post_pool.users@[i].initial_balance == pre_pool.users@[i].initial_balance
    &&& forall|i: int|
        #![trigger post_pool.users@[i]]
        0 <= i < pre_pool.users@.len() && pre_pool.users@[i].name@ != tx.sender@
            && pre_pool.users@[i].name@ != tx.receiver@ ==> post_pool.users@[i]
            == pre_pool.users@[i]
}

/// Runs every finalization check without changing anything.
fn finalize_checks(pool: &UserPool, dag: &DAG, pending_tx: &PendingTransaction) -> (r: Result<
    (),
    LedgerError,
>)
    requires
        pool.wf(),
        dag.current_height < u64::MAX,
    ensures
        r == spec_finalize_check(*pool, *dag, *pending_tx),
{
    let sender_public_key = match pool.get_user_public_key(pending_tx.sender.as_str()) {
        Some(key) => key,
        None => {
            return Err(LedgerError::UnknownUser);
        },
    };
    let message = canonical_message(
        pending_tx.id.as_str(),
        pending_tx.sender.as_str(),
        pending_tx.receiver.as_str(),
        pending_tx.amount,
        pending_tx.timestamp,
    );
    match KeyPairWrapper::verify(&sender_public_key, message.as_str(), &pending_tx.signature) {
        Ok(()) => {},
        Err(_) => {
            return Err(LedgerError::BadSignature);
        },
    }
    if !pool.user_exists(pending_tx.receiver.as_str()) {
        return Err(LedgerError::UnknownUser);
    }
    let sender_balance = match pool.get_user(pending_tx.sender.as_str()) {
        Some(user) => user.wallet.balance,
        None => {
            proof {
                assert(false);
            }
            return Err(LedgerError::UnknownUser);
        },
    };
    if sender_balance < pending_tx.amount {
        return Err(LedgerError::InsufficientBalance);
    }
    if str_eq(pending_tx.sender.as_str(), pending_tx.receiver.as_str()) {
        return Err(LedgerError::DuplicateTransaction);
    }
    let receiver_balance = match pool.get_user(pending_tx.receiver.as_str()) {
        Some(user) => user.wallet.balance,
        None => {
            proof {
                assert(false);
            }
            return Err(LedgerError::UnknownUser);
        },
    };
    match receiver_balance.checked_add(pending_tx.amount) {
        Some(_) => {},
        None => {
            return Err(LedgerError::BalanceOverflow);
        },
    }
    let sender_has_id = {
        let user = match pool.get_user(pending_tx.sender.as_str()) {
            Some(user) => user,
            None => {
                proof {
                    assert(false);
                }
                return Err(LedgerError::UnknownUser);
            },
        };
        user.local_dag.contains_id(pending_tx.id.as_str())
    };
    let receiver_has_id = {
        let user = match pool.get_user(pending_tx.receiver.as_str()) {
            Some(user) => user,
            None => {
                proof {
                    assert(false);
                }
                return Err(LedgerError::UnknownUser);
            },
        };
        user.local_dag.contains_id(pending_tx.id.as_str())
    };
    if sender_has_id || receiver_has_id {
        return Err(LedgerError::DuplicateTransaction);
    }
    let next_block_id = u64_to_string(dag.current_height + 1);
    if dag.contains_block_id(next_block_id.as_str()) {
        return Err(LedgerError::DuplicateTransaction);
    }
    Ok(())
}

/// Commits one transfer to the ledger in a block of its own.
#[verifier::rlimit(100)]
fn commit_single(dag: &mut DAG, batch: Vec<BlockTransaction>, pool: &UserPool)
    requires
        pool.wf(),
        old(dag).wf(),
        old(dag).current_height < u64::MAX,
        batch@.len() == 1,
        batch@[0].committable(*pool),
        !old(dag).spec_has_block(dec_chars((old(dag).current_height + 1) as nat)),
    ensures
        final(dag).wf(),
        final(dag).current_height == old(dag).current_height + 1,
        final(dag).blocks@.len() == old(dag).blocks@.len() + 1,
        final(dag).blocks@.last().transactions@.len() == 1,
        crate::dag::same_block_tx(final(dag).blocks@.last().transactions@[0], batch@[0]),
        final(dag).blocks@.last().id@ == dec_chars(final(dag).current_height as nat),
        final(dag).blocks@.last().parent_ids@.len() == old(dag).tips@.len(),
        forall|p: int|
            0 <= p < old(dag).tips@.len() ==> (
            #[trigger] final(dag).blocks@.last().parent_ids@[p])@ == old(dag).tips@[p]@,
        final(dag).tips@.len() == 1,
        final(dag).tips@[0]@ == dec_chars(final(dag).current_height as nat),
        final(dag).spec_has_tx(batch@[0].id@),
        forall|i: int|
            #![trigger final(dag).blocks@[i]]
            0 <= i < old(dag).blocks@.len() ==> {
                let old_block = old(dag).blocks@[i];
                let new_block = final(dag).blocks@[i];
                &&& new_block.id == old_block.id
                &&& new_block.transactions == old_block.transactions
                &&& new_block.parent_ids == old_block.parent_ids
                &&& (old_block.child_ids@.len() > 0 ==> new_block.child_ids == old_block.child_ids)
                &&& (old_block.child_ids@.len() == 0 ==> new_block.child_ids@.len() == 1
                    && new_block.child_ids@[0]@ == dec_chars(final(dag).current_height as nat))
            },
{
    let ghost batch_view = batch@;
    proof {
        crate::dag::lemma_single_batch_commits(batch_view, *pool, *dag);
    }
    let commit_result = dag.add_transactions(batch, pool);
    proof {
        if commit_result is Err {
            assert(false);
        }
        crate::dag::lemma_single_committed(*old(dag), *dag, batch_view);
    }
}

/// Applies a transfer that has passed every finalization check.
#[verifier::rlimit(100)]
fn do_finalize(pool: &mut UserPool, dag: &mut DAG, pending_tx: PendingTransaction)
    requires
        old(pool).wf(),
        old(pool).balanced(),
        old(dag).wf(),
        old(dag).current_height < u64::MAX,
        old(pool).spec_has_user(pending_tx.sender@),
        sig_valid(
            old(pool).spec_user(pending_tx.sender@).public_key@,
            canonical_msg(
                pending_tx.id@,
                pending_tx.sender@,
                pending_tx.receiver@,
                pending_tx.amount,
                pending_tx.timestamp,
            ),
            pending_tx.signature@,
        ),
        old(pool).spec_has_user(pending_tx.receiver@),
        old(pool).spec_user(pending_tx.sender@).wallet.balance >= pending_tx.amount,
        pending_tx.sender@ != pending_tx.receiver@,
        old(pool).spec_user(pending_tx.receiver@).wallet.balance + pending_tx.amount <= u64::MAX,
        !old(pool).spec_user(pending_tx.sender@).local_dag.spec_contains_id(pending_tx.id@),
        !old(pool).spec_user(pending_tx.receiver@).local_dag.spec_contains_id(pending_tx.id@),
        !old(dag).spec_has_block(dec_chars((old(dag).current_height + 1) as nat)),
    ensures
        spec_finalized(*old(pool), *final(pool), *old(dag), *final(dag), pending_tx),
{
    pool.apply_transfer(
        pending_tx.id.as_str(),
        pending_tx.sender.as_str(),
        pending_tx.receiver.as_str(),
        pending_tx.amount,
        &pending_tx.signature,
        pending_tx.timestamp,
    );
    let block_tx = BlockTransaction::new(
        pending_tx.id.clone(),
        pending_tx.sender.clone(),
        pending_tx.receiver.clone(),
        pending_tx.amount,
        clone_bytes(&pending_tx.signature),
        pending_tx.timestamp,
    );
    let mut batch: Vec<BlockTransaction> = Vec::new();
    batch.push(block_tx);
    proof {
        let sender_view = pending_tx.sender@;
        assert(pool.spec_has_user(sender_view));
        assert(pool.spec_user(sender_view).public_key == old(pool).spec_user(
            sender_view,
        ).public_key);
        assert(batch@[0].committable(*pool));
    }
    commit_single(dag, batch, pool);
    proof {
        let sender_index = old(pool).spec_user_index(pending_tx.sender@);
        let receiver_index = old(pool).spec_user_index(pending_tx.receiver@);
        assert(old(pool).users@[sender_index].name@ == pending_tx.sender@);
        assert(old(pool).users@[receiver_index].name@ == pending_tx.receiver@);
        assert forall|i: int|
            #![trigger pool.users@[i]]
            0 <= i < old(pool).users@.len() && old(pool).users@[i].name@ != pending_tx.sender@
                && old(pool).users@[i].name@ != pending_tx.receiver@ implies pool.users@[i] == old(
            pool,
        ).users@[i] by {
            assert(i != sender_index && i != receiver_index);
        }
    }
}

/// Finalizes a pending transfer: re-verifies the signature, re-checks
/// the balance, moves the amount, appends the record to both parties'
/// histories, and commits it to the global ledger. Any failure leaves
/// pool and ledger untouched.
pub fn finalize_transaction(pool: &mut UserPool, dag: &mut DAG, pending_tx: PendingTransaction) -> (r: Result<
    (),
    LedgerError,
>)
    requires
        old(pool).wf(),
        old(pool).balanced(),
        old(dag).wf(),
        old(dag).current_height < u64::MAX,
    ensures
        r.is_err() == spec_finalize_check(*old(pool), *old(dag), pending_tx).is_err(),
        r is Err ==> r->Err_0 == spec_finalize_check(*old(pool), *old(dag), pending_tx)->Err_0,
        r is Err ==> *final(pool) == *old(pool) && *final(dag) == *old(dag),
        r is Ok ==> spec_finalized(*old(pool), *final(pool), *old(dag), *final(dag), pending_tx),
{
    match finalize_checks(pool, dag, &pending_tx) {
        Ok(()) => {},
        Err(e) => {
            return Err(e);
        },
    }
    do_finalize(pool, dag, pending_tx);
    Ok(())
}


/// The finalization checks read only the registry and the ledger, so
/// two pools with the same users check alike.
pub proof fn lemma_check_same_users(
    pool_a: UserPool,
    pool_b: UserPool,
    dag: DAG,
    tx: PendingTransaction,
)
    requires
        pool_a.users == pool_b.users,
    ensures
        spec_finalize_check(pool_a, dag, tx) == spec_finalize_check(pool_b, dag, tx),
        pool_a.spec_has_user(tx.sender@) == pool_b.spec_has_user(tx.sender@),
        pool_a.spec_has_user(tx.receiver@) == pool_b.spec_has_user(tx.receiver@),
        pool_a.spec_has_user(tx.sender@) ==> pool_a.spec_user(tx.sender@) == pool_b.spec_user(
            tx.sender@,
        ),
        pool_a.spec_has_user(tx.receiver@) ==> pool_a.spec_user(tx.receiver@) == pool_b.spec_user(
            tx.receiver@,
        ),
{
    assert(pool_a.users@ == pool_b.users@);
    assert(pool_a.spec_user_index(tx.sender@) == pool_b.spec_user_index(tx.sender@));
    assert(pool_a.spec_user_index(tx.receiver@) == pool_b.spec_user_index(tx.receiver@));
}

/// A finalized transfer reads the same against any pool that shares
/// the registry of the one it ran against.
proof fn lemma_confirmed_shift(
    old_pool: UserPool,
    mid_pool: UserPool,
    post_pool: UserPool,
    pre_dag: DAG,
    post_dag: DAG,
    tx: PendingTransaction,
)
    requires
        mid_pool.users == old_pool.users,
        spec_finalized(mid_pool, post_pool, pre_dag, post_dag, tx),
    ensures
        spec_confirmed(old_pool, post_pool, pre_dag, post_dag, tx),
{
    assert(mid_pool.users@ == old_pool.users@);
    assert(mid_pool.spec_user_index(tx.sender@) == old_pool.spec_user_index(tx.sender@));
    assert(mid_pool.spec_user_index(tx.receiver@) == old_pool.spec_user_index(tx.receiver@));
}

/// Confirms a pending transfer on the receiver's behalf: removes it
/// from the pending table and finalizes it. A proposal addressed to
/// someone else stays pending; one that fails finalization is gone all
/// the same, and no balance has moved.
#[verifier::rlimit(100)]
pub fn confirm_transaction(
    pool: &mut UserPool,
    dag: &mut DAG,
    user_name: &str,
    transaction_id: &str,
) -> (r: Result<(), LedgerError>)
    requires
        old(pool).wf(),
        old(pool).balanced(),
        old(dag).wf(),
        old(dag).current_height < u64::MAX,
    ensures
        r == Err::<(), LedgerError>(LedgerError::TxNotFound) <==> !old(pool).spec_has_pending(
            transaction_id@,
        ),
        r == Err::<(), LedgerError>(LedgerError::NotYours) <==> old(pool).spec_has_pending(
            transaction_id@,
        ) && old(pool).spec_pending(transaction_id@).receiver@ != user_name@,
        (r == Err::<(), LedgerError>(LedgerError::TxNotFound) || r == Err::<(), LedgerError>(
            LedgerError::NotYours,
        )) ==> *final(pool) == *old(pool) && *final(dag) == *old(dag),
        old(pool).spec_has_pending(transaction_id@) && old(pool).spec_pending(
            transaction_id@,
        ).receiver@ == user_name@ ==> {
            let pending = old(pool).spec_pending(transaction_id@);
            &&& final(pool).pending_transactions@ == old(pool).pending_transactions@.remove(
                old(pool).spec_pending_index(transaction_id@),
            )
            &&& !final(pool).spec_has_pending(transaction_id@)
            &&& final(pool).wf()
            &&& r.is_err() == spec_finalize_check(*old(pool), *old(dag), pending).is_err()
            &&& (r is Err ==> r->Err_0 == spec_finalize_check(*old(pool), *old(dag), pending)->Err_0)
            &&& (r is Err ==> final(pool).users == old(pool).users && *final(dag) == *old(dag)
                && final(pool).balanced())
            &&& (r is Ok ==> spec_confirmed(
                *old(pool),
                *final(pool),
                *old(dag),
                *final(dag),
                pending,
            ))
        },
{
    let index = match pool.find_pending_index(transaction_id) {
        Some(index) => index,
        None => {
            return Err(LedgerError::TxNotFound);
        },
    };
    if !str_eq(pool.pending_transactions[index].receiver.as_str(), user_name) {
        return Err(LedgerError::NotYours);
    }
    let pending_tx = match pool.remove_pending(transaction_id) {
        Some(pending_tx) => pending_tx,
        None => {
            proof {
                assert(false);
            }
            return Err(LedgerError::TxNotFound);
        },
    };
    let ghost mid_pool = *pool;
    proof {
        lemma_check_same_users(mid_pool, *old(pool), *dag, pending_tx);
    }
    let outcome = finalize_transaction(pool, dag, pending_tx);
    proof {
        if outcome is Ok {
            lemma_confirmed_shift(*old(pool), mid_pool, *pool, *old(dag), *dag, pending_tx);
        }
    }
    outcome
}

/// Drops a pending transfer on the receiver's behalf without touching
/// any balance or history.
pub fn reject_transaction(pool: &mut UserPool, user_name: &str, transaction_id: &str) -> (r: Result<
    (),
    LedgerError,
>)
    requires
        old(pool).wf(),
    ensures
        r == Err::<(), LedgerError>(LedgerError::TxNotFound) <==> !old(pool).spec_has_pending(
            transaction_id@,
        ),
        r == Err::<(), LedgerError>(LedgerError::NotYours) <==> old(pool).spec_has_pending(
            transaction_id@,
        ) && old(pool).spec_pending(transaction_id@).receiver@ != user_name@,
        r is Ok <==> old(pool).spec_has_pending(transaction_id@) && old(pool).spec_pending(
            transaction_id@,
        ).receiver@ == user_name@,
        r is Err ==> *final(pool) == *old(pool),
        r is Ok ==> {
            &&& final(pool).users == old(pool).users
            &&& final(pool).pending_transactions@ == old(pool).pending_transactions@.remove(
                old(pool).spec_pending_index(transaction_id@),
            )
            &&& !final(pool).spec_has_pending(transaction_id@)
            &&& final(pool).wf()
        },
{
    let index = match pool.find_pending_index(transaction_id) {
        Some(index) => index,
        None => {
            return Err(LedgerError::TxNotFound);
        },
    };
    if !str_eq(pool.pending_transactions[index].receiver.as_str(), user_name) {
        return Err(LedgerError::NotYours);
    }
    match pool.remove_pending(transaction_id) {
        Some(_) => Ok(()),
        None => {
            proof {
                assert(false);
            }
            Err(LedgerError::TxNotFound)
        },
    }
}

/// Whether two pending records carry the same proposal, field for
/// field.
pub open spec fn same_pending(a: PendingTransaction, b: PendingTransaction) -> bool {
    &&& a.id@ == b.id@
    &&& a.sender@ == b.sender@
    &&& a.receiver@ == b.receiver@
    &&& a.amount == b.amount
    &&& a.signature@ == b.signature@
    &&& a.timestamp == b.timestamp
}

/// Copies of the pending transfers addressed to one receiver, in the
/// order they were proposed.
pub fn pending_transactions_for(pool: &UserPool, user_name: &str) -> (r: Vec<PendingTransaction>)
    ensures
        r@.len() == pool.pending_transactions@.filter(
            |tx: PendingTransaction| tx.receiver@ == user_name@,
        ).len(),
        forall|k: int|
            0 <= k < r@.len() ==> same_pending(
                #[trigger] r@[k],
                pool.pending_transactions@.filter(
                    |tx: PendingTransaction| tx.receiver@ == user_name@,
                )[k],
            ),
{
    let ghost pred = |tx: PendingTransaction| tx.receiver@ == user_name@;
    let mut r: Vec<PendingTransaction> = Vec::new();
    let mut i: usize = 0;
    proof {
        assert(pool.pending_transactions@.take(0).filter(pred) =~= Seq::<
            PendingTransaction,
        >::empty()) by {
            assert(pool.pending_transactions@.take(0) =~= Seq::<PendingTransaction>::empty());
            reveal(Seq::filter);
        }
    }
    while i < pool.pending_transactions.len()
        invariant
            i <= pool.pending_transactions@.len(),
            pred == (|tx: PendingTransaction| tx.receiver@ == user_name@),
            r@.len() == pool.pending_transactions@.take(i as int).filter(pred).len(),
            forall|k: int|
                0 <= k < r@.len() ==> same_pending(
                    #[trigger] r@[k],
                    pool.pending_transactions@.take(i as int).filter(pred)[k],
                ),
        decreases pool.pending_transactions@.len() - i,
    {
        let ghost before = pool.pending_transactions@.take(i as int);
        let ghost after = pool.pending_transactions@.take(i as int + 1);
        proof {
            reveal(Seq::filter);
            assert(after.drop_last() =~= before);
            assert(after.last() == pool.pending_transactions@[i as int]);
        }
        if str_eq(pool.pending_transactions[i].receiver.as_str(), user_name) {
            r.push(pool.pending_transactions[i].clone());
            proof {
                assert(after.filter(pred) =~= before.filter(pred).push(after.last()));
            }
        } else {
            proof {
                assert(after.filter(pred) =~= before.filter(pred));
            }
        }
        i = i + 1;
    }
    proof {
        assert(pool.pending_transactions@.take(pool.pending_transactions@.len() as int)
            =~= pool.pending_transactions@);
    }
    r
}


/// Cross-checks one committed transfer: some committed record with the
/// id exists whose sender and receiver are registered, both of their
/// histories hold a record with the id, the two records' content
/// hashes agree, and the committed signature verifies under the
/// sender's current key.
pub open spec fn spec_tx_verified(pool: UserPool, dag: DAG, id: Seq<char>) -> bool {
    exists|i: int, j: int|
        0 <= i < dag.blocks@.len() && 0 <= j < (#[trigger] dag.blocks@[i]).transactions@.len() && {
            let record = #[trigger] dag.blocks@[i].transactions@[j];
            &&& record.id@ == id
            &&& pool.spec_has_user(record.sender@)
            &&& pool.spec_has_user(record.receiver@)
            &&& pool.spec_user(record.sender@).local_dag.spec_contains_id(id)
            &&& pool.spec_user(record.receiver@).local_dag.spec_contains_id(id)
            &&& sig_valid(
                pool.spec_user(record.sender@).public_key@,
                canonical_msg(record.id@, record.sender@, record.receiver@, record.amount, record.timestamp),
                record.signature@,
            )
        }
}

/// Everything the cross-check examines, in the order it examines it:
/// the first committed record with the id decides; its sender and
/// receiver must be registered and both their histories must hold the
/// id, the two held records must hash alike, and the committed
/// signature must verify under the sender's current key.
pub open spec fn spec_verify_check(pool: UserPool, dag: DAG, id: Seq<char>) -> Result<
    (),
    LedgerError,
> {
    match crate::dag::spec_find_tx(dag.blocks@, id) {
        None => Err(LedgerError::TxNotFound),
        Some(record) => {
            if !pool.spec_has_user(record.sender@) {
                Err(LedgerError::TxNotFound)
            } else if !pool.spec_user(record.sender@).local_dag.spec_contains_id(id) {
                Err(LedgerError::TxNotFound)
            } else if !pool.spec_has_user(record.receiver@) {
                Err(LedgerError::TxNotFound)
            } else if !pool.spec_user(record.receiver@).local_dag.spec_contains_id(id) {
                Err(LedgerError::TxNotFound)
            } else if pool.spec_user(record.sender@).local_dag.spec_record(id).spec_content_hash()
                != pool.spec_user(record.receiver@).local_dag.spec_record(id).spec_content_hash() {
                Err(LedgerError::HashMismatch)
            } else if !sig_valid(
                pool.spec_user(record.sender@).public_key@,
                canonical_msg(
                    record.id@,
                    record.sender@,
                    record.receiver@,
                    record.amount,
                    record.timestamp,
                ),
                record.signature@,
            ) {
                Err(LedgerError::BadSignature)
            } else {
                Ok(())
            }
        },
    }
}

/// Cross-checks a committed transfer against both parties' histories:
/// their records of it must hash alike and the committed signature
/// must verify under the sender's current key.
#[verifier::rlimit(100)]
pub fn verify_transaction(pool: &UserPool, dag: &DAG, transaction_id: &str) -> (r: Result<
    (),
    LedgerError,
>)
    requires
        pool.wf(),
    ensures
        r == spec_verify_check(*pool, *dag, transaction_id@),
        r is Ok ==> spec_tx_verified(*pool, *dag, transaction_id@),
{
    let ghost found = crate::dag::spec_find_tx(dag.blocks@, transaction_id@);
    let global_tx = match dag.get_transaction(transaction_id) {
        Some(tx) => tx,
        None => {
            return Err(LedgerError::TxNotFound);
        },
    };
    let sender = match pool.get_user(global_tx.sender.as_str()) {
        Some(user) => user,
        None => {
            return Err(LedgerError::TxNotFound);
        },
    };
    let sender_tx = match sender.local_dag.get_transaction_by_id(transaction_id) {
        Some(tx) => tx,
        None => {
            return Err(LedgerError::TxNotFound);
        },
    };
    let receiver = match pool.get_user(global_tx.receiver.as_str()) {
        Some(user) => user,
        None => {
            return Err(LedgerError::TxNotFound);
        },
    };
    let receiver_tx = match receiver.local_dag.get_transaction_by_id(transaction_id) {
        Some(tx) => tx,
        None => {
            return Err(LedgerError::TxNotFound);
        },
    };
    proof {
        crate::local_chain::lemma_record_unique(sender.local_dag, *sender_tx, transaction_id@);
        crate::local_chain::lemma_record_unique(receiver.local_dag, *receiver_tx, transaction_id@);
    }
    let sender_hash = sender_tx.compute_hash();
    let receiver_hash = receiver_tx.compute_hash();
    if !bytes_eq(&sender_hash, &receiver_hash) {
        return Err(LedgerError::HashMismatch);
    }
    let message = canonical_message(
        global_tx.id.as_str(),
        global_tx.sender.as_str(),
        global_tx.receiver.as_str(),
        global_tx.amount,
        global_tx.timestamp,
    );
    match KeyPairWrapper::verify(&sender.public_key, message.as_str(), &global_tx.signature) {
        Ok(()) => {
            proof {
                crate::dag::lemma_find_tx_witness(dag.blocks@, transaction_id@);
            }
            Ok(())
        },
        Err(_) => Err(LedgerError::BadSignature),
    }
}

} // verus!
